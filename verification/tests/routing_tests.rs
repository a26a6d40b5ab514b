use library_bot::keyboards::{folder_page_data, search_page_data, BrowseItem};
use library_bot::models::{DialogueState, Folder};
use library_bot::routing::{
    next_state_after_callback, page_number, route_callback, route_message, CallbackRoute,
    MessageRoute,
};

#[test]
fn fixed_callbacks() {
    assert_eq!(route_callback(Some("main_menu")), CallbackRoute::MainMenu);
    assert_eq!(route_callback(Some("browse_root")), CallbackRoute::BrowseRoot);
    assert_eq!(route_callback(Some("search_books")), CallbackRoute::SearchStart);
    assert_eq!(route_callback(Some("cancel_search")), CallbackRoute::CancelSearch);
    assert_eq!(route_callback(Some("contribute")), CallbackRoute::ContributeStart);
    assert_eq!(route_callback(Some("finish_contribution")), CallbackRoute::FinishContribution);
    assert_eq!(route_callback(Some("about")), CallbackRoute::About);
    assert_eq!(route_callback(Some("noop")), CallbackRoute::Noop);
    assert_eq!(route_callback(Some("nothing")), CallbackRoute::Unhandled);
    assert_eq!(route_callback(None), CallbackRoute::Unhandled);
}

#[test]
fn prefixed_callbacks() {
    assert_eq!(route_callback(Some("open_folder:42")), CallbackRoute::OpenFolder("42".to_string()));
    assert_eq!(route_callback(Some("open_file:")), CallbackRoute::OpenFile(String::new()));
    assert_eq!(
        route_callback(Some("page:a:b:3")),
        CallbackRoute::FolderPage { folder_id: Some("a:b".to_string()), page: 3 }
    );
    assert_eq!(
        route_callback(Some("page:x:oops")),
        CallbackRoute::FolderPage { folder_id: Some("x".to_string()), page: 1 }
    );
    assert_eq!(route_callback(Some("page:nocolon")), CallbackRoute::FolderPageIgnored);
    assert_eq!(route_callback(Some("page_root:4")), CallbackRoute::FolderPage { folder_id: None, page: 4 });
    assert_eq!(route_callback(Some("search_page:+2")), CallbackRoute::SearchPage(2));
    assert_eq!(route_callback(Some("search_page:-2")), CallbackRoute::SearchPage(1));
    assert_eq!(page_number("0"), 0);
    assert_eq!(page_number("x"), 1);
}

#[test]
fn drawn_buttons_come_back_to_their_handlers() {
    let f = BrowseItem::Folder(Folder { id: "id:with:colons".to_string(), name: "n".to_string(), parent_id: None });
    assert_eq!(route_callback(Some(&f.callback())), CallbackRoute::OpenFolder("id:with:colons".to_string()));
    assert_eq!(
        route_callback(Some(&folder_page_data(Some("id:with:colons"), 9))),
        CallbackRoute::FolderPage { folder_id: Some("id:with:colons".to_string()), page: 9 }
    );
    assert_eq!(
        route_callback(Some(&folder_page_data(None, usize::MAX))),
        CallbackRoute::FolderPage { folder_id: None, page: usize::MAX }
    );
    assert_eq!(route_callback(Some(&search_page_data(5))), CallbackRoute::SearchPage(5));
}

#[test]
fn message_routes() {
    let waiting = DialogueState::AwaitingContributeFile { description: "C++".to_string() };
    assert_eq!(route_message(&waiting, true, true, false), MessageRoute::Command);
    assert_eq!(route_message(&waiting, false, false, true), MessageRoute::ContributeFile("C++".to_string()));
    assert_eq!(route_message(&waiting, false, true, false), MessageRoute::Unhandled);
    assert_eq!(route_message(&DialogueState::AwaitingContributeInfo, false, true, false), MessageRoute::ContributeInfo);
    assert_eq!(route_message(&DialogueState::AwaitingSearchKeyword, false, true, true), MessageRoute::SearchKeyword);
    assert_eq!(route_message(&DialogueState::AwaitingSearchKeyword, false, false, true), MessageRoute::Unhandled);
    assert_eq!(route_message(&DialogueState::Idle, false, true, true), MessageRoute::Unhandled);
}

#[test]
fn dialogue_after_callbacks() {
    let waiting = DialogueState::AwaitingContributeFile { description: "d".to_string() };
    assert_eq!(next_state_after_callback(&CallbackRoute::MainMenu, waiting.clone()), DialogueState::Idle);
    assert_eq!(next_state_after_callback(&CallbackRoute::FinishContribution, waiting.clone()), DialogueState::Idle);
    assert_eq!(next_state_after_callback(&CallbackRoute::CancelSearch, DialogueState::AwaitingSearchKeyword), DialogueState::Idle);
    assert_eq!(next_state_after_callback(&CallbackRoute::SearchStart, DialogueState::Idle), DialogueState::AwaitingSearchKeyword);
    assert_eq!(next_state_after_callback(&CallbackRoute::ContributeStart, DialogueState::Idle), DialogueState::AwaitingContributeInfo);
    assert_eq!(next_state_after_callback(&CallbackRoute::BrowseRoot, waiting.clone()), waiting);
    assert_eq!(DialogueState::default(), DialogueState::Idle);
}
