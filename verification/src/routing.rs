use vstd::prelude::*;

use crate::models::DialogueState;
use crate::keyboards::{
    file_callback, file_rows, folder_callback,
    folder_control_row, folder_keyboard_view, folder_page_callback, folder_page_drawable,
    folder_total_pages, item_rows, lemma_folder_nav_drawable,
    lemma_search_nav_drawable, nav_part, nav_row, page_end, page_start, search_keyboard_view,
    search_page_callback, search_page_drawable, search_total_pages, BrowseItem,
};
use crate::models::File;
use crate::text::{
    decimal, has_prefix, last_index, last_index_of, lemma_decimal_digits, lemma_last_index_skips,
    lemma_not_prefix, lemma_parse_decimal, parse_unsigned, parse_usize, same_text, strip_prefix,
};

verus! {

/// The handler that a callback query goes to, with what it reads from the
/// callback data.
#[derive(Debug, Clone, PartialEq, Eq)]
pub enum CallbackRoute {
    MainMenu,
    BrowseRoot,
    SearchStart,
    CancelSearch,
    ContributeStart,
    FinishContribution,
    About,
    /// `open_folder:<id>`
    OpenFolder(String),
    /// `open_file:<id>`
    OpenFile(String),
    /// `page:<folder id>:<page>` (with a folder) or `page_root:<page>`
    /// (without one).
    FolderPage { folder_id: Option<String>, page: usize },
    /// `page:` data without a second colon: answered, nothing shown.
    FolderPageIgnored,
    /// `search_page:<page>`
    SearchPage(usize),
    /// The page counter, which does nothing.
    Noop,
    /// Data that no handler takes.
    Unhandled,
}

/// The view of a `CallbackRoute`.
pub enum RouteView {
    MainMenu,
    BrowseRoot,
    SearchStart,
    CancelSearch,
    ContributeStart,
    FinishContribution,
    About,
    OpenFolder(Seq<char>),
    OpenFile(Seq<char>),
    FolderPage(Option<Seq<char>>, nat),
    FolderPageIgnored,
    SearchPage(nat),
    Noop,
    Unhandled,
}

impl View for CallbackRoute {
    type V = RouteView;

    open spec fn view(&self) -> RouteView {
        match self {
            CallbackRoute::MainMenu => RouteView::MainMenu,
            CallbackRoute::BrowseRoot => RouteView::BrowseRoot,
            CallbackRoute::SearchStart => RouteView::SearchStart,
            CallbackRoute::CancelSearch => RouteView::CancelSearch,
            CallbackRoute::ContributeStart => RouteView::ContributeStart,
            CallbackRoute::FinishContribution => RouteView::FinishContribution,
            CallbackRoute::About => RouteView::About,
            CallbackRoute::OpenFolder(id) => RouteView::OpenFolder(id@),
            CallbackRoute::OpenFile(id) => RouteView::OpenFile(id@),
            CallbackRoute::FolderPage { folder_id, page } => RouteView::FolderPage(
                match folder_id {
                    Some(id) => Some(id@),
                    None => None,
                },
                *page as nat,
            ),
            CallbackRoute::FolderPageIgnored => RouteView::FolderPageIgnored,
            CallbackRoute::SearchPage(p) => RouteView::SearchPage(*p as nat),
            CallbackRoute::Noop => RouteView::Noop,
            CallbackRoute::Unhandled => RouteView::Unhandled,
        }
    }
}

/// `s` after the prefix `p`.
pub open spec fn after(s: Seq<char>, p: Seq<char>) -> Seq<char> {
    s.subrange(p.len() as int, s.len() as int)
}

/// A page number as the handlers read it: the number, or 1 where the text
/// is not one.
pub open spec fn page_or_first(s: Seq<char>) -> nat {
    match parse_unsigned(s, usize::MAX as nat) {
        Some(p) => p,
        None => 1,
    }
}

/// What `page:` data selects: the folder is everything up to the last
/// colon, the page everything after it.
pub open spec fn folder_page_route(rest: Seq<char>) -> RouteView {
    let c = last_index(rest, ':');
    if c == -1 {
        RouteView::FolderPageIgnored
    } else {
        RouteView::FolderPage(
            Some(rest.subrange(0, c)),
            page_or_first(rest.subrange(c + 1, rest.len() as int)),
        )
    }
}

/// The handler for callback data, in the order in which the handlers are
/// tried: the fixed commands, then the prefixes, then the page counter.
pub open spec fn route_of(d: Seq<char>) -> RouteView {
    if d == "main_menu"@ {
        RouteView::MainMenu
    } else if d == "browse_root"@ {
        RouteView::BrowseRoot
    } else if d == "search_books"@ {
        RouteView::SearchStart
    } else if d == "cancel_search"@ {
        RouteView::CancelSearch
    } else if d == "contribute"@ {
        RouteView::ContributeStart
    } else if d == "finish_contribution"@ {
        RouteView::FinishContribution
    } else if d == "about"@ {
        RouteView::About
    } else if has_prefix(d, "open_folder:"@) {
        RouteView::OpenFolder(after(d, "open_folder:"@))
    } else if has_prefix(d, "open_file:"@) {
        RouteView::OpenFile(after(d, "open_file:"@))
    } else if has_prefix(d, "page:"@) {
        folder_page_route(after(d, "page:"@))
    } else if has_prefix(d, "page_root:"@) {
        RouteView::FolderPage(None, page_or_first(after(d, "page_root:"@)))
    } else if has_prefix(d, "search_page:"@) {
        RouteView::SearchPage(page_or_first(after(d, "search_page:"@)))
    } else if d == "noop"@ {
        RouteView::Noop
    } else {
        RouteView::Unhandled
    }
}

pub open spec fn route_of_data(data: Option<Seq<char>>) -> RouteView {
    match data {
        Some(d) => route_of(d),
        None => RouteView::Unhandled,
    }
}

/// A page number as the handlers read it: `parse().unwrap_or(1)`.
pub fn page_number(s: &str) -> (r: usize)
    ensures
        r as nat == page_or_first(s@),
{
    match parse_usize(s) {
        Some(p) => p,
        None => 1,
    }
}

/// Picks the handler for the callback data of a pressed button.
pub fn route_callback(data: Option<&str>) -> (r: CallbackRoute)
    ensures
        r@ == route_of_data(
            match data {
                Some(d) => Some(d@),
                None => None,
            },
        ),
{
    let d = match data {
        Some(d) => d,
        None => return CallbackRoute::Unhandled,
    };
    if same_text(d, "main_menu") {
        return CallbackRoute::MainMenu;
    }
    if same_text(d, "browse_root") {
        return CallbackRoute::BrowseRoot;
    }
    if same_text(d, "search_books") {
        return CallbackRoute::SearchStart;
    }
    if same_text(d, "cancel_search") {
        return CallbackRoute::CancelSearch;
    }
    if same_text(d, "contribute") {
        return CallbackRoute::ContributeStart;
    }
    if same_text(d, "finish_contribution") {
        return CallbackRoute::FinishContribution;
    }
    if same_text(d, "about") {
        return CallbackRoute::About;
    }
    if let Some(id) = strip_prefix(d, "open_folder:") {
        return CallbackRoute::OpenFolder(String::from_str(id));
    }
    if let Some(id) = strip_prefix(d, "open_file:") {
        return CallbackRoute::OpenFile(String::from_str(id));
    }
    if let Some(rest) = strip_prefix(d, "page:") {
        return match last_index_of(rest, ':') {
            Some(c) => {
                let n = rest.unicode_len();
                let folder = rest.substring_char(0, c);
                let page_text = rest.substring_char(c + 1, n);
                CallbackRoute::FolderPage {
                    folder_id: Some(String::from_str(folder)),
                    page: page_number(page_text),
                }
            },
            None => CallbackRoute::FolderPageIgnored,
        };
    }
    if let Some(rest) = strip_prefix(d, "page_root:") {
        return CallbackRoute::FolderPage { folder_id: None, page: page_number(rest) };
    }
    if let Some(rest) = strip_prefix(d, "search_page:") {
        return CallbackRoute::SearchPage(page_number(rest));
    }
    if same_text(d, "noop") {
        return CallbackRoute::Noop;
    }
    CallbackRoute::Unhandled
}

/// The handler that a message goes to.
#[derive(Debug, Clone, PartialEq, Eq)]
pub enum MessageRoute {
    /// A command (`/start`), whatever the dialogue state.
    Command,
    /// The description of a contribution.
    ContributeInfo,
    /// A file of a contribution, with the description given before.
    ContributeFile(String),
    /// A search keyword.
    SearchKeyword,
    /// A message that no handler takes.
    Unhandled,
}

/// Picks the handler for a message: commands first, then the handler that
/// the dialogue state waits for, where the message has what it needs (text,
/// or a document or video).
pub fn route_message(
    state: &DialogueState,
    is_command: bool,
    has_text: bool,
    has_attachment: bool,
) -> (r: MessageRoute)
    ensures
        is_command ==> r is Command,
        !is_command ==> match *state {
            DialogueState::AwaitingContributeInfo => if has_text {
                r is ContributeInfo
            } else {
                r is Unhandled
            },
            DialogueState::AwaitingContributeFile { description } => if has_attachment {
                r matches MessageRoute::ContributeFile(d) && d@ == description@
            } else {
                r is Unhandled
            },
            DialogueState::AwaitingSearchKeyword => if has_text {
                r is SearchKeyword
            } else {
                r is Unhandled
            },
            DialogueState::Idle => r is Unhandled,
        },
{
    if is_command {
        return MessageRoute::Command;
    }
    match state {
        DialogueState::AwaitingContributeInfo => if has_text {
            MessageRoute::ContributeInfo
        } else {
            MessageRoute::Unhandled
        },
        DialogueState::AwaitingContributeFile { description } => if has_attachment {
            MessageRoute::ContributeFile(description.clone())
        } else {
            MessageRoute::Unhandled
        },
        DialogueState::AwaitingSearchKeyword => if has_text {
            MessageRoute::SearchKeyword
        } else {
            MessageRoute::Unhandled
        },
        DialogueState::Idle => MessageRoute::Unhandled,
    }
}

/// The dialogue state after a callback: the main menu, cancelling a search
/// and finishing a contribution end the dialogue; the search and contribute
/// buttons start one; everything else leaves it as it was.
pub open spec fn state_after_callback(route: RouteView, state: DialogueState) -> DialogueState {
    match route {
        RouteView::MainMenu => DialogueState::Idle,
        RouteView::CancelSearch => DialogueState::Idle,
        RouteView::FinishContribution => DialogueState::Idle,
        RouteView::SearchStart => DialogueState::AwaitingSearchKeyword,
        RouteView::ContributeStart => DialogueState::AwaitingContributeInfo,
        _ => state,
    }
}

/// The dialogue state after a callback.
pub fn next_state_after_callback(route: &CallbackRoute, state: DialogueState) -> (r:
    DialogueState)
    ensures
        r == state_after_callback(route@, state),
{
    match route {
        CallbackRoute::MainMenu => DialogueState::Idle,
        CallbackRoute::CancelSearch => DialogueState::Idle,
        CallbackRoute::FinishContribution => DialogueState::Idle,
        CallbackRoute::SearchStart => DialogueState::AwaitingSearchKeyword,
        CallbackRoute::ContributeStart => DialogueState::AwaitingContributeInfo,
        _ => state,
    }
}


/// The lengths and the characters of the callback names that tell them
/// apart.
proof fn lemma_route_names()
    ensures
        "main_menu"@.len() == 9,
        "main_menu"@[0] == 'm',
        "browse_root"@.len() == 11,
        "browse_root"@[0] == 'b',
        "search_books"@.len() == 12,
        "search_books"@[0] == 's',
        "search_books"@[7] == 'b',
        "cancel_search"@.len() == 13,
        "cancel_search"@[0] == 'c',
        "cancel_search"@[1] == 'a',
        "contribute"@.len() == 10,
        "contribute"@[0] == 'c',
        "contribute"@[1] == 'o',
        "finish_contribution"@.len() == 19,
        "finish_contribution"@[0] == 'f',
        "finish_contribution"@[1] == 'i',
        "about"@.len() == 5,
        "about"@[0] == 'a',
        "about"@[1] == 'b',
        "open_folder:"@.len() == 12,
        "open_folder:"@[0] == 'o',
        "open_folder:"@[1] == 'p',
        "open_folder:"@[6] == 'o',
        "open_file:"@.len() == 10,
        "open_file:"@[0] == 'o',
        "open_file:"@[1] == 'p',
        "open_file:"@[6] == 'i',
        "page:"@.len() == 5,
        "page:"@[0] == 'p',
        "page:"@[1] == 'a',
        "page:"@[4] == ':',
        "page_root:"@.len() == 10,
        "page_root:"@[0] == 'p',
        "page_root:"@[1] == 'a',
        "page_root:"@[4] == '_',
        "search_page:"@.len() == 12,
        "search_page:"@[0] == 's',
        "search_page:"@[7] == 'p',
        "noop"@.len() == 4,
        "noop"@[0] == 'n',
        "noop"@[1] == 'o',
        ":"@.len() == 1,
        ":"@[0] == ':',
{
    reveal_strlit("main_menu");
    reveal_strlit("browse_root");
    reveal_strlit("search_books");
    reveal_strlit("cancel_search");
    reveal_strlit("contribute");
    reveal_strlit("finish_contribution");
    reveal_strlit("about");
    reveal_strlit("open_folder:");
    reveal_strlit("open_file:");
    reveal_strlit("page:");
    reveal_strlit("page_root:");
    reveal_strlit("search_page:");
    reveal_strlit("noop");
    reveal_strlit(":");
}

/// Data that begins with a character no fixed name begins with is none of
/// the fixed names.
proof fn lemma_not_fixed(d: Seq<char>)
    requires
        d.len() > 1,
        d[0] != 'm' && d[0] != 'b' && d[0] != 'a' && d[0] != 'f',
        d[0] == 's' ==> d.len() > 7 && d[7] != 'b',
        d[0] == 'c' ==> d[1] != 'a' && d[1] != 'o',
    ensures
        d != "main_menu"@,
        d != "browse_root"@,
        d != "search_books"@,
        d != "cancel_search"@,
        d != "contribute"@,
        d != "finish_contribution"@,
        d != "about"@,
{
    lemma_route_names();
    lemma_not_prefix(d, "main_menu"@, 0);
    lemma_not_prefix(d, "browse_root"@, 0);
    lemma_not_prefix(d, "about"@, 0);
    lemma_not_prefix(d, "finish_contribution"@, 0);
    if d[0] == 's' {
        lemma_not_prefix(d, "search_books"@, 7);
    } else {
        lemma_not_prefix(d, "search_books"@, 0);
    }
    if d[0] == 'c' {
        lemma_not_prefix(d, "cancel_search"@, 1);
        lemma_not_prefix(d, "contribute"@, 1);
    } else {
        lemma_not_prefix(d, "cancel_search"@, 0);
        lemma_not_prefix(d, "contribute"@, 0);
    }
}

/// The buttons with fixed data reach the handlers that they name.
pub proof fn lemma_fixed_routes()
    ensures
        route_of("main_menu"@) == RouteView::MainMenu,
        route_of("browse_root"@) == RouteView::BrowseRoot,
        route_of("search_books"@) == RouteView::SearchStart,
        route_of("cancel_search"@) == RouteView::CancelSearch,
        route_of("contribute"@) == RouteView::ContributeStart,
        route_of("finish_contribution"@) == RouteView::FinishContribution,
        route_of("about"@) == RouteView::About,
        route_of("noop"@) == RouteView::Noop,
{
    lemma_route_names();
    lemma_not_prefix("browse_root"@, "main_menu"@, 0);
    lemma_not_prefix("search_books"@, "main_menu"@, 0);
    lemma_not_prefix("search_books"@, "browse_root"@, 0);
    lemma_not_prefix("cancel_search"@, "main_menu"@, 0);
    lemma_not_prefix("cancel_search"@, "browse_root"@, 0);
    lemma_not_prefix("cancel_search"@, "search_books"@, 0);
    lemma_not_prefix("contribute"@, "main_menu"@, 0);
    lemma_not_prefix("contribute"@, "browse_root"@, 0);
    lemma_not_prefix("contribute"@, "search_books"@, 0);
    lemma_not_prefix("contribute"@, "cancel_search"@, 1);
    lemma_not_prefix("finish_contribution"@, "main_menu"@, 0);
    lemma_not_prefix("finish_contribution"@, "browse_root"@, 0);
    lemma_not_prefix("finish_contribution"@, "search_books"@, 0);
    lemma_not_prefix("finish_contribution"@, "cancel_search"@, 0);
    lemma_not_prefix("finish_contribution"@, "contribute"@, 0);
    lemma_not_prefix("about"@, "main_menu"@, 0);
    lemma_not_prefix("about"@, "browse_root"@, 0);
    lemma_not_prefix("about"@, "search_books"@, 0);
    lemma_not_prefix("about"@, "cancel_search"@, 0);
    lemma_not_prefix("about"@, "contribute"@, 0);
    lemma_not_prefix("about"@, "finish_contribution"@, 0);
    let n = "noop"@;
    lemma_not_fixed(n);
    lemma_not_prefix(n, "open_folder:"@, 0);
    lemma_not_prefix(n, "open_file:"@, 0);
    lemma_not_prefix(n, "page:"@, 0);
    lemma_not_prefix(n, "page_root:"@, 0);
    lemma_not_prefix(n, "search_page:"@, 0);
}

/// The button of a folder opens that folder.
pub proof fn lemma_open_folder_route(id: Seq<char>)
    ensures
        route_of(folder_callback(id)) == RouteView::OpenFolder(id),
{
    lemma_route_names();
    let d = folder_callback(id);
    assert(d[0] == 'o' && d[1] == 'p');
    lemma_not_fixed(d);
    assert(d.subrange(0, "open_folder:"@.len() as int) =~= "open_folder:"@);
    assert(after(d, "open_folder:"@) =~= id);
}

/// The button of a file opens that file.
pub proof fn lemma_open_file_route(id: Seq<char>)
    ensures
        route_of(file_callback(id)) == RouteView::OpenFile(id),
{
    lemma_route_names();
    let d = file_callback(id);
    assert(d[0] == 'o' && d[1] == 'p' && d[6] == 'i');
    lemma_not_fixed(d);
    lemma_not_prefix(d, "open_folder:"@, 6);
    assert(d.subrange(0, "open_file:"@.len() as int) =~= "open_file:"@);
    assert(after(d, "open_file:"@) =~= id);
}

/// A page button of a folder listing shows that page of that folder (or of
/// the root), whatever the folder's id holds, colons included.
pub proof fn lemma_folder_page_route(folder: Option<Seq<char>>, p: nat)
    requires
        p <= usize::MAX,
    ensures
        route_of(folder_page_callback(folder, p)) == RouteView::FolderPage(folder, p),
{
    lemma_route_names();
    lemma_parse_decimal(p, usize::MAX as nat);
    lemma_decimal_digits(p);
    let digits = decimal(p);
    let d = folder_page_callback(folder, p);
    assert(d[0] == 'p' && d[1] == 'a');
    lemma_not_fixed(d);
    lemma_not_prefix(d, "open_folder:"@, 0);
    lemma_not_prefix(d, "open_file:"@, 0);
    match folder {
        Some(id) => {
            assert(d.subrange(0, "page:"@.len() as int) =~= "page:"@);
            let rest = after(d, "page:"@);
            let head = id + ":"@;
            assert(rest =~= head + digits);
            assert forall|i: int| 0 <= i < digits.len() implies digits[i] != ':' by {
                assert(crate::text::is_digit(digits[i]));
            }
            lemma_last_index_skips(head, digits, ':');
            assert(head.drop_last() =~= id);
            assert(last_index(head, ':') == id.len());
            assert(rest.subrange(0, id.len() as int) =~= id);
            assert(rest.subrange(id.len() as int + 1, rest.len() as int) =~= digits);
        },
        None => {
            assert(d[4] == '_');
            lemma_not_prefix(d, "page:"@, 4);
            assert(d.subrange(0, "page_root:"@.len() as int) =~= "page_root:"@);
            assert(after(d, "page_root:"@) =~= digits);
        },
    }
}

/// A page button of search results shows that page.
pub proof fn lemma_search_page_route(p: nat)
    requires
        p <= usize::MAX,
    ensures
        route_of(search_page_callback(p)) == RouteView::SearchPage(p),
{
    lemma_route_names();
    lemma_parse_decimal(p, usize::MAX as nat);
    let d = search_page_callback(p);
    assert(d[0] == 's' && d[7] == 'p');
    lemma_not_fixed(d);
    lemma_not_prefix(d, "open_folder:"@, 0);
    lemma_not_prefix(d, "open_file:"@, 0);
    lemma_not_prefix(d, "page:"@, 0);
    lemma_not_prefix(d, "page_root:"@, 0);
    assert(d.subrange(0, "search_page:"@.len() as int) =~= "search_page:"@);
    assert(after(d, "search_page:"@) =~= decimal(p));
}

/// Wherever the dialogue stands, the home button, cancelling a search and
/// finishing a contribution end it; the search and contribute buttons start
/// their flows afresh; every other button leaves it where it is.
pub proof fn lemma_callback_states(state: DialogueState, route: RouteView)
    ensures
        (route is MainMenu || route is CancelSearch || route is FinishContribution)
            ==> state_after_callback(route, state) == DialogueState::Idle,
        route is SearchStart ==> state_after_callback(route, state)
            == DialogueState::AwaitingSearchKeyword,
        route is ContributeStart ==> state_after_callback(route, state)
            == DialogueState::AwaitingContributeInfo,
        !(route is MainMenu || route is CancelSearch || route is FinishContribution
            || route is SearchStart || route is ContributeStart) ==> state_after_callback(
            route,
            state,
        ) == state,
{
}

/// The handler that the button of a listing entry reaches: the one that
/// opens that entry.
pub open spec fn item_route(item: BrowseItem) -> RouteView {
    match item {
        BrowseItem::Folder(f) => RouteView::OpenFolder(f.id@),
        BrowseItem::File(f) => RouteView::OpenFile(f.id@),
    }
}

/// Where a navigation button of a folder listing may lead: the page
/// counter, or a page of the same folder that can be drawn.
pub open spec fn folder_nav_ok(d: Seq<char>, folder: Option<Seq<char>>, n: nat, page_size: nat) -> bool {
    ||| route_of(d) == RouteView::Noop
    ||| route_of(d) matches RouteView::FolderPage(f, p) && f == folder && folder_page_drawable(
        n,
        p,
        page_size,
    )
}

/// Where a navigation button of search results may lead: the page counter,
/// or a page of results that can be drawn.
pub open spec fn search_nav_ok(d: Seq<char>, n: nat, page_size: nat) -> bool {
    ||| route_of(d) == RouteView::Noop
    ||| route_of(d) matches RouteView::SearchPage(p) && search_page_drawable(n, p, page_size)
}

/// Where a bottom button of a folder listing leads: back to the parent
/// folder, or, at the root, home, contribute or about.
pub open spec fn folder_control_ok(d: Seq<char>, parent: Option<Seq<char>>) -> bool {
    match parent {
        Some(pid) => route_of(d) == RouteView::OpenFolder(pid),
        None => route_of(d) == RouteView::MainMenu || route_of(d) == RouteView::ContributeStart
            || route_of(d) == RouteView::About,
    }
}

proof fn lemma_folder_nav_row(n: nat, page: nat, page_size: nat, folder: Option<Seq<char>>)
    requires
        folder_page_drawable(n, page, page_size),
        page <= usize::MAX,
    ensures
        ({
            let total = folder_total_pages(n, page_size);
            let nav = nav_row(
                page,
                total,
                folder_page_callback(folder, (page - 1) as nat),
                folder_page_callback(folder, page + 1),
            );
            forall|j: int| 0 <= j < nav.len() ==> folder_nav_ok(#[trigger] nav[j].1, folder, n, page_size)
        }),
{
    let total = folder_total_pages(n, page_size);
    lemma_folder_nav_drawable(n, page, page_size);
    lemma_fixed_routes();
    if page > 1 {
        lemma_folder_page_route(folder, (page - 1) as nat);
    }
    if page < total {
        let a: int = n + page_size - 1;
        let b: int = if page_size >= 1 { page_size as int } else { 1int };
        let c: int = if a >= 1 { a } else { 1int };
        assert(total == c / b);
        assert(c / b <= c) by (nonlinear_arith)
            requires
                b >= 1,
                c >= 1,
        ;
        lemma_folder_page_route(folder, page + 1);
    }
}

proof fn lemma_search_nav_row(n: nat, page: nat, page_size: nat)
    requires
        search_page_drawable(n, page, page_size),
        page <= usize::MAX,
    ensures
        ({
            let total = search_total_pages(n, page_size);
            let nav = nav_row(
                page,
                total,
                search_page_callback((page - 1) as nat),
                search_page_callback(page + 1),
            );
            forall|j: int| 0 <= j < nav.len() ==> search_nav_ok(#[trigger] nav[j].1, n, page_size)
        }),
{
    let total = search_total_pages(n, page_size);
    lemma_search_nav_drawable(n, page, page_size);
    lemma_fixed_routes();
    if page > 1 {
        lemma_search_page_route((page - 1) as nat);
    }
    if page < total {
        let a: int = n + page_size - 1;
        let q: int = a / (page_size as int);
        assert(q <= a) by (nonlinear_arith)
            requires
                a >= 0,
                page_size >= 1,
                q == a / (page_size as int),
        ;
        lemma_search_page_route(page + 1);
    }
}

/// Every button of a folder listing reaches the handler for what it shows:
/// an entry's button opens that entry, a navigation button shows a page of
/// the same folder that can itself be drawn (or is the page counter), and
/// a bottom button goes back to the parent folder or, at the root, to the
/// main menu, the contribution form or the about page.
pub proof fn lemma_folder_keyboard_routes(
    items: Seq<BrowseItem>,
    page: nat,
    page_size: nat,
    parent: Option<Seq<char>>,
    folder: Option<Seq<char>>,
)
    requires
        folder_page_drawable(items.len(), page, page_size),
        page <= usize::MAX,
    ensures
        ({
            let kb = folder_keyboard_view(items, page, page_size, parent, folder);
            let start = page_start(page, page_size);
            let count = page_end(items.len(), start, page_size) - start;
            &&& kb.len() >= count + 1
            &&& forall|i: int|
                0 <= i < count ==> (#[trigger] kb[i]).len() == 1 && route_of(kb[i][0].1)
                    == item_route(items[start + i])
            &&& forall|r: int, j: int|
                count <= r < kb.len() - 1 && 0 <= j < kb[r].len() ==> folder_nav_ok(
                    #[trigger] kb[r][j].1,
                    folder,
                    items.len(),
                    page_size,
                )
            &&& forall|j: int|
                0 <= j < kb.last().len() ==> folder_control_ok(#[trigger] kb.last()[j].1, parent)
        }),
{
    let n = items.len();
    let start = page_start(page, page_size);
    let end = page_end(n, start, page_size);
    let count = end - start;
    let total = folder_total_pages(n, page_size);
    let nav = nav_row(
        page,
        total,
        folder_page_callback(folder, (page - 1) as nat),
        folder_page_callback(folder, page + 1),
    );
    let rows = item_rows(items, start, end);
    let kb = folder_keyboard_view(items, page, page_size, parent, folder);
    assert(kb == rows + nav_part(nav) + seq![folder_control_row(parent)]);
    lemma_folder_nav_row(n, page, page_size, folder);
    lemma_fixed_routes();
    assert forall|i: int| 0 <= i < count implies (#[trigger] kb[i]).len() == 1 && route_of(kb[i][0].1)
        == item_route(items[start + i]) by {
        assert(kb[i] == rows[i]);
        match items[start + i] {
            BrowseItem::Folder(f) => lemma_open_folder_route(f.id@),
            BrowseItem::File(f) => lemma_open_file_route(f.id@),
        }
    }
    assert forall|r: int, j: int|
        count <= r < kb.len() - 1 && 0 <= j < kb[r].len() implies folder_nav_ok(
        #[trigger] kb[r][j].1,
        folder,
        n,
        page_size,
    ) by {
        assert(nav.len() > 0 && r == count);
        assert(kb[r] == nav);
    }
    match parent {
        Some(pid) => lemma_open_folder_route(pid),
        None => {},
    }
    assert(kb.last() == folder_control_row(parent));
}

/// Every button of a page of search results reaches the handler for what
/// it shows: a file's button opens that file, a navigation button shows a
/// page of results that can itself be drawn (or is the page counter), and
/// the last button cancels the search.
pub proof fn lemma_search_keyboard_routes(files: Seq<File>, page: nat, page_size: nat)
    requires
        search_page_drawable(files.len(), page, page_size),
        page <= usize::MAX,
    ensures
        ({
            let kb = search_keyboard_view(files, page, page_size);
            let start = page_start(page, page_size);
            let count = page_end(files.len(), start, page_size) - start;
            &&& kb.len() >= count + 1
            &&& forall|i: int|
                0 <= i < count ==> (#[trigger] kb[i]).len() == 1 && route_of(kb[i][0].1)
                    == RouteView::OpenFile(files[start + i].id@)
            &&& forall|r: int, j: int|
                count <= r < kb.len() - 1 && 0 <= j < kb[r].len() ==> search_nav_ok(
                    #[trigger] kb[r][j].1,
                    files.len(),
                    page_size,
                )
            &&& kb.last() == seq![("❌ إلغاء البحث"@, "cancel_search"@)]
            &&& route_of(kb.last()[0].1) == RouteView::CancelSearch
        }),
{
    let n = files.len();
    let start = page_start(page, page_size);
    let end = page_end(n, start, page_size);
    let count = end - start;
    let total = search_total_pages(n, page_size);
    let nav = nav_row(
        page,
        total,
        search_page_callback((page - 1) as nat),
        search_page_callback(page + 1),
    );
    let rows = file_rows(files, start, end);
    let kb = search_keyboard_view(files, page, page_size);
    let last = seq![("❌ إلغاء البحث"@, "cancel_search"@)];
    assert(kb == rows + nav_part(nav) + seq![last]);
    lemma_search_nav_row(n, page, page_size);
    lemma_fixed_routes();
    assert forall|i: int| 0 <= i < count implies (#[trigger] kb[i]).len() == 1 && route_of(kb[i][0].1)
        == RouteView::OpenFile(files[start + i].id@) by {
        assert(kb[i] == rows[i]);
        lemma_open_file_route(files[start + i].id@);
    }
    assert forall|r: int, j: int|
        count <= r < kb.len() - 1 && 0 <= j < kb[r].len() implies search_nav_ok(
        #[trigger] kb[r][j].1,
        n,
        page_size,
    ) by {
        assert(nav.len() > 0 && r == count);
        assert(kb[r] == nav);
    }
    assert(kb.last() == last);
}

} // verus!
