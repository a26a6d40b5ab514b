use library_bot::keyboards::{
    back_to_main_keyboard, contribute_cancel_keyboard, finish_contribution_keyboard,
    folder_keyboard, folder_page_data, folder_page_is_drawable, main_menu_keyboard,
    search_page_data, search_page_is_drawable, search_results_keyboard, BrowseItem, Keyboard,
};
use library_bot::models::{File, Folder};
use library_bot::routing::{route_callback, CallbackRoute};

fn view(k: &Keyboard) -> Vec<Vec<(String, String)>> {
    k.rows
        .iter()
        .map(|r| r.iter().map(|b| (b.text.clone(), b.callback_data.clone())).collect())
        .collect()
}

fn b(t: &str, d: &str) -> (String, String) {
    (t.to_string(), d.to_string())
}

fn folder(id: &str, name: &str) -> Folder {
    Folder { id: id.to_string(), name: name.to_string(), parent_id: None }
}

fn file(id: &str, name: &str) -> File {
    File { id: id.to_string(), name: name.to_string(), folder_id: "f".to_string(), file_id: format!("tg-{}", id) }
}

fn items() -> Vec<BrowseItem> {
    vec![
        BrowseItem::Folder(folder("a", "علوم")),
        BrowseItem::Folder(folder("b", "رياضيات")),
        BrowseItem::Folder(folder("c", "لغات")),
        BrowseItem::File(file("x", "كتاب.pdf")),
        BrowseItem::File(file("y", "ملخص.docx")),
    ]
}

#[test]
fn fixed_keyboards() {
    assert_eq!(
        view(&main_menu_keyboard()),
        vec![
            vec![b("📚 المكتبة", "browse_root")],
            vec![b("🔍 بحث", "search_books")],
            vec![b("🙌 المساهمة", "contribute")],
            vec![b("ℹ️ نبذة", "about")],
        ]
    );
    assert_eq!(view(&contribute_cancel_keyboard()), vec![vec![b("🏠 الرئيسية", "main_menu")]]);
    assert_eq!(
        view(&finish_contribution_keyboard()),
        vec![vec![b("📩 إنهاء المساهمة", "finish_contribution")], vec![b("🏠 الرئيسية", "main_menu")]]
    );
    assert_eq!(view(&back_to_main_keyboard()), vec![vec![b("🏠 العودة إلى الرئيسية", "main_menu")]]);
}

#[test]
fn item_labels_and_callbacks() {
    let i = items();
    assert_eq!(i[0].label(), "📁 علوم");
    assert_eq!(i[0].callback(), "open_folder:a");
    assert_eq!(i[3].label(), "📄 كتاب.pdf");
    assert_eq!(i[3].callback(), "open_file:x");
}

#[test]
fn middle_page_of_a_folder() {
    let k = folder_keyboard(&items(), 2, 2, Some("p"), Some("f1"));
    assert_eq!(
        view(&k),
        vec![
            vec![b("📁 لغات", "open_folder:c")],
            vec![b("📄 كتاب.pdf", "open_file:x")],
            vec![b("⬅️", "page:f1:1"), b("2/3", "noop"), b("➡️", "page:f1:3")],
            vec![b("🔙 رجوع", "open_folder:p")],
        ]
    );
}

#[test]
fn last_page_is_partial() {
    let k = folder_keyboard(&items(), 3, 2, None, Some("f1"));
    assert_eq!(
        view(&k),
        vec![
            vec![b("📄 ملخص.docx", "open_file:y")],
            vec![b("⬅️", "page:f1:2"), b("3/3", "noop")],
            vec![b("🏠 الرئيسية", "main_menu"), b("🙌 المساهمة", "contribute"), b("ℹ️ نبذة", "about")],
        ]
    );
}

#[test]
fn root_first_page() {
    let k = folder_keyboard(&items()[..3], 1, 2, None, None);
    assert_eq!(
        view(&k),
        vec![
            vec![b("📁 علوم", "open_folder:a")],
            vec![b("📁 رياضيات", "open_folder:b")],
            vec![b("1/2", "noop"), b("➡️", "page_root:2")],
            vec![b("🏠 الرئيسية", "main_menu"), b("🙌 المساهمة", "contribute"), b("ℹ️ نبذة", "about")],
        ]
    );
}

#[test]
fn empty_root_has_no_navigation() {
    let k = folder_keyboard(&[], 1, 10, None, None);
    assert_eq!(
        view(&k),
        vec![vec![b("🏠 الرئيسية", "main_menu"), b("🙌 المساهمة", "contribute"), b("ℹ️ نبذة", "about")]]
    );
}

#[test]
fn page_size_zero_shows_no_items() {
    let k = folder_keyboard(&items()[..3], 1, 0, None, Some("f"));
    assert_eq!(
        view(&k),
        vec![
            vec![b("1/2", "noop"), b("➡️", "page:f:2")],
            vec![b("🏠 الرئيسية", "main_menu"), b("🙌 المساهمة", "contribute"), b("ℹ️ نبذة", "about")],
        ]
    );
}

#[test]
fn drawable_pages() {
    assert!(folder_page_is_drawable(5, 3, 2));
    assert!(!folder_page_is_drawable(5, 4, 2));
    assert!(!folder_page_is_drawable(0, 1, 0));
    assert!(folder_page_is_drawable(0, 0, 10));
    assert!(folder_page_is_drawable(usize::MAX, 1, 1));
    assert!(!folder_page_is_drawable(usize::MAX, 1, 2));
    assert!(folder_page_is_drawable(1, 1, usize::MAX));
    assert!(search_page_is_drawable(1, 1, usize::MAX));
    assert!(search_page_is_drawable(12, 3, 5));
    assert!(!search_page_is_drawable(12, 4, 5));
    assert!(!search_page_is_drawable(12, 1, 0));
}

#[test]
fn search_keyboard_pages() {
    let files: Vec<File> = (0..12).map(|i| file(&format!("{}", i), &format!("f{}", i))).collect();
    let k = search_results_keyboard(&files, 3, 5);
    assert_eq!(
        view(&k),
        vec![
            vec![b("📄 f10", "open_file:10")],
            vec![b("📄 f11", "open_file:11")],
            vec![b("⬅️", "search_page:2"), b("3/3", "noop")],
            vec![b("❌ إلغاء البحث", "cancel_search")],
        ]
    );
    let one = search_results_keyboard(&files[..1], 1, 5);
    assert_eq!(
        view(&one),
        vec![vec![b("📄 f0", "open_file:0")], vec![b("❌ إلغاء البحث", "cancel_search")]]
    );
}

#[test]
fn page_callback_data() {
    assert_eq!(folder_page_data(Some("a:b"), 7), "page:a:b:7");
    assert_eq!(folder_page_data(None, 12), "page_root:12");
    assert_eq!(search_page_data(3), "search_page:3");
}

#[test]
fn every_item_lies_on_one_drawable_page() {
    let files: Vec<File> = (0..12).map(|i| file(&format!("{}", i), "n")).collect();
    for i in 0..12usize {
        let page = i / 5 + 1;
        assert!(search_page_is_drawable(12, page, 5));
        let k = search_results_keyboard(&files, page, 5);
        assert!(view(&k).iter().any(|r| r[0].1 == format!("open_file:{}", i)));
    }
}

#[test]
fn navigation_buttons_lead_to_drawable_pages() {
    let all = items();
    for page_size in [1usize, 2, 3, 5, 7] {
        let mut page = 1;
        loop {
            if !folder_page_is_drawable(all.len(), page, page_size) {
                break;
            }
            let k = folder_keyboard(&all, page, page_size, None, Some("f"));
            for row in view(&k) {
                for (_, data) in row {
                    match route_callback(Some(&data)) {
                        CallbackRoute::FolderPage { folder_id, page: p } => {
                            assert_eq!(folder_id.as_deref(), Some("f"));
                            assert!(folder_page_is_drawable(all.len(), p, page_size));
                        }
                        CallbackRoute::Unhandled | CallbackRoute::FolderPageIgnored => panic!("dead button {}", data),
                        _ => {}
                    }
                }
            }
            page += 1;
        }
    }
}

#[test]
fn largest_page_size_draws_the_one_page() {
    let one = vec![BrowseItem::Folder(folder("a", "علوم"))];
    let k = folder_keyboard(&one, 1, usize::MAX, None, None);
    assert_eq!(
        view(&k),
        vec![
            vec![b("📁 علوم", "open_folder:a")],
            vec![b("🏠 الرئيسية", "main_menu"), b("🙌 المساهمة", "contribute"), b("ℹ️ نبذة", "about")],
        ]
    );
    let files = vec![file("x", "a")];
    let s = search_results_keyboard(&files, 1, usize::MAX);
    assert_eq!(view(&s), vec![vec![b("📄 a", "open_file:x")], vec![b("❌ إلغاء البحث", "cancel_search")]]);
}

#[test]
fn pages_in_order_give_every_entry_once() {
    let all = items();
    for page_size in 1..=6usize {
        let total = (all.len() + page_size - 1) / page_size;
        let mut seen = Vec::new();
        for page in 1..=total {
            let rows = view(&folder_keyboard(&all, page, page_size, None, Some("f")));
            let entries: Vec<String> = rows
                .iter()
                .filter(|r| r.len() == 1 && (r[0].1.starts_with("open_folder:") || r[0].1.starts_with("open_file:")))
                .map(|r| r[0].1.clone())
                .collect();
            assert!(!entries.is_empty() && entries.len() <= page_size);
            seen.extend(entries);
        }
        let expected: Vec<String> = all.iter().map(|i| i.callback()).collect();
        assert_eq!(seen, expected);
    }
}

#[test]
fn search_rows_match_folder_rows() {
    let files: Vec<File> = (0..7).map(|i| file(&format!("{}", i), &format!("f{}", i))).collect();
    let items: Vec<BrowseItem> = files.iter().cloned().map(BrowseItem::File).collect();
    for page in 1..=3usize {
        let s = view(&search_results_keyboard(&files, page, 3));
        let f = view(&folder_keyboard(&items, page, 3, None, Some("x")));
        let count = if page < 3 { 3 } else { 1 };
        assert_eq!(s[..count], f[..count]);
        let st: Vec<String> = s[count].iter().map(|b| b.0.clone()).collect();
        let ft: Vec<String> = f[count].iter().map(|b| b.0.clone()).collect();
        assert_eq!(st, ft);
    }
}
