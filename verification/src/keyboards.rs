use vstd::prelude::*;

use crate::models::{File, Folder};
use crate::text::{decimal, decimal_text};

verus! {

/// One inline button: its caption and the callback data that a press sends.
#[derive(Debug, Clone, PartialEq, Eq)]
pub struct Button {
    pub text: String,
    pub callback_data: String,
}

impl View for Button {
    type V = (Seq<char>, Seq<char>);

    open spec fn view(&self) -> (Seq<char>, Seq<char>) {
        (self.text@, self.callback_data@)
    }
}

/// The view of a row of buttons.
pub open spec fn row_view(r: Seq<Button>) -> Seq<(Seq<char>, Seq<char>)> {
    r.map_values(|b: Button| b@)
}

/// An inline keyboard: rows of buttons, top to bottom.
#[derive(Debug, Clone, PartialEq, Eq)]
pub struct Keyboard {
    pub rows: Vec<Vec<Button>>,
}

impl View for Keyboard {
    type V = Seq<Seq<(Seq<char>, Seq<char>)>>;

    open spec fn view(&self) -> Seq<Seq<(Seq<char>, Seq<char>)>> {
        self.rows@.map_values(|r: Vec<Button>| row_view(r@))
    }
}

/// A button with the given caption and callback data.
pub fn button(text: &str, data: &str) -> (b: Button)
    ensures
        b@ == (text@, data@),
{
    Button { text: String::from_str(text), callback_data: String::from_str(data) }
}

/// A row of one button.
pub fn single(b: Button) -> (r: Vec<Button>)
    ensures
        row_view(r@) == seq![b@],
{
    let mut r: Vec<Button> = Vec::new();
    r.push(b);
    assert(row_view(r@) =~= seq![b@]);
    r
}

/// Appends a row to a keyboard under construction.
pub fn push_row(rows: &mut Vec<Vec<Button>>, row: Vec<Button>)
    ensures
        final(rows)@.map_values(|r: Vec<Button>| row_view(r@)) == old(rows)@.map_values(
            |r: Vec<Button>| row_view(r@),
        ).push(row_view(row@)),
{
    let ghost before = rows@;
    rows.push(row);
    assert(rows@.map_values(|r: Vec<Button>| row_view(r@)) =~= before.map_values(
        |r: Vec<Button>| row_view(r@),
    ).push(row_view(row@)));
}

/// Appends a button to a row under construction.
pub fn push_button(row: &mut Vec<Button>, b: Button)
    ensures
        row_view(final(row)@) == row_view(old(row)@).push(b@),
{
    let ghost before = row@;
    row.push(b);
    assert(row_view(row@) =~= row_view(before).push(b@));
}

pub open spec fn home_button() -> (Seq<char>, Seq<char>) {
    ("🏠 الرئيسية"@, "main_menu"@)
}

pub open spec fn contribute_button() -> (Seq<char>, Seq<char>) {
    ("🙌 المساهمة"@, "contribute"@)
}

pub open spec fn about_button() -> (Seq<char>, Seq<char>) {
    ("ℹ️ نبذة"@, "about"@)
}

pub open spec fn main_menu_view() -> Seq<Seq<(Seq<char>, Seq<char>)>> {
    seq![
        seq![("📚 المكتبة"@, "browse_root"@)],
        seq![("🔍 بحث"@, "search_books"@)],
        seq![contribute_button()],
        seq![about_button()],
    ]
}

/// The main menu: library, search, contribute, about.
pub fn main_menu_keyboard() -> (k: Keyboard)
    ensures
        k@ == main_menu_view(),
{
    let mut rows: Vec<Vec<Button>> = Vec::new();
    push_row(&mut rows, single(button("📚 المكتبة", "browse_root")));
    push_row(&mut rows, single(button("🔍 بحث", "search_books")));
    push_row(&mut rows, single(button("🙌 المساهمة", "contribute")));
    push_row(&mut rows, single(button("ℹ️ نبذة", "about")));
    let k = Keyboard { rows };
    assert(k@ =~= main_menu_view());
    k
}

/// A keyboard of one row with the home button.
pub fn contribute_cancel_keyboard() -> (k: Keyboard)
    ensures
        k@ == seq![seq![home_button()]],
{
    let mut rows: Vec<Vec<Button>> = Vec::new();
    push_row(&mut rows, single(button("🏠 الرئيسية", "main_menu")));
    let k = Keyboard { rows };
    assert(k@ =~= seq![seq![home_button()]]);
    k
}

pub open spec fn finish_contribution_view() -> Seq<Seq<(Seq<char>, Seq<char>)>> {
    seq![seq![("📩 إنهاء المساهمة"@, "finish_contribution"@)], seq![home_button()]]
}

/// The keyboard shown while files are being sent: finish, or go home.
pub fn finish_contribution_keyboard() -> (k: Keyboard)
    ensures
        k@ == finish_contribution_view(),
{
    let mut rows: Vec<Vec<Button>> = Vec::new();
    push_row(&mut rows, single(button("📩 إنهاء المساهمة", "finish_contribution")));
    push_row(&mut rows, single(button("🏠 الرئيسية", "main_menu")));
    let k = Keyboard { rows };
    assert(k@ =~= finish_contribution_view());
    k
}

pub open spec fn back_to_main_view() -> Seq<Seq<(Seq<char>, Seq<char>)>> {
    seq![seq![("🏠 العودة إلى الرئيسية"@, "main_menu"@)]]
}

/// A keyboard of one button back to the main menu.
pub fn back_to_main_keyboard() -> (k: Keyboard)
    ensures
        k@ == back_to_main_view(),
{
    let mut rows: Vec<Vec<Button>> = Vec::new();
    push_row(&mut rows, single(button("🏠 العودة إلى الرئيسية", "main_menu")));
    let k = Keyboard { rows };
    assert(k@ =~= back_to_main_view());
    k
}

/// One entry of a folder listing: a sub-folder or a file.
#[derive(Debug, Clone, PartialEq, Eq)]
pub enum BrowseItem {
    Folder(Folder),
    File(File),
}

pub open spec fn folder_callback(id: Seq<char>) -> Seq<char> {
    "open_folder:"@ + id
}

pub open spec fn file_callback(id: Seq<char>) -> Seq<char> {
    "open_file:"@ + id
}

pub open spec fn file_label(name: Seq<char>) -> Seq<char> {
    "📄 "@ + name
}

pub open spec fn item_label(item: BrowseItem) -> Seq<char> {
    match item {
        BrowseItem::Folder(f) => "📁 "@ + f.name@,
        BrowseItem::File(f) => file_label(f.name@),
    }
}

pub open spec fn item_callback(item: BrowseItem) -> Seq<char> {
    match item {
        BrowseItem::Folder(f) => folder_callback(f.id@),
        BrowseItem::File(f) => file_callback(f.id@),
    }
}

impl BrowseItem {
    /// The caption: a folder or page icon, then the name.
    pub fn label(&self) -> (r: String)
        ensures
            r@ == item_label(*self),
    {
        match self {
            BrowseItem::Folder(f) => {
                let mut s = String::from_str("📁 ");
                s.append(f.name.as_str());
                s
            },
            BrowseItem::File(f) => {
                let mut s = String::from_str("📄 ");
                s.append(f.name.as_str());
                s
            },
        }
    }

    /// The callback data that opens the item.
    pub fn callback(&self) -> (r: String)
        ensures
            r@ == item_callback(*self),
    {
        match self {
            BrowseItem::Folder(f) => {
                let mut s = String::from_str("open_folder:");
                s.append(f.id.as_str());
                s
            },
            BrowseItem::File(f) => {
                let mut s = String::from_str("open_file:");
                s.append(f.id.as_str());
                s
            },
        }
    }
}

/// An optional text, by its view.
pub open spec fn opt_view(o: Option<&str>) -> Option<Seq<char>> {
    match o {
        Some(s) => Some(s@),
        None => None,
    }
}

/// The first item of a page (pages count from 1; page 0 is read as page 1).
pub open spec fn page_start(page: nat, page_size: nat) -> nat {
    ((if page >= 1 { page - 1 } else { 0int }) * page_size) as nat
}

/// One past the last item of the page that begins at `start`.
pub open spec fn page_end(n: nat, start: nat, page_size: nat) -> nat {
    if start + page_size <= n {
        start + page_size
    } else {
        n
    }
}

/// The number of pages that a folder listing of `n` items counts:
/// `max(n + page_size - 1, 1) / max(page_size, 1)`.
pub open spec fn folder_total_pages(n: nat, page_size: nat) -> int {
    let a = n + page_size - 1;
    (if a >= 1 { a } else { 1int }) / (if page_size >= 1 { page_size as int } else { 1int })
}

/// The number of pages of search results: `max(ceil(n / page_size), 1)`.
pub open spec fn search_total_pages(n: nat, page_size: nat) -> int {
    let q = (n + page_size - 1) / (page_size as int);
    if q >= 1 {
        q
    } else {
        1
    }
}

/// The pages of a folder listing that can be drawn: the arithmetic stays in
/// range and the page does not begin past the last item.
pub open spec fn folder_page_drawable(n: nat, page: nat, page_size: nat) -> bool {
    &&& !(n == 0 && page_size == 0)
    &&& n + page_size - 1 <= usize::MAX
    &&& page_start(page, page_size) <= n
}

/// The pages of search results that can be drawn.
pub open spec fn search_page_drawable(n: nat, page: nat, page_size: nat) -> bool {
    &&& page_size > 0
    &&& n + page_size - 1 <= usize::MAX
    &&& page_start(page, page_size) <= n
}

/// The callback data of the button that shows page `p` of a folder.
pub open spec fn folder_page_callback(folder: Option<Seq<char>>, p: nat) -> Seq<char> {
    match folder {
        Some(id) => "page:"@ + id + ":"@ + decimal(p),
        None => "page_root:"@ + decimal(p),
    }
}

/// The callback data of the button that shows page `p` of search results.
pub open spec fn search_page_callback(p: nat) -> Seq<char> {
    "search_page:"@ + decimal(p)
}

/// The caption of the page counter, such as `2/5`.
pub open spec fn counter_label(page: nat, total: nat) -> Seq<char> {
    decimal(page) + "/"@ + decimal(total)
}

/// The navigation row: back, counter, forward, each where it applies.
pub open spec fn nav_row(page: nat, total: int, prev: Seq<char>, next: Seq<char>) -> Seq<
    (Seq<char>, Seq<char>),
> {
    (if page > 1 {
        seq![("⬅️"@, prev)]
    } else {
        Seq::empty()
    }) + (if total > 1 {
        seq![(counter_label(page, total as nat), "noop"@)]
    } else {
        Seq::empty()
    }) + (if page < total {
        seq![("➡️"@, next)]
    } else {
        Seq::empty()
    })
}

/// The navigation row as a part of the keyboard: absent where it is empty.
pub open spec fn nav_part(nav: Seq<(Seq<char>, Seq<char>)>) -> Seq<Seq<(Seq<char>, Seq<char>)>> {
    if nav.len() > 0 {
        seq![nav]
    } else {
        Seq::empty()
    }
}

/// The bottom row of a folder listing: back to the parent folder, or, at the
/// root, home, contribute and about.
pub open spec fn folder_control_row(parent: Option<Seq<char>>) -> Seq<(Seq<char>, Seq<char>)> {
    match parent {
        Some(pid) => seq![("🔙 رجوع"@, folder_callback(pid))],
        None => seq![home_button(), contribute_button(), about_button()],
    }
}

/// The rows of the items `items[start..end]`, one button each.
pub open spec fn item_rows(items: Seq<BrowseItem>, start: nat, end: nat) -> Seq<
    Seq<(Seq<char>, Seq<char>)>,
> {
    Seq::new(
        (end - start) as nat,
        |i: int| seq![(item_label(items[start + i]), item_callback(items[start + i]))],
    )
}

/// The keyboard of page `page` of a folder listing.
pub open spec fn folder_keyboard_view(
    items: Seq<BrowseItem>,
    page: nat,
    page_size: nat,
    parent: Option<Seq<char>>,
    folder: Option<Seq<char>>,
) -> Seq<Seq<(Seq<char>, Seq<char>)>> {
    let n = items.len();
    let total = folder_total_pages(n, page_size);
    let start = page_start(page, page_size);
    let end = page_end(n, start, page_size);
    let nav = nav_row(
        page,
        total,
        folder_page_callback(folder, (page - 1) as nat),
        folder_page_callback(folder, page + 1),
    );
    item_rows(items, start, end) + nav_part(nav) + seq![folder_control_row(parent)]
}

/// The rows of the files `files[start..end]`, one button each.
pub open spec fn file_rows(files: Seq<File>, start: nat, end: nat) -> Seq<
    Seq<(Seq<char>, Seq<char>)>,
> {
    Seq::new(
        (end - start) as nat,
        |i: int| seq![(file_label(files[start + i].name@), file_callback(files[start + i].id@))],
    )
}

/// The keyboard of page `page` of search results.
pub open spec fn search_keyboard_view(files: Seq<File>, page: nat, page_size: nat) -> Seq<
    Seq<(Seq<char>, Seq<char>)>,
> {
    let n = files.len();
    let total = search_total_pages(n, page_size);
    let start = page_start(page, page_size);
    let end = page_end(n, start, page_size);
    let nav = nav_row(
        page,
        total,
        search_page_callback((page - 1) as nat),
        search_page_callback(page + 1),
    );
    file_rows(files, start, end) + nav_part(nav) + seq![seq![("❌ إلغاء البحث"@, "cancel_search"@)]]
}

/// The callback data that shows page `p` of a folder (or of the root).
pub fn folder_page_data(folder: Option<&str>, p: usize) -> (r: String)
    ensures
        r@ == folder_page_callback(opt_view(folder), p as nat),
{
    match folder {
        Some(id) => {
            let mut s = String::from_str("page:");
            s.append(id);
            s.append(":");
            let d = decimal_text(p as u64);
            s.append(d.as_str());
            s
        },
        None => {
            let mut s = String::from_str("page_root:");
            let d = decimal_text(p as u64);
            s.append(d.as_str());
            s
        },
    }
}

/// The callback data that shows page `p` of search results.
pub fn search_page_data(p: usize) -> (r: String)
    ensures
        r@ == search_page_callback(p as nat),
{
    let mut s = String::from_str("search_page:");
    let d = decimal_text(p as u64);
    s.append(d.as_str());
    s
}

/// The navigation row, given the data of its back and forward buttons.
fn nav_buttons(page: usize, total: usize, prev: String, next: String) -> (r: Vec<Button>)
    ensures
        row_view(r@) == nav_row(page as nat, total as int, prev@, next@),
{
    let mut row: Vec<Button> = Vec::new();
    assert(row_view(row@) =~= Seq::empty());
    if page > 1 {
        push_button(&mut row, Button { text: String::from_str("⬅️"), callback_data: prev });
    }
    if total > 1 {
        let mut label = decimal_text(page as u64);
        label.append("/");
        let t = decimal_text(total as u64);
        label.append(t.as_str());
        push_button(&mut row, Button { text: label, callback_data: String::from_str("noop") });
    }
    if page < total {
        push_button(&mut row, Button { text: String::from_str("➡️"), callback_data: next });
    }
    assert(row_view(row@) =~= nav_row(page as nat, total as int, prev@, next@));
    row
}

/// Whether page `page` of a folder listing of `n` items can be drawn.
pub fn folder_page_is_drawable(n: usize, page: usize, page_size: usize) -> (r: bool)
    ensures
        r == folder_page_drawable(n as nat, page as nat, page_size as nat),
{
    if n == 0 && page_size == 0 {
        return false;
    }
    if n > 0 && n - 1 > usize::MAX - page_size {
        return false;
    }
    let before: usize = if page >= 1 { page - 1 } else { 0 };
    let start = match before.checked_mul(page_size) {
        Some(s) => s,
        None => return false,
    };
    start <= n
}

/// Whether page `page` of `n` search results can be drawn.
pub fn search_page_is_drawable(n: usize, page: usize, page_size: usize) -> (r: bool)
    ensures
        r == search_page_drawable(n as nat, page as nat, page_size as nat),
{
    if page_size == 0 {
        return false;
    }
    if n > 0 && n - 1 > usize::MAX - page_size {
        return false;
    }
    let before: usize = if page >= 1 { page - 1 } else { 0 };
    let start = match before.checked_mul(page_size) {
        Some(s) => s,
        None => return false,
    };
    start <= n
}

/// The rows of the items `items[start..end]`.
fn listing_rows(items: &[BrowseItem], start: usize, end: usize) -> (rows: Vec<Vec<Button>>)
    requires
        start <= end <= items@.len(),
    ensures
        rows@.map_values(|r: Vec<Button>| row_view(r@)) == item_rows(items@, start as nat, end as nat),
{
    let ghost spec_items = items@;
    let mut rows: Vec<Vec<Button>> = Vec::new();
    let mut i = start;
    assert(rows@.map_values(|r: Vec<Button>| row_view(r@)) =~= item_rows(spec_items, start as nat, start as nat));
    while i < end
        invariant
            start <= i <= end <= items@.len(),
            spec_items == items@,
            rows@.map_values(|r: Vec<Button>| row_view(r@)) == item_rows(spec_items, start as nat, i as nat),
        decreases end - i,
    {
        let b = Button { text: items[i].label(), callback_data: items[i].callback() };
        push_row(&mut rows, single(b));
        assert(item_rows(spec_items, start as nat, i as nat).push(
            seq![(item_label(spec_items[i as int]), item_callback(spec_items[i as int]))],
        ) =~= item_rows(spec_items, start as nat, (i + 1) as nat));
        i = i + 1;
    }
    rows
}

/// The rows of the files `files[start..end]`.
fn result_rows(files: &[File], start: usize, end: usize) -> (rows: Vec<Vec<Button>>)
    requires
        start <= end <= files@.len(),
    ensures
        rows@.map_values(|r: Vec<Button>| row_view(r@)) == file_rows(files@, start as nat, end as nat),
{
    let ghost spec_files = files@;
    let mut rows: Vec<Vec<Button>> = Vec::new();
    let mut i = start;
    assert(rows@.map_values(|r: Vec<Button>| row_view(r@)) =~= file_rows(spec_files, start as nat, start as nat));
    while i < end
        invariant
            start <= i <= end <= files@.len(),
            spec_files == files@,
            rows@.map_values(|r: Vec<Button>| row_view(r@)) == file_rows(spec_files, start as nat, i as nat),
        decreases end - i,
    {
        let f = &files[i];
        let mut label = String::from_str("📄 ");
        label.append(f.name.as_str());
        let mut data = String::from_str("open_file:");
        data.append(f.id.as_str());
        push_row(&mut rows, single(Button { text: label, callback_data: data }));
        assert(file_rows(spec_files, start as nat, i as nat).push(
            seq![(file_label(spec_files[i as int].name@), file_callback(spec_files[i as int].id@))],
        ) =~= file_rows(spec_files, start as nat, (i + 1) as nat));
        i = i + 1;
    }
    rows
}

/// The bottom row of a folder listing.
fn folder_control(parent_id: Option<&str>) -> (r: Vec<Button>)
    ensures
        row_view(r@) == folder_control_row(opt_view(parent_id)),
{
    let mut control: Vec<Button> = Vec::new();
    match parent_id {
        Some(pid) => {
            let mut data = String::from_str("open_folder:");
            data.append(pid);
            control.push(Button { text: String::from_str("🔙 رجوع"), callback_data: data });
        },
        None => {
            control.push(button("🏠 الرئيسية", "main_menu"));
            control.push(button("🙌 المساهمة", "contribute"));
            control.push(button("ℹ️ نبذة", "about"));
        },
    }
    assert(row_view(control@) =~= folder_control_row(opt_view(parent_id)));
    control
}

/// Adds the navigation row, where it has buttons, and the bottom row.
fn finish_keyboard(rows: Vec<Vec<Button>>, nav: Vec<Button>, bottom: Vec<Button>) -> (k: Keyboard)
    ensures
        k@ == rows@.map_values(|r: Vec<Button>| row_view(r@)) + nav_part(row_view(nav@)) + seq![
            row_view(bottom@),
        ],
{
    let ghost body = rows@.map_values(|r: Vec<Button>| row_view(r@));
    let mut rows = rows;
    if nav.len() > 0 {
        push_row(&mut rows, nav);
    }
    push_row(&mut rows, bottom);
    let k = Keyboard { rows };
    assert(k@ =~= body + nav_part(row_view(nav@)) + seq![row_view(bottom@)]);
    k
}

/// The keyboard of a folder listing: the items of page `page` (counted from
/// 1), a navigation row, and a bottom row that leads back to `parent_id`
/// or, at the root, to the main menu.
pub fn folder_keyboard(
    items: &[BrowseItem],
    page: usize,
    page_size: usize,
    parent_id: Option<&str>,
    folder_id: Option<&str>,
) -> (k: Keyboard)
    requires
        folder_page_drawable(items@.len(), page as nat, page_size as nat),
    ensures
        k@ == folder_keyboard_view(
            items@,
            page as nat,
            page_size as nat,
            opt_view(parent_id),
            opt_view(folder_id),
        ),
{
    let n = items.len();
    let a = if page_size >= 1 { n + (page_size - 1) } else { n - 1 };
    let total = (if a >= 1 { a } else { 1 }) / (if page_size >= 1 { page_size } else { 1 });
    let before: usize = if page >= 1 { page - 1 } else { 0 };
    let start = before * page_size;
    let end = if page_size <= n - start { start + page_size } else { n };
    let rows = listing_rows(items, start, end);
    let prev = if page > 1 { folder_page_data(folder_id, page - 1) } else { String::new() };
    let next = if page < total { folder_page_data(folder_id, page + 1) } else { String::new() };
    let nav = nav_buttons(page, total, prev, next);
    finish_keyboard(rows, nav, folder_control(parent_id))
}

/// The keyboard of search results: the files of page `page` (counted from
/// 1), a navigation row, and a button that cancels the search.
pub fn search_results_keyboard(files: &[File], page: usize, page_size: usize) -> (k: Keyboard)
    requires
        search_page_drawable(files@.len(), page as nat, page_size as nat),
    ensures
        k@ == search_keyboard_view(files@, page as nat, page_size as nat),
{
    let n = files.len();
    let q = (n + (page_size - 1)) / page_size;
    let total = if q >= 1 { q } else { 1 };
    let before: usize = if page >= 1 { page - 1 } else { 0 };
    let start = before * page_size;
    let end = if page_size <= n - start { start + page_size } else { n };
    let rows = result_rows(files, start, end);
    let prev = if page > 1 { search_page_data(page - 1) } else { String::new() };
    let next = if page < total { search_page_data(page + 1) } else { String::new() };
    let nav = nav_buttons(page, total, prev, next);
    finish_keyboard(rows, nav, single(button("❌ إلغاء البحث", "cancel_search")))
}

/// Every one of `n` search results lies on exactly one page, page
/// `i / page_size + 1`, which is among the pages counted and can be drawn.
pub proof fn lemma_search_result_page(n: nat, page_size: nat, i: nat, page: nat)
    requires
        page_size > 0,
        n + page_size - 1 <= usize::MAX,
        i < n,
        page >= 1,
    ensures
        1 <= i / page_size + 1 <= search_total_pages(n, page_size),
        search_page_drawable(n, i / page_size + 1, page_size),
        (page_start(page, page_size) <= i < page_end(n, page_start(page, page_size), page_size))
            <==> page == i / page_size + 1,
{
    let q = i / page_size;
    let ps = page_size;
    assert(q * ps <= i < q * ps + ps) by (nonlinear_arith)
        requires
            q == i / ps,
            ps > 0,
    ;
    assert(page_start(q + 1, ps) == q * ps);
    assert((n + ps - 1) / (ps as int) >= q + 1) by (nonlinear_arith)
        requires
            q * ps <= i,
            i < n,
            ps > 0,
    {
        assert((q + 1) * ps <= n + ps - 1);
    }
    assert(page_start(page, ps) == (page - 1) * ps);
    if page_start(page, ps) <= i && i < page_end(n, page_start(page, ps), ps) {
        let s = (page - 1) * ps;
        assert(page - 1 == q) by (nonlinear_arith)
            requires
                s == (page - 1) * ps,
                s <= i,
                i < s + ps,
                q * ps <= i < q * ps + ps,
                page >= 1,
                ps > 0,
        {
            if page - 1 < q {
                assert((page - 1) * ps + ps <= q * ps);
            }
            if page - 1 > q {
                assert(q * ps + ps <= (page - 1) * ps);
            }
        }
    }
}

/// Every one of `n` entries of a folder listing lies on exactly one page,
/// page `i / page_size + 1`, which is among the pages counted and can be
/// drawn.
pub proof fn lemma_folder_item_page(n: nat, page_size: nat, i: nat, page: nat)
    requires
        page_size > 0,
        n + page_size - 1 <= usize::MAX,
        i < n,
        page >= 1,
    ensures
        1 <= i / page_size + 1 <= folder_total_pages(n, page_size),
        folder_page_drawable(n, i / page_size + 1, page_size),
        (page_start(page, page_size) <= i < page_end(n, page_start(page, page_size), page_size))
            <==> page == i / page_size + 1,
{
    lemma_search_result_page(n, page_size, i, page);
    let a = n + page_size - 1;
    assert(a >= page_size);
    assert(a / (page_size as int) >= 1) by (nonlinear_arith)
        requires
            a >= page_size,
            page_size > 0,
    ;
    assert(folder_total_pages(n, page_size) == search_total_pages(n, page_size));
}

/// The entry rows of pages 1 to `k` of a folder listing, one page after
/// the other.
pub open spec fn rows_of_pages(items: Seq<BrowseItem>, page_size: nat, k: nat) -> Seq<
    Seq<(Seq<char>, Seq<char>)>,
>
    decreases k,
{
    if k == 0 {
        Seq::empty()
    } else {
        let s = page_start(k, page_size);
        rows_of_pages(items, page_size, (k - 1) as nat) + item_rows(
            items,
            s,
            page_end(items.len(), s, page_size),
        )
    }
}

/// The file rows of pages 1 to `k` of search results, one page after the
/// other.
pub open spec fn rows_of_result_pages(files: Seq<File>, page_size: nat, k: nat) -> Seq<
    Seq<(Seq<char>, Seq<char>)>,
>
    decreases k,
{
    if k == 0 {
        Seq::empty()
    } else {
        let s = page_start(k, page_size);
        rows_of_result_pages(files, page_size, (k - 1) as nat) + file_rows(
            files,
            s,
            page_end(files.len(), s, page_size),
        )
    }
}

proof fn lemma_item_rows_join(items: Seq<BrowseItem>, a: nat, b: nat, c: nat)
    requires
        a <= b <= c,
    ensures
        item_rows(items, a, b) + item_rows(items, b, c) == item_rows(items, a, c),
{
    assert(item_rows(items, a, b) + item_rows(items, b, c) =~= item_rows(items, a, c));
}

proof fn lemma_file_rows_join(files: Seq<File>, a: nat, b: nat, c: nat)
    requires
        a <= b <= c,
    ensures
        file_rows(files, a, b) + file_rows(files, b, c) == file_rows(files, a, c),
{
    assert(file_rows(files, a, b) + file_rows(files, b, c) =~= file_rows(files, a, c));
}

/// The arithmetic of `t = ceil(n / page_size)` pages: every page up to `t`
/// begins before the last entry, and page `t` reaches the end.
proof fn lemma_page_count(n: nat, page_size: nat, k: nat)
    requires
        n > 0,
        page_size > 0,
        1 <= k <= (n + page_size - 1) / (page_size as int),
    ensures
        page_start(k, page_size) < n,
        page_start(k, page_size) == (k - 1) * page_size,
        k == (n + page_size - 1) / (page_size as int) ==> k * page_size >= n,
{
    let t = (n + page_size - 1) / (page_size as int);
    assert((k - 1) * page_size < n) by (nonlinear_arith)
        requires
            t == (n + page_size - 1) / (page_size as int),
            1 <= k <= t,
            page_size > 0,
    {
        assert(t * page_size <= n + page_size - 1);
        assert((k - 1) * page_size <= (t - 1) * page_size);
    }
    if k == t {
        assert(k * page_size >= n) by (nonlinear_arith)
            requires
                t == (n + page_size - 1) / (page_size as int),
                k == t,
                page_size > 0,
        {
            assert(n + page_size - 1 < t * page_size + page_size);
        }
    }
}

/// The pages of a folder listing, taken in order from 1 to the page count,
/// give every entry exactly once and in order, and none of them is empty
/// or holds more than `page_size` entries.
pub proof fn lemma_folder_pages_partition(items: Seq<BrowseItem>, page_size: nat)
    requires
        page_size > 0,
        items.len() > 0,
    ensures
        folder_total_pages(items.len(), page_size) >= 1,
        rows_of_pages(items, page_size, folder_total_pages(items.len(), page_size) as nat)
            == item_rows(items, 0, items.len()),
        forall|p: nat|
            1 <= p <= folder_total_pages(items.len(), page_size) ==> {
                let s = #[trigger] page_start(p, page_size);
                0 < page_end(items.len(), s, page_size) - s <= page_size
            },
{
    let n = items.len();
    let t = (n + page_size - 1) / (page_size as int);
    assert(t >= 1) by (nonlinear_arith)
        requires
            t == (n + page_size - 1) / (page_size as int),
            n > 0,
            page_size > 0,
    ;
    assert(folder_total_pages(n, page_size) == t);
    lemma_rows_of_pages_prefix(items, page_size, t as nat);
    lemma_page_count(n, page_size, t as nat);
    assert forall|p: nat| 1 <= p <= t implies {
        let s = #[trigger] page_start(p, page_size);
        0 < page_end(n, s, page_size) - s <= page_size
    } by {
        lemma_page_count(n, page_size, p);
    }
}

proof fn lemma_rows_of_pages_prefix(items: Seq<BrowseItem>, page_size: nat, k: nat)
    requires
        page_size > 0,
        items.len() > 0,
        k <= (items.len() + page_size - 1) / (page_size as int),
    ensures
        rows_of_pages(items, page_size, k) == item_rows(
            items,
            0,
            if k * page_size <= items.len() { k * page_size } else { items.len() },
        ),
    decreases k,
{
    let n = items.len();
    if k == 0 {
        assert(item_rows(items, 0, 0) =~= Seq::empty());
    } else {
        lemma_rows_of_pages_prefix(items, page_size, (k - 1) as nat);
        lemma_page_count(n, page_size, k);
        let s = page_start(k, page_size);
        assert(s == (k - 1) * page_size);
        assert(k * page_size == s + page_size) by (nonlinear_arith)
            requires
                s == (k - 1) * page_size,
        ;
        lemma_item_rows_join(items, 0, s, page_end(n, s, page_size));
    }
}

proof fn lemma_rows_of_result_pages_prefix(files: Seq<File>, page_size: nat, k: nat)
    requires
        page_size > 0,
        files.len() > 0,
        k <= (files.len() + page_size - 1) / (page_size as int),
    ensures
        rows_of_result_pages(files, page_size, k) == file_rows(
            files,
            0,
            if k * page_size <= files.len() { k * page_size } else { files.len() },
        ),
    decreases k,
{
    let n = files.len();
    if k == 0 {
        assert(file_rows(files, 0, 0) =~= Seq::empty());
    } else {
        lemma_rows_of_result_pages_prefix(files, page_size, (k - 1) as nat);
        lemma_page_count(n, page_size, k);
        let s = page_start(k, page_size);
        assert(k * page_size == s + page_size) by (nonlinear_arith)
            requires
                s == (k - 1) * page_size,
        ;
        lemma_file_rows_join(files, 0, s, page_end(n, s, page_size));
    }
}

/// The pages of search results, taken in order from 1 to the page count,
/// give every file exactly once and in order, and none of them is empty or
/// holds more than `page_size` files.
pub proof fn lemma_search_pages_partition(files: Seq<File>, page_size: nat)
    requires
        page_size > 0,
        files.len() > 0,
    ensures
        search_total_pages(files.len(), page_size) >= 1,
        rows_of_result_pages(files, page_size, search_total_pages(files.len(), page_size) as nat)
            == file_rows(files, 0, files.len()),
        forall|p: nat|
            1 <= p <= search_total_pages(files.len(), page_size) ==> {
                let s = #[trigger] page_start(p, page_size);
                0 < page_end(files.len(), s, page_size) - s <= page_size
            },
{
    let n = files.len();
    let t = (n + page_size - 1) / (page_size as int);
    assert(t >= 1) by (nonlinear_arith)
        requires
            t == (n + page_size - 1) / (page_size as int),
            n > 0,
            page_size > 0,
    ;
    assert(search_total_pages(n, page_size) == t);
    lemma_rows_of_result_pages_prefix(files, page_size, t as nat);
    lemma_page_count(n, page_size, t as nat);
    assert forall|p: nat| 1 <= p <= t implies {
        let s = #[trigger] page_start(p, page_size);
        0 < page_end(n, s, page_size) - s <= page_size
    } by {
        lemma_page_count(n, page_size, p);
    }
}

/// The files as entries of a folder listing.
pub open spec fn as_items(files: Seq<File>) -> Seq<BrowseItem> {
    files.map_values(|f: File| BrowseItem::File(f))
}

/// A page of search results shows the same file rows as the same page of a
/// folder listing of those files, and its navigation row has the same
/// captions; only the data of the page buttons differ.
pub proof fn lemma_search_rows_match_folder(
    files: Seq<File>,
    page: nat,
    page_size: nat,
    parent: Option<Seq<char>>,
    folder: Option<Seq<char>>,
)
    requires
        search_page_drawable(files.len(), page, page_size),
        page >= 1,
    ensures
        ({
            let n = files.len();
            let s = page_start(page, page_size);
            let e = page_end(n, s, page_size);
            let sn = nav_row(
                page,
                search_total_pages(n, page_size),
                search_page_callback((page - 1) as nat),
                search_page_callback(page + 1),
            );
            let fnav = nav_row(
                page,
                folder_total_pages(n, page_size),
                folder_page_callback(folder, (page - 1) as nat),
                folder_page_callback(folder, page + 1),
            );
            &&& folder_page_drawable(n, page, page_size)
            &&& file_rows(files, s, e) == item_rows(as_items(files), s, e)
            &&& sn.len() == fnav.len()
            &&& forall|j: int| 0 <= j < sn.len() ==> (#[trigger] sn[j]).0 == fnav[j].0
        }),
{
    let n = files.len();
    let s = page_start(page, page_size);
    let e = page_end(n, s, page_size);
    assert(file_rows(files, s, e) =~= item_rows(as_items(files), s, e));
    if n > 0 {
        let a = n + page_size - 1;
        assert(a / (page_size as int) >= 1) by (nonlinear_arith)
            requires
                a >= page_size,
                page_size > 0,
        ;
        assert(folder_total_pages(n, page_size) == search_total_pages(n, page_size));
    } else {
        assert(s == 0);
        assert(page == 1) by (nonlinear_arith)
            requires
                s == (page - 1) * page_size,
                s == 0,
                page >= 1,
                page_size > 0,
        ;
        assert((page_size - 1) / (page_size as int) == 0) by (nonlinear_arith)
            requires
                page_size > 0,
        ;
    }
}

/// The pages that a search keyboard links to (back and forward) can be
/// drawn too: following its buttons never leaves the results.
pub proof fn lemma_search_nav_drawable(n: nat, page: nat, page_size: nat)
    requires
        search_page_drawable(n, page, page_size),
    ensures
        page > 1 ==> search_page_drawable(n, (page - 1) as nat, page_size),
        page < search_total_pages(n, page_size) ==> search_page_drawable(n, page + 1, page_size),
{
    let ps = page_size;
    if page > 1 {
        assert(page_start((page - 1) as nat, ps) <= page_start(page, ps)) by (nonlinear_arith)
            requires
                page > 1,
                page_start((page - 1) as nat, ps) == (page - 2) * ps,
                page_start(page, ps) == (page - 1) * ps,
        ;
    }
    if page < search_total_pages(n, ps) {
        let total = (n + ps - 1) / (ps as int);
        assert(page_start(page + 1, ps) == page * ps);
        if total >= 1 {
            assert(page * ps + ps <= n + ps - 1) by (nonlinear_arith)
                requires
                    total == (n + ps - 1) / (ps as int),
                    page < total,
                    ps > 0,
            {
                assert(total * ps <= n + ps - 1);
                assert(page * ps + ps <= total * ps);
            }
        } else {
            assert(page == 0);
        }
    }
}

/// The pages that a folder keyboard links to (back and forward) can be
/// drawn too.
pub proof fn lemma_folder_nav_drawable(n: nat, page: nat, page_size: nat)
    requires
        folder_page_drawable(n, page, page_size),
    ensures
        page > 1 ==> folder_page_drawable(n, (page - 1) as nat, page_size),
        page < folder_total_pages(n, page_size) ==> folder_page_drawable(n, page + 1, page_size),
{
    let ps = page_size;
    if page > 1 {
        assert(page_start((page - 1) as nat, ps) <= page_start(page, ps)) by (nonlinear_arith)
            requires
                page > 1,
                page_start((page - 1) as nat, ps) == (page - 2) * ps,
                page_start(page, ps) == (page - 1) * ps,
        ;
    }
    if page < folder_total_pages(n, ps) && ps > 0 {
        let a = n + ps - 1;
        assert(page_start(page + 1, ps) == page * ps);
        if a >= 1 {
            let total = a / (ps as int);
            assert(page * ps + ps <= n + ps - 1) by (nonlinear_arith)
                requires
                    total == a / (ps as int),
                    a == n + ps - 1,
                    a >= 1,
                    page < total,
                    ps > 0,
            {
                assert(total * ps <= a);
                assert(page * ps + ps <= total * ps);
            }
        } else {
            assert(page == 0);
        }
    }
}

} // verus!
