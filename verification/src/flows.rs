use vstd::prelude::*;

use crate::config::Config;
use crate::keyboards::{
    back_to_main_keyboard, back_to_main_view, button, contribute_cancel_keyboard,
    finish_contribution_keyboard, finish_contribution_view, folder_keyboard,
    folder_keyboard_view, folder_page_drawable, home_button, main_menu_keyboard, main_menu_view,
    opt_view, push_row, search_keyboard_view, search_page_drawable, search_results_keyboard,
    single, BrowseItem, Keyboard,
};
use crate::models::{DialogueState, File, Folder};
use crate::text::{decimal, decimal_text, lowercase, to_lowercase, trim, trimmed};

verus! {

/// A message to show: its text and its inline keyboard.
pub struct Screen {
    pub text: String,
    pub keyboard: Keyboard,
}

pub const WELCOME_PREFIX: &'static str = "👋 أهلا بكم في مكتبة ";

pub const SEARCH_PROMPT: &'static str = "🔎 أدخل كلمة البحث:";

pub const EMPTY_KEYWORD: &'static str = "⚠️ الرجاء إدخال كلمة بحث.";

pub const CONTRIBUTE_PROMPT: &'static str = "📚 شكرًا لرغبتك في المساهمة بالمكتبة\n\n\
    🔹 الرجاء إدخال معلومات المنهج أو الكورس\n\
    مع ذكر القسم المناسب (مثال: علوم الحاسوب - لغة C++).";

pub const EMPTY_DESCRIPTION: &'static str = "⚠️ الرجاء كتابة وصف للمواد.";

pub const FINISH_TEXT: &'static str = "🎉 شكرًا على مساهمتك 🙏\n🌟 سيتم مراجعة الملفات قبل إضافتها.";

pub const ABOUT_PREFIX: &'static str = "📖 *نبذة عن مكتبة ";

pub const ABOUT_SUFFIX: &'static str = "*\n\n\
    مرحبًا بك في مكتبتنا التعليمية 🌟\n\n\
    1️⃣ توفير المناهج والكورسات لجميع الطلاب بسهولة.\n\
    2️⃣ العلم حق للجميع.\n\
    3️⃣ تعزيز التعاون بين الطلاب.\n\
    4️⃣ كسر الحواجز المالية.\n\
    5️⃣ تشجيع المساهمات الفردية.\n\n\
    🤝 شارك ملفاتك لدعم زملائك. معًا نحو بيئة تعليمية عادلة ✨";

pub const FILE_NOT_FOUND: &'static str = "❌ الملف غير موجود.";

pub open spec fn welcome_text(library_name: Seq<char>) -> Seq<char> {
    WELCOME_PREFIX@ + library_name
}

/// The greeting with the main menu, shown by /start, by the home button and
/// when a search is cancelled.
pub fn welcome_screen(library_name: &str) -> (s: Screen)
    ensures
        s.text@ == welcome_text(library_name@),
        s.keyboard@ == main_menu_view(),
{
    let mut text = String::from_str(WELCOME_PREFIX);
    text.append(library_name);
    Screen { text, keyboard: main_menu_keyboard() }
}

pub open spec fn about_text(library_name: Seq<char>) -> Seq<char> {
    ABOUT_PREFIX@ + library_name + ABOUT_SUFFIX@
}

/// The page about the library (its text is Markdown).
pub fn about_screen(library_name: &str) -> (s: Screen)
    ensures
        s.text@ == about_text(library_name@),
        s.keyboard@ == back_to_main_view(),
{
    let mut text = String::from_str(ABOUT_PREFIX);
    text.append(library_name);
    text.append(ABOUT_SUFFIX);
    Screen { text, keyboard: back_to_main_keyboard() }
}

/// The request for a search keyword, with a button that cancels.
pub fn search_prompt_screen() -> (s: Screen)
    ensures
        s.text@ == SEARCH_PROMPT@,
        s.keyboard@ == seq![seq![("❌ إلغاء"@, "cancel_search"@)]],
{
    let mut rows: Vec<Vec<crate::keyboards::Button>> = Vec::new();
    push_row(&mut rows, single(button("❌ إلغاء", "cancel_search")));
    let keyboard = Keyboard { rows };
    assert(keyboard@ =~= seq![seq![("❌ إلغاء"@, "cancel_search"@)]]);
    Screen { text: String::from_str(SEARCH_PROMPT), keyboard }
}

/// The request for the description of a contribution.
pub fn contribute_prompt_screen() -> (s: Screen)
    ensures
        s.text@ == CONTRIBUTE_PROMPT@,
        s.keyboard@ == seq![seq![home_button()]],
{
    Screen { text: String::from_str(CONTRIBUTE_PROMPT), keyboard: contribute_cancel_keyboard() }
}

/// The thanks shown when the user finishes a contribution.
pub fn finish_contribution_screen() -> (s: Screen)
    ensures
        s.text@ == FINISH_TEXT@,
        s.keyboard@ == back_to_main_view(),
{
    Screen { text: String::from_str(FINISH_TEXT), keyboard: back_to_main_keyboard() }
}

/// The entries of a folder listing: the sub-folders, then (inside a folder,
/// not at the root) the files.
pub open spec fn listing_items(
    folder_id: Option<Seq<char>>,
    subfolders: Seq<Folder>,
    files: Seq<File>,
) -> Seq<BrowseItem> {
    subfolders.map_values(|f: Folder| BrowseItem::Folder(f)) + (if folder_id is Some {
        files.map_values(|f: File| BrowseItem::File(f))
    } else {
        Seq::empty()
    })
}

/// The title of a folder listing.
pub open spec fn listing_title(
    folder_id: Option<Seq<char>>,
    folder: Option<Folder>,
    library_name: Seq<char>,
) -> Seq<char> {
    match folder_id {
        Some(_) => match folder {
            Some(f) => "📂 "@ + f.name@,
            None => "📂 المجلد"@,
        },
        None => "📚 مكتبة "@ + library_name,
    }
}

/// The folder above the one listed, where there is one.
pub open spec fn listing_parent(folder_id: Option<Seq<char>>, folder: Option<Folder>) -> Option<
    Seq<char>,
> {
    match folder_id {
        Some(_) => match folder {
            Some(f) => match f.parent_id {
                Some(p) => Some(p@),
                None => None,
            },
            None => None,
        },
        None => None,
    }
}

pub open spec fn listing_len(folder_id: Option<Seq<char>>, n_folders: nat, n_files: nat) -> nat {
    if folder_id is Some {
        n_folders + n_files
    } else {
        n_folders
    }
}

/// A page of a folder listing: `folder_id` is the folder shown (`None` for
/// the root), `subfolders` and `files` what it holds, `folder` its record,
/// where it was found.
pub fn folder_screen(
    folder_id: Option<&str>,
    subfolders: Vec<Folder>,
    files: Vec<File>,
    folder: Option<Folder>,
    library_name: &str,
    page: usize,
    page_size: usize,
) -> (s: Screen)
    requires
        folder_page_drawable(
            listing_len(opt_view(folder_id), subfolders@.len(), files@.len()),
            page as nat,
            page_size as nat,
        ),
    ensures
        s.text@ == listing_title(opt_view(folder_id), folder, library_name@),
        s.keyboard@ == folder_keyboard_view(
            listing_items(opt_view(folder_id), subfolders@, files@),
            page as nat,
            page_size as nat,
            listing_parent(opt_view(folder_id), folder),
            opt_view(folder_id),
        ),
{
    let ghost spec_folders = subfolders@;
    let ghost spec_files = files@;
    let mut items: Vec<BrowseItem> = Vec::new();
    let mut rest = subfolders;
    while rest.len() > 0
        invariant
            items@ + rest@.map_values(|f: Folder| BrowseItem::Folder(f)) == spec_folders.map_values(
                |f: Folder| BrowseItem::Folder(f),
            ),
        decreases rest.len(),
    {
        let ghost before = rest@;
        let f = rest.remove(0);
        items.push(BrowseItem::Folder(f));
        assert(before.map_values(|f: Folder| BrowseItem::Folder(f)) =~= seq![BrowseItem::Folder(f)]
            + rest@.map_values(|f: Folder| BrowseItem::Folder(f)));
    }
    assert(items@ =~= spec_folders.map_values(|f: Folder| BrowseItem::Folder(f)));
    let ghost head = items@;
    if folder_id.is_some() {
        let mut rest = files;
        while rest.len() > 0
            invariant
                items@ + rest@.map_values(|f: File| BrowseItem::File(f)) == head
                    + spec_files.map_values(|f: File| BrowseItem::File(f)),
            decreases rest.len(),
        {
            let ghost before = rest@;
            let f = rest.remove(0);
            let ghost prev = items@;
            items.push(BrowseItem::File(f));
            assert(before.map_values(|f: File| BrowseItem::File(f)) =~= seq![BrowseItem::File(f)]
                + rest@.map_values(|f: File| BrowseItem::File(f)));
            assert(prev + before.map_values(|f: File| BrowseItem::File(f)) =~= items@
                + rest@.map_values(|f: File| BrowseItem::File(f)));
        }
        assert(items@ =~= head + spec_files.map_values(|f: File| BrowseItem::File(f)));
    }
    assert(items@ =~= listing_items(opt_view(folder_id), spec_folders, spec_files));
    let text = match folder_id {
        Some(_) => match &folder {
            Some(f) => {
                let mut t = String::from_str("📂 ");
                t.append(f.name.as_str());
                t
            },
            None => String::from_str("📂 المجلد"),
        },
        None => {
            let mut t = String::from_str("📚 مكتبة ");
            t.append(library_name);
            t
        },
    };
    let parent: Option<&str> = match folder_id {
        Some(_) => match &folder {
            Some(f) => match &f.parent_id {
                Some(p) => Some(p.as_str()),
                None => None,
            },
            None => None,
        },
        None => None,
    };
    let keyboard = folder_keyboard(items.as_slice(), page, page_size, parent, folder_id);
    Screen { text, keyboard }
}

/// A folder's screen: its title is the folder's name (the root shows the
/// library's name); its entries are the sub-folders in order and then,
/// inside a folder, its files in order; and its bottom row leads to the
/// parent folder recorded for it, while a folder with no recorded parent,
/// and the root, get home, contribute and about.
pub proof fn lemma_folder_screen(
    folder_id: Option<Seq<char>>,
    subfolders: Seq<Folder>,
    files: Seq<File>,
    folder: Option<Folder>,
    library_name: Seq<char>,
    page: nat,
    page_size: nat,
)
    ensures
        folder_id is None ==> listing_title(folder_id, folder, library_name) == "📚 مكتبة "@
            + library_name,
        folder_id is Some ==> listing_title(folder_id, folder, library_name) == match folder {
            Some(f) => "📂 "@ + f.name@,
            None => "📂 المجلد"@,
        },
        listing_items(folder_id, subfolders, files).len() == listing_len(
            folder_id,
            subfolders.len(),
            files.len(),
        ),
        listing_len(folder_id, subfolders.len(), files.len()) == if folder_id is Some {
            subfolders.len() + files.len()
        } else {
            subfolders.len()
        },
        forall|i: int|
            0 <= i < subfolders.len() ==> #[trigger] listing_items(folder_id, subfolders, files)[i]
                == BrowseItem::Folder(subfolders[i]),
        folder_id is Some ==> forall|j: int|
            0 <= j < files.len() ==> #[trigger] listing_items(folder_id, subfolders, files)[subfolders.len()
                + j] == BrowseItem::File(files[j]),
        folder_keyboard_view(
            listing_items(folder_id, subfolders, files),
            page,
            page_size,
            listing_parent(folder_id, folder),
            folder_id,
        ).last() == if folder_id is Some && folder is Some && folder.unwrap().parent_id is Some {
            seq![("🔙 رجوع"@, "open_folder:"@ + folder.unwrap().parent_id.unwrap()@)]
        } else {
            seq![("🏠 الرئيسية"@, "main_menu"@), ("🙌 المساهمة"@, "contribute"@), ("ℹ️ نبذة"@, "about"@)]
        },
{
    let items = listing_items(folder_id, subfolders, files);
    let head = subfolders.map_values(|f: Folder| BrowseItem::Folder(f));
    assert forall|i: int| 0 <= i < subfolders.len() implies #[trigger] items[i] == BrowseItem::Folder(
        subfolders[i],
    ) by {
        assert(items[i] == head[i]);
    }
}

/// What opening a file does: send the document with its name as caption, or
/// answer that it is not there.
#[derive(Debug, Clone, PartialEq, Eq)]
pub enum OpenFileOutcome {
    SendDocument { file_id: String, caption: String },
    NotFound { alert: String },
}

pub fn open_file_outcome(file: Option<File>) -> (r: OpenFileOutcome)
    ensures
        match file {
            Some(f) => r matches OpenFileOutcome::SendDocument { file_id, caption } && file_id@
                == f.file_id@ && caption@ == f.name@,
            None => r matches OpenFileOutcome::NotFound { alert } && alert@ == FILE_NOT_FOUND@,
        },
{
    match file {
        Some(f) => OpenFileOutcome::SendDocument { file_id: f.file_id, caption: f.name },
        None => OpenFileOutcome::NotFound { alert: String::from_str(FILE_NOT_FOUND) },
    }
}

pub open spec fn text_or_empty(text: Option<&str>) -> Seq<char> {
    match text {
        Some(t) => t@,
        None => Seq::empty(),
    }
}

/// The keyword of a search message: its text trimmed and in lower case;
/// `None` where nothing is left, which is answered with `EMPTY_KEYWORD`.
pub fn search_keyword(text: Option<&str>) -> (r: Option<String>)
    ensures
        r is None <==> lowercase(trimmed(text_or_empty(text))).len() == 0,
        r matches Some(k) ==> k@ == lowercase(trimmed(text_or_empty(text))),
{
    let t = match text {
        Some(t) => t,
        None => "",
    };
    proof {
        reveal_strlit("");
        assert(t@ =~= text_or_empty(text));
    }
    let trimmed_text = trim(t);
    let keyword = to_lowercase(trimmed_text.as_str());
    keyword_if_present(keyword)
}

/// A normalised keyword, where it is not empty.
pub fn keyword_if_present(keyword: String) -> (r: Option<String>)
    ensures
        r is None <==> keyword@.len() == 0,
        r matches Some(k) ==> k@ == keyword@,
{
    if keyword.as_str().unicode_len() == 0 {
        None
    } else {
        Some(keyword)
    }
}

pub open spec fn no_results_text(keyword: Seq<char>) -> Seq<char> {
    "❌ لا توجد نتائج تطابق \""@ + keyword + "\""@
}

pub open spec fn results_text(n: nat) -> Seq<char> {
    "🔍 نتائج البحث ("@ + decimal(n) + " نتيجة):"@
}

/// The answer to a search: the first page of results, or word that nothing
/// matched.
pub fn search_results_screen(keyword: &str, results: &[File], page_size: usize) -> (s: Screen)
    requires
        results@.len() > 0 ==> search_page_drawable(results@.len(), 1, page_size as nat),
    ensures
        results@.len() == 0 ==> s.text@ == no_results_text(keyword@) && s.keyboard@
            == back_to_main_view(),
        results@.len() > 0 ==> s.text@ == results_text(results@.len()) && s.keyboard@
            == search_keyboard_view(results@, 1, page_size as nat),
{
    if results.len() == 0 {
        let mut text = String::from_str("❌ لا توجد نتائج تطابق \"");
        text.append(keyword);
        text.append("\"");
        return Screen { text, keyboard: back_to_main_keyboard() };
    }
    let keyboard = search_results_keyboard(results, 1, page_size);
    let mut text = String::from_str("🔍 نتائج البحث (");
    let n = decimal_text(results.len() as u64);
    text.append(n.as_str());
    text.append(" نتيجة):");
    Screen { text, keyboard }
}

pub open spec fn file_request_text(max_file_size_mb: nat, admin_username: Seq<char>) -> Seq<char> {
    "📂 الرجاء إرسال الملف/الملفات.\n\n✅ يمكنك إرسال أكثر من ملف.\n⚠️ الملفات المسموحة: PDF, DOCX, PPTX, ZIP, RAR, MP4\n🚫 الحد الأقصى: "@
        + decimal(max_file_size_mb) + "MB\n📌 إذا كان الملف أكبر تواصل مع: @"@ + admin_username
}

/// The step after the description of a contribution: where the trimmed
/// text is empty, the warning `EMPTY_DESCRIPTION` and no change of state;
/// else the dialogue waits for files with that description, and the user is
/// told what to send.
pub fn contribute_info_outcome(text: Option<&str>, cfg: &Config) -> (r: Result<
    (DialogueState, Screen),
    String,
>)
    ensures
        match r {
            Err(w) => trimmed(text_or_empty(text)).len() == 0 && w@ == EMPTY_DESCRIPTION@,
            Ok((state, screen)) => {
                &&& trimmed(text_or_empty(text)).len() > 0
                &&& state matches DialogueState::AwaitingContributeFile { description }
                &&& description@ == trimmed(text_or_empty(text))
                &&& screen.text@ == file_request_text(
                    cfg.max_file_size_mb as nat,
                    cfg.admin_username@,
                )
                &&& screen.keyboard@ == finish_contribution_view()
            },
        },
{
    let t = match text {
        Some(t) => t,
        None => "",
    };
    proof {
        reveal_strlit("");
        assert(t@ =~= text_or_empty(text));
    }
    let description = trim(t);
    if description.as_str().unicode_len() == 0 {
        return Err(String::from_str(EMPTY_DESCRIPTION));
    }
    let mut msg = String::from_str(
        "📂 الرجاء إرسال الملف/الملفات.\n\n✅ يمكنك إرسال أكثر من ملف.\n⚠️ الملفات المسموحة: PDF, DOCX, PPTX, ZIP, RAR, MP4\n🚫 الحد الأقصى: ",
    );
    let mb = decimal_text(cfg.max_file_size_mb);
    msg.append(mb.as_str());
    msg.append("MB\n📌 إذا كان الملف أكبر تواصل مع: @");
    msg.append(cfg.admin_username.as_str());
    Ok(
        (
            DialogueState::AwaitingContributeFile { description },
            Screen { text: msg, keyboard: finish_contribution_keyboard() },
        ),
    )
}

} // verus!
