use library_bot::config::{Config, ConnectionMode};
use library_bot::flows::{
    about_screen, contribute_info_outcome, contribute_prompt_screen, finish_contribution_screen,
    folder_screen, open_file_outcome, search_keyword, search_prompt_screen, search_results_screen,
    welcome_screen, OpenFileOutcome, EMPTY_DESCRIPTION, EMPTY_KEYWORD,
};
use library_bot::keyboards::Keyboard;
use library_bot::models::{DialogueState, File, Folder};

fn view(k: &Keyboard) -> Vec<Vec<(String, String)>> {
    k.rows
        .iter()
        .map(|r| r.iter().map(|b| (b.text.clone(), b.callback_data.clone())).collect())
        .collect()
}

fn b(t: &str, d: &str) -> (String, String) {
    (t.to_string(), d.to_string())
}

fn cfg() -> Config {
    Config {
        bot_token: "t".to_string(),
        bot_database_url: "sqlite://library.db".to_string(),
        connection_mode: ConnectionMode::Polling,
        webhook_url: None,
        webhook_path: "/webhook".to_string(),
        port: 8080,
        storage_channel_id: -100,
        admin_id: 1,
        admin_username: "boss".to_string(),
        library_name: "SBERE_books".to_string(),
        max_file_size_mb: 50,
        page_size: 10,
    }
}

fn file(id: &str, name: &str) -> File {
    File { id: id.to_string(), name: name.to_string(), folder_id: "f".to_string(), file_id: format!("tg-{}", id) }
}

#[test]
fn welcome_and_about() {
    let w = welcome_screen("SBERE_books");
    assert_eq!(w.text, "👋 أهلا بكم في مكتبة SBERE_books");
    assert_eq!(view(&w.keyboard)[0], vec![b("📚 المكتبة", "browse_root")]);
    let a = about_screen("X");
    assert!(a.text.starts_with("📖 *نبذة عن مكتبة X*\n\nمرحبًا بك في مكتبتنا التعليمية 🌟\n\n1️⃣ "));
    assert!(a.text.ends_with("5️⃣ تشجيع المساهمات الفردية.\n\n🤝 شارك ملفاتك لدعم زملائك. معًا نحو بيئة تعليمية عادلة ✨"));
    assert_eq!(view(&a.keyboard), vec![vec![b("🏠 العودة إلى الرئيسية", "main_menu")]]);
}

#[test]
fn prompts() {
    let s = search_prompt_screen();
    assert_eq!(s.text, "🔎 أدخل كلمة البحث:");
    assert_eq!(view(&s.keyboard), vec![vec![b("❌ إلغاء", "cancel_search")]]);
    let c = contribute_prompt_screen();
    assert_eq!(
        c.text,
        "📚 شكرًا لرغبتك في المساهمة بالمكتبة\n\n🔹 الرجاء إدخال معلومات المنهج أو الكورس\nمع ذكر القسم المناسب (مثال: علوم الحاسوب - لغة C++)."
    );
    let f = finish_contribution_screen();
    assert_eq!(f.text, "🎉 شكرًا على مساهمتك 🙏\n🌟 سيتم مراجعة الملفات قبل إضافتها.");
}

#[test]
fn folder_screen_inside_a_folder() {
    let subs = vec![Folder { id: "s".to_string(), name: "فرعي".to_string(), parent_id: Some("f".to_string()) }];
    let files = vec![file("x", "كتاب.pdf")];
    let me = Folder { id: "f".to_string(), name: "الحاسوب".to_string(), parent_id: Some("root1".to_string()) };
    let s = folder_screen(Some("f"), subs, files, Some(me), "SBERE_books", 1, 10);
    assert_eq!(s.text, "📂 الحاسوب");
    assert_eq!(
        view(&s.keyboard),
        vec![
            vec![b("📁 فرعي", "open_folder:s")],
            vec![b("📄 كتاب.pdf", "open_file:x")],
            vec![b("🔙 رجوع", "open_folder:root1")],
        ]
    );
}

#[test]
fn folder_screen_at_the_root_and_unknown_folder() {
    let s = folder_screen(None, vec![], vec![file("x", "ignored")], None, "Lib", 1, 10);
    assert_eq!(s.text, "📚 مكتبة Lib");
    assert_eq!(
        view(&s.keyboard),
        vec![vec![b("🏠 الرئيسية", "main_menu"), b("🙌 المساهمة", "contribute"), b("ℹ️ نبذة", "about")]]
    );
    let u = folder_screen(Some("gone"), vec![], vec![], None, "Lib", 1, 10);
    assert_eq!(u.text, "📂 المجلد");
}

#[test]
fn opening_files() {
    assert_eq!(
        open_file_outcome(Some(file("x", "كتاب"))),
        OpenFileOutcome::SendDocument { file_id: "tg-x".to_string(), caption: "كتاب".to_string() }
    );
    assert_eq!(open_file_outcome(None), OpenFileOutcome::NotFound { alert: "❌ الملف غير موجود.".to_string() });
}

#[test]
fn search_keywords() {
    assert_eq!(search_keyword(Some("  C++ Book ")), Some("c++ book".to_string()));
    assert_eq!(search_keyword(Some(" \t ")), None);
    assert_eq!(search_keyword(None), None);
    assert_eq!(EMPTY_KEYWORD, "⚠️ الرجاء إدخال كلمة بحث.");
}

#[test]
fn search_results() {
    let none = search_results_screen("رياضيات", &[], 10);
    assert_eq!(none.text, "❌ لا توجد نتائج تطابق \"رياضيات\"");
    assert_eq!(view(&none.keyboard), vec![vec![b("🏠 العودة إلى الرئيسية", "main_menu")]]);
    let files = vec![file("1", "a"), file("2", "b")];
    let some = search_results_screen("x", &files, 1);
    assert_eq!(some.text, "🔍 نتائج البحث (2 نتيجة):");
    assert_eq!(
        view(&some.keyboard),
        vec![
            vec![b("📄 a", "open_file:1")],
            vec![b("1/2", "noop"), b("➡️", "search_page:2")],
            vec![b("❌ إلغاء البحث", "cancel_search")],
        ]
    );
}

#[test]
fn contribution_description() {
    let c = cfg();
    assert_eq!(contribute_info_outcome(Some("   "), &c).err(), Some(EMPTY_DESCRIPTION.to_string()));
    assert_eq!(contribute_info_outcome(None, &c).err(), Some("⚠️ الرجاء كتابة وصف للمواد.".to_string()));
    let (state, screen) = contribute_info_outcome(Some("  علوم الحاسوب - C++ "), &c).unwrap();
    assert_eq!(state, DialogueState::AwaitingContributeFile { description: "علوم الحاسوب - C++".to_string() });
    assert_eq!(
        screen.text,
        "📂 الرجاء إرسال الملف/الملفات.\n\n✅ يمكنك إرسال أكثر من ملف.\n⚠️ الملفات المسموحة: PDF, DOCX, PPTX, ZIP, RAR, MP4\n🚫 الحد الأقصى: 50MB\n📌 إذا كان الملف أكبر تواصل مع: @boss"
    );
    assert_eq!(
        view(&screen.keyboard),
        vec![vec![b("📩 إنهاء المساهمة", "finish_contribution")], vec![b("🏠 الرئيسية", "main_menu")]]
    );
}
