use library_bot::config::{Config, ConnectionMode};
use library_bot::models::DialogueState;
use library_bot::contribution::{
    admin_notice, check_contribution, contribution_with_id, extract_file_info,
    lowered_has_allowed_extension, name_has_allowed_extension, new_contribution,
    rejection_message, sender_user_id, state_after_stored_file, stored_file_id, thanks_screen, Attachment, FileInfo,
    Rejection, Sender,
};

fn cfg() -> Config {
    Config {
        bot_token: "t".to_string(),
        bot_database_url: "sqlite://library.db".to_string(),
        connection_mode: ConnectionMode::Polling,
        webhook_url: None,
        webhook_path: "/webhook".to_string(),
        port: 8080,
        storage_channel_id: -100,
        admin_id: 1,
        admin_username: "boss".to_string(),
        library_name: "L".to_string(),
        max_file_size_mb: 1,
        page_size: 10,
    }
}

fn att(id: &str, name: Option<&str>, size: u32) -> Attachment {
    Attachment { file_id: id.to_string(), file_name: name.map(|s| s.to_string()), file_size: size }
}

fn info(id: Option<&str>, name: &str, size: Option<u64>) -> FileInfo {
    FileInfo { file_id: id.map(|s| s.to_string()), file_name: name.to_string(), file_size: size }
}

#[test]
fn file_info_prefers_documents() {
    let i = extract_file_info(Some(att("d", Some("a.pdf"), 10)), Some(att("v", Some("b.mp4"), 20)));
    assert_eq!(i, info(Some("d"), "a.pdf", Some(10)));
    let i = extract_file_info(Some(att("d", None, 10)), None);
    assert_eq!(i.file_name, "file");
    let i = extract_file_info(None, Some(att("v", None, 20)));
    assert_eq!(i, info(Some("v"), "video.mp4", Some(20)));
    let i = extract_file_info(None, None);
    assert_eq!(i, info(None, "unknown", None));
}

#[test]
fn extensions() {
    assert!(name_has_allowed_extension("Lecture.PDF"));
    assert!(name_has_allowed_extension("x.docx"));
    assert!(name_has_allowed_extension("x.PpTx"));
    assert!(name_has_allowed_extension("a.zip"));
    assert!(name_has_allowed_extension("a.rar"));
    assert!(name_has_allowed_extension("a.mp4"));
    assert!(!name_has_allowed_extension("a.exe"));
    assert!(!name_has_allowed_extension("pdf"));
    assert!(!lowered_has_allowed_extension("A.PDF"));
}

#[test]
fn contribution_checks_in_order() {
    let c = cfg();
    assert_eq!(check_contribution(&info(None, "a.exe", None), &c), Err(Rejection::NoFile));
    assert_eq!(check_contribution(&info(Some("i"), "a.exe", Some(1_048_577)), &c), Err(Rejection::TooLarge));
    assert_eq!(check_contribution(&info(Some("i"), "a.exe", Some(1_048_576)), &c), Err(Rejection::UnsupportedExtension));
    assert_eq!(check_contribution(&info(Some("i"), "a.PDF", Some(1_048_576)), &c), Ok("i".to_string()));
    assert_eq!(check_contribution(&info(Some("i"), "a.pdf", None), &c), Ok("i".to_string()));
}

#[test]
fn rejection_messages() {
    let c = cfg();
    assert_eq!(rejection_message(Rejection::NoFile, &c), "❌ يرجى إرسال ملف صحيح.");
    assert_eq!(rejection_message(Rejection::TooLarge, &c), "⚠️ الملف يتجاوز 1MB.\n📌 تواصل مع: @boss");
    assert_eq!(
        rejection_message(Rejection::UnsupportedExtension, &c),
        "❌ امتداد غير مدعوم. المسموح: PDF, DOCX, PPTX, ZIP, RAR, MP4"
    );
}

#[test]
fn sender_ids_wrap_like_as_casts() {
    let s = |id: u64| Some(Sender { id, first_name: "n".to_string(), username: None });
    assert_eq!(sender_user_id(&s(42)), 42);
    assert_eq!(sender_user_id(&s(u64::MAX)), -1);
    assert_eq!(sender_user_id(&s(1u64 << 63)), i64::MIN);
    assert_eq!(sender_user_id(&None), 0);
}

#[test]
fn admin_notices() {
    let with = Some(Sender { id: 1, first_name: "أحمد".to_string(), username: Some("ahmad".to_string()) });
    assert_eq!(admin_notice(&with, "وصف", "a.pdf"), "📥 مساهمة من: أحمد (@ahmad)\n📝 وصف\n📎 a.pdf");
    let without = Some(Sender { id: 1, first_name: "سارة".to_string(), username: None });
    assert_eq!(admin_notice(&without, "d", "f"), "📥 مساهمة من: سارة (@بدون)\n📝 d\n📎 f");
    assert_eq!(admin_notice(&None, "d", "f"), "📥 مساهمة من: مجهول\n📝 d\n📎 f");
}

#[test]
fn stored_ids_and_thanks() {
    assert_eq!(stored_file_id(Some("fw".to_string()), "orig".to_string()), "fw");
    assert_eq!(stored_file_id(None, "orig".to_string()), "orig");
    assert_eq!(thanks_screen().text, "🎉 شكرًا لك! تم استلام الملف وحفظه سحابياً بنجاح وسيقوم المشرف بمراجعته.");
}

#[test]
fn contributions_keep_what_was_sent() {
    let from = Some(Sender { id: u64::MAX, first_name: "n".to_string(), username: Some("u".to_string()) });
    let c = contribution_with_id("id-1".to_string(), &from, "desc", "fid".to_string(), "a.pdf");
    assert_eq!(c.id, "id-1");
    assert_eq!(c.user_id, -1);
    assert_eq!(c.username.as_deref(), Some("u"));
    assert_eq!(c.description, "desc");
    assert_eq!(c.file_id, "fid");
    assert_eq!(c.file_name, "a.pdf");
}

#[test]
fn new_contributions_get_fresh_v4_ids() {
    let a = new_contribution(&None, "d", "fid".to_string(), "a.zip");
    let b = new_contribution(&None, "d", "fid".to_string(), "a.zip");
    assert_ne!(a.id, b.id);
    let chars: Vec<char> = a.id.chars().collect();
    assert_eq!(chars.len(), 36);
    for (i, ch) in chars.iter().enumerate() {
        if [8, 13, 18, 23].contains(&i) {
            assert_eq!(*ch, '-');
        } else {
            assert!(ch.is_ascii_digit() || ('a'..='f').contains(ch));
        }
    }
    assert_eq!(chars[14], '4');
    assert!(['8', '9', 'a', 'b'].contains(&chars[19]));
    assert_eq!(a.user_id, 0);
    assert_eq!(a.username, None);
}

#[test]
fn more_files_may_follow_a_stored_one() {
    assert_eq!(
        state_after_stored_file("علوم الحاسوب".to_string()),
        DialogueState::AwaitingContributeFile { description: "علوم الحاسوب".to_string() }
    );
}
