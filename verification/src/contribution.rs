use vstd::prelude::*;

use crate::config::Config;
use crate::flows::Screen;
use crate::keyboards::{back_to_main_keyboard, back_to_main_view};
use crate::models::{DialogueState, PendingContribution};
use crate::text::{decimal, decimal_text, ends_with, has_suffix, lowercase, to_lowercase};

verus! {

/// A document or video attached to a message.
#[derive(Debug, Clone, PartialEq, Eq)]
pub struct Attachment {
    /// Telegram's `file_id`.
    pub file_id: String,
    /// The file name, where the sender's client gave one.
    pub file_name: Option<String>,
    /// The size in bytes.
    pub file_size: u32,
}

/// What a message carries as a file: its id (where it has a document or a
/// video), its name, and its size.
#[derive(Debug, Clone, PartialEq, Eq)]
pub struct FileInfo {
    pub file_id: Option<String>,
    pub file_name: String,
    pub file_size: Option<u64>,
}

pub open spec fn name_or(name: Option<String>, default: Seq<char>) -> Seq<char> {
    match name {
        Some(n) => n@,
        None => default,
    }
}

/// The file of a message: its document if it has one, else its video; a
/// document without a name is called `file`, a video without one
/// `video.mp4`; a message without either has no id, the name `unknown` and
/// no size.
pub fn extract_file_info(document: Option<Attachment>, video: Option<Attachment>) -> (r: FileInfo)
    ensures
        match document {
            Some(d) => r.file_id == Some(d.file_id) && r.file_name@ == name_or(d.file_name, "file"@)
                && r.file_size == Some(d.file_size as u64),
            None => match video {
                Some(v) => r.file_id == Some(v.file_id) && r.file_name@ == name_or(
                    v.file_name,
                    "video.mp4"@,
                ) && r.file_size == Some(v.file_size as u64),
                None => r.file_id is None && r.file_name@ == "unknown"@ && r.file_size is None,
            },
        },
{
    if let Some(d) = document {
        let name = match d.file_name {
            Some(n) => n,
            None => String::from_str("file"),
        };
        return FileInfo { file_id: Some(d.file_id), file_name: name, file_size: Some(d.file_size as u64) };
    }
    if let Some(v) = video {
        let name = match v.file_name {
            Some(n) => n,
            None => String::from_str("video.mp4"),
        };
        return FileInfo { file_id: Some(v.file_id), file_name: name, file_size: Some(v.file_size as u64) };
    }
    FileInfo { file_id: None, file_name: String::from_str("unknown"), file_size: None }
}

/// Why a contributed file is refused.
#[derive(Debug, Clone, Copy, PartialEq, Eq)]
pub enum Rejection {
    /// The message holds no document or video.
    NoFile,
    /// The file is larger than the configured limit.
    TooLarge,
    /// The file name does not end in an accepted extension.
    UnsupportedExtension,
}

/// The accepted extensions.
pub open spec fn allowed_extensions() -> Seq<Seq<char>> {
    seq![".pdf"@, ".docx"@, ".pptx"@, ".zip"@, ".rar"@, ".mp4"@]
}

/// Whether a file name in lower case ends in an accepted extension.
pub open spec fn has_allowed_extension(lowered: Seq<char>) -> bool {
    exists|i: int| 0 <= i < allowed_extensions().len() && has_suffix(lowered, #[trigger] allowed_extensions()[i])
}

/// Whether a file name, once in lower case, ends in an accepted extension.
pub fn name_has_allowed_extension(name: &str) -> (r: bool)
    ensures
        r == has_allowed_extension(lowercase(name@)),
{
    let l = to_lowercase(name);
    lowered_has_allowed_extension(l.as_str())
}

/// Whether a file name already in lower case ends in an accepted extension.
pub fn lowered_has_allowed_extension(l: &str) -> (r: bool)
    ensures
        r == has_allowed_extension(l@),
        r <==> (has_suffix(l@, ".pdf"@) || has_suffix(l@, ".docx"@) || has_suffix(l@, ".pptx"@)
            || has_suffix(l@, ".zip"@) || has_suffix(l@, ".rar"@) || has_suffix(l@, ".mp4"@)),
{
    let ghost e = allowed_extensions();
    let r = ends_with(l, ".pdf") || ends_with(l, ".docx") || ends_with(l, ".pptx") || ends_with(
        l,
        ".zip",
    ) || ends_with(l, ".rar") || ends_with(l, ".mp4");
    proof {
        if r {
            if has_suffix(l@, ".pdf"@) {
                assert(has_suffix(l@, e[0]));
            } else if has_suffix(l@, ".docx"@) {
                assert(has_suffix(l@, e[1]));
            } else if has_suffix(l@, ".pptx"@) {
                assert(has_suffix(l@, e[2]));
            } else if has_suffix(l@, ".zip"@) {
                assert(has_suffix(l@, e[3]));
            } else if has_suffix(l@, ".rar"@) {
                assert(has_suffix(l@, e[4]));
            } else {
                assert(has_suffix(l@, e[5]));
            }
        }
    }
    r
}

/// A name in lower case is accepted exactly when it ends in `.pdf`,
/// `.docx`, `.pptx`, `.zip`, `.rar` or `.mp4`; any other ending, `.txt`
/// among them, is refused.
pub proof fn lemma_allowed_extensions(lowered: Seq<char>)
    ensures
        has_allowed_extension(lowered) <==> (has_suffix(lowered, ".pdf"@) || has_suffix(
            lowered,
            ".docx"@,
        ) || has_suffix(lowered, ".pptx"@) || has_suffix(lowered, ".zip"@) || has_suffix(
            lowered,
            ".rar"@,
        ) || has_suffix(lowered, ".mp4"@)),
{
    let e = allowed_extensions();
    if has_allowed_extension(lowered) {
        let i = choose|i: int| 0 <= i < e.len() && has_suffix(lowered, #[trigger] e[i]);
        assert(i == 0 || i == 1 || i == 2 || i == 3 || i == 4 || i == 5);
    }
    if has_suffix(lowered, ".pdf"@) {
        assert(has_suffix(lowered, e[0]));
    } else if has_suffix(lowered, ".docx"@) {
        assert(has_suffix(lowered, e[1]));
    } else if has_suffix(lowered, ".pptx"@) {
        assert(has_suffix(lowered, e[2]));
    } else if has_suffix(lowered, ".zip"@) {
        assert(has_suffix(lowered, e[3]));
    } else if has_suffix(lowered, ".rar"@) {
        assert(has_suffix(lowered, e[4]));
    } else if has_suffix(lowered, ".mp4"@) {
        assert(has_suffix(lowered, e[5]));
    }
}

/// The first reason, in the order of the checks, to refuse a file: no file,
/// too large, or a wrong extension.
pub open spec fn rejection_of(info: FileInfo, max_bytes: int) -> Option<Rejection> {
    if info.file_id is None {
        Some(Rejection::NoFile)
    } else if info.file_size is Some && info.file_size.unwrap() > max_bytes {
        Some(Rejection::TooLarge)
    } else if !has_allowed_extension(lowercase(info.file_name@)) {
        Some(Rejection::UnsupportedExtension)
    } else {
        None
    }
}

/// Why a file is refused, in the order of the checks: a message without a
/// file gets `NoFile`; a file larger than the limit gets `TooLarge`; a file
/// within the limit whose lower-cased name ends in none of `.pdf`, `.docx`,
/// `.pptx`, `.zip`, `.rar` and `.mp4` gets `UnsupportedExtension`; every
/// other file is accepted.
pub proof fn lemma_rejection_reasons(info: FileInfo, max_bytes: int)
    ensures
        rejection_of(info, max_bytes) == Some(Rejection::NoFile) <==> info.file_id is None,
        rejection_of(info, max_bytes) == Some(Rejection::TooLarge) <==> (info.file_id is Some
            && (info.file_size matches Some(size) && size > max_bytes)),
        rejection_of(info, max_bytes) == Some(Rejection::UnsupportedExtension) <==> (
        info.file_id is Some && !(info.file_size matches Some(size) && size > max_bytes) && !(
        has_suffix(lowercase(info.file_name@), ".pdf"@) || has_suffix(
            lowercase(info.file_name@),
            ".docx"@,
        ) || has_suffix(lowercase(info.file_name@), ".pptx"@) || has_suffix(
            lowercase(info.file_name@),
            ".zip"@,
        ) || has_suffix(lowercase(info.file_name@), ".rar"@) || has_suffix(
            lowercase(info.file_name@),
            ".mp4"@,
        ))),
        rejection_of(info, max_bytes) is None <==> (info.file_id is Some && !(info.file_size matches Some(
            size,
        ) && size > max_bytes) && (has_suffix(lowercase(info.file_name@), ".pdf"@) || has_suffix(
            lowercase(info.file_name@),
            ".docx"@,
        ) || has_suffix(lowercase(info.file_name@), ".pptx"@) || has_suffix(
            lowercase(info.file_name@),
            ".zip"@,
        ) || has_suffix(lowercase(info.file_name@), ".rar"@) || has_suffix(
            lowercase(info.file_name@),
            ".mp4"@,
        ))),
{
    lemma_allowed_extensions(lowercase(info.file_name@));
}

/// Checks a contributed file against the settings; `Ok` with its id where
/// it is accepted.
pub fn check_contribution(info: &FileInfo, cfg: &Config) -> (r: Result<String, Rejection>)
    requires
        info.file_id is Some && info.file_size is Some ==> cfg.max_file_size_mb * 1048576
            <= u64::MAX,
    ensures
        match r {
            Ok(id) => rejection_of(*info, cfg.max_file_size_mb * 1048576) is None && id@
                == info.file_id.unwrap()@,
            Err(e) => rejection_of(*info, cfg.max_file_size_mb * 1048576) == Some(e),
        },
{
    let id = match &info.file_id {
        Some(id) => id.clone(),
        None => return Err(Rejection::NoFile),
    };
    if let Some(size) = info.file_size {
        if size > cfg.max_file_size_bytes() {
            return Err(Rejection::TooLarge);
        }
    }
    if !name_has_allowed_extension(info.file_name.as_str()) {
        return Err(Rejection::UnsupportedExtension);
    }
    Ok(id)
}

pub const NO_FILE_TEXT: &'static str = "❌ يرجى إرسال ملف صحيح.";

pub const UNSUPPORTED_EXTENSION_TEXT: &'static str = "❌ امتداد غير مدعوم. المسموح: PDF, DOCX, PPTX, ZIP, RAR, MP4";

pub open spec fn too_large_text(max_file_size_mb: nat, admin_username: Seq<char>) -> Seq<char> {
    "⚠️ الملف يتجاوز "@ + decimal(max_file_size_mb) + "MB.\n📌 تواصل مع: @"@ + admin_username
}

pub open spec fn rejection_text(r: Rejection, cfg: Config) -> Seq<char> {
    match r {
        Rejection::NoFile => NO_FILE_TEXT@,
        Rejection::TooLarge => too_large_text(cfg.max_file_size_mb as nat, cfg.admin_username@),
        Rejection::UnsupportedExtension => UNSUPPORTED_EXTENSION_TEXT@,
    }
}

/// The message that tells the sender why a file was refused.
pub fn rejection_message(r: Rejection, cfg: &Config) -> (m: String)
    ensures
        m@ == rejection_text(r, *cfg),
{
    match r {
        Rejection::NoFile => String::from_str(NO_FILE_TEXT),
        Rejection::TooLarge => {
            let mut m = String::from_str("⚠️ الملف يتجاوز ");
            let d = decimal_text(cfg.max_file_size_mb);
            m.append(d.as_str());
            m.append("MB.\n📌 تواصل مع: @");
            m.append(cfg.admin_username.as_str());
            m
        },
        Rejection::UnsupportedExtension => String::from_str(UNSUPPORTED_EXTENSION_TEXT),
    }
}

/// The user who sent a message.
#[derive(Debug, Clone, PartialEq, Eq)]
pub struct Sender {
    /// The Telegram user id.
    pub id: u64,
    pub first_name: String,
    pub username: Option<String>,
}

/// A Telegram user id as an `i64`, as `as i64` reads it: ids beyond
/// `i64::MAX` wrap around.
pub open spec fn wrapped_i64(x: u64) -> int {
    if x <= i64::MAX {
        x as int
    } else {
        x - 0x1_0000_0000_0000_0000
    }
}

pub open spec fn sender_id_of(sender: Option<Sender>) -> int {
    match sender {
        Some(s) => wrapped_i64(s.id),
        None => 0,
    }
}

/// The stored user id is the sender's Telegram id wherever it fits in an
/// `i64`; a larger one is read as `as i64` reads it, 2^64 less; and a
/// message without a sender is stored under 0.
pub proof fn lemma_sender_ids(s: Sender)
    ensures
        s.id <= 0x7fff_ffff_ffff_ffff ==> sender_id_of(Some(s)) == s.id as int,
        s.id > 0x7fff_ffff_ffff_ffff ==> sender_id_of(Some(s)) == s.id as int
            - 0x1_0000_0000_0000_0000,
        sender_id_of(None) == 0,
{
}

/// The id stored for a contribution: the sender's id, or 0 where the
/// message has no sender.
pub fn sender_user_id(sender: &Option<Sender>) -> (r: i64)
    ensures
        r as int == sender_id_of(*sender),
{
    match sender {
        Some(s) => {
            if s.id <= 0x7fff_ffff_ffff_ffff {
                s.id as i64
            } else {
                let high = (s.id - 0x8000_0000_0000_0000) as i64;
                high + i64::MIN
            }
        },
        None => 0,
    }
}

/// How the administrator is told who sent a file.
pub open spec fn sender_label(sender: Option<Sender>) -> Seq<char> {
    match sender {
        Some(s) => s.first_name@ + " (@"@ + name_or(s.username, "بدون"@) + ")"@,
        None => "مجهول"@,
    }
}

pub fn sender_text(sender: &Option<Sender>) -> (r: String)
    ensures
        r@ == sender_label(*sender),
{
    match sender {
        Some(s) => {
            let mut r = s.first_name.clone();
            r.append(" (@");
            match &s.username {
                Some(u) => r.append(u.as_str()),
                None => r.append("بدون"),
            }
            r.append(")");
            r
        },
        None => String::from_str("مجهول"),
    }
}

pub open spec fn admin_notice_text(
    sender: Option<Sender>,
    description: Seq<char>,
    file_name: Seq<char>,
) -> Seq<char> {
    "📥 مساهمة من: "@ + sender_label(sender) + "\n📝 "@ + description + "\n📎 "@ + file_name
}

/// The notice sent to the administrator about a new contribution.
pub fn admin_notice(sender: &Option<Sender>, description: &str, file_name: &str) -> (r: String)
    ensures
        r@ == admin_notice_text(*sender, description@, file_name@),
{
    let mut r = String::from_str("📥 مساهمة من: ");
    let who = sender_text(sender);
    r.append(who.as_str());
    r.append("\n📝 ");
    r.append(description);
    r.append("\n📎 ");
    r.append(file_name);
    r
}

pub const THANKS_TEXT: &'static str = "🎉 شكرًا لك! تم استلام الملف وحفظه سحابياً بنجاح وسيقوم المشرف بمراجعته.";

/// The thanks sent to the user once a file is stored.
pub fn thanks_screen() -> (s: Screen)
    ensures
        s.text@ == THANKS_TEXT@,
        s.keyboard@ == back_to_main_view(),
{
    Screen { text: String::from_str(THANKS_TEXT), keyboard: back_to_main_keyboard() }
}

/// The dialogue state once a file of a contribution is stored: still
/// waiting for files under the same description, since more than one file
/// may be sent, until the user presses the finish button.
pub fn state_after_stored_file(description: String) -> (s: DialogueState)
    ensures
        s matches DialogueState::AwaitingContributeFile { description: d } && d@ == description@,
{
    DialogueState::AwaitingContributeFile { description }
}

/// The id under which a file is stored: that of the copy in the storage
/// channel, or, where the copy shows none, that of the file as sent.
pub fn stored_file_id(forwarded: Option<String>, sent: String) -> (r: String)
    ensures
        r@ == match forwarded {
            Some(f) => f@,
            None => sent@,
        },
{
    match forwarded {
        Some(f) => f,
        None => sent,
    }
}

pub open spec fn is_hex_lower(c: char) -> bool {
    (48 <= (c as u32) <= 57) || (97 <= (c as u32) <= 102)
}

/// The text of a random (version 4, RFC 4122 variant) UUID in lower-case
/// hyphenated form, such as `67e55044-10b1-426f-9247-bb680e5fe0c8`.
pub open spec fn is_uuid_v4_text(s: Seq<char>) -> bool {
    &&& s.len() == 36
    &&& forall|i: int|
        0 <= i < 36 ==> if i == 8 || i == 13 || i == 18 || i == 23 {
            s[i] == '-'
        } else {
            is_hex_lower(#[trigger] s[i])
        }
    &&& s[14] == '4'
    &&& (s[19] == '8' || s[19] == '9' || s[19] == 'a' || s[19] == 'b')
}

/// Calls `uuid::Uuid::new_v4` and writes the result with `to_string`: a
/// fresh random UUID, of which only its form is claimed.
#[verifier::external_body]
fn new_contribution_id() -> (r: String)
    ensures
        is_uuid_v4_text(r@),
{
    uuid::Uuid::new_v4().to_string()
}

/// A pending contribution with the given id.
pub fn contribution_with_id(
    id: String,
    sender: &Option<Sender>,
    description: &str,
    file_id: String,
    file_name: &str,
) -> (c: PendingContribution)
    ensures
        c.id@ == id@,
        c.user_id as int == sender_id_of(*sender),
        match *sender {
            Some(s) => match s.username {
                Some(u) => c.username matches Some(n) && n@ == u@,
                None => c.username is None,
            },
            None => c.username is None,
        },
        c.description@ == description@,
        c.file_id@ == file_id@,
        c.file_name@ == file_name@,
{
    let username = match sender {
        Some(s) => match &s.username {
            Some(u) => Some(u.clone()),
            None => None,
        },
        None => None,
    };
    PendingContribution {
        id,
        user_id: sender_user_id(sender),
        username,
        description: String::from_str(description),
        file_id,
        file_name: String::from_str(file_name),
    }
}

/// A new pending contribution under a fresh random id.
pub fn new_contribution(
    sender: &Option<Sender>,
    description: &str,
    file_id: String,
    file_name: &str,
) -> (c: PendingContribution)
    ensures
        is_uuid_v4_text(c.id@),
        c.user_id as int == sender_id_of(*sender),
        match *sender {
            Some(s) => match s.username {
                Some(u) => c.username matches Some(n) && n@ == u@,
                None => c.username is None,
            },
            None => c.username is None,
        },
        c.description@ == description@,
        c.file_id@ == file_id@,
        c.file_name@ == file_name@,
{
    let id = new_contribution_id();
    contribution_with_id(id, sender, description, file_id, file_name)
}

} // verus!
