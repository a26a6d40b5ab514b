use vstd::prelude::*;

verus! {

/// A folder of the library tree.
#[derive(Debug, Clone, PartialEq, Eq)]
pub struct Folder {
    /// The folder's key (a UUID in text form).
    pub id: String,
    /// The folder's name.
    pub name: String,
    /// The key of the folder that holds this one; `None` at the root.
    pub parent_id: Option<String>,
}

/// A file (a book) kept in Telegram's cloud storage.
#[derive(Debug, Clone, PartialEq, Eq)]
pub struct File {
    /// The file's key (a UUID in text form).
    pub id: String,
    /// The name of the file or book.
    pub name: String,
    /// The key of the folder that holds it.
    pub folder_id: String,
    /// Telegram's `file_id`, by which the file is sent again.
    pub file_id: String,
}

/// A file that a user sent in, waiting for the administrator to approve it.
#[derive(Debug, Clone, PartialEq, Eq)]
pub struct PendingContribution {
    pub id: String,
    /// The Telegram id of the sender.
    pub user_id: i64,
    /// The sender's user name, where there is one.
    pub username: Option<String>,
    /// The description that the sender wrote.
    pub description: String,
    /// The `file_id` of the copy forwarded to the storage channel.
    pub file_id: String,
    /// The name of the file as it was sent.
    pub file_name: String,
}

/// Where a user stands in a conversation with the bot.
#[derive(Debug, Clone, PartialEq, Eq)]
pub enum DialogueState {
    /// Nothing under way.
    Idle,
    /// Waiting for the description of a contribution.
    AwaitingContributeInfo,
    /// Waiting for the file or files, after the description was given.
    AwaitingContributeFile {
        /// The description given in the step before.
        description: String,
    },
    /// Waiting for a search keyword.
    AwaitingSearchKeyword,
}

impl Default for DialogueState {
    fn default() -> (r: DialogueState)
        ensures
            r is Idle,
    {
        DialogueState::Idle
    }
}

} // verus!
