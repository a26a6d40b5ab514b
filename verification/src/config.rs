use vstd::prelude::*;

use crate::text::{
    digits_value, lowercase, parse_i64, parse_i64_spec, parse_u16, parse_u64, parse_unsigned,
    parse_usize, same_text, to_lowercase, trim, trim_end_char, trim_end_matching, trimmed,
};

verus! {

/// How the bot receives its updates.
#[derive(Debug, Clone, Copy, PartialEq, Eq)]
pub enum ConnectionMode {
    /// Long polling; suited to local development.
    Polling,
    /// Updates pushed to a webhook; suited to production.
    Webhook,
}

/// The mode that a value of `CONNECTION_MODE` selects, once trimmed and
/// put in lower case.
pub open spec fn mode_of_normalized(t: Seq<char>) -> ConnectionMode {
    if t == "webhook"@ {
        ConnectionMode::Webhook
    } else {
        ConnectionMode::Polling
    }
}

/// The mode that a value of `CONNECTION_MODE` selects.
pub open spec fn mode_of(s: Seq<char>) -> ConnectionMode {
    mode_of_normalized(lowercase(trimmed(s)))
}

impl ConnectionMode {
    /// Reads a `CONNECTION_MODE` value: `webhook`, in any case and with white
    /// space around it, selects the webhook; anything else selects polling.
    pub fn from_str(s: &str) -> (r: ConnectionMode)
        ensures
            r == mode_of(s@),
    {
        let t = trim(s);
        let l = to_lowercase(t.as_str());
        ConnectionMode::from_normalized(l.as_str())
    }

    /// The mode for a value that is already trimmed and in lower case.
    pub fn from_normalized(t: &str) -> (r: ConnectionMode)
        ensures
            r == mode_of_normalized(t@),
    {
        if same_text(t, "webhook") {
            ConnectionMode::Webhook
        } else {
            ConnectionMode::Polling
        }
    }
}

/// The bot's settings.
#[derive(Debug, Clone)]
pub struct Config {
    /// The bot token from @BotFather.
    pub bot_token: String,
    /// Where the SQLite database lies.
    pub bot_database_url: String,
    pub connection_mode: ConnectionMode,
    /// The full public URL of the server (for example https://example.com).
    pub webhook_url: Option<String>,
    /// The path on which Telegram's requests arrive (for example /webhook).
    pub webhook_path: String,
    /// The port of the local server.
    pub port: u16,
    /// The chat id of the private channel to which files are forwarded.
    pub storage_channel_id: i64,
    pub admin_id: i64,
    pub admin_username: String,
    pub library_name: String,
    pub max_file_size_mb: u64,
    pub page_size: usize,
}

/// The raw values of the environment variables that make up a `Config`;
/// `None` where a variable is not set.
pub struct EnvValues {
    /// `BOT_TOKEN`
    pub bot_token: Option<String>,
    /// `BOT_DATABASE_URL`
    pub bot_database_url: Option<String>,
    /// `CONNECTION_MODE`
    pub connection_mode: Option<String>,
    /// `WEBHOOK_URL`
    pub webhook_url: Option<String>,
    /// `WEBHOOK_PATH`
    pub webhook_path: Option<String>,
    /// `PORT`
    pub port: Option<String>,
    /// `STORAGE_CHANNEL_ID`
    pub storage_channel_id: Option<String>,
    /// `ADMIN_ID`
    pub admin_id: Option<String>,
    /// `ADMIN_USERNAME`
    pub admin_username: Option<String>,
    /// `LIBRARY_NAME`
    pub library_name: Option<String>,
    /// `MAX_FILE_SIZE_MB`
    pub max_file_size_mb: Option<String>,
    /// `PAGE_SIZE`
    pub page_size: Option<String>,
}

/// Why the settings could not be read.
#[derive(Debug, Clone, Copy, PartialEq, Eq)]
pub enum ConfigError {
    MissingBotToken,
    InvalidPort,
    MissingStorageChannelId,
    InvalidStorageChannelId,
    MissingAdminId,
    InvalidAdminId,
    InvalidMaxFileSize,
    InvalidPageSize,
    WebhookUrlRequired,
}

/// The text of a variable, or `default` where it is not set.
pub open spec fn text_or(v: Option<String>, default: Seq<char>) -> Seq<char> {
    match v {
        Some(s) => s@,
        None => default,
    }
}

pub open spec fn port_of(v: EnvValues) -> Option<nat> {
    parse_unsigned(text_or(v.port, "8080"@), 0xffff)
}

pub open spec fn max_file_size_of(v: EnvValues) -> Option<nat> {
    parse_unsigned(text_or(v.max_file_size_mb, "50"@), 0xffff_ffff_ffff_ffff)
}

pub open spec fn page_size_of(v: EnvValues) -> Option<nat> {
    parse_unsigned(text_or(v.page_size, "10"@), usize::MAX as nat)
}

pub open spec fn env_mode_of(v: EnvValues) -> ConnectionMode {
    mode_of(text_or(v.connection_mode, "polling"@))
}

/// The first check that the values fail, in the order in which they are
/// read; `None` where they make a valid `Config`.
pub open spec fn config_error_of(v: EnvValues) -> Option<ConfigError> {
    if v.bot_token is None {
        Some(ConfigError::MissingBotToken)
    } else if port_of(v) is None {
        Some(ConfigError::InvalidPort)
    } else if v.storage_channel_id is None {
        Some(ConfigError::MissingStorageChannelId)
    } else if parse_i64_spec(v.storage_channel_id.unwrap()@) is None {
        Some(ConfigError::InvalidStorageChannelId)
    } else if v.admin_id is None {
        Some(ConfigError::MissingAdminId)
    } else if parse_i64_spec(v.admin_id.unwrap()@) is None {
        Some(ConfigError::InvalidAdminId)
    } else if max_file_size_of(v) is None {
        Some(ConfigError::InvalidMaxFileSize)
    } else if page_size_of(v) is None {
        Some(ConfigError::InvalidPageSize)
    } else if env_mode_of(v) == ConnectionMode::Webhook && v.webhook_url is None {
        Some(ConfigError::WebhookUrlRequired)
    } else {
        None
    }
}

/// The settings that valid values give.
pub open spec fn config_matches(c: Config, v: EnvValues) -> bool {
    &&& c.bot_token@ == v.bot_token.unwrap()@
    &&& c.bot_database_url@ == text_or(v.bot_database_url, "sqlite://library.db"@)
    &&& c.connection_mode == env_mode_of(v)
    &&& (c.webhook_url is Some <==> v.webhook_url is Some)
    &&& (c.webhook_url is Some ==> c.webhook_url.unwrap()@ == v.webhook_url.unwrap()@)
    &&& c.webhook_path@ == text_or(v.webhook_path, "/webhook"@)
    &&& port_of(v) == Some(c.port as nat)
    &&& parse_i64_spec(v.storage_channel_id.unwrap()@) == Some(c.storage_channel_id as int)
    &&& parse_i64_spec(v.admin_id.unwrap()@) == Some(c.admin_id as int)
    &&& c.admin_username@ == text_or(v.admin_username, "admin"@)
    &&& c.library_name@ == text_or(v.library_name, "SBERE_books"@)
    &&& max_file_size_of(v) == Some(c.max_file_size_mb as nat)
    &&& page_size_of(v) == Some(c.page_size as nat)
}

/// The full webhook URL: the base URL without its trailing slashes, then the
/// path.
pub open spec fn full_url(base: Seq<char>, path: Seq<char>) -> Seq<char> {
    trim_end_char(base, '/') + path
}

fn text_or_default(v: Option<String>, default: &str) -> (r: String)
    ensures
        r@ == text_or(v, default@),
{
    match v {
        Some(s) => s,
        None => String::from_str(default),
    }
}

impl ConfigError {
    /// The message that tells the operator what is wrong.
    pub fn message(&self) -> (r: String)
        ensures
            r@ == config_error_message(*self),
    {
        match self {
            ConfigError::MissingBotToken => String::from_str("BOT_TOKEN غير موجود في .env"),
            ConfigError::InvalidPort => String::from_str("PORT يجب أن يكون رقماً صحيحاً"),
            ConfigError::MissingStorageChannelId => String::from_str(
                "STORAGE_CHANNEL_ID غير موجود في .env",
            ),
            ConfigError::InvalidStorageChannelId => String::from_str(
                "STORAGE_CHANNEL_ID يجب أن يكون رقماً",
            ),
            ConfigError::MissingAdminId => String::from_str("ADMIN_ID غير موجود في .env"),
            ConfigError::InvalidAdminId => String::from_str("ADMIN_ID يجب أن يكون رقماً"),
            ConfigError::InvalidMaxFileSize => String::from_str(
                "MAX_FILE_SIZE_MB يجب أن يكون رقماً",
            ),
            ConfigError::InvalidPageSize => String::from_str("PAGE_SIZE يجب أن يكون رقماً"),
            ConfigError::WebhookUrlRequired => String::from_str(
                "CONNECTION_MODE=webhook يتطلب تعيين WEBHOOK_URL في .env",
            ),
        }
    }
}

pub open spec fn config_error_message(e: ConfigError) -> Seq<char> {
    match e {
        ConfigError::MissingBotToken => "BOT_TOKEN غير موجود في .env"@,
        ConfigError::InvalidPort => "PORT يجب أن يكون رقماً صحيحاً"@,
        ConfigError::MissingStorageChannelId => "STORAGE_CHANNEL_ID غير موجود في .env"@,
        ConfigError::InvalidStorageChannelId => "STORAGE_CHANNEL_ID يجب أن يكون رقماً"@,
        ConfigError::MissingAdminId => "ADMIN_ID غير موجود في .env"@,
        ConfigError::InvalidAdminId => "ADMIN_ID يجب أن يكون رقماً"@,
        ConfigError::InvalidMaxFileSize => "MAX_FILE_SIZE_MB يجب أن يكون رقماً"@,
        ConfigError::InvalidPageSize => "PAGE_SIZE يجب أن يكون رقماً"@,
        ConfigError::WebhookUrlRequired => "CONNECTION_MODE=webhook يتطلب تعيين WEBHOOK_URL في .env"@,
    }
}

impl Config {
    /// Builds the settings from the values of the environment variables,
    /// with the defaults for those that are not set, and checks them in the
    /// order `BOT_TOKEN`, `PORT`, `STORAGE_CHANNEL_ID`, `ADMIN_ID`,
    /// `MAX_FILE_SIZE_MB`, `PAGE_SIZE`, and last that webhook mode has a
    /// `WEBHOOK_URL`.
    pub fn from_env_values(v: EnvValues) -> (r: Result<Config, ConfigError>)
        ensures
            match r {
                Ok(c) => config_error_of(v) is None && config_matches(c, v),
                Err(e) => config_error_of(v) == Some(e),
            },
    {
        let ghost g = v;
        let bot_token = match v.bot_token {
            Some(t) => t,
            None => return Err(ConfigError::MissingBotToken),
        };
        let database_url = text_or_default(v.bot_database_url, "sqlite://library.db");
        let mode_text = text_or_default(v.connection_mode, "polling");
        let connection_mode = ConnectionMode::from_str(mode_text.as_str());
        let webhook_url = v.webhook_url;
        let webhook_path = text_or_default(v.webhook_path, "/webhook");
        let port_text = text_or_default(v.port, "8080");
        let port = match parse_u16(port_text.as_str()) {
            Some(p) => p,
            None => return Err(ConfigError::InvalidPort),
        };
        let storage_channel_id = match v.storage_channel_id {
            Some(t) => match parse_i64(t.as_str()) {
                Some(x) => x,
                None => return Err(ConfigError::InvalidStorageChannelId),
            },
            None => return Err(ConfigError::MissingStorageChannelId),
        };
        let admin_id = match v.admin_id {
            Some(t) => match parse_i64(t.as_str()) {
                Some(x) => x,
                None => return Err(ConfigError::InvalidAdminId),
            },
            None => return Err(ConfigError::MissingAdminId),
        };
        let admin_username = text_or_default(v.admin_username, "admin");
        let library_name = text_or_default(v.library_name, "SBERE_books");
        let size_text = text_or_default(v.max_file_size_mb, "50");
        let max_file_size_mb = match parse_u64(size_text.as_str()) {
            Some(x) => x,
            None => return Err(ConfigError::InvalidMaxFileSize),
        };
        let page_text = text_or_default(v.page_size, "10");
        let page_size = match parse_usize(page_text.as_str()) {
            Some(x) => x,
            None => return Err(ConfigError::InvalidPageSize),
        };
        let needs_url = match connection_mode {
            ConnectionMode::Webhook => webhook_url.is_none(),
            ConnectionMode::Polling => false,
        };
        if needs_url {
            return Err(ConfigError::WebhookUrlRequired);
        }
        Ok(
            Config {
                bot_token,
                bot_database_url: database_url,
                connection_mode,
                webhook_url,
                webhook_path,
                port,
                storage_channel_id,
                admin_id,
                admin_username,
                library_name,
                max_file_size_mb,
                page_size,
            },
        )
    }

    /// The full webhook URL (base URL, then path), where a base URL is set.
    pub fn webhook_full_url(&self) -> (r: Option<String>)
        ensures
            r is Some <==> self.webhook_url is Some,
            r matches Some(u) ==> u@ == full_url(self.webhook_url.unwrap()@, self.webhook_path@),
    {
        match &self.webhook_url {
            Some(base) => {
                let mut u = String::from_str(trim_end_matching(base.as_str(), '/'));
                u.append(self.webhook_path.as_str());
                Some(u)
            },
            None => None,
        }
    }

    /// The largest accepted file size, in bytes.
    pub fn max_file_size_bytes(&self) -> (r: u64)
        requires
            self.max_file_size_mb * 1048576 <= u64::MAX,
        ensures
            r == self.max_file_size_mb * 1048576,
    {
        self.max_file_size_mb * 1024 * 1024
    }

    /// Whether `max_file_size_bytes` can be computed without overflow.
    pub fn max_file_size_fits(&self) -> (r: bool)
        ensures
            r == (self.max_file_size_mb * 1048576 <= u64::MAX),
    {
        self.max_file_size_mb <= 17592186044415
    }
}

/// Every variable that is set is carried into the settings as given (the
/// numbers as `str::parse` reads them), and each one that is not set takes
/// its default: `sqlite://library.db`, `/webhook`, `admin`, `SBERE_books`,
/// port 8080, a limit of 50 MB and pages of 10 entries.
pub proof fn lemma_config_uses_settings(v: EnvValues, c: Config)
    requires
        config_error_of(v) is None,
        config_matches(c, v),
    ensures
        v.bot_token matches Some(t) && c.bot_token@ == t@,
        v.bot_database_url matches Some(s) ==> c.bot_database_url@ == s@,
        v.bot_database_url is None ==> c.bot_database_url@ == "sqlite://library.db"@,
        v.connection_mode matches Some(s) ==> c.connection_mode == mode_of(s@),
        v.webhook_url matches Some(s) ==> (c.webhook_url matches Some(u) && u@ == s@),
        v.webhook_url is None ==> c.webhook_url is None,
        v.webhook_path matches Some(s) ==> c.webhook_path@ == s@,
        v.webhook_path is None ==> c.webhook_path@ == "/webhook"@,
        v.port matches Some(s) ==> parse_unsigned(s@, 0xffff) == Some(c.port as nat),
        v.port is None ==> c.port == 8080,
        v.storage_channel_id matches Some(s) && parse_i64_spec(s@) == Some(
            c.storage_channel_id as int,
        ),
        v.admin_id matches Some(s) && parse_i64_spec(s@) == Some(c.admin_id as int),
        v.admin_username matches Some(s) ==> c.admin_username@ == s@,
        v.admin_username is None ==> c.admin_username@ == "admin"@,
        v.library_name matches Some(s) ==> c.library_name@ == s@,
        v.library_name is None ==> c.library_name@ == "SBERE_books"@,
        v.max_file_size_mb matches Some(s) ==> parse_unsigned(s@, 0xffff_ffff_ffff_ffff) == Some(
            c.max_file_size_mb as nat,
        ),
        v.max_file_size_mb is None ==> c.max_file_size_mb == 50,
        v.page_size matches Some(s) ==> parse_unsigned(s@, usize::MAX as nat) == Some(
            c.page_size as nat,
        ),
        v.page_size is None ==> c.page_size == 10,
{
    if v.port is None {
        reveal_strlit("8080");
        reveal_with_fuel(digits_value, 5);
        assert(parse_unsigned("8080"@, 0xffff) == Some(8080nat));
    }
    if v.max_file_size_mb is None {
        reveal_strlit("50");
        reveal_with_fuel(digits_value, 3);
        assert(parse_unsigned("50"@, 0xffff_ffff_ffff_ffff) == Some(50nat));
    }
    if v.page_size is None {
        reveal_strlit("10");
        reveal_with_fuel(digits_value, 3);
        assert(parse_unsigned("10"@, usize::MAX as nat) == Some(10nat));
    }
}

/// A number variable that is either not set or set to a number in range.
pub open spec fn unset_or_parses(v: Option<String>, max: nat) -> bool {
    v matches Some(s) ==> parse_unsigned(s@, max) is Some
}

/// An id variable that is set to an `i64`.
pub open spec fn set_and_parses(v: Option<String>) -> bool {
    v matches Some(s) && parse_i64_spec(s@) is Some
}

/// Each refusal names the variable at fault: the token is missing; `PORT`,
/// `MAX_FILE_SIZE_MB` or `PAGE_SIZE` is set to something that is not a
/// number in range (their defaults never fail); `STORAGE_CHANNEL_ID` or
/// `ADMIN_ID` is missing or not a number; or the mode read from
/// `CONNECTION_MODE` is webhook and `WEBHOOK_URL` is not set. The checks
/// run in that order, so a refusal means that every earlier check passed,
/// and the values are accepted exactly when all of them pass.
pub proof fn lemma_config_errors(v: EnvValues)
    ensures
        config_error_of(v) == Some(ConfigError::MissingBotToken) <==> v.bot_token is None,
        config_error_of(v) == Some(ConfigError::InvalidPort) ==> (v.port matches Some(s)
            && parse_unsigned(s@, 0xffff) is None),
        config_error_of(v) == Some(ConfigError::MissingStorageChannelId) ==> v.storage_channel_id is None,
        config_error_of(v) == Some(ConfigError::InvalidStorageChannelId) ==> (v.storage_channel_id matches Some(
            s,
        ) && parse_i64_spec(s@) is None),
        config_error_of(v) == Some(ConfigError::MissingAdminId) ==> v.admin_id is None,
        config_error_of(v) == Some(ConfigError::InvalidAdminId) ==> (v.admin_id matches Some(s)
            && parse_i64_spec(s@) is None),
        config_error_of(v) == Some(ConfigError::InvalidMaxFileSize) ==> (v.max_file_size_mb matches Some(
            s,
        ) && parse_unsigned(s@, 0xffff_ffff_ffff_ffff) is None),
        config_error_of(v) == Some(ConfigError::InvalidPageSize) ==> (v.page_size matches Some(s)
            && parse_unsigned(s@, usize::MAX as nat) is None),
        config_error_of(v) == Some(ConfigError::WebhookUrlRequired) ==> v.webhook_url is None
            && env_mode_of(v) == ConnectionMode::Webhook,
        config_error_of(v) == Some(ConfigError::InvalidPort) ==> v.bot_token is Some,
        config_error_of(v) == Some(ConfigError::MissingStorageChannelId) || config_error_of(v)
            == Some(ConfigError::InvalidStorageChannelId) ==> v.bot_token is Some
            && unset_or_parses(v.port, 0xffff),
        config_error_of(v) == Some(ConfigError::MissingAdminId) || config_error_of(v) == Some(
            ConfigError::InvalidAdminId,
        ) ==> v.bot_token is Some && unset_or_parses(v.port, 0xffff) && set_and_parses(
            v.storage_channel_id,
        ),
        config_error_of(v) == Some(ConfigError::InvalidMaxFileSize) ==> v.bot_token is Some
            && unset_or_parses(v.port, 0xffff) && set_and_parses(v.storage_channel_id)
            && set_and_parses(v.admin_id),
        config_error_of(v) == Some(ConfigError::InvalidPageSize) ==> v.bot_token is Some
            && unset_or_parses(v.port, 0xffff) && set_and_parses(v.storage_channel_id)
            && set_and_parses(v.admin_id) && unset_or_parses(
            v.max_file_size_mb,
            0xffff_ffff_ffff_ffff,
        ),
        config_error_of(v) == Some(ConfigError::WebhookUrlRequired) ==> v.bot_token is Some
            && unset_or_parses(v.port, 0xffff) && set_and_parses(v.storage_channel_id)
            && set_and_parses(v.admin_id) && unset_or_parses(
            v.max_file_size_mb,
            0xffff_ffff_ffff_ffff,
        ) && unset_or_parses(v.page_size, usize::MAX as nat),
        config_error_of(v) is None <==> v.bot_token is Some && unset_or_parses(v.port, 0xffff)
            && set_and_parses(v.storage_channel_id) && set_and_parses(v.admin_id)
            && unset_or_parses(v.max_file_size_mb, 0xffff_ffff_ffff_ffff) && unset_or_parses(
            v.page_size,
            usize::MAX as nat,
        ) && !(env_mode_of(v) == ConnectionMode::Webhook && v.webhook_url is None),
{
    reveal_strlit("8080");
    reveal_strlit("50");
    reveal_strlit("10");
    reveal_with_fuel(digits_value, 5);
    assert(parse_unsigned("8080"@, 0xffff) == Some(8080nat));
    assert(parse_unsigned("50"@, 0xffff_ffff_ffff_ffff) == Some(50nat));
    assert(parse_unsigned("10"@, usize::MAX as nat) == Some(10nat));
}

/// In webhook mode the settings always have a full webhook URL, which the
/// server start relies on.
pub proof fn lemma_webhook_mode_has_url(v: EnvValues, c: Config)
    requires
        config_error_of(v) is None,
        config_matches(c, v),
        c.connection_mode == ConnectionMode::Webhook,
    ensures
        c.webhook_url is Some,
{
}

} // verus!
