//! Per-service configuration, decided from the process environment.

use vstd::prelude::*;
use crate::env::{
    env_get, opt_view, optional, optional_or, optional_or_spec, optional_spec, require, MissingVar,
};
use crate::num::{
    parse_i64, parse_i64_exec, parse_u16, parse_u64, parse_unsigned, IntErrorKind,
};
use crate::text::{dec, lemma_split_len, owned, push_dec, split_char, str_trim, trim};

verus! {

/// Why a service's configuration is invalid.
#[derive(Debug)]
pub enum ConfigError {
    /// A required variable is unset.
    Missing(MissingVar),
    /// `API_PORT` is not a port number.
    InvalidPort(IntErrorKind),
    /// `DISCORD_GUILD_ID` is not a numeric id.
    InvalidGuildId(IntErrorKind),
}

impl ConfigError {
    /// The human-readable description of the error.
    pub fn message(&self) -> (r: String)
        ensures
            r@ == match *self {
                ConfigError::Missing(m) => "missing required environment variable: "@ + m.key@,
                ConfigError::InvalidPort(_) => "API_PORT must be a valid port number"@,
                ConfigError::InvalidGuildId(k) => "DISCORD_GUILD_ID must be a numeric id: "@
                    + match k {
                    IntErrorKind::Empty => "cannot parse integer from empty string"@,
                    IntErrorKind::InvalidDigit => "invalid digit found in string"@,
                    IntErrorKind::PosOverflow => "number too large to fit in target type"@,
                    IntErrorKind::NegOverflow => "number too small to fit in target type"@,
                },
            },
    {
        match self {
            ConfigError::Missing(m) => m.message(),
            ConfigError::InvalidPort(_) => owned("API_PORT must be a valid port number"),
            ConfigError::InvalidGuildId(k) => {
                let mut out = owned("DISCORD_GUILD_ID must be a numeric id: ");
                out.append(k.message());
                out
            },
        }
    }
}

/// API-service configuration.
#[derive(Clone, Debug)]
pub struct ApiConfig {
    pub host: String,
    pub port: u16,
    pub database_url: Option<String>,
    /// Secret used to sign/verify JWTs.
    pub jwt_secret: String,
    /// Shared secret clients may present to log in; empty disables that path.
    pub api_key: String,
    /// PIN seeded on first run (must be changed on first sign-in).
    pub default_pin: String,
    /// Lifetime of issued tokens, in seconds.
    pub token_ttl_secs: i64,
    /// Directory of finished downloads, served read-only at `/media`.
    pub downloads_path: String,
    /// Path where the uploaded yt-dlp cookies file is stored.
    pub cookies_path: String,
    pub sonarr_url: Option<String>,
    pub sonarr_api_key: Option<String>,
    pub radarr_url: Option<String>,
    pub radarr_api_key: Option<String>,
    /// Path (as Sonarr sees it) of the shared downloads folder.
    pub sonarr_import_path: String,
    /// Path (as Radarr sees it) of the shared downloads folder.
    pub radarr_import_path: String,
    /// Whether a Telegram bot token is present.
    pub telegram_configured: bool,
    pub telegram_chat_id: Option<String>,
    pub public_base_url: Option<String>,
}

/// What `ApiConfig::from_env` makes of the environment, when it succeeds.
pub open spec fn api_config_fields(env: Seq<(String, String)>, c: ApiConfig) -> bool {
    &&& parse_unsigned(optional_or_spec(env, "API_PORT"@, "8000"@), u16::MAX as nat) == Ok::<nat, IntErrorKind>(c.port as nat)
    &&& c.token_ttl_secs == match parse_i64(optional_or_spec(env, "JWT_TTL_SECS"@, "3600"@)) {
        Ok(v) => v,
        Err(_) => 3600,
    }
    &&& c.host@ == optional_or_spec(env, "API_HOST"@, "0.0.0.0"@)
    &&& opt_view(c.database_url) == optional_spec(env, "DATABASE_URL"@)
    &&& c.jwt_secret@ == optional_or_spec(env, "JWT_SECRET"@, "dev-insecure-change-me"@)
    &&& c.api_key@ == optional_or_spec(env, "API_KEY"@, ""@)
    &&& c.default_pin@ == optional_or_spec(env, "DASHBOARD_PIN"@, "1234"@)
    &&& c.downloads_path@ == optional_or_spec(env, "DOWNLOADS_PATH"@, "/downloads"@)
    &&& c.cookies_path@ == optional_or_spec(env, "YTDLP_COOKIES_FILE"@, "/cookies/cookies.txt"@)
    &&& opt_view(c.sonarr_url) == optional_spec(env, "SONARR_URL"@)
    &&& opt_view(c.sonarr_api_key) == optional_spec(env, "SONARR_API_KEY"@)
    &&& opt_view(c.radarr_url) == optional_spec(env, "RADARR_URL"@)
    &&& opt_view(c.radarr_api_key) == optional_spec(env, "RADARR_API_KEY"@)
    &&& c.sonarr_import_path@ == optional_or_spec(env, "SONARR_IMPORT_PATH"@, "/downloads"@)
    &&& c.radarr_import_path@ == optional_or_spec(env, "RADARR_IMPORT_PATH"@, "/downloads"@)
    &&& c.telegram_configured == optional_spec(env, "TELEGRAM_BOT_TOKEN"@) is Some
    &&& opt_view(c.telegram_chat_id) == optional_spec(env, "TELEGRAM_CHAT_ID"@)
    &&& opt_view(c.public_base_url) == optional_spec(env, "PUBLIC_BASE_URL"@)
}

impl ApiConfig {
    /// Build the API configuration from the environment. Fails only when
    /// `API_PORT` is set to something that is not a port number.
    pub fn from_env(env: &Vec<(String, String)>) -> (r: Result<ApiConfig, ConfigError>)
        ensures
            match parse_unsigned(optional_or_spec(env@, "API_PORT"@, "8000"@), u16::MAX as nat) {
                Ok(_) => r matches Ok(c) && api_config_fields(env@, c),
                Err(k) => r matches Err(ConfigError::InvalidPort(k2)) && k2 == k,
            },
    {
        let port_s = optional_or(env, "API_PORT", "8000");
        let port = match parse_u16(port_s.as_str()) {
            Ok(p) => p,
            Err(k) => return Err(ConfigError::InvalidPort(k)),
        };
        let ttl_s = optional_or(env, "JWT_TTL_SECS", "3600");
        let token_ttl_secs = match parse_i64_exec(ttl_s.as_str()) {
            Ok(v) => v,
            Err(_) => 3600,
        };
        let c = ApiConfig {
            host: optional_or(env, "API_HOST", "0.0.0.0"),
            port,
            database_url: optional(env, "DATABASE_URL"),
            jwt_secret: optional_or(env, "JWT_SECRET", "dev-insecure-change-me"),
            api_key: optional_or(env, "API_KEY", ""),
            default_pin: optional_or(env, "DASHBOARD_PIN", "1234"),
            token_ttl_secs,
            downloads_path: optional_or(env, "DOWNLOADS_PATH", "/downloads"),
            cookies_path: optional_or(env, "YTDLP_COOKIES_FILE", "/cookies/cookies.txt"),
            sonarr_url: optional(env, "SONARR_URL"),
            sonarr_api_key: optional(env, "SONARR_API_KEY"),
            radarr_url: optional(env, "RADARR_URL"),
            radarr_api_key: optional(env, "RADARR_API_KEY"),
            sonarr_import_path: optional_or(env, "SONARR_IMPORT_PATH", "/downloads"),
            radarr_import_path: optional_or(env, "RADARR_IMPORT_PATH", "/downloads"),
            telegram_configured: optional(env, "TELEGRAM_BOT_TOKEN").is_some(),
            telegram_chat_id: optional(env, "TELEGRAM_CHAT_ID"),
            public_base_url: optional(env, "PUBLIC_BASE_URL"),
        };
        Ok(c)
    }
}

/// Bot-service configuration.
#[derive(Clone, Debug)]
pub struct BotConfig {
    /// Discord bot token (required).
    pub discord_token: String,
    /// When set, slash commands register to this single guild.
    pub guild_id: Option<u64>,
    pub database_url: Option<String>,
    /// Extra bot tokens (`DISCORD_TOKEN_2` .. `DISCORD_TOKEN_9`) for the voice pool.
    pub pool_tokens: Vec<String>,
}

/// The name of the `i`-th extra voice-pool token variable.
pub open spec fn pool_token_key(i: nat) -> Seq<char> {
    "DISCORD_TOKEN_"@ + dec(i)
}

/// The extra voice-pool tokens among `DISCORD_TOKEN_2` .. `DISCORD_TOKEN_{hi}`,
/// in order.
pub open spec fn pool_tokens_spec(env: Seq<(String, String)>, hi: nat) -> Seq<Seq<char>>
    decreases hi,
{
    if hi < 2 {
        seq![]
    } else {
        let r = pool_tokens_spec(env, (hi - 1) as nat);
        match optional_spec(env, pool_token_key(hi)) {
            Some(t) => r.push(t),
            None => r,
        }
    }
}

impl BotConfig {
    /// Build the bot configuration. A malformed `DISCORD_GUILD_ID` is reported
    /// before a missing `DISCORD_TOKEN`.
    pub fn from_env(env: &Vec<(String, String)>) -> (r: Result<BotConfig, ConfigError>)
        ensures
            match optional_spec(env@, "DISCORD_GUILD_ID"@) {
                Some(raw) if parse_unsigned(raw, u64::MAX as nat) is Err => r matches Err(
                    ConfigError::InvalidGuildId(k),
                ) && parse_unsigned(raw, u64::MAX as nat) == Err::<nat, IntErrorKind>(k),
                _ => match env_get(env@, "DISCORD_TOKEN"@) {
                    None => r matches Err(ConfigError::Missing(m)) && m.key@ == "DISCORD_TOKEN"@,
                    Some(tok) => r matches Ok(c) && c.discord_token@ == tok && c.guild_id
                        == match optional_spec(env@, "DISCORD_GUILD_ID"@) {
                        Some(raw) => Some(parse_unsigned(raw, u64::MAX as nat)->Ok_0 as u64),
                        None => None,
                    } && opt_view(c.database_url) == optional_spec(env@, "DATABASE_URL"@)
                        && c.pool_tokens@.map_values(|t: String| t@) == pool_tokens_spec(env@, 9),
                },
            },
    {
        let guild_id = match optional(env, "DISCORD_GUILD_ID") {
            Some(raw) => match parse_u64(raw.as_str()) {
                Ok(v) => Some(v),
                Err(k) => return Err(ConfigError::InvalidGuildId(k)),
            },
            None => None,
        };
        let mut pool_tokens: Vec<String> = Vec::new();
        let mut i: u64 = 2;
        while i <= 9
            invariant
                2 <= i <= 10,
                pool_tokens@.map_values(|t: String| t@) == pool_tokens_spec(env@, (i - 1) as nat),
            decreases 10 - i,
        {
            let mut key = owned("DISCORD_TOKEN_");
            push_dec(&mut key, i);
            let ghost old_tokens = pool_tokens@;
            match optional(env, key.as_str()) {
                Some(t) => {
                    pool_tokens.push(t);
                    assert(pool_tokens@.map_values(|t: String| t@) =~= old_tokens.map_values(
                        |t: String| t@,
                    ).push(t@));
                },
                None => {},
            }
            i = i + 1;
        }
        let discord_token = match require(env, "DISCORD_TOKEN") {
            Ok(t) => t,
            Err(m) => return Err(ConfigError::Missing(m)),
        };
        Ok(BotConfig {
            discord_token,
            guild_id,
            database_url: optional(env, "DATABASE_URL"),
            pool_tokens,
        })
    }
}

/// Scheduler-service configuration.
#[derive(Clone, Debug)]
pub struct SchedulerConfig {
    pub database_url: Option<String>,
}

impl SchedulerConfig {
    /// Build the scheduler configuration; it cannot fail.
    pub fn from_env(env: &Vec<(String, String)>) -> (r: Result<SchedulerConfig, ConfigError>)
        ensures
            r matches Ok(c) && opt_view(c.database_url) == optional_spec(env@, "DATABASE_URL"@),
    {
        Ok(SchedulerConfig { database_url: optional(env, "DATABASE_URL") })
    }
}

/// Worker-service configuration.
#[derive(Clone, Debug)]
pub struct WorkerConfig {
    /// Database URL the worker polls for queued jobs (required).
    pub database_url: String,
    /// Seconds between poll cycles.
    pub poll_interval_secs: u64,
    /// Directory where finished downloads are written.
    pub downloads_path: String,
    /// Netscape cookies file passed to yt-dlp.
    pub cookies_file: String,
    pub discord_webhook: Option<String>,
    pub telegram_bot_token: Option<String>,
    pub telegram_chat_id: Option<String>,
    /// Public base URL of the API, used to build file links in notifications.
    pub public_base_url: Option<String>,
}

impl WorkerConfig {
    /// Build the worker configuration; only a missing `DATABASE_URL` fails.
    pub fn from_env(env: &Vec<(String, String)>) -> (r: Result<WorkerConfig, ConfigError>)
        ensures
            match env_get(env@, "DATABASE_URL"@) {
                None => r matches Err(ConfigError::Missing(m)) && m.key@ == "DATABASE_URL"@,
                Some(db) => r matches Ok(c) && c.database_url@ == db && c.poll_interval_secs
                    == match parse_unsigned(
                    optional_or_spec(env@, "WORKER_POLL_INTERVAL_SECS"@, "30"@),
                    u64::MAX as nat,
                ) {
                    Ok(v) => v as u64,
                    Err(_) => 30,
                } && c.downloads_path@ == optional_or_spec(env@, "DOWNLOADS_PATH"@, "/downloads"@)
                    && c.cookies_file@ == optional_or_spec(
                    env@,
                    "YTDLP_COOKIES_FILE"@,
                    "/cookies/cookies.txt"@,
                ) && opt_view(c.discord_webhook) == optional_spec(env@, "DISCORD_NOTIFY_WEBHOOK"@)
                    && opt_view(c.telegram_bot_token) == optional_spec(env@, "TELEGRAM_BOT_TOKEN"@)
                    && opt_view(c.telegram_chat_id) == optional_spec(env@, "TELEGRAM_CHAT_ID"@)
                    && opt_view(c.public_base_url) == optional_spec(env@, "PUBLIC_BASE_URL"@),
            },
    {
        let poll_s = optional_or(env, "WORKER_POLL_INTERVAL_SECS", "30");
        let poll_interval_secs = match parse_u64(poll_s.as_str()) {
            Ok(v) => v,
            Err(_) => 30,
        };
        let database_url = match require(env, "DATABASE_URL") {
            Ok(u) => u,
            Err(m) => return Err(ConfigError::Missing(m)),
        };
        Ok(WorkerConfig {
            database_url,
            poll_interval_secs,
            downloads_path: optional_or(env, "DOWNLOADS_PATH", "/downloads"),
            cookies_file: optional_or(env, "YTDLP_COOKIES_FILE", "/cookies/cookies.txt"),
            discord_webhook: optional(env, "DISCORD_NOTIFY_WEBHOOK"),
            telegram_bot_token: optional(env, "TELEGRAM_BOT_TOKEN"),
            telegram_chat_id: optional(env, "TELEGRAM_CHAT_ID"),
            public_base_url: optional(env, "PUBLIC_BASE_URL"),
        })
    }
}

/// Telegram-surface configuration.
#[derive(Clone, Debug)]
pub struct TelegramConfig {
    /// Bot token from @BotFather (required).
    pub bot_token: String,
    pub database_url: Option<String>,
    /// Telegram user ids always treated as Admin.
    pub admin_ids: Vec<u64>,
    /// Public base URL of the API, used to link download files.
    pub public_base_url: Option<String>,
}

/// The ids among comma-separated pieces: each piece is trimmed, and those
/// that are not `u64` numbers are skipped.
pub open spec fn ids_of_pieces(pieces: Seq<Seq<char>>) -> Seq<u64>
    decreases pieces.len(),
{
    if pieces.len() == 0 {
        seq![]
    } else {
        let r = ids_of_pieces(pieces.drop_last());
        match parse_unsigned(trim(pieces.last()), u64::MAX as nat) {
            Ok(v) => r.push(v as u64),
            Err(_) => r,
        }
    }
}

/// The admin ids listed in `raw` (comma-separated, blanks and junk skipped).
pub open spec fn admin_ids_spec(raw: Seq<char>) -> Seq<u64> {
    ids_of_pieces(split_char(raw, ','))
}

/// Parse a comma-separated list of numeric ids, skipping pieces that are not
/// numbers.
pub fn parse_id_list(raw: &str) -> (r: Vec<u64>)
    ensures
        r@ == admin_ids_spec(raw@),
{
    let n = raw.unicode_len();
    let mut out: Vec<u64> = Vec::new();
    let mut start: usize = 0;
    let mut i: usize = 0;
    let ghost mut done: Seq<Seq<char>> = seq![];
    proof {
        assert(raw@.subrange(0, 0) =~= seq![]);
    }
    while i < n
        invariant
            n == raw@.len(),
            start <= i <= n,
            split_char(raw@.subrange(0, i as int), ',') == done.push(
                raw@.subrange(start as int, i as int),
            ),
            out@ == ids_of_pieces(done),
        decreases n - i,
    {
        let c = raw.get_char(i);
        let ghost pre = raw@.subrange(0, i as int);
        let ghost nxt = raw@.subrange(0, i + 1);
        assert(nxt.drop_last() =~= pre);
        assert(nxt.last() == c);
        if c == ',' {
            let piece = raw.substring_char(start, i);
            let t = str_trim(piece);
            match parse_u64(t) {
                Ok(v) => {
                    out.push(v);
                },
                Err(_) => {},
            }
            proof {
                let d2 = done.push(raw@.subrange(start as int, i as int));
                assert(d2.drop_last() =~= done);
                done = d2;
                assert(raw@.subrange(i + 1, i + 1) =~= seq![]);
            }
            start = i + 1;
        } else {
            proof {
                lemma_split_len(pre, ',');
                let r = split_char(pre, ',');
                assert(raw@.subrange(start as int, i + 1) =~= raw@.subrange(
                    start as int,
                    i as int,
                ).push(c));
                assert(r.update(r.len() - 1, r.last().push(c)) =~= done.push(
                    raw@.subrange(start as int, i + 1),
                ));
            }
        }
        i = i + 1;
    }
    assert(raw@.subrange(0, n as int) =~= raw@);
    let piece = raw.substring_char(start, n);
    let t = str_trim(piece);
    proof {
        let d2 = done.push(raw@.subrange(start as int, n as int));
        assert(d2.drop_last() =~= done);
    }
    match parse_u64(t) {
        Ok(v) => {
            out.push(v);
        },
        Err(_) => {},
    }
    out
}

impl TelegramConfig {
    /// Build the Telegram configuration; only a missing `TELEGRAM_BOT_TOKEN`
    /// fails.
    pub fn from_env(env: &Vec<(String, String)>) -> (r: Result<TelegramConfig, ConfigError>)
        ensures
            match env_get(env@, "TELEGRAM_BOT_TOKEN"@) {
                None => r matches Err(ConfigError::Missing(m)) && m.key@ == "TELEGRAM_BOT_TOKEN"@,
                Some(tok) => r matches Ok(c) && c.bot_token@ == tok && opt_view(c.database_url)
                    == optional_spec(env@, "DATABASE_URL"@) && c.admin_ids@ == match optional_spec(
                    env@,
                    "TELEGRAM_ADMIN_IDS"@,
                ) {
                    Some(raw) => admin_ids_spec(raw),
                    None => seq![],
                } && opt_view(c.public_base_url) == optional_spec(env@, "PUBLIC_BASE_URL"@),
            },
    {
        let bot_token = match require(env, "TELEGRAM_BOT_TOKEN") {
            Ok(t) => t,
            Err(m) => return Err(ConfigError::Missing(m)),
        };
        let admin_ids = match optional(env, "TELEGRAM_ADMIN_IDS") {
            Some(raw) => parse_id_list(raw.as_str()),
            None => Vec::new(),
        };
        Ok(TelegramConfig {
            bot_token,
            database_url: optional(env, "DATABASE_URL"),
            admin_ids,
            public_base_url: optional(env, "PUBLIC_BASE_URL"),
        })
    }
}

} // verus!
