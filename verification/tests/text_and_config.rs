use nigerianbot::config::{
    parse_id_list, ApiConfig, BotConfig, ConfigError, SchedulerConfig, TelegramConfig,
    WorkerConfig,
};
use nigerianbot::env::{env_var, optional, optional_or, require};
use nigerianbot::num::{parse_i64_exec, parse_u16, parse_u64, parse_usize, IntErrorKind};
use nigerianbot::text::{
    char_is_control, char_is_ws, owned, push_char_at, push_dec, push_dec2, push_dec_i64,
    str_before_char, str_contains, str_ends_with, str_eq, str_is_http_url, str_starts_with,
    str_take_chars, str_trim, str_trim_end_char, str_trim_start_char,
};

fn env(pairs: &[(&str, &str)]) -> Vec<(String, String)> {
    pairs
        .iter()
        .map(|(k, v)| (k.to_string(), v.to_string()))
        .collect()
}

#[test]
fn text_predicates() {
    assert!(char_is_ws(' '));
    assert!(char_is_ws('\u{3000}'));
    assert!(!char_is_ws('x'));
    assert!(char_is_control('\u{1}'));
    assert!(char_is_control('\u{9f}'));
    assert!(!char_is_control('a'));
    assert!(str_eq("abc", "abc"));
    assert!(!str_eq("abc", "abd"));
    assert!(str_starts_with("https://x", "https://"));
    assert!(!str_starts_with("http", "https"));
    assert!(str_ends_with("file.mp3", ".mp3"));
    assert!(str_contains("hello world", "o w"));
    assert!(!str_contains("hello", "world"));
    assert!(str_contains("hello", ""));
}

#[test]
fn text_trimming() {
    assert_eq!(str_trim("  a b \n"), "a b");
    assert_eq!(str_trim("\u{2003}x\u{2003}"), "x");
    assert_eq!(str_trim("   "), "");
    assert_eq!(str_trim_end_char("http://host///", '/'), "http://host");
    assert_eq!(str_trim_start_char("///a/b", '/'), "a/b");
    assert_eq!(str_before_char("a,b,c", ','), "a");
    assert_eq!(str_before_char("abc", ','), "abc");
    assert_eq!(str_take_chars("héllo", 2), "hé");
    assert_eq!(str_take_chars("ab", 5), "ab");
    assert!(str_is_http_url("http://a"));
    assert!(str_is_http_url("https://a"));
    assert!(!str_is_http_url("ftp://a"));
    assert!(!str_is_http_url("HTTPS://a"));
}

#[test]
fn decimal_rendering() {
    let mut s = owned("n=");
    push_dec(&mut s, 0);
    assert_eq!(s, "n=0");
    let mut s = String::new();
    push_dec(&mut s, 18446744073709551615);
    assert_eq!(s, "18446744073709551615");
    let mut s = String::new();
    push_dec_i64(&mut s, -42);
    assert_eq!(s, "-42");
    let mut s = String::new();
    push_dec_i64(&mut s, i64::MIN);
    assert_eq!(s, i64::MIN.to_string());
    let mut s = String::new();
    push_dec2(&mut s, 7);
    push_dec2(&mut s, 12);
    push_dec2(&mut s, 123);
    assert_eq!(s, "0712123");
    let mut s = String::new();
    push_char_at(&mut s, "añb", 1);
    assert_eq!(s, "ñ");
}

#[test]
fn integer_parsing_matches_std() {
    for case in ["", "+", "-", "0", "+7", "-0", "00042", "65535", "65536", "1x", " 1", "-1"] {
        assert_eq!(parse_u16(case).ok(), case.parse::<u16>().ok(), "u16 {case:?}");
        assert_eq!(parse_u64(case).ok(), case.parse::<u64>().ok(), "u64 {case:?}");
        assert_eq!(parse_usize(case).ok(), case.parse::<usize>().ok(), "usize {case:?}");
        assert_eq!(parse_i64_exec(case).ok(), case.parse::<i64>().ok(), "i64 {case:?}");
    }
    assert_eq!(parse_u16(""), Err(IntErrorKind::Empty));
    assert_eq!(parse_u16("-"), Err(IntErrorKind::InvalidDigit));
    assert_eq!(parse_u16("70000"), Err(IntErrorKind::PosOverflow));
    assert_eq!(parse_u16("-1"), Err(IntErrorKind::InvalidDigit));
    assert_eq!(parse_u64("18446744073709551616"), Err(IntErrorKind::PosOverflow));
    assert_eq!(parse_i64_exec("-9223372036854775808"), Ok(i64::MIN));
    assert_eq!(parse_i64_exec("-9223372036854775809"), Err(IntErrorKind::NegOverflow));
    assert_eq!(parse_i64_exec("9223372036854775808"), Err(IntErrorKind::PosOverflow));
    assert_eq!(parse_i64_exec("+12"), Ok(12));
}

#[test]
fn integer_error_messages() {
    assert_eq!(IntErrorKind::Empty.message(), "cannot parse integer from empty string");
    assert_eq!(IntErrorKind::InvalidDigit.message(), "invalid digit found in string");
    assert_eq!(IntErrorKind::PosOverflow.message(), "number too large to fit in target type");
    assert_eq!(IntErrorKind::NegOverflow.message(), "number too small to fit in target type");
    assert_eq!(
        "x".parse::<u8>().unwrap_err().to_string(),
        IntErrorKind::InvalidDigit.message()
    );
}

#[test]
fn environment_lookups() {
    let e = env(&[("A", "1"), ("B", ""), ("A", "2")]);
    assert_eq!(env_var(&e, "A"), Some("1".to_string()));
    assert_eq!(env_var(&e, "C"), None);
    assert_eq!(optional(&e, "B"), None);
    assert_eq!(optional(&e, "A"), Some("1".to_string()));
    assert_eq!(optional_or(&e, "B", "dflt"), "dflt");
    assert_eq!(optional_or(&e, "Z", "dflt"), "dflt");
    assert_eq!(require(&e, "B").unwrap(), "");
    let missing = require(&e, "NOPE").unwrap_err();
    assert_eq!(missing.key, "NOPE");
    assert_eq!(missing.message(), "missing required environment variable: NOPE");
}

#[test]
fn api_config_defaults() {
    let c = ApiConfig::from_env(&env(&[])).unwrap();
    assert_eq!(c.host, "0.0.0.0");
    assert_eq!(c.port, 8000);
    assert_eq!(c.database_url, None);
    assert_eq!(c.jwt_secret, "dev-insecure-change-me");
    assert_eq!(c.api_key, "");
    assert_eq!(c.default_pin, "1234");
    assert_eq!(c.token_ttl_secs, 3600);
    assert_eq!(c.downloads_path, "/downloads");
    assert_eq!(c.cookies_path, "/cookies/cookies.txt");
    assert_eq!(c.sonarr_import_path, "/downloads");
    assert_eq!(c.radarr_import_path, "/downloads");
    assert!(!c.telegram_configured);
    assert_eq!(c.public_base_url, None);
}

#[test]
fn api_config_values_and_port_error() {
    let c = ApiConfig::from_env(&env(&[
        ("API_PORT", "9001"),
        ("JWT_TTL_SECS", "oops"),
        ("TELEGRAM_BOT_TOKEN", "t"),
        ("SONARR_URL", "http://sonarr:8989"),
        ("DATABASE_URL", "postgres://db"),
    ]))
    .unwrap();
    assert_eq!(c.port, 9001);
    assert_eq!(c.token_ttl_secs, 3600);
    assert!(c.telegram_configured);
    assert_eq!(c.sonarr_url.as_deref(), Some("http://sonarr:8989"));
    assert_eq!(c.database_url.as_deref(), Some("postgres://db"));
    let c = ApiConfig::from_env(&env(&[("JWT_TTL_SECS", "60")])).unwrap();
    assert_eq!(c.token_ttl_secs, 60);

    let err = ApiConfig::from_env(&env(&[("API_PORT", "99999")])).unwrap_err();
    assert!(matches!(err, ConfigError::InvalidPort(IntErrorKind::PosOverflow)));
    assert_eq!(err.message(), "API_PORT must be a valid port number");
}

#[test]
fn bot_config_rules() {
    let err = BotConfig::from_env(&env(&[])).unwrap_err();
    assert_eq!(err.message(), "missing required environment variable: DISCORD_TOKEN");

    let err = BotConfig::from_env(&env(&[("DISCORD_GUILD_ID", "abc")])).unwrap_err();
    assert!(matches!(err, ConfigError::InvalidGuildId(IntErrorKind::InvalidDigit)));
    assert_eq!(
        err.message(),
        "DISCORD_GUILD_ID must be a numeric id: invalid digit found in string"
    );

    let c = BotConfig::from_env(&env(&[
        ("DISCORD_TOKEN", "main"),
        ("DISCORD_GUILD_ID", "123456789012345678"),
        ("DISCORD_TOKEN_3", "three"),
        ("DISCORD_TOKEN_2", "two"),
        ("DISCORD_TOKEN_5", ""),
        ("DISCORD_TOKEN_9", "nine"),
        ("DISCORD_TOKEN_10", "ten"),
    ]))
    .unwrap();
    assert_eq!(c.discord_token, "main");
    assert_eq!(c.guild_id, Some(123456789012345678));
    assert_eq!(c.pool_tokens, vec!["two", "three", "nine"]);
    assert_eq!(c.database_url, None);
}

#[test]
fn scheduler_and_worker_config() {
    let s = SchedulerConfig::from_env(&env(&[("DATABASE_URL", "pg")])).unwrap();
    assert_eq!(s.database_url.as_deref(), Some("pg"));

    let err = WorkerConfig::from_env(&env(&[])).unwrap_err();
    assert_eq!(err.message(), "missing required environment variable: DATABASE_URL");

    let w = WorkerConfig::from_env(&env(&[
        ("DATABASE_URL", "pg"),
        ("WORKER_POLL_INTERVAL_SECS", "-5"),
        ("DISCORD_NOTIFY_WEBHOOK", "https://hook"),
    ]))
    .unwrap();
    assert_eq!(w.poll_interval_secs, 30);
    assert_eq!(w.downloads_path, "/downloads");
    assert_eq!(w.cookies_file, "/cookies/cookies.txt");
    assert_eq!(w.discord_webhook.as_deref(), Some("https://hook"));
    let w = WorkerConfig::from_env(&env(&[("DATABASE_URL", ""), ("WORKER_POLL_INTERVAL_SECS", "5")]))
        .unwrap();
    assert_eq!(w.database_url, "");
    assert_eq!(w.poll_interval_secs, 5);
}

#[test]
fn telegram_config_and_id_lists() {
    assert_eq!(parse_id_list("1, 2 ,x,,  30"), vec![1, 2, 30]);
    assert_eq!(parse_id_list(""), Vec::<u64>::new());
    assert_eq!(parse_id_list("-1,+4"), vec![4]);

    let err = TelegramConfig::from_env(&env(&[])).unwrap_err();
    assert_eq!(err.message(), "missing required environment variable: TELEGRAM_BOT_TOKEN");
    let c = TelegramConfig::from_env(&env(&[
        ("TELEGRAM_BOT_TOKEN", "tok"),
        ("TELEGRAM_ADMIN_IDS", "11,22"),
    ]))
    .unwrap();
    assert_eq!(c.bot_token, "tok");
    assert_eq!(c.admin_ids, vec![11, 22]);
    let c = TelegramConfig::from_env(&env(&[("TELEGRAM_BOT_TOKEN", "tok")])).unwrap();
    assert!(c.admin_ids.is_empty());
}
