use nigerianbot::downloads::{
    already_queued, bulk_tally,
    bulk_urls, bytes_contains, check_cookies, clamp_limit, discord_requester, download_targets,
    download_url, episode_save_as, episodes, playlist_episodes, resolve_entry, sanitize_title, save_as_name,
    telegram_requester, CookiesRejection, Episode, PlaylistEntry,
};
use nigerianbot::worker::{
    bytes_text, download_done_text, download_failed_text, media_url, notify_targets,
    parse_ytdlp_output, saved_file_name, size_unit, telegram_send_url, unit_suffix,
    ytdlp_failure, NoOutput,
};

fn entry(
    url: Option<&str>,
    webpage_url: Option<&str>,
    ie_key: Option<&str>,
    id: Option<&str>,
    title: Option<&str>,
) -> PlaylistEntry {
    PlaylistEntry {
        url: url.map(str::to_string),
        webpage_url: webpage_url.map(str::to_string),
        ie_key: ie_key.map(str::to_string),
        id: id.map(str::to_string),
        title: title.map(str::to_string),
    }
}

#[test]
fn list_limits() {
    assert_eq!(clamp_limit(None, 50, 1, 200), 50);
    assert_eq!(clamp_limit(Some(0), 50, 1, 200), 1);
    assert_eq!(clamp_limit(Some(-9), 50, 1, 200), 1);
    assert_eq!(clamp_limit(Some(1000), 50, 1, 200), 200);
    assert_eq!(clamp_limit(Some(75), 50, 1, 200), 75);
}

#[test]
fn download_request_validation() {
    assert_eq!(download_url("  https://youtu.be/x  "), Some("https://youtu.be/x"));
    assert_eq!(download_url("http://a"), Some("http://a"));
    assert_eq!(download_url("ftp://a"), None);
    assert_eq!(download_url("   "), None);
    assert_eq!(save_as_name(Some("  Show S01E01 ")), Some("Show S01E01"));
    assert_eq!(save_as_name(Some("   ")), None);
    assert_eq!(save_as_name(None), None);
    assert_eq!(discord_requester(42), "discord:42");
    assert_eq!(telegram_requester(Some(-7)), "telegram:-7");
    assert_eq!(telegram_requester(None), "telegram");
}

#[test]
fn bulk_import_urls() {
    let text = "https://a.com/1\n  notaurl\thttp://b.com/2   ftp://c  https://d\n\n";
    assert_eq!(bulk_urls(text), vec!["https://a.com/1", "http://b.com/2", "https://d"]);
    assert!(bulk_urls("").is_empty());
    assert!(bulk_urls("   \n ").is_empty());
    assert_eq!(bulk_urls("https://x"), vec!["https://x"]);
    let text = "https://a\u{3000}https://b\u{a0}https://c";
    let expected: Vec<&str> = text.split_whitespace().collect();
    assert_eq!(bulk_urls(text), expected);
    for u in bulk_urls("http://ok junk https://fine") {
        assert!(u.starts_with("http://") || u.starts_with("https://"));
    }
}

#[test]
fn playlist_entries_resolve() {
    let e = entry(Some("https://x/1"), Some("https://w/1"), None, None, None);
    assert_eq!(resolve_entry(&e), Some("https://x/1".to_string()));
    let e = entry(Some("abc"), Some("https://w/1"), None, None, None);
    assert_eq!(resolve_entry(&e), Some("https://w/1".to_string()));
    let e = entry(None, None, Some("Youtube"), Some("dQw4"), None);
    assert_eq!(resolve_entry(&e), Some("https://www.youtube.com/watch?v=dQw4".to_string()));
    let e = entry(Some("123"), None, Some("TubiTv"), Some("123"), None);
    assert_eq!(resolve_entry(&e), Some("https://tubitv.com/video/123".to_string()));
    let e = entry(None, None, Some("Vimeo"), Some("5"), None);
    assert_eq!(resolve_entry(&e), None);
    let e = entry(None, None, Some("Youtube"), None, None);
    assert_eq!(resolve_entry(&e), None);
}

#[test]
fn playlist_episodes_and_targets() {
    let entries = vec![
        entry(Some("https://e/1"), None, None, None, Some("Pilot")),
        entry(None, None, Some("Other"), Some("z"), Some("skipped")),
        entry(None, Some("https://e/2"), None, None, None),
    ];
    let eps = episodes(&entries);
    assert_eq!(eps.len(), 2);
    assert_eq!((eps[0].url.as_str(), eps[0].title.as_str()), ("https://e/1", "Pilot"));
    assert_eq!((eps[1].url.as_str(), eps[1].title.as_str()), ("https://e/2", "episode"));

    let t = download_targets("https://show", &eps);
    assert_eq!(
        t,
        vec![
            ("https://e/1".to_string(), Some("01 - Pilot".to_string())),
            ("https://e/2".to_string(), Some("02 - episode".to_string())),
        ]
    );
    let t = download_targets("https://single", &Vec::<Episode>::new());
    assert_eq!(t, vec![("https://single".to_string(), None)]);
}

#[test]
fn episode_names_are_sanitized() {
    assert_eq!(sanitize_title("a/b\\c"), "a_b_c");
    assert_eq!(sanitize_title("../../etc/passwd"), "____etc_passwd");
    assert_eq!(sanitize_title("  Title\u{7}  "), "Title");
    assert_eq!(sanitize_title("..."), "_.");
    assert_eq!(sanitize_title(".\u{1}."), "..");
    assert_eq!(episode_save_as(0, "Pilot"), "01 - Pilot");
    assert_eq!(episode_save_as(9, "x/y"), "10 - x_y");
    assert_eq!(episode_save_as(120, "z"), "121 - z");
    for t in ["a/../b", "\\\\server\\share", "..\u{0}..", "  ok  "] {
        let s = sanitize_title(t);
        assert!(!s.contains('/') && !s.contains('\\'));
        assert!(!s.chars().any(char::is_control));
        assert_eq!(s.trim(), s);
    }
}

#[test]
fn cookies_file_checks() {
    assert_eq!(check_cookies(b""), Err(CookiesRejection::Empty));
    assert_eq!(check_cookies(b"# Netscape HTTP Cookie File\n"), Ok(()));
    assert_eq!(check_cookies(b".youtube.com\tTRUE\t/"), Ok(()));
    assert_eq!(check_cookies(b"hello world"), Err(CookiesRejection::NotCookies));
    let big = vec![b'\t'; 2 * 1024 * 1024 + 1];
    assert_eq!(check_cookies(&big), Err(CookiesRejection::TooLarge));
    let edge = vec![b'\t'; 2 * 1024 * 1024];
    assert_eq!(check_cookies(&edge), Ok(()));
    assert!(bytes_contains(b"abcabd", b"abd"));
    assert!(!bytes_contains(b"ab", b"abc"));
    assert!(bytes_contains(b"ab", b""));
}

#[test]
fn ytdlp_output_parsing() {
    let (t, p) = parse_ytdlp_output("My Video\n/downloads/My Video.mp4\n").unwrap();
    assert_eq!((t.as_str(), p.as_str()), ("My Video", "/downloads/My Video.mp4"));
    let (t, p) = parse_ytdlp_output("  \n/downloads/x.mp4  \n\n").unwrap();
    assert_eq!((t.as_str(), p.as_str()), ("Untitled", "/downloads/x.mp4"));
    let (t, p) = parse_ytdlp_output("A\nB\nC").unwrap();
    assert_eq!((t.as_str(), p.as_str()), ("A", "C"));
    assert!(parse_ytdlp_output(" \n\t\n").is_err());
    assert_eq!(NoOutput.message(), "yt-dlp produced no output");
}

#[test]
fn ytdlp_failures() {
    assert_eq!(
        ytdlp_failure("WARNING: x\nERROR: Unsupported URL\n"),
        "yt-dlp failed: ERROR: Unsupported URL"
    );
    assert_eq!(ytdlp_failure("   "), "yt-dlp failed: unknown yt-dlp error");
    assert_eq!(ytdlp_failure("single"), "yt-dlp failed: single");
}

#[test]
fn saved_names_and_sizes() {
    assert_eq!(saved_file_name("/downloads/a b.mp4"), "a b.mp4");
    assert_eq!(saved_file_name("/"), "/");
    assert_eq!(size_unit(0), 0);
    assert_eq!(size_unit(1023), 0);
    assert_eq!(size_unit(1024), 1);
    assert_eq!(size_unit(1024 * 1024), 2);
    assert_eq!(size_unit(1024 * 1024 * 1024), 3);
    assert_eq!(size_unit(1024i64.pow(4)), 4);
    assert_eq!(size_unit(1024i64.pow(5)), 4);
    assert_eq!(size_unit(-5), 0);
    assert_eq!(
        (0..5).map(unit_suffix).collect::<Vec<_>>(),
        vec!["B", "KB", "MB", "GB", "TB"]
    );
    assert_eq!(bytes_text(512), "512 B");
    assert_eq!(bytes_text(-1), "-1 B");
}

#[test]
fn notification_texts() {
    assert_eq!(media_url("https://bot.example/", "a.mp4"), "https://bot.example/media/a.mp4");
    assert_eq!(
        download_done_text(Some("https://h/"), "T", "t.mp4", "1.5 MB", "https://u"),
        "✅ Download complete: T\nhttps://u\n1.5 MB · saved as t.mp4 (https://h/media/t.mp4)"
    );
    assert_eq!(
        download_done_text(None, "T", "t.mp4", "10 B", "https://u"),
        "✅ Download complete: T\nhttps://u\n10 B · saved as t.mp4"
    );
    assert_eq!(
        download_failed_text("https://u", "boom", Some("discord:1")),
        "❌ Download failed: https://u\nboom\nrequested by discord:1"
    );
    assert_eq!(download_failed_text("https://u", "boom", None), "❌ Download failed: https://u\nboom");
    assert_eq!(telegram_send_url("123:abc"), "https://api.telegram.org/bot123:abc/sendMessage");
    assert_eq!(notify_targets(Some("w"), Some("t"), None), (Some("w"), None));
    assert_eq!(notify_targets(None, Some("t"), Some("c")), (None, Some(("t", "c"))));
    assert_eq!(notify_targets(None, None, Some("c")), (None, None));
}

#[test]
fn playlist_listing_output() {
    let out = br#"{"title":"Show","entries":[
        {"url":"https://e/1","title":"Pilot"},
        {"url":"abc","ie_key":"Youtube","id":"xyz","title":7},
        {"ie_key":"Other","id":"z"},
        {"webpage_url":"https://w/3"}
    ]}"#;
    let eps = playlist_episodes(true, out);
    let got: Vec<(&str, &str)> = eps.iter().map(|e| (e.url.as_str(), e.title.as_str())).collect();
    assert_eq!(
        got,
        vec![
            ("https://e/1", "Pilot"),
            ("https://www.youtube.com/watch?v=xyz", "episode"),
            ("https://w/3", "episode"),
        ]
    );
    assert!(playlist_episodes(false, out).is_empty());
    assert!(playlist_episodes(true, b"not json").is_empty());
    assert!(playlist_episodes(true, br#"{"id":"single video"}"#).is_empty());
    assert!(playlist_episodes(true, br#"{"entries":{}}"#).is_empty());
    assert!(playlist_episodes(true, br#"{"entries":[]}"#).is_empty());
}

#[test]
fn bulk_counts() {
    assert!(already_queued(1));
    assert!(!already_queued(0));
    assert_eq!(bulk_tally(0, 0, true), (1, 0));
    assert_eq!(bulk_tally(3, 4, false), (3, 5));
    assert_eq!(bulk_tally(i64::MAX, 0, false), (i64::MAX, 1));
}
