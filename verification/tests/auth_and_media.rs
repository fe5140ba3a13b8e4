use nigerianbot::auth::{
    authenticate, issue_token, verify_token, bearer_token, check_login_pin, check_pin_change, constant_time_eq, hash_pin, login_start,
    pin_default_value, pin_is_default_flag, valid_pin, verify_pin, AuthRejection, ChangePinRequest,
    Claims, LoginRequest, LoginStart, PinChange, PinCheck, PinHashError, TokenResponse,
};
use nigerianbot::identity::{
    bootstrap_role, contains_u64, is_role_name, stored_role, telegram_role, Role,
};
use nigerianbot::media::{
    add_decision, add_post_path, add_settings, arr_base_url, calendar_date, CALENDAR_ITEMS,
    SEARCH_RESULTS, arr_url, calendar_days, calendar_window, date_part,
    import_candidates, import_file_path, import_mode, import_path, in_library, library_path,
    lookup_path, match_title, media_term, poster, provider_of, provider_of_lowercase,
    release_date, service_of, url_host, AddDecision, Image, ImportCandidate, Service, SetupMissing,
};
use nigerianbot::paths::file_name;

/// A bcrypt hash (cost 4) of the PIN `1234`.
const HASH_1234: &str = "$2b$04$abcdefghijklmnopqrstuuLmbu5vDTuG9XSinpEFXpa/UakZY.oz6";

#[test]
fn pin_rules() {
    assert!(valid_pin("1234"));
    assert!(valid_pin("12345678"));
    assert!(!valid_pin("123"));
    assert!(!valid_pin("123456789"));
    assert!(!valid_pin("12a4"));
    assert!(!valid_pin("١٢٣٤"));
    assert!(!valid_pin(""));
}

#[test]
fn pin_verification_against_stored_hash() {
    assert!(verify_pin("1234", HASH_1234));
    assert!(!verify_pin("4321", HASH_1234));
    assert!(!verify_pin("1234", "not-a-hash"));
    assert_eq!(
        check_login_pin("1234", &Ok(Some(HASH_1234.to_string()))),
        PinCheck::Accepted
    );
    assert_eq!(
        check_login_pin("0000", &Ok(Some(HASH_1234.to_string()))),
        PinCheck::Invalid
    );
    assert_eq!(check_login_pin("1234", &Ok(None)), PinCheck::Uninitialized);
    assert_eq!(check_login_pin("1234", &Err(())), PinCheck::StoreError);
}

#[test]
fn hashed_pin_round_trip() {
    let h = hash_pin("2468").unwrap();
    assert!(h.starts_with("$2"));
    assert_ne!(h, "2468");
    assert!(verify_pin("2468", &h));
    assert_eq!(check_login_pin("2468", &Ok(Some(h.clone()))), PinCheck::Accepted);
    assert_eq!(PinHashError.message(), "failed to hash PIN");
}

#[test]
fn pin_change_decisions() {
    let stored = Some(HASH_1234.to_string());
    let req = |cur: &str, new: &str| ChangePinRequest {
        current_pin: cur.to_string(),
        new_pin: new.to_string(),
    };
    assert_eq!(check_pin_change(&req("1234", "9876"), &None), PinChange::Uninitialized);
    assert_eq!(check_pin_change(&req("1111", "9876"), &stored), PinChange::Invalid);
    assert_eq!(check_pin_change(&req("1234", "98"), &stored), PinChange::Weak);
    assert_eq!(check_pin_change(&req("1234", "9876"), &stored), PinChange::Store);
}

#[test]
fn default_pin_flag_round_trip() {
    assert_eq!(pin_default_value(true), "true");
    assert_eq!(pin_default_value(false), "false");
    for b in [true, false] {
        assert_eq!(pin_is_default_flag(Some(pin_default_value(b))), b);
    }
    assert!(pin_is_default_flag(None));
    assert!(!pin_is_default_flag(Some("TRUE")));
}

#[test]
fn api_key_comparison_and_login_start() {
    assert!(constant_time_eq(b"secret", b"secret"));
    assert!(!constant_time_eq(b"secret", b"secreT"));
    assert!(!constant_time_eq(b"secret", b"secret1"));
    assert!(constant_time_eq(b"", b""));

    let req = |pin: Option<&str>, key: Option<&str>| LoginRequest {
        pin: pin.map(str::to_string),
        api_key: key.map(str::to_string),
    };
    assert!(matches!(login_start("k3y", &req(None, Some("k3y"))), LoginStart::ApiKey));
    assert!(matches!(
        login_start("k3y", &req(Some("1234"), Some("nope"))),
        LoginStart::CheckPin(p) if p == "1234"
    ));
    assert!(matches!(login_start("", &req(None, Some(""))), LoginStart::PinRequired));
    assert!(matches!(login_start("k3y", &req(None, None)), LoginStart::PinRequired));
}

#[test]
fn bearer_tokens_and_claims() {
    assert_eq!(bearer_token("Bearer abc.def"), Some("abc.def"));
    assert_eq!(bearer_token("Bearer   tok  "), Some("tok"));
    assert_eq!(bearer_token("Bearer "), Some(""));
    assert_eq!(bearer_token("bearer abc"), None);
    assert_eq!(bearer_token("Basic abc"), None);
    let c = Claims::issued("dashboard", "admin", 1_700_000_000, 3600);
    assert_eq!(c.sub, "dashboard");
    assert_eq!(c.role, "admin");
    assert_eq!(c.iat, 1_700_000_000);
    assert_eq!(c.exp, 1_700_003_600);
    let t = TokenResponse::bearer("jwt".to_string(), 3600, true);
    assert_eq!(t.token_type, "Bearer");
    assert_eq!(t.expires_in, 3600);
    assert!(t.must_change_pin);
    assert_eq!(AuthRejection::Misconfigured.message(), "server misconfigured");
    assert_eq!(AuthRejection::MissingHeader.message(), "missing Authorization header");
    assert_eq!(AuthRejection::NotBearer.message(), "expected a Bearer token");
    assert_eq!(AuthRejection::InvalidToken.message(), "invalid or expired token");
}

#[test]
fn roles() {
    assert_eq!(Role::parse("admin"), Role::Admin);
    assert_eq!(Role::parse("viewer"), Role::Viewer);
    assert_eq!(Role::parse("user"), Role::User);
    assert_eq!(Role::parse("root"), Role::User);
    assert_eq!(Role::parse("Admin"), Role::User);
    for r in [Role::Admin, Role::User, Role::Viewer] {
        assert_eq!(Role::parse(r.as_str()), r);
        assert!(is_role_name(r.as_str()));
    }
    assert!(Role::Viewer.rank() < Role::User.rank());
    assert!(Role::User.rank() < Role::Admin.rank());
    assert!(Role::Admin.is_admin());
    assert!(!Role::User.is_admin());
    assert!(!is_role_name("superuser"));
}

#[test]
fn role_resolution() {
    let admins = vec![5u64, 9];
    assert!(contains_u64(&admins, 9));
    assert!(!contains_u64(&admins, 7));
    assert_eq!(bootstrap_role(1, Some(1), &admins), Some(Role::Admin));
    assert_eq!(bootstrap_role(9, None, &admins), Some(Role::Admin));
    assert_eq!(bootstrap_role(2, Some(1), &admins), None);
    assert_eq!(stored_role(Some("viewer")), Role::Viewer);
    assert_eq!(stored_role(None), Role::User);
    assert_eq!(telegram_role(5, &admins, Some("viewer".to_string())), "admin");
    assert_eq!(telegram_role(6, &admins, Some("viewer".to_string())), "viewer");
    assert_eq!(telegram_role(6, &admins, None), "user");
}

#[test]
fn file_names() {
    assert_eq!(file_name("/downloads/a/b.mp4"), Some("b.mp4"));
    assert_eq!(file_name("b.mp4"), Some("b.mp4"));
    assert_eq!(file_name("/downloads/dir/"), Some("dir"));
    assert_eq!(file_name("/downloads/dir/."), Some("dir"));
    assert_eq!(file_name("/a/.."), None);
    assert_eq!(file_name("/"), None);
    assert_eq!(file_name(""), None);
    assert_eq!(file_name("."), None);
    for p in ["/x/y.txt", "/x//y/", "a/./b", "..", "/a/b/..", "c"] {
        assert_eq!(
            file_name(p),
            std::path::Path::new(p).file_name().and_then(|s| s.to_str()),
            "{p:?}"
        );
    }
}

#[test]
fn providers() {
    assert_eq!(provider_of("https://www.youtube.com/watch?v=x"), "youtube");
    assert_eq!(provider_of("https://youtu.be/x"), "youtube");
    assert_eq!(provider_of("HTTPS://VIMEO.COM/123"), "vimeo");
    assert_eq!(provider_of("https://YouTube.com/x"), "youtube");
    assert_eq!(provider_of("https://example.com/a.mp4"), "url");
    assert_eq!(provider_of_lowercase("https://VIMEO.COM/1"), "url");
    assert_eq!(provider_of("https://example.com/watch?ref=youtube.com"), "url");
    assert_eq!(provider_of("https://example.com/#vimeo.com"), "url");
    assert_eq!(provider_of("https://player.vimeo.com.youtube.com/x"), "vimeo");
    assert_eq!(provider_of("youtube.com/watch?v=1"), "youtube");
    assert_eq!(provider_of("https://m.YOUTUBE.com"), "youtube");
    assert_eq!(provider_of("HTTPS://M.YOUTUBE.COM/WATCH?V=1"), "youtube");
    for u in ["https://www.youtube.com/watch?v=x", "http://vimeo.com/1", "https://a.b/c?youtu.be"] {
        assert_eq!(provider_of(u), provider_of(&u.to_ascii_uppercase()));
    }
}

#[test]
fn service_paths() {
    assert_eq!(service_of("sonarr"), Some(Service::Sonarr));
    assert_eq!(service_of("radarr"), Some(Service::Radarr));
    assert_eq!(service_of("lidarr"), None);
    assert_eq!(library_path("radarr"), "movie");
    assert_eq!(library_path("sonarr"), "series");
    assert_eq!(lookup_path("radarr"), "movie/lookup");
    assert_eq!(lookup_path("sonarr"), "series/lookup");
    assert_eq!(add_post_path("radarr"), "movie");
    assert_eq!(add_post_path("sonarr"), "series");
    assert_eq!(calendar_days("radarr"), 30);
    assert_eq!(calendar_days("sonarr"), 7);
    assert_eq!(arr_base_url("http://sonarr:8989//"), "http://sonarr:8989");
    assert_eq!(
        arr_url("http://sonarr:8989", "/system/status"),
        "http://sonarr:8989/api/v3/system/status"
    );
    assert_eq!(arr_url("http://r", "queue"), "http://r/api/v3/queue");
}

#[test]
fn calendar_windows() {
    assert_eq!(
        calendar_window(0, 7),
        Some(("1970-01-01".to_string(), "1970-01-08".to_string()))
    );
    assert_eq!(
        calendar_window(1_700_000_000, 30),
        Some(("2023-11-14".to_string(), "2023-12-14".to_string()))
    );
    assert_eq!(calendar_window(i64::MAX - 10, 1), None);
    assert_eq!(calendar_window(i64::MAX - 10, 0), None);
}

#[test]
fn dates_posters_and_terms() {
    assert_eq!(date_part("2024-05-01T20:00:00Z"), "2024-05-01");
    assert_eq!(date_part("2024-05-01"), "2024-05-01");
    let cands = vec![None, Some("2024-06-01T00:00:00Z".to_string()), Some("2025".to_string())];
    assert_eq!(release_date(&cands, "?"), "2024-06-01");
    assert_eq!(release_date(&vec![None, None], "?"), "?");
    let images = vec![
        Image { cover_type: Some("banner".to_string()), remote_url: Some("b".to_string()) },
        Image { cover_type: Some("poster".to_string()), remote_url: Some("p".to_string()) },
        Image { cover_type: Some("poster".to_string()), remote_url: Some("q".to_string()) },
    ];
    assert_eq!(poster(&images), Some("p".to_string()));
    let images = vec![Image { cover_type: Some("poster".to_string()), remote_url: None }];
    assert_eq!(poster(&images), None);
    assert!(in_library(Some(3)));
    assert!(!in_library(Some(0)));
    assert!(!in_library(None));
    assert_eq!(media_term("  dune "), Some("dune"));
    assert_eq!(media_term("   "), None);
    assert_eq!(match_title(Some("Dune"), "dune"), "Dune");
    assert_eq!(match_title(None, "dune"), "dune");
}

#[test]
fn add_decisions() {
    assert!(matches!(add_decision(None, "x"), AddDecision::NoMatch));
    assert!(matches!(
        add_decision(Some((Some("Dune".to_string()), Some(4))), "dune"),
        AddDecision::Already(t) if t == "Dune"
    ));
    assert!(matches!(
        add_decision(Some((None, Some(0))), "dune"),
        AddDecision::Add(t) if t == "dune"
    ));
    assert!(matches!(
        add_decision(Some((Some("Dune".to_string()), None)), "dune"),
        AddDecision::Add(t) if t == "Dune"
    ));
}

#[test]
fn manual_import_candidates() {
    assert_eq!(import_path("radarr", "/s", "/r"), "/r");
    assert_eq!(import_path("sonarr", "/s", "/r"), "/s");
    assert_eq!(import_file_path("/downloads/", "a.mkv"), "/downloads/a.mkv");
    assert_eq!(import_file_path("/downloads", "a.mkv"), "/downloads/a.mkv");
    let c = |p: Option<&str>, n: Option<&str>| ImportCandidate {
        path: p.map(str::to_string),
        name: n.map(str::to_string),
    };
    let cands = vec![
        c(Some("/downloads/b.mkv"), Some("b.mkv")),
        c(Some("/downloads/a.mkv"), None),
        c(None, Some("a.mkv")),
    ];
    assert_eq!(import_candidates(&cands, "/downloads/a.mkv", "a.mkv"), vec![1, 2]);
    assert_eq!(import_candidates(&cands, "/downloads/z.mkv", "z.mkv"), vec![0, 1, 2]);
    assert_eq!(import_candidates(&vec![], "/x", "x"), Vec::<usize>::new());
    assert_eq!(import_mode(Some("copy")), "copy");
    assert_eq!(import_mode(None), "move");
}

#[test]
fn url_hosts() {
    assert_eq!(url_host("https://www.youtube.com/watch?v=x"), "www.youtube.com");
    assert_eq!(url_host("http://host:8080?q=1"), "host:8080");
    assert_eq!(url_host("https://h#frag"), "h");
    assert_eq!(url_host("youtube.com/x"), "youtube.com");
    assert_eq!(url_host("a://b://c/d"), "b:");
    assert_eq!(url_host("https://"), "");
    assert_eq!(url_host(""), "");
}

#[test]
fn add_settings_per_service() {
    let r = add_settings(Service::Radarr, Some(4), Some("/movies".to_string())).unwrap();
    assert_eq!(r.quality_profile_id, 4);
    assert_eq!(r.root_folder_path, "/movies");
    assert!(r.monitored && r.search_for_movie && !r.season_folder && !r.wants_language_profile);
    assert_eq!(r.minimum_availability, Some("released"));
    assert_eq!(r.monitor, None);
    let s = add_settings(Service::Sonarr, Some(1), Some("/tv".to_string())).unwrap();
    assert!(s.monitored && !s.search_for_movie && s.season_folder && s.wants_language_profile);
    assert_eq!(s.minimum_availability, None);
    assert_eq!(s.monitor, Some("all"));
    assert_eq!(add_settings(Service::Sonarr, None, None).unwrap_err(), SetupMissing::QualityProfile);
    assert_eq!(add_settings(Service::Sonarr, None, Some("/tv".to_string())).unwrap_err(), SetupMissing::QualityProfile);
    assert_eq!(add_settings(Service::Radarr, Some(1), None).unwrap_err(), SetupMissing::RootFolder);
}

fn now() -> i64 {
    std::time::SystemTime::now()
        .duration_since(std::time::UNIX_EPOCH)
        .unwrap()
        .as_secs() as i64
}

#[test]
fn tokens_round_trip() {
    let t = now();
    let token = issue_token("s3cret", "dashboard", "admin", t, 3600).unwrap();
    assert_eq!(token.split('.').count(), 3);
    let c = verify_token("s3cret", &token).unwrap();
    assert_eq!((c.sub.as_str(), c.role.as_str()), ("dashboard", "admin"));
    assert_eq!((c.iat, c.exp), (t as usize, (t + 3600) as usize));
    assert!(verify_token("other", &token).is_none());
    assert!(verify_token("s3cret", "not.a.token").is_none());
    let mut tampered = token.clone();
    tampered.push('x');
    assert!(verify_token("s3cret", &tampered).is_none());
    let expired = issue_token("s3cret", "api", "admin", 1_000, 10).unwrap();
    assert!(verify_token("s3cret", &expired).is_none());
    let again = issue_token("s3cret", "dashboard", "admin", t, 3600).unwrap();
    assert_eq!(again, token);
}

#[test]
fn request_authentication() {
    let token = issue_token("k", "api", "admin", now(), 60).unwrap();
    let header = format!("Bearer {token}");
    let user = authenticate(Some("k"), Some(&header)).unwrap();
    assert_eq!(user.claims.sub, "api");
    assert_eq!(authenticate(None, Some(&header)).unwrap_err(), AuthRejection::Misconfigured);
    assert_eq!(authenticate(Some("k"), None).unwrap_err(), AuthRejection::MissingHeader);
    assert_eq!(authenticate(Some("k"), Some(&token)).unwrap_err(), AuthRejection::NotBearer);
    assert_eq!(authenticate(Some("x"), Some(&header)).unwrap_err(), AuthRejection::InvalidToken);
}

#[test]
fn malformed_hashes_never_match() {
    for h in ["", "$2b$04$", "$2b$04$abc$def", "2b$04", "no dollars at all"] {
        assert!(!verify_pin("1234", h), "{h:?}");
    }
    assert!(verify_pin("1234", &HASH_1234.replace('$', "$$")));
}

#[test]
fn calendar_dates_and_caps() {
    let s = |x: &str| Some(x.to_string());
    assert_eq!(calendar_date(s("2024-05-01T20:00:00Z"), s("2025-01-01"), None, None), "2024-05-01");
    assert_eq!(calendar_date(None, None, s("2024-07-04T00:00:00Z"), s("2024-06-01")), "2024-07-04");
    assert_eq!(calendar_date(None, None, None, None), "TBA");
    assert_eq!((CALENDAR_ITEMS, SEARCH_RESULTS), (30, 12));
}
