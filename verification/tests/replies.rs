use nigerianbot::arr_text::{
    add_reply, airings_reply, digest_not_configured, digest_text, digest_unreachable,
    failure_reply, missing_setup_error, no_match_error, not_configured_reply, queue_reply,
    releases_reply, search_reply, status_reply, Airing, LookupResult, QueueRecord, Release,
    TermError,
};
use nigerianbot::media::Service;
use nigerianbot::schedules::{
    advance, delete_reply, digest_draft, digest_label, digest_reply, due_minutes, fire_kind,
    recurring_draft, recurring_reply, reminder_draft, reminder_reply, schedules_reply,
    should_post, unknown_kind_text, valid_kind, Advance, DraftError, FireKind, ScheduleLine,
};
use nigerianbot::telegram::{
    failure_reply as tg_failure_reply, help_text, queued_reply, recent_reply, status_count,
    status_reply as tg_status_reply, RecentDownload,
};

fn s(x: &str) -> Option<String> {
    Some(x.to_string())
}

fn rec(title: Option<&str>, status: Option<&str>, left: Option<&str>) -> QueueRecord {
    QueueRecord {
        title: title.map(str::to_string),
        status: status.map(str::to_string),
        timeleft: left.map(str::to_string),
    }
}

#[test]
fn service_status_replies() {
    assert_eq!(
        not_configured_reply(Service::Sonarr),
        "📺 Sonarr isn't configured. Set `SONARR_URL` and `SONARR_API_KEY`."
    );
    assert_eq!(
        not_configured_reply(Service::Radarr),
        "🎬 Radarr isn't configured. Set `RADARR_URL` and `RADARR_API_KEY`."
    );
    assert_eq!(failure_reply(Service::Radarr, "timeout"), "⚠️ Radarr: timeout");
    assert_eq!(
        status_reply(Service::Sonarr, Some("4.0.1"), 12, 2),
        "📺 **Sonarr** v4.0.1\n• Series: **12**\n• Downloading: **2**"
    );
    assert_eq!(
        status_reply(Service::Radarr, None, 0, 0),
        "🎬 **Radarr** v?\n• Movies: **0**\n• Downloading: **0**"
    );
}

#[test]
fn queue_and_digest_replies() {
    assert_eq!(queue_reply(Service::Sonarr, &vec![]), "📺 The Sonarr queue is empty.");
    let recs = vec![rec(Some("Show"), Some("downloading"), Some("00:10:00")), rec(None, None, None)];
    assert_eq!(
        queue_reply(Service::Sonarr, &recs),
        "📺 **Sonarr — downloading:**\n• Show — downloading 00:10:00\n• ? —  \n"
    );
    let many: Vec<QueueRecord> = (0..20).map(|i| rec(Some(&format!("t{i}")), None, None)).collect();
    let out = queue_reply(Service::Radarr, &many);
    assert!(out.contains("• t14 — "));
    assert!(!out.contains("• t15 — "));

    assert_eq!(digest_text("📺 **Sonarr**", &vec![]), "📺 **Sonarr** — nothing downloading right now. ✅");
    assert_eq!(
        digest_text("🎬 **Radarr**", &vec![rec(Some("Film"), None, Some("1h"))]),
        "🎬 **Radarr** — downloading:\n• Film 1h\n"
    );
    let out = digest_text("x", &many);
    assert_eq!(out.lines().count(), 11);
    assert_eq!(digest_not_configured("📺 **Sonarr**"), "📺 **Sonarr**: not configured.");
    assert_eq!(
        digest_unreachable("📺 **Sonarr**", "refused"),
        "📺 **Sonarr**: couldn't reach the server (refused)"
    );
}

#[test]
fn upcoming_replies() {
    assert_eq!(releases_reply(&vec![]), "🎬 No releases in the next 30 days.");
    let rels = vec![
        Release { title: s("Dune"), year: Some(2024), dates: vec![None, s("2024-03-01T00:00:00Z")] },
        Release { title: None, year: None, dates: vec![] },
    ];
    assert_eq!(
        releases_reply(&rels),
        "🎬 **Releasing soon:**\n• **Dune** (2024) — 2024-03-01\n• **?** (0) — TBA\n"
    );
    assert_eq!(airings_reply(&vec![]), "📺 Nothing airing in the next 7 days.");
    let eps = vec![Airing {
        series_title: s("Show"),
        season: Some(1),
        episode: Some(12),
        title: s("Finale"),
        air_date_utc: s("2024-05-01T20:00:00Z"),
    }];
    assert_eq!(
        airings_reply(&eps),
        "📺 **Airing soon:**\n• **Show** S01E12 — Finale (2024-05-01)\n"
    );
}

#[test]
fn search_and_add_replies() {
    assert_eq!(
        search_reply(Service::Radarr, "zzz", &vec![]),
        "🎬 No movie results for **zzz**."
    );
    assert_eq!(
        search_reply(Service::Sonarr, "zzz", &vec![]),
        "📺 No TV results for **zzz**."
    );
    let long = "o".repeat(200);
    let ms = vec![
        LookupResult { title: s("Dune"), year: Some(2021), overview: Some(long.clone()), id: Some(3) },
        LookupResult { title: s("Dune"), year: Some(1984), overview: None, id: None },
    ];
    let expected = format!(
        "🎬 **Results for \"dune\":**\n**Dune** (2021) ✅ (in library)\n{}…\n\n**Dune** (1984)\n…\n\n_`/radarr add <name>` adds the top match._",
        "o".repeat(150)
    );
    assert_eq!(search_reply(Service::Radarr, "dune", &ms), expected);
    assert_eq!(TermError::NoSearchTerm.message(Service::Radarr), "give me a movie name to search for.");
    assert_eq!(TermError::NoSearchTerm.message(Service::Sonarr), "give me a show name to search for.");
    assert_eq!(TermError::NoAddTerm.message(Service::Radarr), "give me a movie name to add.");
    assert_eq!(TermError::NoAddTerm.message(Service::Sonarr), "give me a show name to add.");
    assert_eq!(no_match_error(Service::Sonarr, "x"), "no TV match for \"x\".");
    assert_eq!(no_match_error(Service::Radarr, "x"), "no movie match for \"x\".");
    assert_eq!(missing_setup_error(Service::Radarr, true), "no root folder configured in Radarr.");
    assert_eq!(missing_setup_error(Service::Sonarr, false), "no quality profile configured in Sonarr.");
    assert_eq!(add_reply(Service::Radarr, "Dune", true), "🎬 **Dune** is already in Radarr.");
    assert_eq!(
        add_reply(Service::Radarr, "Dune", false),
        "🎬 Added **Dune** and started searching. 🍿"
    );
    assert_eq!(
        add_reply(Service::Sonarr, "Show", false),
        "📺 Added **Show** and started searching. 🎬"
    );
}

#[test]
fn schedule_rules() {
    assert!(valid_kind("message"));
    assert!(valid_kind("digest_sonarr"));
    assert!(valid_kind("digest_radarr"));
    assert!(!valid_kind("digest_lidarr"));
    assert_eq!(due_minutes(None, 1), 1);
    assert_eq!(due_minutes(Some(0), 60), 1);
    assert_eq!(due_minutes(Some(-4), 60), 1);
    assert_eq!(due_minutes(Some(15), 60), 15);
    assert_eq!(advance(Some(3600)), Advance::Reschedule(3600));
    assert_eq!(advance(Some(0)), Advance::Disable);
    assert_eq!(advance(None), Advance::Disable);
    assert_eq!(fire_kind("message"), FireKind::Message);
    assert_eq!(fire_kind("digest_sonarr"), FireKind::SonarrDigest);
    assert_eq!(fire_kind("digest_radarr"), FireKind::RadarrDigest);
    assert_eq!(fire_kind("weird"), FireKind::Unknown);
    assert_eq!(unknown_kind_text("weird"), "(unknown schedule kind: weird)");
    assert_eq!(digest_label(true), "🎬 **Radarr**");
    assert_eq!(digest_label(false), "📺 **Sonarr**");
    assert!(should_post("hi"));
    assert!(!should_post(" \n "));
}

#[test]
fn schedule_drafts() {
    let d = reminder_draft(None, Some("stand up")).unwrap();
    assert_eq!((d.kind, d.message.as_deref(), d.interval_seconds, d.minutes), ("message", Some("stand up"), None, 1));
    let d = reminder_draft(Some(-3), Some("x")).unwrap();
    assert_eq!(d.minutes, 1);
    assert_eq!(reminder_draft(Some(5), Some("")).unwrap_err(), DraftError::NoReminderText);
    assert_eq!(reminder_draft(Some(5), None).unwrap_err(), DraftError::NoReminderText);

    assert_eq!(recurring_draft(false, None, Some("x")).unwrap_err(), DraftError::NoChannel);
    assert_eq!(recurring_draft(false, Some(i64::MAX), Some("x")).unwrap_err(), DraftError::NoChannel);
    assert_eq!(recurring_draft(true, Some(i64::MAX), None).unwrap_err(), DraftError::NoMessageText);
    assert_eq!(digest_draft(false, None, Some(i64::MAX)).unwrap_err(), DraftError::NoChannel);
    assert_eq!(recurring_draft(true, None, None).unwrap_err(), DraftError::NoMessageText);
    let d = recurring_draft(true, None, Some("hello")).unwrap();
    assert_eq!((d.kind, d.interval_seconds, d.minutes), ("message", Some(3600), 60));
    let d = recurring_draft(true, Some(5), Some("hello")).unwrap();
    assert_eq!((d.interval_seconds, d.minutes), (Some(300), 5));

    assert_eq!(digest_draft(false, Some("radarr"), None).unwrap_err(), DraftError::NoChannel);
    let d = digest_draft(true, None, None).unwrap();
    assert_eq!((d.kind, d.message, d.interval_seconds, d.minutes), ("digest_sonarr", None, Some(43200), 720));
    let d = digest_draft(true, Some("radarr"), Some(0)).unwrap();
    assert_eq!((d.kind, d.interval_seconds, d.minutes), ("digest_radarr", Some(60), 1));
    let d = digest_draft(true, Some("lidarr"), Some(30)).unwrap();
    assert_eq!(d.kind, "digest_sonarr");

    assert_eq!(DraftError::NoChannel.message(), "Pick a channel.");
    assert_eq!(DraftError::NoReminderText.message(), "Give me some reminder text.");
    assert_eq!(DraftError::NoMessageText.message(), "Give me some message text.");
}

#[test]
fn schedule_replies() {
    assert_eq!(reminder_reply(5), "⏰ Reminder set — I'll post that here in **5 min**.");
    assert_eq!(recurring_reply(7, 60), "🔁 I'll post that in <#7> every **60 min**.");
    assert_eq!(digest_reply("radarr", 7, 720), "📡 I'll post the **radarr** digest in <#7> every **720 min**.");
    assert_eq!(delete_reply(3, 1), "🗑️ Deleted schedule **#3**.");
    assert_eq!(delete_reply(3, 0), "No schedule **#3** in this server.");
    assert_eq!(
        schedules_reply(&vec![]),
        "No schedules set. Use `/schedule reminder`, `recurring`, or `digest`."
    );
    let ls = vec![
        ScheduleLine { id: 1, channel_id: 10, kind: "message".to_string(), interval_seconds: None, next_unix: 1700000000 },
        ScheduleLine { id: 2, channel_id: 11, kind: "digest_radarr".to_string(), interval_seconds: Some(43200), next_unix: 5 },
        ScheduleLine { id: 3, channel_id: 12, kind: "digest_sonarr".to_string(), interval_seconds: Some(-90), next_unix: -1 },
    ];
    assert_eq!(
        schedules_reply(&ls),
        "🗓️ **Schedules:**\n\
**#1** · <#10> · message · once · next <t:1700000000:R>\n\
**#2** · <#11> · Radarr digest · every 720m · next <t:5:R>\n\
**#3** · <#12> · Sonarr digest · every -1m · next <t:-1:R>\n"
    );
    assert_eq!(-90i64 / 60, -1);
}

#[test]
fn telegram_replies() {
    assert_eq!(
        help_text("/start - hello"),
        "🤖 NigerianBot (Telegram)\n\n/start - hello\n\nDownloads are fetched by the worker; finished files are linked from the web dashboard."
    );
    let rows = vec![("done".to_string(), 4), ("queued".to_string(), 2), ("done".to_string(), 9)];
    assert_eq!(status_count(&rows, "done"), 4);
    assert_eq!(status_count(&rows, "failed"), 0);
    assert_eq!(
        tg_status_reply(&rows),
        "📊 Downloads — queued 2 · downloading 0 · done 4 · failed 0"
    );
    assert_eq!(queued_reply(8, "url"), "📥 Queued download **#8** (url).");
    assert_eq!(tg_failure_reply("Queue failed", "db down"), "⚠️ Queue failed: db down");
    assert_eq!(recent_reply(&vec![], None), "No downloads yet.");
    let ds = vec![
        RecentDownload { id: 1, title: s("Clip"), status: "done".to_string(), file_path: s("clip.mp4"), size: s("2.0 MB") },
        RecentDownload { id: 2, title: None, status: "queued".to_string(), file_path: s("x.mp4"), size: None },
    ];
    assert_eq!(
        recent_reply(&ds, Some("https://h/")),
        "🗂 Recent downloads:\n• #1 Clip — done (2.0 MB)\n  https://h/media/clip.mp4\n• #2 #2 — queued (—)\n"
    );
    assert_eq!(
        recent_reply(&ds, None),
        "🗂 Recent downloads:\n• #1 Clip — done (2.0 MB)\n• #2 #2 — queued (—)\n"
    );
}
