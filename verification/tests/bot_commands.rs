use nigerianbot::commands::{
    autoplay_clear_reply, autoplay_list_reply, autoplay_set_reply, cap, control_ack, control_action, control_refusal,
    control_id, control_ids, download_queued_reply, format_uptime, idle_tick,
    library_song_path, not_implemented_text, parse_control, play_reply, queue_reply,
    role_set_reply, roles_list_reply, route_autocomplete, route_command, route_component,
    song_title, swarm_reply, unknown_action_text, unknown_command_text, volume_level,
    volume_reply, whoami_reply, ComponentRoute, ControlAction, Route,
};

#[test]
fn command_routing() {
    let names = [
        ("ping", Route::Ping),
        ("music", Route::Music),
        ("sonarr", Route::Sonarr),
        ("radarr", Route::Radarr),
        ("server", Route::Server),
        ("bot", Route::Bot),
        ("autoplay", Route::Autoplay),
        ("joinsound", Route::Joinsound),
        ("schedule", Route::Schedule),
        ("Ping", Route::Unknown),
        ("", Route::Unknown),
    ];
    for (n, r) in names {
        assert_eq!(route_command(n), r, "{n}");
    }
    assert_eq!(route_autocomplete("music"), Some(Route::Music));
    assert_eq!(route_autocomplete("autoplay"), Some(Route::Autoplay));
    assert_eq!(route_autocomplete("joinsound"), Some(Route::Joinsound));
    assert_eq!(route_autocomplete("ping"), None);
    assert_eq!(route_component("musicadd|/a.mp3"), ComponentRoute::MusicAdd);
    assert_eq!(route_component("music_skip:0"), ComponentRoute::MusicControl);
    assert_eq!(route_component("other"), ComponentRoute::Ignore);
    assert_eq!(unknown_command_text("foo"), "Unknown command: `foo`");
    assert_eq!(unknown_action_text("music ", "dance"), "Unknown music action: `dance`");
    assert_eq!(unknown_action_text("", "x"), "Unknown action: `x`");
    assert_eq!(
        not_implemented_text("🎬", "sonarr", "search", "phase 2"),
        "🎬 `/sonarr search` is not implemented yet (phase 2)."
    );
}

#[test]
fn uptime_formatting() {
    assert_eq!(format_uptime(0), "0s");
    assert_eq!(format_uptime(59), "59s");
    assert_eq!(format_uptime(60), "1m 0s");
    assert_eq!(format_uptime(3600), "1h 0s");
    assert_eq!(format_uptime(86400), "1d 0s");
    assert_eq!(format_uptime(93784), "1d 2h 3m 4s");
    assert_eq!(format_uptime(90061), "1d 1h 1m 1s");
    assert_eq!(format_uptime(86400 + 5), "1d 5s");
}

#[test]
fn reply_capping() {
    let short = "x".repeat(1900);
    assert_eq!(cap(short.clone()), short);
    let long = "é".repeat(2500);
    let capped = cap(long);
    assert_eq!(capped.chars().count(), 1901);
    assert!(capped.ends_with('…'));
    assert!(capped.chars().count() <= 2000);
}

#[test]
fn control_ids_round_trip() {
    assert_eq!(parse_control("music_skip:2"), Some(("music_skip", 2)));
    assert_eq!(parse_control("a:b:7"), Some(("a:b", 7)));
    assert_eq!(parse_control("music_skip"), None);
    assert_eq!(parse_control("music_skip:x"), None);
    assert_eq!(parse_control("music_skip:"), None);
    for (a, i) in [("music_stop", 0usize), ("music_playpause", 13), ("", 5), ("x:y", 99)] {
        let id = control_id(a, i);
        assert_eq!(parse_control(&id), Some((a, i)));
    }
    let (p, s, t) = control_ids(3);
    assert_eq!(p, "music_playpause:3");
    assert_eq!(s, "music_skip:3");
    assert_eq!(t, "music_stop:3");
    assert_eq!(control_action("music_skip"), ControlAction::Skip);
    assert_eq!(control_action("music_stop"), ControlAction::Stop);
    assert_eq!(control_action("music_playpause"), ControlAction::PlayPause);
    assert_eq!(control_action("music_other"), ControlAction::Unknown);
}

#[test]
fn songs_and_playback_replies() {
    assert_eq!(song_title("https://youtu.be/x"), "https://youtu.be/x");
    assert_eq!(song_title("rock/song.mp3"), "song.mp3");
    assert_eq!(song_title("/"), "/");
    assert!(library_song_path("../etc/passwd").is_err());
    assert!(library_song_path("a/..b").is_err());
    assert_eq!(library_song_path("//rock/song.mp3").unwrap(), "rock/song.mp3");
    assert_eq!(play_reply("Song", true), "🎵 Now playing: **Song**");
    assert_eq!(play_reply("Song", false), "➕ Added to queue: **Song**");
    assert_eq!(queue_reply(0), "The queue is empty.");
    assert_eq!(queue_reply(3), "🎶 3 track(s) in the queue.");
    assert_eq!(volume_level(None), 100);
    assert_eq!(volume_level(Some(-3)), 0);
    assert_eq!(volume_level(Some(250)), 100);
    assert_eq!(volume_level(Some(40)), 40);
    assert_eq!(volume_reply(40), "🔊 Volume set to 40%.");
}

#[test]
fn idle_watchdog() {
    let (m, leave) = idle_tick(0, true);
    assert_eq!((m, leave), (1, false));
    let (m, leave) = idle_tick(m, true);
    assert_eq!((m, leave), (2, false));
    let (m, leave) = idle_tick(m, true);
    assert_eq!((m, leave), (3, true));
    assert_eq!(idle_tick(2, false), (0, false));
}

#[test]
fn admin_and_autoplay_replies() {
    assert_eq!(whoami_reply("admin"), "You are **admin**.");
    assert_eq!(role_set_reply(42, "viewer"), "✅ <@42> is now **viewer**.");
    assert_eq!(
        roles_list_reply(&vec![]),
        "No users with elevated/restricted roles. Everyone defaults to **user**; the server owner is always **admin**."
    );
    assert_eq!(
        roles_list_reply(&vec![(1, "admin".to_string()), (2, "viewer".to_string())]),
        "**Roles:**\n• <@1> — **admin**\n• <@2> — **viewer**\n"
    );
    assert_eq!(
        download_queued_reply(7, "youtube"),
        "📥 Queued download **#7** (youtube). It'll appear in the dashboard when it's done."
    );
    assert_eq!(
        autoplay_set_reply(99, "intro.mp3"),
        "✅ When someone joins <#99>, I'll play **intro.mp3**."
    );
    assert_eq!(autoplay_clear_reply(99, 1), "🗑️ Removed auto-play for <#99>.");
    assert_eq!(autoplay_clear_reply(99, 0), "No auto-play was set for <#99>.");
    assert_eq!(
        autoplay_list_reply(&vec![]),
        "No auto-play channels configured yet. Use `/autoplay set`."
    );
    assert_eq!(
        autoplay_list_reply(&vec![(5, Some("a.mp3".to_string())), (6, None)]),
        "**Auto-play channels:**\n• <#5> → a.mp3\n• <#6> → (unknown)\n"
    );
    assert_eq!(swarm_reply(12, 3), "🚀 Swarming <#12> with 3 bots...");
}

#[test]
fn control_acknowledgements() {
    assert_eq!(control_ack(ControlAction::Skip, None), "⏭️ Skipped.");
    assert_eq!(control_ack(ControlAction::Stop, Some(true)), "⏹️ Stopped.");
    assert_eq!(control_ack(ControlAction::PlayPause, Some(true)), "⏸️ Paused.");
    assert_eq!(control_ack(ControlAction::PlayPause, Some(false)), "▶️ Resumed.");
    assert_eq!(control_ack(ControlAction::PlayPause, None), "Nothing is playing.");
    assert_eq!(control_ack(ControlAction::Unknown, None), "Unknown control.");
}

#[test]
fn control_refusals() {
    assert_eq!(control_refusal(false, false, false, false), Some("Unknown control."));
    assert_eq!(control_refusal(true, false, true, true), Some("Use this in a server."));
    assert_eq!(control_refusal(true, true, false, false), Some("That player is no longer available."));
    assert_eq!(control_refusal(true, true, true, false), Some("Nothing is playing."));
    assert_eq!(control_refusal(true, true, true, true), None);
}
