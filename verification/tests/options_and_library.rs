use nigerianbot::library::{is_audio_ext, listed_path, scan_done, search_key};
use nigerianbot::options::{
    option_channel, option_str, sub_option_channel, sub_option_i64, sub_option_str,
    sub_option_user, subcommand_name, CommandOption, OptionValue,
};

fn opt(name: &str, value: OptionValue) -> CommandOption {
    CommandOption { name: name.to_string(), value }
}

fn play_command() -> Vec<CommandOption> {
    vec![opt(
        "play",
        OptionValue::SubCommand(vec![
            opt("song", OptionValue::Str("rock/a.mp3".to_string())),
            opt("level", OptionValue::Int(40)),
            opt("channel", OptionValue::Channel(77)),
            opt("user", OptionValue::User(5)),
            opt("song", OptionValue::Str("second".to_string())),
        ]),
    )]
}

#[test]
fn subcommand_options() {
    let opts = play_command();
    assert_eq!(subcommand_name(&opts), "play");
    assert_eq!(subcommand_name(&vec![]), "");
    assert_eq!(sub_option_str(&opts, "song"), Some("rock/a.mp3"));
    assert_eq!(sub_option_i64(&opts, "level"), Some(40));
    assert_eq!(sub_option_channel(&opts, "channel"), Some(77));
    assert_eq!(sub_option_user(&opts, "user"), Some(5));
    assert_eq!(sub_option_str(&opts, "level"), None);
    assert_eq!(sub_option_i64(&opts, "song"), None);
    assert_eq!(sub_option_str(&opts, "missing"), None);
}

#[test]
fn options_outside_a_subcommand() {
    let group = vec![opt(
        "admin",
        OptionValue::SubCommandGroup(vec![opt("level", OptionValue::Str("viewer".to_string()))]),
    )];
    assert_eq!(sub_option_str(&group, "level"), Some("viewer"));
    let flat = vec![
        opt("url", OptionValue::Str("https://x".to_string())),
        opt("channel", OptionValue::Channel(9)),
        opt("flag", OptionValue::Other),
    ];
    assert_eq!(subcommand_name(&flat), "url");
    assert_eq!(sub_option_str(&flat, "url"), None);
    assert_eq!(option_str(&flat, "url"), Some("https://x"));
    assert_eq!(option_channel(&flat, "channel"), Some(9));
    assert_eq!(option_str(&flat, "flag"), None);
    assert_eq!(option_channel(&flat, "url"), None);
}

#[test]
fn audio_extensions() {
    for e in ["mp3", "FLAC", "Wav", "ogg", "m4a", "OPUS", "aac", "wma"] {
        assert!(is_audio_ext(e), "{e}");
    }
    for e in ["mp4", "txt", "", "mp3 "] {
        assert!(!is_audio_ext(e), "{e}");
    }
}

#[test]
fn library_listing_decisions() {
    assert_eq!(search_key("RoCk"), "rock");
    assert_eq!(listed_path("Rock\\Song.mp3", ""), Some("Rock/Song.mp3".to_string()));
    assert_eq!(listed_path("Rock/Song.mp3", "song"), Some("Rock/Song.mp3".to_string()));
    assert_eq!(listed_path("Rock/Song.mp3", "jazz"), None);
    let long = format!("{}.mp3", "a".repeat(96));
    assert_eq!(listed_path(&long, ""), Some(long.clone()));
    let too_long = format!("{}.mp3", "a".repeat(97));
    assert_eq!(listed_path(&too_long, ""), None);
    let wide = format!("{}.mp3", "é".repeat(48));
    assert_eq!(wide.len(), 100);
    assert_eq!(listed_path(&wide, ""), Some(wide.clone()));
    let wider = format!("{}.mp3", "é".repeat(49));
    assert_eq!(listed_path(&wider, ""), None);
    for shown in [listed_path("x\\y\\z.ogg", "y"), listed_path("Y.ogg", "y")].into_iter().flatten() {
        assert!(!shown.contains('\\') && shown.len() <= 100);
        assert!(shown.to_lowercase().contains('y'));
    }
    assert!(!scan_done(0, 25, 0));
    assert!(scan_done(25, 25, 0));
    assert!(!scan_done(3, 25, 10_000));
    assert!(scan_done(3, 25, 10_001));
}
