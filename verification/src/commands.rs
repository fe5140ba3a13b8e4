//! Discord slash-command routing and the replies the commands give.

use vstd::prelude::*;
use crate::num::{parse_unsigned, parse_usize};
use crate::paths::{file_name, file_name_spec};
use crate::text::{
    contains, dec, dec_int, is_http_url, owned, push_dec, push_dec_i64, str_contains, str_eq,
    str_is_http_url, str_starts_with, str_take_chars, str_trim_start_char, take_chars,
    trim_start_char, starts_with,
};

verus! {

/// The handler a slash command goes to.
#[derive(Clone, Copy, Debug, PartialEq, Eq, Structural)]
pub enum Route {
    Ping,
    Music,
    Sonarr,
    Radarr,
    Server,
    Bot,
    Autoplay,
    Joinsound,
    Schedule,
    Unknown,
}

/// The route of a command name.
pub open spec fn route_spec(name: Seq<char>) -> Route {
    if name == "ping"@ {
        Route::Ping
    } else if name == "music"@ {
        Route::Music
    } else if name == "sonarr"@ {
        Route::Sonarr
    } else if name == "radarr"@ {
        Route::Radarr
    } else if name == "server"@ {
        Route::Server
    } else if name == "bot"@ {
        Route::Bot
    } else if name == "autoplay"@ {
        Route::Autoplay
    } else if name == "joinsound"@ {
        Route::Joinsound
    } else if name == "schedule"@ {
        Route::Schedule
    } else {
        Route::Unknown
    }
}

/// Route an incoming command by its name.
pub fn route_command(name: &str) -> (r: Route)
    ensures
        r == route_spec(name@),
{
    if str_eq(name, "ping") {
        Route::Ping
    } else if str_eq(name, "music") {
        Route::Music
    } else if str_eq(name, "sonarr") {
        Route::Sonarr
    } else if str_eq(name, "radarr") {
        Route::Radarr
    } else if str_eq(name, "server") {
        Route::Server
    } else if str_eq(name, "bot") {
        Route::Bot
    } else if str_eq(name, "autoplay") {
        Route::Autoplay
    } else if str_eq(name, "joinsound") {
        Route::Joinsound
    } else if str_eq(name, "schedule") {
        Route::Schedule
    } else {
        Route::Unknown
    }
}

/// Route an autocomplete request: only the commands with a song option
/// answer one.
pub fn route_autocomplete(name: &str) -> (r: Option<Route>)
    ensures
        r == (if name@ == "music"@ {
            Some(Route::Music)
        } else if name@ == "autoplay"@ {
            Some(Route::Autoplay)
        } else if name@ == "joinsound"@ {
            Some(Route::Joinsound)
        } else {
            None
        }),
{
    if str_eq(name, "music") {
        Some(Route::Music)
    } else if str_eq(name, "autoplay") {
        Some(Route::Autoplay)
    } else if str_eq(name, "joinsound") {
        Some(Route::Joinsound)
    } else {
        None
    }
}

/// Where a button press goes.
#[derive(Clone, Copy, Debug, PartialEq, Eq, Structural)]
pub enum ComponentRoute {
    /// A music search result's "add" button.
    MusicAdd,
    /// A playback control button.
    MusicControl,
    /// Not ours.
    Ignore,
}

/// Route a button press by its custom id prefix.
pub fn route_component(custom_id: &str) -> (r: ComponentRoute)
    ensures
        r == (if starts_with(custom_id@, "musicadd|"@) {
            ComponentRoute::MusicAdd
        } else if starts_with(custom_id@, "music_"@) {
            ComponentRoute::MusicControl
        } else {
            ComponentRoute::Ignore
        }),
{
    if str_starts_with(custom_id, "musicadd|") {
        ComponentRoute::MusicAdd
    } else if str_starts_with(custom_id, "music_") {
        ComponentRoute::MusicControl
    } else {
        ComponentRoute::Ignore
    }
}

/// `Unknown command: `{name}``.
pub fn unknown_command_text(name: &str) -> (r: String)
    ensures
        r@ == "Unknown command: `"@ + name@ + "`"@,
{
    let mut out = owned("Unknown command: `");
    out.append(name);
    out.append("`");
    out
}

/// `Unknown {what}action: `{sub}`` (`what` is e.g. `music ` or empty).
pub fn unknown_action_text(what: &str, sub: &str) -> (r: String)
    ensures
        r@ == "Unknown "@ + what@ + "action: `"@ + sub@ + "`"@,
{
    let mut out = owned("Unknown ");
    out.append(what);
    out.append("action: `");
    out.append(sub);
    out.append("`");
    out
}

/// The reply of a command whose feature is still planned.
pub fn not_implemented_text(icon: &str, command: &str, sub: &str, phase: &str) -> (r: String)
    ensures
        r@ == icon@ + " `/"@ + command@ + " "@ + sub@ + "` is not implemented yet ("@ + phase@
            + ")."@,
{
    let mut out = owned(icon);
    out.append(" `/");
    out.append(command);
    out.append(" ");
    out.append(sub);
    out.append("` is not implemented yet (");
    out.append(phase);
    out.append(").");
    out
}

// ── Uptime ──────────────────────────────────────────────────────────────────

/// Human-friendly uptime like `2d 3h 7m 12s`: zero days, hours and minutes
/// are left out, seconds always shown.
pub open spec fn uptime_spec(s: nat) -> Seq<char> {
    let days = s / 86400;
    let hours = (s % 86400) / 3600;
    let mins = (s % 3600) / 60;
    let secs = s % 60;
    (if days > 0 {
        dec(days) + "d "@
    } else {
        ""@
    }) + (if hours > 0 {
        dec(hours) + "h "@
    } else {
        ""@
    }) + (if mins > 0 {
        dec(mins) + "m "@
    } else {
        ""@
    }) + dec(secs) + "s"@
}

/// Human-friendly uptime of `secs` seconds.
pub fn format_uptime(secs: u64) -> (r: String)
    ensures
        r@ == uptime_spec(secs as nat),
{
    let days = secs / 86400;
    let hours = (secs % 86400) / 3600;
    let mins = (secs % 3600) / 60;
    let s = secs % 60;
    let mut out = String::new();
    proof {
        reveal_strlit("");
    }
    if days > 0 {
        push_dec(&mut out, days);
        out.append("d ");
    }
    if hours > 0 {
        push_dec(&mut out, hours);
        out.append("h ");
    }
    if mins > 0 {
        push_dec(&mut out, mins);
        out.append("m ");
    }
    push_dec(&mut out, s);
    out.append("s");
    assert(out@ =~= uptime_spec(secs as nat));
    out
}

// ── Reply length ────────────────────────────────────────────────────────────

/// A reply kept under Discord's 2000-character limit: longer than 1900 chars
/// is cut to 1900 and marked with `…`.
pub open spec fn cap_spec(s: Seq<char>) -> Seq<char> {
    if s.len() > 1900 {
        s.subrange(0, 1900) + "…"@
    } else {
        s
    }
}

/// Keep a reply under Discord's 2000-character limit.
pub fn cap(s: String) -> (r: String)
    ensures
        r@ == cap_spec(s@),
{
    if s.as_str().unicode_len() > 1900 {
        let mut out = owned(str_take_chars(s.as_str(), 1900));
        out.append("…");
        out
    } else {
        s
    }
}

// ── Playback controls ───────────────────────────────────────────────────────

/// The split of `s` at its last `c` (`str::rsplit_once`).
pub open spec fn rsplit_once_spec(s: Seq<char>, c: char) -> Option<(Seq<char>, Seq<char>)>
    decreases s.len(),
{
    if s.len() == 0 {
        None
    } else if s.last() == c {
        Some((s.drop_last(), seq![]))
    } else {
        match rsplit_once_spec(s.drop_last(), c) {
            Some((a, b)) => Some((a, b.push(s.last()))),
            None => None,
        }
    }
}

/// A control id like `music_skip:2`, split into action and bot index.
pub open spec fn parse_control_spec(custom_id: Seq<char>) -> Option<(Seq<char>, nat)> {
    match rsplit_once_spec(custom_id, ':') {
        Some((action, index)) => match parse_unsigned(index, usize::MAX as nat) {
            Ok(i) => Some((action, i)),
            Err(_) => None,
        },
        None => None,
    }
}

/// Parse a control custom id like `music_skip:2` into `("music_skip", 2)`.
pub fn parse_control(custom_id: &str) -> (r: Option<(&str, usize)>)
    ensures
        match parse_control_spec(custom_id@) {
            Some((a, i)) => r matches Some(x) && x.0@ == a && x.1 as nat == i,
            None => r is None,
        },
{
    let n = custom_id.unicode_len();
    let mut k: usize = n;
    assert(custom_id@.subrange(0, n as int) =~= custom_id@);
    while k > 0
        invariant
            k <= n,
            n == custom_id@.len(),
            forall|j: int| k <= j < n ==> custom_id@[j] != ':',
            rsplit_once_spec(custom_id@, ':') == match rsplit_once_spec(
                custom_id@.subrange(0, k as int),
                ':',
            ) {
                Some((a, b)) => Some((a, b + custom_id@.subrange(k as int, n as int))),
                None => None,
            },
        ensures
            k <= n,
            forall|j: int| k <= j < n ==> custom_id@[j] != ':',
            rsplit_once_spec(custom_id@, ':') == match rsplit_once_spec(
                custom_id@.subrange(0, k as int),
                ':',
            ) {
                Some((a, b)) => Some((a, b + custom_id@.subrange(k as int, n as int))),
                None => None,
            },
            k == 0 || custom_id@[k - 1] == ':',
        decreases k,
    {
        if custom_id.get_char(k - 1) == ':' {
            break;
        }
        proof {
            let u = custom_id@.subrange(0, k as int);
            assert(u.drop_last() =~= custom_id@.subrange(0, k - 1));
            assert(u.last() == custom_id@[k - 1]);
            assert(custom_id@.subrange(k - 1, n as int) =~= seq![custom_id@[k - 1]]
                + custom_id@.subrange(k as int, n as int));
            match rsplit_once_spec(custom_id@.subrange(0, k - 1), ':') {
                Some((a, b)) => {
                    assert(b.push(u.last()) + custom_id@.subrange(k as int, n as int) =~= b
                        + custom_id@.subrange(k - 1, n as int));
                },
                None => {},
            }
        }
        k = k - 1;
    }
    if k == 0 {
        return None;
    }
    proof {
        let u = custom_id@.subrange(0, k as int);
        assert(u.last() == ':');
        assert(u.drop_last() =~= custom_id@.subrange(0, k - 1));
        assert(seq![] + custom_id@.subrange(k as int, n as int) =~= custom_id@.subrange(
            k as int,
            n as int,
        ));
    }
    let action = custom_id.substring_char(0, k - 1);
    let index = custom_id.substring_char(k, n);
    match parse_usize(index) {
        Ok(i) => Some((action, i)),
        Err(_) => None,
    }
}

/// The custom id of a control button acting on pool bot `index`.
pub fn control_id(action: &str, index: usize) -> (r: String)
    ensures
        r@ == action@ + ":"@ + dec(index as nat),
{
    let mut out = owned(action);
    out.append(":");
    push_dec(&mut out, index as u64);
    out
}

proof fn lemma_rsplit_no_sep(s: Seq<char>, c: char)
    requires
        forall|j: int| 0 <= j < s.len() ==> s[j] != c,
    ensures
        rsplit_once_spec(s, c) is None,
    decreases s.len(),
{
    if s.len() > 0 {
        lemma_rsplit_no_sep(s.drop_last(), c);
    }
}

proof fn lemma_rsplit_suffix(a: Seq<char>, c: char, t: Seq<char>)
    requires
        forall|j: int| 0 <= j < t.len() ==> t[j] != c,
    ensures
        rsplit_once_spec(a.push(c) + t, c) == Some((a, t)),
    decreases t.len(),
{
    if t.len() == 0 {
        assert(a.push(c) + t =~= a.push(c));
        assert(a.push(c).drop_last() =~= a);
    } else {
        let t2 = t.drop_last();
        lemma_rsplit_suffix(a, c, t2);
        let s = a.push(c) + t;
        assert(s.drop_last() =~= a.push(c) + t2);
        assert(s.last() == t.last());
        assert(t2.push(t.last()) =~= t);
    }
}

proof fn lemma_dec_digits(n: nat)
    ensures
        forall|j: int| 0 <= j < dec(n).len() ==> crate::num::is_digit(#[trigger] dec(n)[j]),
        dec(n).len() >= 1,
    decreases n,
{
    if n >= 10 {
        lemma_dec_digits(n / 10);
        let d = dec(n / 10);
        assert forall|j: int| 0 <= j < dec(n).len() implies crate::num::is_digit(
            #[trigger] dec(n)[j],
        ) by {
            if j < d.len() {
                assert(dec(n)[j] == d[j]);
            }
        }
    }
}

proof fn lemma_fold_push(acc: nat, s: Seq<char>, c: char, max: nat, ov: crate::num::IntErrorKind)
    requires
        crate::num::fold_digits(acc, s, max, ov) is Ok,
    ensures
        crate::num::fold_digits(acc, s.push(c), max, ov) == crate::num::fold_digits(
            crate::num::fold_digits(acc, s, max, ov)->Ok_0,
            seq![c],
            max,
            ov,
        ),
    decreases s.len(),
{
    if s.len() > 0 {
        assert(s.push(c).drop_first() =~= s.drop_first().push(c));
        assert(s.push(c)[0] == s[0]);
        lemma_fold_push(acc * 10 + crate::num::digit_value(s[0]), s.drop_first(), c, max, ov);
    } else {
        assert(s.push(c) =~= seq![c]);
    }
}

proof fn lemma_digit(d: nat)
    requires
        d < 10,
    ensures
        crate::num::is_digit(crate::text::digit_char(d)),
        crate::num::digit_value(crate::text::digit_char(d)) == d,
{
}

proof fn lemma_parse_dec(n: nat, max: nat)
    requires
        n <= max,
    ensures
        crate::num::fold_digits(0, dec(n), max, crate::num::IntErrorKind::PosOverflow) == Ok::<
            nat,
            crate::num::IntErrorKind,
        >(n),
    decreases n,
{
    let ov = crate::num::IntErrorKind::PosOverflow;
    if n < 10 {
        let c = crate::text::digit_char(n);
        lemma_digit(n);
        assert(dec(n) == seq![c]);
        assert(seq![c].drop_first() =~= Seq::<char>::empty());
        assert(crate::num::fold_digits(n, Seq::<char>::empty(), max, ov) == Ok::<nat, crate::num::IntErrorKind>(n));
    } else {
        let c = crate::text::digit_char(n % 10);
        lemma_digit(n % 10);
        lemma_parse_dec(n / 10, max);
        assert(dec(n) == dec(n / 10).push(c));
        lemma_fold_push(0, dec(n / 10), c, max, ov);
        assert((n / 10) * 10 + n % 10 == n);
        assert(seq![c].drop_first() =~= Seq::<char>::empty());
        assert(crate::num::fold_digits(n, Seq::<char>::empty(), max, ov) == Ok::<nat, crate::num::IntErrorKind>(n));
        assert(crate::num::fold_digits(n / 10, seq![c], max, ov) == Ok::<nat, crate::num::IntErrorKind>(n));
    }
}

/// Law: a control id reads back as the action and index it was made from
/// (the index survives the round trip whatever the action holds).
pub proof fn control_id_round_trip(action: Seq<char>, index: nat)
    requires
        index <= usize::MAX,
    ensures
        parse_control_spec(action + ":"@ + dec(index)) == Some((action, index)),
{
    reveal_strlit(":");
    lemma_dec_digits(index);
    let d = dec(index);
    assert forall|j: int| 0 <= j < d.len() implies d[j] != ':' by {
        assert(crate::num::is_digit(d[j]));
    }
    assert(action + ":"@ + d =~= action.push(':') + d);
    lemma_rsplit_suffix(action, ':', d);
    lemma_parse_dec(index, usize::MAX as nat);
    assert(d[0] != '+' && d[0] != '-') by {
        assert(crate::num::is_digit(d[0]));
    }
}

/// The three control buttons of a playing bot, as `(custom id, label)`.
pub fn control_ids(index: usize) -> (r: (String, String, String))
    ensures
        r.0@ == "music_playpause:"@ + dec(index as nat),
        r.1@ == "music_skip:"@ + dec(index as nat),
        r.2@ == "music_stop:"@ + dec(index as nat),
{
    let a = control_id("music_playpause", index);
    let b = control_id("music_skip", index);
    let c = control_id("music_stop", index);
    proof {
        reveal_strlit("music_playpause");
        reveal_strlit("music_skip");
        reveal_strlit("music_stop");
        reveal_strlit("music_playpause:");
        reveal_strlit("music_skip:");
        reveal_strlit("music_stop:");
        reveal_strlit(":");
    }
    assert(a@ =~= "music_playpause:"@ + dec(index as nat));
    assert(b@ =~= "music_skip:"@ + dec(index as nat));
    assert(c@ =~= "music_stop:"@ + dec(index as nat));
    (a, b, c)
}

/// What a playback control button does.
#[derive(Clone, Copy, Debug, PartialEq, Eq, Structural)]
pub enum ControlAction {
    PlayPause,
    Skip,
    Stop,
    Unknown,
}

/// The action a control id's action part names.
pub fn control_action(action: &str) -> (r: ControlAction)
    ensures
        r == (if action@ == "music_skip"@ {
            ControlAction::Skip
        } else if action@ == "music_stop"@ {
            ControlAction::Stop
        } else if action@ == "music_playpause"@ {
            ControlAction::PlayPause
        } else {
            ControlAction::Unknown
        }),
{
    if str_eq(action, "music_skip") {
        ControlAction::Skip
    } else if str_eq(action, "music_stop") {
        ControlAction::Stop
    } else if str_eq(action, "music_playpause") {
        ControlAction::PlayPause
    } else {
        ControlAction::Unknown
    }
}

/// Why a control button press is refused before acting, checked in order:
/// the id did not parse, the press came from outside a server, the pool has
/// no bot of that index, or that bot has no call in the server.
pub fn control_refusal(parsed: bool, in_guild: bool, bot_exists: bool, call_live: bool) -> (r: Option<
    &'static str,
>)
    ensures
        match r {
            None => parsed && in_guild && bot_exists && call_live,
            Some(m) => m@ == (if !parsed {
                "Unknown control."@
            } else if !in_guild {
                "Use this in a server."@
            } else if !bot_exists {
                "That player is no longer available."@
            } else {
                "Nothing is playing."@
            }) && !(parsed && in_guild && bot_exists && call_live),
        },
{
    if !parsed {
        Some("Unknown control.")
    } else if !in_guild {
        Some("Use this in a server.")
    } else if !bot_exists {
        Some("That player is no longer available.")
    } else if !call_live {
        Some("Nothing is playing.")
    } else {
        None
    }
}

/// The acknowledgement of a control button: `toggled` is what a play/pause
/// press did (`Some(true)` paused, `Some(false)` resumed, `None` nothing was
/// playing); the other actions ignore it.
pub fn control_ack(action: ControlAction, toggled: Option<bool>) -> (r: &'static str)
    ensures
        r@ == match action {
            ControlAction::Skip => "⏭️ Skipped."@,
            ControlAction::Stop => "⏹️ Stopped."@,
            ControlAction::PlayPause => match toggled {
                Some(true) => "⏸️ Paused."@,
                Some(false) => "▶️ Resumed."@,
                None => "Nothing is playing."@,
            },
            ControlAction::Unknown => "Unknown control."@,
        },
{
    match action {
        ControlAction::Skip => "⏭️ Skipped.",
        ControlAction::Stop => "⏹️ Stopped.",
        ControlAction::PlayPause => match toggled {
            Some(true) => "⏸️ Paused.",
            Some(false) => "▶️ Resumed.",
            None => "Nothing is playing.",
        },
        ControlAction::Unknown => "Unknown control.",
    }
}

// ── Songs ───────────────────────────────────────────────────────────────────

/// The title shown for a song: a URL as is, else the file name of the path.
pub open spec fn song_title_spec(song: Seq<char>) -> Seq<char> {
    if is_http_url(song) {
        song
    } else {
        match file_name_spec(song) {
            Some(f) => f,
            None => song,
        }
    }
}

/// The title of a song given as a library path or a URL.
pub fn song_title(song: &str) -> (r: String)
    ensures
        r@ == song_title_spec(song@),
{
    if str_is_http_url(song) {
        owned(song)
    } else {
        match file_name(song) {
            Some(f) => owned(f),
            None => owned(song),
        }
    }
}

/// A library song path that tries to leave the library.
#[derive(Debug)]
pub struct InvalidPath;

/// The path of a library song relative to the music directory: leading `/`
/// are dropped, and any `..` is refused.
pub fn library_song_path(arg: &str) -> (r: Result<&str, InvalidPath>)
    ensures
        contains(arg@, ".."@) ==> r is Err,
        !contains(arg@, ".."@) ==> (r matches Ok(p) && p@ == trim_start_char(arg@, '/')),
{
    if str_contains(arg, "..") {
        return Err(InvalidPath);
    }
    Ok(str_trim_start_char(arg, '/'))
}

/// The reply to a play request.
pub fn play_reply(title: &str, was_empty: bool) -> (r: String)
    ensures
        r@ == (if was_empty {
            "🎵 Now playing: **"@
        } else {
            "➕ Added to queue: **"@
        }) + title@ + "**"@,
{
    let mut out = if was_empty {
        owned("🎵 Now playing: **")
    } else {
        owned("➕ Added to queue: **")
    };
    out.append(title);
    out.append("**");
    out
}

/// The reply to `/music queue` for a queue of `n` tracks.
pub fn queue_reply(n: usize) -> (r: String)
    ensures
        r@ == (if n == 0 {
            "The queue is empty."@
        } else {
            "🎶 "@ + dec(n as nat) + " track(s) in the queue."@
        }),
{
    if n == 0 {
        owned("The queue is empty.")
    } else {
        let mut out = owned("🎶 ");
        push_dec(&mut out, n as u64);
        out.append(" track(s) in the queue.");
        out
    }
}

/// The volume level of `/music volume`: the requested one (default 100),
/// clamped to 0-100.
pub fn volume_level(level: Option<i64>) -> (r: i64)
    ensures
        r == ({
            let v = match level {
                Some(l) => l,
                None => 100,
            };
            if v < 0 {
                0
            } else if v > 100 {
                100
            } else {
                v
            }
        }),
        0 <= r <= 100,
{
    let v = match level {
        Some(l) => l,
        None => 100,
    };
    if v < 0 {
        0
    } else if v > 100 {
        100
    } else {
        v
    }
}

/// The reply to `/music volume`.
pub fn volume_reply(level: i64) -> (r: String)
    ensures
        r@ == "🔊 Volume set to "@ + dec_int(level as int) + "%."@,
{
    let mut out = owned("🔊 Volume set to ");
    push_dec_i64(&mut out, level);
    out.append("%.");
    out
}

/// One minute of the idle watchdog: an empty queue adds a minute and the bot
/// leaves once three minutes pass; a busy queue resets the count.
pub fn idle_tick(idle_minutes: u32, queue_empty: bool) -> (r: (u32, bool))
    requires
        idle_minutes < u32::MAX,
    ensures
        (r.0 as nat, r.1) == idle_step(idle_minutes as nat, queue_empty),
{
    if queue_empty {
        let next = idle_minutes + 1;
        (next, next >= 3)
    } else {
        (0, false)
    }
}

/// The reply to `/admin whoami`.
pub fn whoami_reply(role: &str) -> (r: String)
    ensures
        r@ == "You are **"@ + role@ + "**."@,
{
    let mut out = owned("You are **");
    out.append(role);
    out.append("**.");
    out
}

/// The reply after setting a user's role.
pub fn role_set_reply(user_id: u64, role: &str) -> (r: String)
    ensures
        r@ == "✅ <@"@ + dec(user_id as nat) + "> is now **"@ + role@ + "**."@,
{
    let mut out = owned("✅ <@");
    push_dec(&mut out, user_id);
    out.append("> is now **");
    out.append(role);
    out.append("**.");
    out
}

/// The `/admin list` reply for `(discord id, role)` rows.
pub open spec fn roles_list_spec(rows: Seq<(i64, String)>) -> Seq<char>
    decreases rows.len(),
{
    if rows.len() == 0 {
        "**Roles:**\n"@
    } else {
        roles_list_spec(rows.drop_last()) + "• <@"@ + dec_int(rows.last().0 as int) + "> — **"@
            + rows.last().1@ + "**\n"@
    }
}

/// The list of users with elevated or restricted roles.
pub fn roles_list_reply(rows: &Vec<(i64, String)>) -> (r: String)
    ensures
        rows@.len() == 0 ==> r@
            == "No users with elevated/restricted roles. Everyone defaults to **user**; the server owner is always **admin**."@,
        rows@.len() > 0 ==> r@ == roles_list_spec(rows@),
{
    let n = rows.len();
    if n == 0 {
        return owned(
            "No users with elevated/restricted roles. Everyone defaults to **user**; the server owner is always **admin**.",
        );
    }
    let mut out = owned("**Roles:**\n");
    let mut i: usize = 0;
    while i < n
        invariant
            n == rows@.len(),
            i <= n,
            out@ == roles_list_spec(rows@.subrange(0, i as int)),
        decreases n - i,
    {
        let ghost before = out@;
        out.append("• <@");
        push_dec_i64(&mut out, rows[i].0);
        out.append("> — **");
        out.append(rows[i].1.as_str());
        out.append("**\n");
        proof {
            let nxt = rows@.subrange(0, i + 1);
            assert(nxt.drop_last() =~= rows@.subrange(0, i as int));
            assert(nxt.last() == rows@[i as int]);
        }
        assert(out@ =~= roles_list_spec(rows@.subrange(0, i + 1)));
        i = i + 1;
    }
    assert(rows@.subrange(0, n as int) =~= rows@);
    out
}

/// The reply after queueing a download from Discord.
pub fn download_queued_reply(id: i64, provider: &str) -> (r: String)
    ensures
        r@ == "📥 Queued download **#"@ + dec_int(id as int) + "** ("@ + provider@
            + "). It'll appear in the dashboard when it's done."@,
{
    let mut out = owned("📥 Queued download **#");
    push_dec_i64(&mut out, id);
    out.append("** (");
    out.append(provider);
    out.append("). It'll appear in the dashboard when it's done.");
    out
}

/// The reply after configuring a channel's auto-play.
pub fn autoplay_set_reply(channel_id: u64, title: &str) -> (r: String)
    ensures
        r@ == "✅ When someone joins <#"@ + dec(channel_id as nat) + ">, I'll play **"@ + title@
            + "**."@,
{
    let mut out = owned("✅ When someone joins <#");
    push_dec(&mut out, channel_id);
    out.append(">, I'll play **");
    out.append(title);
    out.append("**.");
    out
}

/// The reply after clearing a channel's auto-play (`removed` rows deleted).
pub fn autoplay_clear_reply(channel_id: u64, removed: u64) -> (r: String)
    ensures
        r@ == (if removed > 0 {
            "🗑️ Removed auto-play for <#"@
        } else {
            "No auto-play was set for <#"@
        }) + dec(channel_id as nat) + ">."@,
{
    let mut out = if removed > 0 {
        owned("🗑️ Removed auto-play for <#")
    } else {
        owned("No auto-play was set for <#")
    };
    push_dec(&mut out, channel_id);
    out.append(">.");
    out
}

/// The auto-play list for `(channel id, title)` rows.
pub open spec fn autoplay_list_spec(rows: Seq<(i64, Option<String>)>) -> Seq<char>
    decreases rows.len(),
{
    if rows.len() == 0 {
        "**Auto-play channels:**\n"@
    } else {
        autoplay_list_spec(rows.drop_last()) + "• <#"@ + dec_int(rows.last().0 as int) + "> → "@
            + match rows.last().1 {
            Some(t) => t@,
            None => "(unknown)"@,
        } + "\n"@
    }
}

/// The reply to `/autoplay list`.
pub fn autoplay_list_reply(rows: &Vec<(i64, Option<String>)>) -> (r: String)
    ensures
        rows@.len() == 0 ==> r@ == "No auto-play channels configured yet. Use `/autoplay set`."@,
        rows@.len() > 0 ==> r@ == autoplay_list_spec(rows@),
{
    let n = rows.len();
    if n == 0 {
        return owned("No auto-play channels configured yet. Use `/autoplay set`.");
    }
    let mut out = owned("**Auto-play channels:**\n");
    let mut i: usize = 0;
    while i < n
        invariant
            n == rows@.len(),
            i <= n,
            out@ == autoplay_list_spec(rows@.subrange(0, i as int)),
        decreases n - i,
    {
        out.append("• <#");
        push_dec_i64(&mut out, rows[i].0);
        out.append("> → ");
        match &rows[i].1 {
            Some(t) => out.append(t.as_str()),
            None => out.append("(unknown)"),
        }
        out.append("\n");
        proof {
            let nxt = rows@.subrange(0, i + 1);
            assert(nxt.drop_last() =~= rows@.subrange(0, i as int));
            assert(nxt.last() == rows@[i as int]);
        }
        assert(out@ =~= autoplay_list_spec(rows@.subrange(0, i + 1)));
        i = i + 1;
    }
    assert(rows@.subrange(0, n as int) =~= rows@);
    out
}

/// The reply when a swarm starts.
pub fn swarm_reply(channel_id: u64, bots: usize) -> (r: String)
    ensures
        r@ == "🚀 Swarming <#"@ + dec(channel_id as nat) + "> with "@ + dec(bots as nat)
            + " bots..."@,
{
    let mut out = owned("🚀 Swarming <#");
    push_dec(&mut out, channel_id);
    out.append("> with ");
    push_dec(&mut out, bots as u64);
    out.append(" bots...");
    out
}

} // verus!

verus! {

/// Law: the components an uptime shows recompose the duration
/// (`d·86400 + h·3600 + m·60 + s`), with hours below 24, minutes and seconds
/// below 60.
pub proof fn uptime_parts_recompose(s: nat)
    ensures
        (s / 86400) * 86400 + ((s % 86400) / 3600) * 3600 + ((s % 3600) / 60) * 60 + s % 60 == s,
        (s % 86400) / 3600 < 24,
        (s % 3600) / 60 < 60,
        s % 60 < 60,
{
    let x = s as int;
    vstd::arithmetic::div_mod::lemma_fundamental_div_mod(x, 86400);
    vstd::arithmetic::div_mod::lemma_fundamental_div_mod(x % 86400, 3600);
    vstd::arithmetic::div_mod::lemma_fundamental_div_mod(x % 3600, 60);
    vstd::arithmetic::div_mod::lemma_mod_mod(x, 3600, 24);
    vstd::arithmetic::div_mod::lemma_mod_mod(x, 60, 60);
    assert(3600 * 24 == 86400);
    assert(60 * 60 == 3600);
    assert(x % 86400 < 86400);
    assert((x % 86400) / 3600 < 24) by {
        vstd::arithmetic::div_mod::lemma_div_by_multiple_is_strongly_ordered(x % 86400, 86400, 24, 3600);
    }
    assert((x % 3600) / 60 < 60) by {
        vstd::arithmetic::div_mod::lemma_div_by_multiple_is_strongly_ordered(x % 3600, 3600, 60, 60);
    }
}

/// Law: every capped reply fits Discord's 2000-character limit.
pub proof fn capped_fits(s: Seq<char>)
    ensures
        cap_spec(s).len() <= 1901,
        s.len() <= 1900 ==> cap_spec(s) == s,
{
    reveal_strlit("…");
}

/// Law: a reply longer than 1900 chars keeps its first 1900 chars, in
/// place, and gains exactly one more, `…`; a shorter reply is unchanged.
pub proof fn capped_keeps_head(s: Seq<char>)
    ensures
        s.len() > 1900 ==> cap_spec(s).len() == 1901 && cap_spec(s)[1900] == '\u{2026}' && forall|
            i: int,
        | 0 <= i < 1900 ==> #[trigger] cap_spec(s)[i] == s[i],
        s.len() > 1900 ==> cap_spec(s) == s.subrange(0, 1900).push('\u{2026}'),
        s.len() <= 1900 ==> cap_spec(s) == s,
{
    reveal_strlit("…");
    if s.len() > 1900 {
        assert(cap_spec(s) =~= s.subrange(0, 1900).push('\u{2026}'));
    }
}

/// The idle watchdog's state after one minute.
pub open spec fn idle_step(idle: nat, queue_empty: bool) -> (nat, bool) {
    if queue_empty {
        (idle + 1, idle + 1 >= 3)
    } else {
        (0, false)
    }
}

/// Law: a bot leaves after three consecutive minutes with an empty queue,
/// not before, and any minute with a queue resets the count.
pub proof fn idle_leaves_after_three_minutes()
    ensures
        idle_step(0, true) == (1nat, false),
        idle_step(1, true) == (2nat, false),
        idle_step(2, true) == (3nat, true),
        forall|k: nat| #[trigger] idle_step(k, false) == (0nat, false),
        forall|k: nat| k >= 2 ==> #[trigger] idle_step(k, true).1,
{
}

/// Law: listing one more row adds its line at the end: the user mention and
/// the role in bold.
pub proof fn roles_list_push(rows: Seq<(i64, String)>, row: (i64, String))
    ensures
        roles_list_spec(rows.push(row)) == roles_list_spec(rows) + "• <@"@ + dec_int(row.0 as int)
            + "> — **"@ + row.1@ + "**\n"@,
{
    assert(rows.push(row).drop_last() =~= rows);
}

/// Law: listing one more row adds its line at the end: the channel mention and
/// the title (or `(unknown)`).
pub proof fn autoplay_list_push(rows: Seq<(i64, Option<String>)>, row: (i64, Option<String>))
    ensures
        autoplay_list_spec(rows.push(row)) == autoplay_list_spec(rows) + "• <#"@ + dec_int(
            row.0 as int,
        ) + "> → "@ + (match row.1 {
            Some(t) => t@,
            None => "(unknown)"@,
        }) + "\n"@,
{
    assert(rows.push(row).drop_last() =~= rows);
}

} // verus!
