//! Scheduled messages, reminders and media digests: what may be created,
//! how a due schedule is fired and advanced, and the `/schedule` replies.

use vstd::prelude::*;
use crate::text::{dec, dec_int, owned, push_dec, push_dec_i64, str_eq, str_trim, trim};

verus! {

/// `GET /api/schedules` (optionally for one guild).
#[derive(Debug)]
pub struct ListQuery {
    pub guild_id: Option<i64>,
}

/// `POST /api/schedules`.
#[derive(Debug)]
pub struct CreateSchedule {
    pub guild_id: i64,
    pub channel_id: i64,
    pub kind: String,
    pub message: Option<String>,
    /// Repeat interval; `None` = one-off.
    pub interval_seconds: Option<i64>,
    /// When the next run is due, in minutes from now (default 1).
    pub minutes: Option<i64>,
}

/// `POST /api/schedules/{id}/enabled`.
#[derive(Debug)]
pub struct Toggle {
    pub enabled: bool,
}

/// The kinds of schedule the scheduler can fire.
pub open spec fn valid_kind_spec(kind: Seq<char>) -> bool {
    kind == "message"@ || kind == "digest_sonarr"@ || kind == "digest_radarr"@
}

/// Whether `kind` is a schedule kind (400 `invalid_kind` otherwise).
pub fn valid_kind(kind: &str) -> (r: bool)
    ensures
        r == valid_kind_spec(kind@),
{
    str_eq(kind, "message") || str_eq(kind, "digest_sonarr") || str_eq(kind, "digest_radarr")
}

/// Minutes until a schedule is first due: the requested ones (or
/// `default`), at least one.
pub fn due_minutes(minutes: Option<i64>, default: i64) -> (r: i64)
    requires
        default >= 1,
    ensures
        r == ({
            let m = match minutes {
                Some(v) => v,
                None => default,
            };
            if m < 1 {
                1
            } else {
                m
            }
        }),
        r >= 1,
{
    let m = match minutes {
        Some(v) => v,
        None => default,
    };
    if m < 1 {
        1
    } else {
        m
    }
}

/// What happens to a schedule after it fired.
#[derive(Clone, Copy, Debug, PartialEq, Eq, Structural)]
pub enum Advance {
    /// Due again this many seconds from now.
    Reschedule(i64),
    /// A one-off (or non-positive interval): disable it.
    Disable,
}

/// Advance recurring schedules; disable one-offs.
pub fn advance(interval_seconds: Option<i64>) -> (r: Advance)
    ensures
        r == match interval_seconds {
            Some(iv) => if iv > 0 {
                Advance::Reschedule(iv)
            } else {
                Advance::Disable
            },
            None => Advance::Disable,
        },
{
    match interval_seconds {
        Some(iv) => {
            if iv > 0 {
                Advance::Reschedule(iv)
            } else {
                Advance::Disable
            }
        },
        None => Advance::Disable,
    }
}

/// What firing a schedule posts.
#[derive(Clone, Copy, Debug, PartialEq, Eq, Structural)]
pub enum FireKind {
    /// Its message (empty when none).
    Message,
    /// The Sonarr download digest.
    SonarrDigest,
    /// The Radarr download digest.
    RadarrDigest,
    /// An unknown kind: a note saying so.
    Unknown,
}

/// What a schedule of `kind` posts.
pub fn fire_kind(kind: &str) -> (r: FireKind)
    ensures
        r == (if kind@ == "message"@ {
            FireKind::Message
        } else if kind@ == "digest_sonarr"@ {
            FireKind::SonarrDigest
        } else if kind@ == "digest_radarr"@ {
            FireKind::RadarrDigest
        } else {
            FireKind::Unknown
        }),
{
    if str_eq(kind, "message") {
        FireKind::Message
    } else if str_eq(kind, "digest_sonarr") {
        FireKind::SonarrDigest
    } else if str_eq(kind, "digest_radarr") {
        FireKind::RadarrDigest
    } else {
        FireKind::Unknown
    }
}

/// The note posted for an unknown schedule kind.
pub fn unknown_kind_text(kind: &str) -> (r: String)
    ensures
        r@ == "(unknown schedule kind: "@ + kind@ + ")"@,
{
    let mut out = owned("(unknown schedule kind: ");
    out.append(kind);
    out.append(")");
    out
}

/// The label of a digest: `📺 **Sonarr**` or `🎬 **Radarr**`.
pub fn digest_label(radarr: bool) -> (r: &'static str)
    ensures
        r@ == (if radarr {
            "🎬 **Radarr**"@
        } else {
            "📺 **Sonarr**"@
        }),
{
    if radarr {
        "🎬 **Radarr**"
    } else {
        "📺 **Sonarr**"
    }
}

/// Whether fired content is worth posting (blank content is skipped).
pub fn should_post(content: &str) -> (r: bool)
    ensures
        r == (trim(content@).len() > 0),
{
    str_trim(content).unicode_len() > 0
}

/// A schedule to store, as a `/schedule` subcommand describes it.
#[derive(Debug)]
pub struct ScheduleDraft {
    pub kind: &'static str,
    pub message: Option<String>,
    pub interval_seconds: Option<i64>,
    pub minutes: i64,
}

/// Why a `/schedule` request is refused.
#[derive(Clone, Copy, Debug, PartialEq, Eq, Structural)]
pub enum DraftError {
    /// No channel was picked.
    NoChannel,
    /// A reminder without text.
    NoReminderText,
    /// A recurring message without text.
    NoMessageText,
}

impl DraftError {
    /// The ephemeral reply of the refusal.
    pub fn message(&self) -> (r: &'static str)
        ensures
            r@ == match *self {
                DraftError::NoChannel => "Pick a channel."@,
                DraftError::NoReminderText => "Give me some reminder text."@,
                DraftError::NoMessageText => "Give me some message text."@,
            },
    {
        match self {
            DraftError::NoChannel => "Pick a channel.",
            DraftError::NoReminderText => "Give me some reminder text.",
            DraftError::NoMessageText => "Give me some message text.",
        }
    }
}

/// `/schedule reminder`: a one-off message in this channel, due in the given
/// minutes (default 1, at least 1).
pub fn reminder_draft(minutes: Option<i64>, text: Option<&str>) -> (r: Result<
    ScheduleDraft,
    DraftError,
>)
    ensures
        match text {
            Some(t) if t@.len() > 0 => r matches Ok(d) && d.kind@ == "message"@ && (d.message
                matches Some(m) && m@ == t@) && d.interval_seconds is None && d.minutes == (
            match minutes {
                Some(v) => if v < 1 {
                    1
                } else {
                    v
                },
                None => 1,
            }),
            _ => r == Err::<ScheduleDraft, DraftError>(DraftError::NoReminderText),
        },
{
    let m = due_minutes(minutes, 1);
    proof {
        reveal_strlit("");
    }
    let t = match text {
        Some(t) => t,
        None => "",
    };
    if t.unicode_len() == 0 {
        return Err(DraftError::NoReminderText);
    }
    Ok(ScheduleDraft { kind: "message", message: Some(owned(t)), interval_seconds: None, minutes: m })
}

/// `/schedule recurring`: a message to a channel every N minutes
/// (default 60, at least 1).
pub fn recurring_draft(has_channel: bool, minutes: Option<i64>, text: Option<&str>) -> (r: Result<
    ScheduleDraft,
    DraftError,
>)
    requires
        has_channel && (text matches Some(t) && t@.len() > 0) ==> match minutes {
            Some(v) => v <= i64::MAX / 60,
            None => true,
        },
    ensures
        !has_channel ==> r == Err::<ScheduleDraft, DraftError>(DraftError::NoChannel),
        has_channel ==> match text {
            Some(t) if t@.len() > 0 => {
                let m = match minutes {
                    Some(v) => if v < 1 {
                        1
                    } else {
                        v
                    },
                    None => 60,
                };
                r matches Ok(d) && d.kind@ == "message"@ && (d.message matches Some(x) && x@
                    == t@) && d.interval_seconds == Some((m * 60) as i64) && d.minutes == m
            },
            _ => r == Err::<ScheduleDraft, DraftError>(DraftError::NoMessageText),
        },
{
    if !has_channel {
        return Err(DraftError::NoChannel);
    }
    let m = due_minutes(minutes, 60);
    proof {
        reveal_strlit("");
    }
    let t = match text {
        Some(t) => t,
        None => "",
    };
    if t.unicode_len() == 0 {
        return Err(DraftError::NoMessageText);
    }
    Ok(
        ScheduleDraft {
            kind: "message",
            message: Some(owned(t)),
            interval_seconds: Some(m * 60),
            minutes: m,
        },
    )
}

/// `/schedule digest`: a service digest every N minutes (default 720, at
/// least 1); any service other than `radarr` means Sonarr.
pub fn digest_draft(has_channel: bool, service: Option<&str>, minutes: Option<i64>) -> (r: Result<
    ScheduleDraft,
    DraftError,
>)
    requires
        has_channel ==> match minutes {
            Some(v) => v <= i64::MAX / 60,
            None => true,
        },
    ensures
        !has_channel ==> r == Err::<ScheduleDraft, DraftError>(DraftError::NoChannel),
        has_channel ==> {
            let m = match minutes {
                Some(v) => if v < 1 {
                    1
                } else {
                    v
                },
                None => 720,
            };
            let radarr = match service {
                Some(s) => s@ == "radarr"@,
                None => false,
            };
            r matches Ok(d) && d.kind@ == (if radarr {
                "digest_radarr"@
            } else {
                "digest_sonarr"@
            }) && d.message is None && d.interval_seconds == Some((m * 60) as i64) && d.minutes
                == m
        },
{
    if !has_channel {
        return Err(DraftError::NoChannel);
    }
    let m = due_minutes(minutes, 720);
    let radarr = match service {
        Some(s) => str_eq(s, "radarr"),
        None => false,
    };
    let kind = if radarr {
        "digest_radarr"
    } else {
        "digest_sonarr"
    };
    Ok(ScheduleDraft { kind, message: None, interval_seconds: Some(m * 60), minutes: m })
}

/// The reply after a reminder is set.
pub fn reminder_reply(minutes: i64) -> (r: String)
    ensures
        r@ == "⏰ Reminder set — I'll post that here in **"@ + dec_int(minutes as int) + " min**."@,
{
    let mut out = owned("⏰ Reminder set — I'll post that here in **");
    push_dec_i64(&mut out, minutes);
    out.append(" min**.");
    out
}

/// The reply after a recurring message is set.
pub fn recurring_reply(channel_id: u64, minutes: i64) -> (r: String)
    ensures
        r@ == "🔁 I'll post that in <#"@ + dec(channel_id as nat) + "> every **"@ + dec_int(
            minutes as int,
        ) + " min**."@,
{
    let mut out = owned("🔁 I'll post that in <#");
    push_dec(&mut out, channel_id);
    out.append("> every **");
    push_dec_i64(&mut out, minutes);
    out.append(" min**.");
    out
}

/// The reply after a digest is set.
pub fn digest_reply(service: &str, channel_id: u64, minutes: i64) -> (r: String)
    ensures
        r@ == "📡 I'll post the **"@ + service@ + "** digest in <#"@ + dec(channel_id as nat)
            + "> every **"@ + dec_int(minutes as int) + " min**."@,
{
    let mut out = owned("📡 I'll post the **");
    out.append(service);
    out.append("** digest in <#");
    push_dec(&mut out, channel_id);
    out.append("> every **");
    push_dec_i64(&mut out, minutes);
    out.append(" min**.");
    out
}

/// The reply after deleting a schedule (`removed` rows deleted).
pub fn delete_reply(id: i64, removed: u64) -> (r: String)
    ensures
        r@ == (if removed > 0 {
            "🗑️ Deleted schedule **#"@ + dec_int(id as int) + "**."@
        } else {
            "No schedule **#"@ + dec_int(id as int) + "** in this server."@
        }),
{
    if removed > 0 {
        let mut out = owned("🗑️ Deleted schedule **#");
        push_dec_i64(&mut out, id);
        out.append("**.");
        out
    } else {
        let mut out = owned("No schedule **#");
        push_dec_i64(&mut out, id);
        out.append("** in this server.");
        out
    }
}

/// A stored schedule as `/schedule list` shows it.
#[derive(Debug)]
pub struct ScheduleLine {
    pub id: i64,
    pub channel_id: i64,
    pub kind: String,
    pub interval_seconds: Option<i64>,
    pub next_unix: i64,
}

/// Integer division truncating toward zero, as Rust's `/` does.
pub open spec fn div_trunc(a: int, b: int) -> int {
    if a >= 0 {
        a / b
    } else {
        -((-a) / b)
    }
}

/// The line of one schedule.
pub open spec fn schedule_line_spec(l: ScheduleLine) -> Seq<char> {
    "**#"@ + dec_int(l.id as int) + "** · <#"@ + dec_int(l.channel_id as int) + "> · "@ + (if l.kind@
        == "digest_sonarr"@ {
        "Sonarr digest"@
    } else if l.kind@ == "digest_radarr"@ {
        "Radarr digest"@
    } else {
        "message"@
    }) + " · "@ + (match l.interval_seconds {
        Some(iv) => "every "@ + dec_int(div_trunc(iv as int, 60)) + "m"@,
        None => "once"@,
    }) + " · next <t:"@ + dec_int(l.next_unix as int) + ":R>\n"@
}

fn schedule_line(l: &ScheduleLine) -> (r: String)
    ensures
        r@ == schedule_line_spec(*l),
{
    let mut out = owned("**#");
    push_dec_i64(&mut out, l.id);
    out.append("** · <#");
    push_dec_i64(&mut out, l.channel_id);
    out.append("> · ");
    if str_eq(l.kind.as_str(), "digest_sonarr") {
        out.append("Sonarr digest");
    } else if str_eq(l.kind.as_str(), "digest_radarr") {
        out.append("Radarr digest");
    } else {
        out.append("message");
    }
    out.append(" · ");
    match l.interval_seconds {
        Some(iv) => {
            out.append("every ");
            let q: i64 = if iv >= 0 {
                ((iv as u64) / 60) as i64
            } else {
                let mag: u64 = ((-(iv + 1)) as u64) + 1;
                -((mag / 60) as i64)
            };
            assert(q == div_trunc(iv as int, 60));
            push_dec_i64(&mut out, q);
            out.append("m");
        },
        None => out.append("once"),
    }
    out.append(" · next <t:");
    push_dec_i64(&mut out, l.next_unix);
    out.append(":R>\n");
    out
}

/// The lines of the first `k` schedules.
pub open spec fn schedule_lines(ls: Seq<ScheduleLine>, k: int) -> Seq<char>
    decreases k,
{
    if k <= 0 {
        seq![]
    } else {
        schedule_lines(ls, k - 1) + schedule_line_spec(ls[k - 1])
    }
}

/// The reply to `/schedule list`.
pub fn schedules_reply(ls: &Vec<ScheduleLine>) -> (r: String)
    ensures
        ls@.len() == 0 ==> r@ == "No schedules set. Use `/schedule reminder`, `recurring`, or `digest`."@,
        ls@.len() > 0 ==> r@ == "🗓️ **Schedules:**\n"@ + schedule_lines(ls@, ls@.len() as int),
{
    let n = ls.len();
    if n == 0 {
        return owned("No schedules set. Use `/schedule reminder`, `recurring`, or `digest`.");
    }
    let mut out = owned("🗓️ **Schedules:**\n");
    let ghost head = out@;
    let mut i: usize = 0;
    while i < n
        invariant
            n == ls@.len(),
            i <= n,
            out@ == head + schedule_lines(ls@, i as int),
        decreases n - i,
    {
        let line = schedule_line(&ls[i]);
        out.append(line.as_str());
        assert(out@ =~= head + schedule_lines(ls@, i + 1));
        i = i + 1;
    }
    out
}

/// Law: the line of schedule `k` comes right after the lines of the
/// schedules before it.
pub proof fn schedule_lines_step(ls: Seq<ScheduleLine>, k: int)
    requires
        0 <= k < ls.len(),
    ensures
        schedule_lines(ls, k + 1) == schedule_lines(ls, k) + schedule_line_spec(ls[k]),
{
}

/// Law: the first `k` schedule lines depend on the first `k` items alone, in order.
pub proof fn schedule_lines_prefix(a: Seq<ScheduleLine>, b: Seq<ScheduleLine>, k: int)
    requires
        0 <= k <= a.len(),
        k <= b.len(),
        a.subrange(0, k) == b.subrange(0, k),
    ensures
        schedule_lines(a, k) == schedule_lines(b, k),
    decreases k,
{
    if k > 0 {
        assert(a.subrange(0, k - 1) =~= a.subrange(0, k).subrange(0, k - 1));
        assert(b.subrange(0, k - 1) =~= b.subrange(0, k).subrange(0, k - 1));
        schedule_lines_prefix(a, b, k - 1);
        assert(a[k - 1] == a.subrange(0, k)[k - 1]);
        assert(b[k - 1] == b.subrange(0, k)[k - 1]);
    }
}

/// Law: the schedule kinds are exactly `message`, `digest_sonarr` and
/// `digest_radarr`.
pub proof fn schedule_kinds_are_the_three(kind: Seq<char>)
    ensures
        valid_kind_spec(kind) <==> (kind == seq!['m', 'e', 's', 's', 'a', 'g', 'e']
            || kind == seq!['d', 'i', 'g', 'e', 's', 't', '_', 's', 'o', 'n', 'a', 'r', 'r']
            || kind == seq!['d', 'i', 'g', 'e', 's', 't', '_', 'r', 'a', 'd', 'a', 'r', 'r']),
{
    reveal_strlit("message");
    assert("message"@ =~= seq!['m', 'e', 's', 's', 'a', 'g', 'e']);
    reveal_strlit("digest_sonarr");
    assert("digest_sonarr"@ =~= seq!['d', 'i', 'g', 'e', 's', 't', '_', 's', 'o', 'n', 'a', 'r', 'r']);
    reveal_strlit("digest_radarr");
    assert("digest_radarr"@ =~= seq!['d', 'i', 'g', 'e', 's', 't', '_', 'r', 'a', 'd', 'a', 'r', 'r']);
}

} // verus!
