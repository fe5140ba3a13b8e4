//! The download worker: reading yt-dlp's output, naming the saved file, and
//! the notifications sent when a download finishes or fails.

use vstd::prelude::*;
use crate::paths::{file_name, file_name_spec};
use crate::text::{
    dec, dec_int, lemma_split_len, owned, push_dec, push_dec_i64, split_char, str_trim,
    str_trim_end_char, trim, trim_end_char,
};

verus! {

/// The non-blank lines among `pieces`, each trimmed.
pub open spec fn nonblank(pieces: Seq<Seq<char>>) -> Seq<Seq<char>>
    decreases pieces.len(),
{
    if pieces.len() == 0 {
        seq![]
    } else if trim(pieces.last()).len() > 0 {
        nonblank(pieces.drop_last()).push(trim(pieces.last()))
    } else {
        nonblank(pieces.drop_last())
    }
}

/// The trimmed, non-blank lines of `s` (`s.lines().map(str::trim)` without
/// the empty ones).
pub open spec fn nonblank_lines(s: Seq<char>) -> Seq<Seq<char>> {
    nonblank(split_char(s, '\n'))
}

/// yt-dlp printed nothing usable.
#[derive(Debug)]
pub struct NoOutput;

impl NoOutput {
    /// `yt-dlp produced no output`.
    pub fn message(&self) -> (r: &'static str)
        ensures
            r@ == "yt-dlp produced no output"@,
    {
        "yt-dlp produced no output"
    }
}

/// What yt-dlp's printed lines say: a single line is the file path (the
/// title is then `Untitled`); otherwise the first line is the title and the
/// last one the path.
pub open spec fn ytdlp_result_spec(stdout: Seq<char>) -> Option<(Seq<char>, Seq<char>)> {
    let ls = nonblank_lines(stdout);
    if ls.len() == 0 {
        None
    } else if ls.len() == 1 {
        Some(("Untitled"@, ls[0]))
    } else {
        Some((ls[0], ls.last()))
    }
}

/// Read `(title, absolute path)` from yt-dlp's standard output.
pub fn parse_ytdlp_output(stdout: &str) -> (r: Result<(String, String), NoOutput>)
    ensures
        match ytdlp_result_spec(stdout@) {
            Some((t, p)) => r matches Ok(x) && x.0@ == t && x.1@ == p,
            None => r is Err,
        },
{
    let n = stdout.unicode_len();
    let mut start: usize = 0;
    let mut i: usize = 0;
    let mut count: usize = 0;
    let mut first: String = String::new();
    let mut last: String = String::new();
    let ghost mut done: Seq<Seq<char>> = seq![];
    proof {
        assert(stdout@.subrange(0, 0) =~= seq![]);
    }
    while i < n
        invariant
            n == stdout@.len(),
            start <= i <= n,
            count <= i,
            split_char(stdout@.subrange(0, i as int), '\n') == done.push(
                stdout@.subrange(start as int, i as int),
            ),
            count == (if nonblank(done).len() >= 2 {
                2
            } else {
                nonblank(done).len()
            }),
            count > 0 ==> first@ == nonblank(done)[0] && last@ == nonblank(done).last(),
        decreases n - i,
    {
        let c = stdout.get_char(i);
        let ghost pre = stdout@.subrange(0, i as int);
        let ghost nxt = stdout@.subrange(0, i + 1);
        assert(nxt.drop_last() =~= pre);
        assert(nxt.last() == c);
        if c == '\n' {
            let piece = stdout.substring_char(start, i);
            let t = str_trim(piece);
            let ghost d2 = done.push(stdout@.subrange(start as int, i as int));
            assert(d2.drop_last() =~= done);
            if t.unicode_len() > 0 {
                if count == 0 {
                    first = owned(t);
                }
                last = owned(t);
                if count < 2 {
                    count = count + 1;
                }
                assert(nonblank(d2) == nonblank(done).push(t@));
            }
            proof {
                done = d2;
                assert(stdout@.subrange(i + 1, i + 1) =~= seq![]);
            }
            start = i + 1;
        } else {
            proof {
                lemma_split_len(pre, '\n');
                let r = split_char(pre, '\n');
                assert(stdout@.subrange(start as int, i + 1) =~= stdout@.subrange(
                    start as int,
                    i as int,
                ).push(c));
                assert(r.update(r.len() - 1, r.last().push(c)) =~= done.push(
                    stdout@.subrange(start as int, i + 1),
                ));
            }
        }
        i = i + 1;
    }
    assert(stdout@.subrange(0, n as int) =~= stdout@);
    let piece = stdout.substring_char(start, n);
    let t = str_trim(piece);
    let ghost d2 = done.push(stdout@.subrange(start as int, n as int));
    assert(d2.drop_last() =~= done);
    if t.unicode_len() > 0 {
        if count == 0 {
            first = owned(t);
        }
        last = owned(t);
        if count < 2 {
            count = count + 1;
        }
        assert(nonblank(d2) == nonblank(done).push(t@));
    }
    if count == 0 {
        Err(NoOutput)
    } else if count == 1 {
        Ok((owned("Untitled"), last))
    } else {
        Ok((first, last))
    }
}

/// The text after the last `c` in `s` (all of `s` when there is none).
pub open spec fn after_last(s: Seq<char>, c: char) -> Seq<char>
    decreases s.len(),
{
    if s.len() == 0 {
        s
    } else if s.last() == c {
        seq![]
    } else {
        after_last(s.drop_last(), c).push(s.last())
    }
}

/// The error reported when yt-dlp fails: its last stderr line.
pub open spec fn ytdlp_failure_spec(stderr: Seq<char>) -> Seq<char> {
    "yt-dlp failed: "@ + if trim(stderr).len() == 0 {
        "unknown yt-dlp error"@
    } else {
        after_last(trim(stderr), '\n')
    }
}

/// The error of a failed yt-dlp run, from its standard error.
pub fn ytdlp_failure(stderr: &str) -> (r: String)
    ensures
        r@ == ytdlp_failure_spec(stderr@),
{
    let t = str_trim(stderr);
    let n = t.unicode_len();
    let mut out = owned("yt-dlp failed: ");
    if n == 0 {
        out.append("unknown yt-dlp error");
        return out;
    }
    let mut k: usize = n;
    assert(t@.subrange(0, n as int) =~= t@);
    assert(after_last(t@, '\n') =~= after_last(t@.subrange(0, n as int), '\n') + t@.subrange(
        n as int,
        n as int,
    ));
    while k > 0
        invariant
            n == t@.len(),
            k <= n,
            after_last(t@, '\n') == after_last(t@.subrange(0, k as int), '\n') + t@.subrange(
                k as int,
                n as int,
            ),
        ensures
            k <= n,
            after_last(t@, '\n') == after_last(t@.subrange(0, k as int), '\n') + t@.subrange(
                k as int,
                n as int,
            ),
            k == 0 || t@[k - 1] == '\n',
        decreases k,
    {
        if t.get_char(k - 1) == '\n' {
            break;
        }
        proof {
            let u = t@.subrange(0, k as int);
            assert(u.drop_last() =~= t@.subrange(0, k - 1));
            assert(u.last() == t@[k - 1]);
            assert(after_last(u, '\n') == after_last(u.drop_last(), '\n').push(u.last()));
            assert(t@.subrange(k - 1, n as int) =~= seq![t@[k - 1]] + t@.subrange(
                k as int,
                n as int,
            ));
            assert(after_last(t@.subrange(0, k - 1), '\n') + t@.subrange(k - 1, n as int)
                =~= after_last(u.drop_last(), '\n').push(u.last()) + t@.subrange(k as int, n as int));
        }
        k = k - 1;
    }
    proof {
        let u = t@.subrange(0, k as int);
        if k > 0 {
            assert(u.last() == t@[k - 1]);
        }
        assert(after_last(u, '\n').len() == 0);
        assert(after_last(t@, '\n') =~= t@.subrange(k as int, n as int));
    }
    out.append(t.substring_char(k, n));
    out
}

/// The name a finished download is recorded under: the file name of its
/// path, else the path itself.
pub fn saved_file_name(abs: &str) -> (r: String)
    ensures
        r@ == match file_name_spec(abs@) {
            Some(f) => f,
            None => abs@,
        },
{
    match file_name(abs) {
        Some(f) => owned(f),
        None => owned(abs),
    }
}

// ── Sizes ───────────────────────────────────────────────────────────────────

/// The unit a byte count is shown in: the largest of B, KB, MB, GB, TB
/// (powers of 1024) that the count reaches.
pub open spec fn size_unit_spec(bytes: int) -> nat {
    if bytes >= 0x100_0000_0000 {
        4
    } else if bytes >= 0x4000_0000 {
        3
    } else if bytes >= 0x10_0000 {
        2
    } else if bytes >= 1024 {
        1
    } else {
        0
    }
}

/// The unit index (0 = B .. 4 = TB) a byte count is shown in.
pub fn size_unit(bytes: i64) -> (r: usize)
    ensures
        r as nat == size_unit_spec(bytes as int),
{
    if bytes >= 0x100_0000_0000 {
        4
    } else if bytes >= 0x4000_0000 {
        3
    } else if bytes >= 0x10_0000 {
        2
    } else if bytes >= 1024 {
        1
    } else {
        0
    }
}

/// The suffix of a size unit.
pub fn unit_suffix(unit: usize) -> (r: &'static str)
    requires
        unit <= 4,
    ensures
        r@ == if unit == 0 {
            "B"@
        } else if unit == 1 {
            "KB"@
        } else if unit == 2 {
            "MB"@
        } else if unit == 3 {
            "GB"@
        } else {
            "TB"@
        },
{
    if unit == 0 {
        "B"
    } else if unit == 1 {
        "KB"
    } else if unit == 2 {
        "MB"
    } else if unit == 3 {
        "GB"
    } else {
        "TB"
    }
}

/// A size below one KiB (or negative): `{bytes} B`.
pub fn bytes_text(bytes: i64) -> (r: String)
    ensures
        r@ == dec_int(bytes as int) + " B"@,
{
    let mut out = String::new();
    push_dec_i64(&mut out, bytes);
    out.append(" B");
    out
}

// ── Notifications ───────────────────────────────────────────────────────────

/// The public link to a finished file, ` (<base>/media/<file>)`, or nothing.
pub open spec fn media_link_spec(base: Option<Seq<char>>, file: Seq<char>) -> Seq<char> {
    match base {
        Some(b) => " ("@ + trim_end_char(b, '/') + "/media/"@ + file + ")"@,
        None => ""@,
    }
}

/// The public URL of a finished file under `base`.
pub fn media_url(base: &str, file: &str) -> (r: String)
    ensures
        r@ == trim_end_char(base@, '/') + "/media/"@ + file@,
{
    let mut out = owned(str_trim_end_char(base, '/'));
    out.append("/media/");
    out.append(file);
    out
}

/// The text announcing a finished download (`size` already rendered).
pub fn download_done_text(
    public_base_url: Option<&str>,
    title: &str,
    file_path: &str,
    size: &str,
    url: &str,
) -> (r: String)
    ensures
        r@ == "✅ Download complete: "@ + title@ + "\n"@ + url@ + "\n"@ + size@ + " · saved as "@
            + file_path@ + media_link_spec(
            match public_base_url {
                Some(b) => Some(b@),
                None => None,
            },
            file_path@,
        ),
{
    let mut out = owned("✅ Download complete: ");
    out.append(title);
    out.append("\n");
    out.append(url);
    out.append("\n");
    out.append(size);
    out.append(" · saved as ");
    out.append(file_path);
    match public_base_url {
        Some(b) => {
            out.append(" (");
            let link = media_url(b, file_path);
            out.append(link.as_str());
            out.append(")");
        },
        None => {
            proof {
                reveal_strlit("");
            }
        },
    }
    assert(out@ =~= "✅ Download complete: "@ + title@ + "\n"@ + url@ + "\n"@ + size@
        + " · saved as "@ + file_path@ + media_link_spec(
        match public_base_url {
            Some(b) => Some(b@),
            None => None,
        },
        file_path@,
    ));
    out
}

/// The text announcing a failed download.
pub fn download_failed_text(url: &str, error: &str, requested_by: Option<&str>) -> (r: String)
    ensures
        r@ == "❌ Download failed: "@ + url@ + "\n"@ + error@ + match requested_by {
            Some(w) => "\nrequested by "@ + w@,
            None => ""@,
        },
{
    let mut out = owned("❌ Download failed: ");
    out.append(url);
    out.append("\n");
    out.append(error);
    match requested_by {
        Some(w) => {
            out.append("\nrequested by ");
            out.append(w);
        },
        None => {
            proof {
                reveal_strlit("");
            }
        },
    }
    assert(out@ =~= "❌ Download failed: "@ + url@ + "\n"@ + error@ + match requested_by {
        Some(w) => "\nrequested by "@ + w@,
        None => ""@,
    });
    out
}

/// The Bot API endpoint that sends a Telegram message.
pub fn telegram_send_url(token: &str) -> (r: String)
    ensures
        r@ == "https://api.telegram.org/bot"@ + token@ + "/sendMessage"@,
{
    let mut out = owned("https://api.telegram.org/bot");
    out.append(token);
    out.append("/sendMessage");
    out
}

/// Where a notification goes: the Discord webhook when one is set, and
/// Telegram only when both the bot token and the chat id are set.
pub fn notify_targets<'a>(
    discord_webhook: Option<&'a str>,
    telegram_bot_token: Option<&'a str>,
    telegram_chat_id: Option<&'a str>,
) -> (r: (Option<&'a str>, Option<(&'a str, &'a str)>))
    ensures
        r.0 == discord_webhook,
        r.1 == match (telegram_bot_token, telegram_chat_id) {
            (Some(t), Some(c)) => Some((t, c)),
            _ => None,
        },
{
    let tg = match (telegram_bot_token, telegram_chat_id) {
        (Some(t), Some(c)) => Some((t, c)),
        _ => None,
    };
    (discord_webhook, tg)
}


/// Law: a byte count is shown in the largest power-of-1024 unit it reaches:
/// unit `u` (1 to 3) covers counts from 1024^u up to below 1024^(u+1), unit 0
/// everything below 1024, unit 4 everything from 1024^4 up.
pub proof fn size_unit_is_largest_reached(bytes: int)
    ensures
        size_unit_spec(bytes) == 0 <==> bytes < 1024,
        size_unit_spec(bytes) == 1 <==> 1024 <= bytes < 1024 * 1024,
        size_unit_spec(bytes) == 2 <==> 1024 * 1024 <= bytes < 1024 * 1024 * 1024,
        size_unit_spec(bytes) == 3 <==> 1024 * 1024 * 1024 <= bytes < 1024 * 1024 * 1024 * 1024,
        size_unit_spec(bytes) == 4 <==> 1024 * 1024 * 1024 * 1024 <= bytes,
{
}

} // verus!
