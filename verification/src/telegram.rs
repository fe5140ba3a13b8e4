//! The Telegram surface's replies: help, status counts, queueing a download
//! and the recent-downloads list.

use vstd::prelude::*;
use crate::text::{dec_int, owned, push_dec_i64, str_eq, str_trim_end_char, trim_end_char};

verus! {

/// The help text, around the command descriptions.
pub fn help_text(descriptions: &str) -> (r: String)
    ensures
        r@ == "🤖 NigerianBot (Telegram)\n\n"@ + descriptions@
            + "\n\nDownloads are fetched by the worker; finished files are linked from the web dashboard."@,
{
    let mut out = owned("🤖 NigerianBot (Telegram)\n\n");
    out.append(descriptions);
    out.append(
        "\n\nDownloads are fetched by the worker; finished files are linked from the web dashboard.",
    );
    out
}

/// The count recorded for `status` among `(status, count)` rows: the first
/// matching row, else 0.
pub open spec fn count_of(rows: Seq<(String, i64)>, status: Seq<char>) -> i64
    decreases rows.len(),
{
    if rows.len() == 0 {
        0
    } else if rows[0].0@ == status {
        rows[0].1
    } else {
        count_of(rows.drop_first(), status)
    }
}

/// The count recorded for one status.
pub fn status_count(rows: &Vec<(String, i64)>, status: &str) -> (r: i64)
    ensures
        r == count_of(rows@, status@),
{
    let n = rows.len();
    let mut i: usize = 0;
    assert(rows@.subrange(0, n as int) =~= rows@);
    while i < n
        invariant
            n == rows@.len(),
            i <= n,
            count_of(rows@, status@) == count_of(rows@.subrange(i as int, n as int), status@),
        decreases n - i,
    {
        let ghost rest = rows@.subrange(i as int, n as int);
        assert(rest[0] == rows@[i as int]);
        if str_eq(rows[i].0.as_str(), status) {
            return rows[i].1;
        }
        assert(rest.drop_first() =~= rows@.subrange(i + 1, n as int));
        i = i + 1;
    }
    0
}

/// The `/status` reply from per-status download counts.
pub fn status_reply(rows: &Vec<(String, i64)>) -> (r: String)
    ensures
        r@ == "📊 Downloads — queued "@ + dec_int(count_of(rows@, "queued"@) as int)
            + " · downloading "@ + dec_int(count_of(rows@, "downloading"@) as int) + " · done "@
            + dec_int(count_of(rows@, "done"@) as int) + " · failed "@ + dec_int(
            count_of(rows@, "failed"@) as int,
        ),
{
    let mut out = owned("📊 Downloads — queued ");
    push_dec_i64(&mut out, status_count(rows, "queued"));
    out.append(" · downloading ");
    push_dec_i64(&mut out, status_count(rows, "downloading"));
    out.append(" · done ");
    push_dec_i64(&mut out, status_count(rows, "done"));
    out.append(" · failed ");
    push_dec_i64(&mut out, status_count(rows, "failed"));
    out
}

/// The reply after queueing a download from Telegram.
pub fn queued_reply(id: i64, provider: &str) -> (r: String)
    ensures
        r@ == "📥 Queued download **#"@ + dec_int(id as int) + "** ("@ + provider@ + ")."@,
{
    let mut out = owned("📥 Queued download **#");
    push_dec_i64(&mut out, id);
    out.append("** (");
    out.append(provider);
    out.append(").");
    out
}

/// A failure reply: `⚠️ {what}: {error}`.
pub fn failure_reply(what: &str, error: &str) -> (r: String)
    ensures
        r@ == "⚠️ "@ + what@ + ": "@ + error@,
{
    let mut out = owned("⚠️ ");
    out.append(what);
    out.append(": ");
    out.append(error);
    out
}

/// A recent download as the list shows it (`size` already rendered).
#[derive(Debug)]
pub struct RecentDownload {
    pub id: i64,
    pub title: Option<String>,
    pub status: String,
    pub file_path: Option<String>,
    pub size: Option<String>,
}

/// The line of one recent download: finished files get a public link when a
/// base URL is configured.
pub open spec fn recent_line_spec(d: RecentDownload, base: Option<Seq<char>>) -> Seq<char> {
    "• #"@ + dec_int(d.id as int) + " "@ + (match d.title {
        Some(t) => t@,
        None => "#"@ + dec_int(d.id as int),
    }) + " — "@ + d.status@ + " ("@ + (match d.size {
        Some(s) => s@,
        None => "—"@,
    }) + ")"@ + (match (base, d.file_path) {
        (Some(b), Some(f)) => if d.status@ == "done"@ {
            "\n  "@ + trim_end_char(b, '/') + "/media/"@ + f@
        } else {
            ""@
        },
        _ => ""@,
    }) + "\n"@
}

fn recent_line(d: &RecentDownload, base: Option<&str>) -> (r: String)
    ensures
        r@ == recent_line_spec(
            *d,
            match base {
                Some(b) => Some(b@),
                None => None,
            },
        ),
{
    proof {
        reveal_strlit("");
    }
    let mut out = owned("• #");
    push_dec_i64(&mut out, d.id);
    out.append(" ");
    match &d.title {
        Some(t) => out.append(t.as_str()),
        None => {
            out.append("#");
            push_dec_i64(&mut out, d.id);
        },
    }
    out.append(" — ");
    out.append(d.status.as_str());
    out.append(" (");
    match &d.size {
        Some(s) => out.append(s.as_str()),
        None => out.append("—"),
    }
    out.append(")");
    match (base, &d.file_path) {
        (Some(b), Some(f)) => {
            if str_eq(d.status.as_str(), "done") {
                out.append("\n  ");
                out.append(str_trim_end_char(b, '/'));
                out.append("/media/");
                out.append(f.as_str());
            }
        },
        _ => {},
    }
    out.append("\n");
    assert(out@ =~= recent_line_spec(
        *d,
        match base {
            Some(b) => Some(b@),
            None => None,
        },
    ));
    out
}

/// The lines of the first `k` recent downloads.
pub open spec fn recent_lines(ds: Seq<RecentDownload>, base: Option<Seq<char>>, k: int) -> Seq<char>
    decreases k,
{
    if k <= 0 {
        seq![]
    } else {
        recent_lines(ds, base, k - 1) + recent_line_spec(ds[k - 1], base)
    }
}

/// The `/downloads` reply.
pub fn recent_reply(ds: &Vec<RecentDownload>, base: Option<&str>) -> (r: String)
    ensures
        ds@.len() == 0 ==> r@ == "No downloads yet."@,
        ds@.len() > 0 ==> r@ == "🗂 Recent downloads:\n"@ + recent_lines(
            ds@,
            match base {
                Some(b) => Some(b@),
                None => None,
            },
            ds@.len() as int,
        ),
{
    let n = ds.len();
    if n == 0 {
        return owned("No downloads yet.");
    }
    let ghost bv = match base {
        Some(b) => Some(b@),
        None => None,
    };
    let mut out = owned("🗂 Recent downloads:\n");
    let ghost head = out@;
    let mut i: usize = 0;
    while i < n
        invariant
            n == ds@.len(),
            i <= n,
            bv == match base {
                Some(b) => Some(b@),
                None => None,
            },
            out@ == head + recent_lines(ds@, bv, i as int),
        decreases n - i,
    {
        let line = recent_line(&ds[i], base);
        out.append(line.as_str());
        assert(out@ =~= head + recent_lines(ds@, bv, i + 1));
        i = i + 1;
    }
    out
}

/// Law: the line of download `k` comes right after the lines of the
/// downloads before it.
pub proof fn recent_lines_step(ds: Seq<RecentDownload>, base: Option<Seq<char>>, k: int)
    requires
        0 <= k < ds.len(),
    ensures
        recent_lines(ds, base, k + 1) == recent_lines(ds, base, k) + recent_line_spec(ds[k], base),
{
}

/// Law: the first `k` download lines depend on the first `k` items alone, in order.
pub proof fn recent_lines_prefix(a: Seq<RecentDownload>, b: Seq<RecentDownload>, base: Option<Seq<char>>, k: int)
    requires
        0 <= k <= a.len(),
        k <= b.len(),
        a.subrange(0, k) == b.subrange(0, k),
    ensures
        recent_lines(a, base, k) == recent_lines(b, base, k),
    decreases k,
{
    if k > 0 {
        assert(a.subrange(0, k - 1) =~= a.subrange(0, k).subrange(0, k - 1));
        assert(b.subrange(0, k - 1) =~= b.subrange(0, k).subrange(0, k - 1));
        recent_lines_prefix(a, b, base, k - 1);
        assert(a[k - 1] == a.subrange(0, k)[k - 1]);
        assert(b[k - 1] == b.subrange(0, k)[k - 1]);
    }
}

} // verus!
