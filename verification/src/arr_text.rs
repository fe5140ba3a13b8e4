//! The Discord replies of `/sonarr` and `/radarr` and the scheduled download
//! digests, rendered from what the services report.

use vstd::prelude::*;
use crate::commands::{cap, cap_spec};
use crate::media::{first_some, release_date, Service};
use crate::text::{
    before_char, dec, dec2, owned, push_dec, push_dec2, str_take_chars, take_chars,
};

verus! {

/// The icon of a service's replies.
pub open spec fn icon(s: Service) -> Seq<char> {
    match s {
        Service::Sonarr => "📺"@,
        Service::Radarr => "🎬"@,
    }
}

/// The display name of a service.
pub open spec fn name(s: Service) -> Seq<char> {
    match s {
        Service::Sonarr => "Sonarr"@,
        Service::Radarr => "Radarr"@,
    }
}

fn icon_str(s: Service) -> (r: &'static str)
    ensures
        r@ == icon(s),
{
    match s {
        Service::Sonarr => "📺",
        Service::Radarr => "🎬",
    }
}

fn name_str(s: Service) -> (r: &'static str)
    ensures
        r@ == name(s),
{
    match s {
        Service::Sonarr => "Sonarr",
        Service::Radarr => "Radarr",
    }
}

/// A string field, or `fallback` when absent.
pub open spec fn or(o: Option<String>, fallback: Seq<char>) -> Seq<char> {
    match o {
        Some(s) => s@,
        None => fallback,
    }
}

fn append_or(out: &mut String, o: &Option<String>, fallback: &str)
    ensures
        final(out)@ == old(out)@ + or(*o, fallback@),
{
    match o {
        Some(s) => out.append(s.as_str()),
        None => out.append(fallback),
    }
}

/// A numeric field, or 0 when absent.
pub open spec fn num_or_zero(o: Option<u64>) -> nat {
    match o {
        Some(v) => v as nat,
        None => 0,
    }
}

/// The reply when a service is not configured.
pub fn not_configured_reply(s: Service) -> (r: String)
    ensures
        r@ == icon(s) + " "@ + name(s) + " isn't configured. Set `"@ + (match s {
            Service::Sonarr => "SONARR"@,
            Service::Radarr => "RADARR"@,
        }) + "_URL` and `"@ + (match s {
            Service::Sonarr => "SONARR"@,
            Service::Radarr => "RADARR"@,
        }) + "_API_KEY`."@,
{
    let upper = match s {
        Service::Sonarr => "SONARR",
        Service::Radarr => "RADARR",
    };
    let mut out = owned(icon_str(s));
    out.append(" ");
    out.append(name_str(s));
    out.append(" isn't configured. Set `");
    out.append(upper);
    out.append("_URL` and `");
    out.append(upper);
    out.append("_API_KEY`.");
    out
}

/// The reply when a service command failed.
pub fn failure_reply(s: Service, error: &str) -> (r: String)
    ensures
        r@ == "⚠️ "@ + name(s) + ": "@ + error@,
{
    let mut out = owned("⚠️ ");
    out.append(name_str(s));
    out.append(": ");
    out.append(error);
    out
}

/// `/<service> status`: version, library size and active downloads.
pub fn status_reply(s: Service, version: Option<&str>, count: usize, downloading: u64) -> (r: String)
    ensures
        r@ == icon(s) + " **"@ + name(s) + "** v"@ + (match version {
            Some(v) => v@,
            None => "?"@,
        }) + "\n• "@ + (match s {
            Service::Sonarr => "Series"@,
            Service::Radarr => "Movies"@,
        }) + ": **"@ + dec(count as nat) + "**\n• Downloading: **"@ + dec(downloading as nat)
            + "**"@,
{
    let mut out = owned(icon_str(s));
    out.append(" **");
    out.append(name_str(s));
    out.append("** v");
    match version {
        Some(v) => out.append(v),
        None => out.append("?"),
    }
    out.append("\n• ");
    match s {
        Service::Sonarr => out.append("Series"),
        Service::Radarr => out.append("Movies"),
    }
    out.append(": **");
    push_dec(&mut out, count as u64);
    out.append("**\n• Downloading: **");
    push_dec(&mut out, downloading);
    out.append("**");
    out
}

// ── Queue ───────────────────────────────────────────────────────────────────

/// A download in a service's queue.
#[derive(Debug)]
pub struct QueueRecord {
    pub title: Option<String>,
    pub status: Option<String>,
    pub timeleft: Option<String>,
}

/// The lines of the first `k` queue records.
pub open spec fn queue_lines(recs: Seq<QueueRecord>, k: int) -> Seq<char>
    decreases k,
{
    if k <= 0 {
        seq![]
    } else {
        let r = recs[k - 1];
        queue_lines(recs, k - 1) + "• "@ + or(r.title, "?"@) + " — "@ + or(r.status, ""@) + " "@
            + or(r.timeleft, ""@) + "\n"@
    }
}

/// The smaller of `a` and `b`.
pub open spec fn min(a: int, b: int) -> int {
    if a < b {
        a
    } else {
        b
    }
}

/// `/<service> queue`: what is downloading (at most 15 records), capped.
pub fn queue_reply(s: Service, recs: &Vec<QueueRecord>) -> (r: String)
    ensures
        recs@.len() == 0 ==> r@ == icon(s) + " The "@ + name(s) + " queue is empty."@,
        recs@.len() > 0 ==> r@ == cap_spec(
            icon(s) + " **"@ + name(s) + " — downloading:**\n"@ + queue_lines(
                recs@,
                min(recs@.len() as int, 15),
            ),
        ),
{
    let n = recs.len();
    if n == 0 {
        let mut out = owned(icon_str(s));
        out.append(" The ");
        out.append(name_str(s));
        out.append(" queue is empty.");
        return out;
    }
    let mut out = owned(icon_str(s));
    out.append(" **");
    out.append(name_str(s));
    out.append(" — downloading:**\n");
    let ghost head = out@;
    let k: usize = if n < 15 { n } else { 15 };
    let mut i: usize = 0;
    while i < k
        invariant
            k <= n,
            n == recs@.len(),
            i <= k,
            out@ == head + queue_lines(recs@, i as int),
        decreases k - i,
    {
        let r = &recs[i];
        out.append("• ");
        append_or(&mut out, &r.title, "?");
        out.append(" — ");
        append_or(&mut out, &r.status, "");
        out.append(" ");
        append_or(&mut out, &r.timeleft, "");
        out.append("\n");
        assert(out@ =~= head + queue_lines(recs@, i + 1));
        i = i + 1;
    }
    cap(out)
}

/// The lines of a digest: the first `k` records.
pub open spec fn digest_lines(recs: Seq<QueueRecord>, k: int) -> Seq<char>
    decreases k,
{
    if k <= 0 {
        seq![]
    } else {
        let r = recs[k - 1];
        digest_lines(recs, k - 1) + "• "@ + or(r.title, "?"@) + " "@ + or(r.timeleft, ""@)
            + "\n"@
    }
}

/// A "currently downloading" digest from a service's queue (at most 10).
pub fn digest_text(label: &str, recs: &Vec<QueueRecord>) -> (r: String)
    ensures
        recs@.len() == 0 ==> r@ == label@ + " — nothing downloading right now. ✅"@,
        recs@.len() > 0 ==> r@ == label@ + " — downloading:\n"@ + digest_lines(
            recs@,
            min(recs@.len() as int, 10),
        ),
{
    let n = recs.len();
    let mut out = owned(label);
    if n == 0 {
        out.append(" — nothing downloading right now. ✅");
        return out;
    }
    out.append(" — downloading:\n");
    let ghost head = out@;
    let k: usize = if n < 10 { n } else { 10 };
    let mut i: usize = 0;
    while i < k
        invariant
            k <= n,
            n == recs@.len(),
            i <= k,
            out@ == head + digest_lines(recs@, i as int),
        decreases k - i,
    {
        let r = &recs[i];
        out.append("• ");
        append_or(&mut out, &r.title, "?");
        out.append(" ");
        append_or(&mut out, &r.timeleft, "");
        out.append("\n");
        assert(out@ =~= head + digest_lines(recs@, i + 1));
        i = i + 1;
    }
    out
}

/// The digest when the service is not configured.
pub fn digest_not_configured(label: &str) -> (r: String)
    ensures
        r@ == label@ + ": not configured."@,
{
    let mut out = owned(label);
    out.append(": not configured.");
    out
}

/// The digest when the service could not be reached.
pub fn digest_unreachable(label: &str, error: &str) -> (r: String)
    ensures
        r@ == label@ + ": couldn't reach the server ("@ + error@ + ")"@,
{
    let mut out = owned(label);
    out.append(": couldn't reach the server (");
    out.append(error);
    out.append(")");
    out
}

// ── Upcoming ────────────────────────────────────────────────────────────────

/// A movie release in Radarr's calendar.
#[derive(Debug)]
pub struct Release {
    pub title: Option<String>,
    pub year: Option<u64>,
    /// Digital, physical and cinema release timestamps, in that preference.
    pub dates: Vec<Option<String>>,
}

/// An episode in Sonarr's calendar.
#[derive(Debug)]
pub struct Airing {
    pub series_title: Option<String>,
    pub season: Option<u64>,
    pub episode: Option<u64>,
    pub title: Option<String>,
    pub air_date_utc: Option<String>,
}

/// The date shown for a calendar entry.
pub open spec fn date_or(dates: Seq<Option<String>>, fallback: Seq<char>) -> Seq<char> {
    match first_some(dates) {
        Some(d) => before_char(d, 'T'),
        None => fallback,
    }
}

/// The lines of the first `k` releases.
pub open spec fn release_lines(rels: Seq<Release>, k: int) -> Seq<char>
    decreases k,
{
    if k <= 0 {
        seq![]
    } else {
        let m = rels[k - 1];
        release_lines(rels, k - 1) + "• **"@ + or(m.title, "?"@) + "** ("@ + dec(
            num_or_zero(m.year),
        ) + ") — "@ + date_or(m.dates@, "TBA"@) + "\n"@
    }
}

/// `/radarr upcoming`: movies releasing in the next 30 days (at most 15).
pub fn releases_reply(rels: &Vec<Release>) -> (r: String)
    ensures
        rels@.len() == 0 ==> r@ == "🎬 No releases in the next 30 days."@,
        rels@.len() > 0 ==> r@ == cap_spec(
            "🎬 **Releasing soon:**\n"@ + release_lines(rels@, min(rels@.len() as int, 15)),
        ),
{
    let n = rels.len();
    if n == 0 {
        return owned("🎬 No releases in the next 30 days.");
    }
    let mut out = owned("🎬 **Releasing soon:**\n");
    let ghost head = out@;
    let k: usize = if n < 15 { n } else { 15 };
    let mut i: usize = 0;
    while i < k
        invariant
            k <= n,
            n == rels@.len(),
            i <= k,
            out@ == head + release_lines(rels@, i as int),
        decreases k - i,
    {
        let m = &rels[i];
        out.append("• **");
        append_or(&mut out, &m.title, "?");
        out.append("** (");
        let y = match m.year {
            Some(v) => v,
            None => 0,
        };
        push_dec(&mut out, y);
        out.append(") — ");
        let d = release_date(&m.dates, "TBA");
        out.append(d.as_str());
        out.append("\n");
        assert(out@ =~= head + release_lines(rels@, i + 1));
        i = i + 1;
    }
    cap(out)
}

/// The lines of the first `k` airings.
pub open spec fn airing_lines(eps: Seq<Airing>, k: int) -> Seq<char>
    decreases k,
{
    if k <= 0 {
        seq![]
    } else {
        airing_lines(eps, k - 1) + airing_line(eps[k - 1])
    }
}

/// The line of one airing.
pub open spec fn airing_line(e: Airing) -> Seq<char> {
    "• **"@ + or(e.series_title, "?"@) + "** S"@ + dec2(num_or_zero(e.season)) + "E"@ + dec2(
        num_or_zero(e.episode),
    ) + " — "@ + or(e.title, ""@) + " ("@ + (match e.air_date_utc {
        Some(d) => before_char(d@, 'T'),
        None => ""@,
    }) + ")\n"@
}

fn airing_line_exec(e: &Airing) -> (r: String)
    ensures
        r@ == airing_line(*e),
{
    let mut out = owned("• **");
    append_or(&mut out, &e.series_title, "?");
    out.append("** S");
    push_dec2(&mut out, match e.season { Some(v) => v, None => 0 });
    out.append("E");
    push_dec2(&mut out, match e.episode { Some(v) => v, None => 0 });
    out.append(" — ");
    append_or(&mut out, &e.title, "");
    out.append(" (");
    match &e.air_date_utc {
        Some(d) => out.append(crate::media::date_part(d.as_str())),
        None => {
            proof {
                reveal_strlit("");
            }
        },
    }
    out.append(")\n");
    out
}

/// `/sonarr upcoming`: episodes airing in the next 7 days (at most 15).
pub fn airings_reply(eps: &Vec<Airing>) -> (r: String)
    ensures
        eps@.len() == 0 ==> r@ == "📺 Nothing airing in the next 7 days."@,
        eps@.len() > 0 ==> r@ == cap_spec(
            "📺 **Airing soon:**\n"@ + airing_lines(eps@, min(eps@.len() as int, 15)),
        ),
{
    let n = eps.len();
    if n == 0 {
        return owned("📺 Nothing airing in the next 7 days.");
    }
    let mut out = owned("📺 **Airing soon:**\n");
    let ghost head = out@;
    let k: usize = if n < 15 { n } else { 15 };
    let mut i: usize = 0;
    while i < k
        invariant
            k <= n,
            n == eps@.len(),
            i <= k,
            out@ == head + airing_lines(eps@, i as int),
        decreases k - i,
    {
        let line = airing_line_exec(&eps[i]);
        out.append(line.as_str());
        assert(out@ =~= head + airing_lines(eps@, i + 1));
        i = i + 1;
    }
    cap(out)
}

// ── Search and add ──────────────────────────────────────────────────────────

/// A lookup result.
#[derive(Debug)]
pub struct LookupResult {
    pub title: Option<String>,
    pub year: Option<u64>,
    pub overview: Option<String>,
    pub id: Option<i64>,
}

/// Whether a lookup result is already in the library.
pub open spec fn in_lib(m: LookupResult) -> bool {
    match m.id {
        Some(v) => v > 0,
        None => false,
    }
}

/// The blocks of the first `k` search results.
pub open spec fn result_lines(ms: Seq<LookupResult>, k: int) -> Seq<char>
    decreases k,
{
    if k <= 0 {
        seq![]
    } else {
        result_lines(ms, k - 1) + result_block(ms[k - 1])
    }
}

/// The block of one search result.
pub open spec fn result_block(m: LookupResult) -> Seq<char> {
    "**"@ + or(m.title, "?"@) + "** ("@ + dec(num_or_zero(m.year)) + ")"@ + (if in_lib(m) {
        " ✅ (in library)"@
    } else {
        ""@
    }) + "\n"@ + take_chars(or(m.overview, ""@), 150) + "…\n\n"@
}

fn result_block_exec(m: &LookupResult) -> (r: String)
    ensures
        r@ == result_block(*m),
{
    let mut out = owned("**");
    append_or(&mut out, &m.title, "?");
    out.append("** (");
    push_dec(&mut out, match m.year { Some(v) => v, None => 0 });
    out.append(")");
    if crate::media::in_library(m.id) {
        out.append(" ✅ (in library)");
    } else {
        proof {
            reveal_strlit("");
        }
    }
    out.append("\n");
    let overview: &str = match &m.overview {
        Some(o) => o.as_str(),
        None => "",
    };
    out.append(str_take_chars(overview, 150));
    out.append("…\n\n");
    assert(out@ =~= result_block(*m));
    out
}

/// What a service command that needs a term was missing or could not find.
#[derive(Clone, Copy, Debug, PartialEq, Eq, Structural)]
pub enum TermError {
    /// No search term was given.
    NoSearchTerm,
    /// No term was given to add.
    NoAddTerm,
}

impl TermError {
    /// The error text of a missing term.
    pub fn message(&self, s: Service) -> (r: &'static str)
        ensures
            r@ == match (*self, s) {
                (TermError::NoSearchTerm, Service::Radarr) => "give me a movie name to search for."@,
                (TermError::NoSearchTerm, Service::Sonarr) => "give me a show name to search for."@,
                (TermError::NoAddTerm, Service::Radarr) => "give me a movie name to add."@,
                (TermError::NoAddTerm, Service::Sonarr) => "give me a show name to add."@,
            },
    {
        match (self, s) {
            (TermError::NoSearchTerm, Service::Radarr) => "give me a movie name to search for.",
            (TermError::NoSearchTerm, Service::Sonarr) => "give me a show name to search for.",
            (TermError::NoAddTerm, Service::Radarr) => "give me a movie name to add.",
            (TermError::NoAddTerm, Service::Sonarr) => "give me a show name to add.",
        }
    }
}

/// `/<service> search <term>`: the top five results, capped.
pub fn search_reply(s: Service, term: &str, ms: &Vec<LookupResult>) -> (r: String)
    ensures
        ms@.len() == 0 ==> r@ == icon(s) + (match s {
            Service::Radarr => " No movie results for **"@,
            Service::Sonarr => " No TV results for **"@,
        }) + term@ + "**."@,
        ms@.len() > 0 ==> r@ == cap_spec(
            icon(s) + " **Results for \""@ + term@ + "\":**\n"@ + result_lines(
                ms@,
                min(ms@.len() as int, 5),
            ) + "_`/"@ + (match s {
                Service::Radarr => "radarr"@,
                Service::Sonarr => "sonarr"@,
            }) + " add <name>` adds the top match._"@,
        ),
{
    let n = ms.len();
    let mut out = owned(icon_str(s));
    if n == 0 {
        match s {
            Service::Radarr => out.append(" No movie results for **"),
            Service::Sonarr => out.append(" No TV results for **"),
        }
        out.append(term);
        out.append("**.");
        return out;
    }
    out.append(" **Results for \"");
    out.append(term);
    out.append("\":**\n");
    let ghost head = out@;
    let k: usize = if n < 5 { n } else { 5 };
    let mut i: usize = 0;
    while i < k
        invariant
            k <= n,
            n == ms@.len(),
            i <= k,
            out@ == head + result_lines(ms@, i as int),
        decreases k - i,
    {
        let block = result_block_exec(&ms[i]);
        out.append(block.as_str());
        assert(out@ =~= head + result_lines(ms@, i + 1));
        i = i + 1;
    }
    out.append("_`/");
    match s {
        Service::Radarr => out.append("radarr"),
        Service::Sonarr => out.append("sonarr"),
    }
    out.append(" add <name>` adds the top match._");
    cap(out)
}

/// The failure when a lookup found nothing to add.
pub fn no_match_error(s: Service, term: &str) -> (r: String)
    ensures
        r@ == (match s {
            Service::Radarr => "no movie match for \""@,
            Service::Sonarr => "no TV match for \""@,
        }) + term@ + "\"."@,
{
    let mut out = match s {
        Service::Radarr => owned("no movie match for \""),
        Service::Sonarr => owned("no TV match for \""),
    };
    out.append(term);
    out.append("\".");
    out
}

/// The failure when a service has no quality profile or no root folder.
pub fn missing_setup_error(s: Service, root_folder: bool) -> (r: String)
    ensures
        r@ == (if root_folder {
            "no root folder configured in "@
        } else {
            "no quality profile configured in "@
        }) + name(s) + "."@,
{
    let mut out = if root_folder {
        owned("no root folder configured in ")
    } else {
        owned("no quality profile configured in ")
    };
    out.append(name_str(s));
    out.append(".");
    out
}

/// The reply after an add: already present, or added and searching.
pub fn add_reply(s: Service, title: &str, already: bool) -> (r: String)
    ensures
        already ==> r@ == icon(s) + " **"@ + title@ + "** is already in "@ + name(s) + "."@,
        !already ==> r@ == icon(s) + " Added **"@ + title@ + "** and started searching. "@
            + (match s {
            Service::Radarr => "🍿"@,
            Service::Sonarr => "🎬"@,
        }),
{
    let mut out = owned(icon_str(s));
    if already {
        out.append(" **");
        out.append(title);
        out.append("** is already in ");
        out.append(name_str(s));
        out.append(".");
    } else {
        out.append(" Added **");
        out.append(title);
        out.append("** and started searching. ");
        match s {
            Service::Radarr => out.append("🍿"),
            Service::Sonarr => out.append("🎬"),
        }
    }
    out
}

/// Law: the queue line of record `k` comes right after the lines of the
/// records before it: a bullet, the title (or `?`), a dash, the status, a
/// space, the time left, a newline.
pub proof fn queue_lines_step(recs: Seq<QueueRecord>, k: int)
    requires
        0 <= k < recs.len(),
    ensures
        queue_lines(recs, k + 1) == queue_lines(recs, k) + "• "@ + (match recs[k].title {
            Some(t) => t@,
            None => "?"@,
        }) + " — "@ + (match recs[k].status {
            Some(t) => t@,
            None => ""@,
        }) + " "@ + (match recs[k].timeleft {
            Some(t) => t@,
            None => ""@,
        }) + "\n"@,
{
}

/// Law: the first `k` queue lines depend on the first `k` items alone, in order.
pub proof fn queue_lines_prefix(a: Seq<QueueRecord>, b: Seq<QueueRecord>, k: int)
    requires
        0 <= k <= a.len(),
        k <= b.len(),
        a.subrange(0, k) == b.subrange(0, k),
    ensures
        queue_lines(a, k) == queue_lines(b, k),
    decreases k,
{
    if k > 0 {
        assert(a.subrange(0, k - 1) =~= a.subrange(0, k).subrange(0, k - 1));
        assert(b.subrange(0, k - 1) =~= b.subrange(0, k).subrange(0, k - 1));
        queue_lines_prefix(a, b, k - 1);
        assert(a[k - 1] == a.subrange(0, k)[k - 1]);
        assert(b[k - 1] == b.subrange(0, k)[k - 1]);
    }
}

/// Law: the digest line of record `k` comes right after the lines of the
/// records before it: a bullet, the title (or `?`), a space, the time left,
/// a newline.
pub proof fn digest_lines_step(recs: Seq<QueueRecord>, k: int)
    requires
        0 <= k < recs.len(),
    ensures
        digest_lines(recs, k + 1) == digest_lines(recs, k) + "• "@ + (match recs[k].title {
            Some(t) => t@,
            None => "?"@,
        }) + " "@ + (match recs[k].timeleft {
            Some(t) => t@,
            None => ""@,
        }) + "\n"@,
{
}

/// Law: the first `k` digest lines depend on the first `k` items alone, in order.
pub proof fn digest_lines_prefix(a: Seq<QueueRecord>, b: Seq<QueueRecord>, k: int)
    requires
        0 <= k <= a.len(),
        k <= b.len(),
        a.subrange(0, k) == b.subrange(0, k),
    ensures
        digest_lines(a, k) == digest_lines(b, k),
    decreases k,
{
    if k > 0 {
        assert(a.subrange(0, k - 1) =~= a.subrange(0, k).subrange(0, k - 1));
        assert(b.subrange(0, k - 1) =~= b.subrange(0, k).subrange(0, k - 1));
        digest_lines_prefix(a, b, k - 1);
        assert(a[k - 1] == a.subrange(0, k)[k - 1]);
        assert(b[k - 1] == b.subrange(0, k)[k - 1]);
    }
}

/// Law: a digest of `k` records opens with the line of the first record,
/// followed by the digest of the remaining ones.
pub proof fn digest_lines_first(recs: Seq<QueueRecord>, k: int)
    requires
        1 <= k <= recs.len(),
    ensures
        digest_lines(recs, k) == "• "@ + (match recs[0].title {
            Some(t) => t@,
            None => "?"@,
        }) + " "@ + (match recs[0].timeleft {
            Some(t) => t@,
            None => ""@,
        }) + "\n"@ + digest_lines(recs.subrange(1, recs.len() as int), k - 1),
    decreases k,
{
    let tail = recs.subrange(1, recs.len() as int);
    if k == 1 {
        assert(digest_lines(recs, 0) == Seq::<char>::empty());
        assert(digest_lines(tail, 0) == Seq::<char>::empty());
        let l = "• "@ + or(recs[0].title, "?"@) + " "@ + or(recs[0].timeleft, ""@) + "\n"@;
        assert(digest_lines(recs, 1) =~= l);
        assert(l + digest_lines(tail, 0) =~= l);
    } else {
        digest_lines_first(recs, k - 1);
        assert(tail[k - 2] == recs[k - 1]);
        let l0 = "• "@ + or(recs[0].title, "?"@) + " "@ + or(recs[0].timeleft, ""@) + "\n"@;
        let r = recs[k - 1];
        let lk = "• "@ + or(r.title, "?"@) + " "@ + or(r.timeleft, ""@) + "\n"@;
        assert(digest_lines(recs, k) == digest_lines(recs, k - 1) + lk);
        assert(digest_lines(tail, k - 1) == digest_lines(tail, k - 2) + lk);
        assert(digest_lines(recs, k) =~= l0 + digest_lines(tail, k - 1));
    }
}

/// Law: the line of release `k` comes right after the lines of the releases
/// before it: its title in bold, its year, its date.
pub proof fn release_lines_step(rels: Seq<Release>, k: int)
    requires
        0 <= k < rels.len(),
    ensures
        release_lines(rels, k + 1) == release_lines(rels, k) + "• **"@ + (match rels[k].title {
            Some(t) => t@,
            None => "?"@,
        }) + "** ("@ + dec(num_or_zero(rels[k].year)) + ") — "@ + date_or(rels[k].dates@, "TBA"@)
            + "\n"@,
{
}

/// Law: the first `k` release lines depend on the first `k` items alone, in order.
pub proof fn release_lines_prefix(a: Seq<Release>, b: Seq<Release>, k: int)
    requires
        0 <= k <= a.len(),
        k <= b.len(),
        a.subrange(0, k) == b.subrange(0, k),
    ensures
        release_lines(a, k) == release_lines(b, k),
    decreases k,
{
    if k > 0 {
        assert(a.subrange(0, k - 1) =~= a.subrange(0, k).subrange(0, k - 1));
        assert(b.subrange(0, k - 1) =~= b.subrange(0, k).subrange(0, k - 1));
        release_lines_prefix(a, b, k - 1);
        assert(a[k - 1] == a.subrange(0, k)[k - 1]);
        assert(b[k - 1] == b.subrange(0, k)[k - 1]);
    }
}

/// Law: the line of airing `k` comes right after the lines of the airings
/// before it.
pub proof fn airing_lines_step(eps: Seq<Airing>, k: int)
    requires
        0 <= k < eps.len(),
    ensures
        airing_lines(eps, k + 1) == airing_lines(eps, k) + airing_line(eps[k]),
{
}

/// Law: the first `k` airing lines depend on the first `k` items alone, in order.
pub proof fn airing_lines_prefix(a: Seq<Airing>, b: Seq<Airing>, k: int)
    requires
        0 <= k <= a.len(),
        k <= b.len(),
        a.subrange(0, k) == b.subrange(0, k),
    ensures
        airing_lines(a, k) == airing_lines(b, k),
    decreases k,
{
    if k > 0 {
        assert(a.subrange(0, k - 1) =~= a.subrange(0, k).subrange(0, k - 1));
        assert(b.subrange(0, k - 1) =~= b.subrange(0, k).subrange(0, k - 1));
        airing_lines_prefix(a, b, k - 1);
        assert(a[k - 1] == a.subrange(0, k)[k - 1]);
        assert(b[k - 1] == b.subrange(0, k)[k - 1]);
    }
}

/// Law: the block of search result `k` comes right after the blocks of the
/// results before it.
pub proof fn result_lines_step(ms: Seq<LookupResult>, k: int)
    requires
        0 <= k < ms.len(),
    ensures
        result_lines(ms, k + 1) == result_lines(ms, k) + result_block(ms[k]),
{
}

/// Law: the first `k` result blocks depend on the first `k` items alone, in order.
pub proof fn result_lines_prefix(a: Seq<LookupResult>, b: Seq<LookupResult>, k: int)
    requires
        0 <= k <= a.len(),
        k <= b.len(),
        a.subrange(0, k) == b.subrange(0, k),
    ensures
        result_lines(a, k) == result_lines(b, k),
    decreases k,
{
    if k > 0 {
        assert(a.subrange(0, k - 1) =~= a.subrange(0, k).subrange(0, k - 1));
        assert(b.subrange(0, k - 1) =~= b.subrange(0, k).subrange(0, k - 1));
        result_lines_prefix(a, b, k - 1);
        assert(a[k - 1] == a.subrange(0, k)[k - 1]);
        assert(b[k - 1] == b.subrange(0, k)[k - 1]);
    }
}

} // verus!
