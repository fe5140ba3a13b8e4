//! The download queue: request validation, bulk imports, playlist expansion
//! and episode naming, and the cookies upload check.

use vstd::prelude::*;
use crate::text::{
    dec2, is_control, is_http_url, is_ws, owned, push_char_at, push_dec2, starts_with,
    str_is_http_url, str_eq, str_starts_with, str_trim, trim, char_is_control, char_is_ws,
};

verus! {

/// `GET /api/downloads?limit=N`.
#[derive(Debug)]
pub struct ListQuery {
    pub limit: Option<i64>,
}

/// `POST /api/downloads`.
#[derive(Debug)]
pub struct CreateDownload {
    pub url: String,
    /// Optional filename to save as (so Sonarr/Radarr can parse it).
    pub save_as: Option<String>,
}

/// `POST /api/downloads/bulk`: URLs separated by whitespace.
#[derive(Debug)]
pub struct BulkImport {
    pub urls: String,
}

/// A page size: the requested one (or `default`), clamped to `[lo, hi]`.
pub fn clamp_limit(limit: Option<i64>, default: i64, lo: i64, hi: i64) -> (r: i64)
    requires
        lo <= hi,
    ensures
        r == ({
            let v = match limit {
                Some(l) => l,
                None => default,
            };
            if v < lo {
                lo
            } else if v > hi {
                hi
            } else {
                v
            }
        }),
{
    let v = match limit {
        Some(l) => l,
        None => default,
    };
    if v < lo {
        lo
    } else if v > hi {
        hi
    } else {
        v
    }
}

/// The URL of a download request, trimmed; `None` unless it is http(s)
/// (400 `invalid_url`).
pub fn download_url(url: &str) -> (r: Option<&str>)
    ensures
        match r {
            Some(u) => u@ == trim(url@) && is_http_url(u@),
            None => !is_http_url(trim(url@)),
        },
{
    let u = str_trim(url);
    if str_is_http_url(u) {
        Some(u)
    } else {
        None
    }
}

/// The file name a download is saved as: trimmed, blank meaning none.
pub fn save_as_name(save_as: Option<&str>) -> (r: Option<&str>)
    ensures
        match save_as {
            Some(s) => if trim(s@).len() > 0 {
                r matches Some(x) && x@ == trim(s@)
            } else {
                r is None
            },
            None => r is None,
        },
{
    match save_as {
        Some(s) => {
            let t = str_trim(s);
            if t.unicode_len() > 0 {
                Some(t)
            } else {
                None
            }
        },
        None => None,
    }
}

/// Who queued a download from Discord.
pub fn discord_requester(user_id: u64) -> (r: String)
    ensures
        r@ == "discord:"@ + crate::text::dec(user_id as nat),
{
    let mut out = owned("discord:");
    crate::text::push_dec(&mut out, user_id);
    out
}

/// Who queued a download from Telegram.
pub fn telegram_requester(user_id: Option<i64>) -> (r: String)
    ensures
        r@ == match user_id {
            Some(id) => "telegram:"@ + crate::text::dec_int(id as int),
            None => "telegram"@,
        },
{
    match user_id {
        Some(id) => {
            let mut out = owned("telegram:");
            crate::text::push_dec_i64(&mut out, id);
            out
        },
        None => owned("telegram"),
    }
}

// ── Bulk import ─────────────────────────────────────────────────────────────

/// The whitespace-separated words of `s` (`str::split_whitespace`).
pub open spec fn words(s: Seq<char>) -> Seq<Seq<char>>
    decreases s.len(),
{
    if s.len() == 0 {
        seq![]
    } else {
        let w = words(s.drop_last());
        let c = s.last();
        if is_ws(c) {
            w
        } else if s.len() >= 2 && !is_ws(s[s.len() - 2]) {
            w.update(w.len() - 1, w.last().push(c))
        } else {
            w.push(seq![c])
        }
    }
}

/// The http(s) URLs among `ws`, in order.
pub open spec fn http_only(ws: Seq<Seq<char>>) -> Seq<Seq<char>>
    decreases ws.len(),
{
    if ws.len() == 0 {
        seq![]
    } else if is_http_url(ws.last()) {
        http_only(ws.drop_last()).push(ws.last())
    } else {
        http_only(ws.drop_last())
    }
}

proof fn lemma_words_nonempty(s: Seq<char>)
    requires
        s.len() > 0,
        !is_ws(s.last()),
    ensures
        words(s).len() >= 1,
    decreases s.len(),
{
    if s.len() >= 2 && !is_ws(s[s.len() - 2]) {
        let t = s.drop_last();
        assert(t.last() == s[s.len() - 2]);
        lemma_words_nonempty(t);
    }
}

/// The http(s) URLs pasted into a bulk import, in order.
pub fn bulk_urls(text: &str) -> (r: Vec<String>)
    ensures
        r@.map_values(|u: String| u@) == http_only(words(text@)),
{
    let n = text.unicode_len();
    let mut out: Vec<String> = Vec::new();
    let mut start: usize = 0;
    let mut in_word = false;
    let mut i: usize = 0;
    let ghost mut done: Seq<Seq<char>> = seq![];
    while i < n
        invariant
            n == text@.len(),
            start <= i <= n,
            in_word ==> start < i,
            in_word ==> !is_ws(text@[i - 1]),
            !in_word ==> (i == 0 || is_ws(text@[i - 1])),
            words(text@.subrange(0, i as int)) == if in_word {
                done.push(text@.subrange(start as int, i as int))
            } else {
                done
            },
            out@.map_values(|u: String| u@) == http_only(done),
        decreases n - i,
    {
        let c = text.get_char(i);
        let ghost pre = text@.subrange(0, i as int);
        let ghost nxt = text@.subrange(0, i + 1);
        assert(nxt.drop_last() =~= pre);
        assert(nxt.last() == c);
        if char_is_ws(c) {
            if in_word {
                let w = text.substring_char(start, i);
                let ghost old_out = out@.map_values(|u: String| u@);
                if str_is_http_url(w) {
                    out.push(owned(w));
                    assert(out@.map_values(|u: String| u@) =~= old_out.push(w@));
                }
                proof {
                    let d2 = done.push(w@);
                    assert(d2.drop_last() =~= done);
                    assert(d2.last() == w@);
                    done = d2;
                }
                in_word = false;
            }
        } else {
            if in_word {
                proof {
                    assert(nxt[nxt.len() - 2] == text@[i - 1]);
                    assert(text@.subrange(start as int, i + 1) =~= text@.subrange(
                        start as int,
                        i as int,
                    ).push(c));
                    let w = done.push(text@.subrange(start as int, i as int));
                    assert(w.update(w.len() - 1, w.last().push(c)) =~= done.push(
                        text@.subrange(start as int, i + 1),
                    ));
                }
            } else {
                proof {
                    if i > 0 {
                        assert(nxt[nxt.len() - 2] == text@[i - 1]);
                    }
                    assert(text@.subrange(i as int, i + 1) =~= seq![c]);
                }
                start = i;
                in_word = true;
            }
        }
        i = i + 1;
    }
    assert(text@.subrange(0, n as int) =~= text@);
    if in_word {
        let w = text.substring_char(start, n);
        let ghost old_out = out@.map_values(|u: String| u@);
        let ghost d2 = done.push(w@);
        assert(d2.drop_last() =~= done);
        assert(d2.last() == w@);
        if str_is_http_url(w) {
            out.push(owned(w));
            assert(out@.map_values(|u: String| u@) =~= old_out.push(w@));
        }
    }
    out
}

/// Whether a URL is already queued, from the count of its rows that did not
/// fail (a bulk import skips it then).
pub fn already_queued(count: i64) -> (r: bool)
    ensures
        r == (count > 0),
{
    count > 0
}

/// The bulk-import counts after one target: added when it was queued, else
/// skipped.
pub fn bulk_tally(added: i64, skipped: i64, queued: bool) -> (r: (i64, i64))
    requires
        queued ==> added < i64::MAX,
        !queued ==> skipped < i64::MAX,
    ensures
        r.0 == (if queued {
            added + 1
        } else {
            added as int
        }),
        r.1 == (if queued {
            skipped as int
        } else {
            skipped + 1
        }),
{
    if queued {
        (added + 1, skipped)
    } else {
        (added, skipped + 1)
    }
}

// ── Playlist expansion ──────────────────────────────────────────────────────

/// An entry of a flat playlist listing (string fields; absent when missing
/// or not a string).
#[derive(Debug)]
pub struct PlaylistEntry {
    pub url: Option<String>,
    pub webpage_url: Option<String>,
    pub ie_key: Option<String>,
    pub id: Option<String>,
    pub title: Option<String>,
}

/// The URL an entry resolves to: its own `url` when that is http, else its
/// `webpage_url`, else one rebuilt from a known extractor and the id.
pub open spec fn entry_url(e: PlaylistEntry) -> Option<Seq<char>> {
    match e.url {
        Some(u) if starts_with(u@, "http"@) => Some(u@),
        _ => match e.webpage_url {
            Some(w) => Some(w@),
            None => match e.id {
                None => None,
                Some(id) => {
                    let key = match e.ie_key {
                        Some(k) => k@,
                        None => ""@,
                    };
                    if key == "Youtube"@ {
                        Some("https://www.youtube.com/watch?v="@ + id@)
                    } else if starts_with(key, "Tubi"@) {
                        Some("https://tubitv.com/video/"@ + id@)
                    } else {
                        None
                    }
                },
            },
        },
    }
}

/// The URL a playlist entry resolves to, if any.
pub fn resolve_entry(e: &PlaylistEntry) -> (r: Option<String>)
    ensures
        match entry_url(*e) {
            Some(u) => r matches Some(x) && x@ == u,
            None => r is None,
        },
{
    match &e.url {
        Some(u) => {
            if str_starts_with(u.as_str(), "http") {
                return Some(u.clone());
            }
        },
        None => {},
    }
    match &e.webpage_url {
        Some(w) => {
            return Some(w.clone());
        },
        None => {},
    }
    let id = match &e.id {
        Some(id) => id,
        None => {
            return None;
        },
    };
    let key: &str = match &e.ie_key {
        Some(k) => k.as_str(),
        None => "",
    };
    if str_eq(key, "Youtube") {
        let mut out = owned("https://www.youtube.com/watch?v=");
        out.append(id.as_str());
        Some(out)
    } else if str_starts_with(key, "Tubi") {
        let mut out = owned("https://tubitv.com/video/");
        out.append(id.as_str());
        Some(out)
    } else {
        None
    }
}

/// One episode of an expanded playlist.
#[derive(Debug)]
pub struct Episode {
    pub url: String,
    pub title: String,
}

/// The episodes of a listing: entries that resolve to a URL, titled by their
/// `title` or `episode`.
pub open spec fn episodes_spec(entries: Seq<PlaylistEntry>) -> Seq<(Seq<char>, Seq<char>)>
    decreases entries.len(),
{
    if entries.len() == 0 {
        seq![]
    } else {
        let r = episodes_spec(entries.drop_last());
        let e = entries.last();
        match entry_url(e) {
            Some(u) => r.push(
                (
                    u,
                    match e.title {
                        Some(t) => t@,
                        None => "episode"@,
                    },
                ),
            ),
            None => r,
        }
    }
}

/// The episodes of a series/playlist listing, in order.
pub fn episodes(entries: &Vec<PlaylistEntry>) -> (r: Vec<Episode>)
    ensures
        r@.map_values(|e: Episode| (e.url@, e.title@)) == episodes_spec(entries@),
{
    let n = entries.len();
    let mut out: Vec<Episode> = Vec::new();
    let mut i: usize = 0;
    while i < n
        invariant
            n == entries@.len(),
            i <= n,
            out@.map_values(|e: Episode| (e.url@, e.title@)) == episodes_spec(
                entries@.subrange(0, i as int),
            ),
        decreases n - i,
    {
        let e = &entries[i];
        let ghost pre = entries@.subrange(0, i as int);
        let ghost nxt = entries@.subrange(0, i + 1);
        assert(nxt.drop_last() =~= pre);
        assert(nxt.last() == entries@[i as int]);
        let ghost old_out = out@.map_values(|e: Episode| (e.url@, e.title@));
        match resolve_entry(e) {
            Some(url) => {
                let title = match &e.title {
                    Some(t) => t.clone(),
                    None => owned("episode"),
                };
                let ep = Episode { url, title };
                let ghost item = (ep.url@, ep.title@);
                out.push(ep);
                assert(out@.map_values(|e: Episode| (e.url@, e.title@)) =~= old_out.push(item));
            },
            None => {},
        }
        i = i + 1;
    }
    assert(entries@.subrange(0, n as int) =~= entries@);
    out
}

/// The string fields of a playlist entry, as plain values: `url`,
/// `webpage_url`, `ie_key`, `id`, `title`.
pub open spec fn entry_view(e: PlaylistEntry) -> (
    Option<Seq<char>>,
    Option<Seq<char>>,
    Option<Seq<char>>,
    Option<Seq<char>>,
    Option<Seq<char>>,
) {
    (opt_chars(e.url), opt_chars(e.webpage_url), opt_chars(e.ie_key), opt_chars(e.id), opt_chars(e.title))
}

/// The view of an optional string.
pub open spec fn opt_chars(o: Option<String>) -> Option<Seq<char>> {
    match o {
        Some(s) => Some(s@),
        None => None,
    }
}

/// The entries of yt-dlp's `-J` playlist listing: `None` when the bytes are
/// not JSON or hold no `entries` array, else each entry's string fields (a
/// field is absent when missing or not a string). Computed by serde_json.
pub uninterp spec fn playlist_json(stdout: Seq<u8>) -> Option<
    Seq<(Option<Seq<char>>, Option<Seq<char>>, Option<Seq<char>>, Option<Seq<char>>, Option<Seq<char>>)>,
>;

/// Calls `serde_json::from_slice` into a JSON value and reads its `entries`
/// array, each entry's string fields taken as they are. Claimed: the result
/// is a function of the bytes alone, named `playlist_json`.
#[verifier::external_body]
fn parse_playlist(stdout: &[u8]) -> (r: Option<Vec<PlaylistEntry>>)
    ensures
        match playlist_json(stdout@) {
            Some(es) => r matches Some(v) && v@.map_values(|e: PlaylistEntry| entry_view(e)) == es,
            None => r is None,
        },
{
    let v: serde_json::Value = serde_json::from_slice(stdout).ok()?;
    let f = |e: &serde_json::Value, k: &str| e.get(k).and_then(|x| x.as_str()).map(str::to_string);
    Some(v.get("entries")?.as_array()?.iter().map(|e| PlaylistEntry {
        url: f(e, "url"),
        webpage_url: f(e, "webpage_url"),
        ie_key: f(e, "ie_key"),
        id: f(e, "id"),
        title: f(e, "title"),
    }).collect())
}

/// The URL an entry's fields resolve to (as `entry_url`).
pub open spec fn entry_url_of(
    t: (Option<Seq<char>>, Option<Seq<char>>, Option<Seq<char>>, Option<Seq<char>>, Option<Seq<char>>),
) -> Option<Seq<char>> {
    match t.0 {
        Some(u) if starts_with(u, "http"@) => Some(u),
        _ => match t.1 {
            Some(w) => Some(w),
            None => match t.3 {
                None => None,
                Some(id) => {
                    let key = match t.2 {
                        Some(k) => k,
                        None => ""@,
                    };
                    if key == "Youtube"@ {
                        Some("https://www.youtube.com/watch?v="@ + id)
                    } else if starts_with(key, "Tubi"@) {
                        Some("https://tubitv.com/video/"@ + id)
                    } else {
                        None
                    }
                },
            },
        },
    }
}

/// The episodes of a listing given by its entries' fields (as `episodes_spec`).
pub open spec fn episodes_of(
    ts: Seq<(Option<Seq<char>>, Option<Seq<char>>, Option<Seq<char>>, Option<Seq<char>>, Option<Seq<char>>)>,
) -> Seq<(Seq<char>, Seq<char>)>
    decreases ts.len(),
{
    if ts.len() == 0 {
        seq![]
    } else {
        let r = episodes_of(ts.drop_last());
        let t = ts.last();
        match entry_url_of(t) {
            Some(u) => r.push(
                (
                    u,
                    match t.4 {
                        Some(x) => x,
                        None => "episode"@,
                    },
                ),
            ),
            None => r,
        }
    }
}

proof fn lemma_episodes_of_views(es: Seq<PlaylistEntry>)
    ensures
        episodes_spec(es) == episodes_of(es.map_values(|e: PlaylistEntry| entry_view(e))),
    decreases es.len(),
{
    if es.len() > 0 {
        lemma_episodes_of_views(es.drop_last());
        let vs = es.map_values(|e: PlaylistEntry| entry_view(e));
        assert(vs.drop_last() =~= es.drop_last().map_values(|e: PlaylistEntry| entry_view(e)));
        assert(vs.last() == entry_view(es.last()));
        assert(entry_url(es.last()) == entry_url_of(entry_view(es.last())));
    }
}

/// The episodes a playlist listing run yields: none when yt-dlp failed or
/// printed no playlist, else the episodes of its entries.
pub fn playlist_episodes(succeeded: bool, stdout: &[u8]) -> (r: Vec<Episode>)
    ensures
        r@.map_values(|e: Episode| (e.url@, e.title@)) == if !succeeded {
            seq![]
        } else {
            match playlist_json(stdout@) {
                Some(es) => episodes_of(es),
                None => seq![],
            }
        },
{
    if !succeeded {
        let out: Vec<Episode> = Vec::new();
        assert(out@.map_values(|e: Episode| (e.url@, e.title@)) =~= seq![]);
        return out;
    }
    match parse_playlist(stdout) {
        Some(entries) => {
            let out = episodes(&entries);
            proof {
                lemma_episodes_of_views(entries@);
            }
            out
        },
        None => {
            let out: Vec<Episode> = Vec::new();
            assert(out@.map_values(|e: Episode| (e.url@, e.title@)) =~= seq![]);
            out
        },
    }
}

// ── Episode names ───────────────────────────────────────────────────────────

/// Path separators become `_`.
pub open spec fn map_slashes(s: Seq<char>) -> Seq<char> {
    s.map_values(|c: char| if c == '/' || c == '\\' { '_' } else { c })
}

/// Every `..` becomes `_`, left to right without overlap.
pub open spec fn replace_dotdot(s: Seq<char>) -> Seq<char>
    decreases s.len(),
{
    if s.len() == 0 {
        s
    } else if s.len() >= 2 && s[0] == '.' && s[1] == '.' {
        seq!['_'] + replace_dotdot(s.subrange(2, s.len() as int))
    } else {
        seq![s[0]] + replace_dotdot(s.drop_first())
    }
}

/// `s` without its control characters.
pub open spec fn drop_controls(s: Seq<char>) -> Seq<char>
    decreases s.len(),
{
    if s.len() == 0 {
        s
    } else if is_control(s.last()) {
        drop_controls(s.drop_last())
    } else {
        drop_controls(s.drop_last()).push(s.last())
    }
}

/// A title made safe as a file name: separators and `..` become `_`,
/// control characters go, and surrounding whitespace is trimmed.
pub open spec fn sanitize_title_spec(title: Seq<char>) -> Seq<char> {
    trim(drop_controls(replace_dotdot(map_slashes(title))))
}

fn map_slashes_exec(s: &str) -> (r: String)
    ensures
        r@ == map_slashes(s@),
{
    let n = s.unicode_len();
    let mut out = String::new();
    let mut i: usize = 0;
    while i < n
        invariant
            n == s@.len(),
            i <= n,
            out@ == map_slashes(s@.subrange(0, i as int)),
        decreases n - i,
    {
        let c = s.get_char(i);
        if c == '/' || c == '\\' {
            out.append("_");
            proof {
                reveal_strlit("_");
            }
        } else {
            push_char_at(&mut out, s, i);
        }
        assert(map_slashes(s@.subrange(0, i + 1)) =~= map_slashes(s@.subrange(0, i as int)).push(
            if c == '/' || c == '\\' {
                '_'
            } else {
                c
            },
        ));
        i = i + 1;
    }
    assert(s@.subrange(0, n as int) =~= s@);
    out
}

fn replace_dotdot_exec(s: &str) -> (r: String)
    ensures
        r@ == replace_dotdot(s@),
{
    let n = s.unicode_len();
    let mut out = String::new();
    let mut i: usize = 0;
    assert(s@.subrange(0, n as int) =~= s@);
    while i < n
        invariant
            n == s@.len(),
            i <= n,
            out@ + replace_dotdot(s@.subrange(i as int, n as int)) == replace_dotdot(s@),
        decreases n - i,
    {
        let ghost rest = s@.subrange(i as int, n as int);
        let c = s.get_char(i);
        assert(rest[0] == c);
        if c == '.' && i + 1 < n && s.get_char(i + 1) == '.' {
            assert(rest[1] == s@[i + 1]);
            out.append("_");
            proof {
                reveal_strlit("_");
                assert(rest.subrange(2, rest.len() as int) =~= s@.subrange(i + 2, n as int));
            }
            assert(out@ + replace_dotdot(s@.subrange(i + 2, n as int)) =~= replace_dotdot(s@));
            i = i + 2;
        } else {
            push_char_at(&mut out, s, i);
            proof {
                assert(rest.drop_first() =~= s@.subrange(i + 1, n as int));
            }
            assert(out@ + replace_dotdot(s@.subrange(i + 1, n as int)) =~= replace_dotdot(s@));
            i = i + 1;
        }
    }
    assert(s@.subrange(n as int, n as int).len() == 0);
    assert(out@ =~= replace_dotdot(s@));
    out
}

fn drop_controls_exec(s: &str) -> (r: String)
    ensures
        r@ == drop_controls(s@),
{
    let n = s.unicode_len();
    let mut out = String::new();
    let mut i: usize = 0;
    while i < n
        invariant
            n == s@.len(),
            i <= n,
            out@ == drop_controls(s@.subrange(0, i as int)),
        decreases n - i,
    {
        let c = s.get_char(i);
        let ghost nxt = s@.subrange(0, i + 1);
        assert(nxt.drop_last() =~= s@.subrange(0, i as int));
        assert(nxt.last() == c);
        if !char_is_control(c) {
            push_char_at(&mut out, s, i);
        }
        i = i + 1;
    }
    assert(s@.subrange(0, n as int) =~= s@);
    out
}

/// Make a title safe to use in a file name.
pub fn sanitize_title(title: &str) -> (r: String)
    ensures
        r@ == sanitize_title_spec(title@),
{
    let a = map_slashes_exec(title);
    let b = replace_dotdot_exec(a.as_str());
    let c = drop_controls_exec(b.as_str());
    owned(str_trim(c.as_str()))
}

/// The save-as name of the `index`-th (0-based) episode: `NN - <title>`.
pub fn episode_save_as(index: usize, title: &str) -> (r: String)
    requires
        index < u64::MAX,
    ensures
        r@ == dec2((index + 1) as nat) + " - "@ + sanitize_title_spec(title@),
{
    let mut out = String::new();
    push_dec2(&mut out, (index as u64) + 1);
    out.append(" - ");
    let t = sanitize_title(title);
    out.append(t.as_str());
    out
}

/// What one pasted URL queues: the URL itself when it expands to nothing,
/// else every episode with a numbered save-as name.
pub open spec fn targets_spec(url: Seq<char>, eps: Seq<Episode>) -> Seq<(Seq<char>, Option<Seq<char>>)> {
    if eps.len() == 0 {
        seq![(url, None)]
    } else {
        Seq::new(
            eps.len(),
            |i: int|
                (
                    eps[i].url@,
                    Some(dec2((i + 1) as nat) + " - "@ + sanitize_title_spec(eps[i].title@)),
                ),
        )
    }
}

/// The views of a target list.
pub open spec fn targets_view(t: Seq<(String, Option<String>)>) -> Seq<(Seq<char>, Option<Seq<char>>)> {
    t.map_values(
        |p: (String, Option<String>)|
            (
                p.0@,
                match p.1 {
                    Some(s) => Some(s@),
                    None => None,
                },
            ),
    )
}

/// The downloads one pasted URL turns into.
pub fn download_targets(url: &str, eps: &Vec<Episode>) -> (r: Vec<(String, Option<String>)>)
    ensures
        targets_view(r@) == targets_spec(url@, eps@),
{
    let mut out: Vec<(String, Option<String>)> = Vec::new();
    let n = eps.len();
    if n == 0 {
        out.push((owned(url), None));
        assert(targets_view(out@) =~= targets_spec(url@, eps@));
        return out;
    }
    let mut i: usize = 0;
    while i < n
        invariant
            n == eps@.len(),
            i <= n,
            targets_view(out@) == targets_spec(url@, eps@).subrange(0, i as int),
        decreases n - i,
    {
        let name = episode_save_as(i, eps[i].title.as_str());
        let item = (eps[i].url.clone(), Some(name));
        let ghost old_v = targets_view(out@);
        out.push(item);
        assert(targets_view(out@) =~= old_v.push(targets_spec(url@, eps@)[i as int]));
        assert(targets_spec(url@, eps@).subrange(0, i + 1) =~= targets_spec(url@, eps@).subrange(
            0,
            i as int,
        ).push(targets_spec(url@, eps@)[i as int]));
        i = i + 1;
    }
    assert(targets_spec(url@, eps@).subrange(0, n as int) =~= targets_spec(url@, eps@));
    out
}

// ── Cookies upload ──────────────────────────────────────────────────────────

/// Why an uploaded cookies file is refused.
#[derive(Clone, Copy, Debug, PartialEq, Eq, Structural)]
pub enum CookiesRejection {
    /// Nothing was uploaded (400 `empty`).
    Empty,
    /// More than 2 MiB (413 `too_large`).
    TooLarge,
    /// Not a Netscape cookies file (400 `not_cookies`).
    NotCookies,
}

/// `p` occurs in `s`.
pub open spec fn bytes_contain(s: Seq<u8>, p: Seq<u8>) -> bool {
    exists|i: int| 0 <= i && i + p.len() <= s.len() && #[trigger] s.subrange(i, i + p.len()) == p
}

fn bytes_match_at(s: &[u8], p: &[u8], i: usize, n: usize) -> (r: bool)
    requires
        n == s@.len(),
        i + p@.len() <= n,
    ensures
        r == (s@.subrange(i as int, i + p@.len()) == p@),
{
    let m = p.len();
    let mut k: usize = 0;
    while k < m
        invariant
            m == p@.len(),
            n == s@.len(),
            i + m <= n,
            k <= m,
            forall|j: int| 0 <= j < k ==> s@[i + j] == p@[j],
        decreases m - k,
    {
        if s[i + k] != p[k] {
            assert(s@.subrange(i as int, i + m)[k as int] != p@[k as int]);
            return false;
        }
        k = k + 1;
    }
    assert(s@.subrange(i as int, i + m) =~= p@);
    true
}

/// Whether `p` occurs in `s`.
pub fn bytes_contains(s: &[u8], p: &[u8]) -> (r: bool)
    ensures
        r == bytes_contain(s@, p@),
{
    let n = s.len();
    let m = p.len();
    if m > n {
        return false;
    }
    if m == 0 {
        assert(s@.subrange(0int, 0int + p@.len()) =~= p@);
        return true;
    }
    let mut i: usize = 0;
    while i <= n - m
        invariant
            n == s@.len(),
            m == p@.len(),
            0 < m <= n,
            forall|j: int| 0 <= j < i ==> #[trigger] s@.subrange(j, j + m) != p@,
        decreases n - i,
    {
        if bytes_match_at(s, p, i, n) {
            return true;
        }
        i = i + 1;
    }
    assert forall|j: int| 0 <= j && j + m <= n implies #[trigger] s@.subrange(j, j + m) != p@ by {
        assert(j < i);
    }
    false
}

/// Check an uploaded `cookies.txt`: non-empty, at most 2 MiB, and either
/// mentioning `Netscape` or holding a tab.
pub fn check_cookies(body: &[u8]) -> (r: Result<(), CookiesRejection>)
    ensures
        r == (if body@.len() == 0 {
            Err(CookiesRejection::Empty)
        } else if body@.len() > 2 * 1024 * 1024 {
            Err(CookiesRejection::TooLarge)
        } else if !bytes_contain(body@, "Netscape"@.map_values(|c: char| c as u8))
            && !bytes_contain(body@, seq![9u8]) {
            Err(CookiesRejection::NotCookies)
        } else {
            Ok(())
        }),
{
    if body.len() == 0 {
        return Err(CookiesRejection::Empty);
    }
    if body.len() > 2 * 1024 * 1024 {
        return Err(CookiesRejection::TooLarge);
    }
    let netscape: [u8; 8] = [78, 101, 116, 115, 99, 97, 112, 101];
    let tab: [u8; 1] = [9];
    proof {
        reveal_strlit("Netscape");
        assert(netscape@ =~= "Netscape"@.map_values(|c: char| c as u8));
        assert(tab@ =~= seq![9u8]);
    }
    if !bytes_contains(body, netscape.as_slice()) && !bytes_contains(body, tab.as_slice()) {
        return Err(CookiesRejection::NotCookies);
    }
    Ok(())
}

} // verus!

verus! {

/// No char of `s` is a path separator or a control character.
pub open spec fn safe_chars(s: Seq<char>) -> bool {
    forall|i: int| 0 <= i < s.len() ==> #[trigger] s[i] != '/' && s[i] != '\\' && !is_control(s[i])
}

/// No char of `s` is a path separator.
pub open spec fn no_separators(s: Seq<char>) -> bool {
    forall|i: int| 0 <= i < s.len() ==> #[trigger] s[i] != '/' && s[i] != '\\'
}

/// `s` holds no `..`.
pub open spec fn no_dotdot(s: Seq<char>) -> bool {
    forall|i: int| 0 <= i < s.len() - 1 ==> !(#[trigger] s[i] == '.' && s[i + 1] == '.')
}

/// No char of `s` is a control character.
pub open spec fn no_controls(s: Seq<char>) -> bool {
    forall|i: int| 0 <= i < s.len() ==> !is_control(#[trigger] s[i])
}

proof fn lemma_map_slashes(s: Seq<char>)
    ensures
        no_separators(map_slashes(s)),
        no_controls(s) ==> no_controls(map_slashes(s)),
{
    assert forall|i: int| 0 <= i < map_slashes(s).len() implies #[trigger] map_slashes(s)[i] != '/'
        && map_slashes(s)[i] != '\\' by {
        assert(map_slashes(s)[i] == (if s[i] == '/' || s[i] == '\\' {
            '_'
        } else {
            s[i]
        }));
    }
    if no_controls(s) {
        assert forall|i: int| 0 <= i < map_slashes(s).len() implies !is_control(
            #[trigger] map_slashes(s)[i],
        ) by {
            assert(map_slashes(s)[i] == (if s[i] == '/' || s[i] == '\\' {
                '_'
            } else {
                s[i]
            }));
            assert(!is_control(s[i]));
        }
    }
}

proof fn lemma_replace_first(s: Seq<char>)
    requires
        s.len() > 0,
    ensures
        replace_dotdot(s).len() > 0,
        replace_dotdot(s)[0] == (if s.len() >= 2 && s[0] == '.' && s[1] == '.' {
            '_'
        } else {
            s[0]
        }),
{
}

proof fn lemma_replace_dotdot(s: Seq<char>)
    ensures
        no_dotdot(replace_dotdot(s)),
        no_separators(s) ==> no_separators(replace_dotdot(s)),
        no_controls(s) ==> no_controls(replace_dotdot(s)),
    decreases s.len(),
{
    if s.len() == 0 {
    } else if s.len() >= 2 && s[0] == '.' && s[1] == '.' {
        let t = s.subrange(2, s.len() as int);
        lemma_replace_dotdot(t);
        let r = replace_dotdot(s);
        assert(r == seq!['_'] + replace_dotdot(t));
        if no_separators(s) {
            assert(no_separators(t)) by {
                assert forall|i: int| 0 <= i < t.len() implies #[trigger] t[i] != '/' && t[i]
                    != '\\' by {
                    assert(t[i] == s[i + 2]);
                }
            }
        }
        if no_controls(s) {
            assert(no_controls(t)) by {
                assert forall|i: int| 0 <= i < t.len() implies !is_control(#[trigger] t[i]) by {
                    assert(t[i] == s[i + 2]);
                }
            }
        }
        assert forall|i: int| 0 <= i < r.len() - 1 implies !(#[trigger] r[i] == '.' && r[i + 1]
            == '.') by {
            if i > 0 {
                assert(r[i] == replace_dotdot(t)[i - 1]);
                assert(r[i + 1] == replace_dotdot(t)[i]);
            }
        }
    } else {
        let t = s.drop_first();
        lemma_replace_dotdot(t);
        let r = replace_dotdot(s);
        assert(r == seq![s[0]] + replace_dotdot(t));
        if no_separators(s) {
            assert(no_separators(t)) by {
                assert forall|i: int| 0 <= i < t.len() implies #[trigger] t[i] != '/' && t[i]
                    != '\\' by {
                    assert(t[i] == s[i + 1]);
                }
            }
            assert(s[0] != '/' && s[0] != '\\');
        }
        if no_controls(s) {
            assert(no_controls(t)) by {
                assert forall|i: int| 0 <= i < t.len() implies !is_control(#[trigger] t[i]) by {
                    assert(t[i] == s[i + 1]);
                }
            }
            assert(!is_control(s[0]));
        }
        assert forall|i: int| 0 <= i < r.len() - 1 implies !(#[trigger] r[i] == '.' && r[i + 1]
            == '.') by {
            if i > 0 {
                assert(r[i] == replace_dotdot(t)[i - 1]);
                assert(r[i + 1] == replace_dotdot(t)[i]);
            } else if s[0] == '.' && t.len() > 0 {
                lemma_replace_first(t);
                assert(t[0] == s[1]);
                assert(r[1] == replace_dotdot(t)[0]);
            }
        }
    }
}

proof fn lemma_drop_controls(s: Seq<char>)
    ensures
        no_controls(drop_controls(s)),
        no_separators(s) ==> no_separators(drop_controls(s)),
        no_controls(s) ==> drop_controls(s) == s,
    decreases s.len(),
{
    if s.len() > 0 {
        let t = s.drop_last();
        lemma_drop_controls(t);
        if no_separators(s) {
            assert(no_separators(t)) by {
                assert forall|i: int| 0 <= i < t.len() implies #[trigger] t[i] != '/' && t[i]
                    != '\\' by {
                    assert(t[i] == s[i]);
                }
            }
            assert(s.last() == s[s.len() - 1]);
        }
        if no_controls(s) {
            assert(no_controls(t)) by {
                assert forall|i: int| 0 <= i < t.len() implies !is_control(#[trigger] t[i]) by {
                    assert(t[i] == s[i]);
                }
            }
            assert(!is_control(s[s.len() - 1]));
            assert(t.push(s.last()) =~= s);
        }
    }
}

proof fn lemma_trim_start_keeps(s: Seq<char>)
    ensures
        safe_chars(s) ==> safe_chars(crate::text::trim_start(s)),
        no_dotdot(s) ==> no_dotdot(crate::text::trim_start(s)),
    decreases s.len(),
{
    if s.len() > 0 && is_ws(s[0]) {
        let t = s.drop_first();
        if safe_chars(s) {
            assert forall|i: int| 0 <= i < t.len() implies #[trigger] t[i] != '/' && t[i] != '\\'
                && !is_control(t[i]) by {
                assert(t[i] == s[i + 1]);
            }
        }
        if no_dotdot(s) {
            assert forall|i: int| 0 <= i < t.len() - 1 implies !(#[trigger] t[i] == '.' && t[i + 1]
                == '.') by {
                assert(t[i] == s[i + 1]);
                assert(t[i + 1] == s[i + 2]);
            }
        }
        lemma_trim_start_keeps(t);
    }
}

proof fn lemma_trim_end_keeps(s: Seq<char>)
    ensures
        safe_chars(s) ==> safe_chars(crate::text::trim_end(s)),
        no_dotdot(s) ==> no_dotdot(crate::text::trim_end(s)),
    decreases s.len(),
{
    if s.len() > 0 && is_ws(s.last()) {
        let t = s.drop_last();
        if safe_chars(s) {
            assert forall|i: int| 0 <= i < t.len() implies #[trigger] t[i] != '/' && t[i] != '\\'
                && !is_control(t[i]) by {
                assert(t[i] == s[i]);
            }
        }
        if no_dotdot(s) {
            assert forall|i: int| 0 <= i < t.len() - 1 implies !(#[trigger] t[i] == '.' && t[i + 1]
                == '.') by {
                assert(t[i] == s[i]);
                assert(t[i + 1] == s[i + 1]);
            }
        }
        lemma_trim_end_keeps(t);
    }
}

/// Law: an entry resolves to its own `url` when that begins with `http`;
/// otherwise to its `webpage_url`; otherwise, from its id, to a YouTube watch
/// URL when the extractor is `Youtube`, to a Tubi video URL when the extractor
/// begins with `Tubi`, and to nothing else.
pub proof fn entry_url_cases(e: PlaylistEntry, entry: Option<Seq<char>>)
    requires
        entry == entry_url(e),
    ensures
        ({
            let http = match e.url {
                Some(u) => (u@.len() >= 4 && u@[0] == 'h' && u@[1] == 't' && u@[2] == 't' && u@[3] == 'p'),
                None => false,
            };
            let key = match e.ie_key {
                Some(k) => k@,
                None => seq![],
            };
            &&& http ==> entry == match e.url {
                Some(u) => Some(u@),
                None => None,
            }
            &&& !http && e.webpage_url is Some ==> entry == match e.webpage_url {
                Some(w) => Some(w@),
                None => None,
            }
            &&& !http && e.webpage_url is None && e.id is None ==> entry is None
            &&& !http && e.webpage_url is None ==> match e.id {
                Some(id) => if key == seq!['Y', 'o', 'u', 't', 'u', 'b', 'e'] {
                    entry == Some("https://www.youtube.com/watch?v="@ + id@)
                } else if (key.len() >= 4 && key[0] == 'T' && key[1] == 'u' && key[2] == 'b' && key[3] == 'i') {
                    entry == Some("https://tubitv.com/video/"@ + id@)
                } else {
                    entry is None
                },
                None => true,
            }
        }),
{
    reveal_strlit("http");
    reveal_strlit("Youtube");
    reveal_strlit("Tubi");
    reveal_strlit("");
    assert(""@ =~= Seq::<char>::empty());
    assert("http"@ =~= seq!['h', 't', 't', 'p']);
    assert("Tubi"@ =~= seq!['T', 'u', 'b', 'i']);
    assert("Youtube"@ =~= seq!['Y', 'o', 'u', 't', 'u', 'b', 'e']);
    match e.url {
        Some(u) => {
            if u@.len() >= 4 {
                if u@[0] == 'h' && u@[1] == 't' && u@[2] == 't' && u@[3] == 'p' {
                    assert(u@.subrange(0, 4) =~= "http"@);
                }
                if u@.subrange(0, 4) == "http"@ {
                    assert(u@[0] == u@.subrange(0, 4)[0]);
                    assert(u@[1] == u@.subrange(0, 4)[1]);
                    assert(u@[2] == u@.subrange(0, 4)[2]);
                    assert(u@[3] == u@.subrange(0, 4)[3]);
                }
            }
        },
        None => {},
    }
    match e.ie_key {
        Some(k) => {
            if k@.len() >= 4 {
                if k@[0] == 'T' && k@[1] == 'u' && k@[2] == 'b' && k@[3] == 'i' {
                    assert(k@.subrange(0, 4) =~= "Tubi"@);
                }
                if k@.subrange(0, 4) == "Tubi"@ {
                    assert(k@[0] == k@.subrange(0, 4)[0]);
                    assert(k@[1] == k@.subrange(0, 4)[1]);
                    assert(k@[2] == k@.subrange(0, 4)[2]);
                    assert(k@[3] == k@.subrange(0, 4)[3]);
                }
            }
        },
        None => {},
    }
}

/// Law: the same resolution, over an entry's fields as plain text (url,
/// webpage url, extractor, id, title).
pub proof fn entry_url_of_cases(
    t: (Option<Seq<char>>, Option<Seq<char>>, Option<Seq<char>>, Option<Seq<char>>, Option<Seq<char>>),
    entry: Option<Seq<char>>,
)
    requires
        entry == entry_url_of(t),
    ensures
        ({
            let http = match t.0 {
                Some(u) => (u.len() >= 4 && u[0] == 'h' && u[1] == 't' && u[2] == 't' && u[3] == 'p'),
                None => false,
            };
            let key = match t.2 {
                Some(k) => k,
                None => seq![],
            };
            &&& http ==> entry == match t.0 {
                Some(u) => Some(u),
                None => None,
            }
            &&& !http && t.1 is Some ==> entry == match t.1 {
                Some(w) => Some(w),
                None => None,
            }
            &&& !http && t.1 is None && t.3 is None ==> entry is None
            &&& !http && t.1 is None ==> match t.3 {
                Some(id) => if key == seq!['Y', 'o', 'u', 't', 'u', 'b', 'e'] {
                    entry == Some("https://www.youtube.com/watch?v="@ + id)
                } else if (key.len() >= 4 && key[0] == 'T' && key[1] == 'u' && key[2] == 'b' && key[3] == 'i') {
                    entry == Some("https://tubitv.com/video/"@ + id)
                } else {
                    entry is None
                },
                None => true,
            }
        }),
{
    reveal_strlit("http");
    reveal_strlit("Youtube");
    reveal_strlit("Tubi");
    reveal_strlit("");
    assert(""@ =~= Seq::<char>::empty());
    assert("http"@ =~= seq!['h', 't', 't', 'p']);
    assert("Tubi"@ =~= seq!['T', 'u', 'b', 'i']);
    assert("Youtube"@ =~= seq!['Y', 'o', 'u', 't', 'u', 'b', 'e']);
    match t.0 {
        Some(u) => {
            if u.len() >= 4 {
                if u[0] == 'h' && u[1] == 't' && u[2] == 't' && u[3] == 'p' {
                    assert(u.subrange(0, 4) =~= "http"@);
                }
                if u.subrange(0, 4) == "http"@ {
                    assert(u[0] == u.subrange(0, 4)[0]);
                    assert(u[1] == u.subrange(0, 4)[1]);
                    assert(u[2] == u.subrange(0, 4)[2]);
                    assert(u[3] == u.subrange(0, 4)[3]);
                }
            }
        },
        None => {},
    }
    match t.2 {
        Some(k) => {
            if k.len() >= 4 {
                if k[0] == 'T' && k[1] == 'u' && k[2] == 'b' && k[3] == 'i' {
                    assert(k.subrange(0, 4) =~= "Tubi"@);
                }
                if k.subrange(0, 4) == "Tubi"@ {
                    assert(k[0] == k.subrange(0, 4)[0]);
                    assert(k[1] == k.subrange(0, 4)[1]);
                    assert(k[2] == k.subrange(0, 4)[2]);
                    assert(k[3] == k.subrange(0, 4)[3]);
                }
            }
        },
        None => {},
    }
}

/// Law: a sanitized title holds no path separator and no control character,
/// and has no surrounding whitespace; when the title has no control
/// characters it also holds no `..`. (A control character between two dots
/// is dropped after the `..` pass, so `.\u{1}.` sanitizes to `..`.)
pub proof fn sanitized_title_is_safe(title: Seq<char>)
    ensures
        safe_chars(sanitize_title_spec(title)),
        sanitize_title_spec(title) == trim(sanitize_title_spec(title)),
        no_controls(title) ==> no_dotdot(sanitize_title_spec(title)),
{
    let a = map_slashes(title);
    let b = replace_dotdot(a);
    let c = drop_controls(b);
    lemma_map_slashes(title);
    lemma_replace_dotdot(a);
    lemma_drop_controls(b);
    assert(safe_chars(c));
    lemma_trim_start_keeps(c);
    lemma_trim_end_keeps(crate::text::trim_start(c));
    crate::text::lemma_trim_idempotent(c);
    if no_controls(title) {
        assert(c == b);
        assert(no_dotdot(c));
    }
}

/// Law: every URL a bulk import queues is an http(s) URL.
pub proof fn bulk_urls_are_http(ws: Seq<Seq<char>>)
    ensures
        forall|i: int| 0 <= i < http_only(ws).len() ==> is_http_url(#[trigger] http_only(ws)[i]),
    decreases ws.len(),
{
    if ws.len() > 0 {
        bulk_urls_are_http(ws.drop_last());
        let r = http_only(ws.drop_last());
        if is_http_url(ws.last()) {
            assert forall|i: int| 0 <= i < http_only(ws).len() implies is_http_url(
                #[trigger] http_only(ws)[i],
            ) by {
                if i < r.len() {
                    assert(http_only(ws)[i] == r[i]);
                }
            }
        }
    }
}

} // verus!
