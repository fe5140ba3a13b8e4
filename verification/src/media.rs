//! Sonarr / Radarr helpers: provider detection, API paths, lookups, queue and
//! calendar items, and the decisions of adding and importing media.

use vstd::prelude::*;
use crate::text::{
    before_char, contains, owned, str_before_char, str_contains, str_eq, str_trim,
    str_trim_end_char, str_trim_start_char, trim, trim_end_char, trim_start_char,
};

verus! {

/// `GET /api/media/{service}/search?term=`.
#[derive(Debug)]
pub struct SearchQuery {
    pub term: String,
}

/// `POST /api/media/{service}/add`.
#[derive(Debug)]
pub struct AddBody {
    pub term: String,
}

/// `GET /api/media/{service}/manual-import?file=<name>`.
#[derive(Debug)]
pub struct FileQuery {
    /// File name relative to the shared downloads folder.
    pub file: String,
}

/// `GET /api/media/sonarr/episodes?series_id=N`.
#[derive(Debug)]
pub struct EpisodesQuery {
    pub series_id: i64,
}

// ── Provider of a media URL ─────────────────────────────────────────────────

/// Whether every char of `s` is ASCII.
pub open spec fn is_ascii_text(s: Seq<char>) -> bool {
    forall|i: int| 0 <= i < s.len() ==> (#[trigger] s[i] as u32) < 128
}

/// The ASCII lowercase of a char (other chars unchanged).
pub open spec fn ascii_lower_char(c: char) -> char {
    if 'A' <= c && c <= 'Z' {
        ((c as u32) + 32) as char
    } else {
        c
    }
}

/// The ASCII uppercase of a char (other chars unchanged).
pub open spec fn ascii_upper_char(c: char) -> char {
    if 'a' <= c && c <= 'z' {
        ((c as u32) - 32) as char
    } else {
        c
    }
}

/// `s` with its ASCII letters lowercased (`str::to_ascii_lowercase`).
pub open spec fn ascii_lower(s: Seq<char>) -> Seq<char> {
    s.map_values(|c: char| ascii_lower_char(c))
}

/// `s` with its ASCII letters uppercased (`str::to_ascii_uppercase`).
pub open spec fn ascii_upper(s: Seq<char>) -> Seq<char> {
    s.map_values(|c: char| ascii_upper_char(c))
}

/// The lowercase form of `s` (`str::to_lowercase`, Unicode lowercase mapping).
pub uninterp spec fn lowercase(s: Seq<char>) -> Seq<char>;

/// Calls `str::to_lowercase`; claimed: the result is a function of `s`
/// alone, named `lowercase`, and on ASCII text it lowercases the ASCII
/// letters and keeps every other char (each ASCII char's lowercase mapping is
/// its ASCII lowercase).
#[verifier::external_body]
pub(crate) fn to_lowercase(s: &str) -> (r: String)
    ensures
        r@ == lowercase(s@),
        is_ascii_text(s@) ==> r@ == ascii_lower(s@),
{
    s.to_lowercase()
}

/// The provider a lowercased host names.
pub open spec fn provider_spec(lower: Seq<char>) -> Seq<char> {
    if contains(lower, "vimeo.com"@) {
        "vimeo"@
    } else if contains(lower, "youtube.com"@) || contains(lower, "youtu.be"@) {
        "youtube"@
    } else {
        "url"@
    }
}

/// The provider name of an already-lowercased host.
pub fn provider_of_lowercase(lower: &str) -> (r: &'static str)
    ensures
        r@ == provider_spec(lower@),
{
    if str_contains(lower, "vimeo.com") {
        "vimeo"
    } else if str_contains(lower, "youtube.com") || str_contains(lower, "youtu.be") {
        "youtube"
    } else {
        "url"
    }
}

/// What follows the first `://` in `s`, if it holds one.
pub open spec fn after_scheme(s: Seq<char>) -> Option<Seq<char>>
    decreases s.len(),
{
    if s.len() < 3 {
        None
    } else if s[0] == ':' && s[1] == '/' && s[2] == '/' {
        Some(s.subrange(3, s.len() as int))
    } else {
        after_scheme(s.drop_first())
    }
}

/// Whether `c` ends the host part of a URL.
pub open spec fn ends_host(c: char) -> bool {
    c == '/' || c == '?' || c == '#'
}

/// The text of `s` before its first `/`, `?` or `#`.
pub open spec fn host_prefix(s: Seq<char>) -> Seq<char>
    decreases s.len(),
{
    if s.len() == 0 {
        s
    } else if ends_host(s[0]) {
        seq![]
    } else {
        seq![s[0]] + host_prefix(s.drop_first())
    }
}

/// The host part of a URL: after `://` (or from the start when there is
/// none), up to the first `/`, `?` or `#`.
pub open spec fn host_of(url: Seq<char>) -> Seq<char> {
    host_prefix(
        match after_scheme(url) {
            Some(r) => r,
            None => url,
        },
    )
}

/// Where the text after the first `://` starts, if there is one.
fn scheme_end(url: &str) -> (r: Option<usize>)
    ensures
        match after_scheme(url@) {
            Some(rest) => r matches Some(k) && k <= url@.len() && rest == url@.subrange(
                k as int,
                url@.len() as int,
            ),
            None => r is None,
        },
{
    let n = url.unicode_len();
    let mut i: usize = 0;
    assert(url@.subrange(0, n as int) =~= url@);
    while i < n && n - i >= 3
        invariant
            n == url@.len(),
            i <= n,
            after_scheme(url@) == after_scheme(url@.subrange(i as int, n as int)),
        decreases n - i,
    {
        let ghost rest = url@.subrange(i as int, n as int);
        assert(rest[0] == url@[i as int] && rest[1] == url@[i + 1] && rest[2] == url@[i + 2]);
        if url.get_char(i) == ':' && url.get_char(i + 1) == '/' && url.get_char(i + 2) == '/' {
            assert(rest.subrange(3, rest.len() as int) =~= url@.subrange(i + 3, n as int));
            return Some(i + 3);
        }
        assert(rest.drop_first() =~= url@.subrange(i + 1, n as int));
        i = i + 1;
    }
    None
}

/// Where the host part starting at `k` ends.
fn host_end(url: &str, k: usize) -> (r: usize)
    requires
        k <= url@.len(),
    ensures
        k <= r <= url@.len(),
        host_prefix(url@.subrange(k as int, url@.len() as int)) == url@.subrange(k as int, r as int),
{
    let n = url.unicode_len();
    let mut j: usize = k;
    assert(url@.subrange(k as int, k as int) + host_prefix(url@.subrange(k as int, n as int))
        =~= host_prefix(url@.subrange(k as int, n as int)));
    while j < n
        invariant
            n == url@.len(),
            k <= j <= n,
            host_prefix(url@.subrange(k as int, n as int)) == url@.subrange(k as int, j as int)
                + host_prefix(url@.subrange(j as int, n as int)),
        decreases n - j,
    {
        let c = url.get_char(j);
        let ghost rest = url@.subrange(j as int, n as int);
        assert(rest[0] == c);
        if c == '/' || c == '?' || c == '#' {
            assert(url@.subrange(k as int, j as int) + seq![] =~= url@.subrange(k as int, j as int));
            return j;
        }
        proof {
            let tail = host_prefix(url@.subrange(j + 1, n as int));
            assert(rest.drop_first() =~= url@.subrange(j + 1, n as int));
            assert(url@.subrange(k as int, j as int) + (seq![c] + tail) =~= url@.subrange(
                k as int,
                j + 1,
            ) + tail);
        }
        j = j + 1;
    }
    assert(url@.subrange(k as int, n as int) + host_prefix(url@.subrange(n as int, n as int))
        =~= url@.subrange(k as int, n as int));
    n
}

/// The host part of a URL (see `host_of`).
pub fn url_host(url: &str) -> (r: &str)
    ensures
        r@ == host_of(url@),
{
    let n = url.unicode_len();
    let k = match scheme_end(url) {
        Some(k) => k,
        None => {
            assert(url@.subrange(0, n as int) =~= url@);
            0
        },
    };
    let e = host_end(url, k);
    url.substring_char(k, e)
}

proof fn lemma_after_scheme_ascii(s: Seq<char>)
    requires
        is_ascii_text(s),
    ensures
        after_scheme(s) matches Some(r) ==> is_ascii_text(r),
        after_scheme(ascii_upper(s)) == match after_scheme(s) {
            Some(r) => Some(ascii_upper(r)),
            None => None,
        },
    decreases s.len(),
{
    let u = ascii_upper(s);
    if s.len() >= 3 {
        assert(u[0] == ascii_upper_char(s[0]) && u[1] == ascii_upper_char(s[1]) && u[2]
            == ascii_upper_char(s[2]));
        if s[0] == ':' && s[1] == '/' && s[2] == '/' {
            let r = s.subrange(3, s.len() as int);
            assert forall|i: int| 0 <= i < r.len() implies (#[trigger] r[i] as u32) < 128 by {
                assert(r[i] == s[i + 3]);
            }
            assert(u.subrange(3, u.len() as int) =~= ascii_upper(r));
        } else {
            let t = s.drop_first();
            assert forall|i: int| 0 <= i < t.len() implies (#[trigger] t[i] as u32) < 128 by {
                assert(t[i] == s[i + 1]);
            }
            lemma_after_scheme_ascii(t);
            assert(u.drop_first() =~= ascii_upper(t));
        }
    }
}

proof fn lemma_host_prefix_ascii(s: Seq<char>)
    requires
        is_ascii_text(s),
    ensures
        is_ascii_text(host_prefix(s)),
        host_prefix(ascii_upper(s)) == ascii_upper(host_prefix(s)),
    decreases s.len(),
{
    let u = ascii_upper(s);
    if s.len() > 0 {
        assert(u[0] == ascii_upper_char(s[0]));
        let t = s.drop_first();
        assert forall|i: int| 0 <= i < t.len() implies (#[trigger] t[i] as u32) < 128 by {
            assert(t[i] == s[i + 1]);
        }
        lemma_host_prefix_ascii(t);
        assert(u.drop_first() =~= ascii_upper(t));
        if !ends_host(s[0]) {
            let h = host_prefix(t);
            assert forall|i: int| 0 <= i < (seq![s[0]] + h).len() implies (#[trigger] (seq![
                s[0],
            ] + h)[i] as u32) < 128 by {
                if i > 0 {
                    assert((seq![s[0]] + h)[i] == h[i - 1]);
                }
            }
            assert(seq![u[0]] + ascii_upper(h) =~= ascii_upper(seq![s[0]] + h));
        } else {
            assert(ascii_upper(seq![]) =~= seq![]);
        }
    } else {
        assert(u =~= s);
    }
}

/// The host of an ASCII URL is ASCII, and uppercasing the URL uppercases
/// its host.
proof fn lemma_host_ascii(url: Seq<char>)
    requires
        is_ascii_text(url),
    ensures
        is_ascii_text(host_of(url)),
        host_of(ascii_upper(url)) == ascii_upper(host_of(url)),
{
    lemma_after_scheme_ascii(url);
    match after_scheme(url) {
        Some(r) => lemma_host_prefix_ascii(r),
        None => lemma_host_prefix_ascii(url),
    }
}

/// Best-effort provider name from a URL's host, used for display/filtering:
/// case-insensitive, `vimeo` before `youtube`, anything else `url`.
pub fn provider_of(url: &str) -> (r: &'static str)
    ensures
        r@ == provider_spec(lowercase(host_of(url@))),
        is_ascii_text(url@) ==> r@ == provider_spec(ascii_lower(host_of(url@))),
{
    let host = url_host(url);
    proof {
        if is_ascii_text(url@) {
            lemma_host_ascii(url@);
        }
    }
    let lower = to_lowercase(host);
    provider_of_lowercase(lower.as_str())
}

/// Law: on ASCII URLs the provider ignores letter case: a URL and its
/// uppercase form name the same provider, which is `vimeo`, `youtube` or
/// `url`, with `vimeo` taking precedence.
pub proof fn provider_ignores_ascii_case(url: Seq<char>)
    requires
        is_ascii_text(url),
    ensures
        is_ascii_text(ascii_upper(url)),
        provider_spec(ascii_lower(host_of(ascii_upper(url)))) == provider_spec(
            ascii_lower(host_of(url)),
        ),
        provider_spec(ascii_lower(host_of(url))) == "vimeo"@ || provider_spec(
            ascii_lower(host_of(url)),
        ) == "youtube"@ || provider_spec(ascii_lower(host_of(url))) == "url"@,
        contains(ascii_lower(host_of(url)), "vimeo.com"@) ==> provider_spec(
            ascii_lower(host_of(url)),
        ) == "vimeo"@,
{
    let u = ascii_upper(url);
    assert forall|i: int| 0 <= i < u.len() implies (#[trigger] u[i] as u32) < 128 by {
        assert(u[i] == ascii_upper_char(url[i]));
    }
    lemma_host_ascii(url);
    let h = host_of(url);
    assert(ascii_lower(ascii_upper(h)) =~= ascii_lower(h));
}

// ── Services and their API paths ────────────────────────────────────────────

/// The two Servarr services.
#[derive(Clone, Copy, Debug, PartialEq, Eq, Structural)]
pub enum Service {
    Sonarr,
    Radarr,
}

/// The service a path segment names, if any.
pub fn service_of(name: &str) -> (r: Option<Service>)
    ensures
        r == (if name@ == "sonarr"@ {
            Some(Service::Sonarr)
        } else if name@ == "radarr"@ {
            Some(Service::Radarr)
        } else {
            None
        }),
{
    if str_eq(name, "sonarr") {
        Some(Service::Sonarr)
    } else if str_eq(name, "radarr") {
        Some(Service::Radarr)
    } else {
        None
    }
}

/// The library endpoint of a service: `movie` for Radarr, else `series`.
pub fn library_path(service: &str) -> (r: &'static str)
    ensures
        r@ == (if service@ == "radarr"@ {
            "movie"@
        } else {
            "series"@
        }),
{
    if str_eq(service, "radarr") {
        "movie"
    } else {
        "series"
    }
}

/// The lookup endpoint of a service: `movie/lookup` for Radarr, else
/// `series/lookup`.
pub fn lookup_path(service: &str) -> (r: &'static str)
    ensures
        r@ == (if service@ == "radarr"@ {
            "movie/lookup"@
        } else {
            "series/lookup"@
        }),
{
    if str_eq(service, "radarr") {
        "movie/lookup"
    } else {
        "series/lookup"
    }
}

/// How many days ahead a service's calendar looks: 30 for Radarr, else 7.
pub fn calendar_days(service: &str) -> (r: i64)
    ensures
        r == (if service@ == "radarr"@ {
            30i64
        } else {
            7i64
        }),
{
    if str_eq(service, "radarr") {
        30
    } else {
        7
    }
}

/// The `YYYY-MM-DD` UTC date of a unix timestamp, when chrono can represent it.
pub uninterp spec fn ymd_of(secs: int) -> Option<Seq<char>>;

/// Calls chrono's `DateTime::from_timestamp(secs, 0)` and formats the date as
/// `%Y-%m-%d`; claimed: the result is a function of `secs` alone, named
/// `ymd_of`.
#[verifier::external_body]
fn ymd(secs: i64) -> (r: Option<String>)
    ensures
        match ymd_of(secs as int) {
            Some(d) => r matches Some(s) && s@ == d,
            None => r is None,
        },
{
    chrono::DateTime::from_timestamp(secs, 0).map(|d| d.format("%Y-%m-%d").to_string())
}

/// The calendar window `[today, today + days]` as `YYYY-MM-DD` dates, for a
/// service calendar query made at unix time `now`.
pub fn calendar_window(now: i64, days: i64) -> (r: Option<(String, String)>)
    requires
        0 <= days <= 366,
    ensures
        now + days * 86400 > i64::MAX ==> r is None,
        now + days * 86400 <= i64::MAX ==> match (ymd_of(now as int), ymd_of(now + days * 86400)) {
            (Some(a), Some(b)) => (r matches Some(p) && p.0@ == a && p.1@ == b),
            _ => r is None,
        },
{
    let span = days * 86400;
    if now > i64::MAX - span {
        return None;
    }
    let start = ymd(now);
    let end = ymd(now + span);
    match (start, end) {
        (Some(a), Some(b)) => Some((a, b)),
        _ => None,
    }
}

/// How many calendar entries the dashboard shows.
pub const CALENDAR_ITEMS: usize = 30;

/// How many lookup results the dashboard's search shows.
pub const SEARCH_RESULTS: usize = 12;

/// The date shown for a calendar entry: the first of its air date and its
/// digital, physical and cinema releases that is set, as `YYYY-MM-DD`
/// (the part before `T`), else `TBA`.
pub fn calendar_date(
    air: Option<String>,
    digital: Option<String>,
    physical: Option<String>,
    cinemas: Option<String>,
) -> (r: String)
    ensures
        r@ == match first_some(seq![air, digital, physical, cinemas]) {
            Some(d) => before_char(d, 'T'),
            None => "TBA"@,
        },
{
    let ghost cands = seq![air, digital, physical, cinemas];
    let v = vec![air, digital, physical, cinemas];
    assert(v@ =~= cands);
    release_date(&v, "TBA")
}

/// The date part of a timestamp string (`d.split('T').next()`).
pub fn date_part(d: &str) -> (r: &str)
    ensures
        r@ == before_char(d@, 'T'),
{
    str_before_char(d, 'T')
}

/// The first present candidate.
pub open spec fn first_some(c: Seq<Option<String>>) -> Option<Seq<char>>
    decreases c.len(),
{
    if c.len() == 0 {
        None
    } else {
        match c[0] {
            Some(s) => Some(s@),
            None => first_some(c.drop_first()),
        }
    }
}

/// The date of a calendar item: the first present timestamp among the
/// candidates (in the service's order of preference), cut at `T`, or
/// `fallback` when none is present.
pub fn release_date(candidates: &Vec<Option<String>>, fallback: &str) -> (r: String)
    ensures
        r@ == match first_some(candidates@) {
            Some(d) => before_char(d, 'T'),
            None => fallback@,
        },
{
    let n = candidates.len();
    let mut i: usize = 0;
    assert(candidates@.subrange(0, n as int) =~= candidates@);
    while i < n
        invariant
            n == candidates@.len(),
            i <= n,
            first_some(candidates@) == first_some(candidates@.subrange(i as int, n as int)),
        decreases n - i,
    {
        let ghost rest = candidates@.subrange(i as int, n as int);
        assert(rest[0] == candidates@[i as int]);
        match &candidates[i] {
            Some(d) => {
                return owned(date_part(d.as_str()));
            },
            None => {},
        }
        assert(rest.drop_first() =~= candidates@.subrange(i + 1, n as int));
        i = i + 1;
    }
    owned(fallback)
}

/// An image of a lookup result (`coverType`, `remoteUrl`; absent when not a
/// string).
#[derive(Debug)]
pub struct Image {
    pub cover_type: Option<String>,
    pub remote_url: Option<String>,
}

/// Whether an image is the poster.
pub open spec fn is_poster(i: Image) -> bool {
    match i.cover_type {
        Some(t) => t@ == "poster"@,
        None => false,
    }
}

/// The remote URL of the first poster image, if that image has one.
pub open spec fn poster_spec(images: Seq<Image>) -> Option<Seq<char>>
    decreases images.len(),
{
    if images.len() == 0 {
        None
    } else if is_poster(images[0]) {
        match images[0].remote_url {
            Some(u) => Some(u@),
            None => None,
        }
    } else {
        poster_spec(images.drop_first())
    }
}

/// First poster's remote URL from a lookup object, if present.
pub fn poster(images: &Vec<Image>) -> (r: Option<String>)
    ensures
        match poster_spec(images@) {
            Some(u) => r matches Some(s) && s@ == u,
            None => r is None,
        },
{
    let n = images.len();
    let mut i: usize = 0;
    assert(images@.subrange(0, n as int) =~= images@);
    while i < n
        invariant
            n == images@.len(),
            i <= n,
            poster_spec(images@) == poster_spec(images@.subrange(i as int, n as int)),
        decreases n - i,
    {
        let ghost rest = images@.subrange(i as int, n as int);
        assert(rest[0] == images@[i as int]);
        let img = &images[i];
        let is_p = match &img.cover_type {
            Some(t) => str_eq(t.as_str(), "poster"),
            None => false,
        };
        if is_p {
            return match &img.remote_url {
                Some(u) => Some(u.clone()),
                None => None,
            };
        }
        assert(rest.drop_first() =~= images@.subrange(i + 1, n as int));
        i = i + 1;
    }
    None
}

/// Whether a lookup result is already in the library (its `id` is positive).
pub fn in_library(id: Option<i64>) -> (r: bool)
    ensures
        r == match id {
            Some(v) => v > 0,
            None => false,
        },
{
    match id {
        Some(v) => v > 0,
        None => false,
    }
}

/// The search term of a media request, trimmed; `None` when blank
/// (400 `missing_term`).
pub fn media_term(term: &str) -> (r: Option<&str>)
    ensures
        match r {
            Some(t) => t@ == trim(term@) && t@.len() > 0,
            None => trim(term@).len() == 0,
        },
{
    let t = str_trim(term);
    if t.unicode_len() == 0 {
        None
    } else {
        Some(t)
    }
}

/// The display title of a lookup match: its own title, else the term.
pub fn match_title(title: Option<&str>, term: &str) -> (r: String)
    ensures
        r@ == match title {
            Some(t) => t@,
            None => term@,
        },
{
    match title {
        Some(t) => owned(t),
        None => owned(term),
    }
}

/// What adding the top lookup match amounts to, once the lookup is known.
#[derive(Debug)]
pub enum AddDecision {
    /// The lookup returned nothing (404 `no_match`).
    NoMatch,
    /// The match is already in the library.
    Already(String),
    /// Add the match under this title.
    Add(String),
}

/// Decide an add from the first lookup match (its `title` and `id`).
pub fn add_decision(first: Option<(Option<String>, Option<i64>)>, term: &str) -> (r: AddDecision)
    ensures
        match first {
            None => r is NoMatch,
            Some((title, id)) => {
                let t = match title {
                    Some(s) => s@,
                    None => term@,
                };
                if (match id {
                    Some(v) => v > 0,
                    None => false,
                }) {
                    r matches AddDecision::Already(x) && x@ == t
                } else {
                    r matches AddDecision::Add(x) && x@ == t
                }
            },
        },
{
    match first {
        None => AddDecision::NoMatch,
        Some((title, id)) => {
            let t = match title {
                Some(s) => s,
                None => owned(term),
            };
            if in_library(id) {
                AddDecision::Already(t)
            } else {
                AddDecision::Add(t)
            }
        },
    }
}

/// The endpoint an add posts to: `movie` for Radarr, else `series`.
pub fn add_post_path(service: &str) -> (r: &'static str)
    ensures
        r@ == (if service@ == "radarr"@ {
            "movie"@
        } else {
            "series"@
        }),
{
    library_path(service)
}

/// What an add sets on the looked-up item before posting it.
#[derive(Debug)]
pub struct AddSettings {
    pub quality_profile_id: i64,
    pub root_folder_path: String,
    pub monitored: bool,
    /// Radarr: `minimumAvailability`.
    pub minimum_availability: Option<&'static str>,
    /// Radarr: `addOptions.searchForMovie`.
    pub search_for_movie: bool,
    /// Sonarr: `seasonFolder`.
    pub season_folder: bool,
    /// Sonarr: `addOptions.searchForMissingEpisodes` with `monitor`.
    pub monitor: Option<&'static str>,
    /// Sonarr also takes the first language profile, when the service has one.
    pub wants_language_profile: bool,
}

/// Which setting the service lacks for an add.
#[derive(Clone, Copy, Debug, PartialEq, Eq, Structural)]
pub enum SetupMissing {
    /// No quality profile is configured.
    QualityProfile,
    /// No root folder is configured.
    RootFolder,
}

/// The settings of an add: the first quality profile and root folder are
/// required (the profile is checked first); the item is monitored; Radarr
/// adds once released and searches for the movie, Sonarr uses season
/// folders, monitors all episodes, searches for the missing ones and takes a
/// language profile.
pub fn add_settings(service: Service, quality: Option<i64>, root: Option<String>) -> (r: Result<
    AddSettings,
    SetupMissing,
>)
    ensures
        match (quality, root) {
            (None, _) => r == Err::<AddSettings, SetupMissing>(SetupMissing::QualityProfile),
            (Some(_), None) => r == Err::<AddSettings, SetupMissing>(SetupMissing::RootFolder),
            (Some(q), Some(f)) => r matches Ok(a) && {
                &&& a.quality_profile_id == q
                &&& a.root_folder_path@ == f@
                &&& a.monitored
                &&& a.search_for_movie == (service == Service::Radarr)
                &&& a.season_folder == (service == Service::Sonarr)
                &&& a.wants_language_profile == (service == Service::Sonarr)
                &&& match service {
                    Service::Radarr => a.monitor is None && (a.minimum_availability matches Some(m)
                        && m@ == "released"@),
                    Service::Sonarr => a.minimum_availability is None && (a.monitor matches Some(m)
                        && m@ == "all"@),
                }
            },
        },
{
    let q = match quality {
        Some(q) => q,
        None => return Err(SetupMissing::QualityProfile),
    };
    let f = match root {
        Some(f) => f,
        None => return Err(SetupMissing::RootFolder),
    };
    match service {
        Service::Radarr => Ok(AddSettings {
            quality_profile_id: q,
            root_folder_path: f,
            monitored: true,
            minimum_availability: Some("released"),
            search_for_movie: true,
            season_folder: false,
            monitor: None,
            wants_language_profile: false,
        }),
        Service::Sonarr => Ok(AddSettings {
            quality_profile_id: q,
            root_folder_path: f,
            monitored: true,
            minimum_availability: None,
            search_for_movie: false,
            season_folder: true,
            monitor: Some("all"),
            wants_language_profile: true,
        }),
    }
}

// ── Servarr client URLs ─────────────────────────────────────────────────────

/// A service base URL without trailing slashes.
pub fn arr_base_url(base: &str) -> (r: String)
    ensures
        r@ == trim_end_char(base@, '/'),
{
    owned(str_trim_end_char(base, '/'))
}

/// The v3 API URL of `path` under a (normalised) base URL.
pub fn arr_url(base: &str, path: &str) -> (r: String)
    ensures
        r@ == base@ + "/api/v3/"@ + trim_start_char(path@, '/'),
{
    let mut out = owned(base);
    out.append("/api/v3/");
    out.append(str_trim_start_char(path, '/'));
    out
}

// ── Manual import ───────────────────────────────────────────────────────────

/// The import folder of a service as that service sees it.
pub fn import_path<'a>(service: &str, sonarr_path: &'a str, radarr_path: &'a str) -> (r: &'a str)
    ensures
        r@ == (if service@ == "radarr"@ {
            radarr_path@
        } else {
            sonarr_path@
        }),
{
    if str_eq(service, "radarr") {
        radarr_path
    } else {
        sonarr_path
    }
}

/// The full path of a finished download inside the import folder.
pub fn import_file_path(import_path: &str, file: &str) -> (r: String)
    ensures
        r@ == trim_end_char(import_path@, '/') + "/"@ + file@,
{
    let mut out = owned(str_trim_end_char(import_path, '/'));
    out.append("/");
    out.append(file);
    out
}

/// An import candidate as the service reports it (`path`, `name`).
#[derive(Debug)]
pub struct ImportCandidate {
    pub path: Option<String>,
    pub name: Option<String>,
}

/// Whether a candidate is the requested file (by full path or by name).
pub open spec fn is_exact_candidate(c: ImportCandidate, file_path: Seq<char>, file: Seq<char>) -> bool {
    (match c.path {
        Some(p) => p@ == file_path,
        None => false,
    }) || (match c.name {
        Some(n) => n@ == file,
        None => false,
    })
}

/// The indices of the exact candidates among the first `k`.
pub open spec fn exact_indices(cands: Seq<ImportCandidate>, file_path: Seq<char>, file: Seq<char>, k: int) -> Seq<usize>
    decreases k,
{
    if k <= 0 {
        seq![]
    } else {
        let r = exact_indices(cands, file_path, file, k - 1);
        if is_exact_candidate(cands[k - 1], file_path, file) {
            r.push((k - 1) as usize)
        } else {
            r
        }
    }
}

/// The candidates to offer: the exact matches of the file when there are
/// any, else every candidate of the folder (as indices, in order).
pub fn import_candidates(cands: &Vec<ImportCandidate>, file_path: &str, file: &str) -> (r: Vec<usize>)
    ensures
        exact_indices(cands@, file_path@, file@, cands@.len() as int).len() > 0 ==> r@
            == exact_indices(cands@, file_path@, file@, cands@.len() as int),
        exact_indices(cands@, file_path@, file@, cands@.len() as int).len() == 0 ==> r@
            == Seq::new(cands@.len(), |i: int| i as usize),
{
    let n = cands.len();
    let mut exact: Vec<usize> = Vec::new();
    let mut i: usize = 0;
    while i < n
        invariant
            n == cands@.len(),
            i <= n,
            exact@ == exact_indices(cands@, file_path@, file@, i as int),
        decreases n - i,
    {
        let c = &cands[i];
        let by_path = match &c.path {
            Some(p) => str_eq(p.as_str(), file_path),
            None => false,
        };
        let by_name = match &c.name {
            Some(nm) => str_eq(nm.as_str(), file),
            None => false,
        };
        if by_path || by_name {
            exact.push(i);
        }
        i = i + 1;
    }
    if exact.len() > 0 {
        return exact;
    }
    let mut all: Vec<usize> = Vec::new();
    let mut j: usize = 0;
    while j < n
        invariant
            n == cands@.len(),
            j <= n,
            all@ == Seq::new(j as nat, |i: int| i as usize),
        decreases n - j,
    {
        all.push(j);
        assert(all@ =~= Seq::new((j + 1) as nat, |i: int| i as usize));
        j = j + 1;
    }
    all
}

/// Facts of `exact_indices`: each index points at an exact candidate among
/// the first `k`, every such candidate is listed, and the indices ascend.
proof fn lemma_exact_indices(cands: Seq<ImportCandidate>, file_path: Seq<char>, file: Seq<char>, k: int)
    requires
        0 <= k <= cands.len(),
        cands.len() <= usize::MAX,
    ensures
        forall|i: int|
            0 <= i < exact_indices(cands, file_path, file, k).len() ==> {
                let x = #[trigger] exact_indices(cands, file_path, file, k)[i];
                &&& x < k
                &&& is_exact_candidate(cands[x as int], file_path, file)
            },
        forall|j: int|
            0 <= j < k && is_exact_candidate(#[trigger] cands[j], file_path, file)
                ==> exact_indices(cands, file_path, file, k).contains(j as usize),
        forall|a: int, b: int|
            0 <= a < b < exact_indices(cands, file_path, file, k).len() ==> #[trigger] exact_indices(
                cands,
                file_path,
                file,
                k,
            )[a] < #[trigger] exact_indices(cands, file_path, file, k)[b],
    decreases k,
{
    if k > 0 {
        lemma_exact_indices(cands, file_path, file, k - 1);
        let r = exact_indices(cands, file_path, file, k - 1);
        let t = exact_indices(cands, file_path, file, k);
        if is_exact_candidate(cands[k - 1], file_path, file) {
            assert(t == r.push((k - 1) as usize));
            assert forall|j: int|
                0 <= j < k && is_exact_candidate(#[trigger] cands[j], file_path, file) implies t.contains(
                j as usize,
            ) by {
                if j == k - 1 {
                    assert(t[t.len() - 1] == (k - 1) as usize);
                } else {
                    let w = choose|w: int| 0 <= w < r.len() && r[w] == j as usize;
                    assert(t[w] == r[w]);
                }
            }
            assert forall|a: int, b: int| 0 <= a < b < t.len() implies #[trigger] t[a] < #[trigger] t[b] by {
                if b == t.len() - 1 {
                    assert(t[a] == r[a]);
                } else {
                    assert(t[a] == r[a]);
                    assert(t[b] == r[b]);
                }
            }
            assert forall|i: int| 0 <= i < t.len() implies {
                let x = #[trigger] t[i];
                &&& x < k
                &&& is_exact_candidate(cands[x as int], file_path, file)
            } by {
                if i < r.len() {
                    assert(t[i] == r[i]);
                }
            }
        } else {
            assert forall|j: int|
                0 <= j < k && is_exact_candidate(#[trigger] cands[j], file_path, file) implies t.contains(
                j as usize,
            ) by {
                assert(j != k - 1);
            }
        }
    }
}

/// Law: the offered import candidates are valid, ascending indices; when any
/// candidate is the requested file they are exactly those candidates,
/// otherwise every candidate is offered once.
pub proof fn import_candidates_are_exact(cands: Seq<ImportCandidate>, file_path: Seq<char>, file: Seq<char>)
    requires
        cands.len() <= usize::MAX,
    ensures
        ({
            let e = exact_indices(cands, file_path, file, cands.len() as int);
            &&& forall|i: int|
                0 <= i < e.len() ==> (#[trigger] e[i] as int) < cands.len()
                    && is_exact_candidate(cands[e[i] as int], file_path, file)
            &&& forall|j: int|
                0 <= j < cands.len() && is_exact_candidate(#[trigger] cands[j], file_path, file)
                    ==> e.contains(j as usize)
            &&& forall|a: int, b: int| 0 <= a < b < e.len() ==> #[trigger] e[a] < #[trigger] e[b]
        }),
{
    lemma_exact_indices(cands, file_path, file, cands.len() as int);
}

/// The import mode of a manual import: the requested one, else `move`.
pub fn import_mode(requested: Option<&str>) -> (r: String)
    ensures
        r@ == match requested {
            Some(m) => m@,
            None => "move"@,
        },
{
    match requested {
        Some(m) => owned(m),
        None => owned("move"),
    }
}

} // verus!
