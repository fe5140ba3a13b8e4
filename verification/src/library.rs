//! The local music library's song list, as the song autocompletes offer it:
//! which files count as audio, how a file is shown, and when the scan stops.
//! Walking the directories is left to the caller, which asks these functions
//! what to do with each entry.

use vstd::prelude::*;
use crate::media::{ascii_lower, is_ascii_text, lowercase, to_lowercase};
use crate::text::{contains, str_bytes, str_contains, str_eq};

verus! {

/// The audio extensions, lowercase.
pub open spec fn is_audio_ext_lower(e: Seq<char>) -> bool {
    e == "mp3"@ || e == "flac"@ || e == "wav"@ || e == "ogg"@ || e == "m4a"@ || e == "opus"@
        || e == "aac"@ || e == "wma"@
}

/// Whether a file extension names an audio file (case-insensitively).
pub fn is_audio_ext(ext: &str) -> (r: bool)
    ensures
        r == is_audio_ext_lower(lowercase(ext@)),
        is_ascii_text(ext@) ==> r == is_audio_ext_lower(ascii_lower(ext@)),
{
    let l = to_lowercase(ext);
    let e = l.as_str();
    str_eq(e, "mp3") || str_eq(e, "flac") || str_eq(e, "wav") || str_eq(e, "ogg") || str_eq(
        e,
        "m4a",
    ) || str_eq(e, "opus") || str_eq(e, "aac") || str_eq(e, "wma")
}

/// The lowercase form of a typed search filter, compared against each path.
pub fn search_key(filter: &str) -> (r: String)
    ensures
        r@ == lowercase(filter@),
{
    to_lowercase(filter)
}

/// Backslashes shown as `/`.
pub open spec fn forward_slashes(s: Seq<char>) -> Seq<char> {
    s.map_values(|c: char| if c == '\\' { '/' } else { c })
}

/// How a library file at relative path `rel` is listed for the lowercase
/// filter `key`: with `/` separators, when that is at most 100 bytes long and
/// (case-insensitively) holds the filter.
pub open spec fn listed_spec(rel: Seq<char>, key: Seq<char>) -> Option<Seq<char>> {
    let r = forward_slashes(rel);
    if str_bytes(r).len() <= 100 && (key.len() == 0 || contains(lowercase(r), key)) {
        Some(r)
    } else {
        None
    }
}

fn forward_slashes_exec(s: &str) -> (r: String)
    ensures
        r@ == forward_slashes(s@),
{
    let n = s.unicode_len();
    let mut out = String::new();
    let mut i: usize = 0;
    while i < n
        invariant
            n == s@.len(),
            i <= n,
            out@ == forward_slashes(s@.subrange(0, i as int)),
        decreases n - i,
    {
        let c = s.get_char(i);
        if c == '\\' {
            out.append("/");
            proof {
                reveal_strlit("/");
            }
        } else {
            crate::text::push_char_at(&mut out, s, i);
        }
        assert(forward_slashes(s@.subrange(0, i + 1)) =~= forward_slashes(
            s@.subrange(0, i as int),
        ).push(if c == '\\' { '/' } else { c }));
        i = i + 1;
    }
    assert(s@.subrange(0, n as int) =~= s@);
    out
}

/// How the library file at relative path `rel` is listed, if it is.
pub fn listed_path(rel: &str, key: &str) -> (r: Option<String>)
    ensures
        match listed_spec(rel@, key@) {
            Some(p) => r matches Some(s) && s@ == p,
            None => r is None,
        },
{
    let shown = forward_slashes_exec(rel);
    if shown.as_str().as_bytes().len() > 100 {
        return None;
    }
    if key.unicode_len() > 0 {
        let lower = to_lowercase(shown.as_str());
        if !str_contains(lower.as_str(), key) {
            return None;
        }
    }
    Some(shown)
}

/// Whether the scan stops: enough songs were found, or more than 10,000
/// entries were looked at.
pub fn scan_done(found: usize, limit: usize, scanned: u32) -> (r: bool)
    ensures
        r == (found >= limit || scanned > 10000),
{
    found >= limit || scanned > 10000
}

/// Law: the audio extensions are exactly `mp3`, `flac`, `wav`, `ogg`, `m4a`,
/// `opus`, `aac` and `wma`; nothing else (`mkv`, `mp4`, `txt`, ...) is audio.
pub proof fn audio_exts_are_the_eight(e: Seq<char>)
    ensures
        is_audio_ext_lower(e) <==> (e == seq!['m', 'p', '3']
            || e == seq!['f', 'l', 'a', 'c']
            || e == seq!['w', 'a', 'v']
            || e == seq!['o', 'g', 'g']
            || e == seq!['m', '4', 'a']
            || e == seq!['o', 'p', 'u', 's']
            || e == seq!['a', 'a', 'c']
            || e == seq!['w', 'm', 'a']),
        is_audio_ext_lower(e) ==> (e.len() == 3 || e.len() == 4),
{
    reveal_strlit("mp3");
    reveal_strlit("flac");
    reveal_strlit("wav");
    reveal_strlit("ogg");
    reveal_strlit("m4a");
    reveal_strlit("opus");
    reveal_strlit("aac");
    reveal_strlit("wma");
    assert("mp3"@ =~= seq!['m', 'p', '3']);
    assert("flac"@ =~= seq!['f', 'l', 'a', 'c']);
    assert("wav"@ =~= seq!['w', 'a', 'v']);
    assert("ogg"@ =~= seq!['o', 'g', 'g']);
    assert("m4a"@ =~= seq!['m', '4', 'a']);
    assert("opus"@ =~= seq!['o', 'p', 'u', 's']);
    assert("aac"@ =~= seq!['a', 'a', 'c']);
    assert("wma"@ =~= seq!['w', 'm', 'a']);
}

/// Law: a listed song path uses `/` only, fits in 100 bytes, and holds the
/// search filter when one was typed.
pub proof fn listed_paths_are_short(rel: Seq<char>, key: Seq<char>)
    ensures
        listed_spec(rel, key) matches Some(p) ==> {
            &&& str_bytes(p).len() <= 100
            &&& forall|j: int| 0 <= j < p.len() ==> p[j] != '\\'
            &&& key.len() > 0 ==> contains(lowercase(p), key)
        },
{
}

} // verus!
