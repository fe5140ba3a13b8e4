//! Character-level string helpers with their specifications.
//!
//! Every helper works on the `Seq<char>` view of a string, so the contracts of
//! the rest of the library can speak of prefixes, substrings, trimming and
//! decimal rendering exactly.

use vstd::prelude::*;

verus! {

/// `s` begins with `p`.
pub open spec fn starts_with(s: Seq<char>, p: Seq<char>) -> bool {
    p.len() <= s.len() && s.subrange(0, p.len() as int) == p
}

/// `s` ends with `p`.
pub open spec fn ends_with(s: Seq<char>, p: Seq<char>) -> bool {
    p.len() <= s.len() && s.subrange(s.len() - p.len(), s.len() as int) == p
}

/// `p` occurs in `s` at position `i`.
pub open spec fn occurs_at(s: Seq<char>, p: Seq<char>, i: int) -> bool {
    0 <= i && i + p.len() <= s.len() && s.subrange(i, i + p.len()) == p
}

/// `p` occurs somewhere in `s`.
pub open spec fn contains(s: Seq<char>, p: Seq<char>) -> bool {
    exists|i: int| occurs_at(s, p, i)
}

/// The Unicode `White_Space` property, which `char::is_whitespace` and
/// `str::trim` use.
pub open spec fn is_ws(c: char) -> bool {
    let v = c as u32;
    (0x9 <= v && v <= 0xd) || v == 0x20 || v == 0x85 || v == 0xa0 || v == 0x1680 || (0x2000 <= v
        && v <= 0x200a) || v == 0x2028 || v == 0x2029 || v == 0x202f || v == 0x205f || v == 0x3000
}

/// The Unicode general category `Cc`, which `char::is_control` tests.
pub open spec fn is_control(c: char) -> bool {
    let v = c as u32;
    v <= 0x1f || (0x7f <= v && v <= 0x9f)
}

/// `s` without its leading whitespace.
pub open spec fn trim_start(s: Seq<char>) -> Seq<char>
    decreases s.len(),
{
    if s.len() > 0 && is_ws(s[0]) {
        trim_start(s.drop_first())
    } else {
        s
    }
}

/// `s` without its trailing whitespace.
pub open spec fn trim_end(s: Seq<char>) -> Seq<char>
    decreases s.len(),
{
    if s.len() > 0 && is_ws(s.last()) {
        trim_end(s.drop_last())
    } else {
        s
    }
}

/// `s` without leading and trailing whitespace (`str::trim`).
pub open spec fn trim(s: Seq<char>) -> Seq<char> {
    trim_end(trim_start(s))
}

/// `s` without every trailing `c` (`str::trim_end_matches(c)`).
pub open spec fn trim_end_char(s: Seq<char>, c: char) -> Seq<char>
    decreases s.len(),
{
    if s.len() > 0 && s.last() == c {
        trim_end_char(s.drop_last(), c)
    } else {
        s
    }
}

/// `s` without every leading `c` (`str::trim_start_matches(c)`).
pub open spec fn trim_start_char(s: Seq<char>, c: char) -> Seq<char>
    decreases s.len(),
{
    if s.len() > 0 && s[0] == c {
        trim_start_char(s.drop_first(), c)
    } else {
        s
    }
}

/// The ASCII character of decimal digit `d`.
pub open spec fn digit_char(d: nat) -> char {
    if d == 0 {
        '0'
    } else if d == 1 {
        '1'
    } else if d == 2 {
        '2'
    } else if d == 3 {
        '3'
    } else if d == 4 {
        '4'
    } else if d == 5 {
        '5'
    } else if d == 6 {
        '6'
    } else if d == 7 {
        '7'
    } else if d == 8 {
        '8'
    } else {
        '9'
    }
}

/// Decimal rendering of `n` with no leading zeros (`format!("{n}")`).
pub open spec fn dec(n: nat) -> Seq<char>
    decreases n,
{
    if n < 10 {
        seq![digit_char(n)]
    } else {
        dec(n / 10).push(digit_char(n % 10))
    }
}

/// Decimal rendering of a signed integer (`format!("{x}")`).
pub open spec fn dec_int(x: int) -> Seq<char> {
    if x < 0 {
        seq!['-'] + dec((-x) as nat)
    } else {
        dec(x as nat)
    }
}

/// Decimal rendering padded to at least two digits (`format!("{n:02}")`).
pub open spec fn dec2(n: nat) -> Seq<char> {
    if n < 10 {
        seq!['0'] + dec(n)
    } else {
        dec(n)
    }
}

/// Whether `c` is whitespace (`char::is_whitespace`).
pub fn char_is_ws(c: char) -> (r: bool)
    ensures
        r == is_ws(c),
{
    let v = c as u32;
    (0x9 <= v && v <= 0xd) || v == 0x20 || v == 0x85 || v == 0xa0 || v == 0x1680 || (0x2000 <= v
        && v <= 0x200a) || v == 0x2028 || v == 0x2029 || v == 0x202f || v == 0x205f || v == 0x3000
}

/// Whether `c` is a control character (`char::is_control`).
pub fn char_is_control(c: char) -> (r: bool)
    ensures
        r == is_control(c),
{
    let v = c as u32;
    v <= 0x1f || (0x7f <= v && v <= 0x9f)
}

/// Exact string equality.
pub fn str_eq(a: &str, b: &str) -> (r: bool)
    ensures
        r == (a@ == b@),
{
    let n = a.unicode_len();
    let m = b.unicode_len();
    if n != m {
        return false;
    }
    let mut i: usize = 0;
    while i < n
        invariant
            n == a@.len(),
            m == b@.len(),
            n == m,
            i <= n,
            forall|j: int| 0 <= j < i ==> a@[j] == b@[j],
        decreases n - i,
    {
        if a.get_char(i) != b.get_char(i) {
            return false;
        }
        i = i + 1;
    }
    assert(a@ =~= b@);
    true
}

/// Whether `p` occurs in `s` at char position `i`.
fn matches_at(s: &str, p: &str, i: usize, n: usize) -> (r: bool)
    requires
        n == s@.len(),
        i + p@.len() <= n,
    ensures
        r == occurs_at(s@, p@, i as int),
{
    let m = p.unicode_len();
    let mut k: usize = 0;
    while k < m
        invariant
            m == p@.len(),
            n == s@.len(),
            i + m <= n,
            k <= m,
            forall|j: int| 0 <= j < k ==> s@[i + j] == p@[j],
        decreases m - k,
    {
        if s.get_char(i + k) != p.get_char(k) {
            assert(s@.subrange(i as int, i + m)[k as int] != p@[k as int]);
            return false;
        }
        k = k + 1;
    }
    assert(s@.subrange(i as int, i + m) =~= p@);
    true
}

/// Whether `s` begins with `p` (`str::starts_with`).
pub fn str_starts_with(s: &str, p: &str) -> (r: bool)
    ensures
        r == starts_with(s@, p@),
{
    let n = s.unicode_len();
    let m = p.unicode_len();
    if m > n {
        return false;
    }
    matches_at(s, p, 0, n)
}

/// Whether `s` ends with `p` (`str::ends_with`).
pub fn str_ends_with(s: &str, p: &str) -> (r: bool)
    ensures
        r == ends_with(s@, p@),
{
    let n = s.unicode_len();
    let m = p.unicode_len();
    if m > n {
        return false;
    }
    matches_at(s, p, n - m, n)
}

/// Whether `p` occurs in `s` (`str::contains`).
pub fn str_contains(s: &str, p: &str) -> (r: bool)
    ensures
        r == contains(s@, p@),
{
    let n = s.unicode_len();
    let m = p.unicode_len();
    if m > n {
        assert(forall|i: int| !occurs_at(s@, p@, i));
        return false;
    }
    if m == 0 {
        assert(s@.subrange(0, 0) =~= p@);
        assert(occurs_at(s@, p@, 0));
        return true;
    }
    let mut i: usize = 0;
    while i <= n - m
        invariant
            n == s@.len(),
            m == p@.len(),
            0 < m <= n,
            forall|j: int| 0 <= j < i ==> !occurs_at(s@, p@, j),
        decreases n - m + 1 - i,
    {
        if matches_at(s, p, i, n) {
            return true;
        }
        i = i + 1;
    }
    assert forall|j: int| !occurs_at(s@, p@, j) by {
        if 0 <= j && j < i {
        }
    }
    false
}

/// The leading-whitespace count of `s`: `trim_start` drops exactly these.
proof fn lemma_trim_start_skip(s: Seq<char>, i: int)
    requires
        0 <= i <= s.len(),
        forall|j: int| 0 <= j < i ==> is_ws(s[j]),
    ensures
        trim_start(s) == trim_start(s.subrange(i, s.len() as int)),
    decreases i,
{
    if i > 0 {
        assert(s.drop_first() =~= s.subrange(1, s.len() as int));
        let t = s.drop_first();
        assert forall|j: int| 0 <= j < i - 1 implies is_ws(t[j]) by {
            assert(t[j] == s[j + 1]);
        }
        lemma_trim_start_skip(t, i - 1);
        assert(t.subrange(i - 1, t.len() as int) =~= s.subrange(i, s.len() as int));
    } else {
        assert(s.subrange(0, s.len() as int) =~= s);
    }
}

proof fn lemma_trim_end_skip(s: Seq<char>, e: int)
    requires
        0 <= e <= s.len(),
        forall|j: int| e <= j < s.len() ==> is_ws(s[j]),
    ensures
        trim_end(s) == trim_end(s.subrange(0, e)),
    decreases s.len() - e,
{
    if e < s.len() {
        let t = s.drop_last();
        assert forall|j: int| e <= j < t.len() implies is_ws(t[j]) by {
            assert(t[j] == s[j]);
        }
        lemma_trim_end_skip(t, e);
        assert(t.subrange(0, e) =~= s.subrange(0, e));
    } else {
        assert(s.subrange(0, e) =~= s);
    }
}

/// Index of the first non-whitespace char at or after `from`, else `s.len()`.
fn skip_ws_forward(s: &str, n: usize) -> (i: usize)
    requires
        n == s@.len(),
    ensures
        i <= n,
        forall|j: int| 0 <= j < i ==> is_ws(s@[j]),
        i < n ==> !is_ws(s@[i as int]),
{
    let mut i: usize = 0;
    while i < n
        invariant
            n == s@.len(),
            i <= n,
            forall|j: int| 0 <= j < i ==> is_ws(s@[j]),
        decreases n - i,
    {
        if !char_is_ws(s.get_char(i)) {
            return i;
        }
        i = i + 1;
    }
    i
}

/// `s` without leading and trailing whitespace (`str::trim`).
pub fn str_trim(s: &str) -> (r: &str)
    ensures
        r@ == trim(s@),
{
    let n = s.unicode_len();
    let a = skip_ws_forward(s, n);
    proof {
        lemma_trim_start_skip(s@, a as int);
    }
    let ghost t = s@.subrange(a as int, n as int);
    assert(t.len() == 0 || !is_ws(t[0]));
    assert(trim_start(t) == t);
    let mut e: usize = n;
    while e > a
        invariant
            n == s@.len(),
            a <= e <= n,
            t == s@.subrange(a as int, n as int),
            forall|j: int| e <= j < n ==> is_ws(s@[j]),
        ensures
            a <= e <= n,
            forall|j: int| e <= j < n ==> is_ws(s@[j]),
            e == a || !is_ws(s@[e - 1]),
        decreases e,
    {
        if !char_is_ws(s.get_char(e - 1)) {
            break;
        }
        e = e - 1;
    }
    proof {
        let k = (e - a) as int;
        assert forall|j: int| k <= j < t.len() implies is_ws(t[j]) by {
            assert(t[j] == s@[a + j]);
        }
        lemma_trim_end_skip(t, k);
        let u = t.subrange(0, k);
        if u.len() > 0 {
            assert(u.last() == s@[e - 1]);
        }
        assert(trim_end(u) == u);
        assert(u =~= s@.subrange(a as int, e as int));
    }
    s.substring_char(a, e)
}

/// `s` without every trailing `c` (`str::trim_end_matches(c)`).
pub fn str_trim_end_char(s: &str, c: char) -> (r: &str)
    ensures
        r@ == trim_end_char(s@, c),
{
    let n = s.unicode_len();
    let mut e: usize = n;
    assert(s@.subrange(0, n as int) =~= s@);
    while e > 0
        invariant
            n == s@.len(),
            e <= n,
            trim_end_char(s@, c) == trim_end_char(s@.subrange(0, e as int), c),
        ensures
            e <= n,
            trim_end_char(s@, c) == trim_end_char(s@.subrange(0, e as int), c),
            e == 0 || s@[e - 1] != c,
        decreases e,
    {
        if s.get_char(e - 1) != c {
            break;
        }
        proof {
            let u = s@.subrange(0, e as int);
            assert(u.drop_last() =~= s@.subrange(0, e - 1));
        }
        e = e - 1;
    }
    proof {
        let u = s@.subrange(0, e as int);
        if u.len() > 0 {
            assert(u.last() == s@[e - 1]);
        }
    }
    s.substring_char(0, e)
}

/// `s` without every leading `c` (`str::trim_start_matches(c)`).
pub fn str_trim_start_char(s: &str, c: char) -> (r: &str)
    ensures
        r@ == trim_start_char(s@, c),
{
    let n = s.unicode_len();
    let mut a: usize = 0;
    assert(s@.subrange(0, n as int) =~= s@);
    while a < n
        invariant
            n == s@.len(),
            a <= n,
            trim_start_char(s@, c) == trim_start_char(s@.subrange(a as int, n as int), c),
        ensures
            a <= n,
            trim_start_char(s@, c) == trim_start_char(s@.subrange(a as int, n as int), c),
            a == n || s@[a as int] != c,
        decreases n - a,
    {
        if s.get_char(a) != c {
            break;
        }
        proof {
            let u = s@.subrange(a as int, n as int);
            assert(u.drop_first() =~= s@.subrange(a + 1, n as int));
        }
        a = a + 1;
    }
    s.substring_char(a, n)
}

/// The one-character string of decimal digit `d`.
fn digit_str(d: u64) -> (r: &'static str)
    requires
        d < 10,
    ensures
        r@ == seq![digit_char(d as nat)],
{
    proof {
        reveal_strlit("0");
        reveal_strlit("1");
        reveal_strlit("2");
        reveal_strlit("3");
        reveal_strlit("4");
        reveal_strlit("5");
        reveal_strlit("6");
        reveal_strlit("7");
        reveal_strlit("8");
        reveal_strlit("9");
    }
    if d == 0 {
        "0"
    } else if d == 1 {
        "1"
    } else if d == 2 {
        "2"
    } else if d == 3 {
        "3"
    } else if d == 4 {
        "4"
    } else if d == 5 {
        "5"
    } else if d == 6 {
        "6"
    } else if d == 7 {
        "7"
    } else if d == 8 {
        "8"
    } else {
        "9"
    }
}

/// Append the decimal rendering of `n` to `out`.
pub fn push_dec(out: &mut String, n: u64)
    ensures
        final(out)@ == old(out)@ + dec(n as nat),
    decreases n,
{
    if n >= 10 {
        push_dec(out, n / 10);
    }
    let d = digit_str(n % 10);
    out.append(d);
    proof {
        if n >= 10 {
            assert(dec(n as nat) == dec((n / 10) as nat).push(digit_char((n % 10) as nat)));
        }
    }
    assert(out@ =~= old(out)@ + dec(n as nat));
}

/// Append the decimal rendering of `x` to `out`.
pub fn push_dec_i64(out: &mut String, x: i64)
    ensures
        final(out)@ == old(out)@ + dec_int(x as int),
{
    if x < 0 {
        proof {
            reveal_strlit("-");
        }
        out.append("-");
        let mag: u64 = ((-(x + 1)) as u64) + 1;
        push_dec(out, mag);
        assert(out@ =~= old(out)@ + dec_int(x as int));
    } else {
        push_dec(out, x as u64);
    }
}

/// Append `n` padded to two digits to `out`.
pub fn push_dec2(out: &mut String, n: u64)
    ensures
        final(out)@ == old(out)@ + dec2(n as nat),
{
    if n < 10 {
        proof {
            reveal_strlit("0");
        }
        out.append("0");
    }
    push_dec(out, n);
    assert(out@ =~= old(out)@ + dec2(n as nat));
}

/// A fresh `String` holding `s`.
pub fn owned(s: &str) -> (r: String)
    ensures
        r@ == s@,
{
    String::from_str(s)
}

} // verus!

verus! {

/// The UTF-8 bytes of a char sequence.
pub open spec fn str_bytes(s: Seq<char>) -> Seq<u8> {
    vstd::utf8::encode_utf8(s)
}

} // verus!

verus! {

/// Whether `s` is an http(s) URL by its scheme prefix.
pub open spec fn is_http_url(s: Seq<char>) -> bool {
    starts_with(s, "http://"@) || starts_with(s, "https://"@)
}

/// Whether `s` starts with `http://` or `https://`.
pub fn str_is_http_url(s: &str) -> (r: bool)
    ensures
        r == is_http_url(s@),
{
    str_starts_with(s, "http://") || str_starts_with(s, "https://")
}

/// The part of `s` before its first `c`, or all of `s`
/// (`s.split(c).next().unwrap()`).
pub open spec fn before_char(s: Seq<char>, c: char) -> Seq<char>
    decreases s.len(),
{
    if s.len() == 0 {
        s
    } else if s[0] == c {
        seq![]
    } else {
        seq![s[0]] + before_char(s.drop_first(), c)
    }
}

/// The part of `s` before its first `c`.
pub fn str_before_char(s: &str, c: char) -> (r: &str)
    ensures
        r@ == before_char(s@, c),
{
    let n = s.unicode_len();
    let mut i: usize = 0;
    assert(s@.subrange(0, n as int) =~= s@);
    assert(s@.subrange(0, 0) + before_char(s@, c) =~= before_char(s@, c));
    while i < n
        invariant
            n == s@.len(),
            i <= n,
            forall|j: int| 0 <= j < i ==> s@[j] != c,
            before_char(s@, c) == s@.subrange(0, i as int) + before_char(
                s@.subrange(i as int, n as int),
                c,
            ),
        ensures
            i <= n,
            before_char(s@, c) == s@.subrange(0, i as int) + before_char(
                s@.subrange(i as int, n as int),
                c,
            ),
            i == n || s@[i as int] == c,
        decreases n - i,
    {
        if s.get_char(i) == c {
            break;
        }
        proof {
            let rest = s@.subrange(i as int, n as int);
            assert(rest.drop_first() =~= s@.subrange(i + 1, n as int));
            assert(s@.subrange(0, i + 1) =~= s@.subrange(0, i as int) + seq![rest[0]]);
        }
        i = i + 1;
    }
    proof {
        let rest = s@.subrange(i as int, n as int);
        if i == n {
            assert(rest.len() == 0);
        }
        assert(s@.subrange(0, i as int) + before_char(rest, c) =~= s@.subrange(0, i as int));
    }
    s.substring_char(0, i)
}

/// The first `k` chars of `s` (all of it when shorter).
pub open spec fn take_chars(s: Seq<char>, k: nat) -> Seq<char> {
    if s.len() <= k {
        s
    } else {
        s.subrange(0, k as int)
    }
}

/// The first `k` chars of `s` (`s.chars().take(k).collect()`).
pub fn str_take_chars(s: &str, k: usize) -> (r: &str)
    ensures
        r@ == take_chars(s@, k as nat),
{
    let n = s.unicode_len();
    if n <= k {
        assert(s@.subrange(0, n as int) =~= s@);
        s.substring_char(0, n)
    } else {
        s.substring_char(0, k)
    }
}

} // verus!

verus! {

/// Append char `i` of `s` to `out`.
pub fn push_char_at(out: &mut String, s: &str, i: usize)
    requires
        i < s@.len(),
    ensures
        final(out)@ == old(out)@.push(s@[i as int]),
{
    let n = s.unicode_len();
    assert(i < n);
    let c = s.substring_char(i, i + 1);
    out.append(c);
    assert(c@ =~= seq![s@[i as int]]);
    assert(out@ =~= old(out)@.push(s@[i as int]));
}

} // verus!

verus! {

/// The pieces of `s` between occurrences of `c` (`str::split(c)`): always at
/// least one piece.
pub open spec fn split_char(s: Seq<char>, c: char) -> Seq<Seq<char>>
    decreases s.len(),
{
    if s.len() == 0 {
        seq![seq![]]
    } else {
        let r = split_char(s.drop_last(), c);
        if s.last() == c {
            r.push(seq![])
        } else {
            r.update(r.len() - 1, r.last().push(s.last()))
        }
    }
}

pub proof fn lemma_split_len(s: Seq<char>, c: char)
    ensures
        split_char(s, c).len() >= 1,
    decreases s.len(),
{
    if s.len() > 0 {
        lemma_split_len(s.drop_last(), c);
    }
}

/// No piece of a split holds the separator.
pub proof fn lemma_split_pieces_free(s: Seq<char>, c: char)
    ensures
        forall|i: int, j: int|
            0 <= i < split_char(s, c).len() && 0 <= j < split_char(s, c)[i].len() ==> #[trigger] split_char(
                s,
                c,
            )[i][j] != c,
    decreases s.len(),
{
    if s.len() > 0 {
        lemma_split_len(s.drop_last(), c);
        lemma_split_pieces_free(s.drop_last(), c);
        let r = split_char(s.drop_last(), c);
        if s.last() != c {
            let t = r.update(r.len() - 1, r.last().push(s.last()));
            assert forall|i: int, j: int| 0 <= i < t.len() && 0 <= j < t[i].len() implies t[i][j]
                != c by {
                if i == r.len() - 1 {
                    if j < r.last().len() {
                        assert(t[i][j] == r[i][j]);
                    }
                } else {
                    assert(t[i] == r[i]);
                }
            }
        } else {
            let t = r.push(seq![]);
            assert forall|i: int, j: int| 0 <= i < t.len() && 0 <= j < t[i].len() implies t[i][j]
                != c by {
                if i < r.len() {
                    assert(t[i] == r[i]);
                }
            }
        }
    }
}

} // verus!

verus! {

proof fn lemma_trim_start_fixed(s: Seq<char>)
    ensures
        trim_start(trim_start(s)) == trim_start(s),
        trim_start(s).len() == 0 || !is_ws(trim_start(s)[0]),
    decreases s.len(),
{
    if s.len() > 0 && is_ws(s[0]) {
        lemma_trim_start_fixed(s.drop_first());
    }
}

proof fn lemma_trim_end_fixed(s: Seq<char>)
    ensures
        trim_end(trim_end(s)) == trim_end(s),
        trim_end(s).len() == 0 || !is_ws(trim_end(s).last()),
    decreases s.len(),
{
    if s.len() > 0 && is_ws(s.last()) {
        lemma_trim_end_fixed(s.drop_last());
    }
}

proof fn lemma_trim_end_keeps_start(s: Seq<char>)
    requires
        s.len() == 0 || !is_ws(s[0]),
    ensures
        trim_end(s).len() == 0 || !is_ws(trim_end(s)[0]),
        trim_start(trim_end(s)) == trim_end(s),
    decreases s.len(),
{
    if s.len() > 0 && is_ws(s.last()) {
        let t = s.drop_last();
        if t.len() > 0 {
            assert(t[0] == s[0]);
        }
        lemma_trim_end_keeps_start(t);
    }
}

/// Law: trimming twice is trimming once.
pub proof fn lemma_trim_idempotent(s: Seq<char>)
    ensures
        trim(trim(s)) == trim(s),
{
    let a = trim_start(s);
    lemma_trim_start_fixed(s);
    lemma_trim_end_keeps_start(a);
    let b = trim_end(a);
    lemma_trim_end_fixed(a);
    assert(trim_start(b) == b);
    assert(trim(b) == trim_end(trim_start(b)));
}

} // verus!
