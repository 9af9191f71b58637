//! Character-sequence helpers shared by the rest of the library.
//!
//! Strings are reasoned about through their views, `Seq<char>`. The functions
//! here give executable counterparts, with exact contracts, of the few string
//! operations that the services need: substring search, prefix and suffix
//! tests, whitespace trimming, word splitting and joining, and decimal
//! formatting of unsigned integers.
use vstd::prelude::*;
use vstd::string::*;

verus! {

// ---------------------------------------------------------------------------
// Trusted std calls
// ---------------------------------------------------------------------------

/// Appends one character to a string (std `String::push`): the new view is
/// the old one with `c` added at the end.
#[verifier::external_body]
pub(crate) fn push_char(s: &mut String, c: char)
    ensures
        final(s)@ == old(s)@.push(c),
{
    s.push(c);
}

/// What std's `str::to_lowercase` returns for a string (Unicode lowercase
/// mapping). The mapping is table driven; it is named here, not spelled out.
pub uninterp spec fn lowercase_of(s: Seq<char>) -> Seq<char>;

/// An ASCII character in lower case: capital letters become small letters,
/// every other character stays as it is.
pub open spec fn ascii_lower(c: char) -> char {
    if 'A' <= c <= 'Z' {
        ((c as u32) + 32) as char
    } else {
        c
    }
}

/// Every character of `s` is ASCII.
pub open spec fn is_ascii_text(s: Seq<char>) -> bool {
    forall|i: int| 0 <= i < s.len() ==> (#[trigger] s[i] as u32) < 128
}

/// `s` with its ASCII capital letters made small.
pub open spec fn ascii_lowered(s: Seq<char>) -> Seq<char> {
    s.map_values(|c: char| ascii_lower(c))
}

/// std `str::to_lowercase`; its result is `lowercase_of` of the argument.
/// Under Unicode's lowercase mapping, which std documents it to follow, an
/// ASCII capital letter maps to its small letter and every other ASCII
/// character to itself, one for one.
#[verifier::external_body]
pub(crate) fn to_lowercase(s: &str) -> (r: String)
    ensures
        r@ == lowercase_of(s@),
        is_ascii_text(s@) ==> r@ == ascii_lowered(s@),
{
    s.to_lowercase()
}

// ---------------------------------------------------------------------------
// Conversions between strings and character vectors
// ---------------------------------------------------------------------------

/// The characters of `s`, in order.
pub fn chars_of(s: &str) -> (v: Vec<char>)
    ensures
        v@ == s@,
{
    let mut v: Vec<char> = Vec::new();
    for c in it: s.chars()
        invariant
            v@ == it.seq().take(it.index() as int),
    {
        v.push(c);
    }
    v
}

/// A string holding exactly the characters of `v`.
pub fn string_of(v: &[char]) -> (s: String)
    ensures
        s@ == v@,
{
    let mut s = String::new();
    let mut i: usize = 0;
    while i < v.len()
        invariant
            i <= v.len(),
            s@ == v@.take(i as int),
        decreases v.len() - i,
    {
        push_char(&mut s, v[i]);
        assert(v@.take(i as int).push(v@[i as int]) == v@.take(i + 1));
        i += 1;
    }
    assert(v@.take(v.len() as int) == v@);
    s
}

/// Appends all characters of `v` to `s`.
pub fn push_chars(s: &mut String, v: &[char])
    ensures
        final(s)@ == old(s)@ + v@,
{
    let ghost start = s@;
    let mut i: usize = 0;
    while i < v.len()
        invariant
            i <= v.len(),
            s@ == start + v@.take(i as int),
        decreases v.len() - i,
    {
        push_char(s, v[i]);
        assert(v@.take(i as int).push(v@[i as int]) == v@.take(i + 1));
        assert(start + v@.take(i + 1) == (start + v@.take(i as int)).push(v@[i as int]));
        i += 1;
    }
    assert(v@.take(v.len() as int) == v@);
}

/// Appends all characters of `t` to `s`.
pub fn push_str(s: &mut String, t: &str)
    ensures
        final(s)@ == old(s)@ + t@,
{
    let v = chars_of(t);
    push_chars(s, v.as_slice());
}

/// An owned copy of a string slice.
pub fn owned(t: &str) -> (s: String)
    ensures
        s@ == t@,
{
    t.to_owned()
}

/// Appends the characters of `t` to the vector `v`.
pub fn extend_chars(v: &mut Vec<char>, t: &[char])
    ensures
        final(v)@ == old(v)@ + t@,
{
    let ghost start = v@;
    let mut i: usize = 0;
    while i < t.len()
        invariant
            i <= t.len(),
            v@ == start + t@.take(i as int),
        decreases t.len() - i,
    {
        v.push(t[i]);
        assert(start + t@.take(i + 1) == (start + t@.take(i as int)).push(t@[i as int]));
        i += 1;
    }
    assert(t@.take(t.len() as int) == t@);
}

/// A copy of `t` as a vector.
pub fn to_vec(t: &[char]) -> (v: Vec<char>)
    ensures
        v@ == t@,
{
    let mut v: Vec<char> = Vec::new();
    extend_chars(&mut v, t);
    v
}

/// The first `n` characters of `t` (all of them when it has fewer).
pub fn take_chars(t: &[char], n: usize) -> (v: Vec<char>)
    ensures
        v@ == t@.take(if n < t.len() { n as int } else { t.len() as int }),
{
    let end = if n < t.len() { n } else { t.len() };
    let mut v: Vec<char> = Vec::new();
    let mut i: usize = 0;
    while i < end
        invariant
            end <= t.len(),
            i <= end,
            v@ == t@.take(i as int),
        decreases end - i,
    {
        v.push(t[i]);
        assert(t@.take(i as int).push(t@[i as int]) == t@.take(i + 1));
        i += 1;
    }
    v
}

/// The characters of `t` from index `lo` up to (not including) `hi`.
pub fn slice_chars(t: &[char], lo: usize, hi: usize) -> (v: Vec<char>)
    requires
        lo <= hi <= t.len(),
    ensures
        v@ == t@.subrange(lo as int, hi as int),
{
    let mut v: Vec<char> = Vec::new();
    let mut i: usize = lo;
    while i < hi
        invariant
            lo <= i <= hi <= t.len(),
            v@ == t@.subrange(lo as int, i as int),
        decreases hi - i,
    {
        v.push(t[i]);
        assert(t@.subrange(lo as int, i as int).push(t@[i as int]) == t@.subrange(
            lo as int,
            i + 1,
        ));
        i += 1;
    }
    v
}

// ---------------------------------------------------------------------------
// Equality, prefixes, suffixes, substrings
// ---------------------------------------------------------------------------

/// Whether two character sequences are equal.
pub fn chars_eq(a: &[char], b: &[char]) -> (r: bool)
    ensures
        r == (a@ == b@),
{
    if a.len() != b.len() {
        return false;
    }
    let mut i: usize = 0;
    while i < a.len()
        invariant
            a.len() == b.len(),
            i <= a.len(),
            forall|j: int| 0 <= j < i ==> a@[j] == b@[j],
        decreases a.len() - i,
    {
        if a[i] != b[i] {
            return false;
        }
        i += 1;
    }
    assert(a@ =~= b@);
    true
}

/// `sub` occurs in `s` at index `i`.
pub open spec fn occurs_at(s: Seq<char>, sub: Seq<char>, i: int) -> bool {
    0 <= i && i + sub.len() <= s.len() && s.subrange(i, i + sub.len()) == sub
}

/// `sub` occurs somewhere in `s` (std `str::contains` with a string pattern).
pub open spec fn contains(s: Seq<char>, sub: Seq<char>) -> bool {
    exists|i: int| occurs_at(s, sub, i)
}

/// Whether `sub` occurs in `s` at index `i`.
pub fn matches_at(s: &[char], sub: &[char], i: usize) -> (r: bool)
    ensures
        r == occurs_at(s@, sub@, i as int),
{
    if i > s.len() || sub.len() > s.len() - i {
        return false;
    }
    let mut k: usize = 0;
    while k < sub.len()
        invariant
            i + sub.len() <= s.len(),
            k <= sub.len(),
            forall|j: int| 0 <= j < k ==> s@[i + j] == sub@[j],
        decreases sub.len() - k,
    {
        if s[i + k] != sub[k] {
            assert(s@.subrange(i as int, i + sub.len())[k as int] != sub@[k as int]);
            return false;
        }
        k += 1;
    }
    assert(s@.subrange(i as int, i + sub.len()) =~= sub@);
    true
}

/// The first index at or after `start` where `sub` occurs in `s`.
pub fn find_from(s: &[char], sub: &[char], start: usize) -> (r: Option<usize>)
    ensures
        match r {
            Some(i) => start <= i && occurs_at(s@, sub@, i as int) && forall|j: int|
                start <= j < i ==> !#[trigger] occurs_at(s@, sub@, j),
            None => forall|j: int| start <= j ==> !#[trigger] occurs_at(s@, sub@, j),
        },
{
    if sub.len() > s.len() || start > s.len() - sub.len() {
        return None;
    }
    let last = s.len() - sub.len();
    let mut i: usize = start;
    while i <= last
        invariant
            last + sub.len() == s.len(),
            start <= i,
            forall|j: int| start <= j < i ==> !#[trigger] occurs_at(s@, sub@, j),
        decreases last + 1 - i,
    {
        if matches_at(s, sub, i) {
            return Some(i);
        }
        if i == last {
            return None;
        }
        i += 1;
    }
    None
}

/// The first index where `sub` occurs in `s`.
pub fn find(s: &[char], sub: &[char]) -> (r: Option<usize>)
    ensures
        match r {
            Some(i) => occurs_at(s@, sub@, i as int) && forall|j: int|
                0 <= j < i ==> !#[trigger] occurs_at(s@, sub@, j),
            None => !contains(s@, sub@),
        },
{
    find_from(s, sub, 0)
}

/// Whether `sub` occurs in `s`.
pub fn contains_chars(s: &[char], sub: &[char]) -> (r: bool)
    ensures
        r == contains(s@, sub@),
{
    match find(s, sub) {
        Some(_) => true,
        None => false,
    }
}

/// Whether the string `s` contains the string `sub`.
pub fn str_contains(s: &str, sub: &str) -> (r: bool)
    ensures
        r == contains(s@, sub@),
{
    let a = chars_of(s);
    let b = chars_of(sub);
    contains_chars(a.as_slice(), b.as_slice())
}

/// Whether `p` is a prefix of `s`.
pub fn starts_with(s: &[char], p: &[char]) -> (r: bool)
    ensures
        r == p@.is_prefix_of(s@),
{
    let r = matches_at(s, p, 0);
    assert(r == p@.is_prefix_of(s@));
    r
}

/// Whether `p` is a suffix of `s`.
pub fn ends_with(s: &[char], p: &[char]) -> (r: bool)
    ensures
        r == p@.is_suffix_of(s@),
{
    if p.len() > s.len() {
        return false;
    }
    let r = matches_at(s, p, s.len() - p.len());
    assert(r == p@.is_suffix_of(s@));
    r
}

/// Whether the string `s` begins with the string `p`.
pub fn str_starts_with(s: &str, p: &str) -> (r: bool)
    ensures
        r == p@.is_prefix_of(s@),
{
    let a = chars_of(s);
    let b = chars_of(p);
    starts_with(a.as_slice(), b.as_slice())
}

/// Whether the string `s` ends with the string `p`.
pub fn str_ends_with(s: &str, p: &str) -> (r: bool)
    ensures
        r == p@.is_suffix_of(s@),
{
    let a = chars_of(s);
    let b = chars_of(p);
    ends_with(a.as_slice(), b.as_slice())
}

/// Whether two strings are equal.
pub fn str_eq(a: &str, b: &str) -> (r: bool)
    ensures
        r == (a@ == b@),
{
    let x = chars_of(a);
    let y = chars_of(b);
    chars_eq(x.as_slice(), y.as_slice())
}

// ---------------------------------------------------------------------------
// Whitespace
// ---------------------------------------------------------------------------

/// Unicode `White_Space`, the property that std's `char::is_whitespace` tests.
pub open spec fn is_ws(c: char) -> bool {
    ||| ('\u{9}' <= c && c <= '\u{d}')
    ||| c == ' '
    ||| c == '\u{85}'
    ||| c == '\u{a0}'
    ||| c == '\u{1680}'
    ||| ('\u{2000}' <= c && c <= '\u{200a}')
    ||| c == '\u{2028}'
    ||| c == '\u{2029}'
    ||| c == '\u{202f}'
    ||| c == '\u{205f}'
    ||| c == '\u{3000}'
}

/// Whether `c` is a whitespace character.
pub fn is_whitespace(c: char) -> (r: bool)
    ensures
        r == is_ws(c),
{
    ('\u{9}' <= c && c <= '\u{d}') || c == ' ' || c == '\u{85}' || c == '\u{a0}' || c
        == '\u{1680}' || ('\u{2000}' <= c && c <= '\u{200a}') || c == '\u{2028}' || c
        == '\u{2029}' || c == '\u{202f}' || c == '\u{205f}' || c == '\u{3000}'
}

/// Number of whitespace characters at the start of `s`.
pub open spec fn lead_ws(s: Seq<char>) -> nat
    decreases s.len(),
{
    if s.len() > 0 && is_ws(s[0]) {
        1 + lead_ws(s.drop_first())
    } else {
        0
    }
}

/// Number of whitespace characters at the end of `s`.
pub open spec fn trail_ws(s: Seq<char>) -> nat
    decreases s.len(),
{
    if s.len() > 0 && is_ws(s.last()) {
        1 + trail_ws(s.drop_last())
    } else {
        0
    }
}

/// `s` without leading and trailing whitespace (std `str::trim`).
pub open spec fn trim(s: Seq<char>) -> Seq<char> {
    let t = s.skip(lead_ws(s) as int);
    t.take(t.len() - trail_ws(t))
}

/// `s` without leading whitespace (std `str::trim_start`).
pub open spec fn trim_start(s: Seq<char>) -> Seq<char> {
    s.skip(lead_ws(s) as int)
}

pub proof fn lemma_lead_ws_bounds(s: Seq<char>)
    ensures
        lead_ws(s) <= s.len(),
        forall|j: int| 0 <= j < lead_ws(s) ==> is_ws(#[trigger] s[j]),
        lead_ws(s) < s.len() ==> !is_ws(s[lead_ws(s) as int]),
    decreases s.len(),
{
    if s.len() > 0 && is_ws(s[0]) {
        lemma_lead_ws_bounds(s.drop_first());
        assert forall|j: int| 0 <= j < lead_ws(s) implies is_ws(#[trigger] s[j]) by {
            if j > 0 {
                assert(s[j] == s.drop_first()[j - 1]);
            }
        }
    }
}

pub proof fn lemma_trail_ws_bounds(s: Seq<char>)
    ensures
        trail_ws(s) <= s.len(),
        forall|j: int| s.len() - trail_ws(s) <= j < s.len() ==> is_ws(#[trigger] s[j]),
        trail_ws(s) < s.len() ==> !is_ws(s[s.len() - trail_ws(s) - 1]),
    decreases s.len(),
{
    if s.len() > 0 && is_ws(s.last()) {
        lemma_trail_ws_bounds(s.drop_last());
        assert forall|j: int| s.len() - trail_ws(s) <= j < s.len() implies is_ws(
            #[trigger] s[j],
        ) by {
            if j < s.len() - 1 {
                assert(s[j] == s.drop_last()[j]);
            }
        }
    }
}

/// The leading-whitespace count of `s`, computed.
pub fn count_lead_ws(s: &[char]) -> (n: usize)
    ensures
        n == lead_ws(s@),
{
    let mut i: usize = 0;
    assert(s@.skip(0) == s@);
    while i < s.len() && is_whitespace(s[i])
        invariant
            i <= s.len(),
            lead_ws(s@) == i + lead_ws(s@.skip(i as int)),
        decreases s.len() - i,
    {
        assert(s@.skip(i as int).drop_first() == s@.skip(i + 1));
        i += 1;
    }
    i
}

/// The trailing-whitespace count of `s`, computed.
pub fn count_trail_ws(s: &[char]) -> (n: usize)
    ensures
        n == trail_ws(s@),
{
    let mut k: usize = s.len();
    assert(s@.take(s.len() as int) == s@);
    while k > 0 && is_whitespace(s[k - 1])
        invariant
            k <= s.len(),
            trail_ws(s@) == (s.len() - k) + trail_ws(s@.take(k as int)),
        decreases k,
    {
        assert(s@.take(k as int).drop_last() == s@.take(k - 1));
        k -= 1;
    }
    assert(s.len() - k == s.len() - k);
    (s.len() - k) as usize
}

/// `s` without leading and trailing whitespace.
pub fn trim_chars(s: &[char]) -> (r: Vec<char>)
    ensures
        r@ == trim(s@),
{
    let a = count_lead_ws(s);
    proof {
        lemma_lead_ws_bounds(s@);
    }
    let t = slice_chars(s, a, s.len());
    assert(t@ == s@.skip(a as int));
    let b = count_trail_ws(t.as_slice());
    proof {
        lemma_trail_ws_bounds(t@);
    }
    take_chars(t.as_slice(), t.len() - b)
}

/// `s` without leading whitespace.
pub fn trim_start_chars(s: &[char]) -> (r: Vec<char>)
    ensures
        r@ == trim_start(s@),
{
    let a = count_lead_ws(s);
    proof {
        lemma_lead_ws_bounds(s@);
    }
    slice_chars(s, a, s.len())
}

/// The string `s` trimmed on both sides.
pub fn str_trim(s: &str) -> (r: String)
    ensures
        r@ == trim(s@),
{
    let v = chars_of(s);
    let t = trim_chars(v.as_slice());
    string_of(t.as_slice())
}

/// Whether `s` is empty after trimming.
pub fn is_blank(s: &str) -> (r: bool)
    ensures
        r == (trim(s@).len() == 0),
{
    let v = chars_of(s);
    let t = trim_chars(v.as_slice());
    t.len() == 0
}

// ---------------------------------------------------------------------------
// Words and joining
// ---------------------------------------------------------------------------

/// Number of non-whitespace characters at the start of `s`.
pub open spec fn word_len(s: Seq<char>) -> nat
    decreases s.len(),
{
    if s.len() > 0 && !is_ws(s[0]) {
        1 + word_len(s.drop_first())
    } else {
        0
    }
}

pub proof fn lemma_word_len_bounds(s: Seq<char>)
    ensures
        word_len(s) <= s.len(),
        forall|j: int| 0 <= j < word_len(s) ==> !is_ws(#[trigger] s[j]),
        word_len(s) < s.len() ==> is_ws(s[word_len(s) as int]),
    decreases s.len(),
{
    if s.len() > 0 && !is_ws(s[0]) {
        lemma_word_len_bounds(s.drop_first());
        assert forall|j: int| 0 <= j < word_len(s) implies !is_ws(#[trigger] s[j]) by {
            if j > 0 {
                assert(s[j] == s.drop_first()[j - 1]);
            }
        }
    }
}

/// The maximal runs of non-whitespace characters of `s`, in order
/// (std `str::split_whitespace`).
pub open spec fn words(s: Seq<char>) -> Seq<Seq<char>>
    decreases s.len(),
{
    if s.len() == 0 {
        seq![]
    } else if is_ws(s[0]) {
        words(s.drop_first())
    } else {
        proof {
            lemma_word_len_bounds(s);
        }
        seq![s.take(word_len(s) as int)] + words(s.skip(word_len(s) as int))
    }
}

/// The parts joined with `sep` between consecutive parts (std `join`).
pub open spec fn join(parts: Seq<Seq<char>>, sep: Seq<char>) -> Seq<char>
    decreases parts.len(),
{
    if parts.len() == 0 {
        seq![]
    } else if parts.len() == 1 {
        parts[0]
    } else {
        join(parts.drop_last(), sep) + sep + parts.last()
    }
}

/// The words of `s`.
pub fn split_whitespace(s: &[char]) -> (r: Vec<Vec<char>>)
    ensures
        r@.map_values(|w: Vec<char>| w@) == words(s@),
{
    let mut out: Vec<Vec<char>> = Vec::new();
    let mut i: usize = 0;
    assert(s@.skip(0) == s@);
    assert(out@.map_values(|w: Vec<char>| w@) + words(s@) == words(s@));
    while i < s.len()
        invariant
            i <= s.len(),
            words(s@) == out@.map_values(|w: Vec<char>| w@) + words(s@.skip(i as int)),
        decreases s.len() - i,
    {
        let ghost rest = s@.skip(i as int);
        if is_whitespace(s[i]) {
            assert(rest.drop_first() == s@.skip(i + 1));
            i += 1;
        } else {
            let mut j: usize = i;
            while j < s.len() && !is_whitespace(s[j])
                invariant
                    i <= j <= s.len(),
                    word_len(rest) == (j - i) + word_len(s@.skip(j as int)),
                decreases s.len() - j,
            {
                assert(s@.skip(j as int).drop_first() == s@.skip(j + 1));
                j += 1;
            }
            proof {
                lemma_word_len_bounds(rest);
            }
            let w = slice_chars(s, i, j);
            assert(w@ == rest.take(word_len(rest) as int));
            assert(rest.skip(word_len(rest) as int) == s@.skip(j as int));
            let ghost before = out@.map_values(|w: Vec<char>| w@);
            out.push(w);
            assert(out@.map_values(|w: Vec<char>| w@) == before.push(w@));
            assert(before.push(w@) + words(s@.skip(j as int)) == before + (seq![w@] + words(
                s@.skip(j as int),
            )));
            i = j;
        }
    }
    assert(s@.skip(s.len() as int) == Seq::<char>::empty());
    assert(out@.map_values(|w: Vec<char>| w@) + Seq::<Seq<char>>::empty() == out@.map_values(
        |w: Vec<char>| w@,
    ));
    out
}

/// The parts joined with `sep`.
pub fn join_chars(parts: &Vec<Vec<char>>, sep: &[char]) -> (r: Vec<char>)
    ensures
        r@ == join(parts@.map_values(|w: Vec<char>| w@), sep@),
{
    let ghost ps = parts@.map_values(|w: Vec<char>| w@);
    let mut out: Vec<char> = Vec::new();
    let mut i: usize = 0;
    while i < parts.len()
        invariant
            i <= parts.len(),
            ps == parts@.map_values(|w: Vec<char>| w@),
            out@ == join(ps.take(i as int), sep@),
        decreases parts.len() - i,
    {
        assert(ps.take(i + 1).drop_last() == ps.take(i as int));
        assert(ps.take(i + 1).last() == parts@[i as int]@);
        if i > 0 {
            extend_chars(&mut out, sep);
        } else {
            assert(ps.take(1) =~= seq![parts@[0]@]);
        }
        extend_chars(&mut out, parts[i].as_slice());
        i += 1;
    }
    assert(ps.take(parts.len() as int) == ps);
    out
}

/// `s` with whitespace runs collapsed to single spaces and no whitespace at
/// either end.
pub open spec fn squash_ws(s: Seq<char>) -> Seq<char> {
    join(words(s), seq![' '])
}

/// Collapses whitespace in `s` (`split_whitespace` followed by `join(" ")`).
pub fn squash_whitespace(s: &[char]) -> (r: Vec<char>)
    ensures
        r@ == squash_ws(s@),
{
    let ws = split_whitespace(s);
    let sp: [char; 1] = [' '];
    let r = join_chars(&ws, sp.as_slice());
    assert(sp@ == seq![' ']);
    r
}

// ---------------------------------------------------------------------------
// Splitting text at a separator
// ---------------------------------------------------------------------------

/// The first index at or after `i` where `sep` occurs in `s`, or -1.
pub open spec fn first_from(s: Seq<char>, sep: Seq<char>, i: int) -> int
    decreases s.len() - i,
{
    if i < 0 || sep.len() == 0 || i + sep.len() > s.len() {
        -1
    } else if occurs_at(s, sep, i) {
        i
    } else {
        first_from(s, sep, i + 1)
    }
}

pub proof fn lemma_first_from(s: Seq<char>, sep: Seq<char>, i: int)
    requires
        0 <= i,
        sep.len() > 0,
    ensures
        first_from(s, sep, i) >= 0 ==> {
            let k = first_from(s, sep, i);
            &&& i <= k
            &&& occurs_at(s, sep, k)
            &&& forall|j: int| i <= j < k ==> !#[trigger] occurs_at(s, sep, j)
        },
        first_from(s, sep, i) < 0 ==> forall|j: int| i <= j ==> !#[trigger] occurs_at(s, sep, j),
    decreases s.len() - i,
{
    if i + sep.len() > s.len() {
    } else if occurs_at(s, sep, i) {
    } else {
        lemma_first_from(s, sep, i + 1);
    }
}

/// `s` cut at each occurrence of `sep`, scanning left to right (std
/// `str::split` with a string pattern).
pub open spec fn split_on(s: Seq<char>, sep: Seq<char>) -> Seq<Seq<char>>
    decreases s.len(),
{
    let k = first_from(s, sep, 0);
    if sep.len() > 0 && k >= 0 {
        proof {
            lemma_first_from(s, sep, 0);
        }
        seq![s.take(k)] + split_on(s.skip(k + sep.len()), sep)
    } else {
        seq![s]
    }
}

pub proof fn lemma_split_on_nonempty(s: Seq<char>, sep: Seq<char>)
    ensures
        split_on(s, sep).len() >= 1,
{
}

pub proof fn lemma_join_prepend(a: Seq<char>, r: Seq<Seq<char>>, sep: Seq<char>)
    requires
        r.len() >= 1,
    ensures
        join(seq![a] + r, sep) == a + sep + join(r, sep),
    decreases r.len(),
{
    let whole = seq![a] + r;
    if r.len() == 1 {
        assert(whole.drop_last() == seq![a]);
        assert(join(seq![a], sep) == a);
    } else {
        assert(whole.drop_last() == seq![a] + r.drop_last());
        lemma_join_prepend(a, r.drop_last(), sep);
        assert(whole.last() == r.last());
        assert(a + sep + join(r.drop_last(), sep) + sep + r.last() == a + sep + (join(
            r.drop_last(),
            sep,
        ) + sep + r.last()));
    }
}

/// Joining the pieces of a split with the separator gives back the text.
pub proof fn lemma_join_split_on(s: Seq<char>, sep: Seq<char>)
    ensures
        join(split_on(s, sep), sep) == s,
    decreases s.len(),
{
    let k = first_from(s, sep, 0);
    if sep.len() > 0 && k >= 0 {
        lemma_first_from(s, sep, 0);
        let rest = s.skip(k + sep.len());
        lemma_join_split_on(rest, sep);
        lemma_split_on_nonempty(rest, sep);
        lemma_join_prepend(s.take(k), split_on(rest, sep), sep);
        assert(s.subrange(k, k + sep.len()) == sep);
        assert(s.take(k) + sep + rest =~= s);
    }
}

pub proof fn lemma_occurs_shift(s: Seq<char>, sep: Seq<char>, p: int, j: int)
    requires
        0 <= p <= s.len(),
        0 <= j,
    ensures
        occurs_at(s.skip(p), sep, j) == occurs_at(s, sep, p + j),
{
    if occurs_at(s, sep, p + j) {
        assert(s.skip(p).subrange(j, j + sep.len()) =~= s.subrange(p + j, p + j + sep.len()));
    }
    if occurs_at(s.skip(p), sep, j) {
        assert(s.skip(p).subrange(j, j + sep.len()) =~= s.subrange(p + j, p + j + sep.len()));
    }
}

/// The pieces of `s` between occurrences of `sep`.
pub fn split_chars(s: &[char], sep: &[char]) -> (r: Vec<Vec<char>>)
    requires
        sep.len() > 0,
    ensures
        r@.map_values(|w: Vec<char>| w@) == split_on(s@, sep@),
{
    let mut out: Vec<Vec<char>> = Vec::new();
    let mut pos: usize = 0;
    assert(s@.skip(0) == s@);
    assert(out@.map_values(|w: Vec<char>| w@) + split_on(s@, sep@) == split_on(s@, sep@));
    loop
        invariant
            pos <= s.len(),
            sep.len() > 0,
            split_on(s@, sep@) == out@.map_values(|w: Vec<char>| w@) + split_on(
                s@.skip(pos as int),
                sep@,
            ),
        decreases s.len() - pos,
    {
        let ghost rest = s@.skip(pos as int);
        let ghost before = out@.map_values(|w: Vec<char>| w@);
        let found = find_from(s, sep, pos);
        proof {
            lemma_first_from(rest, sep@, 0);
            assert forall|j: int| 0 <= j implies #[trigger] occurs_at(rest, sep@, j) == occurs_at(
                s@,
                sep@,
                pos + j,
            ) by {
                lemma_occurs_shift(s@, sep@, pos as int, j);
            }
        }
        match found {
            Some(k) => {
                proof {
                    let f = first_from(rest, sep@, 0);
                    if f >= 0 {
                        assert(occurs_at(s@, sep@, pos + f));
                        if f < k - pos {
                            assert(!occurs_at(s@, sep@, pos + f));
                        }
                        assert(occurs_at(rest, sep@, k - pos));
                    } else {
                        assert(occurs_at(rest, sep@, k - pos));
                    }
                    assert(f == k - pos);
                }
                let piece = slice_chars(s, pos, k);
                assert(piece@ == rest.take(k - pos));
                assert(rest.skip(k - pos + sep.len()) == s@.skip(k + sep.len()));
                out.push(piece);
                assert(out@.map_values(|w: Vec<char>| w@) == before.push(piece@));
                assert(before.push(piece@) + split_on(s@.skip(k + sep.len()), sep@) == before + (
                seq![piece@] + split_on(s@.skip(k + sep.len()), sep@)));
                pos = k + sep.len();
            },
            None => {
                proof {
                    let f = first_from(rest, sep@, 0);
                    if f >= 0 {
                        assert(occurs_at(s@, sep@, pos + f));
                    }
                }
                let piece = slice_chars(s, pos, s.len());
                out.push(piece);
                assert(out@.map_values(|w: Vec<char>| w@) == before.push(piece@));
                assert(before.push(piece@) == before + seq![rest]);
                return out;
            },
        }
    }
}

/// The first index where `sub` occurs in `s`, in the terms of `first_from`.
pub fn find_first(s: &[char], sub: &[char]) -> (r: Option<usize>)
    requires
        sub.len() > 0,
    ensures
        match r {
            Some(i) => i as int == first_from(s@, sub@, 0) && i + sub.len() <= s.len(),
            None => first_from(s@, sub@, 0) < 0,
        },
{
    let r = find(s, sub);
    proof {
        lemma_first_from(s@, sub@, 0);
        let f = first_from(s@, sub@, 0);
        match r {
            Some(i) => {
                if f >= 0 && f < i {
                    assert(!occurs_at(s@, sub@, f));
                }
                if f > i {
                    assert(!occurs_at(s@, sub@, i as int));
                }
                if f < 0 {
                    assert(!occurs_at(s@, sub@, i as int));
                }
            },
            None => {
                if f >= 0 {
                    assert(occurs_at(s@, sub@, f));
                }
            },
        }
    }
    r
}

/// `s` with every occurrence of `pat` (leftmost first, not overlapping)
/// replaced by `rep` (std `str::replace`).
pub open spec fn replace_str(s: Seq<char>, pat: Seq<char>, rep: Seq<char>) -> Seq<char> {
    join(split_on(s, pat), rep)
}

/// `s` with every occurrence of `pat` replaced by `rep`.
pub fn replace_chars(s: &[char], pat: &[char], rep: &[char]) -> (r: Vec<char>)
    requires
        pat.len() > 0,
    ensures
        r@ == replace_str(s@, pat@, rep@),
{
    let parts = split_chars(s, pat);
    join_chars(&parts, rep)
}

/// The lines of `s` as std's `str::lines` gives them: pieces between line
/// feeds, without a final empty piece after a trailing line feed, each with a
/// trailing carriage return removed.
pub open spec fn lines_of(s: Seq<char>) -> Seq<Seq<char>> {
    if s.len() == 0 {
        seq![]
    } else {
        let parts = split_on(s, seq!['\n']);
        let kept = if s.last() == '\n' {
            parts.drop_last()
        } else {
            parts
        };
        kept.map_values(|l: Seq<char>| strip_cr(l))
    }
}

/// `l` without one trailing carriage return.
pub open spec fn strip_cr(l: Seq<char>) -> Seq<char> {
    if l.len() > 0 && l.last() == '\r' {
        l.drop_last()
    } else {
        l
    }
}

/// The lines of `s`.
pub fn lines(s: &[char]) -> (r: Vec<Vec<char>>)
    ensures
        r@.map_values(|w: Vec<char>| w@) == lines_of(s@),
{
    if s.len() == 0 {
        let r: Vec<Vec<char>> = Vec::new();
        assert(r@.map_values(|w: Vec<char>| w@) =~= Seq::<Seq<char>>::empty());
        return r;
    }
    let nl: [char; 1] = ['\n'];
    assert(nl@ == seq!['\n']);
    let parts = split_chars(s, nl.as_slice());
    let ghost ps = parts@.map_values(|w: Vec<char>| w@);
    proof {
        lemma_split_on_nonempty(s@, seq!['\n']);
    }
    let n = if s[s.len() - 1] == '\n' { parts.len() - 1 } else { parts.len() };
    let ghost kept = if s@.last() == '\n' { ps.drop_last() } else { ps };
    assert(kept == ps.take(n as int));
    let mut out: Vec<Vec<char>> = Vec::new();
    let mut i: usize = 0;
    while i < n
        invariant
            i <= n <= parts.len(),
            ps == parts@.map_values(|w: Vec<char>| w@),
            kept == ps.take(n as int),
            out@.map_values(|w: Vec<char>| w@) == kept.take(i as int).map_values(
                |l: Seq<char>| strip_cr(l),
            ),
        decreases n - i,
    {
        let p = &parts[i];
        let line = if p.len() > 0 && p[p.len() - 1] == '\r' {
            slice_chars(p.as_slice(), 0, p.len() - 1)
        } else {
            to_vec(p.as_slice())
        };
        assert(line@ == strip_cr(ps[i as int]));
        let ghost before = out@.map_values(|w: Vec<char>| w@);
        out.push(line);
        assert(out@.map_values(|w: Vec<char>| w@) == before.push(line@));
        assert(kept.take(i + 1).map_values(|l: Seq<char>| strip_cr(l)) =~= kept.take(
            i as int,
        ).map_values(|l: Seq<char>| strip_cr(l)).push(strip_cr(kept[i as int])));
        i += 1;
    }
    assert(kept.take(n as int) == kept);
    out
}

// ---------------------------------------------------------------------------
// UTF-8 length
// ---------------------------------------------------------------------------

/// Number of bytes of the UTF-8 encoding of `c`.
pub open spec fn utf8_width(c: char) -> nat {
    if (c as u32) < 0x80 {
        1
    } else if (c as u32) < 0x800 {
        2
    } else if (c as u32) < 0x10000 {
        3
    } else {
        4
    }
}

/// Number of bytes of the UTF-8 encoding of `s` (std `str::len`).
pub open spec fn utf8_len(s: Seq<char>) -> nat
    decreases s.len(),
{
    if s.len() == 0 {
        0
    } else {
        utf8_len(s.drop_last()) + utf8_width(s.last())
    }
}

pub proof fn lemma_utf8_len_prefix(s: Seq<char>, i: int)
    requires
        0 <= i <= s.len(),
    ensures
        utf8_len(s.take(i)) <= utf8_len(s),
    decreases s.len() - i,
{
    if i < s.len() {
        lemma_utf8_len_prefix(s, i + 1);
        assert(s.take(i + 1).drop_last() == s.take(i));
    } else {
        assert(s.take(i) == s);
    }
}

fn width(c: char) -> (w: usize)
    ensures
        w == utf8_width(c),
{
    let u = c as u32;
    if u < 0x80 {
        1
    } else if u < 0x800 {
        2
    } else if u < 0x10000 {
        3
    } else {
        4
    }
}

/// Whether the UTF-8 encoding of `s` is longer than `n` bytes.
pub fn utf8_len_exceeds(s: &[char], n: usize) -> (r: bool)
    requires
        n <= usize::MAX - 4,
    ensures
        r == (utf8_len(s@) > n),
{
    let mut sum: usize = 0;
    let mut i: usize = 0;
    while i < s.len()
        invariant
            i <= s.len(),
            n <= usize::MAX - 4,
            sum == utf8_len(s@.take(i as int)),
            sum <= n,
        decreases s.len() - i,
    {
        assert(s@.take(i + 1).drop_last() == s@.take(i as int));
        sum = sum + width(s[i]);
        if sum > n {
            proof {
                lemma_utf8_len_prefix(s@, i + 1);
            }
            return true;
        }
        i += 1;
    }
    assert(s@.take(s.len() as int) == s@);
    false
}

// ---------------------------------------------------------------------------
// Decimal formatting
// ---------------------------------------------------------------------------

/// The decimal digit for `d < 10`.
pub open spec fn digit_char(d: nat) -> char {
    if d == 0 {
        '0'
    } else if d == 1 {
        '1'
    } else if d == 2 {
        '2'
    } else if d == 3 {
        '3'
    } else if d == 4 {
        '4'
    } else if d == 5 {
        '5'
    } else if d == 6 {
        '6'
    } else if d == 7 {
        '7'
    } else if d == 8 {
        '8'
    } else {
        '9'
    }
}

/// The decimal representation of `n`, without leading zeros (`"0"` for 0),
/// as std's `Display` for unsigned integers writes it.
pub open spec fn decimal(n: nat) -> Seq<char>
    decreases n,
{
    if n < 10 {
        seq![digit_char(n)]
    } else {
        decimal(n / 10).push(digit_char(n % 10))
    }
}

fn digit(d: u64) -> (c: char)
    requires
        d < 10,
    ensures
        c == digit_char(d as nat),
{
    if d == 0 {
        '0'
    } else if d == 1 {
        '1'
    } else if d == 2 {
        '2'
    } else if d == 3 {
        '3'
    } else if d == 4 {
        '4'
    } else if d == 5 {
        '5'
    } else if d == 6 {
        '6'
    } else if d == 7 {
        '7'
    } else if d == 8 {
        '8'
    } else {
        '9'
    }
}

/// The decimal digits of `n`.
pub fn decimal_chars(n: u64) -> (r: Vec<char>)
    ensures
        r@ == decimal(n as nat),
    decreases n,
{
    if n < 10 {
        let mut v: Vec<char> = Vec::new();
        v.push(digit(n));
        v
    } else {
        let mut v = decimal_chars(n / 10);
        v.push(digit(n % 10));
        v
    }
}

/// The parts, concatenated in order.
pub open spec fn concat_all(parts: Seq<Seq<char>>) -> Seq<char>
    decreases parts.len(),
{
    if parts.len() == 0 {
        Seq::empty()
    } else {
        concat_all(parts.drop_last()) + parts.last()
    }
}

/// Concatenating one more part appends it.
pub proof fn lemma_concat_all_push(parts: Seq<Seq<char>>, p: Seq<char>)
    ensures
        concat_all(parts.push(p)) == concat_all(parts) + p,
{
    assert(parts.push(p).drop_last() == parts);
}

/// The decimal representation of `n` as a string.
pub fn decimal_string(n: u64) -> (s: String)
    ensures
        s@ == decimal(n as nat),
{
    let v = decimal_chars(n);
    string_of(v.as_slice())
}

} // verus!
