//! Cross-ring full-text search: how text is prepared for the FTS index, how
//! a user query is turned into an FTS query, and how hits are rendered as
//! context for a language model.
use vstd::prelude::*;
use vstd::string::*;

use crate::text::{
    chars_of, extend_chars, join, join_chars, owned, push_str, split_whitespace, squash_whitespace,
    squash_ws, string_of, take_chars, utf8_len, utf8_len_exceeds, words,
};

verus! {

/// CJK ideographs (with extensions A–E and compatibility forms), hiragana,
/// katakana and Hangul syllables: the characters that the index splits into
/// single characters and pairs.
pub open spec fn is_cjk_char(ch: char) -> bool {
    ||| ('\u{4E00}' <= ch && ch <= '\u{9FFF}')
    ||| ('\u{3400}' <= ch && ch <= '\u{4DBF}')
    ||| ('\u{20000}' <= ch && ch <= '\u{2A6DF}')
    ||| ('\u{2A700}' <= ch && ch <= '\u{2B73F}')
    ||| ('\u{2B740}' <= ch && ch <= '\u{2B81F}')
    ||| ('\u{2B820}' <= ch && ch <= '\u{2CEAF}')
    ||| ('\u{F900}' <= ch && ch <= '\u{FAFF}')
    ||| ('\u{2F800}' <= ch && ch <= '\u{2FA1F}')
    ||| ('\u{3040}' <= ch && ch <= '\u{309F}')
    ||| ('\u{30A0}' <= ch && ch <= '\u{30FF}')
    ||| ('\u{AC00}' <= ch && ch <= '\u{D7AF}')
}

/// Whether `ch` is a CJK character in the sense of `is_cjk_char`.
pub fn is_cjk(ch: char) -> (r: bool)
    ensures
        r == is_cjk_char(ch),
{
    ('\u{4E00}' <= ch && ch <= '\u{9FFF}') || ('\u{3400}' <= ch && ch <= '\u{4DBF}') || (
    '\u{20000}' <= ch && ch <= '\u{2A6DF}') || ('\u{2A700}' <= ch && ch <= '\u{2B73F}') || (
    '\u{2B740}' <= ch && ch <= '\u{2B81F}') || ('\u{2B820}' <= ch && ch <= '\u{2CEAF}') || (
    '\u{F900}' <= ch && ch <= '\u{FAFF}') || ('\u{2F800}' <= ch && ch <= '\u{2FA1F}') || (
    '\u{3040}' <= ch && ch <= '\u{309F}') || ('\u{30A0}' <= ch && ch <= '\u{30FF}') || (
    '\u{AC00}' <= ch && ch <= '\u{D7AF}')
}

/// Number of CJK characters at the start of `s`.
pub open spec fn cjk_run(s: Seq<char>) -> nat
    decreases s.len(),
{
    if s.len() > 0 && is_cjk_char(s[0]) {
        1 + cjk_run(s.drop_first())
    } else {
        0
    }
}

pub proof fn lemma_cjk_run_bounds(s: Seq<char>)
    ensures
        cjk_run(s) <= s.len(),
        s.len() > 0 && is_cjk_char(s[0]) ==> cjk_run(s) >= 1,
    decreases s.len(),
{
    if s.len() > 0 && is_cjk_char(s[0]) {
        lemma_cjk_run_bounds(s.drop_first());
    }
}

/// Each character of `r` followed by a space.
pub open spec fn unigrams(r: Seq<char>) -> Seq<char>
    decreases r.len(),
{
    if r.len() == 0 {
        seq![]
    } else {
        unigrams(r.drop_last()) + seq![r.last(), ' ']
    }
}

/// Each pair of adjacent characters of `r` followed by a space.
pub open spec fn bigrams(r: Seq<char>) -> Seq<char>
    decreases r.len(),
{
    if r.len() < 2 {
        seq![]
    } else {
        bigrams(r.drop_last()) + seq![r[r.len() - 2], r.last(), ' ']
    }
}

/// `s` with every maximal run of CJK characters replaced by a space, the
/// run's characters and then its adjacent pairs, each followed by a space;
/// other characters are kept as they are.
pub open spec fn expand_cjk(s: Seq<char>) -> Seq<char>
    decreases s.len(),
{
    if s.len() == 0 {
        seq![]
    } else if is_cjk_char(s[0]) {
        proof {
            lemma_cjk_run_bounds(s);
        }
        seq![' '] + unigrams(s.take(cjk_run(s) as int)) + bigrams(s.take(cjk_run(s) as int))
            + expand_cjk(s.skip(cjk_run(s) as int))
    } else {
        seq![s[0]] + expand_cjk(s.drop_first())
    }
}

/// Index form of a text: CJK runs expanded into single characters and pairs,
/// then whitespace collapsed to single spaces.
pub open spec fn cjk_normalized(s: Seq<char>) -> Seq<char> {
    squash_ws(expand_cjk(s))
}

fn push_grams(out: &mut Vec<char>, r: &[char])
    ensures
        final(out)@ == old(out)@ + unigrams(r@) + bigrams(r@),
{
    let ghost base = out@;
    let mut k: usize = 0;
    assert(r@.take(0) == Seq::<char>::empty());
    while k < r.len()
        invariant
            k <= r.len(),
            out@ == base + unigrams(r@.take(k as int)),
        decreases r.len() - k,
    {
        assert(r@.take(k + 1).drop_last() == r@.take(k as int));
        assert(r@.take(k + 1).last() == r@[k as int]);
        out.push(r[k]);
        out.push(' ');
        assert(base + unigrams(r@.take(k as int)) + seq![r@[k as int], ' '] == base + (unigrams(
            r@.take(k as int),
        ) + seq![r@[k as int], ' ']));
        k += 1;
    }
    assert(r@.take(r.len() as int) == r@);
    let ghost mid = out@;
    if r.len() >= 2 {
        let mut k: usize = 2;
        assert(r@.take(1).len() < 2);
        assert(bigrams(r@.take(2)) == bigrams(r@.take(1)) + seq![r@[0], r@[1], ' ']) by {
            assert(r@.take(2).drop_last() == r@.take(1));
        }
        out.push(r[0]);
        out.push(r[1]);
        out.push(' ');
        while k < r.len()
            invariant
                2 <= k <= r.len(),
                out@ == mid + bigrams(r@.take(k as int)),
            decreases r.len() - k,
        {
            assert(r@.take(k + 1).drop_last() == r@.take(k as int));
            assert(r@.take(k + 1).last() == r@[k as int]);
            assert(r@.take(k + 1)[k - 1] == r@[k - 1]);
            out.push(r[k - 1]);
            out.push(r[k]);
            out.push(' ');
            assert(mid + bigrams(r@.take(k as int)) + seq![r@[k - 1], r@[k as int], ' '] == mid + (
            bigrams(r@.take(k as int)) + seq![r@[k - 1], r@[k as int], ' ']));
            k += 1;
        }
        assert(r@.take(r.len() as int) == r@);
    } else {
        assert(bigrams(r@) == Seq::<char>::empty());
    }
}

/// The characters of `s` with CJK runs expanded (see `expand_cjk`).
pub fn expand_cjk_chars(s: &[char]) -> (r: Vec<char>)
    ensures
        r@ == expand_cjk(s@),
{
    let mut out: Vec<char> = Vec::new();
    let mut i: usize = 0;
    assert(s@.skip(0) == s@);
    while i < s.len()
        invariant
            i <= s.len(),
            expand_cjk(s@) == out@ + expand_cjk(s@.skip(i as int)),
        decreases s.len() - i,
    {
        let ghost rest = s@.skip(i as int);
        let ghost before = out@;
        if is_cjk(s[i]) {
            let mut j: usize = i;
            while j < s.len() && is_cjk(s[j])
                invariant
                    i <= j <= s.len(),
                    cjk_run(rest) == (j - i) + cjk_run(s@.skip(j as int)),
                decreases s.len() - j,
            {
                assert(s@.skip(j as int).drop_first() == s@.skip(j + 1));
                j += 1;
            }
            proof {
                lemma_cjk_run_bounds(rest);
                lemma_cjk_run_bounds(s@.skip(j as int));
            }
            let run = crate::text::slice_chars(s, i, j);
            assert(run@ == rest.take(cjk_run(rest) as int));
            assert(rest.skip(cjk_run(rest) as int) == s@.skip(j as int));
            out.push(' ');
            push_grams(&mut out, run.as_slice());
            assert(before + (seq![' '] + unigrams(run@) + bigrams(run@) + expand_cjk(
                s@.skip(j as int),
            )) == before.push(' ') + unigrams(run@) + bigrams(run@) + expand_cjk(
                s@.skip(j as int),
            ));
            i = j;
        } else {
            assert(rest.drop_first() == s@.skip(i + 1));
            out.push(s[i]);
            assert(before + (seq![s@[i as int]] + expand_cjk(s@.skip(i + 1))) == before.push(
                s@[i as int],
            ) + expand_cjk(s@.skip(i + 1)));
            i += 1;
        }
    }
    assert(s@.skip(s.len() as int) == Seq::<char>::empty());
    assert(out@ + Seq::<char>::empty() == out@);
    out
}

/// Prepares text for the full-text index: each run of CJK characters is
/// spelled out as its single characters and its adjacent pairs, set apart by
/// spaces from the text around it, and whitespace is collapsed.
pub fn normalize_cjk(text: &str) -> (r: String)
    ensures
        r@ == cjk_normalized(text@),
{
    let v = chars_of(text);
    let e = expand_cjk_chars(v.as_slice());
    let sq = squash_whitespace(e.as_slice());
    string_of(sq.as_slice())
}

proof fn lemma_expand_plain(s: Seq<char>)
    requires
        forall|i: int| 0 <= i < s.len() ==> !is_cjk_char(#[trigger] s[i]),
    ensures
        expand_cjk(s) == s,
    decreases s.len(),
{
    if s.len() > 0 {
        assert(!is_cjk_char(s[0]));
        assert forall|i: int| 0 <= i < s.drop_first().len() implies !is_cjk_char(
            #[trigger] s.drop_first()[i],
        ) by {
            assert(s.drop_first()[i] == s[i + 1]);
        }
        lemma_expand_plain(s.drop_first());
        assert(seq![s[0]] + s.drop_first() =~= s);
    }
}

/// Text without CJK characters is indexed with only its whitespace
/// collapsed.
pub proof fn law_normalize_plain_text(s: Seq<char>)
    requires
        forall|i: int| 0 <= i < s.len() ==> !is_cjk_char(#[trigger] s[i]),
    ensures
        cjk_normalized(s) == squash_ws(s),
{
    lemma_expand_plain(s);
}

// ---------------------------------------------------------------------------
// FTS query
// ---------------------------------------------------------------------------

/// Characters with a meaning in FTS5 query syntax, which a user query must
/// not carry into the index lookup.
pub open spec fn is_fts_special(c: char) -> bool {
    c == '*' || c == '"' || c == '(' || c == ')' || c == ':' || c == '^' || c == '{' || c == '}'
        || c == '[' || c == ']'
}

/// `s` with FTS special characters replaced by spaces.
pub open spec fn blank_specials(s: Seq<char>) -> Seq<char> {
    s.map_values(|c: char| if is_fts_special(c) { ' ' } else { c })
}

/// The terms of a query that are at least two bytes long in UTF-8.
pub open spec fn long_terms(ws: Seq<Seq<char>>) -> Seq<Seq<char>>
    decreases ws.len(),
{
    if ws.len() == 0 {
        seq![]
    } else if utf8_len(ws.last()) >= 2 {
        long_terms(ws.drop_last()).push(ws.last())
    } else {
        long_terms(ws.drop_last())
    }
}

/// At most the first `n` items of `s`.
pub open spec fn first_n<A>(s: Seq<A>, n: nat) -> Seq<A> {
    if s.len() <= n {
        s
    } else {
        s.take(n as int)
    }
}

/// The FTS query for a (normalised) user query: its first ten whitespace
/// separated terms of at least two bytes, after special characters are
/// blanked, each made a prefix match with `*` and joined with ` OR `.
pub open spec fn fts_query(input: Seq<char>) -> Seq<char> {
    join(
        first_n(long_terms(words(blank_specials(input))), 10).map_values(
            |t: Seq<char>| t.push('*'),
        ),
        " OR "@,
    )
}

fn fts_special(c: char) -> (r: bool)
    ensures
        r == is_fts_special(c),
{
    c == '*' || c == '"' || c == '(' || c == ')' || c == ':' || c == '^' || c == '{' || c == '}'
        || c == '[' || c == ']'
}

/// Builds the FTS query for `input` (see `fts_query`); empty when no term is
/// left.
pub fn sanitize_fts_query(input: &str) -> (r: String)
    ensures
        r@ == fts_query(input@),
{
    let v = chars_of(input);
    let mut cleaned: Vec<char> = Vec::new();
    let mut i: usize = 0;
    while i < v.len()
        invariant
            i <= v.len(),
            v@ == input@,
            cleaned@ == blank_specials(v@.take(i as int)),
        decreases v.len() - i,
    {
        let c = v[i];
        cleaned.push(if fts_special(c) { ' ' } else { c });
        assert(blank_specials(v@.take(i + 1)) =~= blank_specials(v@.take(i as int)).push(
            if is_fts_special(c) { ' ' } else { c },
        ));
        i += 1;
    }
    assert(v@.take(v.len() as int) == v@);
    let ws = split_whitespace(cleaned.as_slice());
    let ghost wsv = ws@.map_values(|w: Vec<char>| w@);
    let mut kept: Vec<Vec<char>> = Vec::new();
    let mut k: usize = 0;
    while k < ws.len()
        invariant
            k <= ws.len(),
            wsv == ws@.map_values(|w: Vec<char>| w@),
            kept@.map_values(|w: Vec<char>| w@) == long_terms(wsv.take(k as int)),
        decreases ws.len() - k,
    {
        assert(wsv.take(k + 1).drop_last() == wsv.take(k as int));
        assert(wsv.take(k + 1).last() == ws@[k as int]@);
        if utf8_len_exceeds(ws[k].as_slice(), 1) {
            let ghost before = kept@.map_values(|w: Vec<char>| w@);
            kept.push(to_vec_of(&ws[k]));
            assert(kept@.map_values(|w: Vec<char>| w@) == before.push(ws@[k as int]@));
        }
        k += 1;
    }
    assert(wsv.take(ws.len() as int) == wsv);
    let ghost lt = kept@.map_values(|w: Vec<char>| w@);
    let n = if kept.len() <= 10 { kept.len() } else { 10 };
    let mut terms: Vec<Vec<char>> = Vec::new();
    let mut j: usize = 0;
    while j < n
        invariant
            j <= n <= kept.len(),
            n == if kept.len() <= 10 { kept.len() } else { 10 },
            lt == kept@.map_values(|w: Vec<char>| w@),
            terms@.map_values(|w: Vec<char>| w@) == lt.take(j as int).map_values(
                |t: Seq<char>| t.push('*'),
            ),
        decreases n - j,
    {
        let mut t = to_vec_of(&kept[j]);
        t.push('*');
        let ghost before = terms@.map_values(|w: Vec<char>| w@);
        terms.push(t);
        assert(terms@.map_values(|w: Vec<char>| w@) == before.push(kept@[j as int]@.push('*')));
        assert(lt.take(j + 1).map_values(|t: Seq<char>| t.push('*')) =~= lt.take(
            j as int,
        ).map_values(|t: Seq<char>| t.push('*')).push(kept@[j as int]@.push('*')));
        j += 1;
    }
    assert(lt.take(n as int) == first_n(lt, 10));
    let sep: [char; 4] = [' ', 'O', 'R', ' '];
    proof {
        reveal_strlit(" OR ");
    }
    assert(sep@ == " OR "@);
    let joined = join_chars(&terms, sep.as_slice());
    string_of(joined.as_slice())
}

/// A character without meaning in FTS5 query syntax.
spec fn fts_inert(c: char) -> bool {
    c != '*' && c != '"' && c != '(' && c != ')' && c != ':' && c != '^' && c != '{' && c != '}'
        && c != '[' && c != ']'
}

spec fn all_inert(s: Seq<char>) -> bool {
    forall|i: int| 0 <= i < s.len() ==> fts_inert(#[trigger] s[i])
}

proof fn lemma_blanked_inert(s: Seq<char>)
    ensures
        all_inert(blank_specials(s)),
{
}

proof fn lemma_words_inert(s: Seq<char>)
    requires
        all_inert(s),
    ensures
        forall|k: int| 0 <= k < words(s).len() ==> all_inert(#[trigger] words(s)[k]),
    decreases s.len(),
{
    if s.len() > 0 {
        if crate::text::is_ws(s[0]) {
            let t = s.drop_first();
            assert forall|i: int| 0 <= i < t.len() implies fts_inert(#[trigger] t[i]) by {
                assert(t[i] == s[i + 1]);
            }
            lemma_words_inert(t);
            assert(words(s) == words(t));
        } else {
            crate::text::lemma_word_len_bounds(s);
            let n = crate::text::word_len(s) as int;
            let t = s.skip(n);
            assert forall|i: int| 0 <= i < t.len() implies fts_inert(#[trigger] t[i]) by {
                assert(t[i] == s[i + n]);
            }
            lemma_words_inert(t);
            let head = s.take(n);
            assert forall|i: int| 0 <= i < head.len() implies fts_inert(#[trigger] head[i]) by {
                assert(head[i] == s[i]);
            }
            assert(words(s) == seq![head] + words(t));
            assert forall|k: int| 0 <= k < words(s).len() implies all_inert(#[trigger] words(s)[k]) by {
                if k > 0 {
                    assert(words(s)[k] == words(t)[k - 1]);
                }
            }
        }
    }
}

proof fn lemma_long_terms_inert(ws: Seq<Seq<char>>)
    requires
        forall|k: int| 0 <= k < ws.len() ==> all_inert(#[trigger] ws[k]),
    ensures
        forall|k: int| 0 <= k < long_terms(ws).len() ==> all_inert(#[trigger] long_terms(ws)[k]),
    decreases ws.len(),
{
    if ws.len() > 0 {
        let prev = ws.drop_last();
        assert forall|k: int| 0 <= k < prev.len() implies all_inert(#[trigger] prev[k]) by {
            assert(prev[k] == ws[k]);
        }
        lemma_long_terms_inert(prev);
        assert(all_inert(ws[ws.len() - 1]));
        let lp = long_terms(prev);
        if utf8_len(ws.last()) >= 2 {
            assert(long_terms(ws) == lp.push(ws.last()));
            assert forall|k: int| 0 <= k < long_terms(ws).len() implies all_inert(#[trigger] long_terms(ws)[k]) by {
                if k < lp.len() {
                    assert(long_terms(ws)[k] == lp[k]);
                }
            }
        } else {
            assert(long_terms(ws) == lp);
        }
    }
}

/// Terms each ending in `*`, inert before it, joined with ` OR `: every
/// character is inert, or a `*` that ends the query or comes before a space.
proof fn lemma_join_terms(parts: Seq<Seq<char>>)
    requires
        forall|k: int|
            0 <= k < parts.len() ==> (#[trigger] parts[k]).len() > 0 && parts[k].last() == '*'
                && forall|j: int| 0 <= j < parts[k].len() - 1 ==> fts_inert(#[trigger] parts[k][j]),
    ensures
        forall|i: int|
            0 <= i < join(parts, " OR "@).len() ==> fts_inert(#[trigger] join(parts, " OR "@)[i]) || (
            join(parts, " OR "@)[i] == '*' && (i == join(parts, " OR "@).len() - 1 || join(
                parts,
                " OR "@,
            )[i + 1] == ' ')),
    decreases parts.len(),
{
    reveal_strlit(" OR ");
    let sep = " OR "@;
    if parts.len() == 1 {
        let p = parts[0];
        assert(join(parts, sep) == p);
        assert forall|i: int| 0 <= i < p.len() implies fts_inert(#[trigger] p[i]) || (p[i] == '*' && (i == p.len()
            - 1 || p[i + 1] == ' ')) by {
            if i < p.len() - 1 {
                assert(fts_inert(parts[0][i]));
            }
        }
    } else if parts.len() > 1 {
        let prev = parts.drop_last();
        let last = parts.last();
        assert forall|k: int|
            0 <= k < prev.len() implies (#[trigger] prev[k]).len() > 0 && prev[k].last() == '*'
                && forall|j: int| 0 <= j < prev[k].len() - 1 ==> fts_inert(#[trigger] prev[k][j]) by {
            assert(prev[k] == parts[k]);
        }
        lemma_join_terms(prev);
        let jp = join(prev, sep);
        let q = join(parts, sep);
        assert(q == jp + sep + last);
        assert(last == parts[parts.len() - 1]);
        assert(jp.len() > 0) by {
            if prev.len() == 1 {
                assert(jp == prev[0]);
            } else {
                assert(jp == join(prev.drop_last(), sep) + sep + prev.last());
            }
        }
        assert forall|i: int| 0 <= i < q.len() implies fts_inert(#[trigger] q[i]) || (q[i] == '*' && (i == q.len() - 1
            || q[i + 1] == ' ')) by {
            let a = jp.len() as int;
            if i < a {
                assert(q[i] == jp[i]);
                if i < a - 1 {
                    assert(q[i + 1] == jp[i + 1]);
                } else {
                    assert(q[i + 1] == sep[0]);
                }
            } else if i < a + 4 {
                assert(q[i] == sep[i - a]);
            } else {
                let j = i - a - 4;
                assert(q[i] == last[j]);
                if j < last.len() - 1 {
                    assert(fts_inert(parts[parts.len() - 1][j]));
                }
            }
        }
    }
}

/// The FTS query carries no FTS5 syntax from the user's text: none of
/// `" ( ) : ^ { } [ ]` occurs in it, and `*` only ends a term (at the end
/// of the query or before the ` OR ` that follows).
pub proof fn law_fts_query_has_no_syntax(input: Seq<char>)
    ensures
        forall|i: int|
            0 <= i < fts_query(input).len() ==> {
                let c = #[trigger] fts_query(input)[i];
                &&& c != '"' && c != '(' && c != ')' && c != ':' && c != '^' && c != '{' && c != '}'
                    && c != '[' && c != ']'
                &&& c == '*' ==> (i == fts_query(input).len() - 1 || fts_query(input)[i + 1] == ' ')
            },
{
    let b = blank_specials(input);
    lemma_blanked_inert(input);
    lemma_words_inert(b);
    let ws = words(b);
    lemma_long_terms_inert(ws);
    let lt = long_terms(ws);
    let firsts = first_n(lt, 10);
    assert forall|k: int| 0 <= k < firsts.len() implies all_inert(#[trigger] firsts[k]) by {
        assert(firsts[k] == lt[k]);
    }
    let parts = firsts.map_values(|t: Seq<char>| t.push('*'));
    assert forall|k: int|
        0 <= k < parts.len() implies (#[trigger] parts[k]).len() > 0 && parts[k].last() == '*'
            && forall|j: int| 0 <= j < parts[k].len() - 1 ==> fts_inert(#[trigger] parts[k][j]) by {
        assert(parts[k] == firsts[k].push('*'));
        assert forall|j: int| 0 <= j < parts[k].len() - 1 implies fts_inert(#[trigger] parts[k][j]) by {
            assert(parts[k][j] == firsts[k][j]);
        }
    }
    lemma_join_terms(parts);
}

fn to_vec_of(w: &Vec<char>) -> (r: Vec<char>)
    ensures
        r@ == w@,
{
    crate::text::to_vec(w.as_slice())
}

// ---------------------------------------------------------------------------
// Rendering hits
// ---------------------------------------------------------------------------

/// One hit of a cross-ring search, as read back from the index (the rank,
/// used only for ordering, is left in the query).
pub struct SearchRow {
    pub source_type: String,
    pub source_id: String,
    pub ring_id: String,
    pub ring_name: String,
    pub title: String,
    pub content: String,
    pub metadata: String,
}

/// How one hit is rendered: where it comes from, then at most 500 characters
/// of its content, with `...` when the content is over 500 bytes long.
pub open spec fn hit_block(h: SearchRow) -> Seq<char> {
    "[Ring: "@ + h.ring_name@ + " > "@ + h.title@ + "]\ntype: "@ + h.source_type@ + ", id: "@
        + h.source_id@ + "\n"@ + first_n(h.content@, 500) + (if utf8_len(h.content@) > 500 {
        "..."@
    } else {
        ""@
    }) + "\n\n"@
}

/// The blocks of all hits, in order.
pub open spec fn hit_blocks(hs: Seq<SearchRow>) -> Seq<char>
    decreases hs.len(),
{
    if hs.len() == 0 {
        seq![]
    } else {
        hit_blocks(hs.drop_last()) + hit_block(hs.last())
    }
}

/// The opening of the context block.
pub open spec fn context_header() -> Seq<char> {
    "<cross_ring_context>\n以下是从用户的所有 Ring 中检索到的相关内容：\n\n"@
}

/// The context given to the model for a list of hits: nothing when there is
/// no hit, else the hits' blocks inside a `cross_ring_context` element.
pub open spec fn search_context(hs: Seq<SearchRow>) -> Seq<char> {
    if hs.len() == 0 {
        seq![]
    } else {
        context_header() + hit_blocks(hs) + "</cross_ring_context>"@
    }
}

/// Renders search hits as context for a language model.
pub fn format_search_context(results: &[SearchRow]) -> (r: String)
    ensures
        r@ == search_context(results@),
{
    if results.len() == 0 {
        return String::new();
    }
    let mut ctx = owned("<cross_ring_context>\n以下是从用户的所有 Ring 中检索到的相关内容：\n\n");
    let mut i: usize = 0;
    while i < results.len()
        invariant
            i <= results.len(),
            ctx@ == context_header() + hit_blocks(results@.take(i as int)),
        decreases results.len() - i,
    {
        let ghost before = ctx@;
        let block = render_hit(&results[i]);
        ctx.append(block.as_str());
        assert(results@.take(i + 1).drop_last() == results@.take(i as int));
        assert(results@.take(i + 1).last() == results@[i as int]);
        i += 1;
    }
    assert(results@.take(results.len() as int) == results@);
    ctx.append("</cross_ring_context>");
    ctx
}

/// The block for one hit (see `hit_block`).
pub fn render_hit(r: &SearchRow) -> (b: String)
    ensures
        b@ == hit_block(*r),
{
    let mut ctx = String::new();
    ctx.append("[Ring: ");
    ctx.append(r.ring_name.as_str());
    ctx.append(" > ");
    ctx.append(r.title.as_str());
    ctx.append("]\ntype: ");
    ctx.append(r.source_type.as_str());
    ctx.append(", id: ");
    ctx.append(r.source_id.as_str());
    ctx.append("\n");
    let cv = chars_of(r.content.as_str());
    let t = take_chars(cv.as_slice(), 500);
    push_chars_of(&mut ctx, &t);
    if utf8_len_exceeds(cv.as_slice(), 500) {
        ctx.append("...");
    } else {
        ctx.append("");
    }
    ctx.append("\n\n");
    assert(t@ == first_n(r.content@, 500));
    assert(ctx@ =~= hit_block(*r));
    ctx
}

fn push_chars_of(s: &mut String, v: &Vec<char>)
    ensures
        final(s)@ == old(s)@ + v@,
{
    crate::text::push_chars(s, v.as_slice());
}

} // verus!
