//! File uploads: which files are accepted, how their text is obtained, how
//! many tokens that text is estimated to cost, and how long text is split into
//! chunks at paragraph boundaries.
use vstd::prelude::*;
use vstd::string::*;
use vstd::utf8::*;

use crate::error::RingError;
use crate::text::{
    chars_of, decimal, decimal_string, is_blank, lowercase_of, owned, slice_chars, str_eq, string_of,
    to_lowercase, trim, join, to_vec, extend_chars, split_on, split_chars, lemma_join_split_on,
    lemma_split_on_nonempty,
};

verus! {

/// Largest accepted upload, in bytes (10 MiB).
pub const MAX_FILE_SIZE: usize = 10485760;

/// Largest chunk, in characters, that an upload is split into.
pub const CHUNK_SIZE: usize = 20000;

/// Estimated token count above which an upload triggers a warning.
pub const TOKEN_WARNING_THRESHOLD: usize = 10000;

// ---------------------------------------------------------------------------
// Trusted calls
// ---------------------------------------------------------------------------

/// What std's `String::from_utf8_lossy` gives for a byte sequence.
pub uninterp spec fn utf8_lossy_of(bytes: Seq<u8>) -> Seq<char>;

/// std `String::from_utf8_lossy`: valid UTF-8 decodes exactly; other bytes
/// come out with replacement characters, which is left to the name.
#[verifier::external_body]
pub(crate) fn utf8_lossy(data: &[u8]) -> (r: String)
    ensures
        r@ == utf8_lossy_of(data@),
        valid_utf8(data@) ==> r@ == decode_utf8(data@),
{
    String::from_utf8_lossy(data).into_owned()
}

// ---------------------------------------------------------------------------
// Extensions
// ---------------------------------------------------------------------------

/// The part of `s` after the last `c`, or all of `s` when it holds no `c`
/// (`s.rsplit(c).next()`).
pub open spec fn after_last(s: Seq<char>, c: char) -> Seq<char>
    decreases s.len(),
{
    if s.len() == 0 {
        s
    } else if s.last() == c {
        seq![]
    } else {
        after_last(s.drop_last(), c).push(s.last())
    }
}

/// The extension of a file name as the services compare it: the text after
/// the last dot, lowercased.
pub open spec fn extension_of(filename: Seq<char>) -> Seq<char> {
    lowercase_of(after_last(filename, '.'))
}

/// The part of `s` after its last `c`.
pub fn chars_after_last(s: &[char], c: char) -> (r: Vec<char>)
    ensures
        r@ == after_last(s@, c),
{
    let mut k: usize = s.len();
    assert(s@.take(s.len() as int) == s@);
    while k > 0 && s[k - 1] != c
        invariant
            k <= s.len(),
            after_last(s@, c) == after_last(s@.take(k as int), c) + s@.subrange(
                k as int,
                s.len() as int,
            ),
        decreases k,
    {
        let ghost t = s@.take(k as int);
        assert(t.drop_last() == s@.take(k - 1));
        assert(t.last() == s@[k - 1]);
        assert(after_last(t, c) == after_last(s@.take(k - 1), c).push(s@[k - 1]));
        assert(after_last(s@.take(k - 1), c).push(s@[k - 1]) + s@.subrange(k as int, s.len() as int)
            == after_last(s@.take(k - 1), c) + s@.subrange(k - 1, s.len() as int));
        k -= 1;
    }
    if k > 0 {
        assert(s@.take(k as int).last() == c);
        assert(after_last(s@.take(k as int), c) == Seq::<char>::empty());
    } else {
        assert(s@.take(0) == Seq::<char>::empty());
    }
    assert(after_last(s@, c) == s@.subrange(k as int, s.len() as int));
    slice_chars(s, k, s.len())
}

/// The lowercased extension of `filename`.
pub fn file_extension(filename: &str) -> (r: String)
    ensures
        r@ == extension_of(filename@),
        crate::text::is_ascii_text(after_last(filename@, '.')) ==> r@ == crate::text::ascii_lowered(after_last(filename@, '.')),
{
    let v = chars_of(filename);
    let e = chars_after_last(v.as_slice(), '.');
    let s = string_of(e.as_slice());
    to_lowercase(s.as_str())
}

/// Extensions of the files that may be uploaded.
pub open spec fn is_allowed_extension(e: Seq<char>) -> bool {
    ||| e == "txt"@
    ||| e == "md"@
    ||| e == "csv"@
    ||| e == "json"@
    ||| e == "py"@
    ||| e == "js"@
    ||| e == "ts"@
    ||| e == "tsx"@
    ||| e == "rs"@
    ||| e == "go"@
    ||| e == "java"@
    ||| e == "yaml"@
    ||| e == "yml"@
    ||| e == "xml"@
    ||| e == "html"@
    ||| e == "css"@
    ||| e == "toml"@
    ||| e == "sh"@
    ||| e == "sql"@
    ||| e == "log"@
    ||| e == "env"@
    ||| e == "conf"@
    ||| e == "cfg"@
    ||| e == "ini"@
    ||| e == "pdf"@
}

/// Whether `e` is an accepted extension.
pub fn allowed_extension(e: &str) -> (r: bool)
    ensures
        r == is_allowed_extension(e@),
{
    str_eq(e, "txt") || str_eq(e, "md") || str_eq(e, "csv") || str_eq(e, "json") || str_eq(
        e,
        "py",
    ) || str_eq(e, "js") || str_eq(e, "ts") || str_eq(e, "tsx") || str_eq(e, "rs") || str_eq(
        e,
        "go",
    ) || str_eq(e, "java") || str_eq(e, "yaml") || str_eq(e, "yml") || str_eq(e, "xml")
        || str_eq(e, "html") || str_eq(e, "css") || str_eq(e, "toml") || str_eq(e, "sh")
        || str_eq(e, "sql") || str_eq(e, "log") || str_eq(e, "env") || str_eq(e, "conf")
        || str_eq(e, "cfg") || str_eq(e, "ini") || str_eq(e, "pdf")
}

/// The message of the error for an upload of `size` bytes.
pub open spec fn too_large_message(size: nat) -> Seq<char> {
    "file too large: "@ + decimal(size) + " bytes (max 10485760)"@
}

/// The message of the error for a file with extension `e`.
pub open spec fn bad_type_message(e: Seq<char>) -> Seq<char> {
    "unsupported file type: ."@ + e
}

/// Checks an upload's size and file type: an upload over `MAX_FILE_SIZE`
/// bytes is refused first, then one whose extension is not accepted.
pub fn validate_file(filename: &str, size: usize) -> (r: Result<(), RingError>)
    ensures
        size > MAX_FILE_SIZE ==> (r matches Err(RingError::BadRequest(m)) && m@
            == too_large_message(size as nat)),
        size <= MAX_FILE_SIZE && !is_allowed_extension(extension_of(filename@)) ==> (r matches Err(
            RingError::BadRequest(m),
        ) && m@ == bad_type_message(extension_of(filename@))),
        size <= MAX_FILE_SIZE && is_allowed_extension(extension_of(filename@)) ==> r is Ok,
        size <= MAX_FILE_SIZE ==> (r is Ok <==> ({
            let e = extension_of(filename@);
            e == "txt"@ || e == "md"@ || e == "csv"@ || e == "json"@ || e == "py"@
                || e == "js"@ || e == "ts"@ || e == "tsx"@ || e == "rs"@ || e == "go"@
                || e == "java"@ || e == "yaml"@ || e == "yml"@ || e == "xml"@ || e == "html"@
                || e == "css"@ || e == "toml"@ || e == "sh"@ || e == "sql"@ || e == "log"@
                || e == "env"@ || e == "conf"@ || e == "cfg"@ || e == "ini"@ || e == "pdf"@
        })),
        size <= MAX_FILE_SIZE && crate::text::is_ascii_text(after_last(filename@, '.')) ==> (r is Ok <==> ({
            let e = crate::text::ascii_lowered(after_last(filename@, '.'));
            e == "txt"@ || e == "md"@ || e == "csv"@ || e == "json"@ || e == "py"@
                || e == "js"@ || e == "ts"@ || e == "tsx"@ || e == "rs"@ || e == "go"@
                || e == "java"@ || e == "yaml"@ || e == "yml"@ || e == "xml"@ || e == "html"@
                || e == "css"@ || e == "toml"@ || e == "sh"@ || e == "sql"@ || e == "log"@
                || e == "env"@ || e == "conf"@ || e == "cfg"@ || e == "ini"@ || e == "pdf"@
        })),
{
    proof {
        law_accepted_extensions(extension_of(filename@));
        law_accepted_extensions(crate::text::ascii_lowered(after_last(filename@, '.')));
    }
    if size > MAX_FILE_SIZE {
        let mut m = String::new();
        m.append("file too large: ");
        let d = decimal_string(size as u64);
        m.append(d.as_str());
        m.append(" bytes (max 10485760)");
        return Err(RingError::BadRequest(m));
    }
    let ext = file_extension(filename);
    if !allowed_extension(ext.as_str()) {
        let mut m = String::new();
        m.append("unsupported file type: .");
        m.append(ext.as_str());
        return Err(RingError::BadRequest(m));
    }
    Ok(())
}

// ---------------------------------------------------------------------------
// Text extraction
// ---------------------------------------------------------------------------

/// The outcome of reading an upload's text.
pub enum TextExtraction {
    /// The text of the file.
    Text(String),
    /// The file cannot be used.
    Failed(RingError),
    /// The file is a PDF: run the PDF extractor and settle its result with
    /// `pdf_extraction`.
    ReadPdf,
    /// The PDF extractor could not read the PDF; the caller may try another
    /// extractor and report `error` if that fails too.
    PdfNeedsFallback { error: String },
}

/// The message for a PDF whose text is empty.
pub open spec fn empty_pdf_message() -> Seq<char> {
    "PDF contains no extractable text (possibly scanned image)"@
}

/// Reads the text of an upload. A `.pdf` is left to the PDF extractor
/// (`ReadPdf`), whose result `pdf_extraction` settles; any other file is
/// decoded as UTF-8, with invalid bytes replaced.
pub fn extract_text(filename: &str, data: &[u8]) -> (r: TextExtraction)
    ensures
        extension_of(filename@) != "pdf"@ ==> (r matches TextExtraction::Text(t) && t@
            == utf8_lossy_of(data@)),
        extension_of(filename@) == "pdf"@ ==> r is ReadPdf,
        extension_of(filename@) != "pdf"@ && valid_utf8(data@) ==> (r matches TextExtraction::Text(t)
            && t@ == decode_utf8(data@)),
{
    let ext = file_extension(filename);
    if str_eq(ext.as_str(), "pdf") {
        TextExtraction::ReadPdf
    } else {
        TextExtraction::Text(utf8_lossy(data))
    }
}

/// Settles what the PDF extractor (`pdf_extract::extract_text_from_mem`,
/// run by the caller) gave: its text if that text is not blank, an error if
/// it is, and a request for another extractor if it failed with `error`.
pub fn pdf_extraction(result: Result<String, String>) -> (r: TextExtraction)
    ensures
        match result {
            Ok(t) => if trim(t@).len() == 0 {
                r matches TextExtraction::Failed(RingError::BadRequest(m)) && m@
                    == empty_pdf_message()
            } else {
                r matches TextExtraction::Text(x) && x == t
            },
            Err(e) => r matches TextExtraction::PdfNeedsFallback { error } && error == e,
        },
{
    match result {
        Ok(t) => {
            if is_blank(t.as_str()) {
                TextExtraction::Failed(RingError::BadRequest(owned("PDF contains no extractable text (possibly scanned image)")))
            } else {
                TextExtraction::Text(t)
            }
        },
        Err(e) => TextExtraction::PdfNeedsFallback { error: e },
    }
}

/// The message when no extractor could read a PDF.
pub open spec fn pdf_failure_message(error: Seq<char>) -> Seq<char> {
    "Failed to extract PDF text. Error: "@ + error
        + ". If this is a CJK PDF, try converting it to plain text first."@
}

/// Settles a PDF that `pdf_extract` could not read: the fallback extractor's
/// text when it produced one, else an error that quotes `error`.
pub fn finish_pdf_fallback(error: &str, fallback: Option<String>) -> (r: Result<String, RingError>)
    ensures
        match fallback {
            Some(t) => r == Ok::<String, RingError>(t),
            None => r matches Err(RingError::BadRequest(m)) && m@ == pdf_failure_message(error@),
        },
{
    match fallback {
        Some(t) => Ok(t),
        None => {
            let mut m = String::new();
            m.append("Failed to extract PDF text. Error: ");
            m.append(error);
            m.append(". If this is a CJK PDF, try converting it to plain text first.");
            Err(RingError::BadRequest(m))
        },
    }
}

// ---------------------------------------------------------------------------
// Token estimate
// ---------------------------------------------------------------------------

/// Characters counted as dense (about one and a half tokens each): CJK
/// unified ideographs, hiragana, katakana and Hangul syllables.
pub open spec fn is_dense_char(c: char) -> bool {
    ||| ('\u{4E00}' <= c && c <= '\u{9FFF}')
    ||| ('\u{3040}' <= c && c <= '\u{309F}')
    ||| ('\u{30A0}' <= c && c <= '\u{30FF}')
    ||| ('\u{AC00}' <= c && c <= '\u{D7AF}')
}

/// Number of dense characters in `s`.
pub open spec fn dense_count(s: Seq<char>) -> nat
    decreases s.len(),
{
    if s.len() == 0 {
        0
    } else {
        dense_count(s.drop_last()) + if is_dense_char(s.last()) {
            1nat
        } else {
            0nat
        }
    }
}

pub proof fn lemma_dense_count_le(s: Seq<char>)
    ensures
        dense_count(s) <= s.len(),
    decreases s.len(),
{
    if s.len() > 0 {
        lemma_dense_count_le(s.drop_last());
    }
}

/// The token estimate of a text: a quarter token per ordinary character and
/// one and a half per dense character, each part rounded down.
pub open spec fn token_estimate(s: Seq<char>) -> nat {
    (((s.len() - dense_count(s)) as nat) / 4) + (dense_count(s) * 3) / 2
}

fn dense_char(c: char) -> (r: bool)
    ensures
        r == is_dense_char(c),
{
    ('\u{4E00}' <= c && c <= '\u{9FFF}') || ('\u{3040}' <= c && c <= '\u{309F}') || ('\u{30A0}'
        <= c && c <= '\u{30FF}') || ('\u{AC00}' <= c && c <= '\u{D7AF}')
}

/// Estimates how many tokens a language model spends on `text`.
pub fn estimate_tokens(text: &str) -> (n: usize)
    requires
        text@.len() <= usize::MAX / 2,
    ensures
        n == token_estimate(text@),
{
    let v = chars_of(text);
    let mut dense: usize = 0;
    let mut i: usize = 0;
    while i < v.len()
        invariant
            i <= v.len(),
            v@ == text@,
            dense == dense_count(v@.take(i as int)),
            dense <= i,
        decreases v.len() - i,
    {
        assert(v@.take(i + 1).drop_last() == v@.take(i as int));
        if dense_char(v[i]) {
            dense += 1;
        }
        i += 1;
    }
    assert(v@.take(v.len() as int) == v@);
    let other = v.len() - dense;
    let n = other / 4 + (dense + dense / 2);
    assert((dense * 3) / 2 == dense + dense / 2) by (nonlinear_arith);
    n
}

/// Whether the token estimate of `text` is above the warning threshold.
pub fn exceeds_token_warning(text: &str) -> (r: bool)
    requires
        text@.len() <= usize::MAX / 2,
    ensures
        r == (token_estimate(text@) > TOKEN_WARNING_THRESHOLD),
{
    estimate_tokens(text) > TOKEN_WARNING_THRESHOLD
}

// ---------------------------------------------------------------------------
// Chunking
// ---------------------------------------------------------------------------

/// The paragraph separator.
pub open spec fn para_sep() -> Seq<char> {
    seq!['\n', '\n']
}

/// Greedy packing of paragraphs, left to right: the chunks closed so far and
/// the chunk being filled. A paragraph is appended to the open chunk (with a
/// separator) unless that would take it over `max` characters while it
/// already holds text; then the open chunk is closed and the paragraph starts
/// the next one.
pub open spec fn pack(paras: Seq<Seq<char>>, max: nat) -> (Seq<Seq<char>>, Seq<char>)
    decreases paras.len(),
{
    if paras.len() == 0 {
        (seq![], seq![])
    } else {
        let (done, cur) = pack(paras.drop_last(), max);
        let para = paras.last();
        let combined = if cur.len() == 0 {
            para
        } else {
            cur + para_sep() + para
        };
        if combined.len() > max && cur.len() > 0 {
            (done.push(cur), para)
        } else {
            (done, combined)
        }
    }
}

/// The chunks of `text`: the whole text when it has at most `max`
/// characters, else its paragraphs packed greedily, the last open chunk
/// kept only when it holds text.
pub open spec fn chunks_of(text: Seq<char>, max: nat) -> Seq<Seq<char>> {
    if text.len() <= max {
        seq![text]
    } else {
        let (done, cur) = pack(split_on(text, para_sep()), max);
        if cur.len() > 0 {
            done.push(cur)
        } else {
            done
        }
    }
}

/// Splits `text` into chunks of at most `max_chars` characters, cutting only
/// at blank-line paragraph boundaries.
pub fn split_into_chunks(text: &str, max_chars: usize) -> (r: Vec<String>)
    ensures
        r@.map_values(|c: String| c@) == chunks_of(text@, max_chars as nat),
{
    let v = chars_of(text);
    if v.len() <= max_chars {
        let mut r: Vec<String> = Vec::new();
        r.push(owned(text));
        assert(r@.map_values(|c: String| c@) == seq![text@]);
        return r;
    }
    let sep: [char; 2] = ['\n', '\n'];
    assert(sep@ == para_sep());
    let paras = split_chars(v.as_slice(), sep.as_slice());
    let ghost ps = paras@.map_values(|w: Vec<char>| w@);
    let mut done: Vec<String> = Vec::new();
    let mut cur: Vec<char> = Vec::new();
    let mut i: usize = 0;
    assert(ps.take(0) == Seq::<Seq<char>>::empty());
    while i < paras.len()
        invariant
            i <= paras.len(),
            ps == paras@.map_values(|w: Vec<char>| w@),
            sep@ == para_sep(),
            pack(ps.take(i as int), max_chars as nat) == (done@.map_values(|c: String| c@), cur@),
        decreases paras.len() - i,
    {
        let para = &paras[i];
        assert(ps.take(i + 1).drop_last() == ps.take(i as int));
        assert(ps.take(i + 1).last() == para@);
        let mut combined: Vec<char>;
        if cur.len() == 0 {
            combined = to_vec(para.as_slice());
        } else {
            combined = to_vec(cur.as_slice());
            extend_chars(&mut combined, sep.as_slice());
            extend_chars(&mut combined, para.as_slice());
        }
        if combined.len() > max_chars && cur.len() > 0 {
            let ghost before = done@.map_values(|c: String| c@);
            done.push(string_of(cur.as_slice()));
            assert(done@.map_values(|c: String| c@) == before.push(cur@));
            cur = to_vec(para.as_slice());
        } else {
            cur = combined;
        }
        i += 1;
    }
    assert(ps.take(paras.len() as int) == ps);
    if cur.len() > 0 {
        let ghost before = done@.map_values(|c: String| c@);
        done.push(string_of(cur.as_slice()));
        assert(done@.map_values(|c: String| c@) == before.push(cur@));
    }
    done
}

/// The token estimate of `text` and the number of chunks it is split into.
pub fn chunk_info(text: &str) -> (r: (usize, usize))
    requires
        text@.len() <= usize::MAX / 2,
    ensures
        r.0 == token_estimate(text@),
        r.1 == chunks_of(text@, CHUNK_SIZE as nat).len(),
{
    let tokens = estimate_tokens(text);
    let chunks = split_into_chunks(text, CHUNK_SIZE);
    assert(chunks@.map_values(|c: String| c@).len() == chunks@.len());
    (tokens, chunks.len())
}

proof fn lemma_pack_join(paras: Seq<Seq<char>>, max: nat)
    requires
        paras.len() >= 1,
        forall|i: int| 0 <= i < paras.len() ==> (#[trigger] paras[i]).len() > 0,
    ensures
        pack(paras, max).1.len() > 0,
        join(pack(paras, max).0.push(pack(paras, max).1), para_sep()) == join(paras, para_sep()),
    decreases paras.len(),
{
    let prev = paras.drop_last();
    let para = paras.last();
    assert(para == paras[paras.len() - 1]);
    if prev.len() == 0 {
        assert(pack(prev, max) == (Seq::<Seq<char>>::empty(), Seq::<char>::empty()));
        assert(Seq::<Seq<char>>::empty().push(para) == seq![para]);
        assert(paras == seq![para]);
    } else {
        assert forall|i: int| 0 <= i < prev.len() implies (#[trigger] prev[i]).len() > 0 by {
            assert(prev[i] == paras[i]);
        }
        lemma_pack_join(prev, max);
        let (done, cur) = pack(prev, max);
        let combined = cur + para_sep() + para;
        assert(join(paras, para_sep()) == join(prev, para_sep()) + para_sep() + para);
        if combined.len() > max {
            let d2 = done.push(cur);
            assert(d2.push(para).drop_last() == d2);
            assert(d2.push(para).last() == para);
        } else {
            let d2 = done.push(combined);
            assert(d2.drop_last() == done);
            assert(done.push(cur).drop_last() == done);
            assert(done.push(cur).last() == cur);
            if done.len() == 0 {
                assert(done.push(cur) == seq![cur]);
                assert(d2 == seq![combined]);
            } else {
                assert(join(d2, para_sep()) == join(done, para_sep()) + para_sep() + combined);
                assert(join(done.push(cur), para_sep()) == join(done, para_sep()) + para_sep()
                    + cur);
                assert(join(done, para_sep()) + para_sep() + combined == join(done, para_sep())
                    + para_sep() + cur + para_sep() + para);
            }
        }
    }
}

/// When no paragraph of `text` is empty, joining its chunks with blank lines
/// gives back the text: chunking loses nothing.
pub proof fn law_chunks_rejoin(text: Seq<char>, max: nat)
    requires
        forall|i: int|
            0 <= i < split_on(text, para_sep()).len() ==> (#[trigger] split_on(
                text,
                para_sep(),
            )[i]).len() > 0,
    ensures
        join(chunks_of(text, max), para_sep()) == text,
{
    lemma_join_split_on(text, para_sep());
    if text.len() > max {
        lemma_split_on_nonempty(text, para_sep());
        lemma_pack_join(split_on(text, para_sep()), max);
    }
}

proof fn lemma_pack_bound(paras: Seq<Seq<char>>, max: nat)
    ensures
        forall|i: int|
            0 <= i < pack(paras, max).0.len() ==> (#[trigger] pack(paras, max).0[i]).len() <= max
                || paras.contains(pack(paras, max).0[i]),
        pack(paras, max).1.len() <= max || paras.contains(pack(paras, max).1),
    decreases paras.len(),
{
    if paras.len() > 0 {
        let prev = paras.drop_last();
        let para = paras.last();
        lemma_pack_bound(prev, max);
        let (done, cur) = pack(prev, max);
        assert(paras.contains(para)) by {
            assert(paras[paras.len() - 1] == para);
        }
        assert forall|x: Seq<char>| prev.contains(x) implies paras.contains(x) by {
            let j = choose|j: int| 0 <= j < prev.len() && prev[j] == x;
            assert(paras[j] == x);
        }
        let (d2, c2) = pack(paras, max);
        assert forall|i: int| 0 <= i < d2.len() implies (#[trigger] d2[i]).len() <= max
            || paras.contains(d2[i]) by {
            if i < done.len() {
                assert(d2[i] == done[i]);
            } else {
                assert(d2[i] == cur);
            }
        }
    }
}

/// No chunk is longer than `max` characters unless it is a single paragraph
/// of the text (or the whole text, when that fits).
pub proof fn law_chunk_size(text: Seq<char>, max: nat)
    ensures
        forall|i: int|
            0 <= i < chunks_of(text, max).len() ==> (#[trigger] chunks_of(text, max)[i]).len()
                <= max || split_on(text, para_sep()).contains(chunks_of(text, max)[i]),
{
    if text.len() > max {
        let paras = split_on(text, para_sep());
        lemma_pack_bound(paras, max);
        let (done, cur) = pack(paras, max);
        let cs = chunks_of(text, max);
        assert forall|i: int| 0 <= i < cs.len() implies (#[trigger] cs[i]).len() <= max
            || paras.contains(cs[i]) by {
            if i < done.len() {
                assert(cs[i] == done[i]);
            } else {
                assert(cs[i] == cur);
            }
        }
    }
}

/// The first paragraph of each chunk that packing makes: the closed chunks,
/// then the open one.
pub open spec fn pack_firsts(paras: Seq<Seq<char>>, max: nat) -> Seq<Seq<char>>
    decreases paras.len(),
{
    if paras.len() == 0 {
        seq![]
    } else {
        let prev = paras.drop_last();
        let (done, cur) = pack(prev, max);
        let para = paras.last();
        if prev.len() == 0 {
            seq![para]
        } else if (cur + para_sep() + para).len() > max && cur.len() > 0 {
            pack_firsts(prev, max).push(para)
        } else {
            pack_firsts(prev, max)
        }
    }
}

proof fn lemma_pack_greedy(paras: Seq<Seq<char>>, max: nat)
    requires
        paras.len() >= 1,
        forall|i: int| 0 <= i < paras.len() ==> (#[trigger] paras[i]).len() > 0,
    ensures
        ({
            let all = pack(paras, max).0.push(pack(paras, max).1);
            let f = pack_firsts(paras, max);
            &&& f.len() == all.len()
            &&& forall|j: int|
                0 <= j < f.len() ==> (#[trigger] f[j]).is_prefix_of(all[j]) && paras.contains(f[j])
            &&& forall|i: int|
                0 <= i < all.len() - 1 ==> (#[trigger] all[i] + para_sep() + f[i + 1]).len() > max
        }),
    decreases paras.len(),
{
    let prev = paras.drop_last();
    let para = paras.last();
    assert(para == paras[paras.len() - 1]);
    assert(paras.contains(para));
    if prev.len() == 0 {
        assert(pack(prev, max) == (Seq::<Seq<char>>::empty(), Seq::<char>::empty()));
        let all = pack(paras, max).0.push(pack(paras, max).1);
        assert(all == seq![para]);
        assert(para.is_prefix_of(para));
    } else {
        assert forall|i: int| 0 <= i < prev.len() implies (#[trigger] prev[i]).len() > 0 by {
            assert(prev[i] == paras[i]);
        }
        assert forall|x: Seq<char>| prev.contains(x) implies paras.contains(x) by {
            let j = choose|j: int| 0 <= j < prev.len() && prev[j] == x;
            assert(paras[j] == x);
        }
        lemma_pack_greedy(prev, max);
        lemma_pack_join(prev, max);
        let (done, cur) = pack(prev, max);
        let f0 = pack_firsts(prev, max);
        let all0 = done.push(cur);
        let combined = cur + para_sep() + para;
        let all = pack(paras, max).0.push(pack(paras, max).1);
        let f = pack_firsts(paras, max);
        if combined.len() > max {
            assert(all == all0.push(para));
            assert(f == f0.push(para));
            assert forall|j: int| 0 <= j < f.len() implies (#[trigger] f[j]).is_prefix_of(all[j])
                && paras.contains(f[j]) by {
                if j < f0.len() {
                    assert(f[j] == f0[j]);
                    assert(all[j] == all0[j]);
                } else {
                    assert(para.is_prefix_of(para));
                }
            }
            assert forall|i: int| 0 <= i < all.len() - 1 implies (#[trigger] all[i] + para_sep() + f[
                i + 1
            ]).len() > max by {
                if i < all0.len() - 1 {
                    assert(all[i] == all0[i]);
                    assert(f[i + 1] == f0[i + 1]);
                } else {
                    assert(all[i] == cur);
                    assert(f[i + 1] == para);
                }
            }
        } else {
            assert(all == done.push(combined));
            assert(f == f0);
            assert forall|j: int| 0 <= j < f.len() implies (#[trigger] f[j]).is_prefix_of(all[j])
                && paras.contains(f[j]) by {
                if j < done.len() {
                    assert(all[j] == all0[j]);
                } else {
                    assert(all0[j] == cur);
                    assert(all[j] == combined);
                    assert(f0[j].is_prefix_of(cur));
                    assert forall|k: int| 0 <= k < f0[j].len() implies f0[j][k] == combined[k] by {
                        assert(cur[k] == combined[k]);
                    }
                }
            }
            assert forall|i: int| 0 <= i < all.len() - 1 implies (#[trigger] all[i] + para_sep() + f[
                i + 1
            ]).len() > max by {
                assert(all[i] == all0[i]);
            }
        }
    }
}

/// Whether `s` ends with a newline.
pub open spec fn ends_in_newline(s: Seq<char>) -> bool {
    s.len() > 0 && s.last() == '\n'
}

proof fn lemma_no_occurrence(s: Seq<char>)
    requires
        !crate::text::contains(s, para_sep()),
    ensures
        split_on(s, para_sep()) == seq![s],
{
    crate::text::lemma_first_from(s, para_sep(), 0);
    if crate::text::first_from(s, para_sep(), 0) >= 0 {
        assert(crate::text::occurs_at(s, para_sep(), crate::text::first_from(s, para_sep(), 0)));
    }
}

/// The paragraphs of a text hold no blank line, and each but the last does
/// not end with a newline.
proof fn lemma_paragraph_shape(s: Seq<char>)
    ensures
        forall|m: int|
            0 <= m < split_on(s, para_sep()).len() ==> !crate::text::contains(
                #[trigger] split_on(s, para_sep())[m],
                para_sep(),
            ),
        forall|m: int|
            0 <= m < split_on(s, para_sep()).len() - 1 ==> !ends_in_newline(
                #[trigger] split_on(s, para_sep())[m],
            ),
    decreases s.len(),
{
    let sep = para_sep();
    crate::text::lemma_first_from(s, sep, 0);
    let k = crate::text::first_from(s, sep, 0);
    let ps = split_on(s, sep);
    if k >= 0 {
        let rest = s.skip(k + 2);
        lemma_paragraph_shape(rest);
        let head = s.take(k);
        assert(ps == seq![head] + split_on(rest, sep));
        assert(!crate::text::contains(head, sep)) by {
            if crate::text::contains(head, sep) {
                let j = choose|j: int| crate::text::occurs_at(head, sep, j);
                assert(s.subrange(j, j + 2) =~= head.subrange(j, j + 2));
                assert(crate::text::occurs_at(s, sep, j));
            }
        }
        assert(!ends_in_newline(head)) by {
            if ends_in_newline(head) {
                assert(s.subrange(k - 1, k + 1) =~= sep);
                assert(crate::text::occurs_at(s, sep, k - 1));
            }
        }
        assert forall|m: int| 0 <= m < ps.len() implies !crate::text::contains(#[trigger] ps[m], sep) by {
            if m > 0 {
                assert(ps[m] == split_on(rest, sep)[m - 1]);
            }
        }
        assert forall|m: int| 0 <= m < ps.len() - 1 implies !ends_in_newline(#[trigger] ps[m]) by {
            if m > 0 {
                assert(ps[m] == split_on(rest, sep)[m - 1]);
            }
        }
    } else {
        assert(ps == seq![s]);
        assert(!crate::text::contains(s, sep)) by {
            if crate::text::contains(s, sep) {
                let j = choose|j: int| crate::text::occurs_at(s, sep, j);
                assert(crate::text::occurs_at(s, sep, j));
            }
        }
    }
}

/// The first paragraph of a chunk that opens with paragraph `p`.
proof fn lemma_first_paragraph(p: Seq<char>, c: Seq<char>)
    requires
        !crate::text::contains(p, para_sep()),
        c == p || ((p + para_sep()).is_prefix_of(c) && !ends_in_newline(p)),
    ensures
        split_on(c, para_sep())[0] == p,
{
    let sep = para_sep();
    if c == p {
        lemma_no_occurrence(p);
    } else {
        let n = p.len() as int;
        assert(c.subrange(n, n + 2) =~= sep) by {
            assert forall|i: int| 0 <= i < 2 implies c.subrange(n, n + 2)[i] == sep[i] by {
                assert(c[n + i] == (p + sep)[n + i]);
            }
        }
        assert(crate::text::occurs_at(c, sep, n));
        crate::text::lemma_first_from(c, sep, 0);
        let k = crate::text::first_from(c, sep, 0);
        assert(k >= 0);
        if k < n {
            assert(crate::text::occurs_at(c, sep, k));
            if k + 2 <= n {
                assert(p.subrange(k, k + 2) =~= c.subrange(k, k + 2)) by {
                    assert forall|i: int| 0 <= i < 2 implies #[trigger] p.subrange(k, k + 2)[i] == c.subrange(k, k + 2)[i] by {
                        assert(c[k + i] == (p + sep)[k + i]);
                    }
                }
                assert(crate::text::occurs_at(p, sep, k));
            } else {
                assert(c[k] == (p + sep)[k]);
                assert(c[k] == '\n');
                assert(p.last() == '\n');
            }
        }
        assert(k == n);
        assert(c.take(n) =~= p) by {
            assert forall|i: int| 0 <= i < n implies c.take(n)[i] == p[i] by {
                assert(c[i] == (p + sep)[i]);
            }
        }
    }
}

proof fn lemma_pack_shape(paras: Seq<Seq<char>>, max: nat)
    requires
        paras.len() >= 1,
        forall|i: int| 0 <= i < paras.len() ==> (#[trigger] paras[i]).len() > 0,
        forall|i: int| 0 <= i < paras.len() - 1 ==> !ends_in_newline(#[trigger] paras[i]),
    ensures
        ({
            let all = pack(paras, max).0.push(pack(paras, max).1);
            let f = pack_firsts(paras, max);
            forall|j: int|
                0 <= j < f.len() ==> all[j] == #[trigger] f[j] || ((f[j] + para_sep()).is_prefix_of(all[j])
                    && !ends_in_newline(f[j]))
        }),
    decreases paras.len(),
{
    lemma_pack_greedy(paras, max);
    let prev = paras.drop_last();
    let para = paras.last();
    if prev.len() == 0 {
        assert(pack(prev, max) == (Seq::<Seq<char>>::empty(), Seq::<char>::empty()));
    } else {
        assert forall|i: int| 0 <= i < prev.len() implies (#[trigger] prev[i]).len() > 0 by {
            assert(prev[i] == paras[i]);
        }
        assert forall|i: int| 0 <= i < prev.len() - 1 implies !ends_in_newline(#[trigger] prev[i]) by {
            assert(prev[i] == paras[i]);
        }
        lemma_pack_shape(prev, max);
        lemma_pack_greedy(prev, max);
        lemma_pack_join(prev, max);
        let (done, cur) = pack(prev, max);
        let f0 = pack_firsts(prev, max);
        let all0 = done.push(cur);
        let combined = cur + para_sep() + para;
        let all = pack(paras, max).0.push(pack(paras, max).1);
        let f = pack_firsts(paras, max);
        if combined.len() > max {
            assert(all == all0.push(para));
            assert(f == f0.push(para));
            assert forall|j: int| 0 <= j < f.len() implies all[j] == #[trigger] f[j] || ((f[j] + para_sep()).is_prefix_of(
                all[j],
            ) && !ends_in_newline(f[j])) by {
                if j < f0.len() {
                    assert(f[j] == f0[j]);
                    assert(all[j] == all0[j]);
                }
            }
        } else {
            assert(all == done.push(combined));
            assert(f == f0);
            let last = f0.len() - 1;
            assert forall|j: int| 0 <= j < f.len() implies all[j] == #[trigger] f[j] || ((f[j] + para_sep()).is_prefix_of(
                all[j],
            ) && !ends_in_newline(f[j])) by {
                if j < done.len() {
                    assert(all[j] == all0[j]);
                } else {
                    assert(j == last);
                    assert(all0[j] == cur);
                    assert(all[j] == combined);
                    if cur == f0[j] {
                        assert(prev.contains(f0[j]));
                        let m = choose|m: int| 0 <= m < prev.len() && prev[m] == f0[j];
                        assert(paras[m] == prev[m]);
                        assert(!ends_in_newline(paras[m]));
                        assert((f0[j] + para_sep()).is_prefix_of(combined)) by {
                            assert forall|i: int| 0 <= i < (f0[j] + para_sep()).len() implies (f0[j] + para_sep())[i]
                                == combined[i] by {}
                        }
                    } else {
                        assert((f0[j] + para_sep()).is_prefix_of(cur));
                        assert((f0[j] + para_sep()).is_prefix_of(combined)) by {
                            assert forall|i: int| 0 <= i < (f0[j] + para_sep()).len() implies (f0[j] + para_sep())[i]
                                == combined[i] by {
                                assert(cur[i] == combined[i]);
                            }
                        }
                    }
                }
            }
        }
    }
}

/// In the words of `str::split`: each chunk after the first begins with a
/// paragraph (up to its first blank line) that would have taken the chunk
/// before it over `max` characters; and a chunk over `max` characters holds
/// no blank line.
pub proof fn law_chunks_in_split_terms(text: Seq<char>, max: nat)
    requires
        forall|i: int|
            0 <= i < split_on(text, para_sep()).len() ==> (#[trigger] split_on(
                text,
                para_sep(),
            )[i]).len() > 0,
    ensures
        forall|i: int|
            0 <= i < chunks_of(text, max).len() - 1 ==> (#[trigger] chunks_of(text, max)[i] + para_sep()
                + split_on(chunks_of(text, max)[i + 1], para_sep())[0]).len() > max,
        forall|i: int|
            0 <= i < chunks_of(text, max).len() ==> (#[trigger] chunks_of(text, max)[i]).len() <= max
                || !crate::text::contains(chunks_of(text, max)[i], para_sep()),
{
    let paras = split_on(text, para_sep());
    let cs = chunks_of(text, max);
    lemma_paragraph_shape(text);
    law_chunk_size(text, max);
    if text.len() > max {
        lemma_split_on_nonempty(text, para_sep());
        lemma_pack_greedy(paras, max);
        lemma_pack_shape(paras, max);
        lemma_pack_join(paras, max);
        let f = pack_firsts(paras, max);
        assert(cs == pack(paras, max).0.push(pack(paras, max).1));
        assert forall|i: int| 0 <= i < cs.len() - 1 implies (#[trigger] cs[i] + para_sep() + split_on(
            cs[i + 1],
            para_sep(),
        )[0]).len() > max by {
            assert(f[i + 1].is_prefix_of(cs[i + 1]) && paras.contains(f[i + 1]));
            let m = choose|m: int| 0 <= m < paras.len() && paras[m] == f[i + 1];
            assert(!crate::text::contains(paras[m], para_sep()));
            lemma_first_paragraph(f[i + 1], cs[i + 1]);
        }
        assert forall|i: int| 0 <= i < cs.len() implies (#[trigger] cs[i]).len() <= max
            || !crate::text::contains(cs[i], para_sep()) by {
            if cs[i].len() > max {
                assert(paras.contains(cs[i]));
                let m = choose|m: int| 0 <= m < paras.len() && paras[m] == cs[i];
                assert(!crate::text::contains(paras[m], para_sep()));
            }
        }
    } else {
        assert(cs == seq![text]);
    }
}

/// The accepted extensions are exactly txt, md, csv, json, py, js, ts, tsx,
/// rs, go, java, yaml, yml, xml, html, css, toml, sh, sql, log, env, conf,
/// cfg, ini and pdf.
pub proof fn law_accepted_extensions(e: Seq<char>)
    ensures
        is_allowed_extension(e) <==> (
            e == "txt"@ || e == "md"@ || e == "csv"@ || e == "json"@ || e == "py"@
            || e == "js"@ || e == "ts"@ || e == "tsx"@ || e == "rs"@ || e == "go"@
            || e == "java"@ || e == "yaml"@ || e == "yml"@ || e == "xml"@ || e == "html"@
            || e == "css"@ || e == "toml"@ || e == "sh"@ || e == "sql"@ || e == "log"@
            || e == "env"@ || e == "conf"@ || e == "cfg"@ || e == "ini"@ || e == "pdf"@
        ),
{
}

/// An upload within the size limit is accepted exactly when its lowercased
/// extension is one of the accepted ones, and refused otherwise.
pub proof fn law_upload_accepted_by_extension(filename: Seq<char>)
    ensures
        is_allowed_extension(extension_of(filename)) <==> ({
            let e = extension_of(filename);
            e == "txt"@ || e == "md"@ || e == "csv"@ || e == "json"@ || e == "py"@
            || e == "js"@ || e == "ts"@ || e == "tsx"@ || e == "rs"@ || e == "go"@
            || e == "java"@ || e == "yaml"@ || e == "yml"@ || e == "xml"@ || e == "html"@
            || e == "css"@ || e == "toml"@ || e == "sh"@ || e == "sql"@ || e == "log"@
            || e == "env"@ || e == "conf"@ || e == "cfg"@ || e == "ini"@ || e == "pdf"@
        }),
{
    law_accepted_extensions(extension_of(filename));
}

} // verus!
