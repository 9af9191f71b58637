//! The group ring's tools: which URLs may be fetched, how a fetched page is
//! reduced to its text, and how a graph-mutation request is checked before it
//! touches the graph.
use vstd::prelude::*;
use vstd::string::*;

use crate::error::RingError;
use crate::text::{
    chars_of, contains, join, join_chars, find_first, first_from, lemma_first_from, lowercase_of, occurs_at, owned,
    replace_chars, replace_str, slice_chars, str_contains, str_starts_with, string_of,
    take_chars, to_lowercase, trim, trim_chars,
};
use crate::chat::{contains_any, mentions_any};
use crate::privacy_filter::{regex_replace_all, regex_replace_all_of};
use crate::search::first_n;

verus! {

/// Arguments of the `file_parse` tool.
pub struct FileParseArgs {
    pub file_reference: String,
    pub focus: Option<String>,
}

/// Arguments of the `knowledge_extract` tool.
pub struct KnowledgeExtractArgs {
    pub content: String,
    pub target_graph: Option<String>,
}

/// Arguments of the `fetch_url` tool.
pub struct FetchUrlArgs {
    pub url: String,
    pub focus: Option<String>,
}

/// Arguments of the graph-mutation tool.
pub struct GraphMutationArgs {
    pub action: String,
    pub node_id: Option<String>,
    pub label: Option<String>,
    pub node_type: Option<String>,
    pub parent_id: Option<String>,
    pub content: Option<String>,
    pub tags: Option<Vec<String>>,
    pub source_id: Option<String>,
    pub target_id: Option<String>,
    pub relation: Option<String>,
    pub edge_id: Option<String>,
}

// ---------------------------------------------------------------------------
// URLs
// ---------------------------------------------------------------------------

/// Host names and address prefixes of the machine itself and of private
/// networks.
pub open spec fn blocked_hosts() -> Seq<Seq<char>> {
    seq![
        "localhost"@,
        "127.0.0.1"@,
        "0.0.0.0"@,
        "::1"@,
        "[::1]"@,
        "10."@,
        "172.16."@,
        "172.17."@,
        "172.18."@,
        "172.19."@,
        "172.20."@,
        "172.21."@,
        "172.22."@,
        "172.23."@,
        "172.24."@,
        "172.25."@,
        "172.26."@,
        "172.27."@,
        "172.28."@,
        "172.29."@,
        "172.30."@,
        "172.31."@,
        "192.168."@,
    ]
}

/// Whether a URL may be fetched: its lowercase form mentions none of the
/// blocked hosts or prefixes.
pub fn is_url_allowed(url: &str) -> (r: bool)
    ensures
        r == !mentions_any(lowercase_of(url@), blocked_hosts()),
        crate::text::is_ascii_text(url@) ==> r == !mentions_any(crate::text::ascii_lowered(url@), blocked_hosts()),
{
    let lower = to_lowercase(url);
    let blocked: [&str; 23] = [
        "localhost",
        "127.0.0.1",
        "0.0.0.0",
        "::1",
        "[::1]",
        "10.",
        "172.16.",
        "172.17.",
        "172.18.",
        "172.19.",
        "172.20.",
        "172.21.",
        "172.22.",
        "172.23.",
        "172.24.",
        "172.25.",
        "172.26.",
        "172.27.",
        "172.28.",
        "172.29.",
        "172.30.",
        "172.31.",
        "192.168.",
    ];
    assert(blocked@.map_values(|k: &str| k@) =~= blocked_hosts());
    !contains_any(lower.as_str(), blocked.as_slice())
}

/// Checks a URL before it is fetched: it must be `http://` or `https://`,
/// and it must not point at the machine itself or a private network.
pub fn check_fetch_url(url: &str) -> (r: Result<(), RingError>)
    ensures
        !("http://"@.is_prefix_of(url@) || "https://"@.is_prefix_of(url@)) ==> (r matches Err(
            RingError::BadRequest(m),
        ) && m@ == "URL must start with http:// or https://"@),
        ("http://"@.is_prefix_of(url@) || "https://"@.is_prefix_of(url@)) ==> (if mentions_any(
            lowercase_of(url@),
            blocked_hosts(),
        ) {
            r matches Err(RingError::BadRequest(m)) && m@
                == "Access to internal addresses is not allowed"@
        } else {
            r is Ok
        }),
{
    if !str_starts_with(url, "http://") && !str_starts_with(url, "https://") {
        return Err(RingError::BadRequest(owned("URL must start with http:// or https://")));
    }
    if !is_url_allowed(url) {
        return Err(RingError::BadRequest(owned("Access to internal addresses is not allowed")));
    }
    Ok(())
}

/// Largest accepted response body, in bytes (512 KiB).
pub const MAX_FETCH_BYTES: usize = 524288;

/// Checks the size of a fetched body.
pub fn check_body_size(len: usize) -> (r: Result<(), RingError>)
    ensures
        len > MAX_FETCH_BYTES ==> (r matches Err(RingError::BadRequest(m)) && m@
            == "Response too large (max 512KB)"@),
        len <= MAX_FETCH_BYTES ==> r is Ok,
{
    if len > MAX_FETCH_BYTES {
        Err(RingError::BadRequest(owned("Response too large (max 512KB)")))
    } else {
        Ok(())
    }
}

// ---------------------------------------------------------------------------
// HTML
// ---------------------------------------------------------------------------

/// The page title: the text between the first `<title>` and the first
/// `</title>` (found case-insensitively, at character positions of the
/// lowercased page), trimmed; none when either is missing, when the close
/// does not come after the open, or when the title is blank.
pub open spec fn html_title(html: Seq<char>) -> Option<Seq<char>> {
    let l = lowercase_of(html);
    let s = first_from(l, "<title>"@, 0);
    let e = first_from(l, "</title>"@, 0);
    if s < 0 || e < 0 || e <= s + 7 || e > html.len() {
        None
    } else if trim(html.subrange(s + 7, e)).len() == 0 {
        None
    } else {
        Some(trim(html.subrange(s + 7, e)))
    }
}

/// The title of a page (see `html_title`).
pub fn extract_html_title(html: &str) -> (r: Option<String>)
    ensures
        match r {
            Some(t) => html_title(html@) == Some(t@),
            None => html_title(html@) is None,
        },
{
    let h = chars_of(html);
    let lower = to_lowercase(html);
    let l = chars_of(lower.as_str());
    let open = chars_of("<title>");
    let close = chars_of("</title>");
    proof {
        reveal_strlit("<title>");
        reveal_strlit("</title>");
    }
    let s = match find_first(l.as_slice(), open.as_slice()) {
        Some(s) => s,
        None => return None,
    };
    let e = match find_first(l.as_slice(), close.as_slice()) {
        Some(e) => e,
        None => return None,
    };
    if e <= s + 7 || e > h.len() {
        return None;
    }
    let inner = slice_chars(h.as_slice(), s + 7, e);
    let t = trim_chars(inner.as_slice());
    if t.len() == 0 {
        None
    } else {
        Some(string_of(t.as_slice()))
    }
}

/// The content of the first `<tag ...>...</tag>` element of a page, found
/// case-insensitively: from just after the `>` that ends the opening tag to
/// the next closing tag; none when any of the three is missing.
pub open spec fn element_content(html: Seq<char>, open: Seq<char>, close: Seq<char>) -> Option<Seq<char>> {
    let l = lowercase_of(html);
    let s = first_from(l, open, 0);
    if s < 0 {
        None
    } else {
        let gt = first_from(l.skip(s), seq!['>'], 0);
        if gt < 0 {
            None
        } else {
            let tag_end = s + gt + 1;
            let e = first_from(l.skip(tag_end), close, 0);
            if e < 0 || tag_end + e > html.len() {
                None
            } else {
                Some(html.subrange(tag_end, tag_end + e))
            }
        }
    }
}

/// The main content of a page: the inside of its first `<article>`, or,
/// failing that, of its first `<main>`; empty when it has neither.
pub open spec fn main_content(html: Seq<char>) -> Seq<char> {
    match element_content(html, "<article"@, "</article>"@) {
        Some(c) => c,
        None => match element_content(html, "<main"@, "</main>"@) {
            Some(c) => c,
            None => seq![],
        },
    }
}

fn element_of(h: &[char], l: &[char], open: &[char], close: &[char]) -> (r: Option<Vec<char>>)
    requires
        l@ == lowercase_of(h@),
        open.len() > 0,
        close.len() > 0,
    ensures
        match r {
            Some(c) => element_content(h@, open@, close@) == Some(c@),
            None => element_content(h@, open@, close@) is None,
        },
{
    let s = match find_first(l, open) {
        Some(s) => s,
        None => return None,
    };
    let rest = slice_chars(l, s, l.len());
    assert(rest@ == l@.skip(s as int));
    let gt_pat: [char; 1] = ['>'];
    assert(gt_pat@ == seq!['>']);
    let gt = match find_first(rest.as_slice(), gt_pat.as_slice()) {
        Some(g) => g,
        None => return None,
    };
    let tag_end = s + gt + 1;
    let after = slice_chars(l, tag_end, l.len());
    assert(after@ == l@.skip(tag_end as int));
    let e = match find_first(after.as_slice(), close) {
        Some(e) => e,
        None => return None,
    };
    if e > h.len() || tag_end > h.len() - e {
        return None;
    }
    Some(slice_chars(h, tag_end, tag_end + e))
}

/// The main content of a page (see `main_content`).
pub fn extract_main_content(html: &str) -> (r: String)
    ensures
        r@ == main_content(html@),
{
    let h = chars_of(html);
    let lower = to_lowercase(html);
    let l = chars_of(lower.as_str());
    let a_open = chars_of("<article");
    let a_close = chars_of("</article>");
    let m_open = chars_of("<main");
    let m_close = chars_of("</main>");
    proof {
        reveal_strlit("<article");
        reveal_strlit("</article>");
        reveal_strlit("<main");
        reveal_strlit("</main>");
    }
    match element_of(h.as_slice(), l.as_slice(), a_open.as_slice(), a_close.as_slice()) {
        Some(c) => string_of(c.as_slice()),
        None => match element_of(h.as_slice(), l.as_slice(), m_open.as_slice(), m_close.as_slice()) {
            Some(c) => string_of(c.as_slice()),
            None => String::new(),
        },
    }
}

/// `s` with every element that opens with `open` (found case-insensitively)
/// cut out up to and including the next `close`; an opening without a
/// closing stops the cutting.
pub open spec fn cut_blocks(s: Seq<char>, open: Seq<char>, close: Seq<char>) -> Seq<char>
    decreases s.len(),
{
    let l = lowercase_of(s);
    let i = first_from(l, open, 0);
    if i < 0 || close.len() == 0 || open.len() == 0 {
        s
    } else {
        let k = first_from(l.skip(i), close, 0);
        if k < 0 || i + k + close.len() > s.len() {
            s
        } else {
            cut_blocks(s.take(i) + s.skip(i + k + close.len()), open, close)
        }
    }
}

fn cut_blocks_chars(s: Vec<char>, open: &[char], close: &[char]) -> (r: Vec<char>)
    requires
        open.len() > 0,
        close.len() > 0,
    ensures
        r@ == cut_blocks(s@, open@, close@),
{
    let mut cur = s;
    loop
        invariant
            open.len() > 0,
            close.len() > 0,
            cut_blocks(s@, open@, close@) == cut_blocks(cur@, open@, close@),
        decreases cur.len(),
    {
        let cs = string_of(cur.as_slice());
        let lower = to_lowercase(cs.as_str());
        let l = chars_of(lower.as_str());
        let i = match find_first(l.as_slice(), open) {
            Some(i) => i,
            None => return cur,
        };
        let rest = slice_chars(l.as_slice(), i, l.len());
        assert(rest@ == l@.skip(i as int));
        let k = match find_first(rest.as_slice(), close) {
            Some(k) => k,
            None => return cur,
        };
        if k > cur.len() || close.len() > cur.len() - k || i > cur.len() - k - close.len() {
            return cur;
        }
        let e = i + k + close.len();
        let mut next = take_chars(cur.as_slice(), i);
        let tail = slice_chars(cur.as_slice(), e, cur.len());
        crate::text::extend_chars(&mut next, tail.as_slice());
        assert(next@ == cur@.take(i as int) + cur@.skip(e as int));
        cur = next;
    }
}

/// The characters of `s` outside of tags, each tag replaced by a space:
/// a `<` starts a tag, a `>` ends it and counts as a space.
pub open spec fn detag(s: Seq<char>) -> (Seq<char>, bool)
    decreases s.len(),
{
    if s.len() == 0 {
        (seq![], false)
    } else {
        let (out, in_tag) = detag(s.drop_last());
        let c = s.last();
        if c == '<' {
            (out, true)
        } else if c == '>' {
            (out.push(' '), false)
        } else if !in_tag {
            (out.push(c), in_tag)
        } else {
            (out, in_tag)
        }
    }
}

/// The entity-decoded form of a page, as the page text is read: `&amp;`,
/// `&lt;`, `&gt;`, `&nbsp;`, `&quot;` and `&#39;` replaced in that order.
pub open spec fn decode_entities(s: Seq<char>) -> Seq<char> {
    replace_str(
        replace_str(
            replace_str(
                replace_str(replace_str(replace_str(s, "&amp;"@, "&"@), "&lt;"@, "<"@), "&gt;"@, ">"@),
                "&nbsp;"@,
                " "@,
            ),
            "&quot;"@,
            "\""@,
        ),
        "&#39;"@,
        "'"@,
    )
}

/// The readable text of a page: `script`, `style`, `head`, `nav`, `footer`
/// and `noscript` elements cut out (in that order), entities decoded, tags
/// replaced by spaces, whitespace runs collapsed with the regex `\s+`, ends
/// trimmed.
pub open spec fn page_text(html: Seq<char>) -> Seq<char> {
    let a = cut_blocks(html, "<script"@, "</script>"@);
    let b = cut_blocks(a, "<style"@, "</style>"@);
    let c = cut_blocks(b, "<head"@, "</head>"@);
    let d = cut_blocks(c, "<nav"@, "</nav>"@);
    let e = cut_blocks(d, "<footer"@, "</footer>"@);
    let f = cut_blocks(e, "<noscript"@, "</noscript>"@);
    trim(regex_replace_all_of(r"\s+"@, detag(decode_entities(f)).0, " "@))
}

fn replace_lit(s: Vec<char>, pat: &str, rep: &str) -> (r: Vec<char>)
    requires
        pat@.len() > 0,
    ensures
        r@ == replace_str(s@, pat@, rep@),
{
    let p = chars_of(pat);
    let q = chars_of(rep);
    replace_chars(s.as_slice(), p.as_slice(), q.as_slice())
}

fn cut_lit(s: Vec<char>, open: &str, close: &str) -> (r: Vec<char>)
    requires
        open@.len() > 0,
        close@.len() > 0,
    ensures
        r@ == cut_blocks(s@, open@, close@),
{
    let o = chars_of(open);
    let c = chars_of(close);
    cut_blocks_chars(s, o.as_slice(), c.as_slice())
}

/// Reduces a page to its readable text (see `page_text`).
pub fn strip_html(html: &str) -> (r: String)
    ensures
        r@ == page_text(html@),
{
    proof {
        reveal_strlit("<script");
        reveal_strlit("</script>");
        reveal_strlit("<style");
        reveal_strlit("</style>");
        reveal_strlit("<head");
        reveal_strlit("</head>");
        reveal_strlit("<nav");
        reveal_strlit("</nav>");
        reveal_strlit("<footer");
        reveal_strlit("</footer>");
        reveal_strlit("<noscript");
        reveal_strlit("</noscript>");
        reveal_strlit("&amp;");
        reveal_strlit("&lt;");
        reveal_strlit("&gt;");
        reveal_strlit("&nbsp;");
        reveal_strlit("&quot;");
        reveal_strlit("&#39;");
    }
    let v = chars_of(html);
    let v = cut_lit(v, "<script", "</script>");
    let v = cut_lit(v, "<style", "</style>");
    let v = cut_lit(v, "<head", "</head>");
    let v = cut_lit(v, "<nav", "</nav>");
    let v = cut_lit(v, "<footer", "</footer>");
    let v = cut_lit(v, "<noscript", "</noscript>");
    let v = replace_lit(v, "&amp;", "&");
    let v = replace_lit(v, "&lt;", "<");
    let v = replace_lit(v, "&gt;", ">");
    let v = replace_lit(v, "&nbsp;", " ");
    let v = replace_lit(v, "&quot;", "\"");
    let v = replace_lit(v, "&#39;", "'");
    let mut clean: Vec<char> = Vec::new();
    let mut in_tag = false;
    let mut i: usize = 0;
    while i < v.len()
        invariant
            i <= v.len(),
            detag(v@.take(i as int)) == (clean@, in_tag),
        decreases v.len() - i,
    {
        assert(v@.take(i + 1).drop_last() == v@.take(i as int));
        let c = v[i];
        if c == '<' {
            in_tag = true;
        } else if c == '>' {
            in_tag = false;
            clean.push(' ');
        } else if !in_tag {
            clean.push(c);
        }
        i += 1;
    }
    assert(v@.take(v.len() as int) == v@);
    let cs = string_of(clean.as_slice());
    let squashed = regex_replace_all(r"\s+", cs.as_str(), " ");
    crate::text::str_trim(squashed.as_str())
}

/// The text of a fetched page: for HTML, the main content's text under a
/// `Title:` line when the page has main content, else the whole page's text,
/// under a `Title:` line when it has a title; other bodies as they are.
pub open spec fn fetched_text(is_html: bool, body: Seq<char>) -> Seq<char> {
    if is_html {
        let main = main_content(body);
        if main.len() > 0 {
            "Title: "@ + (match html_title(body) {
                Some(t) => t,
                None => seq![],
            }) + "\n\n"@ + page_text(main)
        } else {
            match html_title(body) {
                Some(t) => "Title: "@ + t + "\n\n"@ + page_text(body),
                None => page_text(body),
            }
        }
    } else {
        body
    }
}

/// The tool's answer for a fetched page: its source, the focus when one was
/// asked for, and at most 15000 characters of its text.
pub open spec fn fetch_report(url: Seq<char>, focus: Option<Seq<char>>, text: Seq<char>) -> Seq<char> {
    match focus {
        Some(f) => "## Source: "@ + url + "\n## Focus: "@ + f + "\n\n"@ + first_n(text, 15000),
        None => "## Source: "@ + url + "\n\n"@ + first_n(text, 15000),
    }
}

/// The answer of the `fetch_url` tool for a body (already decoded as text)
/// fetched from `args.url`.
pub fn fetch_url_report(args: &FetchUrlArgs, is_html: bool, body: &str) -> (r: String)
    ensures
        r@ == fetch_report(
            args.url@,
            match args.focus {
                Some(f) => Some(f@),
                None => None,
            },
            fetched_text(is_html, body@),
        ),
{
    let text = if is_html {
        let title = extract_html_title(body);
        let main = extract_main_content(body);
        let mv = chars_of(main.as_str());
        if mv.len() > 0 {
            let mut t = owned("Title: ");
            match &title {
                Some(x) => t.append(x.as_str()),
                None => {},
            }
            t.append("\n\n");
            let st = strip_html(main.as_str());
            t.append(st.as_str());
            t
        } else {
            let st = strip_html(body);
            match title {
                Some(x) => {
                    let mut t = owned("Title: ");
                    t.append(x.as_str());
                    t.append("\n\n");
                    t.append(st.as_str());
                    t
                },
                None => st,
            }
        }
    } else {
        owned(body)
    };
    let tv = chars_of(text.as_str());
    let tr = take_chars(tv.as_slice(), 15000);
    let mut r = owned("## Source: ");
    r.append(args.url.as_str());
    match &args.focus {
        Some(f) => {
            r.append("\n## Focus: ");
            r.append(f.as_str());
        },
        None => {},
    }
    r.append("\n\n");
    crate::text::push_chars(&mut r, tr.as_slice());
    r
}

/// At most the first 30000 characters of a text handed to a model.
pub fn truncate_for_model(text: &str) -> (r: String)
    ensures
        r@ == first_n(text@, 30000),
{
    let v = chars_of(text);
    let t = take_chars(v.as_slice(), 30000);
    string_of(t.as_slice())
}

/// The error when the message a file reference names does not exist.
pub fn file_message_missing(file_reference: &str) -> (r: RingError)
    ensures
        r matches RingError::NotFound(m) && m@ == "message "@ + file_reference@ + " not found"@,
{
    let mut m = owned("message ");
    m.append(file_reference);
    m.append(" not found");
    RingError::NotFound(m)
}

/// The labels of a ring's graph as the extraction prompt lists them:
/// separated by `, `, or `None` when there are none.
pub fn existing_labels(labels: &Vec<String>) -> (r: Option<String>)
    ensures
        labels@.len() == 0 ==> r is None,
        labels@.len() > 0 ==> (r matches Some(s) && s@ == join(
            labels@.map_values(|l: String| l@),
            ", "@,
        )),
{
    if labels.len() == 0 {
        return None;
    }
    let mut parts: Vec<Vec<char>> = Vec::new();
    let mut i: usize = 0;
    while i < labels.len()
        invariant
            i <= labels@.len(),
            parts@.map_values(|w: Vec<char>| w@) == labels@.take(i as int).map_values(|l: String| l@),
        decreases labels@.len() - i,
    {
        let ghost before = parts@;
        parts.push(chars_of(labels[i].as_str()));
        proof {
            let f = |w: Vec<char>| w@;
            let g = |l: String| l@;
            assert(parts@.map_values(f) =~= before.map_values(f).push(labels@[i as int]@));
            assert(labels@.take(i + 1).map_values(g) =~= labels@.take(i as int).map_values(g).push(
                labels@[i as int]@,
            ));
        }
        i += 1;
    }
    proof {
        assert(labels@.take(labels@.len() as int) =~= labels@);
    }
    let sep = vec![',', ' '];
    proof {
        reveal_strlit(", ");
        assert(sep@ =~= ", "@);
    }
    let joined = join_chars(&parts, sep.as_slice());
    Some(string_of(joined.as_slice()))
}

// ---------------------------------------------------------------------------
// What page text leaves out
// ---------------------------------------------------------------------------

/// `lowercase_of` lowers ASCII text letter by letter, as std documents of
/// `str::to_lowercase` (and `to_lowercase` states).
pub open spec fn lowers_ascii() -> bool {
    forall|s: Seq<char>|
        crate::text::is_ascii_text(s) ==> #[trigger] lowercase_of(s) == crate::text::ascii_lowered(s)
}

/// No `<` in `s`.
pub open spec fn lt_free(s: Seq<char>) -> bool {
    forall|i: int| 0 <= i < s.len() ==> s[i] != '<'
}

/// A name made of small ASCII letters.
pub open spec fn small_letters(t: Seq<char>) -> bool {
    forall|i: int| 0 <= i < t.len() ==> 'a' <= #[trigger] t[i] <= 'z'
}

/// The element `<t>inner</t>` followed by `body`.
pub open spec fn element_then(t: Seq<char>, inner: Seq<char>, body: Seq<char>) -> Seq<char> {
    seq!['<'] + t + seq!['>'] + inner + seq!['<', '/'] + t + seq!['>'] + body
}

proof fn lemma_ascii_lower_keeps(c: char)
    ensures
        (crate::text::ascii_lower(c) == '<') == (c == '<'),
        !('A' <= c <= 'Z') ==> crate::text::ascii_lower(c) == c,
{
}

proof fn lemma_not_at(l: Seq<char>, open: Seq<char>, k: int, d: int)
    requires
        0 <= d < open.len(),
        0 <= k,
        k + d < l.len(),
        l[k + d] != open[d],
    ensures
        !occurs_at(l, open, k),
{
    if occurs_at(l, open, k) {
        assert(l.subrange(k, k + open.len())[d] == l[k + d]);
    }
}

proof fn lemma_cut_absent(h: Seq<char>, open: Seq<char>, close: Seq<char>)
    requires
        lowers_ascii(),
        crate::text::is_ascii_text(h),
        open.len() > 0,
        open[0] == '<',
        forall|k: int| 0 <= k < h.len() && h[k] == '<' ==> !occurs_at(crate::text::ascii_lowered(h), open, k),
    ensures
        cut_blocks(h, open, close) == h,
{
    let l = lowercase_of(h);
    assert(l == crate::text::ascii_lowered(h));
    lemma_first_from(l, open, 0);
    let k = first_from(l, open, 0);
    if k >= 0 {
        assert(occurs_at(l, open, k));
        assert(l.subrange(k, k + open.len())[0] == l[k]);
        lemma_ascii_lower_keeps(h[k]);
        assert(h[k] == '<');
    }
}

proof fn lemma_cut_untouched(s: Seq<char>, open: Seq<char>, close: Seq<char>)
    requires
        lowers_ascii(),
        crate::text::is_ascii_text(s),
        lt_free(s),
        open.len() > 0,
        open[0] == '<',
    ensures
        cut_blocks(s, open, close) == s,
{
    lemma_cut_absent(s, open, close);
}

proof fn lemma_element_facts(t: Seq<char>, inner: Seq<char>, body: Seq<char>)
    requires
        t.len() > 0,
        small_letters(t),
        crate::text::is_ascii_text(inner),
        crate::text::is_ascii_text(body),
        lt_free(inner),
        lt_free(body),
    ensures
        ({
            let h = element_then(t, inner, body);
            let q = t.len() + 2 + inner.len() as int;
            let l = crate::text::ascii_lowered(h);
            &&& crate::text::is_ascii_text(h)
            &&& forall|k: int| 0 <= k < h.len() && h[k] == '<' ==> k == 0 || k == q
            &&& l.len() == h.len()
            &&& h[0] == '<' && h[q] == '<' && h[q + 1] == '/'
            &&& forall|i: int| 0 <= i < t.len() ==> l[i + 1] == t[i] && l[q + 2 + i] == t[i]
            &&& l[0] == '<' && l[t.len() + 1 as int] == '>' && l[q] == '<' && l[q + 1] == '/'
            &&& l[q + 2 + t.len() as int] == '>'
            &&& h.skip(q + t.len() as int + 3) == body
        }),
{
    let h = element_then(t, inner, body);
    let n = t.len() as int;
    let q = n + 2 + inner.len();
    let l = crate::text::ascii_lowered(h);
    assert(h.len() == q + n + 3 + body.len());
    assert forall|k: int| 0 <= k < h.len() implies {
        &&& (#[trigger] h[k] as u32) < 128
        &&& (h[k] == '<' ==> k == 0 || k == q)
        &&& (k == 0 || k == q ==> h[k] == '<')
        &&& (k == q + 1 ==> h[k] == '/')
        &&& (k == n + 1 || k == q + 2 + n ==> h[k] == '>')
        &&& (1 <= k <= n ==> h[k] == t[k - 1])
        &&& (q + 2 <= k < q + 2 + n ==> h[k] == t[k - q - 2])
        &&& (k >= q + n + 3 ==> h[k] == body[k - q - n - 3])
    } by {
        if k == 0 {
        } else if k <= n {
            assert(h[k] == t[k - 1]);
        } else if k == n + 1 {
        } else if k < q {
            assert(h[k] == inner[k - n - 2]);
        } else if k == q {
        } else if k == q + 1 {
        } else if k < q + 2 + n {
            assert(h[k] == t[k - q - 2]);
        } else if k == q + 2 + n {
        } else {
            assert(h[k] == body[k - q - n - 3]);
        }
    }
    assert forall|k: int| 0 <= k < h.len() implies (#[trigger] l[k] == '<') == (h[k] == '<') && (
    !('A' <= h[k] <= 'Z') ==> l[k] == h[k]) by {
        lemma_ascii_lower_keeps(h[k]);
    }
    assert forall|i: int| 0 <= i < t.len() implies l[i + 1] == t[i] && l[q + 2 + i] == t[i] by {
        assert(h[i + 1] == t[i]);
        assert(h[q + 2 + i] == t[i]);
        assert(l[i + 1] == h[i + 1]);
        assert(l[q + 2 + i] == h[q + 2 + i]);
    }
    assert(l[0] == h[0]);
    assert(l[n + 1] == h[n + 1]);
    assert(l[q] == h[q]);
    assert(l[q + 1] == h[q + 1]);
    assert(l[q + 2 + n] == h[q + 2 + n]);
    assert(h.skip(q + n + 3) =~= body) by {
        assert forall|i: int| 0 <= i < body.len() implies h.skip(q + n + 3)[i] == body[i] by {
            assert(h[q + n + 3 + i] == body[i]);
        }
    }
}

/// Cutting the elements that open with `open` leaves `<t>inner</t>body` as
/// it is when `open` differs from `<t>` at index `d`.
proof fn lemma_cut_other(t: Seq<char>, inner: Seq<char>, body: Seq<char>, open: Seq<char>, close: Seq<char>, d: int)
    requires
        lowers_ascii(),
        t.len() > 0,
        small_letters(t),
        crate::text::is_ascii_text(inner),
        crate::text::is_ascii_text(body),
        lt_free(inner),
        lt_free(body),
        open.len() >= 2,
        open[0] == '<',
        open[1] != '/',
        1 <= d <= t.len(),
        d < open.len(),
        open[d] != t[d - 1],
    ensures
        cut_blocks(element_then(t, inner, body), open, close) == element_then(t, inner, body),
{
    let h = element_then(t, inner, body);
    let q = t.len() + 2 + inner.len() as int;
    let l = crate::text::ascii_lowered(h);
    lemma_element_facts(t, inner, body);
    assert forall|k: int| 0 <= k < h.len() && h[k] == '<' implies !occurs_at(l, open, k) by {
        if k == 0 {
            assert(l[d] == t[d - 1]);
            lemma_not_at(l, open, 0, d);
        } else {
            assert(k == q);
            lemma_not_at(l, open, q, 1);
        }
    }
    lemma_cut_absent(h, open, close);
}

/// Cutting the elements `<t ...>...</t>` out of `<t>inner</t>body` leaves
/// `body`.
proof fn lemma_cut_own(t: Seq<char>, inner: Seq<char>, body: Seq<char>)
    requires
        lowers_ascii(),
        t.len() > 0,
        small_letters(t),
        crate::text::is_ascii_text(inner),
        crate::text::is_ascii_text(body),
        lt_free(inner),
        lt_free(body),
    ensures
        cut_blocks(element_then(t, inner, body), seq!['<'] + t, seq!['<', '/'] + t + seq!['>']) == body,
{
    let h = element_then(t, inner, body);
    let n = t.len() as int;
    let q = n + 2 + inner.len();
    let open = seq!['<'] + t;
    let close = seq!['<', '/'] + t + seq!['>'];
    let l = lowercase_of(h);
    lemma_element_facts(t, inner, body);
    assert(l == crate::text::ascii_lowered(h));
    assert(occurs_at(l, open, 0)) by {
        assert(l.subrange(0, n + 1) =~= open) by {
            assert forall|i: int| 0 <= i < n + 1 implies l.subrange(0, n + 1)[i] == open[i] by {
                if i > 0 {
                    assert(l[(i - 1) + 1] == t[i - 1]);
                }
            }
        }
    }
    assert(occurs_at(l, close, q)) by {
        assert(l.subrange(q, q + n + 3) =~= close) by {
            assert forall|i: int| 0 <= i < n + 3 implies l.subrange(q, q + n + 3)[i] == close[i] by {
                if 2 <= i < n + 2 {
                    assert(l[q + 2 + (i - 2)] == t[i - 2]);
                }
            }
        }
    }
    lemma_not_at(l, close, 0, 1);
    lemma_first_from(l, open, 0);
    let i = first_from(l, open, 0);
    assert(i == 0);
    assert(l.skip(0) == l);
    lemma_first_from(l, close, 0);
    let k = first_from(l, close, 0);
    assert(k >= 0);
    if k != q {
        assert(k < q);
        assert(occurs_at(l, close, k));
        assert(l.subrange(k, k + close.len())[0] == l[k]);
        assert(l[k] == '<');
        assert(h[k] == '<');
    }
    assert(h.take(0) + h.skip(q + n + 3) =~= body);
    lemma_cut_untouched(body, open, close);
}

/// No text of a `<script>` element reaches the page text: for an ASCII page
/// whose only tags are that element's, the page text is that of what
/// follows the element.
pub proof fn law_page_text_drops_script(inner: Seq<char>, body: Seq<char>)
    requires
        crate::text::is_ascii_text(inner),
        crate::text::is_ascii_text(body),
        lt_free(inner),
        lt_free(body),
    ensures
        lowers_ascii() ==> page_text("<script>"@ + inner + "</script>"@ + body) == page_text(body),
{
    if lowers_ascii() {
        reveal_strlit("</footer>");
        reveal_strlit("</head>");
        reveal_strlit("</nav>");
        reveal_strlit("</noscript>");
        reveal_strlit("</script>");
        reveal_strlit("</style>");
        reveal_strlit("<footer");
        reveal_strlit("<head");
        reveal_strlit("<nav");
        reveal_strlit("<noscript");
        reveal_strlit("<script");
        reveal_strlit("<script>");
        reveal_strlit("<style");
        reveal_strlit("script");
        let t = "script"@;
        assert(small_letters(t)) by {
            assert forall|i: int| 0 <= i < t.len() implies 'a' <= #[trigger] t[i] <= 'z' by {
                if i == 0 {} else if i == 1 {} else if i == 2 {} else if i == 3 {} else if i == 4 {} else if i == 5 {}
            }
        }
        assert("<script>"@ + inner + "</script>"@ + body =~= element_then(t, inner, body));
        assert("<script"@ =~= seq!['<'] + t);
        assert("</script>"@ =~= seq!['<', '/'] + t + seq!['>']);
        lemma_cut_own(t, inner, body);
        lemma_cut_untouched(body, "<style"@, "</style>"@);
        lemma_cut_untouched(body, "<head"@, "</head>"@);
        lemma_cut_untouched(body, "<nav"@, "</nav>"@);
        lemma_cut_untouched(body, "<footer"@, "</footer>"@);
        lemma_cut_untouched(body, "<noscript"@, "</noscript>"@);
        lemma_cut_untouched(body, "<script"@, "</script>"@);
        lemma_cut_untouched(body, "<style"@, "</style>"@);
        lemma_cut_untouched(body, "<head"@, "</head>"@);
        lemma_cut_untouched(body, "<nav"@, "</nav>"@);
        lemma_cut_untouched(body, "<footer"@, "</footer>"@);
        lemma_cut_untouched(body, "<noscript"@, "</noscript>"@);
    }
}

/// No text of a `<style>` element reaches the page text: for an ASCII page
/// whose only tags are that element's, the page text is that of what
/// follows the element.
pub proof fn law_page_text_drops_style(inner: Seq<char>, body: Seq<char>)
    requires
        crate::text::is_ascii_text(inner),
        crate::text::is_ascii_text(body),
        lt_free(inner),
        lt_free(body),
    ensures
        lowers_ascii() ==> page_text("<style>"@ + inner + "</style>"@ + body) == page_text(body),
{
    if lowers_ascii() {
        reveal_strlit("</footer>");
        reveal_strlit("</head>");
        reveal_strlit("</nav>");
        reveal_strlit("</noscript>");
        reveal_strlit("</script>");
        reveal_strlit("</style>");
        reveal_strlit("<footer");
        reveal_strlit("<head");
        reveal_strlit("<nav");
        reveal_strlit("<noscript");
        reveal_strlit("<script");
        reveal_strlit("<style");
        reveal_strlit("<style>");
        reveal_strlit("style");
        let t = "style"@;
        assert(small_letters(t)) by {
            assert forall|i: int| 0 <= i < t.len() implies 'a' <= #[trigger] t[i] <= 'z' by {
                if i == 0 {} else if i == 1 {} else if i == 2 {} else if i == 3 {} else if i == 4 {}
            }
        }
        assert("<style>"@ + inner + "</style>"@ + body =~= element_then(t, inner, body));
        lemma_cut_other(t, inner, body, "<script"@, "</script>"@, 2);
        assert("<style"@ =~= seq!['<'] + t);
        assert("</style>"@ =~= seq!['<', '/'] + t + seq!['>']);
        lemma_cut_own(t, inner, body);
        lemma_cut_untouched(body, "<head"@, "</head>"@);
        lemma_cut_untouched(body, "<nav"@, "</nav>"@);
        lemma_cut_untouched(body, "<footer"@, "</footer>"@);
        lemma_cut_untouched(body, "<noscript"@, "</noscript>"@);
        lemma_cut_untouched(body, "<script"@, "</script>"@);
        lemma_cut_untouched(body, "<style"@, "</style>"@);
        lemma_cut_untouched(body, "<head"@, "</head>"@);
        lemma_cut_untouched(body, "<nav"@, "</nav>"@);
        lemma_cut_untouched(body, "<footer"@, "</footer>"@);
        lemma_cut_untouched(body, "<noscript"@, "</noscript>"@);
    }
}

/// No text of a `<head>` element reaches the page text: for an ASCII page
/// whose only tags are that element's, the page text is that of what
/// follows the element.
pub proof fn law_page_text_drops_head(inner: Seq<char>, body: Seq<char>)
    requires
        crate::text::is_ascii_text(inner),
        crate::text::is_ascii_text(body),
        lt_free(inner),
        lt_free(body),
    ensures
        lowers_ascii() ==> page_text("<head>"@ + inner + "</head>"@ + body) == page_text(body),
{
    if lowers_ascii() {
        reveal_strlit("</footer>");
        reveal_strlit("</head>");
        reveal_strlit("</nav>");
        reveal_strlit("</noscript>");
        reveal_strlit("</script>");
        reveal_strlit("</style>");
        reveal_strlit("<footer");
        reveal_strlit("<head");
        reveal_strlit("<head>");
        reveal_strlit("<nav");
        reveal_strlit("<noscript");
        reveal_strlit("<script");
        reveal_strlit("<style");
        reveal_strlit("head");
        let t = "head"@;
        assert(small_letters(t)) by {
            assert forall|i: int| 0 <= i < t.len() implies 'a' <= #[trigger] t[i] <= 'z' by {
                if i == 0 {} else if i == 1 {} else if i == 2 {} else if i == 3 {}
            }
        }
        assert("<head>"@ + inner + "</head>"@ + body =~= element_then(t, inner, body));
        lemma_cut_other(t, inner, body, "<script"@, "</script>"@, 1);
        lemma_cut_other(t, inner, body, "<style"@, "</style>"@, 1);
        assert("<head"@ =~= seq!['<'] + t);
        assert("</head>"@ =~= seq!['<', '/'] + t + seq!['>']);
        lemma_cut_own(t, inner, body);
        lemma_cut_untouched(body, "<nav"@, "</nav>"@);
        lemma_cut_untouched(body, "<footer"@, "</footer>"@);
        lemma_cut_untouched(body, "<noscript"@, "</noscript>"@);
        lemma_cut_untouched(body, "<script"@, "</script>"@);
        lemma_cut_untouched(body, "<style"@, "</style>"@);
        lemma_cut_untouched(body, "<head"@, "</head>"@);
        lemma_cut_untouched(body, "<nav"@, "</nav>"@);
        lemma_cut_untouched(body, "<footer"@, "</footer>"@);
        lemma_cut_untouched(body, "<noscript"@, "</noscript>"@);
    }
}

/// No text of a `<nav>` element reaches the page text: for an ASCII page
/// whose only tags are that element's, the page text is that of what
/// follows the element.
pub proof fn law_page_text_drops_nav(inner: Seq<char>, body: Seq<char>)
    requires
        crate::text::is_ascii_text(inner),
        crate::text::is_ascii_text(body),
        lt_free(inner),
        lt_free(body),
    ensures
        lowers_ascii() ==> page_text("<nav>"@ + inner + "</nav>"@ + body) == page_text(body),
{
    if lowers_ascii() {
        reveal_strlit("</footer>");
        reveal_strlit("</head>");
        reveal_strlit("</nav>");
        reveal_strlit("</noscript>");
        reveal_strlit("</script>");
        reveal_strlit("</style>");
        reveal_strlit("<footer");
        reveal_strlit("<head");
        reveal_strlit("<nav");
        reveal_strlit("<nav>");
        reveal_strlit("<noscript");
        reveal_strlit("<script");
        reveal_strlit("<style");
        reveal_strlit("nav");
        let t = "nav"@;
        assert(small_letters(t)) by {
            assert forall|i: int| 0 <= i < t.len() implies 'a' <= #[trigger] t[i] <= 'z' by {
                if i == 0 {} else if i == 1 {} else if i == 2 {}
            }
        }
        assert("<nav>"@ + inner + "</nav>"@ + body =~= element_then(t, inner, body));
        lemma_cut_other(t, inner, body, "<script"@, "</script>"@, 1);
        lemma_cut_other(t, inner, body, "<style"@, "</style>"@, 1);
        lemma_cut_other(t, inner, body, "<head"@, "</head>"@, 1);
        assert("<nav"@ =~= seq!['<'] + t);
        assert("</nav>"@ =~= seq!['<', '/'] + t + seq!['>']);
        lemma_cut_own(t, inner, body);
        lemma_cut_untouched(body, "<footer"@, "</footer>"@);
        lemma_cut_untouched(body, "<noscript"@, "</noscript>"@);
        lemma_cut_untouched(body, "<script"@, "</script>"@);
        lemma_cut_untouched(body, "<style"@, "</style>"@);
        lemma_cut_untouched(body, "<head"@, "</head>"@);
        lemma_cut_untouched(body, "<nav"@, "</nav>"@);
        lemma_cut_untouched(body, "<footer"@, "</footer>"@);
        lemma_cut_untouched(body, "<noscript"@, "</noscript>"@);
    }
}

/// No text of a `<footer>` element reaches the page text: for an ASCII page
/// whose only tags are that element's, the page text is that of what
/// follows the element.
pub proof fn law_page_text_drops_footer(inner: Seq<char>, body: Seq<char>)
    requires
        crate::text::is_ascii_text(inner),
        crate::text::is_ascii_text(body),
        lt_free(inner),
        lt_free(body),
    ensures
        lowers_ascii() ==> page_text("<footer>"@ + inner + "</footer>"@ + body) == page_text(body),
{
    if lowers_ascii() {
        reveal_strlit("</footer>");
        reveal_strlit("</head>");
        reveal_strlit("</nav>");
        reveal_strlit("</noscript>");
        reveal_strlit("</script>");
        reveal_strlit("</style>");
        reveal_strlit("<footer");
        reveal_strlit("<footer>");
        reveal_strlit("<head");
        reveal_strlit("<nav");
        reveal_strlit("<noscript");
        reveal_strlit("<script");
        reveal_strlit("<style");
        reveal_strlit("footer");
        let t = "footer"@;
        assert(small_letters(t)) by {
            assert forall|i: int| 0 <= i < t.len() implies 'a' <= #[trigger] t[i] <= 'z' by {
                if i == 0 {} else if i == 1 {} else if i == 2 {} else if i == 3 {} else if i == 4 {} else if i == 5 {}
            }
        }
        assert("<footer>"@ + inner + "</footer>"@ + body =~= element_then(t, inner, body));
        lemma_cut_other(t, inner, body, "<script"@, "</script>"@, 1);
        lemma_cut_other(t, inner, body, "<style"@, "</style>"@, 1);
        lemma_cut_other(t, inner, body, "<head"@, "</head>"@, 1);
        lemma_cut_other(t, inner, body, "<nav"@, "</nav>"@, 1);
        assert("<footer"@ =~= seq!['<'] + t);
        assert("</footer>"@ =~= seq!['<', '/'] + t + seq!['>']);
        lemma_cut_own(t, inner, body);
        lemma_cut_untouched(body, "<noscript"@, "</noscript>"@);
        lemma_cut_untouched(body, "<script"@, "</script>"@);
        lemma_cut_untouched(body, "<style"@, "</style>"@);
        lemma_cut_untouched(body, "<head"@, "</head>"@);
        lemma_cut_untouched(body, "<nav"@, "</nav>"@);
        lemma_cut_untouched(body, "<footer"@, "</footer>"@);
        lemma_cut_untouched(body, "<noscript"@, "</noscript>"@);
    }
}

/// No text of a `<noscript>` element reaches the page text: for an ASCII page
/// whose only tags are that element's, the page text is that of what
/// follows the element.
pub proof fn law_page_text_drops_noscript(inner: Seq<char>, body: Seq<char>)
    requires
        crate::text::is_ascii_text(inner),
        crate::text::is_ascii_text(body),
        lt_free(inner),
        lt_free(body),
    ensures
        lowers_ascii() ==> page_text("<noscript>"@ + inner + "</noscript>"@ + body) == page_text(body),
{
    if lowers_ascii() {
        reveal_strlit("</footer>");
        reveal_strlit("</head>");
        reveal_strlit("</nav>");
        reveal_strlit("</noscript>");
        reveal_strlit("</script>");
        reveal_strlit("</style>");
        reveal_strlit("<footer");
        reveal_strlit("<head");
        reveal_strlit("<nav");
        reveal_strlit("<noscript");
        reveal_strlit("<noscript>");
        reveal_strlit("<script");
        reveal_strlit("<style");
        reveal_strlit("noscript");
        let t = "noscript"@;
        assert(small_letters(t)) by {
            assert forall|i: int| 0 <= i < t.len() implies 'a' <= #[trigger] t[i] <= 'z' by {
                if i == 0 {} else if i == 1 {} else if i == 2 {} else if i == 3 {} else if i == 4 {} else if i == 5 {} else if i == 6 {} else if i == 7 {}
            }
        }
        assert("<noscript>"@ + inner + "</noscript>"@ + body =~= element_then(t, inner, body));
        lemma_cut_other(t, inner, body, "<script"@, "</script>"@, 1);
        lemma_cut_other(t, inner, body, "<style"@, "</style>"@, 1);
        lemma_cut_other(t, inner, body, "<head"@, "</head>"@, 1);
        lemma_cut_other(t, inner, body, "<nav"@, "</nav>"@, 2);
        lemma_cut_other(t, inner, body, "<footer"@, "</footer>"@, 1);
        assert("<noscript"@ =~= seq!['<'] + t);
        assert("</noscript>"@ =~= seq!['<', '/'] + t + seq!['>']);
        lemma_cut_own(t, inner, body);
        lemma_cut_untouched(body, "<script"@, "</script>"@);
        lemma_cut_untouched(body, "<style"@, "</style>"@);
        lemma_cut_untouched(body, "<head"@, "</head>"@);
        lemma_cut_untouched(body, "<nav"@, "</nav>"@);
        lemma_cut_untouched(body, "<footer"@, "</footer>"@);
        lemma_cut_untouched(body, "<noscript"@, "</noscript>"@);
    }
}

} // verus!
