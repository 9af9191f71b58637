//! Archiving conversations into a ring's git repository: where the
//! repository lives, how archive files are named, how a language model's
//! JSON answer is unwrapped, and the names, messages and states of the git
//! steps that creators and members go through.
use vstd::prelude::*;
use vstd::string::*;

use crate::error::RingError;
use crate::text::{
    chars_of, contains, join_chars, lines, lines_of, owned, push_chars, starts_with, str_eq,
    str_trim, string_of, take_chars, trim, utf8_len, utf8_len_exceeds,
};

verus! {

// ---------------------------------------------------------------------------
// Progress steps
// ---------------------------------------------------------------------------

/// The phases of an archive run, reported to the client as progress.
#[derive(Debug, Clone, Copy, PartialEq, Eq)]
pub enum ArchiveStep {
    Pulling,
    Generating,
    Writing,
    Committing,
    Pushing,
    CreatingMR,
    Complete,
}

impl ArchiveStep {
    /// The message shown to the user for a step.
    pub fn message(&self) -> (m: &'static str)
        ensures
            m@ == match *self {
                ArchiveStep::Pulling => "正在拉取最新内容..."@,
                ArchiveStep::Generating => "AI 正在生成归档内容..."@,
                ArchiveStep::Writing => "写入 Markdown 文件..."@,
                ArchiveStep::Committing => "提交到 Git..."@,
                ArchiveStep::Pushing => "推送到远程仓库..."@,
                ArchiveStep::CreatingMR => "创建 Merge Request..."@,
                ArchiveStep::Complete => "归档完成"@,
            },
    {
        match self {
            ArchiveStep::Pulling => "正在拉取最新内容...",
            ArchiveStep::Generating => "AI 正在生成归档内容...",
            ArchiveStep::Writing => "写入 Markdown 文件...",
            ArchiveStep::Committing => "提交到 Git...",
            ArchiveStep::Pushing => "推送到远程仓库...",
            ArchiveStep::CreatingMR => "创建 Merge Request...",
            ArchiveStep::Complete => "归档完成",
        }
    }

    /// The machine-readable name of a step.
    pub fn step_name(&self) -> (m: &'static str)
        ensures
            m@ == match *self {
                ArchiveStep::Pulling => "pulling"@,
                ArchiveStep::Generating => "generating"@,
                ArchiveStep::Writing => "writing"@,
                ArchiveStep::Committing => "committing"@,
                ArchiveStep::Pushing => "pushing"@,
                ArchiveStep::CreatingMR => "creating_mr"@,
                ArchiveStep::Complete => "complete"@,
            },
    {
        match self {
            ArchiveStep::Pulling => "pulling",
            ArchiveStep::Generating => "generating",
            ArchiveStep::Writing => "writing",
            ArchiveStep::Committing => "committing",
            ArchiveStep::Pushing => "pushing",
            ArchiveStep::CreatingMR => "creating_mr",
            ArchiveStep::Complete => "complete",
        }
    }
}

/// One archive file that a language model extracted from a session.
pub struct ArchiveUnit {
    pub title: String,
    pub content: String,
}

// ---------------------------------------------------------------------------
// Paths
// ---------------------------------------------------------------------------

/// `base` joined with `part` as `Path::join` does on Unix: an absolute `part`
/// replaces `base`; otherwise a `/` is put between them unless `base` is
/// empty or already ends with one.
pub open spec fn path_join(base: Seq<char>, part: Seq<char>) -> Seq<char> {
    if part.len() > 0 && part[0] == '/' {
        part
    } else if base.len() == 0 || base.last() == '/' {
        base + part
    } else {
        base + seq!['/'] + part
    }
}

/// `base` joined with `part` (see `path_join`).
pub fn join_path(base: &str, part: &str) -> (r: String)
    ensures
        r@ == path_join(base@, part@),
{
    let b = chars_of(base);
    let p = chars_of(part);
    if p.len() > 0 && p[0] == '/' {
        return owned(part);
    }
    let mut r = owned(base);
    if !(b.len() == 0 || b[b.len() - 1] == '/') {
        r.append("/");
        proof {
            reveal_strlit("/");
        }
    }
    r.append(part);
    r
}

/// The directory of a ring's archive repository.
pub fn ring_repo_path(rings_dir: &str, ring_id: &str) -> (r: String)
    ensures
        r@ == path_join(rings_dir@, ring_id@),
{
    join_path(rings_dir, ring_id)
}

// ---------------------------------------------------------------------------
// File names
// ---------------------------------------------------------------------------

/// What std's `char::is_alphanumeric` says of a character (Unicode
/// `Alphabetic` or `Numeric`).
pub uninterp spec fn is_alphanumeric_char(c: char) -> bool;

/// ASCII letters and digits.
pub open spec fn is_ascii_alnum(c: char) -> bool {
    ('0' <= c && c <= '9') || ('a' <= c && c <= 'z') || ('A' <= c && c <= 'Z')
}

/// std `char::is_alphanumeric`. Among ASCII characters exactly the letters
/// and digits are alphanumeric, as std documents; beyond ASCII the answer is
/// left to the name.
#[verifier::external_body]
pub(crate) fn char_is_alphanumeric(c: char) -> (r: bool)
    ensures
        r == is_alphanumeric_char(c),
        (c as u32) < 128 ==> (r == is_ascii_alnum(c)),
{
    c.is_alphanumeric()
}

/// Whether a character is kept in a file name.
pub open spec fn is_name_char(c: char) -> bool {
    is_alphanumeric_char(c) || c == '-' || c == '_'
}

/// `title` with every character that is not kept replaced by `-`.
pub open spec fn dash_unsafe(title: Seq<char>) -> Seq<char> {
    title.map_values(|c: char| if is_name_char(c) { c } else { '-' })
}

/// Number of `c` at the start of `s`.
pub open spec fn lead_count(s: Seq<char>, c: char) -> nat
    decreases s.len(),
{
    if s.len() > 0 && s[0] == c {
        1 + lead_count(s.drop_first(), c)
    } else {
        0
    }
}

/// Number of `c` at the end of `s`.
pub open spec fn trail_count(s: Seq<char>, c: char) -> nat
    decreases s.len(),
{
    if s.len() > 0 && s.last() == c {
        1 + trail_count(s.drop_last(), c)
    } else {
        0
    }
}

proof fn lemma_lead_count(s: Seq<char>, c: char)
    ensures
        lead_count(s, c) <= s.len(),
    decreases s.len(),
{
    if s.len() > 0 && s[0] == c {
        lemma_lead_count(s.drop_first(), c);
    }
}

proof fn lemma_trail_count(s: Seq<char>, c: char)
    ensures
        trail_count(s, c) <= s.len(),
    decreases s.len(),
{
    if s.len() > 0 && s.last() == c {
        lemma_trail_count(s.drop_last(), c);
    }
}

/// `s` without leading and trailing `c` (std `str::trim_matches`).
pub open spec fn trim_char(s: Seq<char>, c: char) -> Seq<char> {
    let t = s.skip(lead_count(s, c) as int);
    t.take(t.len() - trail_count(t, c))
}

/// Characters that cannot take a path out of its directory.
pub open spec fn path_safe_char(c: char) -> bool {
    c != '/' && c != '\\' && c != '.'
}

/// The title part of an archive file name.
pub open spec fn safe_title(title: Seq<char>) -> Seq<char> {
    trim_char(dash_unsafe(title), '-')
}

/// The archive file name for a title written on `date`.
pub open spec fn archive_file_name(date: Seq<char>, title: Seq<char>) -> Seq<char> {
    date + seq!['_'] + safe_title(title) + ".md"@
}

fn trim_dashes(s: &[char]) -> (r: Vec<char>)
    ensures
        r@ == trim_char(s@, '-'),
{
    let mut a: usize = 0;
    assert(s@.skip(0) == s@);
    while a < s.len() && s[a] == '-'
        invariant
            a <= s.len(),
            lead_count(s@, '-') == a + lead_count(s@.skip(a as int), '-'),
        decreases s.len() - a,
    {
        assert(s@.skip(a as int).drop_first() == s@.skip(a + 1));
        a += 1;
    }
    proof {
        lemma_lead_count(s@.skip(a as int), '-');
    }
    let t = crate::text::slice_chars(s, a, s.len());
    assert(t@ == s@.skip(a as int));
    let mut k: usize = t.len();
    assert(t@.take(t.len() as int) == t@);
    while k > 0 && t[k - 1] == '-'
        invariant
            k <= t.len(),
            trail_count(t@, '-') == (t.len() - k) + trail_count(t@.take(k as int), '-'),
        decreases k,
    {
        assert(t@.take(k as int).drop_last() == t@.take(k - 1));
        k -= 1;
    }
    proof {
        lemma_trail_count(t@.take(k as int), '-');
    }
    take_chars(t.as_slice(), k)
}

/// The file name under which an archive titled `title` is written on `date`
/// (a `YYYY-MM-DD` string): the date, `_`, the title with every character
/// other than letters, digits, `-` and `_` replaced by `-` and dashes trimmed
/// from both ends, then `.md`.
///
/// The title part holds no `/`, `\\` or `.`, whatever the title, so an
/// archive never lands outside the archive directory.
pub fn sanitize_filename(title: &str, date: &str) -> (r: String)
    ensures
        r@ == archive_file_name(date@, title@),
        forall|i: int|
            0 <= i < safe_title(title@).len() ==> path_safe_char(#[trigger] safe_title(title@)[i]),
{
    let v = chars_of(title);
    let mut safe: Vec<char> = Vec::new();
    let mut i: usize = 0;
    while i < v.len()
        invariant
            i <= v.len(),
            v@ == title@,
            safe@ == dash_unsafe(v@.take(i as int)),
            forall|k: int| 0 <= k < i ==> path_safe_char(#[trigger] safe@[k]),
        decreases v.len() - i,
    {
        let c = v[i];
        let keep = char_is_alphanumeric(c) || c == '-' || c == '_';
        safe.push(if keep { c } else { '-' });
        assert(dash_unsafe(v@.take(i + 1)) =~= dash_unsafe(v@.take(i as int)).push(
            if is_name_char(c) { c } else { '-' },
        ));
        i += 1;
    }
    assert(v@.take(v.len() as int) == v@);
    let trimmed = trim_dashes(safe.as_slice());
    proof {
        let d = safe@;
        lemma_lead_count(d, '-');
        let t = d.skip(lead_count(d, '-') as int);
        lemma_trail_count(t, '-');
        assert forall|i: int| 0 <= i < trimmed@.len() implies path_safe_char(#[trigger] trimmed@[i]) by {
            assert(trimmed@[i] == d[i + lead_count(d, '-')]);
        }
    }
    let mut r = owned(date);
    crate::text::push_char(&mut r, '_');
    push_chars(&mut r, trimmed.as_slice());
    r.append(".md");
    r
}

// ---------------------------------------------------------------------------
// Model answers
// ---------------------------------------------------------------------------

/// Whether a line opens or closes a code fence.
pub open spec fn is_fence(l: Seq<char>) -> bool {
    "```"@.is_prefix_of(l)
}

/// The lines before the first fence line.
pub open spec fn until_fence(ls: Seq<Seq<char>>) -> Seq<Seq<char>>
    decreases ls.len(),
{
    if ls.len() == 0 || is_fence(ls[0]) {
        seq![]
    } else {
        seq![ls[0]] + until_fence(ls.drop_first())
    }
}

/// The JSON inside a model's answer: the trimmed answer, or, when it opens
/// with a code fence, the lines after the opening fence up to the closing
/// one, joined with line feeds.
pub open spec fn unfenced(answer: Seq<char>) -> Seq<char> {
    let t = trim(answer);
    if is_fence(t) {
        if lines_of(t).len() == 0 {
            seq![]
        } else {
            crate::text::join(until_fence(lines_of(t).drop_first()), seq!['\n'])
        }
    } else {
        t
    }
}

/// Strips a Markdown code fence from a model's answer (see `unfenced`).
pub fn strip_code_fence(answer: &str) -> (r: String)
    ensures
        r@ == unfenced(answer@),
{
    let t = str_trim(answer);
    let tv = chars_of(t.as_str());
    let fence: [char; 3] = ['`', '`', '`'];
    proof {
        reveal_strlit("```");
    }
    assert(fence@ == "```"@);
    if !starts_with(tv.as_slice(), fence.as_slice()) {
        return t;
    }
    let ls = lines(tv.as_slice());
    let ghost lv = ls@.map_values(|w: Vec<char>| w@);
    if ls.len() == 0 {
        return String::new();
    }
    let mut kept: Vec<Vec<char>> = Vec::new();
    let mut i: usize = 1;
    assert(lv.drop_first().skip(0) == lv.drop_first());
    while i < ls.len() && !starts_with(ls[i].as_slice(), fence.as_slice())
        invariant
            1 <= i <= ls.len(),
            lv == ls@.map_values(|w: Vec<char>| w@),
            fence@ == "```"@,
            until_fence(lv.drop_first()) == kept@.map_values(|w: Vec<char>| w@) + until_fence(
                lv.skip(i as int),
            ),
        decreases ls.len() - i,
    {
        let ghost before = kept@.map_values(|w: Vec<char>| w@);
        assert(lv.skip(i as int)[0] == ls@[i as int]@);
        assert(lv.skip(i as int).drop_first() == lv.skip(i + 1));
        kept.push(crate::text::to_vec(ls[i].as_slice()));
        assert(kept@.map_values(|w: Vec<char>| w@) == before.push(ls@[i as int]@));
        assert(before.push(ls@[i as int]@) + until_fence(lv.skip(i + 1)) == before + (seq![
            ls@[i as int]@,
        ] + until_fence(lv.skip(i + 1))));
        i += 1;
    }
    if i < ls.len() {
        assert(lv.skip(i as int)[0] == ls@[i as int]@);
    } else {
        assert(lv.skip(i as int) == Seq::<Seq<char>>::empty());
    }
    assert(kept@.map_values(|w: Vec<char>| w@) + Seq::<Seq<char>>::empty() == kept@.map_values(
        |w: Vec<char>| w@,
    ));
    let nl: [char; 1] = ['\n'];
    assert(nl@ == seq!['\n']);
    let joined = join_chars(&kept, nl.as_slice());
    string_of(joined.as_slice())
}

/// What a model decided about archiving a chat exchange.
pub struct ArchiveDecision {
    pub should_archive: bool,
    pub title: Option<String>,
    pub content: Option<String>,
}

/// The title and content to archive, when the model wants the exchange
/// archived and gave both.
pub fn chat_archive_target(d: ArchiveDecision) -> (r: Option<(String, String)>)
    ensures
        match r {
            Some((t, c)) => d.should_archive && d.title == Some(t) && d.content == Some(c),
            None => !d.should_archive || d.title is None || d.content is None,
        },
{
    if !d.should_archive {
        return None;
    }
    match (d.title, d.content) {
        (Some(t), Some(c)) => Some((t, c)),
        _ => None,
    }
}

// ---------------------------------------------------------------------------
// Texts of an archive run
// ---------------------------------------------------------------------------

/// The title of a quick archive: the content itself when it is at most 40
/// bytes long, else its first 40 characters followed by `...`.
pub open spec fn quick_title(content: Seq<char>) -> Seq<char> {
    if utf8_len(content) > 40 {
        crate::search::first_n(content, 40) + "..."@
    } else {
        content
    }
}

/// The title under which a quick archive of `content` is filed.
pub fn quick_archive_title(content: &str) -> (r: String)
    ensures
        r@ == quick_title(content@),
{
    let v = chars_of(content);
    if utf8_len_exceeds(v.as_slice(), 40) {
        let t = take_chars(v.as_slice(), 40);
        let mut r = string_of(t.as_slice());
        r.append("...");
        r
    } else {
        owned(content)
    }
}

/// `prefix` followed by `s`.
pub fn prefixed(prefix: &str, s: &str) -> (r: String)
    ensures
        r@ == prefix@ + s@,
{
    let mut r = owned(prefix);
    r.append(s);
    r
}

/// The commit message for an archive titled `title`.
pub fn archive_commit_message(title: &str) -> (r: String)
    ensures
        r@ == "archive: "@ + title@,
{
    prefixed("archive: ", title)
}

/// The branch a member's archive is proposed on.
pub fn archive_branch_name(record_id: &str) -> (r: String)
    ensures
        r@ == "archive/"@ + record_id@,
{
    prefixed("archive/", record_id)
}

/// The title of the review request for a member's archive.
pub fn review_title(title: &str) -> (r: String)
    ensures
        r@ == "归档: "@ + title@,
{
    prefixed("归档: ", title)
}

/// The description of the review request for a member's archive.
pub fn review_description(user_id: &str) -> (r: String)
    ensures
        r@ == "由 "@ + user_id@ + " 提交的归档请求"@,
{
    let mut r = prefixed("由 ", user_id);
    r.append(" 提交的归档请求");
    r
}

/// The path, relative to the repository, under which an archive file is
/// linked from its graph node.
pub fn archive_relative_path(file_name: &str) -> (r: String)
    ensures
        r@ == "archives/"@ + file_name@,
{
    prefixed("archives/", file_name)
}

/// The search-index id of an archive record.
pub fn archive_source_id(record_id: &str) -> (r: String)
    ensures
        r@ == "archive:"@ + record_id@,
{
    prefixed("archive:", record_id)
}

/// The title of an automatically archived unit: the time of day
/// (`HHMMSS`), `_`, the unit's title.
pub fn timestamped_title(time: &str, title: &str) -> (r: String)
    ensures
        r@ == time@ + "_"@ + title@,
{
    let mut r = owned(time);
    r.append("_");
    r.append(title);
    r
}

/// The state a creator's archive record ends in: pushed when the repository
/// has a remote, committed otherwise.
pub fn creator_archive_status(has_remote: bool) -> (r: &'static str)
    ensures
        r@ == (if has_remote { "pushed"@ } else { "committed"@ }),
{
    if has_remote {
        "pushed"
    } else {
        "committed"
    }
}

/// The review id of an archive record that can be reviewed: it must be in
/// state `mr_opened` and carry the review id.
pub fn reviewable_mr(record_id: &str, status: &str, merge_request_iid: Option<i64>) -> (r: Result<
    i64,
    RingError,
>)
    ensures
        status@ != "mr_opened"@ ==> (r matches Err(
            RingError::InvalidArchiveState { record_id: rid, current, expected },
        ) && rid@ == record_id@ && current@ == status@ && expected@ == "mr_opened"@),
        status@ == "mr_opened"@ ==> match merge_request_iid {
            Some(n) => r == Ok::<i64, RingError>(n),
            None => r matches Err(RingError::Internal(m)) && m@ == "MR IID missing"@,
        },
{
    if !str_eq(status, "mr_opened") {
        return Err(
            RingError::InvalidArchiveState {
                record_id: owned(record_id),
                current: owned(status),
                expected: owned("mr_opened"),
            },
        );
    }
    match merge_request_iid {
        Some(n) => Ok(n),
        None => Err(RingError::Internal(owned("MR IID missing"))),
    }
}

/// The decision taken on an archive's merge request.
#[derive(PartialEq, Eq, Structural, Clone, Copy, Debug)]
pub enum ReviewAction {
    Merge,
    Reject,
}

/// The storage backend call that carries out a review decision, on the
/// given review id.
#[derive(PartialEq, Eq, Structural, Clone, Copy, Debug)]
pub enum ReviewCall {
    MergeReview(i64),
    RejectReview(i64),
}

/// The status an archive record takes once a review decision is carried
/// out.
pub open spec fn reviewed_status(action: ReviewAction) -> Seq<char> {
    match action {
        ReviewAction::Merge => "merged"@,
        ReviewAction::Reject => "rejected"@,
    }
}

/// Reviewing an archive record: the record is checked as `reviewable_mr`
/// does; then the decision is carried out by the backend call on the
/// record's review (merge, or reject), after which the record takes the
/// status `merged` or `rejected`.
pub fn review_step(record_id: &str, status: &str, merge_request_iid: Option<i64>, action: ReviewAction)
    -> (r: Result<(ReviewCall, &'static str), RingError>)
    ensures
        status@ != "mr_opened"@ ==> (r matches Err(
            RingError::InvalidArchiveState { record_id: rid, current, expected },
        ) && rid@ == record_id@ && current@ == status@ && expected@ == "mr_opened"@),
        status@ == "mr_opened"@ ==> match merge_request_iid {
            Some(n) => r matches Ok((call, after)) && after@ == reviewed_status(action) && call == (
            match action {
                ReviewAction::Merge => ReviewCall::MergeReview(n),
                ReviewAction::Reject => ReviewCall::RejectReview(n),
            }),
            None => r matches Err(RingError::Internal(m)) && m@ == "MR IID missing"@,
        },
{
    let iid = reviewable_mr(record_id, status, merge_request_iid)?;
    match action {
        ReviewAction::Merge => Ok((ReviewCall::MergeReview(iid), "merged")),
        ReviewAction::Reject => Ok((ReviewCall::RejectReview(iid), "rejected")),
    }
}

/// A message of a session, as its transcript shows it.
pub struct TranscriptLine {
    pub sender_name: String,
    pub content: String,
}

/// One transcript line: `[sender]: content`.
pub open spec fn transcript_line(m: TranscriptLine) -> Seq<char> {
    "["@ + m.sender_name@ + "]: "@ + m.content@
}

/// A session's transcript: its messages, one per line.
pub fn session_transcript(messages: &Vec<TranscriptLine>) -> (r: String)
    ensures
        r@ == crate::text::join(
            messages@.map_values(|m: TranscriptLine| transcript_line(m)),
            seq!['\n'],
        ),
{
    let mut parts: Vec<Vec<char>> = Vec::new();
    let mut i: usize = 0;
    while i < messages.len()
        invariant
            i <= messages.len(),
            parts@.map_values(|w: Vec<char>| w@) == messages@.take(i as int).map_values(
                |m: TranscriptLine| transcript_line(m),
            ),
        decreases messages.len() - i,
    {
        let m = &messages[i];
        let mut l = owned("[");
        l.append(m.sender_name.as_str());
        l.append("]: ");
        l.append(m.content.as_str());
        let lv = chars_of(l.as_str());
        let ghost before = parts@.map_values(|w: Vec<char>| w@);
        parts.push(lv);
        assert(parts@.map_values(|w: Vec<char>| w@) == before.push(transcript_line(*m)));
        assert(messages@.take(i + 1).map_values(|m: TranscriptLine| transcript_line(m))
            =~= messages@.take(i as int).map_values(|m: TranscriptLine| transcript_line(m)).push(
            transcript_line(messages@[i as int]),
        ));
        i += 1;
    }
    assert(messages@.take(messages.len() as int) == messages@);
    let nl: [char; 1] = ['\n'];
    assert(nl@ == seq!['\n']);
    let j = join_chars(&parts, nl.as_slice());
    string_of(j.as_slice())
}

/// The request a model gets to extract archive units from a session.
pub fn session_extract_request(title: &str, skill: &str, transcript: &str) -> (r: String)
    ensures
        r@ == "Session 标题: "@ + title@ + "\nSkill: "@ + skill@ + "\n\n讨论记录：\n"@ + transcript@,
{
    let mut r = owned("Session 标题: ");
    r.append(title);
    r.append("\nSkill: ");
    r.append(skill);
    r.append("\n\n讨论记录：\n");
    r.append(transcript);
    r
}

/// The request a model gets to judge whether a chat exchange is worth
/// archiving.
pub fn chat_judge_request(user_message: &str, ai_response: &str) -> (r: String)
    ensures
        r@ == "用户消息：\n"@ + user_message@ + "\n\nAI回复：\n"@ + ai_response@,
{
    let mut r = owned("用户消息：\n");
    r.append(user_message);
    r.append("\n\nAI回复：\n");
    r.append(ai_response);
    r
}

} // verus!
