//! Group and personal chat: recognising archive and graph requests in a
//! message, choosing which history to compact, and assembling the context
//! documents that go into a ring's system prompt.
use vstd::prelude::*;
use vstd::string::*;

use crate::error::RingError;
use crate::super_chat::{param_is, ToolParam, ToolSpec};
use crate::text::{
    chars_of, concat_all, contains, is_blank, join, join_chars, lemma_concat_all_push, lowercase_of,
    owned, push_chars, push_str, str_contains, str_eq, string_of, take_chars, to_lowercase, trim,
    utf8_len, utf8_len_exceeds,
};

verus! {

/// Whether `s` contains one of `kws`.
pub open spec fn mentions_any(s: Seq<char>, kws: Seq<Seq<char>>) -> bool {
    exists|i: int| 0 <= i < kws.len() && contains(s, #[trigger] kws[i])
}

/// Whether `s` equals one of `kws`.
pub open spec fn is_one_of(s: Seq<char>, kws: Seq<Seq<char>>) -> bool {
    exists|i: int| 0 <= i < kws.len() && s == #[trigger] kws[i]
}

/// Whether `s` contains one of the given keywords.
pub fn contains_any(s: &str, kws: &[&str]) -> (r: bool)
    ensures
        r == mentions_any(s@, kws@.map_values(|k: &str| k@)),
{
    let ghost ks = kws@.map_values(|k: &str| k@);
    let mut i: usize = 0;
    while i < kws.len()
        invariant
            i <= kws.len(),
            ks == kws@.map_values(|k: &str| k@),
            forall|j: int| 0 <= j < i ==> !contains(s@, #[trigger] ks[j]),
        decreases kws.len() - i,
    {
        if str_contains(s, kws[i]) {
            assert(contains(s@, ks[i as int]));
            return true;
        }
        i += 1;
    }
    false
}

/// Whether `s` equals one of the given strings.
pub fn equals_any(s: &str, kws: &[&str]) -> (r: bool)
    ensures
        r == is_one_of(s@, kws@.map_values(|k: &str| k@)),
{
    let ghost ks = kws@.map_values(|k: &str| k@);
    let mut i: usize = 0;
    while i < kws.len()
        invariant
            i <= kws.len(),
            ks == kws@.map_values(|k: &str| k@),
            forall|j: int| 0 <= j < i ==> s@ != #[trigger] ks[j],
        decreases kws.len() - i,
    {
        if crate::text::str_eq(s, kws[i]) {
            assert(s@ == ks[i as int]);
            return true;
        }
        i += 1;
    }
    false
}

/// Phrases that ask for the conversation to be archived.
pub open spec fn archive_keywords() -> Seq<Seq<char>> {
    seq!["/save"@, "/archive"@, "\u{5f52}\u{6863}"@, "archive this"@]
}

/// Whether a message asks for the conversation to be archived: its lowercase
/// form contains `/save`, `/archive`, `归档` or `archive this`.
pub fn detect_archive_intent(content: &str) -> (r: bool)
    ensures
        r == mentions_any(lowercase_of(content@), archive_keywords()),
        crate::text::is_ascii_text(content@) ==> r == mentions_any(crate::text::ascii_lowered(content@), archive_keywords()),
{
    let lower = to_lowercase(content);
    let kws: [&str; 4] = ["/save", "/archive", "\u{5f52}\u{6863}", "archive this"];
    assert(kws@.map_values(|k: &str| k@) =~= archive_keywords());
    contains_any(lower.as_str(), kws.as_slice())
}

/// Phrases that on their own ask for something to be put into the graph.
pub open spec fn graph_phrases() -> Seq<Seq<char>> {
    seq![
        "save to graph"@,
        "archive to graph"@,
        "generate graph"@,
        "create graph"@,
        "add to graph"@,
        "attach to graph"@,
        "mount to graph"@,
        "\u{5b58}\u{5230}\u{56fe}\u{8c31}"@,
        "\u{8bb0}\u{5f55}\u{5230}\u{56fe}\u{8c31}"@,
        "\u{751f}\u{6210}\u{56fe}\u{8c31}"@,
        "\u{521b}\u{5efa}\u{56fe}\u{8c31}"@,
        "\u{6302}\u{8f7d}\u{5230}\u{56fe}\u{8c31}"@,
        "\u{4fdd}\u{5b58}\u{56fe}\u{8c31}"@,
        "\u{90a3}\u{4f60}\u{751f}\u{6210}\u{56fe}\u{8c31}\u{554a}"@,
        "\u{5e2e}\u{6211}\u{751f}\u{6210}\u{56fe}\u{8c31}\u{5427}"@,
        "\u{5e2e}\u{6211}\u{6302}\u{8f7d}\u{5230}\u{56fe}\u{8c31}\u{4e0a}\u{53bb}"@,
    ]
}

/// Whole messages that are a short request for the graph.
pub open spec fn graph_shorthands() -> Seq<Seq<char>> {
    seq![
        "\u{56fe}\u{8c31}\u{5462}"@,
        "\u{77e5}\u{8bc6}\u{56fe}\u{8c31}\u{5462}"@,
        "graph?"@,
        "graph please"@,
    ]
}

/// Verbs that, next to a mention of the graph, make a request.
pub open spec fn graph_actions() -> Seq<Seq<char>> {
    seq![
        "\u{751f}\u{6210}"@,
        "\u{521b}\u{5efa}"@,
        "\u{6574}\u{7406}"@,
        "\u{63d0}\u{53d6}"@,
        "\u{6302}\u{8f7d}"@,
        "\u{4fdd}\u{5b58}"@,
        "\u{8f6c}\u{6210}"@,
        "\u{53d8}\u{6210}"@,
        "generate"@,
        "create"@,
        "build"@,
        "attach"@,
        "save"@,
    ]
}

/// Words that mention the graph.
pub open spec fn graph_words() -> Seq<Seq<char>> {
    seq!["\u{56fe}\u{8c31}"@, "\u{77e5}\u{8bc6}\u{56fe}\u{8c31}"@, "graph"@]
}

/// When a message asks for content to go into the knowledge graph, with `l`
/// its lowercase form: it contains a graph phrase; or, trimmed, it is a
/// shorthand request; or, trimmed, it mentions the graph together with an
/// action verb.
pub open spec fn is_graph_request(l: Seq<char>) -> bool {
    ||| mentions_any(l, graph_phrases())
    ||| is_one_of(trim(l), graph_shorthands())
    ||| (mentions_any(trim(l), graph_words()) && mentions_any(trim(l), graph_actions()))
}

/// Whether a message asks for content to be put into the knowledge graph.
pub fn detect_graph_intent(content: &str) -> (r: bool)
    ensures
        r == is_graph_request(lowercase_of(content@)),
        crate::text::is_ascii_text(content@) ==> r == is_graph_request(crate::text::ascii_lowered(content@)),
{
    let lower = to_lowercase(content);
    let phrases: [&str; 16] = [
        "save to graph",
        "archive to graph",
        "generate graph",
        "create graph",
        "add to graph",
        "attach to graph",
        "mount to graph",
        "\u{5b58}\u{5230}\u{56fe}\u{8c31}",
        "\u{8bb0}\u{5f55}\u{5230}\u{56fe}\u{8c31}",
        "\u{751f}\u{6210}\u{56fe}\u{8c31}",
        "\u{521b}\u{5efa}\u{56fe}\u{8c31}",
        "\u{6302}\u{8f7d}\u{5230}\u{56fe}\u{8c31}",
        "\u{4fdd}\u{5b58}\u{56fe}\u{8c31}",
        "\u{90a3}\u{4f60}\u{751f}\u{6210}\u{56fe}\u{8c31}\u{554a}",
        "\u{5e2e}\u{6211}\u{751f}\u{6210}\u{56fe}\u{8c31}\u{5427}",
        "\u{5e2e}\u{6211}\u{6302}\u{8f7d}\u{5230}\u{56fe}\u{8c31}\u{4e0a}\u{53bb}",
    ];
    assert(phrases@.map_values(|k: &str| k@) =~= graph_phrases());
    if contains_any(lower.as_str(), phrases.as_slice()) {
        return true;
    }
    let trimmed = crate::text::str_trim(lower.as_str());
    let shorthands: [&str; 4] = [
        "\u{56fe}\u{8c31}\u{5462}",
        "\u{77e5}\u{8bc6}\u{56fe}\u{8c31}\u{5462}",
        "graph?",
        "graph please",
    ];
    assert(shorthands@.map_values(|k: &str| k@) =~= graph_shorthands());
    if equals_any(trimmed.as_str(), shorthands.as_slice()) {
        return true;
    }
    let actions: [&str; 13] = [
        "\u{751f}\u{6210}",
        "\u{521b}\u{5efa}",
        "\u{6574}\u{7406}",
        "\u{63d0}\u{53d6}",
        "\u{6302}\u{8f7d}",
        "\u{4fdd}\u{5b58}",
        "\u{8f6c}\u{6210}",
        "\u{53d8}\u{6210}",
        "generate",
        "create",
        "build",
        "attach",
        "save",
    ];
    assert(actions@.map_values(|k: &str| k@) =~= graph_actions());
    let graph_kws: [&str; 3] = ["\u{56fe}\u{8c31}", "\u{77e5}\u{8bc6}\u{56fe}\u{8c31}", "graph"];
    assert(graph_kws@.map_values(|k: &str| k@) =~= graph_words());
    contains_any(trimmed.as_str(), graph_kws.as_slice()) && contains_any(
        trimmed.as_str(),
        actions.as_slice(),
    )
}

// ---------------------------------------------------------------------------
// Compacting the history
// ---------------------------------------------------------------------------

/// From how many stored messages on the history is compacted automatically.
pub const COMPACT_THRESHOLD: usize = 30;

/// The length, in tokens, asked of a history summary.
pub const COMPACT_SUMMARY_MAX_TOKENS: usize = 500;

/// How many of the oldest messages automatic compaction summarises: all but
/// the ten newest, once there are at least thirty; none before.
pub fn auto_compact_count(stored: usize) -> (r: Option<usize>)
    ensures
        stored < 30 ==> r is None,
        stored >= 30 ==> r == Some((stored - 10) as usize),
{
    if stored < COMPACT_THRESHOLD {
        None
    } else {
        Some(stored - 10)
    }
}

/// The outcome of compacting a history: the summary (or why there is none)
/// and how many messages it replaced.
pub struct CompactResult {
    pub summary: String,
    pub removed_count: usize,
}

/// What a compaction asked for by the user does: summarise all but the two
/// newest messages, or answer at once when there are too few.
pub enum CompactPlan {
    /// Summarise this many of the oldest messages.
    Summarise(usize),
    /// Nothing to summarise; this is the answer.
    Done(CompactResult),
}

/// The plan of a compaction asked for by the user, given how many messages
/// are stored.
pub fn compact_plan(stored: usize) -> (r: CompactPlan)
    ensures
        stored == 0 ==> (r matches CompactPlan::Done(c) && c.summary@ == "No messages to compact."@
            && c.removed_count == 0),
        1 <= stored <= 2 ==> (r matches CompactPlan::Done(c) && c.summary@
            == "Too few messages to compact."@ && c.removed_count == 0),
        stored > 2 ==> r == CompactPlan::Summarise((stored - 2) as usize),
{
    if stored == 0 {
        CompactPlan::Done(CompactResult { summary: owned("No messages to compact."), removed_count: 0 })
    } else if stored <= 2 {
        CompactPlan::Done(CompactResult { summary: owned("Too few messages to compact."), removed_count: 0 })
    } else {
        CompactPlan::Summarise(stored - 2)
    }
}

/// The answer once a compaction of `count` messages ran: the summary and the
/// count, or, when nothing was summarised, that there was nothing to do.
pub fn compact_result(count: usize, summary: Option<String>) -> (r: CompactResult)
    ensures
        summary matches Some(s) ==> r.summary == s && r.removed_count == count,
        summary is None ==> r.summary@ == "No messages to compact."@ && r.removed_count == 0,
{
    match summary {
        Some(s) => CompactResult { summary: s, removed_count: count },
        None => CompactResult { summary: owned("No messages to compact."), removed_count: 0 },
    }
}

/// A stored chat message, as the chat logic reads it.
pub struct MessageLine {
    pub id: String,
    pub role: String,
    pub sender_name: String,
    pub content: String,
}

/// The `k` oldest of messages listed newest first, oldest first.
pub open spec fn oldest_first(newest_first: Seq<MessageLine>, k: int) -> Seq<MessageLine> {
    newest_first.reverse().take(k)
}

/// The `k` oldest of messages listed newest first, oldest first.
pub fn oldest_messages(newest_first: &Vec<MessageLine>, k: usize) -> (r: Vec<&MessageLine>)
    requires
        k <= newest_first@.len(),
    ensures
        r@.len() == k,
        forall|i: int| 0 <= i < k ==> *(#[trigger] r@[i]) == newest_first@[newest_first@.len() - 1 - i],
{
    let mut r: Vec<&MessageLine> = Vec::new();
    let n = newest_first.len();
    let mut i: usize = 0;
    while i < k
        invariant
            i <= k <= n,
            n == newest_first@.len(),
            r@.len() == i,
            forall|j: int| 0 <= j < i ==> *(#[trigger] r@[j]) == newest_first@[n - 1 - j],
        decreases k - i,
    {
        r.push(&newest_first[n - 1 - i]);
        i += 1;
    }
    r
}

pub open spec fn message_entry(m: MessageLine) -> Seq<char> {
    m.sender_name@ + ": "@ + m.content@
}

/// The text of the messages to summarise: `sender: content` each, separated
/// by blank lines.
pub fn compact_transcript(messages: &Vec<&MessageLine>) -> (r: String)
    ensures
        r@ == join(messages@.map_values(|m: &MessageLine| message_entry(*m)), "\n\n"@),
{
    let mut parts: Vec<Vec<char>> = Vec::new();
    let mut i: usize = 0;
    while i < messages.len()
        invariant
            i <= messages@.len(),
            parts@.map_values(|w: Vec<char>| w@) == messages@.take(i as int).map_values(
                |m: &MessageLine| message_entry(*m),
            ),
        decreases messages@.len() - i,
    {
        let m = messages[i];
        let mut line = owned(m.sender_name.as_str());
        push_str(&mut line, ": ");
        push_str(&mut line, m.content.as_str());
        let ghost before = parts@;
        parts.push(chars_of(line.as_str()));
        proof {
            let f = |w: Vec<char>| w@;
            let g = |m: &MessageLine| message_entry(*m);
            assert(parts@.map_values(f) =~= before.map_values(f).push(message_entry(*messages@[i as int])));
            assert(messages@.take(i + 1).map_values(g) =~= messages@.take(i as int).map_values(g).push(
                message_entry(*messages@[i as int]),
            ));
        }
        i += 1;
    }
    proof {
        assert(messages@.take(messages@.len() as int) =~= messages@);
    }
    let sep = vec!['\n', '\n'];
    proof {
        reveal_strlit("\n\n");
        assert(sep@ =~= "\n\n"@);
    }
    let joined = join_chars(&parts, sep.as_slice());
    string_of(joined.as_slice())
}

/// The stored message that replaces a compacted history.
pub fn summary_message(summary: &str) -> (r: String)
    ensures
        r@ == "[鍘嗗彶鎽樿\u{e6e6}] "@ + summary@,
{
    let mut r = owned("[鍘嗗彶鎽樿\u{e6e6}] ");
    push_str(&mut r, summary);
    r
}

// ---------------------------------------------------------------------------
// The history and the prompt of a chat turn
// ---------------------------------------------------------------------------

/// The history given to the model: the messages oldest first, without
/// system messages, as (role, content).
pub open spec fn history_of(newest_first: Seq<MessageLine>) -> Seq<(Seq<char>, Seq<char>)>
    decreases newest_first.len(),
{
    if newest_first.len() == 0 {
        Seq::empty()
    } else {
        let m = newest_first[0];
        let rest = history_of(newest_first.drop_first());
        if m.role@ == "system"@ {
            rest
        } else {
            rest.push((m.role@, m.content@))
        }
    }
}

pub open spec fn pair_texts(v: Seq<(String, String)>) -> Seq<(Seq<char>, Seq<char>)> {
    v.map_values(|p: (String, String)| (p.0@, p.1@))
}

/// The history given to the model (see `history_of`).
pub fn history_context(newest_first: &Vec<MessageLine>) -> (r: Vec<(String, String)>)
    ensures
        pair_texts(r@) == history_of(newest_first@),
{
    let mut r: Vec<(String, String)> = Vec::new();
    let n = newest_first.len();
    let mut i: usize = n;
    proof {
        assert(newest_first@.skip(n as int) =~= Seq::<MessageLine>::empty());
    }
    while i > 0
        invariant
            i <= n == newest_first@.len(),
            pair_texts(r@) == history_of(newest_first@.skip(i as int)),
        decreases i,
    {
        i -= 1;
        let m = &newest_first[i];
        let ghost before = r@;
        proof {
            assert(newest_first@.skip(i as int).drop_first() =~= newest_first@.skip(i + 1));
            assert(newest_first@.skip(i as int)[0] == newest_first@[i as int]);
        }
        if !str_eq(m.role.as_str(), "system") {
            r.push((m.role.clone(), m.content.clone()));
            proof {
                let f = |p: (String, String)| (p.0@, p.1@);
                assert(r@.map_values(f) =~= before.map_values(f).push((m.role@, m.content@)));
            }
        }
    }
    proof {
        assert(newest_first@.skip(0) =~= newest_first@);
    }
    r
}

/// Everything a chat turn is started from.
pub struct ChatParams<'a> {
    pub ring_id: Option<&'a str>,
    pub role_description: Option<&'a str>,
    pub ring_name: Option<&'a str>,
    pub ai_role: &'a str,
    pub content: &'a str,
    pub node_refs: Vec<String>,
    pub tag_refs: Vec<String>,
    pub ephemeral: bool,
}

/// Whether a turn uses a ring's prompt with its group documents: when both
/// the ring's name and id are known.
pub fn uses_group_prompt(params: &ChatParams) -> (r: bool)
    ensures
        r == (params.ring_name is Some && params.ring_id is Some),
{
    params.ring_name.is_some() && params.ring_id.is_some()
}

/// Whether a turn is stored and sees the history: ephemeral turns are not
/// stored and start without history.
pub fn keeps_history(params: &ChatParams) -> (r: bool)
    ensures
        r == !params.ephemeral,
{
    !params.ephemeral
}

/// The group documents that go into a ring's system prompt: each one with
/// content that is not blank, under its name.
pub open spec fn doc_section(content: Option<String>, name: Seq<char>) -> Seq<char> {
    match content {
        Some(c) => if trim(c@).len() > 0 {
            "### "@ + name + "\n"@ + c@ + "\n\n"@
        } else {
            Seq::empty()
        },
        None => Seq::empty(),
    }
}

/// Formats a group of documents (see `doc_section`).
pub fn format_doc_ctx(docs: &Vec<(Option<String>, &str)>) -> (r: String)
    ensures
        r@ == concat_all(docs@.map_values(|d: (Option<String>, &str)| doc_section(d.0, d.1@))),
{
    let mut r = String::new();
    let mut i: usize = 0;
    while i < docs.len()
        invariant
            i <= docs@.len(),
            r@ == concat_all(docs@.take(i as int).map_values(|d: (Option<String>, &str)| doc_section(d.0, d.1@))),
        decreases docs@.len() - i,
    {
        let ghost before = r@;
        match &docs[i].0 {
            Some(c) => {
                if !is_blank(c.as_str()) {
                    push_str(&mut r, "### ");
                    push_str(&mut r, docs[i].1);
                    push_str(&mut r, "\n");
                    push_str(&mut r, c.as_str());
                    push_str(&mut r, "\n\n");
                } else {
                    proof {
                        assert(before + Seq::<char>::empty() =~= before);
                    }
                }
            },
            None => {
                proof {
                    assert(before + Seq::<char>::empty() =~= before);
                }
            },
        }
        proof {
            let f = |d: (Option<String>, &str)| doc_section(d.0, d.1@);
            assert(docs@.take(i + 1).map_values(f) =~= docs@.take(i as int).map_values(f).push(
                doc_section(docs@[i as int].0, docs@[i as int].1@),
            ));
            lemma_concat_all_push(docs@.take(i as int).map_values(f), doc_section(docs@[i as int].0, docs@[i as int].1@));
        }
        i += 1;
    }
    proof {
        assert(docs@.take(docs@.len() as int) =~= docs@);
    }
    r
}

/// The extra context of a ring's system prompt: the core documents under
/// their heading, the extended ones under theirs, then the attached
/// documents after a blank line.
pub open spec fn group_extra(core: Seq<char>, extended: Seq<char>, attached: Seq<char>) -> Seq<char> {
    let e1 = if core.len() > 0 {
        "## Group Context (Core)\n\n"@ + core
    } else {
        Seq::empty()
    };
    let e2 = if extended.len() > 0 {
        e1 + "## Group Context (Extended)\n\n"@ + extended
    } else {
        e1
    };
    if attached.len() > 0 {
        if e2.len() > 0 {
            e2 + "\n\n"@ + attached
        } else {
            attached
        }
    } else {
        e2
    }
}

/// A ring's system prompt: its base prompt, and, when there is any, the
/// extra context after a blank line.
pub fn group_prompt(base: String, core: &str, extended: &str, attached: &str) -> (r: String)
    ensures
        group_extra(core@, extended@, attached@).len() == 0 ==> r@ == base@,
        group_extra(core@, extended@, attached@).len() > 0 ==> r@ == base@ + "\n\n"@ + group_extra(
            core@,
            extended@,
            attached@,
        ),
{
    let mut extra = String::new();
    if !core.is_empty() {
        push_str(&mut extra, "## Group Context (Core)\n\n");
        push_str(&mut extra, core);
    }
    if !extended.is_empty() {
        push_str(&mut extra, "## Group Context (Extended)\n\n");
        push_str(&mut extra, extended);
    }
    if !attached.is_empty() {
        if !extra.as_str().is_empty() {
            push_str(&mut extra, "\n\n");
        }
        push_str(&mut extra, attached);
    }
    if extra.as_str().is_empty() {
        base
    } else {
        let mut r = base;
        push_str(&mut r, "\n\n");
        push_str(&mut r, extra.as_str());
        r
    }
}

/// The personal prompt with the sections that are not empty, each after a
/// blank line.
pub open spec fn with_sections(prompt: Seq<char>, sections: Seq<Seq<char>>) -> Seq<char> {
    let kept = sections.filter(|s: Seq<char>| s.len() > 0);
    if kept.len() == 0 {
        prompt
    } else {
        prompt + "\n\n"@ + join(kept, "\n\n"@)
    }
}

/// A document attached to a graph node, resolved.
pub struct AttachedDoc {
    pub title: String,
    pub doc_type: String,
    pub content: String,
}

pub open spec fn attached_doc_text(d: AttachedDoc) -> Seq<char> {
    "#### "@ + d.title@ + " ("@ + d.doc_type@ + ")\n"@ + d.content@ + "\n\n"@
}

/// The section of a node's attached documents, when any could be read.
pub fn node_docs_section(label: &str, docs: &Vec<AttachedDoc>) -> (r: Option<String>)
    ensures
        docs@.len() == 0 ==> r is None,
        docs@.len() > 0 ==> (r matches Some(s) && s@ == "### Node: "@ + label@ + "\n\n"@ + concat_all(
            docs@.map_values(|d: AttachedDoc| attached_doc_text(d)),
        )),
{
    if docs.len() == 0 {
        return None;
    }
    let mut r = owned("### Node: ");
    push_str(&mut r, label);
    push_str(&mut r, "\n\n");
    let ghost head = r@;
    let mut i: usize = 0;
    while i < docs.len()
        invariant
            i <= docs@.len(),
            r@ == head + concat_all(docs@.take(i as int).map_values(|d: AttachedDoc| attached_doc_text(d))),
        decreases docs@.len() - i,
    {
        let d = &docs[i];
        push_str(&mut r, "#### ");
        push_str(&mut r, d.title.as_str());
        push_str(&mut r, " (");
        push_str(&mut r, d.doc_type.as_str());
        push_str(&mut r, ")\n");
        push_str(&mut r, d.content.as_str());
        push_str(&mut r, "\n\n");
        proof {
            let f = |x: AttachedDoc| attached_doc_text(x);
            assert(docs@.take(i + 1).map_values(f) =~= docs@.take(i as int).map_values(f).push(
                attached_doc_text(docs@[i as int]),
            ));
            lemma_concat_all_push(docs@.take(i as int).map_values(f), attached_doc_text(docs@[i as int]));
        }
        i += 1;
    }
    proof {
        assert(docs@.take(docs@.len() as int) =~= docs@);
    }
    Some(r)
}

/// The attached-documents block of a ring's prompt: the nodes' sections one
/// per line, wrapped; empty without sections.
pub fn attached_docs_block(sections: &Vec<Vec<char>>) -> (r: String)
    ensures
        sections@.len() == 0 ==> r@.len() == 0,
        sections@.len() > 0 ==> r@ == "<attached_docs>\n"@ + join(
            sections@.map_values(|w: Vec<char>| w@),
            "\n"@,
        ) + "\n</attached_docs>"@,
{
    if sections.len() == 0 {
        return String::new();
    }
    let mut r = owned("<attached_docs>\n");
    let nl = vec!['\n'];
    proof {
        reveal_strlit("\n");
        assert(nl@ =~= "\n"@);
    }
    let joined = join_chars(sections, nl.as_slice());
    push_chars(&mut r, joined.as_slice());
    push_str(&mut r, "\n</attached_docs>");
    r
}

// ---------------------------------------------------------------------------
// Recent activity in the personal prompt
// ---------------------------------------------------------------------------

/// How a recent message of the most active ring is recalled: who sent it
/// and its content, cut to 100 characters when longer than 100 bytes.
pub open spec fn activity_line(m: MessageLine) -> Seq<char> {
    let sender = if m.role@ == "user"@ {
        "鐢ㄦ埛"@
    } else {
        "AI"@
    };
    let content = if utf8_len(m.content@) > 100 {
        m.content@.take(if m.content@.len() < 100 { m.content@.len() as int } else { 100 }) + "..."@
    } else {
        m.content@
    };
    "- "@ + sender + ": "@ + content
}

/// The line recalling one recent message (see `activity_line`).
pub fn activity_entry(m: &MessageLine) -> (r: String)
    ensures
        r@ == activity_line(*m),
{
    let mut r = owned("- ");
    if str_eq(m.role.as_str(), "user") {
        push_str(&mut r, "鐢ㄦ埛");
    } else {
        push_str(&mut r, "AI");
    }
    push_str(&mut r, ": ");
    let cs = chars_of(m.content.as_str());
    if utf8_len_exceeds(cs.as_slice(), 100) {
        let head = take_chars(cs.as_slice(), 100);
        push_chars(&mut r, head.as_slice());
        push_str(&mut r, "...");
    } else {
        push_str(&mut r, m.content.as_str());
    }
    r
}

/// The recent-activity section: the most active ring's name and, when
/// there are any, the recalled messages one per line.
pub fn recent_activity(ring_name: &str, lines: &Vec<Vec<char>>) -> (r: String)
    ensures
        lines@.len() == 0 ==> r@ == "<recent_activity>\n## 鏈€杩戞椿鍔╘n- 娲昏穬 Ring: "@ + ring_name@
            + "\n</recent_activity>"@,
        lines@.len() > 0 ==> r@ == "<recent_activity>\n## 鏈€杩戞椿鍔╘n- 娲昏穬 Ring: "@ + ring_name@
            + "\n- 鏈€杩戣\u{e17f}璁?\n"@ + join(lines@.map_values(|w: Vec<char>| w@), "\n"@)
            + "\n</recent_activity>"@,
{
    let mut r = owned("<recent_activity>\n## 鏈€杩戞椿鍔╘n- 娲昏穬 Ring: ");
    push_str(&mut r, ring_name);
    if lines.len() == 0 {
        push_str(&mut r, "\n</recent_activity>");
    } else {
        push_str(&mut r, "\n- 鏈€杩戣\u{e17f}璁?\n");
        let nl = vec!['\n'];
        proof {
            reveal_strlit("\n");
            assert(nl@ =~= "\n"@);
        }
        let joined = join_chars(lines, nl.as_slice());
        push_chars(&mut r, joined.as_slice());
        push_str(&mut r, "\n</recent_activity>");
    }
    r
}

// ---------------------------------------------------------------------------
// Group tools
// ---------------------------------------------------------------------------

/// The tools a ring's assistant offers, by name.
pub open spec fn group_tool_names() -> Seq<Seq<char>> {
    seq!["file_parse"@, "knowledge_extract"@, "fetch_url"@]
}

/// The tools a ring's assistant may call.
#[derive(PartialEq, Eq, Structural, Clone, Copy, Debug)]
pub enum GroupTool {
    FileParse,
    KnowledgeExtract,
    FetchUrl,
}

/// A string parameter without a fixed set of values.
fn free_param(name: &'static str, description: &'static str, required: bool) -> (p: ToolParam)
    ensures
        param_is(p, name@, description@, Seq::<Seq<char>>::empty(), required),
{
    let choices: Vec<&'static str> = Vec::new();
    proof {
        assert(choices@.map_values(|c: &'static str| c@) =~= Seq::<Seq<char>>::empty());
    }
    ToolParam { name, description, choices, required }
}

/// The tools offered to a ring's assistant, in the order of
/// `group_tool_names`: each takes string parameters, the first of them
/// required.
pub fn get_group_ring_tools() -> (r: Vec<ToolSpec>)
    ensures
        r@.len() == 3,
        forall|i: int| 0 <= i < 3 ==> (#[trigger] r@[i]).name@ == group_tool_names()[i],
        r@[0].description@ == "Parse an uploaded file and extract structured knowledge. Recommend graph nodes."@,
        r@[0].params@.len() == 2,
        param_is(r@[0].params@[0], "file_reference"@, "The message_id of the file upload message"@, seq![], true),
        param_is(r@[0].params@[1], "focus"@, "Optional focus area for extraction"@, seq![], false),
        r@[1].description@ == "Extract knowledge concepts from text and generate graph node recommendations."@,
        r@[1].params@.len() == 2,
        param_is(r@[1].params@[0], "content"@, "Text or topic to extract knowledge from"@, seq![], true),
        param_is(r@[1].params@[1], "target_graph"@, "Optional target graph name"@, seq![], false),
        r@[2].description@ == "Fetch and extract text content from a web page URL. Use for research and gathering information from the web."@,
        r@[2].params@.len() == 2,
        param_is(r@[2].params@[0], "url"@, "The HTTP/HTTPS URL to fetch"@, seq![], true),
        param_is(r@[2].params@[1], "focus"@, "Optional focus area to highlight in the extracted content"@, seq![], false),
{
    let mut r: Vec<ToolSpec> = Vec::new();
    let mut params: Vec<ToolParam> = Vec::new();
    params.push(free_param("file_reference", "The message_id of the file upload message", true));
    params.push(free_param("focus", "Optional focus area for extraction", false));
    r.push(ToolSpec { name: "file_parse", description: "Parse an uploaded file and extract structured knowledge. Recommend graph nodes.", params });
    let mut params: Vec<ToolParam> = Vec::new();
    params.push(free_param("content", "Text or topic to extract knowledge from", true));
    params.push(free_param("target_graph", "Optional target graph name", false));
    r.push(ToolSpec { name: "knowledge_extract", description: "Extract knowledge concepts from text and generate graph node recommendations.", params });
    let mut params: Vec<ToolParam> = Vec::new();
    params.push(free_param("url", "The HTTP/HTTPS URL to fetch", true));
    params.push(free_param("focus", "Optional focus area to highlight in the extracted content", false));
    r.push(ToolSpec { name: "fetch_url", description: "Fetch and extract text content from a web page URL. Use for research and gathering information from the web.", params });
    proof {
        reveal_strlit("file_parse");
        reveal_strlit("knowledge_extract");
        reveal_strlit("fetch_url");
        assert(r@[0].name@ == group_tool_names()[0]);
        assert(r@[1].name@ == group_tool_names()[1]);
        assert(r@[2].name@ == group_tool_names()[2]);
    }
    r
}

/// The tool that a call names; any other name is refused.
pub fn group_tool(name: &str) -> (r: Result<GroupTool, RingError>)
    ensures
        r is Ok <==> group_tool_names().contains(name@),
        r matches Ok(t) ==> group_tool_names()[match t {
            GroupTool::FileParse => 0int,
            GroupTool::KnowledgeExtract => 1int,
            GroupTool::FetchUrl => 2int,
        }] == name@,
        r matches Err(e) ==> e matches RingError::BadRequest(m) && m@ == "unknown tool: "@ + name@,
{
    let r = if str_eq(name, "file_parse") {
        Ok(GroupTool::FileParse)
    } else if str_eq(name, "knowledge_extract") {
        Ok(GroupTool::KnowledgeExtract)
    } else if str_eq(name, "fetch_url") {
        Ok(GroupTool::FetchUrl)
    } else {
        let mut m = owned("unknown tool: ");
        push_str(&mut m, name);
        Err(RingError::BadRequest(m))
    };
    proof {
        let names = group_tool_names();
        match r {
            Ok(GroupTool::FileParse) => assert(names[0] == name@),
            Ok(GroupTool::KnowledgeExtract) => assert(names[1] == name@),
            Ok(GroupTool::FetchUrl) => assert(names[2] == name@),
            Err(_) => {
                assert forall|i: int| 0 <= i < names.len() implies names[i] != name@ by {}
            },
        }
    }
    r
}

proof fn lemma_graph_phrases_listed(s: Seq<char>)
    ensures
        mentions_any(s, graph_phrases()) <==> (
            contains(s, "save to graph"@)
            || contains(s, "archive to graph"@)
            || contains(s, "generate graph"@)
            || contains(s, "create graph"@)
            || contains(s, "add to graph"@)
            || contains(s, "attach to graph"@)
            || contains(s, "mount to graph"@)
            || contains(s, "\u{5b58}\u{5230}\u{56fe}\u{8c31}"@)
            || contains(s, "\u{8bb0}\u{5f55}\u{5230}\u{56fe}\u{8c31}"@)
            || contains(s, "\u{751f}\u{6210}\u{56fe}\u{8c31}"@)
            || contains(s, "\u{521b}\u{5efa}\u{56fe}\u{8c31}"@)
            || contains(s, "\u{6302}\u{8f7d}\u{5230}\u{56fe}\u{8c31}"@)
            || contains(s, "\u{4fdd}\u{5b58}\u{56fe}\u{8c31}"@)
            || contains(s, "\u{90a3}\u{4f60}\u{751f}\u{6210}\u{56fe}\u{8c31}\u{554a}"@)
            || contains(s, "\u{5e2e}\u{6211}\u{751f}\u{6210}\u{56fe}\u{8c31}\u{5427}"@)
            || contains(s, "\u{5e2e}\u{6211}\u{6302}\u{8f7d}\u{5230}\u{56fe}\u{8c31}\u{4e0a}\u{53bb}"@)
        ),
{
    let kws = graph_phrases();
    if mentions_any(s, kws) {
        let i = choose|i: int| 0 <= i < kws.len() && contains(s, #[trigger] kws[i]);
        if i == 0 {} else if i == 1 {} else if i == 2 {} else if i == 3 {} else if i == 4 {} else if i == 5 {} else if i == 6 {} else if i == 7 {} else if i == 8 {} else if i == 9 {} else if i == 10 {} else if i == 11 {} else if i == 12 {} else if i == 13 {} else if i == 14 {} else if i == 15 {}
    }
    if contains(s, "save to graph"@) { assert(graph_phrases()[0] == "save to graph"@); }
    if contains(s, "archive to graph"@) { assert(graph_phrases()[1] == "archive to graph"@); }
    if contains(s, "generate graph"@) { assert(graph_phrases()[2] == "generate graph"@); }
    if contains(s, "create graph"@) { assert(graph_phrases()[3] == "create graph"@); }
    if contains(s, "add to graph"@) { assert(graph_phrases()[4] == "add to graph"@); }
    if contains(s, "attach to graph"@) { assert(graph_phrases()[5] == "attach to graph"@); }
    if contains(s, "mount to graph"@) { assert(graph_phrases()[6] == "mount to graph"@); }
    if contains(s, "\u{5b58}\u{5230}\u{56fe}\u{8c31}"@) { assert(graph_phrases()[7] == "\u{5b58}\u{5230}\u{56fe}\u{8c31}"@); }
    if contains(s, "\u{8bb0}\u{5f55}\u{5230}\u{56fe}\u{8c31}"@) { assert(graph_phrases()[8] == "\u{8bb0}\u{5f55}\u{5230}\u{56fe}\u{8c31}"@); }
    if contains(s, "\u{751f}\u{6210}\u{56fe}\u{8c31}"@) { assert(graph_phrases()[9] == "\u{751f}\u{6210}\u{56fe}\u{8c31}"@); }
    if contains(s, "\u{521b}\u{5efa}\u{56fe}\u{8c31}"@) { assert(graph_phrases()[10] == "\u{521b}\u{5efa}\u{56fe}\u{8c31}"@); }
    if contains(s, "\u{6302}\u{8f7d}\u{5230}\u{56fe}\u{8c31}"@) { assert(graph_phrases()[11] == "\u{6302}\u{8f7d}\u{5230}\u{56fe}\u{8c31}"@); }
    if contains(s, "\u{4fdd}\u{5b58}\u{56fe}\u{8c31}"@) { assert(graph_phrases()[12] == "\u{4fdd}\u{5b58}\u{56fe}\u{8c31}"@); }
    if contains(s, "\u{90a3}\u{4f60}\u{751f}\u{6210}\u{56fe}\u{8c31}\u{554a}"@) { assert(graph_phrases()[13] == "\u{90a3}\u{4f60}\u{751f}\u{6210}\u{56fe}\u{8c31}\u{554a}"@); }
    if contains(s, "\u{5e2e}\u{6211}\u{751f}\u{6210}\u{56fe}\u{8c31}\u{5427}"@) { assert(graph_phrases()[14] == "\u{5e2e}\u{6211}\u{751f}\u{6210}\u{56fe}\u{8c31}\u{5427}"@); }
    if contains(s, "\u{5e2e}\u{6211}\u{6302}\u{8f7d}\u{5230}\u{56fe}\u{8c31}\u{4e0a}\u{53bb}"@) { assert(graph_phrases()[15] == "\u{5e2e}\u{6211}\u{6302}\u{8f7d}\u{5230}\u{56fe}\u{8c31}\u{4e0a}\u{53bb}"@); }
}

proof fn lemma_graph_shorthands_listed(s: Seq<char>)
    ensures
        is_one_of(s, graph_shorthands()) <==> (
            s == "\u{56fe}\u{8c31}\u{5462}"@
            || s == "\u{77e5}\u{8bc6}\u{56fe}\u{8c31}\u{5462}"@
            || s == "graph?"@
            || s == "graph please"@
        ),
{
    let kws = graph_shorthands();
    if is_one_of(s, kws) {
        let i = choose|i: int| 0 <= i < kws.len() && s == #[trigger] kws[i];
        if i == 0 {} else if i == 1 {} else if i == 2 {} else if i == 3 {}
    }
    if s == "\u{56fe}\u{8c31}\u{5462}"@ { assert(graph_shorthands()[0] == "\u{56fe}\u{8c31}\u{5462}"@); }
    if s == "\u{77e5}\u{8bc6}\u{56fe}\u{8c31}\u{5462}"@ { assert(graph_shorthands()[1] == "\u{77e5}\u{8bc6}\u{56fe}\u{8c31}\u{5462}"@); }
    if s == "graph?"@ { assert(graph_shorthands()[2] == "graph?"@); }
    if s == "graph please"@ { assert(graph_shorthands()[3] == "graph please"@); }
}

proof fn lemma_graph_words_listed(s: Seq<char>)
    ensures
        mentions_any(s, graph_words()) <==> (
            contains(s, "\u{56fe}\u{8c31}"@)
            || contains(s, "\u{77e5}\u{8bc6}\u{56fe}\u{8c31}"@)
            || contains(s, "graph"@)
        ),
{
    let kws = graph_words();
    if mentions_any(s, kws) {
        let i = choose|i: int| 0 <= i < kws.len() && contains(s, #[trigger] kws[i]);
        if i == 0 {} else if i == 1 {} else if i == 2 {}
    }
    if contains(s, "\u{56fe}\u{8c31}"@) { assert(graph_words()[0] == "\u{56fe}\u{8c31}"@); }
    if contains(s, "\u{77e5}\u{8bc6}\u{56fe}\u{8c31}"@) { assert(graph_words()[1] == "\u{77e5}\u{8bc6}\u{56fe}\u{8c31}"@); }
    if contains(s, "graph"@) { assert(graph_words()[2] == "graph"@); }
}

proof fn lemma_graph_actions_listed(s: Seq<char>)
    ensures
        mentions_any(s, graph_actions()) <==> (
            contains(s, "\u{751f}\u{6210}"@)
            || contains(s, "\u{521b}\u{5efa}"@)
            || contains(s, "\u{6574}\u{7406}"@)
            || contains(s, "\u{63d0}\u{53d6}"@)
            || contains(s, "\u{6302}\u{8f7d}"@)
            || contains(s, "\u{4fdd}\u{5b58}"@)
            || contains(s, "\u{8f6c}\u{6210}"@)
            || contains(s, "\u{53d8}\u{6210}"@)
            || contains(s, "generate"@)
            || contains(s, "create"@)
            || contains(s, "build"@)
            || contains(s, "attach"@)
            || contains(s, "save"@)
        ),
{
    let kws = graph_actions();
    if mentions_any(s, kws) {
        let i = choose|i: int| 0 <= i < kws.len() && contains(s, #[trigger] kws[i]);
        if i == 0 {} else if i == 1 {} else if i == 2 {} else if i == 3 {} else if i == 4 {} else if i == 5 {} else if i == 6 {} else if i == 7 {} else if i == 8 {} else if i == 9 {} else if i == 10 {} else if i == 11 {} else if i == 12 {}
    }
    if contains(s, "\u{751f}\u{6210}"@) { assert(graph_actions()[0] == "\u{751f}\u{6210}"@); }
    if contains(s, "\u{521b}\u{5efa}"@) { assert(graph_actions()[1] == "\u{521b}\u{5efa}"@); }
    if contains(s, "\u{6574}\u{7406}"@) { assert(graph_actions()[2] == "\u{6574}\u{7406}"@); }
    if contains(s, "\u{63d0}\u{53d6}"@) { assert(graph_actions()[3] == "\u{63d0}\u{53d6}"@); }
    if contains(s, "\u{6302}\u{8f7d}"@) { assert(graph_actions()[4] == "\u{6302}\u{8f7d}"@); }
    if contains(s, "\u{4fdd}\u{5b58}"@) { assert(graph_actions()[5] == "\u{4fdd}\u{5b58}"@); }
    if contains(s, "\u{8f6c}\u{6210}"@) { assert(graph_actions()[6] == "\u{8f6c}\u{6210}"@); }
    if contains(s, "\u{53d8}\u{6210}"@) { assert(graph_actions()[7] == "\u{53d8}\u{6210}"@); }
    if contains(s, "generate"@) { assert(graph_actions()[8] == "generate"@); }
    if contains(s, "create"@) { assert(graph_actions()[9] == "create"@); }
    if contains(s, "build"@) { assert(graph_actions()[10] == "build"@); }
    if contains(s, "attach"@) { assert(graph_actions()[11] == "attach"@); }
    if contains(s, "save"@) { assert(graph_actions()[12] == "save"@); }
}

proof fn lemma_archive_keywords_listed(s: Seq<char>)
    ensures
        mentions_any(s, archive_keywords()) <==> (
            contains(s, "/save"@)
            || contains(s, "/archive"@)
            || contains(s, "\u{5f52}\u{6863}"@)
            || contains(s, "archive this"@)
        ),
{
    let kws = archive_keywords();
    if mentions_any(s, kws) {
        let i = choose|i: int| 0 <= i < kws.len() && contains(s, #[trigger] kws[i]);
        if i == 0 {} else if i == 1 {} else if i == 2 {} else if i == 3 {}
    }
    if contains(s, "/save"@) { assert(archive_keywords()[0] == "/save"@); }
    if contains(s, "/archive"@) { assert(archive_keywords()[1] == "/archive"@); }
    if contains(s, "\u{5f52}\u{6863}"@) { assert(archive_keywords()[2] == "\u{5f52}\u{6863}"@); }
    if contains(s, "archive this"@) { assert(archive_keywords()[3] == "archive this"@); }
}

/// A message is a graph request exactly when its lowercase form `l`
/// contains one of the graph phrases; or, trimmed, is one of the short
/// requests; or, trimmed, mentions the graph and an action.
pub proof fn law_graph_request_words(l: Seq<char>)
    ensures
        is_graph_request(l) <==> ((
            contains(l, "save to graph"@)
            || contains(l, "archive to graph"@)
            || contains(l, "generate graph"@)
            || contains(l, "create graph"@)
            || contains(l, "add to graph"@)
            || contains(l, "attach to graph"@)
            || contains(l, "mount to graph"@)
            || contains(l, "\u{5b58}\u{5230}\u{56fe}\u{8c31}"@)
            || contains(l, "\u{8bb0}\u{5f55}\u{5230}\u{56fe}\u{8c31}"@)
            || contains(l, "\u{751f}\u{6210}\u{56fe}\u{8c31}"@)
            || contains(l, "\u{521b}\u{5efa}\u{56fe}\u{8c31}"@)
            || contains(l, "\u{6302}\u{8f7d}\u{5230}\u{56fe}\u{8c31}"@)
            || contains(l, "\u{4fdd}\u{5b58}\u{56fe}\u{8c31}"@)
            || contains(l, "\u{90a3}\u{4f60}\u{751f}\u{6210}\u{56fe}\u{8c31}\u{554a}"@)
            || contains(l, "\u{5e2e}\u{6211}\u{751f}\u{6210}\u{56fe}\u{8c31}\u{5427}"@)
            || contains(l, "\u{5e2e}\u{6211}\u{6302}\u{8f7d}\u{5230}\u{56fe}\u{8c31}\u{4e0a}\u{53bb}"@)
        ) || (
            trim(l) == "\u{56fe}\u{8c31}\u{5462}"@
            || trim(l) == "\u{77e5}\u{8bc6}\u{56fe}\u{8c31}\u{5462}"@
            || trim(l) == "graph?"@
            || trim(l) == "graph please"@
        ) || ((
            contains(trim(l), "\u{56fe}\u{8c31}"@)
            || contains(trim(l), "\u{77e5}\u{8bc6}\u{56fe}\u{8c31}"@)
            || contains(trim(l), "graph"@)
        ) && (
            contains(trim(l), "\u{751f}\u{6210}"@)
            || contains(trim(l), "\u{521b}\u{5efa}"@)
            || contains(trim(l), "\u{6574}\u{7406}"@)
            || contains(trim(l), "\u{63d0}\u{53d6}"@)
            || contains(trim(l), "\u{6302}\u{8f7d}"@)
            || contains(trim(l), "\u{4fdd}\u{5b58}"@)
            || contains(trim(l), "\u{8f6c}\u{6210}"@)
            || contains(trim(l), "\u{53d8}\u{6210}"@)
            || contains(trim(l), "generate"@)
            || contains(trim(l), "create"@)
            || contains(trim(l), "build"@)
            || contains(trim(l), "attach"@)
            || contains(trim(l), "save"@)
        ))),
{
    lemma_graph_phrases_listed(l);
    lemma_graph_shorthands_listed(trim(l));
    lemma_graph_words_listed(trim(l));
    lemma_graph_actions_listed(trim(l));
}

/// A message asks for the conversation to be archived exactly when its
/// lowercase form `l` contains `/save`, `/archive`, `归档` or `archive this`.
pub proof fn law_archive_request_words(l: Seq<char>)
    ensures
        mentions_any(l, archive_keywords()) <==> (
            contains(l, "/save"@)
            || contains(l, "/archive"@)
            || contains(l, "\u{5f52}\u{6863}"@)
            || contains(l, "archive this"@)
        ),
{
    lemma_archive_keywords_listed(l);
}

} // verus!
