//! Conversations with a chat-completion model: the message list of a
//! request, the events streamed to the client, the assembly of tool calls
//! that arrive in fragments, and the decisions taken while a reply streams.
//!
//! The network exchange itself happens outside the library. A streaming
//! exchange is driven through `ChatStream`: the caller reports what the
//! model's stream did (opened, delivered a chunk, failed, ended) and performs
//! the actions that come back (send an event, run tools, finish).
use vstd::prelude::*;
use vstd::string::*;

use crate::error::RingError;
use crate::text::{owned, push_str, str_eq};

verus! {

// ---------------------------------------------------------------------------
// Streamed events
// ---------------------------------------------------------------------------

/// An event of a streamed reply, as the client receives it.
pub enum SseEvent {
    Start { message_id: String, role: String },
    Delta { content: String },
    End { message_id: String, full_content: String, token_usage: Option<String> },
    Error(String),
}

impl SseEvent {
    /// The name under which the event is sent on the event stream.
    pub fn event_name(&self) -> (r: &'static str)
        ensures
            r@ == match *self {
                SseEvent::Start { .. } => "message_start"@,
                SseEvent::Delta { .. } => "delta"@,
                SseEvent::End { .. } => "message_end"@,
                SseEvent::Error(_) => "error"@,
            },
    {
        match self {
            SseEvent::Start { .. } => "message_start",
            SseEvent::Delta { .. } => "delta",
            SseEvent::End { .. } => "message_end",
            SseEvent::Error(_) => "error",
        }
    }
}

/// The text that a sequence of events streams: its deltas, concatenated.
pub open spec fn streamed_text(events: Seq<SseEvent>) -> Seq<char>
    decreases events.len(),
{
    if events.len() == 0 {
        Seq::empty()
    } else {
        let prev = streamed_text(events.drop_last());
        match events.last() {
            SseEvent::Delta { content } => prev + content@,
            _ => prev,
        }
    }
}

proof fn lemma_streamed_push(events: Seq<SseEvent>, e: SseEvent)
    ensures
        streamed_text(events.push(e)) == match e {
            SseEvent::Delta { content } => streamed_text(events) + content@,
            _ => streamed_text(events),
        },
{
    assert(events.push(e).drop_last() == events);
}

/// The id of the last `Start` event of a sequence, if there is one.
pub open spec fn last_start_id(events: Seq<SseEvent>) -> Option<Seq<char>>
    decreases events.len(),
{
    if events.len() == 0 {
        None
    } else {
        match events.last() {
            SseEvent::Start { message_id, .. } => Some(message_id@),
            _ => last_start_id(events.drop_last()),
        }
    }
}

/// Collects what a relayed stream said: the id of the reply and its text.
pub struct StreamRelay {
    pub message_id: Option<String>,
    pub content: String,
    pub relayed: Ghost<Seq<SseEvent>>,
}

pub open spec fn opt_text(o: Option<String>) -> Option<Seq<char>> {
    match o {
        Some(s) => Some(s@),
        None => None,
    }
}

impl StreamRelay {
    /// What the relay knows after the events it has seen.
    pub open spec fn inv(&self) -> bool {
        &&& self.content@ == streamed_text(self.relayed@)
        &&& opt_text(self.message_id) == last_start_id(self.relayed@)
    }

    /// A relay that has seen nothing.
    pub fn new() -> (r: StreamRelay)
        ensures
            r.inv(),
            r.relayed@ == Seq::<SseEvent>::empty(),
    {
        StreamRelay { message_id: None, content: String::new(), relayed: Ghost(Seq::empty()) }
    }

    /// Takes note of one more event: a start gives the reply's id, a delta
    /// adds to its text.
    pub fn relay(&mut self, e: &SseEvent)
        requires
            old(self).inv(),
        ensures
            final(self).inv(),
            final(self).relayed@ == old(self).relayed@.push(*e),
    {
        proof {
            lemma_streamed_push(self.relayed@, *e);
            assert(self.relayed@.push(*e).drop_last() =~= self.relayed@);
        }
        match e {
            SseEvent::Start { message_id, .. } => {
                self.message_id = Some(message_id.clone());
            },
            SseEvent::Delta { content } => {
                push_str(&mut self.content, content.as_str());
            },
            _ => {},
        }
        self.relayed = Ghost(self.relayed@.push(*e));
    }
}

// ---------------------------------------------------------------------------
// Request messages
// ---------------------------------------------------------------------------

/// A tool call that the model asked for.
pub struct ToolCall {
    pub id: String,
    pub name: String,
    pub arguments: String,
}

/// A message of a chat-completion request.
pub enum ChatMessage {
    System(String),
    User(String),
    Assistant { content: String, tool_calls: Vec<ToolCall> },
    Tool { tool_call_id: String, content: String },
}

/// How one `(role, content)` entry of the history enters a request: as a
/// user message when the role is `user`, as an assistant message otherwise.
pub open spec fn history_entry(m: ChatMessage, role: Seq<char>, content: Seq<char>) -> bool {
    if role == "user"@ {
        m matches ChatMessage::User(c) && c@ == content
    } else {
        m matches ChatMessage::Assistant { content: c, tool_calls } && c@ == content
            && tool_calls@.len() == 0
    }
}

/// The messages of a request: the system prompt, the history in order, and
/// the user's new message.
pub fn build_messages(system_prompt: String, history: Vec<(String, String)>, user_message: String)
    -> (r: Vec<ChatMessage>)
    ensures
        r@.len() == history@.len() + 2,
        r@[0] matches ChatMessage::System(s) && s@ == system_prompt@,
        r@.last() matches ChatMessage::User(u) && u@ == user_message@,
        forall|i: int|
            0 <= i < history@.len() ==> history_entry(
                r@[i + 1],
                (#[trigger] history@[i]).0@,
                history@[i].1@,
            ),
{
    let mut r: Vec<ChatMessage> = Vec::new();
    r.push(ChatMessage::System(system_prompt));
    let mut i: usize = 0;
    while i < history.len()
        invariant
            i <= history@.len(),
            r@.len() == i + 1,
            r@[0] matches ChatMessage::System(s) && s@ == system_prompt@,
            forall|j: int|
                0 <= j < i ==> history_entry(r@[j + 1], (#[trigger] history@[j]).0@, history@[j].1@),
        decreases history@.len() - i,
    {
        let role = history[i].0.clone();
        let content = history[i].1.clone();
        let is_user = str_eq(role.as_str(), "user");
        if is_user {
            r.push(ChatMessage::User(content));
        } else {
            r.push(ChatMessage::Assistant { content, tool_calls: Vec::new() });
        }
        i += 1;
    }
    r.push(ChatMessage::User(user_message));
    r
}

/// Whether a message is the tool message answering call `id` with `answer`.
pub open spec fn is_tool_answer(m: ChatMessage, id: Seq<char>, answer: Seq<char>) -> bool {
    m matches ChatMessage::Tool { tool_call_id, content } && tool_call_id@ == id && content@
        == answer
}

/// Appends to a request the model's turn that asked for tools and one tool
/// message per call with what the tool answered, in the calls' order.
pub fn push_tool_round(
    messages: &mut Vec<ChatMessage>,
    content: String,
    calls: Vec<ToolCall>,
    results: Vec<String>,
)
    requires
        calls@.len() == results@.len(),
    ensures
        final(messages)@.len() == old(messages)@.len() + 1 + calls@.len(),
        final(messages)@.take(old(messages)@.len() as int) == old(messages)@,
        final(messages)@[old(messages)@.len() as int] matches ChatMessage::Assistant {
            content: c,
            tool_calls,
        } && c@ == content@ && tool_calls@ == calls@,
        forall|k: int|
            0 <= k < calls@.len() ==> is_tool_answer(
                final(messages)@[old(messages)@.len() + 1 + k],
                calls@[k].id@,
                (#[trigger] results@[k])@,
            ),
{
    let ghost start = messages@;
    let mut ids: Vec<String> = Vec::new();
    let mut i: usize = 0;
    while i < calls.len()
        invariant
            i <= calls@.len(),
            ids@.len() == i,
            forall|k: int| 0 <= k < i ==> (#[trigger] ids@[k])@ == calls@[k].id@,
        decreases calls@.len() - i,
    {
        ids.push(calls[i].id.clone());
        i += 1;
    }
    let ghost call_seq = calls@;
    messages.push(ChatMessage::Assistant { content, tool_calls: calls });
    let mut k: usize = 0;
    while k < results.len()
        invariant
            k <= results@.len(),
            results@.len() == ids@.len(),
            ids@.len() == call_seq.len(),
            forall|j: int| 0 <= j < ids@.len() ==> (#[trigger] ids@[j])@ == call_seq[j].id@,
            messages@.len() == start.len() + 1 + k,
            messages@.take(start.len() as int) == start,
            messages@[start.len() as int] matches ChatMessage::Assistant { content: c, tool_calls }
                && c@ == content@ && tool_calls@ == call_seq,
            forall|j: int|
                0 <= j < k ==> is_tool_answer(
                    messages@[start.len() + 1 + j],
                    call_seq[j].id@,
                    (#[trigger] results@[j])@,
                ),
        decreases results@.len() - k,
    {
        let ghost before = messages@;
        messages.push(ChatMessage::Tool { tool_call_id: ids[k].clone(), content: results[k].clone() });
        assert(messages@.take(start.len() as int) == before.take(start.len() as int));
        assert forall|j: int| 0 <= j < k + 1 implies is_tool_answer(
            messages@[start.len() + 1 + j],
            call_seq[j].id@,
            (#[trigger] results@[j])@,
        ) by {
            if j < k {
                assert(messages@[start.len() + 1 + j] == before[start.len() + 1 + j]);
            }
        }
        k += 1;
    }
}

// ---------------------------------------------------------------------------
// Tool calls that arrive in fragments
// ---------------------------------------------------------------------------

/// A fragment of a tool call in a streamed chunk: the call it belongs to
/// (by position) and the parts of it that this fragment carries.
pub struct ToolCallDelta {
    pub index: u32,
    pub id: Option<String>,
    pub name: Option<String>,
    pub arguments: Option<String>,
}

/// A tool call as text: its id, name and arguments.
pub open spec fn call_text(c: ToolCall) -> (Seq<char>, Seq<char>, Seq<char>) {
    (c.id@, c.name@, c.arguments@)
}

pub open spec fn calls_text(v: Seq<ToolCall>) -> Seq<(Seq<char>, Seq<char>, Seq<char>)> {
    v.map_values(|c: ToolCall| call_text(c))
}

pub open spec fn blank_calls(n: nat) -> Seq<(Seq<char>, Seq<char>, Seq<char>)> {
    Seq::new(n, |i: int| (Seq::<char>::empty(), Seq::<char>::empty(), Seq::<char>::empty()))
}

/// The calls after one more fragment: the list grows with empty calls up to
/// the fragment's position; there an id or a name replaces the one before,
/// and arguments are appended.
pub open spec fn apply_delta(calls: Seq<(Seq<char>, Seq<char>, Seq<char>)>, d: ToolCallDelta) -> Seq<
    (Seq<char>, Seq<char>, Seq<char>),
> {
    let idx = d.index as int;
    let grown = if calls.len() <= idx {
        calls + blank_calls((idx + 1 - calls.len()) as nat)
    } else {
        calls
    };
    let c = grown[idx];
    grown.update(
        idx,
        (
            match d.id {
                Some(x) => x@,
                None => c.0,
            },
            match d.name {
                Some(x) => x@,
                None => c.1,
            },
            match d.arguments {
                Some(x) => c.2 + x@,
                None => c.2,
            },
        ),
    )
}

/// The calls assembled from a sequence of fragments.
pub open spec fn assembled(deltas: Seq<ToolCallDelta>) -> Seq<(Seq<char>, Seq<char>, Seq<char>)>
    decreases deltas.len(),
{
    if deltas.len() == 0 {
        Seq::empty()
    } else {
        apply_delta(assembled(deltas.drop_last()), deltas.last())
    }
}

/// The argument fragments for position `idx`, concatenated in order.
pub open spec fn arguments_for(deltas: Seq<ToolCallDelta>, idx: int) -> Seq<char>
    decreases deltas.len(),
{
    if deltas.len() == 0 {
        Seq::empty()
    } else {
        let prev = arguments_for(deltas.drop_last(), idx);
        let d = deltas.last();
        if d.index as int == idx {
            match d.arguments {
                Some(a) => prev + a@,
                None => prev,
            }
        } else {
            prev
        }
    }
}

/// One more than the highest position that a fragment names (0 for none).
pub open spec fn calls_needed(deltas: Seq<ToolCallDelta>) -> nat
    decreases deltas.len(),
{
    if deltas.len() == 0 {
        0
    } else {
        let prev = calls_needed(deltas.drop_last());
        let n = (deltas.last().index + 1) as nat;
        if prev < n {
            n
        } else {
            prev
        }
    }
}

/// Tool calls streamed in fragments are assembled so that there is one call
/// per position up to the highest one named, and the arguments of each call
/// are its argument fragments concatenated in the order they came.
pub proof fn law_tool_call_arguments_concatenate(deltas: Seq<ToolCallDelta>)
    ensures
        assembled(deltas).len() == calls_needed(deltas),
        forall|i: int|
            0 <= i < assembled(deltas).len() ==> (#[trigger] assembled(deltas)[i]).2
                == arguments_for(deltas, i),
        forall|i: int| i >= calls_needed(deltas) ==> #[trigger] arguments_for(deltas, i) =~= Seq::<
            char,
        >::empty(),
    decreases deltas.len(),
{
    if deltas.len() > 0 {
        let prev = deltas.drop_last();
        let d = deltas.last();
        law_tool_call_arguments_concatenate(prev);
        let a = assembled(prev);
        let idx = d.index as int;
        let grown = if a.len() <= idx {
            a + blank_calls((idx + 1 - a.len()) as nat)
        } else {
            a
        };
        assert forall|i: int| 0 <= i < assembled(deltas).len() implies (#[trigger] assembled(
            deltas,
        )[i]).2 == arguments_for(deltas, i) by {
            if i != idx {
                if i < a.len() {
                    assert(grown[i] == a[i]);
                } else {
                    assert(grown[i] == blank_calls((idx + 1 - a.len()) as nat)[i - a.len()]);
                    assert(arguments_for(prev, i) =~= Seq::<char>::empty());
                }
            } else if idx >= a.len() {
                assert(arguments_for(prev, i) =~= Seq::<char>::empty());
                assert(grown[i] == blank_calls((idx + 1 - a.len()) as nat)[i - a.len()]);
            }
        }
        assert forall|i: int| i >= calls_needed(deltas) implies #[trigger] arguments_for(deltas, i)
            =~= Seq::<char>::empty() by {
            assert(arguments_for(prev, i) =~= Seq::<char>::empty());
        }
    }
}

/// Applies one streamed fragment to the calls gathered so far.
pub fn apply_tool_delta(calls: &mut Vec<ToolCall>, d: &ToolCallDelta)
    ensures
        calls_text(final(calls)@) == apply_delta(calls_text(old(calls)@), *d),
{
    let idx = d.index as usize;
    let ghost start = calls_text(calls@);
    while calls.len() <= idx
        invariant
            idx == d.index as int,
            start.len() <= calls@.len(),
            start.len() <= idx ==> calls@.len() <= idx + 1,
            start.len() > idx ==> calls@.len() == start.len(),
            calls_text(calls@) == (if start.len() <= idx {
                start + blank_calls((calls@.len() - start.len()) as nat)
            } else {
                start
            }),
        decreases idx + 1 - calls.len(),
    {
        let ghost before = calls@;
        calls.push(ToolCall { id: String::new(), name: String::new(), arguments: String::new() });
        proof {
            assert(calls_text(calls@) =~= calls_text(before).push(
                (Seq::<char>::empty(), Seq::<char>::empty(), Seq::<char>::empty()),
            ));
            assert(blank_calls((calls@.len() - start.len()) as nat) =~= blank_calls(
                (before.len() - start.len()) as nat,
            ).push((Seq::<char>::empty(), Seq::<char>::empty(), Seq::<char>::empty())));
        }
    }
    let ghost grown = calls_text(calls@);
    proof {
        if start.len() <= idx {
            assert(calls@.len() == idx + 1);
        }
    }
    let mut call = ToolCall { id: String::new(), name: String::new(), arguments: String::new() };
    std::mem::swap(&mut call, &mut calls[idx]);
    match &d.id {
        Some(x) => {
            call.id = x.clone();
        },
        None => {},
    }
    match &d.name {
        Some(x) => {
            call.name = x.clone();
        },
        None => {},
    }
    match &d.arguments {
        Some(x) => {
            push_str(&mut call.arguments, x.as_str());
        },
        None => {},
    }
    let ghost mid = calls@;
    calls.set(idx, call);
    proof {
        assert(calls_text(calls@) =~= grown.update(idx as int, call_text(calls@[idx as int])));
    }
}

// ---------------------------------------------------------------------------
// A streamed exchange
// ---------------------------------------------------------------------------

/// Where a streamed exchange stands.
#[derive(PartialEq, Eq, Structural, Clone, Copy)]
pub enum StreamPhase {
    /// The request for the first reply has been sent.
    Opening,
    /// The first reply is streaming.
    FirstPass,
    /// Tools ran; the request for the follow-up reply has been sent.
    OpeningFollowUp,
    /// The follow-up reply is streaming.
    FollowUp,
    /// Nothing more will be sent.
    Done,
}

/// One chunk of a streamed reply, reduced to what the exchange reads.
pub struct StreamChunk {
    /// Whether the chunk had a first choice.
    pub has_choice: bool,
    /// The text fragment of the first choice.
    pub content: Option<String>,
    /// The tool-call fragments of the first choice.
    pub tool_calls: Option<Vec<ToolCallDelta>>,
    /// Whether the first choice finished because it calls tools.
    pub finished_for_tools: bool,
    /// The token usage reported with the chunk, as JSON text.
    pub usage: Option<String>,
}

/// What the driver of a streamed exchange must do.
pub enum StreamAction {
    /// Send this event to the client.
    Send(SseEvent),
    /// Run these tools, then request the follow-up reply with their results.
    RunTools(Vec<ToolCall>),
    /// The exchange is over: this is the reply's text and usage.
    Complete { content: String, token_usage: Option<String> },
}

/// The events among some actions, in order.
pub open spec fn sent_events(acts: Seq<StreamAction>) -> Seq<SseEvent>
    decreases acts.len(),
{
    if acts.len() == 0 {
        Seq::empty()
    } else {
        let prev = sent_events(acts.drop_last());
        match acts.last() {
            StreamAction::Send(e) => prev.push(e),
            _ => prev,
        }
    }
}

/// The state of a streamed exchange with a model.
pub struct ChatStream {
    message_id: String,
    with_tools: bool,
    phase: StreamPhase,
    content: String,
    token_usage: Option<String>,
    calls: Vec<ToolCall>,
    sent: Ghost<Seq<SseEvent>>,
}

impl ChatStream {
    /// The events sent so far.
    pub closed spec fn transcript(&self) -> Seq<SseEvent> {
        self.sent@
    }

    pub closed spec fn phase_of(&self) -> StreamPhase {
        self.phase
    }

    pub closed spec fn id_of(&self) -> Seq<char> {
        self.message_id@
    }

    pub closed spec fn text_of(&self) -> Seq<char> {
        self.content@
    }

    pub closed spec fn tools_enabled(&self) -> bool {
        self.with_tools
    }

    /// The reply's usage as last reported.
    pub closed spec fn usage_of(&self) -> Option<Seq<char>> {
        opt_text(self.token_usage)
    }

    /// The tool calls gathered in the first reply.
    pub closed spec fn calls_of(&self) -> Seq<(Seq<char>, Seq<char>, Seq<char>)> {
        calls_text(self.calls@)
    }

    /// The exchange's invariant: the text held is what the deltas sent so
    /// far spell; the first event sent is the start, with the reply's id; an
    /// end, if sent, is the last event, carries that id and the text streamed
    /// before it, and only an exchange that is done has sent one.
    pub closed spec fn wf(&self) -> bool {
        &&& self.content@ == streamed_text(self.sent@)
        &&& self.sent@.len() >= 1
        &&& self.sent@[0] matches SseEvent::Start { message_id, .. } && message_id@
            == self.message_id@
        &&& forall|k: int|
            0 < k < self.sent@.len() ==> !(#[trigger] self.sent@[k] is Start)
        &&& forall|k: int|
            0 <= k < self.sent@.len() && (#[trigger] self.sent@[k] is End) ==> {
                &&& k == self.sent@.len() - 1
                &&& self.phase == StreamPhase::Done
                &&& self.sent@[k] matches SseEvent::End { message_id, full_content, .. }
                    && message_id@ == self.message_id@ && full_content@ == streamed_text(
                    self.sent@.take(k),
                )
            }
        &&& !self.with_tools ==> self.calls@.len() == 0
    }

    /// Starts an exchange: the reply will have the id `message_id` and speak
    /// as `role`; tools may be called when `with_tools` is set. The start
    /// event is to be sent before the request goes out.
    pub fn start(message_id: String, role: String, with_tools: bool) -> (r: (
        ChatStream,
        Vec<StreamAction>,
    ))
        ensures
            r.0.wf(),
            r.0.phase_of() == StreamPhase::Opening,
            r.0.id_of() == message_id@,
            r.0.text_of() == Seq::<char>::empty(),
            r.0.tools_enabled() == with_tools,
            r.0.calls_of().len() == 0,
            r.1@.len() == 1,
            r.1@[0] matches StreamAction::Send(SseEvent::Start { message_id: m, role: ro })
                && m@ == message_id@ && ro@ == role@,
            r.0.transcript() == sent_events(r.1@),
    {
        let start = SseEvent::Start { message_id: message_id.clone(), role };
        let ghost e = start;
        let ghost first = seq![e];
        let mut acts: Vec<StreamAction> = Vec::new();
        acts.push(StreamAction::Send(start));
        let s = ChatStream {
            message_id,
            with_tools,
            phase: StreamPhase::Opening,
            content: String::new(),
            token_usage: None,
            calls: Vec::new(),
            sent: Ghost(first),
        };
        proof {
            reveal_with_fuel(sent_events, 2);
            assert(acts@.drop_last() =~= Seq::<StreamAction>::empty());
            assert(first.drop_last() =~= Seq::<SseEvent>::empty());
            reveal_with_fuel(streamed_text, 2);
            assert(streamed_text(first) =~= Seq::<char>::empty());
            assert(sent_events(acts@) =~= first);
            assert(s.sent@[0] == e);
            assert(forall|k: int| 0 < k < s.sent@.len() ==> !(#[trigger] s.sent@[k] is Start));
            assert(forall|k: int| 0 <= k < s.sent@.len() ==> !(#[trigger] s.sent@[k] is End));
        }
        (s, acts)
    }

    /// Records that an event is sent, keeping the invariant's bookkeeping.
    fn emit(&mut self, acts: &mut Vec<StreamAction>, e: SseEvent)
        ensures
            final(self).sent@ == old(self).sent@.push(e),
            final(acts)@ == old(acts)@.push(StreamAction::Send(e)),
            sent_events(final(acts)@) == sent_events(old(acts)@).push(e),
            final(self).message_id == old(self).message_id,
            final(self).with_tools == old(self).with_tools,
            final(self).phase == old(self).phase,
            final(self).content == old(self).content,
            final(self).token_usage == old(self).token_usage,
            final(self).calls == old(self).calls,
    {
        proof {
            assert(acts@.push(StreamAction::Send(e)).drop_last() == acts@);
        }
        self.sent = Ghost(self.sent@.push(e));
        acts.push(StreamAction::Send(e));
    }

    /// Ends the exchange: the end event carries the reply's id, its text and
    /// usage; the completion hands the same text and usage back.
    fn finish(&mut self, acts: &mut Vec<StreamAction>)
        requires
            old(self).content@ == streamed_text(old(self).sent@),
        ensures
            final(self).phase == StreamPhase::Done,
            final(self).sent@ == old(self).sent@.push(end_of(*old(self))),
            final(acts)@.len() == old(acts)@.len() + 2,
            final(acts)@.take(old(acts)@.len() as int) == old(acts)@,
            final(acts)@[old(acts)@.len() as int] == StreamAction::Send(end_of(*old(self))),
            final(acts)@[old(acts)@.len() + 1int] == complete_of(*old(self)),
            sent_events(final(acts)@) == sent_events(old(acts)@).push(end_of(*old(self))),
            final(self).message_id == old(self).message_id,
            final(self).with_tools == old(self).with_tools,
            final(self).content == old(self).content,
            final(self).token_usage == old(self).token_usage,
            final(self).calls == old(self).calls,
    {
        let end = SseEvent::End {
            message_id: self.message_id.clone(),
            full_content: self.content.clone(),
            token_usage: self.token_usage.clone(),
        };
        proof {
            assert(end == end_of(*self));
        }
        let ghost a0 = acts@;
        self.emit(acts, end);
        let ghost a1 = acts@;
        acts.push(StreamAction::Complete { content: self.content.clone(), token_usage: self.token_usage.clone() });
        self.phase = StreamPhase::Done;
        proof {
            assert(acts@.drop_last() == a1);
            assert(acts@.take(a0.len() as int) =~= a0);
        }
    }

    /// The request failed to open. Before the first reply nothing more is
    /// sent but the error; before the follow-up, the error is followed by the
    /// end of the reply with the text so far and no usage.
    pub fn open_failed(&mut self, error: String) -> (acts: Vec<StreamAction>)
        requires
            old(self).wf(),
        ensures
            final(self).wf(),
            final(self).transcript() == old(self).transcript() + sent_events(acts@),
            old(self).phase_of() == StreamPhase::Opening ==> {
                &&& final(self).phase_of() == StreamPhase::Done
                &&& acts@.len() == 1
                &&& acts@[0] matches StreamAction::Send(SseEvent::Error(m)) && m@ == error@
            },
            old(self).phase_of() == StreamPhase::OpeningFollowUp ==> {
                &&& final(self).phase_of() == StreamPhase::Done
                &&& acts@.len() == 3
                &&& acts@[0] matches StreamAction::Send(SseEvent::Error(m)) && m@ == error@
                &&& acts@[1] matches StreamAction::Send(
                    SseEvent::End { message_id, full_content, token_usage },
                ) && message_id@ == old(self).id_of() && full_content@ == old(self).text_of()
                    && token_usage is None
                &&& acts@[2] matches StreamAction::Complete { content, token_usage }
                    && content@ == old(self).text_of() && token_usage is None
            },
            old(self).phase_of() != StreamPhase::Opening && old(self).phase_of()
                != StreamPhase::OpeningFollowUp ==> acts@.len() == 0 && *final(self) == *old(self),
    {
        let mut acts: Vec<StreamAction> = Vec::new();
        proof {
            reveal_with_fuel(sent_events, 2);
        }
        if self.phase == StreamPhase::Opening {
            let ghost s0 = self.sent@;
            self.emit(&mut acts, SseEvent::Error(error));
            self.phase = StreamPhase::Done;
            proof {
                lemma_streamed_push(s0, self.sent@.last());
                assert(self.sent@.drop_last() == s0);
                assert(self.sent@.take(s0.len() as int) =~= s0);
                assert(acts@.drop_last() =~= Seq::<StreamAction>::empty());
                assert(self.sent@ =~= s0 + sent_events(acts@));
            }
        } else if self.phase == StreamPhase::OpeningFollowUp {
            let ghost s0 = self.sent@;
            self.emit(&mut acts, SseEvent::Error(error));
            let ghost s1 = self.sent@;
            proof {
                lemma_streamed_push(s0, s1.last());
                assert(s1.drop_last() == s0);
                assert(acts@.drop_last() =~= Seq::<StreamAction>::empty());
            }
            self.token_usage = None;
            let ghost a1 = acts@;
            self.finish(&mut acts);
            proof {
                lemma_streamed_push(s1, self.sent@.last());
                assert(self.sent@.drop_last() == s1);
                assert(self.sent@.take(s1.len() as int) == s1);
                assert(self.sent@.take(s0.len() as int) =~= s0);
                assert(acts@[0] == a1[0]);
                reveal_with_fuel(sent_events, 4);
                assert(a1.drop_last() =~= Seq::<StreamAction>::empty());
                assert(acts@.drop_last() =~= a1.push(acts@[1]));
                assert(acts@.drop_last().drop_last() == a1);
                assert(self.sent@ =~= s0 + sent_events(acts@));
            }
        }
        proof {
            if old(self).phase_of() == StreamPhase::Opening || old(self).phase_of()
                == StreamPhase::OpeningFollowUp {
                self.lemma_wf_after(old(self).sent@);
            } else {
                assert(acts@ =~= Seq::<StreamAction>::empty());
                assert(old(self).sent@ + Seq::<SseEvent>::empty() =~= old(self).sent@);
            }
        }
        acts
    }

    /// The request opened: the reply starts to stream. The follow-up reply's
    /// usage starts unknown.
    pub fn opened(&mut self)
        requires
            old(self).wf(),
        ensures
            final(self).wf(),
            final(self).transcript() == old(self).transcript(),
            final(self).text_of() == old(self).text_of(),
            old(self).phase_of() == StreamPhase::Opening ==> final(self).phase_of()
                == StreamPhase::FirstPass && final(self).usage_of() == old(self).usage_of(),
            old(self).phase_of() == StreamPhase::OpeningFollowUp ==> final(self).phase_of()
                == StreamPhase::FollowUp && final(self).usage_of() is None,
            old(self).phase_of() != StreamPhase::Opening && old(self).phase_of()
                != StreamPhase::OpeningFollowUp ==> *final(self) == *old(self),
    {
        if self.phase == StreamPhase::Opening {
            self.phase = StreamPhase::FirstPass;
        } else if self.phase == StreamPhase::OpeningFollowUp {
            self.phase = StreamPhase::FollowUp;
            self.token_usage = None;
        }
    }

    /// Used after a step: an invariant holds again once the events appended
    /// keep its shape.
    proof fn lemma_wf_after(&self, before: Seq<SseEvent>)
        requires
            self.content@ == streamed_text(self.sent@),
            before.len() >= 1,
            before[0] matches SseEvent::Start { message_id, .. } && message_id@ == self.message_id@,
            forall|k: int| 0 < k < before.len() ==> !(#[trigger] before[k] is Start),
            forall|k: int| 0 <= k < before.len() ==> !(#[trigger] before[k] is End),
            self.sent@.len() >= before.len(),
            self.sent@.take(before.len() as int) == before,
            forall|k: int|
                before.len() <= k < self.sent@.len() ==> !(#[trigger] self.sent@[k] is Start),
            forall|k: int|
                before.len() <= k < self.sent@.len() && (#[trigger] self.sent@[k] is End) ==> {
                    &&& k == self.sent@.len() - 1
                    &&& self.phase == StreamPhase::Done
                    &&& self.sent@[k] matches SseEvent::End { message_id, full_content, .. }
                        && message_id@ == self.message_id@ && full_content@ == streamed_text(
                        self.sent@.take(k),
                    )
                },
            !self.with_tools ==> self.calls@.len() == 0,
        ensures
            self.wf(),
    {
        assert forall|k: int| 0 <= k < before.len() implies self.sent@[k] == before[k] by {
            assert(self.sent@.take(before.len() as int)[k] == self.sent@[k]);
        }
        assert(self.sent@[0] == before[0]);
        assert forall|k: int| 0 < k < self.sent@.len() implies !(#[trigger] self.sent@[k] is Start) by {
            if k < before.len() {
                assert(self.sent@[k] == before[k]);
            }
        }
        assert forall|k: int| 0 <= k < self.sent@.len() && (#[trigger] self.sent@[k] is End) implies {
            &&& k == self.sent@.len() - 1
            &&& self.phase == StreamPhase::Done
            &&& self.sent@[k] matches SseEvent::End { message_id, full_content, .. }
                && message_id@ == self.message_id@ && full_content@ == streamed_text(
                self.sent@.take(k),
            )
        } by {
            if k < before.len() {
                assert(self.sent@[k] == before[k]);
            }
        }
    }

    /// No end has been sent while the exchange is not done.
    proof fn lemma_no_end(&self)
        requires
            self.wf(),
            self.phase != StreamPhase::Done,
        ensures
            forall|k: int| 0 <= k < self.sent@.len() ==> !(#[trigger] self.sent@[k] is End),
    {
    }

    /// A chunk of the streaming reply arrived. Its text fragment is sent on
    /// and added to the reply; in the first reply of an exchange with tools,
    /// its tool-call fragments are gathered, and a chunk that finishes for
    /// tools ends the first reply (its usage is not read). Otherwise the
    /// chunk's usage, if any, replaces the one before.
    pub fn chunk(&mut self, c: StreamChunk) -> (acts: Vec<StreamAction>)
        requires
            old(self).wf(),
        ensures
            final(self).wf(),
            final(self).transcript() == old(self).transcript() + sent_events(acts@),
            streams(*old(self)) && has_delta(c) ==> (acts@[0] matches StreamAction::Send(
                SseEvent::Delta { content },
            ) && content@ == c.content->0@),
            streams(*old(self)) && !stops(*old(self), c) ==> {
                &&& acts@.len() == delta_count(c)
                &&& final(self).phase_of() == old(self).phase_of()
                &&& final(self).text_of() == text_after(*old(self), c)
                &&& final(self).usage_of() == (if c.usage is Some {
                    opt_text(c.usage)
                } else {
                    old(self).usage_of()
                })
                &&& final(self).calls_of() == gathered(*old(self), c)
            },
            streams(*old(self)) && stops(*old(self), c) && gathered(*old(self), c).len() > 0 ==> {
                &&& final(self).phase_of() == StreamPhase::OpeningFollowUp
                &&& acts@.len() == delta_count(c) + 1
                &&& acts@.last() matches StreamAction::RunTools(calls) && calls_text(calls@)
                    == gathered(*old(self), c)
                &&& final(self).text_of() == text_after(*old(self), c)
            },
            streams(*old(self)) && stops(*old(self), c) && gathered(*old(self), c).len() == 0 ==> {
                &&& final(self).phase_of() == StreamPhase::Done
                &&& acts@.len() == delta_count(c) + 2
                &&& acts@[acts@.len() - 2] matches StreamAction::Send(
                    SseEvent::End { message_id, full_content, token_usage },
                ) && message_id@ == old(self).id_of() && full_content@ == text_after(
                    *old(self),
                    c,
                ) && opt_text(token_usage) == old(self).usage_of()
                &&& acts@.last() matches StreamAction::Complete { content, token_usage }
                    && content@ == text_after(*old(self), c) && opt_text(token_usage)
                    == old(self).usage_of()
            },
            !streams(*old(self)) ==> acts@.len() == 0 && *final(self) == *old(self),
    {
        let mut acts: Vec<StreamAction> = Vec::new();
        if self.phase != StreamPhase::FirstPass && self.phase != StreamPhase::FollowUp {
            proof {
                assert(acts@ =~= Seq::<StreamAction>::empty());
                assert(old(self).sent@ + sent_events(acts@) =~= old(self).sent@);
            }
            return acts;
        }
        let ghost s0 = self.sent@;
        proof {
            self.lemma_no_end();
            reveal_with_fuel(sent_events, 2);
        }
        let StreamChunk { has_choice, content, tool_calls, finished_for_tools, usage } = c;
        if has_choice {
            match content {
                Some(d) => {
                    push_str(&mut self.content, d.as_str());
                    let ghost e = SseEvent::Delta { content: d };
                    proof {
                        lemma_streamed_push(s0, e);
                    }
                    self.emit(&mut acts, SseEvent::Delta { content: d });
                    proof {
                        assert(acts@.drop_last() =~= Seq::<StreamAction>::empty());
                        assert(sent_events(acts@) =~= seq![e]);
                        assert(self.sent@ =~= s0 + seq![e]);
                    }
                },
                None => {},
            }
        }
        let ghost s1 = self.sent@;
        let ghost a1 = acts@;
        proof {
            if !(has_choice && content is Some) {
                assert(a1 =~= Seq::<StreamAction>::empty());
                assert(sent_events(a1) =~= Seq::<SseEvent>::empty());
                assert(s1 =~= s0 + sent_events(a1));
            }
            assert(s1 == s0 + sent_events(a1));
            assert(self.content@ == streamed_text(s1));
            assert(self.content@ == text_after(*old(self), c));
            assert forall|k: int| s0.len() <= k < s1.len() implies (#[trigger] s1[k]) is Delta by {}
        }
        if self.phase == StreamPhase::FirstPass && self.with_tools && has_choice {
            match tool_calls {
                Some(ds) => {
                    let mut calls: Vec<ToolCall> = Vec::new();
                    std::mem::swap(&mut calls, &mut self.calls);
                    let mut i: usize = 0;
                    let ghost c0 = calls_text(calls@);
                    while i < ds.len()
                        invariant
                            i <= ds@.len(),
                            calls_text(calls@) == fold_deltas(c0, ds@.take(i as int)),
                        decreases ds@.len() - i,
                    {
                        apply_tool_delta(&mut calls, &ds[i]);
                        proof {
                            assert(ds@.take(i + 1).drop_last() =~= ds@.take(i as int));
                        }
                        i += 1;
                    }
                    proof {
                        assert(ds@.take(ds@.len() as int) =~= ds@);
                    }
                    std::mem::swap(&mut calls, &mut self.calls);
                },
                None => {},
            }
            if finished_for_tools {
                let mut fin = self.first_pass_over();
                let ghost f = fin@;
                acts.append(&mut fin);
                proof {
                    lemma_sent_events_append(a1, f);
                    assert(acts@ =~= a1 + f);
                    assert(self.sent@ =~= s0 + sent_events(acts@));
                    if self.phase == StreamPhase::Done {
                        lemma_streamed_push(s1, self.sent@.last());
                        assert(self.sent@.drop_last() == s1);
                        assert(self.sent@.take(s1.len() as int) =~= s1);
                        assert(acts@[acts@.len() - 2] == f[0]);
                    } else {
                        assert(sent_events(f) =~= Seq::<SseEvent>::empty());
                    }
                    assert(self.sent@.take(s0.len() as int) =~= s0);
                    assert forall|k: int| s0.len() <= k < self.sent@.len() implies !(
                    #[trigger] self.sent@[k] is Start) by {
                        if k < s1.len() {
                            assert(self.sent@[k] == s1[k]);
                        }
                    }
                    assert forall|k: int|
                        s0.len() <= k < self.sent@.len() && (#[trigger] self.sent@[k] is End) implies {
                        &&& k == self.sent@.len() - 1
                        &&& self.phase == StreamPhase::Done
                        &&& self.sent@[k] matches SseEvent::End { message_id, full_content, .. }
                            && message_id@ == self.message_id@ && full_content@ == streamed_text(
                            self.sent@.take(k),
                        )
                    } by {
                        if k < s1.len() {
                            assert(self.sent@[k] == s1[k]);
                        } else {
                            assert(self.sent@.take(k) =~= s1);
                        }
                    }
                    self.lemma_wf_after(s0);
                }
                return acts;
            }
        }
        match usage {
            Some(u) => {
                self.token_usage = Some(u);
            },
            None => {},
        }
        proof {
            assert(self.sent@.take(s0.len() as int) =~= s0);
            self.lemma_wf_after(s0);
        }
        acts
    }

    /// The first reply is over: with tool calls gathered the tools are to
    /// run; otherwise the reply ends.
    fn first_pass_over(&mut self) -> (acts: Vec<StreamAction>)
        requires
            old(self).content@ == streamed_text(old(self).sent@),
            old(self).phase == StreamPhase::FirstPass,
        ensures
            old(self).with_tools && old(self).calls@.len() > 0 ==> {
                &&& final(self).phase == StreamPhase::OpeningFollowUp
                &&& acts@.len() == 1
                &&& acts@[0] matches StreamAction::RunTools(calls) && calls@ == old(self).calls@
                &&& final(self).sent@ == old(self).sent@
                &&& final(self).calls@.len() == 0
            },
            !(old(self).with_tools && old(self).calls@.len() > 0) ==> {
                &&& final(self).phase == StreamPhase::Done
                &&& acts@.len() == 2
                &&& acts@[0] == StreamAction::Send(end_of(*old(self)))
                &&& acts@[1] == complete_of(*old(self))
                &&& final(self).sent@ == old(self).sent@.push(end_of(*old(self)))
                &&& final(self).calls == old(self).calls
            },
            final(self).sent@ == old(self).sent@ + sent_events(acts@),
            final(self).message_id == old(self).message_id,
            final(self).with_tools == old(self).with_tools,
            final(self).content == old(self).content,
            final(self).token_usage == old(self).token_usage,
    {
        let mut acts: Vec<StreamAction> = Vec::new();
        proof {
            reveal_with_fuel(sent_events, 3);
        }
        if self.with_tools && self.calls.len() > 0 {
            let mut calls: Vec<ToolCall> = Vec::new();
            std::mem::swap(&mut calls, &mut self.calls);
            acts.push(StreamAction::RunTools(calls));
            self.phase = StreamPhase::OpeningFollowUp;
            proof {
                assert(acts@.drop_last() =~= Seq::<StreamAction>::empty());
                assert(self.sent@ + sent_events(acts@) =~= self.sent@);
            }
        } else {
            self.finish(&mut acts);
            proof {
                assert(acts@.drop_last().drop_last() =~= Seq::<StreamAction>::empty());
                assert(acts@.drop_last() =~= seq![acts@[0]]);
                assert(sent_events(acts@) =~= Seq::<SseEvent>::empty().push(end_of(*old(self))));
                assert(self.sent@ =~= old(self).sent@ + sent_events(acts@));
            }
        }
        acts
    }

    /// The streaming reply ended. A first reply with tool calls gathered
    /// hands the calls over to be run; any other reply ends the exchange with
    /// the end event and the completion.
    pub fn ended(&mut self) -> (acts: Vec<StreamAction>)
        requires
            old(self).wf(),
        ensures
            final(self).wf(),
            final(self).transcript() == old(self).transcript() + sent_events(acts@),
            old(self).phase_of() == StreamPhase::FirstPass && old(self).tools_enabled()
                && old(self).calls_of().len() > 0 ==> {
                &&& final(self).phase_of() == StreamPhase::OpeningFollowUp
                &&& acts@.len() == 1
                &&& acts@[0] matches StreamAction::RunTools(calls) && calls_text(calls@)
                    == old(self).calls_of()
            },
            (old(self).phase_of() == StreamPhase::FirstPass && !(old(self).tools_enabled()
                && old(self).calls_of().len() > 0)) || old(self).phase_of()
                == StreamPhase::FollowUp ==> {
                &&& final(self).phase_of() == StreamPhase::Done
                &&& acts@.len() == 2
                &&& acts@[0] matches StreamAction::Send(
                    SseEvent::End { message_id, full_content, token_usage },
                ) && message_id@ == old(self).id_of() && full_content@ == old(self).text_of()
                    && opt_text(token_usage) == old(self).usage_of()
                &&& acts@[1] matches StreamAction::Complete { content, token_usage }
                    && content@ == old(self).text_of() && opt_text(token_usage)
                    == old(self).usage_of()
            },
            old(self).phase_of() != StreamPhase::FirstPass && old(self).phase_of()
                != StreamPhase::FollowUp ==> acts@.len() == 0 && *final(self) == *old(self),
    {
        if self.phase == StreamPhase::FirstPass {
            proof {
                self.lemma_no_end();
            }
            let ghost s0 = self.sent@;
            let acts = self.first_pass_over();
            proof {
                if self.phase == StreamPhase::Done {
                    lemma_streamed_push(s0, self.sent@.last());
                    assert(self.sent@.drop_last() == s0);
                }
                assert(self.sent@.take(s0.len() as int) =~= s0);
                self.lemma_wf_after(s0);
                if self.phase != StreamPhase::Done {
                    assert(calls_text(Seq::<ToolCall>::empty()).len() == 0);
                }
            }
            acts
        } else if self.phase == StreamPhase::FollowUp {
            proof {
                self.lemma_no_end();
            }
            let ghost s0 = self.sent@;
            let mut acts: Vec<StreamAction> = Vec::new();
            self.finish(&mut acts);
            proof {
                reveal_with_fuel(sent_events, 3);
                assert(acts@.drop_last().drop_last() =~= Seq::<StreamAction>::empty());
                assert(acts@.drop_last() =~= seq![acts@[0]]);
                lemma_streamed_push(s0, self.sent@.last());
                assert(self.sent@.drop_last() == s0);
                assert(self.sent@.take(s0.len() as int) == s0);
                self.lemma_wf_after(s0);
            }
            acts
        } else {
            let acts: Vec<StreamAction> = Vec::new();
            proof {
                assert(acts@ =~= Seq::<StreamAction>::empty());
                assert(old(self).sent@ + sent_events(acts@) =~= old(self).sent@);
            }
            acts
        }
    }

    /// The streaming reply failed: the error is sent, then the end of the
    /// reply with the text and usage so far, and the exchange completes.
    pub fn failed(&mut self, error: String) -> (acts: Vec<StreamAction>)
        requires
            old(self).wf(),
        ensures
            final(self).wf(),
            final(self).transcript() == old(self).transcript() + sent_events(acts@),
            old(self).phase_of() == StreamPhase::FirstPass || old(self).phase_of()
                == StreamPhase::FollowUp ==> {
                &&& final(self).phase_of() == StreamPhase::Done
                &&& acts@.len() == 3
                &&& acts@[0] matches StreamAction::Send(SseEvent::Error(m)) && m@ == error@
                &&& acts@[1] matches StreamAction::Send(
                    SseEvent::End { message_id, full_content, token_usage },
                ) && message_id@ == old(self).id_of() && full_content@ == old(self).text_of()
                    && opt_text(token_usage) == old(self).usage_of()
                &&& acts@[2] matches StreamAction::Complete { content, token_usage }
                    && content@ == old(self).text_of() && opt_text(token_usage)
                    == old(self).usage_of()
            },
            old(self).phase_of() != StreamPhase::FirstPass && old(self).phase_of()
                != StreamPhase::FollowUp ==> acts@.len() == 0 && *final(self) == *old(self),
    {
        let mut acts: Vec<StreamAction> = Vec::new();
        if self.phase == StreamPhase::FirstPass || self.phase == StreamPhase::FollowUp {
            proof {
                self.lemma_no_end();
                reveal_with_fuel(sent_events, 4);
            }
            let ghost s0 = self.sent@;
            self.emit(&mut acts, SseEvent::Error(error));
            let ghost s1 = self.sent@;
            proof {
                lemma_streamed_push(s0, s1.last());
                assert(s1.drop_last() == s0);
            }
            let ghost a1 = acts@;
            self.finish(&mut acts);
            proof {
                lemma_streamed_push(s1, self.sent@.last());
                assert(self.sent@.drop_last() == s1);
                assert(self.sent@.take(s1.len() as int) == s1);
                assert(self.sent@.take(s0.len() as int) == s0);
                assert(acts@[0] == a1[0]);
                assert(a1.drop_last() =~= Seq::<StreamAction>::empty());
                assert(acts@.drop_last() =~= a1.push(acts@[1]));
                assert(acts@.drop_last().drop_last() == a1);
                self.lemma_wf_after(s0);
            }
        } else {
            proof {
                assert(acts@ =~= Seq::<StreamAction>::empty());
                assert(old(self).sent@ + sent_events(acts@) =~= old(self).sent@);
            }
        }
        acts
    }
}

/// Whether an exchange is streaming a reply.
pub open spec fn streams(s: ChatStream) -> bool {
    s.phase_of() == StreamPhase::FirstPass || s.phase_of() == StreamPhase::FollowUp
}

/// Whether a chunk carries a text fragment.
pub open spec fn has_delta(c: StreamChunk) -> bool {
    c.has_choice && c.content is Some
}

/// How many delta events a chunk gives rise to.
pub open spec fn delta_count(c: StreamChunk) -> int {
    if has_delta(c) {
        1
    } else {
        0
    }
}

/// The reply's text once a chunk's fragment is added.
pub open spec fn text_after(s: ChatStream, c: StreamChunk) -> Seq<char> {
    if has_delta(c) {
        s.text_of() + c.content->0@
    } else {
        s.text_of()
    }
}

/// Whether a chunk's tool-call fragments are gathered.
pub open spec fn reads_tools(s: ChatStream, c: StreamChunk) -> bool {
    s.phase_of() == StreamPhase::FirstPass && s.tools_enabled() && c.has_choice
}

/// Whether a chunk ends the first reply because the model calls tools.
pub open spec fn stops(s: ChatStream, c: StreamChunk) -> bool {
    reads_tools(s, c) && c.finished_for_tools
}

/// The tool calls once a chunk's fragments are gathered.
pub open spec fn gathered(s: ChatStream, c: StreamChunk) -> Seq<(Seq<char>, Seq<char>, Seq<char>)> {
    if reads_tools(s, c) && c.tool_calls is Some {
        fold_deltas(s.calls_of(), c.tool_calls->0@)
    } else {
        s.calls_of()
    }
}

/// The end event that closes an exchange in its present state.
pub closed spec fn end_of(s: ChatStream) -> SseEvent {
    SseEvent::End { message_id: s.message_id, full_content: s.content, token_usage: s.token_usage }
}

/// The completion that closes an exchange in its present state.
pub closed spec fn complete_of(s: ChatStream) -> StreamAction {
    StreamAction::Complete { content: s.content, token_usage: s.token_usage }
}

/// The calls after a run of fragments, applied in order to `calls`.
pub open spec fn fold_deltas(
    calls: Seq<(Seq<char>, Seq<char>, Seq<char>)>,
    ds: Seq<ToolCallDelta>,
) -> Seq<(Seq<char>, Seq<char>, Seq<char>)>
    decreases ds.len(),
{
    if ds.len() == 0 {
        calls
    } else {
        apply_delta(fold_deltas(calls, ds.drop_last()), ds.last())
    }
}

proof fn lemma_sent_events_append(a: Seq<StreamAction>, b: Seq<StreamAction>)
    ensures
        sent_events(a + b) == sent_events(a) + sent_events(b),
    decreases b.len(),
{
    if b.len() == 0 {
        assert(a + b =~= a);
    } else {
        lemma_sent_events_append(a, b.drop_last());
        assert((a + b).drop_last() =~= a + b.drop_last());
    }
}

/// Every end event that an exchange sends is its last event, carries the
/// reply's id, and carries exactly the text that the deltas before it
/// streamed; the first event is the start, and no other start follows.
pub proof fn law_end_reports_streamed_text(s: &ChatStream, k: int)
    requires
        s.wf(),
        0 <= k < s.transcript().len(),
        s.transcript()[k] is End,
    ensures
        k == s.transcript().len() - 1,
        s.phase_of() == StreamPhase::Done,
        s.transcript()[k] matches SseEvent::End { message_id, full_content, .. } && message_id@
            == s.id_of() && full_content@ == streamed_text(s.transcript().take(k)),
        s.transcript()[0] matches SseEvent::Start { message_id, .. } && message_id@ == s.id_of(),
{
}

// ---------------------------------------------------------------------------
// Client settings
// ---------------------------------------------------------------------------

/// How to reach a model: the key, the API base if not the default, the model.
pub struct LlmSettings {
    pub api_key: String,
    pub api_base: Option<String>,
    pub model: String,
}

/// The settings of a user's model client. A user without a key cannot chat.
pub fn llm_settings(api_key: Option<&str>, base_url: Option<&str>, model: &str) -> (r: Result<
    LlmSettings,
    RingError,
>)
    ensures
        api_key is None <==> r is Err,
        r matches Err(RingError::Internal(m)) ==> m@ == "LLM API key not configured"@,
        r is Err ==> r matches Err(RingError::Internal(_)),
        r matches Ok(s) ==> s.api_key@ == api_key->0@ && opt_text(s.api_base) == match base_url {
            Some(b) => Some(b@),
            None => None,
        } && s.model@ == model@,
{
    match api_key {
        None => Err(RingError::Internal(owned("LLM API key not configured"))),
        Some(k) => {
            let api_base = match base_url {
                Some(b) => Some(owned(b)),
                None => None,
            };
            Ok(LlmSettings { api_key: owned(k), api_base, model: owned(model) })
        },
    }
}

/// The settings used to test a connection: an `ollama` provider may go
/// without a key (the key is then `ollama`) and defaults to the local server;
/// other providers need a key. A non-empty base URL is used as the API base.
pub fn connection_settings(provider: &str, model: &str, api_key: Option<&str>, base_url: Option<&str>)
    -> (r: Result<LlmSettings, RingError>)
    ensures
        r is Err <==> (provider@ != "ollama"@ && api_key is None),
        r matches Err(e) ==> e matches RingError::BadRequest(m) && m@ == "API key required"@,
        r matches Ok(s) ==> {
            &&& s.model@ == model@
            &&& s.api_key@ == match api_key {
                Some(k) => k@,
                None => "ollama"@,
            }
            &&& opt_text(s.api_base) == if base_url is Some && base_url->0@.len() > 0 {
                Some(base_url->0@)
            } else if provider@ == "ollama"@ {
                Some("http://localhost:11434/v1"@)
            } else {
                None
            }
        },
{
    let is_ollama = str_eq(provider, "ollama");
    let key = if is_ollama {
        match api_key {
            Some(k) => owned(k),
            None => owned("ollama"),
        }
    } else {
        match api_key {
            Some(k) => owned(k),
            None => {
                return Err(RingError::BadRequest(owned("API key required")));
            },
        }
    };
    let mut api_base: Option<String> = None;
    match base_url {
        Some(u) => {
            if !u.is_empty() {
                api_base = Some(owned(u));
            }
        },
        None => {},
    }
    if is_ollama && api_base.is_none() {
        api_base = Some(owned("http://localhost:11434/v1"));
    }
    Ok(LlmSettings { api_key: key, api_base, model: owned(model) })
}

/// How a connection test came out.
pub enum ConnectionOutcome {
    Succeeded,
    Failed(String),
    TimedOut,
}

/// The answer to a connection test: whether it worked, and what to say.
pub fn connection_report(o: ConnectionOutcome) -> (r: (bool, String))
    ensures
        r.0 == (o is Succeeded),
        o is Succeeded ==> r.1@ == "Connection successful"@,
        o matches ConnectionOutcome::Failed(m) ==> r.1@ == m@,
        o is TimedOut ==> r.1@ == "Connection timed out after 15s"@,
{
    match o {
        ConnectionOutcome::Succeeded => (true, owned("Connection successful")),
        ConnectionOutcome::Failed(m) => (false, m),
        ConnectionOutcome::TimedOut => (false, owned("Connection timed out after 15s")),
    }
}

/// What a non-streamed completion with tools answered: a message, or tool
/// calls to run.
pub enum ChatCompleteWithToolsResult {
    Message { content: String },
    ToolCalls { tool_calls: Vec<ToolCall> },
}

/// The answer of a completion from its first choice: its tool calls when it
/// has any, else its text (empty when it has none).
pub fn completion_result(content: Option<String>, tool_calls: Option<Vec<ToolCall>>) -> (r: ChatCompleteWithToolsResult)
    ensures
        match tool_calls {
            Some(calls) => r == ChatCompleteWithToolsResult::ToolCalls { tool_calls: calls },
            None => (r matches ChatCompleteWithToolsResult::Message { content: c } && c@ == match content {
                Some(t) => t@,
                None => Seq::<char>::empty(),
            }),
        },
{
    match tool_calls {
        Some(calls) => ChatCompleteWithToolsResult::ToolCalls { tool_calls: calls },
        None => ChatCompleteWithToolsResult::Message {
            content: match content {
                Some(t) => t,
                None => String::new(),
            },
        },
    }
}

} // verus!
