//! The private "Self" space's activity metrics: counters kept per key, the
//! statistics of chat messages, the time spent on each view, and the context
//! of the daily greeting.
use vstd::prelude::*;
use vstd::string::*;

use crate::text::{chars_of, owned, push_str, str_eq, string_of};

verus! {

// ---------------------------------------------------------------------------
// Counters
// ---------------------------------------------------------------------------

/// Counters by key; a key without a counter counts 0.
pub struct CounterMap {
    pub entries: Vec<(String, i64)>,
}

/// The counters as a map from key to value.
pub open spec fn counts(c: CounterMap) -> Map<Seq<char>, int>
    decreases c.entries@.len(),
{
    counts_of(c.entries@)
}

pub open spec fn counts_of(es: Seq<(String, i64)>) -> Map<Seq<char>, int>
    decreases es.len(),
{
    if es.len() == 0 {
        Map::empty()
    } else {
        counts_of(es.drop_last()).insert(es.last().0@, es.last().1 as int)
    }
}

/// A counter's value: 0 for a key without one.
pub open spec fn count_at(m: Map<Seq<char>, int>, key: Seq<char>) -> int {
    if m.contains_key(key) {
        m[key]
    } else {
        0
    }
}

proof fn lemma_counts_update(es: Seq<(String, i64)>, i: int, v: (String, i64))
    requires
        0 <= i < es.len(),
        es[i].0@ == v.0@,
        forall|j: int| 0 <= j < es.len() && j != i ==> (#[trigger] es[j]).0@ != v.0@,
    ensures
        counts_of(es.update(i, v)) == counts_of(es).insert(v.0@, v.1 as int),
    decreases es.len(),
{
    let u = es.update(i, v);
    if i == es.len() - 1 {
        assert(u.drop_last() =~= es.drop_last());
        assert(counts_of(u) =~= counts_of(es).insert(v.0@, v.1 as int));
    } else {
        lemma_counts_update(es.drop_last(), i, v);
        assert(u.drop_last() =~= es.drop_last().update(i, v));
        assert(counts_of(u) =~= counts_of(es).insert(v.0@, v.1 as int));
    }
}

proof fn lemma_counts_missing(es: Seq<(String, i64)>, key: Seq<char>)
    requires
        forall|j: int| 0 <= j < es.len() ==> (#[trigger] es[j]).0@ != key,
    ensures
        !counts_of(es).contains_key(key),
    decreases es.len(),
{
    if es.len() > 0 {
        lemma_counts_missing(es.drop_last(), key);
    }
}

proof fn lemma_counts_found(es: Seq<(String, i64)>, i: int)
    requires
        0 <= i < es.len(),
        forall|j: int| 0 <= j < es.len() && j != i ==> (#[trigger] es[j]).0@ != es[i].0@,
    ensures
        counts_of(es).contains_key(es[i].0@),
        counts_of(es)[es[i].0@] == es[i].1 as int,
    decreases es.len(),
{
    if i < es.len() - 1 {
        lemma_counts_found(es.drop_last(), i);
    }
}

proof fn lemma_counts_range(es: Seq<(String, i64)>, key: Seq<char>)
    ensures
        i64::MIN <= count_at(counts_of(es), key) <= i64::MAX,
    decreases es.len(),
{
    if es.len() > 0 {
        lemma_counts_range(es.drop_last(), key);
    }
}

/// Each key is counted once.
pub open spec fn unique_keys(c: CounterMap) -> bool {
    forall|i: int, j: int|
        0 <= i < j < c.entries@.len() ==> (#[trigger] c.entries@[i]).0@ != (#[trigger] c.entries@[j]).0@
}

impl CounterMap {
    /// No counters.
    pub fn new() -> (r: CounterMap)
        ensures
            unique_keys(r),
            counts(r) == Map::<Seq<char>, int>::empty(),
    {
        CounterMap { entries: Vec::new() }
    }

    fn position(&self, key: &str) -> (r: Option<usize>)
        requires
            unique_keys(*self),
        ensures
            match r {
                Some(i) => i < self.entries@.len() && self.entries@[i as int].0@ == key@,
                None => forall|j: int| 0 <= j < self.entries@.len() ==> (#[trigger] self.entries@[j]).0@ != key@,
            },
    {
        let mut i: usize = 0;
        while i < self.entries.len()
            invariant
                i <= self.entries@.len(),
                forall|j: int| 0 <= j < i ==> (#[trigger] self.entries@[j]).0@ != key@,
            decreases self.entries@.len() - i,
        {
            if str_eq(self.entries[i].0.as_str(), key) {
                return Some(i);
            }
            i += 1;
        }
        None
    }

    /// The counter of a key, 0 when it has none.
    pub fn get(&self, key: &str) -> (r: i64)
        requires
            unique_keys(*self),
        ensures
            r == count_at(counts(*self), key@),
    {
        match self.position(key) {
            Some(i) => {
                proof {
                    lemma_counts_found(self.entries@, i as int);
                }
                self.entries[i].1
            },
            None => {
                proof {
                    lemma_counts_missing(self.entries@, key@);
                }
                0
            },
        }
    }

    /// Sets the counter of a key.
    pub fn set(&mut self, key: &str, value: i64)
        requires
            unique_keys(*old(self)),
        ensures
            unique_keys(*final(self)),
            counts(*final(self)) == counts(*old(self)).insert(key@, value as int),
    {
        match self.position(key) {
            Some(i) => {
                let ghost before = self.entries@;
                let v = (owned(key), value);
                proof {
                    lemma_counts_update(before, i as int, v);
                }
                self.entries.set(i, v);
                proof {
                    assert(self.entries@ == before.update(i as int, v));
                }
            },
            None => {
                let ghost before = self.entries@;
                self.entries.push((owned(key), value));
                proof {
                    assert(self.entries@.drop_last() =~= before);
                }
            },
        }
    }

    /// Adds `n` to the counter of a key.
    pub fn add(&mut self, key: &str, n: i64)
        requires
            unique_keys(*old(self)),
            i64::MIN <= count_at(counts(*old(self)), key@) + n <= i64::MAX,
        ensures
            unique_keys(*final(self)),
            counts(*final(self)) == counts(*old(self)).insert(key@, count_at(counts(*old(self)), key@) + n),
    {
        let v = self.get(key);
        self.set(key, v + n);
    }
}

/// Adding to a counter changes that counter only, by what was added.
pub proof fn law_counter_add(before: Map<Seq<char>, int>, key: Seq<char>, n: int, other: Seq<char>)
    requires
        other != key,
    ensures
        count_at(before.insert(key, count_at(before, key) + n), key) == count_at(before, key) + n,
        count_at(before.insert(key, count_at(before, key) + n), other) == count_at(before, other),
{
}

// ---------------------------------------------------------------------------
// Chat statistics
// ---------------------------------------------------------------------------

/// The key under which a ring's messages are counted.
pub fn ring_key(ring_id: &str) -> (r: String)
    ensures
        r@ == "ring_"@ + ring_id@,
{
    let mut r = owned("ring_");
    push_str(&mut r, ring_id);
    r
}

/// The key under which a day's messages are counted.
pub fn daily_key(date: &str) -> (r: String)
    ensures
        r@ == "daily_"@ + date@,
{
    let mut r = owned("daily_");
    push_str(&mut r, date);
    r
}

/// The average of `chars` over `messages`, rounded toward zero; 0 when
/// there are no messages.
pub open spec fn whole_average(chars: int, messages: int) -> int {
    if messages <= 0 {
        0
    } else if chars >= 0 {
        chars / messages
    } else {
        -((-chars) / messages)
    }
}

/// Counts one chat message of `content_len` bytes, sent in a ring or in the
/// Self space on day `date`: the totals of messages and characters, their
/// average (whole characters per message), the ring's count or the Self
/// space's, and the day's count all grow.
pub fn record_chat_message(stats: &mut CounterMap, ring_id: Option<&str>, date: &str, content_len: usize)
    requires
        unique_keys(*old(stats)),
        content_len <= i64::MAX,
        count_at(counts(*old(stats)), "total_chars"@) + content_len <= i64::MAX,
        forall|k: Seq<char>| count_at(counts(*old(stats)), k) < i64::MAX,
    ensures
        unique_keys(*final(stats)),
        count_at(counts(*final(stats)), "total_messages"@) == count_at(counts(*old(stats)), "total_messages"@) + 1,
        count_at(counts(*final(stats)), "total_chars"@) == count_at(counts(*old(stats)), "total_chars"@)
            + content_len,
        count_at(counts(*final(stats)), "avg_message_length"@) == whole_average(
            count_at(counts(*old(stats)), "total_chars"@) + content_len,
            count_at(counts(*old(stats)), "total_messages"@) + 1,
        ),
        match ring_id {
            Some(id) => count_at(counts(*final(stats)), "ring_"@ + id@) == count_at(
                counts(*old(stats)),
                "ring_"@ + id@,
            ) + 1,
            None => count_at(counts(*final(stats)), "self_messages"@) == count_at(
                counts(*old(stats)),
                "self_messages"@,
            ) + 1,
        },
        count_at(counts(*final(stats)), "daily_"@ + date@) == count_at(counts(*old(stats)), "daily_"@ + date@)
            + 1,
{
    proof {
        lemma_counts_range(stats.entries@, "total_chars"@);
    }
    let messages = stats.get("total_messages") + 1;
    let chars = stats.get("total_chars") + content_len as i64;
    let avg = if messages > 0 {
        chars / messages
    } else {
        0
    };
    proof {
        reveal_strlit("total_messages");
        reveal_strlit("total_chars");
        reveal_strlit("avg_message_length");
        reveal_strlit("self_messages");
        reveal_strlit("ring_");
        reveal_strlit("daily_");
        assert("total_messages"@[0] != "avg_message_length"@[0]);
        assert("total_chars"@[6] != "total_messages"@[6]);
    }
    stats.set("total_messages", messages);
    stats.set("total_chars", chars);
    stats.set("avg_message_length", avg);
    let ghost mid = counts(*stats);
    match ring_id {
        Some(id) => {
            let k = ring_key(id);
            proof {
                assert(k@[0] == 'r');
                assert(k@ != "total_messages"@ && k@ != "total_chars"@ && k@ != "avg_message_length"@);
                assert(count_at(counts(*stats), k@) == count_at(counts(*old(stats)), k@));
                lemma_counts_range(old(stats).entries@, k@);
            }
            stats.add(k.as_str(), 1);
        },
        None => {
            proof {
                assert("self_messages"@[0] != "total_messages"@[0]);
                assert("self_messages"@[0] != "avg_message_length"@[0]);
                assert(count_at(counts(*stats), "self_messages"@) == count_at(
                    counts(*old(stats)),
                    "self_messages"@,
                ));
                lemma_counts_range(old(stats).entries@, "self_messages"@);
            }
            stats.add("self_messages", 1);
        },
    }
    let d = daily_key(date);
    proof {
        assert(d@[0] == 'd');
        assert(d@ != "total_messages"@ && d@ != "total_chars"@ && d@ != "avg_message_length"@);
        assert(d@ != "self_messages"@);
        lemma_counts_range(stats.entries@, d@);
        match ring_id {
            Some(id) => {
                assert(("ring_"@ + id@)[0] == 'r');
            },
            None => {},
        }
        assert(count_at(counts(*stats), d@) == count_at(counts(*old(stats)), d@));
    }
    stats.add(d.as_str(), 1);
}

/// Whether today's greeting is the first: no message counted today yet.
pub fn first_today(todays_count: Option<i64>) -> (r: bool)
    ensures
        r == !(todays_count matches Some(n) && n > 0),
{
    match todays_count {
        Some(n) => n <= 0,
        None => true,
    }
}

// ---------------------------------------------------------------------------
// Time spent on views
// ---------------------------------------------------------------------------
// Sessions, archives, rings and tools
// ---------------------------------------------------------------------------

/// Counts one more session.
pub fn record_session_created(stats: &mut CounterMap)
    requires
        unique_keys(*old(stats)),
        count_at(counts(*old(stats)), "total_sessions"@) < i64::MAX,
    ensures
        unique_keys(*final(stats)),
        counts(*final(stats)) == counts(*old(stats)).insert(
            "total_sessions"@,
            count_at(counts(*old(stats)), "total_sessions"@) + 1,
        ),
{
    proof {
        lemma_counts_range(stats.entries@, "total_sessions"@);
    }
    stats.add("total_sessions", 1);
}

/// Counts one more archive, in all and for its ring.
pub fn record_archive_operation(patterns: &mut CounterMap, ring_id: &str)
    requires
        unique_keys(*old(patterns)),
        count_at(counts(*old(patterns)), "total_archives"@) < i64::MAX,
        count_at(counts(*old(patterns)), "ring_"@ + ring_id@) < i64::MAX,
    ensures
        unique_keys(*final(patterns)),
        counts(*final(patterns)) == counts(*old(patterns)).insert(
            "total_archives"@,
            count_at(counts(*old(patterns)), "total_archives"@) + 1,
        ).insert(
            "ring_"@ + ring_id@,
            count_at(
                counts(*old(patterns)).insert(
                    "total_archives"@,
                    count_at(counts(*old(patterns)), "total_archives"@) + 1,
                ),
                "ring_"@ + ring_id@,
            ) + 1,
        ),
{
    proof {
        lemma_counts_range(patterns.entries@, "total_archives"@);
    }
    patterns.add("total_archives", 1);
    let k = ring_key(ring_id);
    proof {
        reveal_strlit("total_archives");
        reveal_strlit("ring_");
        assert("total_archives"@[0] != "ring_"@[0]);
        assert(k@[0] == 'r');
        assert(k@ != "total_archives"@);
        lemma_counts_range(patterns.entries@, k@);
    }
    patterns.add(k.as_str(), 1);
}

/// Counts one more use of a tool.
pub fn record_tool_usage(tools: &mut CounterMap, tool_name: &str)
    requires
        unique_keys(*old(tools)),
        count_at(counts(*old(tools)), tool_name@) < i64::MAX,
    ensures
        unique_keys(*final(tools)),
        counts(*final(tools)) == counts(*old(tools)).insert(tool_name@, count_at(counts(*old(tools)), tool_name@) + 1),
{
    proof {
        lemma_counts_range(tools.entries@, tool_name@);
    }
    tools.add(tool_name, 1);
}

/// A ring the user joined.
pub struct JoinedRing {
    pub id: String,
    pub name: String,
    pub joined_at: String,
}

/// The rings the user joined, and how many times one was joined.
pub struct RingActivity {
    pub total_rings: i64,
    pub rings: Vec<JoinedRing>,
}

/// Records joining a ring: the count always grows; the ring is listed
/// once, when first joined.
pub fn record_ring_joined(activity: &mut RingActivity, ring_id: &str, ring_name: &str, joined_at: &str)
    requires
        old(activity).total_rings < i64::MAX,
    ensures
        final(activity).total_rings == old(activity).total_rings + 1,
        (exists|i: int| 0 <= i < old(activity).rings@.len() && (#[trigger] old(activity).rings@[i]).id@ == ring_id@)
            ==> final(activity).rings@ == old(activity).rings@,
        !(exists|i: int| 0 <= i < old(activity).rings@.len() && (#[trigger] old(activity).rings@[i]).id@ == ring_id@)
            ==> {
            &&& final(activity).rings@.drop_last() == old(activity).rings@
            &&& final(activity).rings@.len() == old(activity).rings@.len() + 1
            &&& final(activity).rings@.last().id@ == ring_id@
            &&& final(activity).rings@.last().name@ == ring_name@
            &&& final(activity).rings@.last().joined_at@ == joined_at@
        },
{
    activity.total_rings = activity.total_rings + 1;
    let mut i: usize = 0;
    while i < activity.rings.len()
        invariant
            i <= activity.rings@.len(),
            activity.rings@ == old(activity).rings@,
            activity.total_rings == old(activity).total_rings + 1,
            forall|j: int| 0 <= j < i ==> (#[trigger] activity.rings@[j]).id@ != ring_id@,
        decreases activity.rings@.len() - i,
    {
        if str_eq(activity.rings[i].id.as_str(), ring_id) {
            return;
        }
        i += 1;
    }
    let ghost before = activity.rings@;
    activity.rings.push(JoinedRing { id: owned(ring_id), name: owned(ring_name), joined_at: owned(joined_at) });
    proof {
        assert(activity.rings@.drop_last() =~= before);
    }
}

// ---------------------------------------------------------------------------

/// Seconds spent per view, in all and today.
pub struct DwellTime {
    pub views: CounterMap,
    pub today: CounterMap,
}

/// A heartbeat's seconds as they are added to a stored total: the `u64`
/// taken as an `i64`.
pub open spec fn seconds_added(seconds: u64) -> int {
    (seconds as i64) as int
}

/// The buffered seconds for a view, summed over a buffer.
pub open spec fn buffered(buffer: Seq<(String, u64)>, view: Seq<char>) -> int
    decreases buffer.len(),
{
    if buffer.len() == 0 {
        0
    } else {
        buffered(buffer.drop_last(), view) + if buffer.last().0@ == view {
            seconds_added(buffer.last().1)
        } else {
            0
        }
    }
}

/// Records one heartbeat: `seconds` more on a view, in all and today.
pub fn record_dwell_heartbeat(dwell: &mut DwellTime, view: &str, seconds: u64)
    requires
        unique_keys(old(dwell).views),
        unique_keys(old(dwell).today),
        i64::MIN <= count_at(counts(old(dwell).views), view@) + seconds_added(seconds) <= i64::MAX,
        i64::MIN <= count_at(counts(old(dwell).today), view@) + seconds_added(seconds) <= i64::MAX,
    ensures
        unique_keys(final(dwell).views),
        unique_keys(final(dwell).today),
        counts(final(dwell).views) == counts(old(dwell).views).insert(
            view@,
            count_at(counts(old(dwell).views), view@) + seconds_added(seconds),
        ),
        counts(final(dwell).today) == counts(old(dwell).today).insert(
            view@,
            count_at(counts(old(dwell).today), view@) + seconds_added(seconds),
        ),
{
    dwell.views.add(view, seconds as i64);
    dwell.today.add(view, seconds as i64);
}

/// Whether every total stays within range while a buffer is added, entry
/// by entry.
pub open spec fn room_for(m: Map<Seq<char>, int>, buffer: Seq<(String, u64)>) -> bool {
    forall|v: Seq<char>, n: int|
        0 <= n <= buffer.len() ==> i64::MIN <= count_at(m, v) + #[trigger] buffered(buffer.take(n), v)
            <= i64::MAX
}

/// Writes out a buffer of heartbeats: each view's seconds in the buffer are
/// added to its totals, in all and today; views not in the buffer keep
/// theirs.
pub fn flush_dwell_buffer(dwell: &mut DwellTime, buffer: &Vec<(String, u64)>)
    requires
        unique_keys(old(dwell).views),
        unique_keys(old(dwell).today),
        room_for(counts(old(dwell).views), buffer@),
        room_for(counts(old(dwell).today), buffer@),
    ensures
        unique_keys(final(dwell).views),
        unique_keys(final(dwell).today),
        forall|v: Seq<char>|
            #[trigger] count_at(counts(final(dwell).views), v) == count_at(counts(old(dwell).views), v)
                + buffered(buffer@, v),
        forall|v: Seq<char>|
            #[trigger] count_at(counts(final(dwell).today), v) == count_at(counts(old(dwell).today), v)
                + buffered(buffer@, v),
{
    let ghost v0 = counts(dwell.views);
    let ghost t0 = counts(dwell.today);
    let mut i: usize = 0;
    while i < buffer.len()
        invariant
            i <= buffer@.len(),
            unique_keys(dwell.views),
            unique_keys(dwell.today),
            room_for(v0, buffer@),
            room_for(t0, buffer@),
            forall|v: Seq<char>|
                #[trigger] count_at(counts(dwell.views), v) == count_at(v0, v) + buffered(buffer@.take(i as int), v),
            forall|v: Seq<char>|
                #[trigger] count_at(counts(dwell.today), v) == count_at(t0, v) + buffered(buffer@.take(i as int), v),
        decreases buffer@.len() - i,
    {
        let (view, seconds) = (&buffer[i].0, buffer[i].1);
        proof {
            let pre = buffer@.take(i as int);
            let post = buffer@.take(i + 1);
            assert(post.drop_last() =~= pre);
            assert(post.last() == buffer@[i as int]);
            assert(buffered(post, view@) == buffered(pre, view@) + seconds_added(seconds));
            assert(i64::MIN <= count_at(v0, view@) + buffered(post, view@) <= i64::MAX);
            assert(i64::MIN <= count_at(t0, view@) + buffered(post, view@) <= i64::MAX);
        }
        let ghost vb = counts(dwell.views);
        let ghost tb = counts(dwell.today);
        record_dwell_heartbeat(dwell, view.as_str(), seconds);
        proof {
            let pre = buffer@.take(i as int);
            let post = buffer@.take(i + 1);
            assert(post.drop_last() =~= pre);
            assert(post.last() == buffer@[i as int]);
            assert forall|v: Seq<char>|
                #[trigger] count_at(counts(dwell.views), v) == count_at(v0, v) + buffered(post, v) by {
                assert(buffered(post, v) == buffered(pre, v) + if buffer@[i as int].0@ == v {
                    seconds_added(seconds)
                } else {
                    0
                });
                assert(count_at(vb, v) == count_at(v0, v) + buffered(pre, v));
            }
            assert forall|v: Seq<char>|
                #[trigger] count_at(counts(dwell.today), v) == count_at(t0, v) + buffered(post, v) by {
                assert(buffered(post, v) == buffered(pre, v) + if buffer@[i as int].0@ == v {
                    seconds_added(seconds)
                } else {
                    0
                });
                assert(count_at(tb, v) == count_at(t0, v) + buffered(pre, v));
            }
        }
        i += 1;
    }
    proof {
        assert(buffer@.take(buffer@.len() as int) =~= buffer@);
    }
}

// ---------------------------------------------------------------------------
// The daily greeting
// ---------------------------------------------------------------------------

/// What the daily greeting is made from.
pub struct GreetingContext {
    pub date: String,
    pub user_profile: String,
    pub active_goals: String,
    pub most_active_ring: String,
}

/// The rings' message counts among chat statistics given in key order: the
/// keys that start with `ring_` and hold a whole number, with the prefix
/// taken off.
pub open spec fn ring_counts_of(stats: Seq<(String, Option<i64>)>) -> Seq<(Seq<char>, i64)>
    decreases stats.len(),
{
    if stats.len() == 0 {
        Seq::empty()
    } else {
        let prev = ring_counts_of(stats.drop_last());
        let (k, v) = stats.last();
        match v {
            Some(n) => if "ring_"@.is_prefix_of(k@) {
                prev.push((k@.skip(5), n))
            } else {
                prev
            },
            None => prev,
        }
    }
}

pub open spec fn count_pairs(v: Seq<(String, i64)>) -> Seq<(Seq<char>, i64)> {
    v.map_values(|e: (String, i64)| (e.0@, e.1))
}

/// The rings' message counts (see `ring_counts_of`).
pub fn ring_counts(stats: &Vec<(String, Option<i64>)>) -> (r: Vec<(String, i64)>)
    ensures
        count_pairs(r@) == ring_counts_of(stats@),
{
    let mut r: Vec<(String, i64)> = Vec::new();
    let prefix = chars_of("ring_");
    proof {
        reveal_strlit("ring_");
    }
    let mut i: usize = 0;
    while i < stats.len()
        invariant
            i <= stats@.len(),
            prefix@ == "ring_"@,
            count_pairs(r@) == ring_counts_of(stats@.take(i as int)),
        decreases stats@.len() - i,
    {
        let key = chars_of(stats[i].0.as_str());
        let ghost before = r@;
        proof {
            assert(stats@.take(i + 1).drop_last() =~= stats@.take(i as int));
            assert(stats@.take(i + 1).last() == stats@[i as int]);
        }
        match stats[i].1 {
            Some(n) => {
                if crate::text::starts_with(key.as_slice(), prefix.as_slice()) {
                    let rest = crate::text::slice_chars(key.as_slice(), prefix.len(), key.len());
                    r.push((string_of(rest.as_slice()), n));
                    proof {
                        reveal_strlit("ring_");
                        assert("ring_"@.len() == 5);
                        assert(key@ == stats@[i as int].0@);
                        assert(key@.subrange(5, key@.len() as int) =~= key@.skip(5));
                        assert(count_pairs(r@) =~= count_pairs(before).push((key@.skip(5), n)));
                    }
                }
            },
            None => {},
        }
        i += 1;
    }
    proof {
        assert(stats@.take(stats@.len() as int) =~= stats@);
    }
    r
}

/// The index of the first of the highest counts.
pub open spec fn is_first_max(counts: Seq<(String, i64)>, k: int) -> bool {
    &&& 0 <= k < counts.len()
    &&& forall|j: int| 0 <= j < counts.len() ==> (#[trigger] counts[j]).1 <= counts[k].1
    &&& forall|j: int| 0 <= j < k ==> (#[trigger] counts[j]).1 < counts[k].1
}

/// The ring with the most messages (the first of those, in key order, when
/// several have as many); none without counts.
pub fn most_active_ring(counts: &Vec<(String, i64)>) -> (r: String)
    ensures
        counts@.len() == 0 ==> r@.len() == 0,
        counts@.len() > 0 ==> exists|k: int| is_first_max(counts@, k) && r@ == counts@[k].0@,
{
    if counts.len() == 0 {
        return String::new();
    }
    let mut best: usize = 0;
    let mut i: usize = 1;
    while i < counts.len()
        invariant
            1 <= i <= counts@.len(),
            best < i,
            forall|j: int| 0 <= j < i ==> (#[trigger] counts@[j]).1 <= counts@[best as int].1,
            forall|j: int| 0 <= j < best ==> (#[trigger] counts@[j]).1 < counts@[best as int].1,
        decreases counts@.len() - i,
    {
        if counts[i].1 > counts[best].1 {
            best = i;
        }
        i += 1;
    }
    proof {
        assert(is_first_max(counts@, best as int));
    }
    counts[best].0.clone()
}

} // verus!
