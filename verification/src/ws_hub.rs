//! Who is connected over WebSocket and who follows which live session.
//!
//! The hub keeps the bookkeeping; the connections themselves (the channels a
//! message is sent on) are held by the server, which asks the hub whom a
//! message should reach.
use vstd::prelude::*;

use crate::session::{
    distinct, no_repeats, participant_set, token_set, tokens_has, tokens_insert, tokens_remove,
    lemma_to_set_push, SessionChannel,
};
use crate::text::str_eq;

verus! {

/// A live session as the hub sees it: its owner and its participants.
pub open spec fn channel_view(c: SessionChannel) -> (Seq<char>, Set<Seq<char>>) {
    (c.owner@, participant_set(c))
}

/// The live sessions by id; a later entry for an id stands over an earlier.
pub open spec fn sessions_map(s: Seq<(String, SessionChannel)>) -> Map<Seq<char>, (Seq<char>, Set<Seq<char>>)>
    decreases s.len(),
{
    if s.len() == 0 {
        Map::empty()
    } else {
        sessions_map(s.drop_last()).insert(s.last().0@, channel_view(s.last().1))
    }
}

/// No session id is listed twice.
pub open spec fn unique_ids(s: Seq<(String, SessionChannel)>) -> bool {
    forall|i: int, j: int| 0 <= i < j < s.len() ==> (#[trigger] s[i]).0@ != (#[trigger] s[j]).0@
}

/// An id is in the map exactly when some entry has it.
pub proof fn lemma_sessions_dom(s: Seq<(String, SessionChannel)>, k: Seq<char>)
    ensures
        sessions_map(s).dom().contains(k) <==> exists|i: int| 0 <= i < s.len() && (#[trigger] s[i]).0@ == k,
    decreases s.len(),
{
    if s.len() > 0 {
        lemma_sessions_dom(s.drop_last(), k);
        if sessions_map(s).dom().contains(k) && s.last().0@ != k {
            let i = choose|i: int| 0 <= i < s.drop_last().len() && (#[trigger] s.drop_last()[i]).0@ == k;
            assert(s[i] == s.drop_last()[i]);
        }
        if exists|i: int| 0 <= i < s.len() && (#[trigger] s[i]).0@ == k {
            let i = choose|i: int| 0 <= i < s.len() && (#[trigger] s[i]).0@ == k;
            if i < s.len() - 1 {
                assert(s.drop_last()[i] == s[i]);
            }
        }
    }
}

/// With ids unique, the map gives each entry's session under its id.
pub proof fn lemma_sessions_at(s: Seq<(String, SessionChannel)>, i: int)
    requires
        unique_ids(s),
        0 <= i < s.len(),
    ensures
        sessions_map(s).dom().contains(s[i].0@),
        sessions_map(s)[s[i].0@] == channel_view(s[i].1),
    decreases s.len(),
{
    if i < s.len() - 1 {
        assert(unique_ids(s.drop_last()));
        assert(s.drop_last()[i] == s[i]);
        lemma_sessions_at(s.drop_last(), i);
        assert(s[i].0@ != s[s.len() - 1].0@);
    }
}

/// With ids unique, dropping an entry drops its id from the map.
pub proof fn lemma_sessions_remove(s: Seq<(String, SessionChannel)>, i: int)
    requires
        unique_ids(s),
        0 <= i < s.len(),
    ensures
        sessions_map(s.remove(i)) == sessions_map(s).remove(s[i].0@),
        unique_ids(s.remove(i)),
        forall|j: int| 0 <= j < s.remove(i).len() ==> (#[trigger] s.remove(i)[j]).0@ != s[i].0@,
    decreases s.len(),
{
    let k = s[i].0@;
    assert forall|j: int| 0 <= j < s.remove(i).len() implies (#[trigger] s.remove(i)[j]).0@ != k by {
        if j < i {
            assert(s.remove(i)[j] == s[j]);
        } else {
            assert(s.remove(i)[j] == s[j + 1]);
        }
    }
    assert forall|a: int, b: int| 0 <= a < b < s.remove(i).len() implies (#[trigger] s.remove(i)[a]).0@
        != (#[trigger] s.remove(i)[b]).0@ by {
        let a2 = if a < i { a } else { a + 1 };
        let b2 = if b < i { b } else { b + 1 };
        assert(s.remove(i)[a] == s[a2]);
        assert(s.remove(i)[b] == s[b2]);
    }
    if i == s.len() - 1 {
        assert(s.remove(i) =~= s.drop_last());
        lemma_sessions_dom(s.drop_last(), k);
        if sessions_map(s.drop_last()).dom().contains(k) {
            let j = choose|j: int| 0 <= j < s.drop_last().len() && (#[trigger] s.drop_last()[j]).0@ == k;
            assert(s[j] == s.drop_last()[j]);
        }
        assert(sessions_map(s.drop_last()) =~= sessions_map(s).remove(k));
    } else {
        let d = s.drop_last();
        assert(unique_ids(d));
        assert(d[i] == s[i]);
        lemma_sessions_remove(d, i);
        assert(s.remove(i).drop_last() =~= d.remove(i));
        assert(s.remove(i).last() == s.last());
        assert(s.last().0@ != k);
        assert(sessions_map(s.remove(i)) =~= sessions_map(s).remove(k));
    }
}

/// Who is connected, and the live sessions.
pub struct WsHub {
    connections: Vec<String>,
    sessions: Vec<(String, SessionChannel)>,
}

impl WsHub {
    /// The tokens with an open connection.
    pub closed spec fn online(&self) -> Set<Seq<char>> {
        token_set(self.connections@)
    }

    /// The live sessions by id: owner and participants.
    pub closed spec fn channels(&self) -> Map<Seq<char>, (Seq<char>, Set<Seq<char>>)> {
        sessions_map(self.sessions@)
    }

    /// Each connection and each session is listed once, and each session
    /// lists each participant once.
    pub closed spec fn wf(&self) -> bool {
        &&& distinct(self.connections@)
        &&& unique_ids(self.sessions@)
        &&& forall|i: int| 0 <= i < self.sessions@.len() ==> no_repeats(#[trigger] self.sessions@[i].1)
    }

    /// The ids of the sessions a token owns.
    pub open spec fn owned_by(&self, token_id: Seq<char>) -> Set<Seq<char>> {
        Set::new(|sid: Seq<char>| self.channels().dom().contains(sid) && self.channels()[sid].0 == token_id)
    }

    /// A hub with no connection and no session.
    pub fn new() -> (r: WsHub)
        ensures
            r.wf(),
            r.online() == Set::<Seq<char>>::empty(),
            r.channels() == Map::<Seq<char>, (Seq<char>, Set<Seq<char>>)>::empty(),
    {
        let r = WsHub { connections: Vec::new(), sessions: Vec::new() };
        proof {
            assert(r.online() =~= Set::<Seq<char>>::empty());
        }
        r
    }

    /// Where the session with an id is listed, if it is.
    fn find_session(&self, session_id: &str) -> (r: Option<usize>)
        ensures
            match r {
                Some(i) => i < self.sessions@.len() && self.sessions@[i as int].0@ == session_id@,
                None => forall|i: int| 0 <= i < self.sessions@.len() ==> (#[trigger] self.sessions@[i]).0@ != session_id@,
            },
    {
        let mut i: usize = 0;
        while i < self.sessions.len()
            invariant
                i <= self.sessions@.len(),
                forall|j: int| 0 <= j < i ==> (#[trigger] self.sessions@[j]).0@ != session_id@,
            decreases self.sessions@.len() - i,
        {
            if str_eq(self.sessions[i].0.as_str(), session_id) {
                return Some(i);
            }
            i += 1;
        }
        None
    }

    /// Records a token's connection.
    pub fn register(&mut self, token_id: String)
        requires
            old(self).wf(),
        ensures
            final(self).wf(),
            final(self).online() == old(self).online().insert(token_id@),
            final(self).channels() == old(self).channels(),
    {
        tokens_insert(&mut self.connections, token_id);
    }

    /// Forgets a token's connection; gives the sessions it owns, which are
    /// paused until it comes back.
    pub fn unregister(&mut self, token_id: &str) -> (r: Vec<String>)
        requires
            old(self).wf(),
        ensures
            final(self).wf(),
            final(self).online() == old(self).online().remove(token_id@),
            final(self).channels() == old(self).channels(),
            token_set(r@) == old(self).owned_by(token_id@),
    {
        tokens_remove(&mut self.connections, token_id);
        self.sessions_owned_by(token_id)
    }

    /// The ids of the sessions a token owns.
    pub fn sessions_owned_by(&self, token_id: &str) -> (r: Vec<String>)
        requires
            self.wf(),
        ensures
            token_set(r@) == self.owned_by(token_id@),
    {
        let ghost s = self.sessions@;
        let mut r: Vec<String> = Vec::new();
        let mut i: usize = 0;
        while i < self.sessions.len()
            invariant
                i <= s.len(),
                s == self.sessions@,
                forall|x: Seq<char>|
                    #[trigger] token_set(r@).contains(x) <==> exists|j: int|
                        0 <= j < i && (#[trigger] s[j]).0@ == x && s[j].1.owner@ == token_id@,
            decreases s.len() - i,
        {
            let ghost rb = r@;
            let hit = str_eq(self.sessions[i].1.owner.as_str(), token_id);
            if hit {
                r.push(self.sessions[i].0.clone());
                proof {
                    let ghost f = |p: String| p@;
                    assert(r@.map_values(f) =~= rb.map_values(f).push(s[i as int].0@));
                    lemma_to_set_push(rb.map_values(f), s[i as int].0@);
                }
            }
            proof {
                if !hit {
                    assert(r@ == rb);
                }
                assert forall|x: Seq<char>|
                    #[trigger] token_set(r@).contains(x) <==> exists|j: int|
                        0 <= j < i + 1 && (#[trigger] s[j]).0@ == x && s[j].1.owner@ == token_id@ by {
                    if exists|j: int| 0 <= j < i + 1 && (#[trigger] s[j]).0@ == x && s[j].1.owner@ == token_id@ {
                        let j = choose|j: int| 0 <= j < i + 1 && (#[trigger] s[j]).0@ == x && s[j].1.owner@ == token_id@;
                        if j < i {
                            assert(exists|j2: int| 0 <= j2 < i && (#[trigger] s[j2]).0@ == x && s[j2].1.owner@ == token_id@);
                        }
                    }
                    assert(token_set(rb).contains(x) <==> exists|j: int|
                        0 <= j < i && (#[trigger] s[j]).0@ == x && s[j].1.owner@ == token_id@);
                    if token_set(rb).contains(x) {
                        let j = choose|j: int| 0 <= j < i && (#[trigger] s[j]).0@ == x && s[j].1.owner@ == token_id@;
                        assert(0 <= j < i + 1 && s[j].0@ == x);
                    }
                }
            }
            i += 1;
        }
        proof {
            assert forall|x: Seq<char>| token_set(r@).contains(x) == self.owned_by(token_id@).contains(x) by {
                lemma_sessions_dom(s, x);
                if token_set(r@).contains(x) {
                    let j = choose|j: int| 0 <= j < s.len() && (#[trigger] s[j]).0@ == x && s[j].1.owner@ == token_id@;
                    lemma_sessions_at(s, j);
                }
                if self.owned_by(token_id@).contains(x) {
                    let j = choose|j: int| 0 <= j < s.len() && (#[trigger] s[j]).0@ == x;
                    lemma_sessions_at(s, j);
                }
            }
            assert(token_set(r@) =~= self.owned_by(token_id@));
        }
        r
    }

    /// Opens a live session (replacing one with the same id).
    pub fn register_session(&mut self, session_id: String, owner: String, participants: &Vec<String>)
        requires
            old(self).wf(),
        ensures
            final(self).wf(),
            final(self).online() == old(self).online(),
            final(self).channels() == old(self).channels().insert(
                session_id@,
                (owner@, participants@.map_values(|p: String| p@).to_set()),
            ),
    {
        let ghost sid = session_id@;
        match self.find_session(session_id.as_str()) {
            Some(i) => {
                proof {
                    lemma_sessions_remove(self.sessions@, i as int);
                }
                let ghost s0 = self.sessions@;
                let _ = self.sessions.remove(i);
                proof {
                    assert(self.sessions@ =~= s0.remove(i as int));
                    assert forall|k: int| 0 <= k < self.sessions@.len() implies no_repeats(
                        #[trigger] self.sessions@[k].1,
                    ) by {
                        if k < i {
                            assert(self.sessions@[k] == s0[k]);
                        } else {
                            assert(self.sessions@[k] == s0[k + 1]);
                        }
                    }
                }
            },
            None => {
                proof {
                    lemma_sessions_dom(self.sessions@, sid);
                    assert(sessions_map(self.sessions@).remove(sid) =~= sessions_map(self.sessions@));
                }
            },
        }
        let ghost mid = self.sessions@;
        let channel = SessionChannel::new(owner, participants);
        self.sessions.push((session_id, channel));
        proof {
            assert(self.sessions@.drop_last() =~= mid);
            assert(self.channels() =~= old(self).channels().insert(
                sid,
                (self.sessions@.last().1.owner@, participants@.map_values(|p: String| p@).to_set()),
            ));
            assert forall|i: int| 0 <= i < self.sessions@.len() implies no_repeats(#[trigger] self.sessions@[i].1) by {
                if i < mid.len() {
                    assert(self.sessions@[i] == mid[i]);
                }
            }
        }
    }

    /// Adds a participant to a live session; nothing when there is none.
    pub fn add_session_participant(&mut self, session_id: &str, token_id: String)
        requires
            old(self).wf(),
        ensures
            final(self).wf(),
            final(self).online() == old(self).online(),
            final(self).channels() == if old(self).channels().dom().contains(session_id@) {
                old(self).channels().insert(
                    session_id@,
                    (old(self).channels()[session_id@].0, old(self).channels()[session_id@].1.insert(token_id@)),
                )
            } else {
                old(self).channels()
            },
    {
        match self.find_session(session_id) {
            Some(i) => {
                proof {
                    lemma_sessions_at(self.sessions@, i as int);
                    lemma_sessions_remove(self.sessions@, i as int);
                }
                let ghost s0 = self.sessions@;
                let (sid, mut channel) = self.sessions.remove(i);
                channel.add(token_id);
                let ghost mid = self.sessions@;
                self.sessions.push((sid, channel));
                proof {
                    assert(mid =~= s0.remove(i as int));
                    assert(self.sessions@.drop_last() =~= mid);
                    assert(self.channels() =~= old(self).channels().insert(
                        session_id@,
                        (old(self).channels()[session_id@].0, old(self).channels()[session_id@].1.insert(token_id@)),
                    ));
                }
            },
            None => {
                proof {
                    lemma_sessions_dom(self.sessions@, session_id@);
                }
            },
        }
    }

    /// Removes a participant from a live session; nothing when there is none.
    pub fn remove_session_participant(&mut self, session_id: &str, token_id: &str)
        requires
            old(self).wf(),
        ensures
            final(self).wf(),
            final(self).online() == old(self).online(),
            final(self).channels() == if old(self).channels().dom().contains(session_id@) {
                old(self).channels().insert(
                    session_id@,
                    (old(self).channels()[session_id@].0, old(self).channels()[session_id@].1.remove(token_id@)),
                )
            } else {
                old(self).channels()
            },
    {
        match self.find_session(session_id) {
            Some(i) => {
                proof {
                    lemma_sessions_at(self.sessions@, i as int);
                    lemma_sessions_remove(self.sessions@, i as int);
                }
                let ghost s0 = self.sessions@;
                let (sid, mut channel) = self.sessions.remove(i);
                channel.remove(token_id);
                let ghost mid = self.sessions@;
                self.sessions.push((sid, channel));
                proof {
                    assert(mid =~= s0.remove(i as int));
                    assert(self.sessions@.drop_last() =~= mid);
                    assert(self.channels() =~= old(self).channels().insert(
                        session_id@,
                        (old(self).channels()[session_id@].0, old(self).channels()[session_id@].1.remove(token_id@)),
                    ));
                }
            },
            None => {
                proof {
                    lemma_sessions_dom(self.sessions@, session_id@);
                }
            },
        }
    }

    /// Closes a live session.
    pub fn remove_session(&mut self, session_id: &str)
        requires
            old(self).wf(),
        ensures
            final(self).wf(),
            final(self).online() == old(self).online(),
            final(self).channels() == old(self).channels().remove(session_id@),
    {
        match self.find_session(session_id) {
            Some(i) => {
                proof {
                    lemma_sessions_remove(self.sessions@, i as int);
                }
                let _ = self.sessions.remove(i);
            },
            None => {
                proof {
                    lemma_sessions_dom(self.sessions@, session_id@);
                    assert(old(self).channels().remove(session_id@) =~= old(self).channels());
                }
            },
        }
    }

    /// Whom a message to a session reaches: its participants that are
    /// connected (nobody when there is no such session).
    pub fn broadcast_to_session(&self, session_id: &str) -> (r: Vec<String>)
        requires
            self.wf(),
        ensures
            token_set(r@) == if self.channels().dom().contains(session_id@) {
                self.channels()[session_id@].1.intersect(self.online())
            } else {
                Set::<Seq<char>>::empty()
            },
    {
        match self.find_session(session_id) {
            Some(i) => {
                proof {
                    lemma_sessions_at(self.sessions@, i as int);
                }
                let parts = &self.sessions[i].1.participants;
                let ghost ps = parts@.map_values(|p: String| p@);
                let mut r: Vec<String> = Vec::new();
                let mut j: usize = 0;
                proof {
                    assert(token_set(r@) =~= Set::<Seq<char>>::empty());
                    assert(parts@.take(0).map_values(|p: String| p@).to_set() =~= Set::<Seq<char>>::empty());
                }
                while j < parts.len()
                    invariant
                        j <= parts@.len(),
                        ps == parts@.map_values(|p: String| p@),
                        token_set(r@) == parts@.take(j as int).map_values(|p: String| p@).to_set().intersect(
                            self.online(),
                        ),
                    decreases parts@.len() - j,
                {
                    let ghost before = r@;
                    let ghost f = |p: String| p@;
                    proof {
                        assert(parts@.take(j + 1).map_values(f) =~= parts@.take(j as int).map_values(f).push(
                            parts@[j as int]@,
                        ));
                        lemma_to_set_push(parts@.take(j as int).map_values(f), parts@[j as int]@);
                    }
                    if tokens_has(&self.connections, parts[j].as_str()) {
                        r.push(parts[j].clone());
                        proof {
                            assert(r@.map_values(f) =~= before.map_values(f).push(parts@[j as int]@));
                            lemma_to_set_push(before.map_values(f), parts@[j as int]@);
                        }
                    }
                    proof {
                        assert(token_set(r@) =~= parts@.take(j + 1).map_values(f).to_set().intersect(
                            self.online(),
                        ));
                    }
                    j += 1;
                }
                proof {
                    assert(parts@.take(parts@.len() as int) =~= parts@);
                }
                r
            },
            None => {
                proof {
                    lemma_sessions_dom(self.sessions@, session_id@);
                    assert(token_set(Seq::<String>::empty()) =~= Set::<Seq<char>>::empty());
                }
                Vec::new()
            },
        }
    }

    /// Whether a message to a token reaches an open connection.
    pub fn send_to_user(&self, token_id: &str) -> (r: bool)
        ensures
            r == self.online().contains(token_id@),
    {
        tokens_has(&self.connections, token_id)
    }

    /// Whether the owner of a live session is connected (false when there is
    /// no such session).
    pub fn is_session_owner_online(&self, session_id: &str) -> (r: bool)
        requires
            self.wf(),
        ensures
            r == (self.channels().dom().contains(session_id@) && self.online().contains(
                self.channels()[session_id@].0,
            )),
    {
        match self.find_session(session_id) {
            Some(i) => {
                proof {
                    lemma_sessions_at(self.sessions@, i as int);
                }
                tokens_has(&self.connections, self.sessions[i].1.owner.as_str())
            },
            None => {
                proof {
                    lemma_sessions_dom(self.sessions@, session_id@);
                }
                false
            },
        }
    }
}

/// A connected token can be reached until it disconnects; other tokens are
/// not affected by its coming and going.
pub proof fn law_connect_disconnect(h: WsHub, a: WsHub, b: WsHub, t: Seq<char>)
    requires
        a.online() == h.online().insert(t),
        b.online() == a.online().remove(t),
    ensures
        a.online().contains(t),
        !b.online().contains(t),
        forall|x: Seq<char>| x != t ==> (b.online().contains(x) == h.online().contains(x)),
{
}

} // verus!
