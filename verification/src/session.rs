//! Discussion sessions of a ring: who may open one, the phases a session
//! goes through, the checks on its owner's operations, the set of its
//! participants, and the request that asks for its summary.
use vstd::prelude::*;
use vstd::string::*;

use crate::access::manages;
use crate::error::RingError;
use crate::text::{owned, push_str, str_eq};

verus! {

// ---------------------------------------------------------------------------
// Opening a session
// ---------------------------------------------------------------------------

/// The skills a session can run.
pub open spec fn valid_skills() -> Seq<Seq<char>> {
    seq!["decision"@, "research"@, "review"@, "retrospective"@, "knowledge_sharing"@, "discussion"@]
}

/// Whether a session can run a skill.
pub fn is_valid_skill(skill: &str) -> (r: bool)
    ensures
        r == valid_skills().contains(skill@),
{
    let names: [&str; 6] = ["decision", "research", "review", "retrospective", "knowledge_sharing", "discussion"];
    let mut i: usize = 0;
    while i < 6
        invariant
            i <= 6,
            names@.map_values(|n: &str| n@) == valid_skills(),
            forall|j: int| 0 <= j < i ==> valid_skills()[j] != skill@,
        decreases 6 - i,
    {
        if str_eq(names[i], skill) {
            proof {
                assert(valid_skills()[i as int] == skill@);
            }
            return true;
        }
        i += 1;
    }
    false
}

/// A request to open a session: the opener's role and session grant,
/// whether the ring already has an open session, the skill, and each invitee
/// with whether they belong to the ring. Managers may always open one; other
/// members need the grant. There is at most one open session per ring, the
/// skill must be known, and every invitee must be a member.
pub fn check_session_creation(
    role: &str,
    has_grant: bool,
    has_active: bool,
    skill: &str,
    invitees: &Vec<(String, bool)>,
) -> (r: Result<(), RingError>)
    ensures
        !manages(role@) && !has_grant ==> (r matches Err(RingError::Forbidden(m)) && m@
            == "not authorized to create sessions"@),
        (manages(role@) || has_grant) && has_active ==> (r matches Err(RingError::Conflict(m)) && m@
            == "active session already exists"@),
        (manages(role@) || has_grant) && !has_active && !valid_skills().contains(skill@) ==> (r matches Err(
            RingError::BadRequest(m),
        ) && m@ == "invalid skill: "@ + skill@),
        (manages(role@) || has_grant) && !has_active && valid_skills().contains(skill@) ==> match r {
            Ok(_) => forall|i: int| 0 <= i < invitees@.len() ==> (#[trigger] invitees@[i]).1,
            Err(e) => exists|i: int|
                0 <= i < invitees@.len() && !(#[trigger] invitees@[i]).1 && (forall|j: int|
                    0 <= j < i ==> invitees@[j].1) && (e matches RingError::BadRequest(m) && m@
                    == "invitee "@ + invitees@[i].0@ + " is not a ring member"@),
        },
{
    if !crate::access::is_manager(role) && !has_grant {
        return Err(RingError::Forbidden(owned("not authorized to create sessions")));
    }
    if has_active {
        return Err(RingError::Conflict(owned("active session already exists")));
    }
    if !is_valid_skill(skill) {
        let mut m = owned("invalid skill: ");
        push_str(&mut m, skill);
        return Err(RingError::BadRequest(m));
    }
    check_invitees(invitees)
}

/// Every invitee must belong to the ring; the first who does not is named.
pub fn check_invitees(invitees: &Vec<(String, bool)>) -> (r: Result<(), RingError>)
    ensures
        match r {
            Ok(_) => forall|i: int| 0 <= i < invitees@.len() ==> (#[trigger] invitees@[i]).1,
            Err(e) => exists|i: int|
                0 <= i < invitees@.len() && !(#[trigger] invitees@[i]).1 && (forall|j: int|
                    0 <= j < i ==> invitees@[j].1) && (e matches RingError::BadRequest(m) && m@
                    == "invitee "@ + invitees@[i].0@ + " is not a ring member"@),
        },
{
    let mut i: usize = 0;
    while i < invitees.len()
        invariant
            i <= invitees@.len(),
            forall|j: int| 0 <= j < i ==> (#[trigger] invitees@[j]).1,
        decreases invitees@.len() - i,
    {
        if !invitees[i].1 {
            let mut m = owned("invitee ");
            push_str(&mut m, invitees[i].0.as_str());
            push_str(&mut m, " is not a ring member");
            let e = RingError::BadRequest(m);
            proof {
                assert(!invitees@[i as int].1);
            }
            return Err(e);
        }
        i += 1;
    }
    Ok(())
}

/// Whether opening a session with a skill starts preparing materials: every
/// skill but plain discussion does.
pub fn prepares_materials(skill: &str) -> (r: bool)
    ensures
        r == (skill@ != "discussion"@),
{
    !str_eq(skill, "discussion")
}

// ---------------------------------------------------------------------------
// Phases
// ---------------------------------------------------------------------------

/// What the owner does to a session's phase.
#[derive(PartialEq, Eq, Structural, Clone, Copy)]
pub enum PhaseChange {
    /// Leave material preparation and start discussing.
    Start,
    /// Close the session.
    Close,
    /// Reopen a closed session.
    Reopen,
}

/// The phase a session moves to, given its phase and whether another
/// session of the ring is open: a session starts only from
/// `material_prep`, closes only when not closed, and reopens only when
/// closed and no other session is open; starting and reopening lead to
/// `discussion`, closing to `closed`.
pub open spec fn next_phase(phase: Seq<char>, change: PhaseChange, other_active: bool) -> Option<Seq<char>> {
    match change {
        PhaseChange::Start => if phase == "material_prep"@ {
            Some("discussion"@)
        } else {
            None
        },
        PhaseChange::Close => if phase == "closed"@ {
            None
        } else {
            Some("closed"@)
        },
        PhaseChange::Reopen => if phase != "closed"@ || other_active {
            None
        } else {
            Some("discussion"@)
        },
    }
}

/// The phase a session moves to (see `next_phase`), or why it cannot.
pub fn change_phase(phase: &str, change: PhaseChange, other_active: bool) -> (r: Result<&'static str, RingError>)
    ensures
        match r {
            Ok(p) => next_phase(phase@, change, other_active) == Some(p@),
            Err(_) => next_phase(phase@, change, other_active) is None,
        },
        change == PhaseChange::Start && phase@ != "material_prep"@ ==> (r matches Err(
            RingError::BadRequest(m),
        ) && m@ == "session is not in material_prep phase"@),
        change == PhaseChange::Close && phase@ == "closed"@ ==> (r matches Err(RingError::BadRequest(m))
            && m@ == "session already closed"@),
        change == PhaseChange::Reopen && phase@ != "closed"@ ==> (r matches Err(
            RingError::BadRequest(m),
        ) && m@ == "session is not closed"@),
        change == PhaseChange::Reopen && phase@ == "closed"@ && other_active ==> (r matches Err(
            RingError::Conflict(m),
        ) && m@ == "active session already exists"@),
{
    match change {
        PhaseChange::Start => {
            if str_eq(phase, "material_prep") {
                Ok("discussion")
            } else {
                Err(RingError::BadRequest(owned("session is not in material_prep phase")))
            }
        },
        PhaseChange::Close => {
            if str_eq(phase, "closed") {
                Err(RingError::BadRequest(owned("session already closed")))
            } else {
                Ok("closed")
            }
        },
        PhaseChange::Reopen => {
            if !str_eq(phase, "closed") {
                Err(RingError::BadRequest(owned("session is not closed")))
            } else if other_active {
                Err(RingError::Conflict(owned("active session already exists")))
            } else {
                Ok("discussion")
            }
        },
    }
}

/// Closing is final until a reopening: a closed session cannot be closed or
/// started again, and reopening a session just closed (with no other session
/// open) brings it back to discussion.
pub proof fn law_close_then_reopen(phase: Seq<char>)
    requires
        phase != "closed"@,
    ensures
        next_phase(phase, PhaseChange::Close, false) == Some("closed"@),
        next_phase("closed"@, PhaseChange::Close, false) is None,
        next_phase("closed"@, PhaseChange::Start, false) is None,
        next_phase("closed"@, PhaseChange::Reopen, false) == Some("discussion"@),
        next_phase("closed"@, PhaseChange::Reopen, true) is None,
{
    reveal_strlit("closed");
    reveal_strlit("material_prep");
    assert("closed"@[0] != "material_prep"@[0]);
}

/// Only a session's owner may `what` it.
pub fn require_owner(is_owner: bool, what: &str) -> (r: Result<(), RingError>)
    ensures
        r is Ok <==> is_owner,
        r matches Err(e) ==> e matches RingError::Forbidden(m) && m@ == "only owner can "@ + what@,
{
    if is_owner {
        Ok(())
    } else {
        let mut m = owned("only owner can ");
        push_str(&mut m, what);
        Err(RingError::Forbidden(m))
    }
}

/// Only a session's participants may read its messages and materials.
pub fn require_participant(is_participant: bool) -> (r: Result<(), RingError>)
    ensures
        r is Ok <==> is_participant,
        r matches Err(e) ==> e matches RingError::Forbidden(m) && m@ == "not a session participant"@,
{
    if is_participant {
        Ok(())
    } else {
        Err(RingError::Forbidden(owned("not a session participant")))
    }
}

/// A session is looked up within its ring; one of another ring is not found.
pub fn require_in_ring(session_ring: &str, ring_id: &str) -> (r: Result<(), RingError>)
    ensures
        r is Ok <==> session_ring@ == ring_id@,
        r matches Err(e) ==> e matches RingError::NotFound(m) && m@ == "session not found"@,
{
    if str_eq(session_ring, ring_id) {
        Ok(())
    } else {
        Err(RingError::NotFound(owned("session not found")))
    }
}

/// Archiving can be switched only for an archivable session.
pub fn require_archivable(archivable: bool) -> (r: Result<(), RingError>)
    ensures
        r is Ok <==> archivable,
        r matches Err(e) ==> e matches RingError::BadRequest(m) && m@ == "session is not archivable"@,
{
    if archivable {
        Ok(())
    } else {
        Err(RingError::BadRequest(owned("session is not archivable")))
    }
}

/// Whether closing a session archives it automatically: in a ring in `auto`
/// interaction mode, when the session's archiving is switched on.
pub fn archives_on_close(interaction_mode: &str, archive_enabled: bool) -> (r: bool)
    ensures
        r == (interaction_mode@ == "auto"@ && archive_enabled),
{
    str_eq(interaction_mode, "auto") && archive_enabled
}

// ---------------------------------------------------------------------------
// Participants
// ---------------------------------------------------------------------------

/// A stored session.
pub struct SessionRow {
    pub id: String,
    pub ring_id: String,
    pub title: String,
    pub description: String,
    pub skill: String,
    pub owner: String,
    pub phase: String,
    pub archivable: bool,
    pub archive_enabled: bool,
}

/// A participant of a stored session.
pub struct SessionParticipantRow {
    pub session_id: String,
    pub token_id: String,
    pub can_speak: bool,
}

/// A session with its participants, as returned to clients.
pub struct SessionResponse {
    pub session: SessionRow,
    pub participants: Vec<SessionParticipantRow>,
}

/// The token ids of a session's participants, in order.
pub fn participant_ids(participants: &Vec<SessionParticipantRow>) -> (r: Vec<String>)
    ensures
        r@.map_values(|t: String| t@) == participants@.map_values(|p: SessionParticipantRow| p.token_id@),
{
    let mut r: Vec<String> = Vec::new();
    let mut i: usize = 0;
    while i < participants.len()
        invariant
            i <= participants@.len(),
            r@.map_values(|t: String| t@) == participants@.take(i as int).map_values(
                |p: SessionParticipantRow| p.token_id@,
            ),
        decreases participants@.len() - i,
    {
        let ghost before = r@;
        r.push(participants[i].token_id.clone());
        proof {
            let f = |t: String| t@;
            let g = |p: SessionParticipantRow| p.token_id@;
            assert(r@.map_values(f) =~= before.map_values(f).push(participants@[i as int].token_id@));
            assert(participants@.take(i + 1).map_values(g) =~= participants@.take(i as int).map_values(
                g,
            ).push(participants@[i as int].token_id@));
        }
        i += 1;
    }
    proof {
        assert(participants@.take(participants@.len() as int) =~= participants@);
    }
    r
}

/// The people following a session live: its owner and its participants,
/// each participant once.
pub struct SessionChannel {
    pub participants: Vec<String>,
    pub owner: String,
}

/// The texts of a list of tokens, as a set.
pub open spec fn token_set(v: Seq<String>) -> Set<Seq<char>> {
    v.map_values(|p: String| p@).to_set()
}

/// No token is listed twice.
pub open spec fn distinct(v: Seq<String>) -> bool {
    forall|i: int, j: int| 0 <= i < j < v.len() ==> (#[trigger] v[i])@ != (#[trigger] v[j])@
}

/// The participants as a set of texts.
pub open spec fn participant_set(c: SessionChannel) -> Set<Seq<char>> {
    token_set(c.participants@)
}

/// Each participant is listed once.
pub open spec fn no_repeats(c: SessionChannel) -> bool {
    distinct(c.participants@)
}

impl SessionChannel {
    /// A channel with an owner and a list of participants (repeats dropped).
    pub fn new(owner: String, participants: &Vec<String>) -> (r: SessionChannel)
        ensures
            no_repeats(r),
            r.owner == owner,
            participant_set(r) == participants@.map_values(|p: String| p@).to_set(),
    {
        let mut c = SessionChannel { participants: Vec::new(), owner };
        let mut i: usize = 0;
        proof {
            assert(c.participants@.map_values(|p: String| p@) =~= Seq::<Seq<char>>::empty());
            assert(participants@.take(0).map_values(|p: String| p@) =~= Seq::<Seq<char>>::empty());
        }
        while i < participants.len()
            invariant
                i <= participants@.len(),
                no_repeats(c),
                c.owner == owner,
                participant_set(c) == participants@.take(i as int).map_values(|p: String| p@).to_set(),
            decreases participants@.len() - i,
        {
            c.add(participants[i].clone());
            proof {
                let f = |p: String| p@;
                assert(participants@.take(i + 1).map_values(f) =~= participants@.take(i as int).map_values(
                    f,
                ).push(participants@[i as int]@));
                lemma_to_set_push(participants@.take(i as int).map_values(f), participants@[i as int]@);
            }
            i += 1;
        }
        proof {
            assert(participants@.take(participants@.len() as int) =~= participants@);
        }
        c
    }

    /// Whether someone is a participant.
    pub fn has(&self, token_id: &str) -> (r: bool)
        ensures
            r == participant_set(*self).contains(token_id@),
    {
        tokens_has(&self.participants, token_id)
    }

    /// Adds a participant; one already there is not listed twice.
    pub fn add(&mut self, token_id: String)
        requires
            no_repeats(*old(self)),
        ensures
            no_repeats(*final(self)),
            final(self).owner == old(self).owner,
            participant_set(*final(self)) == participant_set(*old(self)).insert(token_id@),
    {
        tokens_insert(&mut self.participants, token_id);
    }

    /// Removes a participant, if there.
    pub fn remove(&mut self, token_id: &str)
        requires
            no_repeats(*old(self)),
        ensures
            no_repeats(*final(self)),
            final(self).owner == old(self).owner,
            participant_set(*final(self)) == participant_set(*old(self)).remove(token_id@),
    {
        tokens_remove(&mut self.participants, token_id);
    }
}

/// Whether a token is in a list.
pub fn tokens_has(v: &Vec<String>, token_id: &str) -> (r: bool)
    ensures
        r == token_set(v@).contains(token_id@),
{
    let mut i: usize = 0;
    while i < v.len()
        invariant
            i <= v@.len(),
            forall|j: int| 0 <= j < i ==> (#[trigger] v@[j])@ != token_id@,
        decreases v@.len() - i,
    {
        if str_eq(v[i].as_str(), token_id) {
            proof {
                let f = |p: String| p@;
                assert(v@.map_values(f)[i as int] == token_id@);
            }
            return true;
        }
        i += 1;
    }
    proof {
        let f = |p: String| p@;
        if token_set(v@).contains(token_id@) {
            let k = v@.map_values(f).index_of(token_id@);
            assert(v@[k]@ == token_id@);
        }
    }
    false
}

/// Adds a token to a list; one already there is not listed twice.
pub fn tokens_insert(v: &mut Vec<String>, token_id: String)
    requires
        distinct(old(v)@),
    ensures
        distinct(final(v)@),
        token_set(final(v)@) == token_set(old(v)@).insert(token_id@),
{
    if !tokens_has(v, token_id.as_str()) {
        let ghost before = v@;
        let ghost tv = token_id@;
        v.push(token_id);
        proof {
            let f = |p: String| p@;
            assert(v@.map_values(f) =~= before.map_values(f).push(tv));
            lemma_to_set_push(before.map_values(f), tv);
            assert forall|i: int, j: int|
                0 <= i < j < v@.len() implies (#[trigger] v@[i])@
                != (#[trigger] v@[j])@ by {
                if j == before.len() {
                    assert(before.map_values(f)[i] == before[i]@);
                }
            }
        }
    } else {
        proof {
            assert(token_set(v@).insert(token_id@) =~= token_set(v@));
        }
    }
}

/// Removes a token from a list, if there.
pub fn tokens_remove(v: &mut Vec<String>, token_id: &str)
    requires
        distinct(old(v)@),
    ensures
        distinct(final(v)@),
        token_set(final(v)@) == token_set(old(v)@).remove(token_id@),
{
    let ghost before = v@;
    let mut kept: Vec<String> = Vec::new();
    let mut i: usize = 0;
    while i < v.len()
        invariant
            i <= v@.len(),
            v@ == before,
            distinct(v@),
            forall|k: int| 0 <= k < kept@.len() ==> (#[trigger] kept@[k])@ != token_id@,
            kept@.map_values(|p: String| p@).to_set() == before.take(i as int).map_values(
                |p: String| p@,
            ).to_set().remove(token_id@),
            forall|a: int, b: int| 0 <= a < b < kept@.len() ==> (#[trigger] kept@[a])@ != (#[trigger] kept@[b])@,
            forall|a: int| 0 <= a < kept@.len() ==> before.take(i as int).map_values(|p: String| p@).contains(
                (#[trigger] kept@[a])@,
            ),
        decreases v@.len() - i,
    {
        let p = v[i].clone();
        let ghost pv = p@;
        let ghost kept_before = kept@;
        proof {
            let f = |q: String| q@;
            assert(before.take(i + 1).map_values(f) =~= before.take(i as int).map_values(f).push(pv));
            lemma_to_set_push(before.take(i as int).map_values(f), pv);
            assert forall|a: int| 0 <= a < kept_before.len() implies (#[trigger] kept_before[a])@ != pv by {
                let k = before.take(i as int).map_values(f).index_of(kept_before[a]@);
                assert(before[k]@ == kept_before[a]@);
                assert(before[i as int]@ == pv);
            }
        }
        if !str_eq(p.as_str(), token_id) {
            kept.push(p);
            proof {
                let f = |q: String| q@;
                assert(kept@.map_values(f) =~= kept_before.map_values(f).push(pv));
                lemma_to_set_push(kept_before.map_values(f), pv);
                assert(before.take(i + 1).map_values(f).contains(pv)) by {
                    assert(before.take(i + 1).map_values(f)[i as int] == pv);
                }
                assert forall|a: int| 0 <= a < kept@.len() implies before.take(i + 1).map_values(f).contains(
                    (#[trigger] kept@[a])@,
                ) by {
                    if a < kept_before.len() {
                        let k = before.take(i as int).map_values(f).index_of(kept@[a]@);
                        assert(before.take(i + 1).map_values(f)[k] == kept@[a]@);
                    }
                }
            }
        } else {
            proof {
                let f = |q: String| q@;
                assert forall|a: int| 0 <= a < kept@.len() implies before.take(i + 1).map_values(f).contains(
                    (#[trigger] kept@[a])@,
                ) by {
                    let k = before.take(i as int).map_values(f).index_of(kept@[a]@);
                    assert(before.take(i + 1).map_values(f)[k] == kept@[a]@);
                }
            }
        }
        i += 1;
    }
    proof {
        assert(before.take(before.len() as int) =~= before);
    }
    *v = kept;
}

/// Adding a set of participants to a set, for contracts.
pub proof fn lemma_to_set_push(s: Seq<Seq<char>>, x: Seq<char>)
    ensures
        s.push(x).to_set() == s.to_set().insert(x),
{
    assert forall|y: Seq<char>| s.push(x).to_set().contains(y) <==> s.to_set().insert(x).contains(y) by {
        if s.push(x).to_set().contains(y) {
            let k = s.push(x).index_of(y);
            if k < s.len() {
                assert(s[k] == y);
            }
        }
        if s.to_set().contains(y) && y != x {
            let k = s.index_of(y);
            assert(s.push(x)[k] == y);
        }
        if y == x {
            assert(s.push(x)[s.len() as int] == x);
        }
    }
    assert(s.push(x).to_set() =~= s.to_set().insert(x));
}

/// A participant added to a session is among its participants until
/// removed, and is no longer once removed; others stay as they were.
pub proof fn law_participants_add_remove(c: SessionChannel, a: SessionChannel, r: SessionChannel, who: Seq<char>)
    requires
        participant_set(a) == participant_set(c).insert(who),
        participant_set(r) == participant_set(a).remove(who),
    ensures
        participant_set(a).contains(who),
        !participant_set(r).contains(who),
        forall|x: Seq<char>| x != who ==> (participant_set(r).contains(x) == participant_set(c).contains(x)),
{
}

// ---------------------------------------------------------------------------
// Summaries
// ---------------------------------------------------------------------------

/// What a session's summary is asked from: its id, skill and transcript.
pub struct SummarizeContext {
    pub session_id: String,
    pub skill: String,
    pub messages_text: String,
}

/// The system prompt for a summary: the skill's own, or a plain instruction
/// for a skill without one.
pub fn summary_system_prompt(skill_prompt: Option<String>) -> (r: String)
    ensures
        r@ == match skill_prompt {
            Some(p) => p@,
            None => "Summarize the following discussion."@,
        },
{
    match skill_prompt {
        Some(p) => p,
        None => owned("Summarize the following discussion."),
    }
}

/// The request for a summary of a (filtered) transcript.
pub fn summary_request(transcript: &str) -> (r: String)
    ensures
        r@ == "Here is the discussion transcript:\n\n"@ + transcript@ + "\n\nPlease generate the summary."@,
{
    let mut r = owned("Here is the discussion transcript:\n\n");
    push_str(&mut r, transcript);
    push_str(&mut r, "\n\nPlease generate the summary.");
    r
}

} // verus!
