use ring_core::error::RingError;
use ring_core::session::{
    archives_on_close, change_phase, check_invitees, check_session_creation, is_valid_skill,
    participant_ids, prepares_materials, require_archivable, require_in_ring, require_owner,
    require_participant, summary_request, summary_system_prompt, tokens_has, tokens_insert,
    tokens_remove, PhaseChange, SessionChannel, SessionParticipantRow,
};

fn s(x: &str) -> String {
    x.to_string()
}

#[test]
fn skills_of_sessions() {
    assert!(is_valid_skill("discussion"));
    assert!(is_valid_skill("knowledge_sharing"));
    assert!(!is_valid_skill("brainstorm"));
    assert!(prepares_materials("decision"));
    assert!(!prepares_materials("discussion"));
}

#[test]
fn opening_a_session() {
    let members = vec![(s("u2"), true)];
    assert_eq!(check_session_creation("admin", false, false, "decision", &members), Ok(()));
    assert_eq!(check_session_creation("member", true, false, "decision", &members), Ok(()));
    assert_eq!(
        check_session_creation("member", false, false, "decision", &members),
        Err(RingError::Forbidden(s("not authorized to create sessions")))
    );
    assert_eq!(
        check_session_creation("creator", false, true, "decision", &members),
        Err(RingError::Conflict(s("active session already exists")))
    );
    assert_eq!(
        check_session_creation("creator", false, false, "poker", &members),
        Err(RingError::BadRequest(s("invalid skill: poker")))
    );
    let mixed = vec![(s("u2"), true), (s("u3"), false), (s("u4"), false)];
    assert_eq!(
        check_invitees(&mixed),
        Err(RingError::BadRequest(s("invitee u3 is not a ring member")))
    );
}

#[test]
fn phases() {
    assert_eq!(change_phase("material_prep", PhaseChange::Start, false), Ok("discussion"));
    assert_eq!(
        change_phase("discussion", PhaseChange::Start, false),
        Err(RingError::BadRequest(s("session is not in material_prep phase")))
    );
    assert_eq!(change_phase("discussion", PhaseChange::Close, false), Ok("closed"));
    assert_eq!(
        change_phase("closed", PhaseChange::Close, false),
        Err(RingError::BadRequest(s("session already closed")))
    );
    assert_eq!(
        change_phase("discussion", PhaseChange::Reopen, false),
        Err(RingError::BadRequest(s("session is not closed")))
    );
    assert_eq!(
        change_phase("closed", PhaseChange::Reopen, true),
        Err(RingError::Conflict(s("active session already exists")))
    );
    // Law: closing then reopening brings a session back to discussion.
    let closed = change_phase("discussion", PhaseChange::Close, false).unwrap();
    assert_eq!(change_phase(closed, PhaseChange::Reopen, false), Ok("discussion"));
}

#[test]
fn session_guards() {
    assert_eq!(require_owner(true, "close session"), Ok(()));
    assert_eq!(
        require_owner(false, "close session"),
        Err(RingError::Forbidden(s("only owner can close session")))
    );
    assert_eq!(
        require_participant(false),
        Err(RingError::Forbidden(s("not a session participant")))
    );
    assert_eq!(require_in_ring("r1", "r1"), Ok(()));
    assert_eq!(require_in_ring("r1", "r2"), Err(RingError::NotFound(s("session not found"))));
    assert_eq!(
        require_archivable(false),
        Err(RingError::BadRequest(s("session is not archivable")))
    );
    assert!(archives_on_close("auto", true));
    assert!(!archives_on_close("normal", true));
    assert!(!archives_on_close("auto", false));
}

#[test]
fn participants() {
    let rows = vec![
        SessionParticipantRow { session_id: s("s1"), token_id: s("a"), can_speak: true },
        SessionParticipantRow { session_id: s("s1"), token_id: s("b"), can_speak: false },
    ];
    assert_eq!(participant_ids(&rows), vec![s("a"), s("b")]);
    let mut c = SessionChannel::new(s("owner"), &vec![s("a"), s("b"), s("a")]);
    assert_eq!(c.participants.len(), 2);
    assert!(c.has("a"));
    c.add(s("a"));
    assert_eq!(c.participants.len(), 2);
    c.add(s("c"));
    assert!(c.has("c"));
    // Law: a removed participant is gone, the others stay.
    c.remove("a");
    assert!(!c.has("a"));
    assert!(c.has("b") && c.has("c"));
    assert_eq!(c.owner, "owner");
}

#[test]
fn token_lists() {
    let mut v: Vec<String> = vec![];
    tokens_insert(&mut v, s("x"));
    tokens_insert(&mut v, s("x"));
    assert_eq!(v, vec![s("x")]);
    assert!(tokens_has(&v, "x"));
    tokens_remove(&mut v, "x");
    assert!(!tokens_has(&v, "x"));
}

#[test]
fn summaries() {
    assert_eq!(summary_system_prompt(None), "Summarize the following discussion.");
    assert_eq!(summary_system_prompt(Some(s("P"))), "P");
    assert_eq!(
        summary_request("[a]: hi"),
        "Here is the discussion transcript:\n\n[a]: hi\n\nPlease generate the summary."
    );
}
