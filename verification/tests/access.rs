use ring_core::access::{create_token, CreateInviteToken};
use ring_core::access::get_mode;
use ring_core::access::{
    check_invite_admin, check_invite_request, check_member_removal, check_mode_update,
    check_ring_delete, check_role_change, check_setup, create_ring_response, is_manager,
    removed_notice, repo_sync, require_manager, role_changed_notice, setup_status, updated_mode,
    user_from_setup, user_token_id, ModeResponse, RepoSync, SetupRequest, UpdateModeRequest,
};
use ring_core::encryption::CredentialEncryption;
use ring_core::error::RingError;

fn s(x: &str) -> String {
    x.to_string()
}

#[test]
fn managers() {
    assert!(is_manager("creator"));
    assert!(is_manager("admin"));
    assert!(!is_manager("member"));
    assert_eq!(require_manager("admin", "add members"), Ok(()));
    assert_eq!(
        require_manager("member", "add members"),
        Err(RingError::Forbidden(s("only creator or admin can add members")))
    );
}

#[test]
fn role_changes() {
    assert_eq!(check_role_change("creator", "admin"), Ok(()));
    assert_eq!(check_role_change("creator", "readonly"), Ok(()));
    assert_eq!(
        check_role_change("admin", "member"),
        Err(RingError::Forbidden(s("only creator can change roles")))
    );
    assert_eq!(
        check_role_change("creator", "creator"),
        Err(RingError::BadRequest(s("invalid role")))
    );
    assert_eq!(
        role_changed_notice("Docs", "admin"),
        "Your role in Ring \"Docs\" was changed to admin"
    );
}

#[test]
fn member_removal() {
    assert_eq!(check_member_removal("admin", None), Ok(()));
    assert_eq!(
        check_member_removal("member", None),
        Err(RingError::Forbidden(s("only creator or admin can remove members")))
    );
    assert_eq!(
        check_member_removal("creator", Some(("s1", "Weekly"))),
        Err(RingError::BadRequest(s(
            "Cannot remove: user owns active session \"Weekly\" (s1). Transfer ownership first."
        )))
    );
    assert_eq!(removed_notice("Docs"), "You were removed from Ring \"Docs\"");
}

#[test]
fn repository_for_new_member() {
    assert!(matches!(repo_sync(true), RepoSync::Pull));
    match repo_sync(false) {
        RepoSync::Clone { dirs } => assert_eq!(dirs, vec!["archives", "graphs", ".group"]),
        _ => panic!("expected clone"),
    }
}

#[test]
fn ring_deletion_and_invites() {
    assert_eq!(check_ring_delete("creator"), Ok(()));
    assert_eq!(
        check_ring_delete("readonly"),
        Err(RingError::Forbidden(s("only creator or admin can delete ring")))
    );
    assert_eq!(check_invite_request("open", "member", 24), Ok(()));
    assert_eq!(
        check_invite_request("closed", "member", 24),
        Err(RingError::BadRequest(s("type must be 'open' or 'audit'")))
    );
    assert_eq!(
        check_invite_request("audit", "admin", 24),
        Err(RingError::BadRequest(s("role must be 'member' or 'readonly'")))
    );
    assert_eq!(
        check_invite_request("audit", "readonly", 0),
        Err(RingError::BadRequest(s("expires_in_hours must be positive")))
    );
    assert_eq!(check_invite_admin("admin"), Ok(()));
    assert_eq!(
        check_invite_admin("member"),
        Err(RingError::Forbidden(s("only creator or admin can manage invite tokens")))
    );
}

#[test]
fn modes() {
    let req = UpdateModeRequest { interaction_mode: Some(s("auto")), skill_permission_mode: None };
    assert_eq!(check_mode_update("member", &req), Ok(()));
    assert_eq!(
        check_mode_update("readonly", &req),
        Err(RingError::Forbidden(s("readonly members cannot change mode")))
    );
    let bad = UpdateModeRequest { interaction_mode: Some(s("turbo")), skill_permission_mode: None };
    assert_eq!(
        check_mode_update("creator", &bad),
        Err(RingError::BadRequest(s("interaction_mode must be 'normal' or 'auto'")))
    );
    let bad = UpdateModeRequest { interaction_mode: None, skill_permission_mode: Some(s("all")) };
    assert_eq!(
        check_mode_update("creator", &bad),
        Err(RingError::BadRequest(s("skill_permission_mode must be 'auto', 'plan', or 'edit'")))
    );
    let cur = ModeResponse { interaction_mode: s("normal"), skill_permission_mode: s("plan") };
    let m = updated_mode(cur, &req);
    assert_eq!(m.interaction_mode, "auto");
    assert_eq!(m.skill_permission_mode, "plan");
}

#[test]
fn ring_creation_and_setup() {
    let r = create_ring_response(s("r1"), s("Docs"), s("pending"));
    assert_eq!(r.role, "creator");
    assert_eq!(r.id, "r1");
    let st = setup_status(false);
    assert!(!st.is_setup);
    assert_eq!(st.step, Some(s("identity")));
    assert_eq!(setup_status(true).step, None);
    assert_eq!(user_token_id("01HX"), "user-01HX");
}

fn setup_request(provider: &str, key: Option<&str>) -> SetupRequest {
    SetupRequest {
        display_name: s("Ann"),
        avatar: None,
        llm_provider: s(provider),
        llm_api_key: key.map(s),
        llm_model: Some(s("gpt")),
        llm_base_url: None,
        gitlab_url: None,
        gitlab_token: Some(s("glpat")),
    }
}

#[test]
fn setup_checks() {
    assert_eq!(check_setup(false, &setup_request("openai", Some("k"))), Ok(()));
    assert_eq!(check_setup(false, &setup_request("ollama", None)), Ok(()));
    assert_eq!(
        check_setup(true, &setup_request("openai", Some("k"))),
        Err(RingError::Conflict(s("setup already completed")))
    );
    assert_eq!(
        check_setup(false, &setup_request("openai", None)),
        Err(RingError::BadRequest(s("llm_api_key required for non-ollama providers")))
    );
}

#[test]
fn setup_stores_credentials_encrypted() {
    let enc = CredentialEncryption::with_key(vec![5u8; 32]);
    let u = user_from_setup(&enc, setup_request("openai", Some("sk-1")));
    assert_eq!(u.display_name, "Ann");
    let stored = u.llm_api_key.unwrap();
    assert_ne!(stored, "sk-1");
    assert_eq!(enc.decrypt(&stored), Some(s("sk-1")));
    assert_eq!(enc.decrypt(&u.gitlab_token.unwrap()), Some(s("glpat")));
    let u = user_from_setup(&enc, setup_request("ollama", None));
    assert_eq!(u.llm_api_key, None);
}

#[test]
fn stored_modes() {
    let m = get_mode(Some((s("auto"), s("edit")))).unwrap();
    assert_eq!(m.interaction_mode, "auto");
    assert_eq!(m.skill_permission_mode, "edit");
    assert_eq!(get_mode(None).err(), Some(RingError::NotFound(s("ring not found"))));
}

#[test]
fn invite_tokens() {
    let input = CreateInviteToken {
        token_type: s("open"),
        role: s("member"),
        max_uses: Some(5),
        max_members: None,
        expires_in_hours: 24,
    };
    let row = create_token("admin", "r1", "u1", &input, s("2030-01-01T00:00:00Z"), s("now")).unwrap();
    assert_eq!(row.token.len(), 43);
    assert!(!row.token.contains('=') && !row.token.contains('+') && !row.token.contains('/'));
    assert_eq!(row.ring_id, "r1");
    assert_eq!(row.use_count, 0);
    assert_eq!(row.revoked_at, None);
    assert_eq!(row.max_uses, Some(5));
    assert_eq!(row.created_by, "u1");
    let other = create_token("admin", "r1", "u1", &input, s("x"), s("y")).unwrap();
    assert_ne!(row.token, other.token);
    assert_eq!(
        create_token("member", "r1", "u1", &input, s("x"), s("y")).err(),
        Some(RingError::Forbidden(s("only creator or admin can manage invite tokens")))
    );
    let bad = CreateInviteToken { expires_in_hours: 0, ..input };
    assert_eq!(
        create_token("creator", "r1", "u1", &bad, s("x"), s("y")).err(),
        Some(RingError::BadRequest(s("expires_in_hours must be positive")))
    );
}
