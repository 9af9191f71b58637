//! Who may do what in a ring, and the checks on the requests that change a
//! ring's members, invitations, modes and the server's first setup.
use vstd::prelude::*;
use vstd::string::*;

use crate::encryption::{base64_url_text, decryption_of, encryptable, generate_token, CredentialEncryption};
use crate::error::RingError;
use crate::text::{owned, push_str, str_eq};

verus! {

// ---------------------------------------------------------------------------
// Roles
// ---------------------------------------------------------------------------

/// Whether a role manages its ring: the creator and admins do.
pub open spec fn manages(role: Seq<char>) -> bool {
    role == "creator"@ || role == "admin"@
}

/// Whether a role manages its ring (see `manages`).
pub fn is_manager(role: &str) -> (r: bool)
    ensures
        r == manages(role@),
{
    str_eq(role, "creator") || str_eq(role, "admin")
}

/// Only a ring's managers may do `what`; the error names it.
pub fn require_manager(role: &str, what: &str) -> (r: Result<(), RingError>)
    ensures
        r is Ok <==> manages(role@),
        r matches Err(e) ==> e matches RingError::Forbidden(m) && m@ == "only creator or admin can "@
            + what@,
{
    if is_manager(role) {
        Ok(())
    } else {
        let mut m = owned("only creator or admin can ");
        push_str(&mut m, what);
        Err(RingError::Forbidden(m))
    }
}

/// Changing a member's role: only the creator may, and only to `admin`,
/// `member` or `readonly`.
pub fn check_role_change(caller_role: &str, new_role: &str) -> (r: Result<(), RingError>)
    ensures
        caller_role@ != "creator"@ ==> (r matches Err(RingError::Forbidden(m)) && m@
            == "only creator can change roles"@),
        caller_role@ == "creator"@ && !(new_role@ == "admin"@ || new_role@ == "member"@
            || new_role@ == "readonly"@) ==> (r matches Err(RingError::BadRequest(m)) && m@
            == "invalid role"@),
        r is Ok <==> (caller_role@ == "creator"@ && (new_role@ == "admin"@ || new_role@ == "member"@
            || new_role@ == "readonly"@)),
{
    if !str_eq(caller_role, "creator") {
        return Err(RingError::Forbidden(owned("only creator can change roles")));
    }
    if !(str_eq(new_role, "admin") || str_eq(new_role, "member") || str_eq(new_role, "readonly")) {
        return Err(RingError::BadRequest(owned("invalid role")));
    }
    Ok(())
}

/// The notice a member gets when their role changes.
pub fn role_changed_notice(ring_name: &str, new_role: &str) -> (r: String)
    ensures
        r@ == "Your role in Ring \""@ + ring_name@ + "\" was changed to "@ + new_role@,
{
    let mut r = owned("Your role in Ring \"");
    push_str(&mut r, ring_name);
    push_str(&mut r, "\" was changed to ");
    push_str(&mut r, new_role);
    r
}

/// Removing a member: only managers may, and not while the member owns a
/// session that is not closed (given by its id and title).
pub fn check_member_removal(caller_role: &str, active_session: Option<(&str, &str)>) -> (r: Result<
    (),
    RingError,
>)
    ensures
        !manages(caller_role@) ==> (r matches Err(RingError::Forbidden(m)) && m@
            == "only creator or admin can remove members"@),
        manages(caller_role@) ==> match active_session {
            Some((sid, title)) => r matches Err(RingError::BadRequest(m)) && m@
                == "Cannot remove: user owns active session \""@ + title@ + "\" ("@ + sid@
                + "). Transfer ownership first."@,
            None => r is Ok,
        },
        r is Ok <==> manages(caller_role@) && active_session is None,
{
    if !is_manager(caller_role) {
        return Err(RingError::Forbidden(owned("only creator or admin can remove members")));
    }
    match active_session {
        Some((sid, title)) => {
            let mut m = owned("Cannot remove: user owns active session \"");
            push_str(&mut m, title);
            push_str(&mut m, "\" (");
            push_str(&mut m, sid);
            push_str(&mut m, "). Transfer ownership first.");
            Err(RingError::BadRequest(m))
        },
        None => Ok(()),
    }
}

/// The notice a member gets when removed from a ring.
pub fn removed_notice(ring_name: &str) -> (r: String)
    ensures
        r@ == "You were removed from Ring \""@ + ring_name@ + "\""@,
{
    let mut r = owned("You were removed from Ring \"");
    push_str(&mut r, ring_name);
    push_str(&mut r, "\"");
    r
}

/// What to do with a new member's copy of the ring's repository.
pub enum RepoSync {
    /// The repository is there: pull it.
    Pull,
    /// Clone it, then create these directories in it.
    Clone { dirs: Vec<&'static str> },
}

/// A new member gets the ring's repository: pulled when a copy exists,
/// cloned and given its `archives`, `graphs` and `.group` directories
/// otherwise.
pub fn repo_sync(has_repo: bool) -> (r: RepoSync)
    ensures
        has_repo ==> r is Pull,
        !has_repo ==> (r matches RepoSync::Clone { dirs } && dirs@.map_values(|d: &'static str| d@)
            == seq!["archives"@, "graphs"@, ".group"@]),
{
    if has_repo {
        RepoSync::Pull
    } else {
        let dirs: Vec<&'static str> = vec!["archives", "graphs", ".group"];
        proof {
            assert(dirs@.map_values(|d: &'static str| d@) =~= seq!["archives"@, "graphs"@, ".group"@]);
        }
        RepoSync::Clone { dirs }
    }
}

/// Deleting a ring: only its managers may.
pub fn check_ring_delete(role: &str) -> (r: Result<(), RingError>)
    ensures
        r is Ok <==> manages(role@),
        r matches Err(e) ==> e matches RingError::Forbidden(m) && m@
            == "only creator or admin can delete ring"@,
{
    proof {
        reveal_strlit("only creator or admin can ");
        reveal_strlit("delete ring");
        reveal_strlit("only creator or admin can delete ring");
        assert("only creator or admin can "@ + "delete ring"@ =~= "only creator or admin can delete ring"@);
    }
    require_manager(role, "delete ring")
}

// ---------------------------------------------------------------------------
// Invitations
// ---------------------------------------------------------------------------

/// Why an invite request is refused, if it is: its type must be `open` or
/// `audit`, its role `member` or `readonly`, and its lifetime positive.
pub open spec fn invite_request_error(kind: Seq<char>, role: Seq<char>, expires_in_hours: i64) -> Option<Seq<char>> {
    if !(kind == "open"@ || kind == "audit"@) {
        Some("type must be 'open' or 'audit'"@)
    } else if !(role == "member"@ || role == "readonly"@) {
        Some("role must be 'member' or 'readonly'"@)
    } else if expires_in_hours <= 0 {
        Some("expires_in_hours must be positive"@)
    } else {
        None
    }
}

/// An invitation request: `open` or `audit`, the role it grants (`member` or
/// `readonly`), and how many hours it lasts (a positive number).
pub fn check_invite_request(kind: &str, role: &str, expires_in_hours: i64) -> (r: Result<(), RingError>)
    ensures
        match invite_request_error(kind@, role@, expires_in_hours) {
            Some(m) => r matches Err(RingError::BadRequest(e)) && e@ == m,
            None => r is Ok,
        },
        !(kind@ == "open"@ || kind@ == "audit"@) ==> (r matches Err(RingError::BadRequest(m)) && m@
            == "type must be 'open' or 'audit'"@),
        (kind@ == "open"@ || kind@ == "audit"@) && !(role@ == "member"@ || role@ == "readonly"@)
            ==> (r matches Err(RingError::BadRequest(m)) && m@
            == "role must be 'member' or 'readonly'"@),
        (kind@ == "open"@ || kind@ == "audit"@) && (role@ == "member"@ || role@ == "readonly"@)
            && expires_in_hours <= 0 ==> (r matches Err(RingError::BadRequest(m)) && m@
            == "expires_in_hours must be positive"@),
        r is Ok <==> (kind@ == "open"@ || kind@ == "audit"@) && (role@ == "member"@ || role@
            == "readonly"@) && expires_in_hours > 0,
{
    if !(str_eq(kind, "open") || str_eq(kind, "audit")) {
        return Err(RingError::BadRequest(owned("type must be 'open' or 'audit'")));
    }
    if !(str_eq(role, "member") || str_eq(role, "readonly")) {
        return Err(RingError::BadRequest(owned("role must be 'member' or 'readonly'")));
    }
    if expires_in_hours <= 0 {
        return Err(RingError::BadRequest(owned("expires_in_hours must be positive")));
    }
    Ok(())
}

/// Managing invitations: only a ring's managers may.
pub fn check_invite_admin(role: &str) -> (r: Result<(), RingError>)
    ensures
        r is Ok <==> manages(role@),
        r matches Err(e) ==> e matches RingError::Forbidden(m) && m@
            == "only creator or admin can manage invite tokens"@,
{
    proof {
        reveal_strlit("only creator or admin can ");
        reveal_strlit("manage invite tokens");
        reveal_strlit("only creator or admin can manage invite tokens");
        assert("only creator or admin can "@ + "manage invite tokens"@
            =~= "only creator or admin can manage invite tokens"@);
    }
    require_manager(role, "manage invite tokens")
}

/// A request for an invite token.
pub struct CreateInviteToken {
    pub token_type: String,
    pub role: String,
    pub max_uses: Option<i64>,
    pub max_members: Option<i64>,
    pub expires_in_hours: i64,
}

/// An invite token as stored.
pub struct InviteTokenRow {
    pub token: String,
    pub ring_id: String,
    pub token_type: String,
    pub role: String,
    pub max_uses: Option<i64>,
    pub use_count: i64,
    pub max_members: Option<i64>,
    pub expires_at: String,
    pub revoked_at: Option<String>,
    pub created_by: String,
    pub created_at: String,
}

/// A new invite token of a ring, asked for by someone with `caller_role`:
/// managers only; the request is checked as `check_invite_request` says.
/// The token is fresh, unused and not revoked; it expires at `expires_at`.
pub fn create_token(
    caller_role: &str,
    ring_id: &str,
    user_id: &str,
    input: &CreateInviteToken,
    expires_at: String,
    created_at: String,
) -> (r: Result<InviteTokenRow, RingError>)
    ensures
        !manages(caller_role@) ==> (r matches Err(RingError::Forbidden(m)) && m@
            == "only creator or admin can manage invite tokens"@),
        manages(caller_role@) ==> match invite_request_error(input.token_type@, input.role@, input.expires_in_hours) {
            Some(m) => r matches Err(RingError::BadRequest(e)) && e@ == m,
            None => r matches Ok(row) && (exists|bytes: Seq<u8>| bytes.len() == 32 && row.token@ == base64_url_text(bytes))
                && row.ring_id@ == ring_id@ && row.token_type == input.token_type && row.role == input.role
                && row.max_uses == input.max_uses && row.use_count == 0 && row.max_members == input.max_members
                && row.expires_at == expires_at && row.revoked_at is None && row.created_by@ == user_id@
                && row.created_at == created_at,
        },
{
    match check_invite_admin(caller_role) {
        Ok(()) => {},
        Err(e) => {
            return Err(e);
        },
    }
    match check_invite_request(input.token_type.as_str(), input.role.as_str(), input.expires_in_hours) {
        Ok(()) => {},
        Err(e) => {
            return Err(e);
        },
    }
    let token = generate_token();
    Ok(InviteTokenRow {
        token,
        ring_id: owned(ring_id),
        token_type: input.token_type.clone(),
        role: input.role.clone(),
        max_uses: input.max_uses,
        use_count: 0,
        max_members: input.max_members,
        expires_at,
        revoked_at: None,
        created_by: owned(user_id),
        created_at,
    })
}

// ---------------------------------------------------------------------------
// Interaction modes
// ---------------------------------------------------------------------------

/// A ring's modes: how the group assistant interacts, and what skills may do.
pub struct ModeResponse {
    pub interaction_mode: String,
    pub skill_permission_mode: String,
}

/// A ring's modes from its stored row (`None` when the ring does not
/// exist).
pub fn get_mode(stored: Option<(String, String)>) -> (r: Result<ModeResponse, RingError>)
    ensures
        match stored {
            Some((i, p)) => r matches Ok(m) && m.interaction_mode == i && m.skill_permission_mode == p,
            None => r matches Err(RingError::NotFound(m)) && m@ == "ring not found"@,
        },
{
    match stored {
        Some((i, p)) => Ok(ModeResponse { interaction_mode: i, skill_permission_mode: p }),
        None => Err(RingError::NotFound(owned("ring not found"))),
    }
}

/// A change of modes; absent fields stay as they are.
pub struct UpdateModeRequest {
    pub interaction_mode: Option<String>,
    pub skill_permission_mode: Option<String>,
}

pub open spec fn valid_interaction_mode(m: Seq<char>) -> bool {
    m == "normal"@ || m == "auto"@
}

pub open spec fn valid_permission_mode(m: Seq<char>) -> bool {
    m == "auto"@ || m == "plan"@ || m == "edit"@
}

/// A change of modes: read-only members may not; an interaction mode must be
/// `normal` or `auto`, a skill permission mode `auto`, `plan` or `edit`.
pub fn check_mode_update(role: &str, input: &UpdateModeRequest) -> (r: Result<(), RingError>)
    ensures
        role@ == "readonly"@ ==> (r matches Err(RingError::Forbidden(m)) && m@
            == "readonly members cannot change mode"@),
        role@ != "readonly"@ && (input.interaction_mode matches Some(m) && !valid_interaction_mode(m@))
            ==> (r matches Err(RingError::BadRequest(m)) && m@
            == "interaction_mode must be 'normal' or 'auto'"@),
        role@ != "readonly"@ && !(input.interaction_mode matches Some(m) && !valid_interaction_mode(m@))
            && (input.skill_permission_mode matches Some(m) && !valid_permission_mode(m@))
            ==> (r matches Err(RingError::BadRequest(m)) && m@
            == "skill_permission_mode must be 'auto', 'plan', or 'edit'"@),
        r is Ok <==> role@ != "readonly"@ && !(input.interaction_mode matches Some(m)
            && !valid_interaction_mode(m@)) && !(input.skill_permission_mode matches Some(m)
            && !valid_permission_mode(m@)),
{
    if str_eq(role, "readonly") {
        return Err(RingError::Forbidden(owned("readonly members cannot change mode")));
    }
    match &input.interaction_mode {
        Some(m) => {
            if !(str_eq(m.as_str(), "normal") || str_eq(m.as_str(), "auto")) {
                return Err(RingError::BadRequest(owned("interaction_mode must be 'normal' or 'auto'")));
            }
        },
        None => {},
    }
    match &input.skill_permission_mode {
        Some(m) => {
            if !(str_eq(m.as_str(), "auto") || str_eq(m.as_str(), "plan") || str_eq(m.as_str(), "edit")) {
                return Err(
                    RingError::BadRequest(owned("skill_permission_mode must be 'auto', 'plan', or 'edit'")),
                );
            }
        },
        None => {},
    }
    Ok(())
}

/// The modes after a change: each given mode replaces the current one.
pub fn updated_mode(current: ModeResponse, input: &UpdateModeRequest) -> (r: ModeResponse)
    ensures
        r.interaction_mode@ == match input.interaction_mode {
            Some(m) => m@,
            None => current.interaction_mode@,
        },
        r.skill_permission_mode@ == match input.skill_permission_mode {
            Some(m) => m@,
            None => current.skill_permission_mode@,
        },
{
    ModeResponse {
        interaction_mode: match &input.interaction_mode {
            Some(m) => m.clone(),
            None => current.interaction_mode,
        },
        skill_permission_mode: match &input.skill_permission_mode {
            Some(m) => m.clone(),
            None => current.skill_permission_mode,
        },
    }
}

// ---------------------------------------------------------------------------
// Rings
// ---------------------------------------------------------------------------

/// A newly created ring, as its creator sees it.
pub struct CreateRingResponse {
    pub id: String,
    pub name: String,
    pub role: String,
    pub blueprint_status: String,
}

/// The answer to creating a ring: the caller is its creator.
pub fn create_ring_response(id: String, name: String, blueprint_status: String) -> (r: CreateRingResponse)
    ensures
        r.id == id && r.name == name && r.blueprint_status == blueprint_status,
        r.role@ == "creator"@,
{
    CreateRingResponse { id, name, role: owned("creator"), blueprint_status }
}

// ---------------------------------------------------------------------------
// First setup
// ---------------------------------------------------------------------------

/// The identity and model settings given at the server's first setup.
pub struct SetupRequest {
    pub display_name: String,
    pub avatar: Option<String>,
    pub llm_provider: String,
    pub llm_api_key: Option<String>,
    pub llm_model: Option<String>,
    pub llm_base_url: Option<String>,
    pub gitlab_url: Option<String>,
    pub gitlab_token: Option<String>,
}

/// Whether setup is done, and if not, the step to show.
pub struct SetupStatusResponse {
    pub is_setup: bool,
    pub step: Option<String>,
}

/// The user created at setup.
pub struct SetupResponse {
    pub token_id: String,
    pub display_name: String,
    pub avatar: Option<String>,
}

/// The setup status: a server not yet set up starts at the `identity` step.
pub fn setup_status(is_setup: bool) -> (r: SetupStatusResponse)
    ensures
        r.is_setup == is_setup,
        is_setup ==> r.step is None,
        !is_setup ==> (r.step matches Some(s) && s@ == "identity"@),
{
    SetupStatusResponse {
        is_setup,
        step: if is_setup {
            None
        } else {
            Some(owned("identity"))
        },
    }
}

/// A setup request is accepted once, and needs an API key unless the model
/// provider is `ollama`.
pub fn check_setup(done: bool, input: &SetupRequest) -> (r: Result<(), RingError>)
    ensures
        done ==> (r matches Err(RingError::Conflict(m)) && m@ == "setup already completed"@),
        !done && input.llm_provider@ != "ollama"@ && input.llm_api_key is None ==> (r matches Err(
            RingError::BadRequest(m),
        ) && m@ == "llm_api_key required for non-ollama providers"@),
        r is Ok <==> !done && (input.llm_provider@ == "ollama"@ || input.llm_api_key is Some),
{
    if done {
        return Err(RingError::Conflict(owned("setup already completed")));
    }
    if !str_eq(input.llm_provider.as_str(), "ollama") && input.llm_api_key.is_none() {
        return Err(RingError::BadRequest(owned("llm_api_key required for non-ollama providers")));
    }
    Ok(())
}

/// A user's token id, made from a fresh unique id.
pub fn user_token_id(unique: &str) -> (r: String)
    ensures
        r@ == "user-"@ + unique@,
{
    let mut r = owned("user-");
    push_str(&mut r, unique);
    r
}

/// A user as stored: credentials encrypted.
pub struct NewUser {
    pub display_name: String,
    pub avatar: Option<String>,
    pub llm_provider: String,
    pub llm_api_key: Option<String>,
    pub llm_model: Option<String>,
    pub llm_base_url: Option<String>,
    pub gitlab_url: Option<String>,
    pub gitlab_token: Option<String>,
}

/// Whether a stored credential decrypts to the one given.
pub open spec fn stored_as(key: Seq<u8>, stored: Option<String>, given: Option<String>) -> bool {
    match given {
        None => stored is None,
        Some(g) => stored matches Some(s) && decryption_of(key, s@) == Some(g@),
    }
}

fn encrypt_optional(enc: &CredentialEncryption, secret: Option<String>) -> (r: Option<String>)
    requires
        enc.key_bytes().len() == 32,
        secret matches Some(s) ==> encryptable(s@),
    ensures
        stored_as(enc.key_bytes(), r, secret),
{
    match secret {
        Some(s) => {
            Some(enc.encrypt(s.as_str()))
        },
        None => None,
    }
}

/// The user to store from setup: everything as given, except that the API
/// key and the GitLab token are stored encrypted, each decrypting to what was
/// given.
pub fn user_from_setup(enc: &CredentialEncryption, input: SetupRequest) -> (r: NewUser)
    requires
        enc.key_bytes().len() == 32,
        input.llm_api_key matches Some(k) ==> encryptable(k@),
        input.gitlab_token matches Some(t) ==> encryptable(t@),
    ensures
        r.display_name == input.display_name,
        r.avatar == input.avatar,
        r.llm_provider == input.llm_provider,
        r.llm_model == input.llm_model,
        r.llm_base_url == input.llm_base_url,
        r.gitlab_url == input.gitlab_url,
        stored_as(enc.key_bytes(), r.llm_api_key, input.llm_api_key),
        stored_as(enc.key_bytes(), r.gitlab_token, input.gitlab_token),
{
    let SetupRequest {
        display_name,
        avatar,
        llm_provider,
        llm_api_key,
        llm_model,
        llm_base_url,
        gitlab_url,
        gitlab_token,
    } = input;
    NewUser {
        display_name,
        avatar,
        llm_provider,
        llm_api_key: encrypt_optional(enc, llm_api_key),
        llm_model,
        llm_base_url,
        gitlab_url,
        gitlab_token: encrypt_optional(enc, gitlab_token),
    }
}

} // verus!
