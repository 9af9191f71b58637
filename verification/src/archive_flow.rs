//! The git and database steps of an archive run, in the order they are
//! taken. A ring's creator (or an admin) commits to the main branch and pushes
//! when the repository has a remote; a member proposes the archive on a branch
//! of its own and opens a review.
//!
//! A run is planned here and carried out by the caller, one step at a time,
//! keeping three results as it goes: whether the repository has a remote, the
//! commit's hash, and the review's id. A failed step ends the run, except for
//! the steps whose failure is ignored (`ignores_failure`).
use vstd::prelude::*;
use vstd::string::*;

use crate::archive::{
    archive_branch_name, archive_commit_message, archive_file_name, archive_relative_path,
    archive_source_id, join_path, path_join, review_description, review_title,
    sanitize_filename,
};
use crate::error::RingError;
use crate::text::{owned, str_eq};

verus! {

/// One step of an archive run.
#[derive(Debug, PartialEq, Eq)]
pub enum ArchiveAction {
    /// Pull the repository (a failure is ignored).
    Pull,
    /// Find out whether the repository has a remote, and remember it.
    CheckRemote,
    /// Pull the repository if it has a remote (a failure is ignored).
    PullIfRemote,
    /// Write the archive file.
    WriteFile { path: String, content: String },
    /// Point a graph node at the archive file (a failure is ignored).
    LinkNode { node_id: String, relative_path: String },
    /// Create and switch to a branch.
    CreateBranch { branch: String },
    /// Stage every change.
    AddAll,
    /// Commit with this message, and remember the commit's hash.
    Commit { message: String },
    /// Push the main branch if the repository has a remote.
    PushMainIfRemote,
    /// Push a branch.
    PushBranch { branch: String },
    /// Switch back to the main branch.
    CheckoutMain,
    /// Insert the archive record for the file.
    InsertRecord { record_id: String, file_name: String },
    /// Index the archive for search (a failure is ignored).
    IndexArchive { source_id: String, file_name: String, content: String },
    /// Mark the record pushed (with a remote) or committed, with the hash.
    SetCreatorStatus { record_id: String },
    /// Mark the record committed, with the hash and the branch.
    SetCommitted { record_id: String, branch: String },
    /// Open a review of the branch, and remember its id.
    OpenReview { record_id: String, branch: String, title: String, description: String },
    /// Mark the record as under review, with the review's id.
    SetReviewOpened { record_id: String },
}

/// The steps as text, for contracts.
pub enum ActionV {
    Pull,
    CheckRemote,
    PullIfRemote,
    WriteFile { path: Seq<char>, content: Seq<char> },
    LinkNode { node_id: Seq<char>, relative_path: Seq<char> },
    CreateBranch { branch: Seq<char> },
    AddAll,
    Commit { message: Seq<char> },
    PushMainIfRemote,
    PushBranch { branch: Seq<char> },
    CheckoutMain,
    InsertRecord { record_id: Seq<char>, file_name: Seq<char> },
    IndexArchive { source_id: Seq<char>, file_name: Seq<char>, content: Seq<char> },
    SetCreatorStatus { record_id: Seq<char> },
    SetCommitted { record_id: Seq<char>, branch: Seq<char> },
    OpenReview { record_id: Seq<char>, branch: Seq<char>, title: Seq<char>, description: Seq<char> },
    SetReviewOpened { record_id: Seq<char> },
}

impl View for ArchiveAction {
    type V = ActionV;

    open spec fn view(&self) -> ActionV {
        match *self {
            ArchiveAction::Pull => ActionV::Pull,
            ArchiveAction::CheckRemote => ActionV::CheckRemote,
            ArchiveAction::PullIfRemote => ActionV::PullIfRemote,
            ArchiveAction::WriteFile { path, content } => ActionV::WriteFile {
                path: path@,
                content: content@,
            },
            ArchiveAction::LinkNode { node_id, relative_path } => ActionV::LinkNode {
                node_id: node_id@,
                relative_path: relative_path@,
            },
            ArchiveAction::CreateBranch { branch } => ActionV::CreateBranch { branch: branch@ },
            ArchiveAction::AddAll => ActionV::AddAll,
            ArchiveAction::Commit { message } => ActionV::Commit { message: message@ },
            ArchiveAction::PushMainIfRemote => ActionV::PushMainIfRemote,
            ArchiveAction::PushBranch { branch } => ActionV::PushBranch { branch: branch@ },
            ArchiveAction::CheckoutMain => ActionV::CheckoutMain,
            ArchiveAction::InsertRecord { record_id, file_name } => ActionV::InsertRecord {
                record_id: record_id@,
                file_name: file_name@,
            },
            ArchiveAction::IndexArchive { source_id, file_name, content } => ActionV::IndexArchive {
                source_id: source_id@,
                file_name: file_name@,
                content: content@,
            },
            ArchiveAction::SetCreatorStatus { record_id } => ActionV::SetCreatorStatus {
                record_id: record_id@,
            },
            ArchiveAction::SetCommitted { record_id, branch } => ActionV::SetCommitted {
                record_id: record_id@,
                branch: branch@,
            },
            ArchiveAction::OpenReview { record_id, branch, title, description } => ActionV::OpenReview {
                record_id: record_id@,
                branch: branch@,
                title: title@,
                description: description@,
            },
            ArchiveAction::SetReviewOpened { record_id } => ActionV::SetReviewOpened {
                record_id: record_id@,
            },
        }
    }
}

impl ArchiveAction {
    /// Whether a failure of this step leaves the run going.
    pub fn ignores_failure(&self) -> (r: bool)
        ensures
            r == (self@ is Pull || self@ is PullIfRemote || self@ is LinkNode || self@ is IndexArchive),
    {
        match self {
            ArchiveAction::Pull | ArchiveAction::PullIfRemote | ArchiveAction::LinkNode { .. }
            | ArchiveAction::IndexArchive { .. } => true,
            _ => false,
        }
    }
}

/// Which run: a quick archive of a chat message, or the archive of content
/// prepared for it (a session's units, a chat exchange the model judged
/// worth keeping).
#[derive(PartialEq, Eq, Structural, Clone, Copy)]
pub enum ArchiveKind {
    Quick,
    Content,
}

/// What a run archives.
pub struct ArchiveRequest {
    /// The directory that holds the rings' repositories.
    pub rings_dir: String,
    pub ring_id: String,
    /// The id of the record to create.
    pub record_id: String,
    /// Today's date, `YYYY-MM-DD`, for the file name.
    pub date: String,
    pub title: String,
    pub content: String,
    pub user_id: String,
    /// The graph node that the archive belongs to, if any.
    pub node_id: Option<String>,
}

/// Whether a member role may archive directly: creators and admins may.
pub fn archives_directly(role: &str) -> (r: bool)
    ensures
        r == (role@ == "creator"@ || role@ == "admin"@),
{
    str_eq(role, "creator") || str_eq(role, "admin")
}

/// The file an archive is written to: the ring's repository, `archives`,
/// and the file name made of the date and the title.
pub open spec fn archive_file_path(req: ArchiveRequest) -> Seq<char> {
    path_join(
        path_join(path_join(req.rings_dir@, req.ring_id@), "archives"@),
        archive_file_name(req.date@, req.title@),
    )
}

pub open spec fn link_steps(kind: ArchiveKind, req: ArchiveRequest) -> Seq<ActionV> {
    match req.node_id {
        Some(n) if kind == ArchiveKind::Content => seq![
            ActionV::LinkNode {
                node_id: n@,
                relative_path: "archives/"@ + archive_file_name(req.date@, req.title@),
            },
        ],
        _ => Seq::empty(),
    }
}

/// The steps of a run by a creator or admin.
pub open spec fn creator_plan(kind: ArchiveKind, req: ArchiveRequest) -> Seq<ActionV> {
    let file = archive_file_name(req.date@, req.title@);
    let write = ActionV::WriteFile { path: archive_file_path(req), content: req.content@ };
    let commit = ActionV::Commit { message: "archive: "@ + req.title@ };
    let insert = ActionV::InsertRecord { record_id: req.record_id@, file_name: file };
    let status = ActionV::SetCreatorStatus { record_id: req.record_id@ };
    if kind == ArchiveKind::Quick {
        seq![ActionV::Pull, write, ActionV::AddAll, commit, ActionV::CheckRemote, ActionV::PushMainIfRemote, insert, status]
    } else {
        seq![ActionV::CheckRemote, ActionV::PullIfRemote, write] + link_steps(kind, req) + seq![
            ActionV::AddAll,
            commit,
            ActionV::CheckRemote,
            ActionV::PushMainIfRemote,
            insert,
            ActionV::IndexArchive {
                source_id: "archive:"@ + req.record_id@,
                file_name: file,
                content: req.content@,
            },
            status,
        ]
    }
}

/// The steps of a run by a member.
pub open spec fn member_plan(kind: ArchiveKind, req: ArchiveRequest) -> Seq<ActionV> {
    let file = archive_file_name(req.date@, req.title@);
    let branch = "archive/"@ + req.record_id@;
    seq![
        ActionV::Pull,
        ActionV::WriteFile { path: archive_file_path(req), content: req.content@ },
    ] + link_steps(kind, req) + seq![
        ActionV::CreateBranch { branch: branch },
        ActionV::AddAll,
        ActionV::Commit { message: "archive: "@ + req.title@ },
        ActionV::PushBranch { branch: branch },
        ActionV::CheckoutMain,
        ActionV::InsertRecord { record_id: req.record_id@, file_name: file },
        ActionV::SetCommitted { record_id: req.record_id@, branch: branch },
        ActionV::OpenReview {
            record_id: req.record_id@,
            branch: branch,
            title: "归档: "@ + req.title@,
            description: "由 "@ + req.user_id@ + " 提交的归档请求"@,
        },
        ActionV::SetReviewOpened { record_id: req.record_id@ },
    ]
}

/// The steps of a run as text.
pub open spec fn views(s: Seq<ArchiveAction>) -> Seq<ActionV> {
    s.map_values(|a: ArchiveAction| a@)
}

/// The steps of an archive run, by who runs it.
pub open spec fn plan_of(kind: ArchiveKind, creator: bool, req: ArchiveRequest) -> Seq<ActionV> {
    if creator {
        creator_plan(kind, req)
    } else {
        member_plan(kind, req)
    }
}

/// The steps of an archive run (see `creator_plan` and `member_plan`).
pub fn archive_plan(kind: ArchiveKind, creator: bool, req: &ArchiveRequest) -> (r: Vec<ArchiveAction>)
    ensures
        views(r@) == plan_of(kind, creator, *req),
{
    let ring_dir = join_path(req.rings_dir.as_str(), req.ring_id.as_str());
    let archives = join_path(ring_dir.as_str(), "archives");
    let file = sanitize_filename(req.title.as_str(), req.date.as_str());
    let path = join_path(archives.as_str(), file.as_str());
    let write = ArchiveAction::WriteFile { path, content: req.content.clone() };
    let commit = ArchiveAction::Commit { message: archive_commit_message(req.title.as_str()) };
    let insert = ArchiveAction::InsertRecord { record_id: req.record_id.clone(), file_name: file.clone() };
    let mut r: Vec<ArchiveAction> = Vec::new();
    if creator && kind == ArchiveKind::Quick {
        r.push(ArchiveAction::Pull);
        r.push(write);
        r.push(ArchiveAction::AddAll);
        r.push(commit);
        r.push(ArchiveAction::CheckRemote);
        r.push(ArchiveAction::PushMainIfRemote);
        r.push(insert);
        r.push(ArchiveAction::SetCreatorStatus { record_id: req.record_id.clone() });
        proof {
            assert(views(r@) =~= plan_of(kind, creator, *req));
        }
        return r;
    }
    let mut link = link_step(kind, req, file.as_str());
    let mut tail: Vec<ArchiveAction> = Vec::new();
    if creator {
        r.push(ArchiveAction::CheckRemote);
        r.push(ArchiveAction::PullIfRemote);
        r.push(write);
        tail.push(ArchiveAction::AddAll);
        tail.push(commit);
        tail.push(ArchiveAction::CheckRemote);
        tail.push(ArchiveAction::PushMainIfRemote);
        tail.push(insert);
        tail.push(
            ArchiveAction::IndexArchive {
                source_id: archive_source_id(req.record_id.as_str()),
                file_name: file,
                content: req.content.clone(),
            },
        );
        tail.push(ArchiveAction::SetCreatorStatus { record_id: req.record_id.clone() });
        proof {
            let p = creator_plan(kind, *req);
            assert(views(r@) =~= p.take(3));
            assert(views(tail@) =~= p.skip(3 + link_steps(kind, *req).len() as int));
        }
    } else {
        let branch = archive_branch_name(req.record_id.as_str());
        r.push(ArchiveAction::Pull);
        r.push(write);
        tail.push(ArchiveAction::CreateBranch { branch: branch.clone() });
        tail.push(ArchiveAction::AddAll);
        tail.push(commit);
        tail.push(ArchiveAction::PushBranch { branch: branch.clone() });
        tail.push(ArchiveAction::CheckoutMain);
        tail.push(insert);
        tail.push(ArchiveAction::SetCommitted { record_id: req.record_id.clone(), branch: branch.clone() });
        tail.push(
            ArchiveAction::OpenReview {
                record_id: req.record_id.clone(),
                branch,
                title: review_title(req.title.as_str()),
                description: review_description(req.user_id.as_str()),
            },
        );
        tail.push(ArchiveAction::SetReviewOpened { record_id: req.record_id.clone() });
        proof {
            let p = member_plan(kind, *req);
            assert(views(r@) =~= p.take(2));
            assert(views(tail@) =~= p.skip(2 + link_steps(kind, *req).len() as int));
        }
    }
    let ghost head = r@;
    let ghost mid = link@;
    let ghost rest = tail@;
    r.append(&mut link);
    r.append(&mut tail);
    proof {
        lemma_views_append(head, mid);
        lemma_views_append(head + mid, rest);
        assert(r@ == head + mid + rest);
        let p = plan_of(kind, creator, *req);
        let n = head.len() as int;
        let l = link_steps(kind, *req);
        assert(p =~= p.take(n) + l + p.skip(n + l.len()));
    }
    r
}

proof fn lemma_views_append(a: Seq<ArchiveAction>, b: Seq<ArchiveAction>)
    ensures
        views(a + b) == views(a) + views(b),
{
    assert(views(a + b) =~= views(a) + views(b));
}

/// The node-linking step, if the run has one.
fn link_step(kind: ArchiveKind, req: &ArchiveRequest, file: &str) -> (r: Vec<ArchiveAction>)
    requires
        file@ == archive_file_name(req.date@, req.title@),
    ensures
        views(r@) == link_steps(kind, *req),
{
    let mut r: Vec<ArchiveAction> = Vec::new();
    match &req.node_id {
        Some(n) => {
            if kind == ArchiveKind::Content {
                r.push(
                    ArchiveAction::LinkNode {
                        node_id: n.clone(),
                        relative_path: archive_relative_path(file),
                    },
                );
            }
        },
        None => {},
    }
    proof {
        assert(views(r@) =~= link_steps(kind, *req));
    }
    r
}

/// Where the main branch is pushed, and where a review is opened.
pub open spec fn pushes_main(p: Seq<ActionV>) -> bool {
    exists|i: int| 0 <= i < p.len() && #[trigger] p[i] is PushMainIfRemote
}

pub open spec fn opens_review(p: Seq<ActionV>) -> bool {
    exists|i: int| 0 <= i < p.len() && #[trigger] p[i] is OpenReview
}

/// The index of the first step of a kind, if any.
pub open spec fn commit_before_record(p: Seq<ActionV>) -> bool {
    forall|i: int|
        0 <= i < p.len() && (#[trigger] p[i] is InsertRecord) ==> exists|j: int|
            0 <= j < i && #[trigger] p[j] is Commit
}

/// A member never pushes the main branch and always asks for a review; a
/// creator never opens a review; in both runs the archive file is written
/// and committed before the record of it is inserted.
pub proof fn law_members_propose_creators_commit(kind: ArchiveKind, creator: bool, req: ArchiveRequest)
    ensures
        !creator ==> !pushes_main(plan_of(kind, creator, req)) && opens_review(
            plan_of(kind, creator, req),
        ),
        creator ==> !opens_review(plan_of(kind, creator, req)) && pushes_main(
            plan_of(kind, creator, req),
        ),
        commit_before_record(plan_of(kind, creator, req)),
{
    let p = plan_of(kind, creator, req);
    let l = link_steps(kind, req);
    assert(l.len() <= 1);
    if creator {
        if kind == ArchiveKind::Quick {
            assert(p[5] is PushMainIfRemote);
            assert(p[3] is Commit);
        } else {
            assert(p[l.len() + 6int] is PushMainIfRemote);
            assert(p[l.len() + 4int] is Commit);
        }
    } else {
        assert(p[l.len() + 9int] is OpenReview);
        assert(p[l.len() + 4int] is Commit);
    }
}

/// The error when a ring's repository has not been created.
pub fn repo_missing(ring_id: &str) -> (r: RingError)
    ensures
        r matches RingError::RepoNotFound { ring_id: id } && id@ == ring_id@,
{
    RingError::RepoNotFound { ring_id: owned(ring_id) }
}

/// The error when someone outside a ring asks for a quick archive.
pub fn not_a_member() -> (r: RingError)
    ensures
        r matches RingError::Forbidden(m) && m@ == "not a ring member"@,
{
    RingError::Forbidden(owned("not a ring member"))
}

// ---------------------------------------------------------------------------
// Setting up a ring's repository
// ---------------------------------------------------------------------------

/// The directories every ring repository has, in the order they are made.
pub open spec fn repo_dirs() -> Seq<Seq<char>> {
    seq!["archives"@, "graphs"@, ".group"@, "assets"@, ".ring-local"@]
}

/// What a new ring repository ignores.
pub const GITIGNORE: &'static str = ".ring-local/\nassets/\n";

/// A step of setting up a ring's repository.
#[derive(Debug, PartialEq, Eq)]
pub enum InitStep {
    /// `git init` in the repository.
    GitInit,
    /// Create this directory of the repository.
    CreateDir(&'static str),
    /// Write the repository's `.gitignore`.
    WriteGitignore,
    /// Point the `origin` remote at this URL.
    SetOrigin(String),
}

/// The view of a setup step, for contracts.
pub open spec fn init_step_view(s: InitStep) -> (int, Seq<char>) {
    match s {
        InitStep::GitInit => (0, Seq::empty()),
        InitStep::CreateDir(d) => (1, d@),
        InitStep::WriteGitignore => (2, Seq::empty()),
        InitStep::SetOrigin(u) => (3, u@),
    }
}

/// The directories among `repo_dirs` that are missing, in order.
pub open spec fn missing_dirs(present: Seq<bool>, n: int) -> Seq<(int, Seq<char>)>
    decreases n,
{
    if n <= 0 {
        Seq::empty()
    } else if present[n - 1] {
        missing_dirs(present, n - 1)
    } else {
        missing_dirs(present, n - 1).push((1, repo_dirs()[n - 1]))
    }
}

/// The steps that set up a ring's repository, given what is there: git is
/// initialised unless it was; the missing standard directories are made; the
/// `.gitignore` is written unless there is one; and a GitLab URL, when given,
/// becomes the `origin` remote unless the repository has a remote.
pub open spec fn init_plan_of(has_git: bool, present: Seq<bool>, has_gitignore: bool, remote_url: Option<Seq<char>>, has_remote: bool) -> Seq<(int, Seq<char>)> {
    (if has_git { Seq::empty() } else { seq![(0int, Seq::<char>::empty())] }) + missing_dirs(present, 5) + (if has_gitignore {
        Seq::empty()
    } else {
        seq![(2int, Seq::<char>::empty())]
    }) + match remote_url {
        Some(u) => if has_remote { Seq::empty() } else { seq![(3int, u)] },
        None => Seq::empty(),
    }
}

/// The steps that set up a ring's repository (see `init_plan_of`);
/// `present` tells, for each of `repo_dirs`, whether it exists.
pub fn init_ring_repo(has_git: bool, present: &Vec<bool>, has_gitignore: bool, remote_url: Option<&str>, has_remote: bool) -> (r: Vec<InitStep>)
    requires
        present@.len() == 5,
    ensures
        r@.map_values(|s: InitStep| init_step_view(s)) == init_plan_of(
            has_git,
            present@,
            has_gitignore,
            match remote_url {
                Some(u) => Some(u@),
                None => None,
            },
            has_remote,
        ),
{
    let names: [&'static str; 5] = ["archives", "graphs", ".group", "assets", ".ring-local"];
    proof {
        reveal_strlit("archives");
        reveal_strlit("graphs");
        reveal_strlit(".group");
        reveal_strlit("assets");
        reveal_strlit(".ring-local");
        assert(names@.map_values(|n: &'static str| n@) =~= repo_dirs());
    }
    let mut r: Vec<InitStep> = Vec::new();
    if !has_git {
        r.push(InitStep::GitInit);
    }
    let ghost head = r@.map_values(|s: InitStep| init_step_view(s));
    proof {
        assert(head =~= (if has_git { Seq::empty() } else { seq![(0int, Seq::<char>::empty())] }));
    }
    let mut i: usize = 0;
    while i < 5
        invariant
            i <= 5,
            present@.len() == 5,
            names@.map_values(|n: &'static str| n@) == repo_dirs(),
            r@.map_values(|s: InitStep| init_step_view(s)) == head + missing_dirs(present@, i as int),
        decreases 5 - i,
    {
        let ghost before = r@;
        if !present[i] {
            r.push(InitStep::CreateDir(names[i]));
            proof {
                let f = |s: InitStep| init_step_view(s);
                assert(r@.map_values(f) =~= before.map_values(f).push((1int, names@[i as int]@)));
                assert(names@[i as int]@ == names@.map_values(|n: &'static str| n@)[i as int]);
            }
        }
        i += 1;
    }
    let ghost mid = r@.map_values(|s: InitStep| init_step_view(s));
    if !has_gitignore {
        r.push(InitStep::WriteGitignore);
    }
    let ghost mid2 = r@.map_values(|s: InitStep| init_step_view(s));
    proof {
        let f = |s: InitStep| init_step_view(s);
        if !has_gitignore {
            assert(mid2 =~= mid.push((2int, Seq::<char>::empty())));
        }
        assert(mid2 =~= mid + (if has_gitignore {
            Seq::empty()
        } else {
            seq![(2int, Seq::<char>::empty())]
        }));
    }
    match remote_url {
        Some(u) => {
            if !has_remote {
                let ghost before = r@;
                r.push(InitStep::SetOrigin(owned(u)));
                proof {
                    let f = |s: InitStep| init_step_view(s);
                    assert(r@.map_values(f) =~= before.map_values(f).push((3int, u@)));
                }
            }
        },
        None => {},
    }
    proof {
        let f = |s: InitStep| init_step_view(s);
        assert(r@.map_values(f) =~= init_plan_of(
            has_git,
            present@,
            has_gitignore,
            match remote_url {
                Some(u) => Some(u@),
                None => None,
            },
            has_remote,
        ));
    }
    r
}

} // verus!
