use ring_core::archive_flow::{init_ring_repo, InitStep, GITIGNORE};
use ring_core::archive_flow::{
    archive_plan, archives_directly, not_a_member, repo_missing, ArchiveAction, ArchiveKind,
    ArchiveRequest,
};
use ring_core::error::RingError;

fn request(node: Option<&str>) -> ArchiveRequest {
    ArchiveRequest {
        rings_dir: "/data/rings".to_string(),
        ring_id: "r1".to_string(),
        record_id: "rec1".to_string(),
        date: "2024-05-06".to_string(),
        title: "Plan A".to_string(),
        content: "body".to_string(),
        user_id: "u1".to_string(),
        node_id: node.map(|n| n.to_string()),
    }
}

fn s(x: &str) -> String {
    x.to_string()
}

#[test]
fn who_archives_directly() {
    assert!(archives_directly("creator"));
    assert!(archives_directly("admin"));
    assert!(!archives_directly("member"));
    assert!(!archives_directly("readonly"));
}

#[test]
fn quick_archive_by_creator() {
    let plan = archive_plan(ArchiveKind::Quick, true, &request(Some("n1")));
    assert_eq!(
        plan,
        vec![
            ArchiveAction::Pull,
            ArchiveAction::WriteFile {
                path: s("/data/rings/r1/archives/2024-05-06_Plan-A.md"),
                content: s("body")
            },
            ArchiveAction::AddAll,
            ArchiveAction::Commit { message: s("archive: Plan A") },
            ArchiveAction::CheckRemote,
            ArchiveAction::PushMainIfRemote,
            ArchiveAction::InsertRecord { record_id: s("rec1"), file_name: s("2024-05-06_Plan-A.md") },
            ArchiveAction::SetCreatorStatus { record_id: s("rec1") },
        ]
    );
}

#[test]
fn content_archive_by_creator_links_node() {
    let plan = archive_plan(ArchiveKind::Content, true, &request(Some("n1")));
    assert_eq!(plan.len(), 11);
    assert_eq!(plan[0], ArchiveAction::CheckRemote);
    assert_eq!(plan[1], ArchiveAction::PullIfRemote);
    assert_eq!(
        plan[3],
        ArchiveAction::LinkNode { node_id: s("n1"), relative_path: s("archives/2024-05-06_Plan-A.md") }
    );
    assert_eq!(
        plan[9],
        ArchiveAction::IndexArchive {
            source_id: s("archive:rec1"),
            file_name: s("2024-05-06_Plan-A.md"),
            content: s("body")
        }
    );
    let plan = archive_plan(ArchiveKind::Content, true, &request(None));
    assert_eq!(plan.len(), 10);
}

#[test]
fn member_archive_opens_review() {
    let plan = archive_plan(ArchiveKind::Content, false, &request(None));
    assert_eq!(
        plan,
        vec![
            ArchiveAction::Pull,
            ArchiveAction::WriteFile {
                path: s("/data/rings/r1/archives/2024-05-06_Plan-A.md"),
                content: s("body")
            },
            ArchiveAction::CreateBranch { branch: s("archive/rec1") },
            ArchiveAction::AddAll,
            ArchiveAction::Commit { message: s("archive: Plan A") },
            ArchiveAction::PushBranch { branch: s("archive/rec1") },
            ArchiveAction::CheckoutMain,
            ArchiveAction::InsertRecord { record_id: s("rec1"), file_name: s("2024-05-06_Plan-A.md") },
            ArchiveAction::SetCommitted { record_id: s("rec1"), branch: s("archive/rec1") },
            ArchiveAction::OpenReview {
                record_id: s("rec1"),
                branch: s("archive/rec1"),
                title: s("归档: Plan A"),
                description: s("由 u1 提交的归档请求"),
            },
            ArchiveAction::SetReviewOpened { record_id: s("rec1") },
        ]
    );
    // Law: members never push the main branch; creators never open reviews.
    assert!(!plan.contains(&ArchiveAction::PushMainIfRemote));
    let creator = archive_plan(ArchiveKind::Quick, true, &request(None));
    assert!(!creator.iter().any(|a| matches!(a, ArchiveAction::OpenReview { .. })));
}

#[test]
fn ignorable_failures() {
    assert!(ArchiveAction::Pull.ignores_failure());
    assert!(ArchiveAction::PullIfRemote.ignores_failure());
    assert!(!ArchiveAction::AddAll.ignores_failure());
    assert!(!ArchiveAction::Commit { message: s("m") }.ignores_failure());
}

#[test]
fn archive_errors() {
    assert_eq!(repo_missing("r9"), RingError::RepoNotFound { ring_id: s("r9") });
    assert_eq!(not_a_member(), RingError::Forbidden(s("not a ring member")));
}

#[test]
fn repository_setup_steps() {
    let fresh = init_ring_repo(false, &vec![false; 5], false, Some("https://gl/x.git"), false);
    assert_eq!(
        fresh,
        vec![
            InitStep::GitInit,
            InitStep::CreateDir("archives"),
            InitStep::CreateDir("graphs"),
            InitStep::CreateDir(".group"),
            InitStep::CreateDir("assets"),
            InitStep::CreateDir(".ring-local"),
            InitStep::WriteGitignore,
            InitStep::SetOrigin(s("https://gl/x.git")),
        ]
    );
    let done = init_ring_repo(true, &vec![true, false, true, true, true], true, Some("u"), true);
    assert_eq!(done, vec![InitStep::CreateDir("graphs")]);
    assert_eq!(GITIGNORE, ".ring-local/\nassets/\n");
}
