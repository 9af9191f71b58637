use ring_core::archive::{review_step, ReviewAction, ReviewCall};
use ring_core::archive::{
    archive_branch_name, archive_commit_message, archive_relative_path, archive_source_id,
    chat_archive_target, chat_judge_request, creator_archive_status,
    join_path, quick_archive_title, review_description, review_title, reviewable_mr,
    ring_repo_path, sanitize_filename, session_extract_request, session_transcript,
    strip_code_fence, timestamped_title, ArchiveDecision, ArchiveStep, TranscriptLine,
};
use ring_core::error::RingError;

#[test]
fn step_messages_and_names() {
    assert_eq!(ArchiveStep::Pulling.message(), "正在拉取最新内容...");
    assert_eq!(ArchiveStep::Complete.message(), "归档完成");
    assert_eq!(ArchiveStep::CreatingMR.step_name(), "creating_mr");
    assert_eq!(ArchiveStep::Writing.step_name(), "writing");
}

#[test]
fn paths_join_like_std() {
    assert_eq!(join_path("/data/rings", "r1"), "/data/rings/r1");
    assert_eq!(join_path("/data/rings/", "r1"), "/data/rings/r1");
    assert_eq!(join_path("", "r1"), "r1");
    assert_eq!(join_path("/data", "/abs"), "/abs");
    assert_eq!(ring_repo_path("/data/rings", "abc"), "/data/rings/abc");
}

#[test]
fn alphanumeric_chars() {
    // Letters and digits of any script stay; other characters become dashes.
    assert_eq!(sanitize_filename("a7中é x", "d"), "d_a7中é-x.md");
    assert_eq!(sanitize_filename("a_b-c", "d"), "d_a_b-c.md");
    assert_eq!(sanitize_filename("#1!", "d"), "d_1.md");
}

#[test]
fn file_names_are_path_safe() {
    assert_eq!(sanitize_filename("Hello World!", "2024-01-02"), "2024-01-02_Hello-World.md");
    assert_eq!(sanitize_filename("../../etc/passwd", "2024-01-02"), "2024-01-02_etc-passwd.md");
    assert_eq!(sanitize_filename("产品 决策_v2", "2024-01-02"), "2024-01-02_产品-决策_v2.md");
    let name = sanitize_filename("a/b\\c.d", "d");
    let title = &name[2..name.len() - 3];
    assert!(!title.contains('/') && !title.contains('\\') && !title.contains('.'));
}

#[test]
fn code_fences_are_stripped() {
    assert_eq!(strip_code_fence("  [1, 2]  "), "[1, 2]");
    assert_eq!(strip_code_fence("```json\n[1,\n2]\n```\ntrailing"), "[1,\n2]");
    assert_eq!(strip_code_fence("```\nabc"), "abc");
}

#[test]
fn chat_archive_needs_title_and_content() {
    let d = ArchiveDecision {
        should_archive: true,
        title: Some("T".to_string()),
        content: Some("C".to_string()),
    };
    assert_eq!(chat_archive_target(d), Some(("T".to_string(), "C".to_string())));
    let d = ArchiveDecision { should_archive: true, title: None, content: Some("C".to_string()) };
    assert_eq!(chat_archive_target(d), None);
    let d = ArchiveDecision {
        should_archive: false,
        title: Some("T".to_string()),
        content: Some("C".to_string()),
    };
    assert_eq!(chat_archive_target(d), None);
}

#[test]
fn quick_titles_are_shortened() {
    assert_eq!(quick_archive_title("short note"), "short note");
    let long = "x".repeat(41);
    assert_eq!(quick_archive_title(&long), format!("{}...", "x".repeat(40)));
    let exact = "y".repeat(40);
    assert_eq!(quick_archive_title(&exact), exact);
    // 14 CJK characters are 42 bytes: shortened, keeping all 14 characters.
    let cjk = "归".repeat(14);
    assert_eq!(quick_archive_title(&cjk), format!("{}...", cjk));
}

#[test]
fn archive_names_and_messages() {
    assert_eq!(archive_commit_message("T"), "archive: T");
    assert_eq!(archive_branch_name("rec1"), "archive/rec1");
    assert_eq!(review_title("T"), "归档: T");
    assert_eq!(review_description("u1"), "由 u1 提交的归档请求");
    assert_eq!(archive_relative_path("f.md"), "archives/f.md");
    assert_eq!(archive_source_id("rec1"), "archive:rec1");
    assert_eq!(timestamped_title("2024-01-01 10:00", "T"), "2024-01-01 10:00_T");
    assert_eq!(creator_archive_status(true), "pushed");
    assert_eq!(creator_archive_status(false), "committed");
}

#[test]
fn review_needs_open_merge_request() {
    assert_eq!(reviewable_mr("rec1", "mr_opened", Some(7)), Ok(7));
    assert_eq!(
        reviewable_mr("rec1", "pending", Some(7)),
        Err(RingError::InvalidArchiveState {
            record_id: "rec1".to_string(),
            current: "pending".to_string(),
            expected: "mr_opened".to_string(),
        })
    );
    assert!(reviewable_mr("rec1", "mr_opened", None).is_err());
}

#[test]
fn transcripts_and_requests() {
    let lines = vec![
        TranscriptLine { sender_name: "Ann".to_string(), content: "hi".to_string() },
        TranscriptLine { sender_name: "Bob".to_string(), content: "yo".to_string() },
    ];
    assert_eq!(session_transcript(&lines), "[Ann]: hi\n[Bob]: yo");
    assert_eq!(session_transcript(&vec![]), "");
    assert_eq!(
        session_extract_request("T", "decision", "X"),
        "Session 标题: T\nSkill: decision\n\n讨论记录：\nX"
    );
    assert_eq!(chat_judge_request("q", "a"), "用户消息：\nq\n\nAI回复：\na");
}

#[test]
fn review_decisions_name_their_call_and_status() {
    assert_eq!(
        review_step("rec1", "mr_opened", Some(7), ReviewAction::Merge),
        Ok((ReviewCall::MergeReview(7), "merged"))
    );
    assert_eq!(
        review_step("rec1", "mr_opened", Some(7), ReviewAction::Reject),
        Ok((ReviewCall::RejectReview(7), "rejected"))
    );
    match review_step("rec1", "committed", Some(7), ReviewAction::Merge) {
        Err(RingError::InvalidArchiveState { record_id, current, expected }) => {
            assert_eq!((record_id.as_str(), current.as_str(), expected.as_str()), ("rec1", "committed", "mr_opened"));
        }
        _ => panic!("expected InvalidArchiveState"),
    }
    match review_step("rec1", "mr_opened", None, ReviewAction::Reject) {
        Err(RingError::Internal(m)) => assert_eq!(m, "MR IID missing"),
        _ => panic!("expected Internal"),
    }
}
