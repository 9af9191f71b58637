use ring_core::error::RingError;
use ring_core::memory::{
    add_fact, compression_request, extraction_request, fact_file, is_memory_file, label_of,
    memory_context, memory_file_info, needs_compression, validate_memory_name, MAX_FILE_CHARS,
};

fn s(x: &str) -> String {
    x.to_string()
}

#[test]
fn memory_files_and_labels() {
    assert!(is_memory_file("user_profile"));
    assert!(is_memory_file("growth"));
    assert!(!is_memory_file("../secrets"));
    assert_eq!(validate_memory_name("preferences"), Ok(()));
    assert_eq!(
        validate_memory_name("x"),
        Err(RingError::BadRequest(s("invalid memory file: x")))
    );
    assert_eq!(label_of("active_goals"), "当前目标");
    assert_eq!(label_of("other"), "other");
}

#[test]
fn file_information() {
    let i = memory_file_info("growth", "- a\n\n  \n- b\n", true);
    assert!(i.exists);
    assert_eq!(i.line_count, 2);
    assert_eq!(i.size, 12);
    let i = memory_file_info("growth", "", false);
    assert!(!i.exists);
    assert_eq!(i.line_count, 0);
    assert_eq!(i.size, 0);
}

#[test]
fn memory_prompt_context() {
    let files = vec![
        (s("user_profile"), Some(s("- engineer"))),
        (s("preferences"), Some(s("   "))),
        (s("active_goals"), None),
    ];
    assert_eq!(memory_context(&files), "## 长期记忆\n\n### 用户画像\n- engineer\n\n");
    assert_eq!(memory_context(&vec![(s("growth"), None)]), "");
}

#[test]
fn facts_are_filed_once() {
    assert_eq!(fact_file("goals"), Some("active_goals"));
    assert_eq!(fact_file("user_profile"), Some("user_profile"));
    assert_eq!(fact_file("mood"), None);
    let c = add_fact("# 偏好", "likes tea").unwrap();
    assert_eq!(c, "# 偏好\n- likes tea\n");
    // Law: a fact already present is not added again.
    assert_eq!(add_fact(&c, "likes tea"), None);
    assert_eq!(add_fact("", "x").unwrap(), "- x\n");
    assert_eq!(add_fact("a\n", "y").unwrap(), "a\n- y\n");
}

#[test]
fn compression_threshold() {
    assert_eq!(MAX_FILE_CHARS, 2000);
    assert!(!needs_compression(&"a".repeat(2000), true));
    assert!(needs_compression(&"a".repeat(2001), true));
    assert!(!needs_compression(&"a".repeat(3000), false));
    assert!(needs_compression(&"长".repeat(700), true));
}

#[test]
fn model_requests() {
    let r = extraction_request("I am a chef", "Nice");
    assert!(r.starts_with("你是记忆提取系统。"));
    assert!(r.ends_with("用户说：I am a chef\n\nAI 回复：Nice"));
    let r = compression_request("growth", "long");
    assert!(r.starts_with("以下是 Self AI 的「成长轨迹」记忆文件"));
    assert!(r.ends_with("原始内容：\nlong"));
}
