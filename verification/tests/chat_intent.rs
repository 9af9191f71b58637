use ring_core::chat::{detect_archive_intent, detect_graph_intent};

#[test]
fn test_detect_archive_intent_chinese() {
    assert!(detect_archive_intent("请把这段对话归档"));
    assert!(detect_archive_intent("归档这段内容"));
    assert!(detect_archive_intent("/save"));
    assert!(!detect_archive_intent("存到图谱"));
}

#[test]
fn test_detect_archive_intent_english() {
    assert!(detect_archive_intent("archive this conversation"));
    assert!(detect_archive_intent("/archive"));
    assert!(!detect_archive_intent("save to graph"));
}

#[test]
fn test_detect_graph_intent_keywords() {
    assert!(detect_graph_intent("save to graph"));
    assert!(detect_graph_intent("帮我挂载到图谱上去"));
    assert!(detect_graph_intent("那你生成图谱啊"));
    assert!(detect_graph_intent("保存图谱"));
    assert!(detect_graph_intent("图谱呢"));
    assert!(detect_graph_intent("把刚才讨论整理成知识图谱"));
    assert!(!detect_graph_intent("什么是图谱"));
    assert!(!detect_graph_intent("hello world"));
}

#[test]
fn test_detect_archive_intent_negative() {
    assert!(!detect_archive_intent("hello world"));
    assert!(!detect_archive_intent("what is the weather today"));
    assert!(!detect_archive_intent("请保存这个文件"));
    assert!(!detect_archive_intent("记录一下会议纪要"));
    assert!(!detect_archive_intent("mark this as important"));
}

#[test]
fn archive_intent_ignores_case() {
    assert!(detect_archive_intent("Please ARCHIVE THIS thread"));
    assert!(detect_archive_intent("/SAVE now"));
}

#[test]
fn graph_intent_shorthand_is_trimmed() {
    assert!(detect_graph_intent("  Graph please  "));
    assert!(detect_graph_intent("GRAPH?"));
    assert!(!detect_graph_intent("graph"));
}

#[test]
fn graph_intent_needs_action_and_graph_word() {
    assert!(detect_graph_intent("please build a graph of this"));
    assert!(!detect_graph_intent("please build a table of this"));
    assert!(!detect_graph_intent("the graph looks nice"));
}
