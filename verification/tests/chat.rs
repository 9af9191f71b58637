use ring_core::chat::{
    activity_entry, attached_docs_block, auto_compact_count, compact_plan, compact_result,
    compact_transcript, format_doc_ctx, get_group_ring_tools, group_prompt, group_tool, history_context, keeps_history,
    node_docs_section, oldest_messages, summary_message, uses_group_prompt, AttachedDoc,
    ChatParams, CompactPlan, GroupTool, MessageLine,
};
use ring_core::error::RingError;

fn s(x: &str) -> String {
    x.to_string()
}

fn msg(id: &str, role: &str, sender: &str, content: &str) -> MessageLine {
    MessageLine { id: s(id), role: s(role), sender_name: s(sender), content: s(content) }
}

#[test]
fn automatic_compaction() {
    assert_eq!(auto_compact_count(29), None);
    assert_eq!(auto_compact_count(30), Some(20));
    assert_eq!(auto_compact_count(45), Some(35));
}

#[test]
fn compaction_on_request() {
    match compact_plan(0) {
        CompactPlan::Done(c) => {
            assert_eq!(c.summary, "No messages to compact.");
            assert_eq!(c.removed_count, 0);
        }
        _ => panic!(),
    }
    match compact_plan(2) {
        CompactPlan::Done(c) => assert_eq!(c.summary, "Too few messages to compact."),
        _ => panic!(),
    }
    assert!(matches!(compact_plan(7), CompactPlan::Summarise(5)));
    let r = compact_result(5, Some(s("sum")));
    assert_eq!((r.summary.as_str(), r.removed_count), ("sum", 5));
    let r = compact_result(5, None);
    assert_eq!((r.summary.as_str(), r.removed_count), ("No messages to compact.", 0));
}

#[test]
fn oldest_messages_in_order() {
    let newest_first = vec![
        msg("3", "assistant", "AI", "c"),
        msg("2", "user", "Ann", "b"),
        msg("1", "user", "Ann", "a"),
    ];
    let old = oldest_messages(&newest_first, 2);
    let ids: Vec<&str> = old.iter().map(|m| m.id.as_str()).collect();
    assert_eq!(ids, vec!["1", "2"]);
    assert_eq!(compact_transcript(&old), "Ann: a\n\nAnn: b");
    assert!(summary_message("S").ends_with("] S"));
}

#[test]
fn history_skips_system_messages() {
    let newest_first = vec![
        msg("3", "assistant", "AI", "c"),
        msg("2", "system", "", "summary"),
        msg("1", "user", "Ann", "a"),
    ];
    assert_eq!(
        history_context(&newest_first),
        vec![(s("user"), s("a")), (s("assistant"), s("c"))]
    );
}

#[test]
fn chat_parameters() {
    let p = ChatParams {
        ring_id: Some("r1"),
        role_description: None,
        ring_name: Some("Docs"),
        ai_role: "assistant",
        content: "hi",
        node_refs: vec![],
        tag_refs: vec![],
        ephemeral: false,
    };
    assert!(uses_group_prompt(&p));
    assert!(keeps_history(&p));
    let q = ChatParams { ring_name: None, ephemeral: true, ..p };
    assert!(!uses_group_prompt(&q));
    assert!(!keeps_history(&q));
}

#[test]
fn group_documents_in_prompts() {
    let docs = vec![(Some(s("ctx")), "active_context"), (Some(s("  ")), "blank"), (None, "missing")];
    assert_eq!(format_doc_ctx(&docs), "### active_context\nctx\n\n");
    assert_eq!(group_prompt(s("BASE"), "", "", ""), "BASE");
    assert_eq!(
        group_prompt(s("BASE"), "core", "ext", "att"),
        "BASE\n\n## Group Context (Core)\n\ncore## Group Context (Extended)\n\next\n\natt"
    );
    assert_eq!(group_prompt(s("BASE"), "", "", "att"), "BASE\n\natt");
}

#[test]
fn attached_documents() {
    assert_eq!(node_docs_section("N", &vec![]), None);
    let docs = vec![AttachedDoc { title: s("T"), doc_type: s("archive"), content: s("body") }];
    assert_eq!(
        node_docs_section("N", &docs),
        Some(s("### Node: N\n\n#### T (archive)\nbody\n\n"))
    );
    assert_eq!(attached_docs_block(&vec![]), "");
    let sections = vec!["a".chars().collect::<Vec<char>>(), "b".chars().collect()];
    assert_eq!(attached_docs_block(&sections), "<attached_docs>\na\nb\n</attached_docs>");
}

#[test]
fn activity_lines() {
    let long = "x".repeat(150);
    let line = activity_entry(&msg("1", "assistant", "AI", &long));
    assert_eq!(line, format!("- AI: {}...", "x".repeat(100)));
    let line = activity_entry(&msg("1", "assistant", "AI", "short"));
    assert_eq!(line, "- AI: short");
}

#[test]
fn test_group_ring_tools_defined() {
    let tools = get_group_ring_tools();
    assert_eq!(tools.len(), 3);
    let names: Vec<&str> = tools.iter().map(|t| t.name).collect();
    assert!(names.contains(&"file_parse"));
    assert!(names.contains(&"knowledge_extract"));
    assert!(names.contains(&"fetch_url"));
    assert_eq!(tools[2].params[0].name, "url");
    assert!(tools[2].params[0].required);
    assert!(!tools[2].params[1].required);
}

#[test]
fn group_tool_dispatch() {
    assert_eq!(group_tool("file_parse"), Ok(GroupTool::FileParse));
    assert_eq!(group_tool("knowledge_extract"), Ok(GroupTool::KnowledgeExtract));
    assert_eq!(group_tool("fetch_url"), Ok(GroupTool::FetchUrl));
    assert_eq!(group_tool("shell"), Err(RingError::BadRequest(s("unknown tool: shell"))));
}
