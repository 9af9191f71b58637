use ring_core::super_chat::search_rings_reply;
use ring_core::error::RingError;
use ring_core::skill::SkillInfo;
use ring_core::super_chat::{
    find_label, invalid_arguments, member_command, member_invite_report, member_list_report,
    member_remove_report, new_ring_settings, no_text, ring_created_report, ring_detail,
    ring_detail_reply, ring_detail_section, ring_graph_report, ring_not_found_reply, ring_summary,
    search_section, skill_command, skill_install_report, skill_list_report, skill_remove_report,
    store_text, stored_or_default, super_sender_name, super_system_prompt, super_tool,
    super_tools, wants_search_context, ArchiveEntry, DetailNode, GraphEdgeLine, GraphNodeLine,
    MemberCommand, MemberLine, RingSummaryRow, SkillCommand, SuperTool, DEFAULT_PREFERENCES,
};

fn s(x: &str) -> String {
    x.to_string()
}

#[test]
fn offered_tools() {
    let tools = super_tools();
    let names: Vec<&str> = tools.iter().map(|t| t.name).collect();
    assert_eq!(
        names,
        vec![
            "query_rings",
            "query_ring_detail",
            "query_user_preferences",
            "update_user_preferences",
            "manage_skills",
            "create_ring",
            "search_rings",
            "manage_ring_members",
            "get_ring_graph"
        ]
    );
    assert!(tools[0].params.is_empty());
    assert_eq!(tools[1].params[0].name, "ring_name");
    assert!(tools[1].params[0].required);
    // Every offered tool dispatches to itself.
    for t in &tools {
        assert!(super_tool(t.name).is_ok(), "{}", t.name);
    }
}

#[test]
fn tool_dispatch() {
    assert_eq!(super_tool("query_rings"), Ok(SuperTool::QueryRings));
    assert_eq!(super_tool("get_ring_graph"), Ok(SuperTool::GetRingGraph));
    assert_eq!(super_tool("rm_rf"), Err(RingError::BadRequest(s("unknown tool: rm_rf"))));
    assert_eq!(invalid_arguments("eof"), RingError::BadRequest(s("invalid tool arguments: eof")));
}

#[test]
fn preferences_default_and_storage() {
    assert!(DEFAULT_PREFERENCES.starts_with("## 语言\n- default: zh-CN"));
    assert_eq!(stored_or_default(None, DEFAULT_PREFERENCES), (s(DEFAULT_PREFERENCES), false));
    assert_eq!(stored_or_default(Some("  \n"), "d"), (s("d"), false));
    assert_eq!(stored_or_default(Some("mine"), "d"), (s("mine"), true));
    assert_eq!(store_text("  "), None);
    assert_eq!(store_text(" x "), Some(s(" x ")));
}

#[test]
fn search_context_rules() {
    assert!(wants_search_context("hello"));
    assert!(!wants_search_context("hey"));
    assert!(wants_search_context("你好"));
    assert!(!wants_search_context("/help me"));
    assert_eq!(search_section("Use these:", ""), "");
    assert_eq!(search_section("Use these:", "r1"), "\n\nUse these:\n\nr1");
    assert_eq!(
        super_system_prompt("BASE", "SUM", "PREF", ""),
        "BASE\n\nSUM\n\n## 用户偏好\nPREF"
    );
}

#[test]
fn sender_names() {
    assert_eq!(super_sender_name("user"), "");
    assert_eq!(super_sender_name("assistant"), "SUPER RING");
}

#[test]
fn cross_ring_sections() {
    assert_eq!(ring_detail_section("A", "d"), "\n## Ring: A\nd");
    assert!(no_text(None));
    assert!(no_text(Some("")));
    assert!(!no_text(Some("x")));
}

#[test]
fn skill_commands() {
    assert!(matches!(skill_command("list", None, None), SkillCommand::List));
    assert!(matches!(skill_command("install", Some("n"), None),
        SkillCommand::Reply(m) if m == "安装 Skill 需要 name 和 source_url 参数。"));
    assert!(matches!(skill_command("install", Some("n"), Some("u")),
        SkillCommand::Install { name, source_url } if name == "n" && source_url == "u"));
    assert!(matches!(skill_command("remove", Some(""), None),
        SkillCommand::Reply(m) if m == "卸载 Skill 需要 name 参数。"));
    assert!(matches!(skill_command("remove", Some("n"), None), SkillCommand::Remove { name } if name == "n"));
    assert!(matches!(skill_command("frob", None, None), SkillCommand::Reply(_)));
}

#[test]
fn skill_reports() {
    assert_eq!(skill_list_report(&vec![]), "目前没有安装任何 Skill。");
    let list = vec![
        SkillInfo { name: s("decision"), description: s("d1"), source: s("builtin"), installed_at: None },
        SkillInfo { name: s("mine"), description: s("d2"), source: s("user"), installed_at: Some(s("t")) },
    ];
    assert_eq!(
        skill_list_report(&list),
        "## 已安装的 Skill\n\n### decision [内置]\nd1\n\n### mine [用户]\nd2\n\n"
    );
    let ok: Result<SkillInfo, RingError> = Ok(SkillInfo {
        name: s("mine"),
        description: s("does"),
        source: s("user"),
        installed_at: None,
    });
    assert_eq!(skill_install_report(&ok), "Skill 'mine' 安装成功：does");
    let bad: Result<SkillInfo, RingError> = Err(RingError::BadRequest(s("no")));
    assert_eq!(skill_install_report(&bad), "Skill 安装失败：bad request: no");
    assert_eq!(skill_remove_report("mine", &Ok(())), "Skill 'mine' 已卸载。");
    assert_eq!(
        skill_remove_report("x", &Err(RingError::NotFound(s("Skill 'x' not found")))),
        "卸载失败：not found: Skill 'x' not found"
    );
}

#[test]
fn member_commands_and_reports() {
    assert!(matches!(member_command("list", None), MemberCommand::List));
    assert!(matches!(member_command("invite", None),
        MemberCommand::Reply(m) if m == "invite 操作需要 target_user_id 参数。"));
    assert!(matches!(member_command("invite", Some("u2")), MemberCommand::Invite { target } if target == "u2"));
    assert!(matches!(member_command("remove", Some("u2")), MemberCommand::Remove { target } if target == "u2"));
    assert_eq!(ring_not_found_reply("X"), "未找到名为「X」的 Ring。");
    let members = vec![MemberLine { display_name: s("Ann"), role: s("creator"), token_id: s("t1") }];
    assert_eq!(member_list_report("R", &members), "## Ring「R」的成员\n\n- Ann (creator): t1\n");
    assert_eq!(member_invite_report("R", "u2", &Ok(())), "已将用户 u2 添加到 Ring「R」。");
    assert_eq!(member_remove_report("R", "u2", &Ok(())), "已将用户 u2 从 Ring「R」移除。");
    assert_eq!(
        member_remove_report("R", "u2", &Err(RingError::Forbidden(s("no")))),
        "移除成员失败：forbidden: no"
    );
}

#[test]
fn new_rings() {
    assert_eq!(new_ring_settings("Docs", None, None), (s("You are a Docs assistant"), s("local")));
    assert_eq!(new_ring_settings("Docs", Some("R"), Some("gitlab")), (s("R"), s("gitlab")));
    assert_eq!(
        ring_created_report(&Ok((s("Docs"), s("r1")))),
        "Ring「Docs」已创建成功！ID: r1。用户可以进入该 Ring 开始使用。"
    );
}

#[test]
fn graph_outline() {
    let nodes = vec![
        GraphNodeLine { id: s("n1"), label: s("A"), node_type: s("topic"), tags: s("[]") },
        GraphNodeLine { id: s("n2"), label: s("B"), node_type: s("leaf"), tags: s("[\"x\"]") },
    ];
    let edges = vec![
        GraphEdgeLine { source_id: s("n1"), target_id: s("n2"), relation: s("related_to") },
        GraphEdgeLine { source_id: s("n1"), target_id: s("n9"), relation: s("r") },
    ];
    assert_eq!(find_label(&nodes, "n2"), "B");
    assert_eq!(find_label(&nodes, "zz"), "zz");
    assert_eq!(
        ring_graph_report("R", &nodes, &edges),
        "## Ring「R」图谱概要\n\n### 节点（共 2 个）\n\n- A [topic] \n- B [leaf] tags: [\"x\"]\n\n### 边（共 2 个）\n\n- A → B (related_to)\n- A → n9 (r)\n"
    );
}

#[test]
fn ring_summaries() {
    assert_eq!(ring_summary(&vec![]), "用户目前没有任何 Ring。");
    let rows = vec![
        RingSummaryRow { name: s("A"), member_count: 3, archive_titles: Some(s("t1|t2|t3|t4")) },
        RingSummaryRow { name: s("B"), member_count: 1, archive_titles: None },
    ];
    assert_eq!(
        ring_summary(&rows),
        "## 用户的所有 Ring\n\n### A (3 成员)\n- 最近归档: t1, t2, t3\n\n### B (1 成员)\n- 暂无归档\n\n"
    );
}

#[test]
fn ring_details() {
    let nodes = vec![
        DetailNode { label: s("A"), description: s("") },
        DetailNode { label: s("B"), description: s("about b") },
    ];
    let archives = vec![
        ArchiveEntry { name: s("2024_x.md"), content: Some(s("body")) },
        ArchiveEntry { name: s("notes.txt"), content: Some(s("skip")) },
        ArchiveEntry { name: s("y.md"), content: Some("z".repeat(501)) },
        ArchiveEntry { name: s("late.md"), content: Some(s("not shown")) },
    ];
    let d = ring_detail(Some(&nodes), Some(&archives));
    assert_eq!(
        d,
        format!(
            "### 图谱节点（共 2 个，显示前 50 个）\n- A\n- B: about b\n\n### 最近归档\n\n#### 2024_x.md\nbody\n\n#### y.md\n{}...（截断）\n\n",
            "z".repeat(500)
        )
    );
    assert_eq!(ring_detail(None, None), "");
    assert_eq!(ring_detail_reply("R", s("")), "Ring「R」暂无图谱和归档数据。");
    assert_eq!(ring_detail_reply("R", s("x")), "x");
}

#[test]
fn search_rings_replies() {
    assert_eq!(search_rings_reply(false, &[]), "用户目前没有任何 Ring。");
    assert_eq!(search_rings_reply(true, &[]), "未找到相关结果。");
}
