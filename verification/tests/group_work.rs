use ring_core::group_work::{
    detail_key, fallback_materials, graph_key, instruction_with, invalidate_ring,
    invalidate_summary, material_from, material_request, materials_from, merged_corrections,
    merged_patterns, new_cache, refreshes_active_context, summary_key, NodeBrief, TtlCache,
    KNOWLEDGE_SUMMARY_PROMPT, MATERIAL_PREP_PROMPT,
};

fn s(x: &str) -> String {
    x.to_string()
}

#[test]
fn cached_answers_expire() {
    let mut c = TtlCache::new();
    c.put("summary:u1", s("v1"), 1000);
    assert_eq!(c.get("summary:u1", 1000), Some(s("v1")));
    assert_eq!(c.get("summary:u1", 1299), Some(s("v1")));
    assert_eq!(c.get("summary:u1", 1300), None);
    assert_eq!(c.get("other", 1000), None);
    // A later value replaces the earlier one.
    c.put("summary:u1", s("v2"), 1400);
    assert_eq!(c.get("summary:u1", 1401), Some(s("v2")));
}

#[test]
fn test_cross_ring_cache_summary_and_invalidation() {
    let mut c = new_cache();
    c.put(&summary_key("u1"), s("rings of u1"), 0);
    assert_eq!(c.get("summary:u1", 10), Some(s("rings of u1")));
    invalidate_summary(&mut c, "u1");
    assert_eq!(c.get("summary:u1", 10), None);
}

#[test]
fn test_cross_ring_cache_invalidate_ring() {
    let mut c = new_cache();
    c.put(&detail_key("r1"), s("detail"), 0);
    c.put(&graph_key("r1"), s("graph"), 0);
    c.put(&detail_key("r2"), s("other"), 0);
    invalidate_ring(&mut c, "r1");
    assert_eq!(c.get("detail:r1", 1), None);
    assert_eq!(c.get("graph:r1", 1), None);
    assert_eq!(c.get("detail:r2", 1), Some(s("other")));
}

#[test]
fn group_documents() {
    assert!(!refreshes_active_context(2));
    assert!(refreshes_active_context(3));
    assert_eq!(merged_patterns("", "  p1 \n"), "p1");
    assert_eq!(merged_patterns("old", "new"), "old\n\n---\n\nnew");
    assert_eq!(merged_corrections(None, "2024-01-01", "fix"), "## 2024-01-01\n- fix");
    assert_eq!(
        merged_corrections(Some("## 2023-12-31\n- prev\n"), "2024-01-01", "fix"),
        "## 2024-01-01\n- fix\n\n## 2023-12-31\n- prev"
    );
    assert_eq!(
        instruction_with(KNOWLEDGE_SUMMARY_PROMPT, "nodes"),
        format!("{}\nnodes", KNOWLEDGE_SUMMARY_PROMPT)
    );
}

#[test]
fn material_requests() {
    let nodes = vec![
        NodeBrief { label: s("A"), node_type: s("topic"), content: s("a") },
        NodeBrief { label: s("B"), node_type: s("leaf"), content: s("") },
    ];
    assert_eq!(
        material_request("decision", "Pick", "why", &nodes),
        format!(
            "{}\nSkill: decision\n标题: Pick\n描述: why\n\n群组图谱上下文:\n- A (topic): a\n- B (leaf): ",
            MATERIAL_PREP_PROMPT
        )
    );
}

#[test]
fn materials_from_model() {
    let m = material_from(None, Some("T"), None);
    assert_eq!(m.item_type, "context");
    assert_eq!(m.title, "T");
    assert_eq!(m.content, "");
    let raw: Vec<(Option<String>, Option<String>, Option<String>)> =
        (0..7).map(|i| (Some(s("data")), Some(format!("t{}", i)), None)).collect();
    let ms = materials_from(&raw);
    assert_eq!(ms.len(), 5);
    assert_eq!(ms[4].title, "t4");
    assert_eq!(ms[0].item_type, "data");
}

#[test]
fn fallback_materials_per_skill() {
    let ms = fallback_materials("decision", "Pick DB");
    assert_eq!(ms.len(), 4);
    assert_eq!(ms[0].item_type, "context");
    assert_eq!(ms[0].title, "Pick DB - 背景信息");
    assert_eq!(ms[3].content, "定义评估和选择方案的标准");
    let ms = fallback_materials("discussion", "Chat");
    assert_eq!(ms.len(), 3);
    assert_eq!(ms[2].title, "Chat - 相关资料");
}
