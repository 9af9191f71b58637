use ring_core::blueprint::{
    blank_template, blueprint_edge_links, get_blueprint, get_builtin_templates,
    learning_notes_template, preview_from_template, product_research_template, PreviewEdge,
    PreviewNode,
};
use ring_core::error::RingError;

#[test]
fn builtin_templates_in_order() {
    let ts = get_builtin_templates();
    let ids: Vec<&str> = ts.iter().map(|t| t.id.as_str()).collect();
    assert_eq!(
        ids,
        vec!["product-research", "project-management", "learning-notes", "technical-docs", "blank"]
    );
}

#[test]
fn every_template_edge_joins_its_own_nodes() {
    for t in get_builtin_templates() {
        for e in &t.edges {
            assert!(t.nodes.iter().any(|n| n.label == e.from), "{} {}", t.id, e.from);
            assert!(t.nodes.iter().any(|n| n.label == e.to), "{} {}", t.id, e.to);
        }
    }
}

#[test]
fn product_research_shape() {
    let t = product_research_template();
    assert_eq!(t.name, "产品研究");
    assert_eq!(t.nodes.len(), 10);
    assert_eq!(t.edges.len(), 8);
    assert_eq!(t.nodes[0].label, "产品概览");
    assert_eq!(t.nodes[0].node_type, "category");
    assert_eq!(t.nodes[0].tags, vec!["overview".to_string()]);
    assert_eq!(t.edges[4].relation, "derives_from");
    let l = learning_notes_template();
    assert_eq!(l.edges[1].from, "前置知识");
    assert_eq!(l.edges[1].relation, "depends_on");
}

#[test]
fn blank_template_has_one_node() {
    let t = blank_template();
    assert_eq!(t.id, "blank");
    assert_eq!(t.nodes.len(), 1);
    assert_eq!(t.nodes[0].label, "中心主题");
    assert!(t.nodes[0].tags.is_empty());
    assert!(t.edges.is_empty());
}

#[test]
fn preview_of_known_template() {
    let p = preview_from_template("technical-docs").unwrap();
    assert_eq!(p.nodes.len(), 9);
    assert_eq!(p.edges.len(), 8);
    assert_eq!(p.nodes[1].label, "接口设计");
    assert_eq!(p.edges[0].from, "系统架构");
}

#[test]
fn blueprint_status_of_missing_ring() {
    match get_blueprint("r1", None) {
        Err(RingError::NotFound(m)) => assert_eq!(m, "ring r1 not found"),
        _ => panic!("expected NotFound"),
    }
    let b = get_blueprint("r1", Some("pending".to_string())).unwrap();
    assert_eq!(b.status, "pending");
    assert!(b.template.is_none());
    assert!(b.preview.is_none());
}

fn node(label: &str) -> PreviewNode {
    PreviewNode { label: label.to_string(), node_type: "topic".to_string(), tags: vec![] }
}

fn edge(from: &str, to: &str, rel: &str) -> PreviewEdge {
    PreviewEdge { from: from.to_string(), to: to.to_string(), relation: rel.to_string() }
}

#[test]
fn edge_links_map_labels_to_ids() {
    let nodes = vec![node("A"), node("B"), node("A")];
    let ids = vec!["n1".to_string(), "n2".to_string(), "n3".to_string()];
    let edges = vec![edge("A", "B", "r1"), edge("B", "C", "r2"), edge("B", "A", "r3")];
    let links = blueprint_edge_links(&nodes, &ids, &edges);
    let got: Vec<(String, String, String)> =
        links.into_iter().map(|l| (l.source_id, l.target_id, l.relation)).collect();
    assert_eq!(
        got,
        vec![
            ("n3".to_string(), "n2".to_string(), "r1".to_string()),
            ("n2".to_string(), "n3".to_string(), "r3".to_string()),
        ]
    );
}

#[test]
fn preview_of_blank_template() {
    let p = preview_from_template("blank").ok().unwrap();
    assert_eq!(p.nodes.len(), 1);
    assert_eq!(p.nodes[0].label, "中心主题");
    assert_eq!(p.nodes[0].node_type, "category");
    assert!(p.nodes[0].tags.is_empty());
    assert!(p.edges.is_empty());
}

#[test]
fn preview_copies_template_in_order() {
    let t = product_research_template();
    let p = preview_from_template("product-research").ok().unwrap();
    let labels: Vec<&str> = p.nodes.iter().map(|n| n.label.as_str()).collect();
    let expected: Vec<&str> = t.nodes.iter().map(|n| n.label.as_str()).collect();
    assert_eq!(labels, expected);
    assert_eq!(p.nodes[9].node_type, "leaf");
    assert_eq!(p.nodes[9].tags, vec!["decision".to_string()]);
    assert_eq!(p.edges.len(), 8);
    assert_eq!(p.edges[4].from, "市场趋势");
    assert_eq!(p.edges[4].to, "差异化策略");
    assert_eq!(p.edges[4].relation, "derives_from");
}

#[test]
fn preview_of_unknown_template() {
    match preview_from_template("nope") {
        Err(RingError::NotFound(m)) => assert_eq!(m, "template nope not found"),
        _ => panic!("expected NotFound"),
    }
}

#[test]
fn builtin_templates_have_distinct_labels_and_one_category() {
    for t in get_builtin_templates() {
        let mut labels: Vec<&str> = t.nodes.iter().map(|n| n.label.as_str()).collect();
        let n = labels.len();
        labels.sort();
        labels.dedup();
        assert_eq!(labels.len(), n, "{}", t.id);
        assert_eq!(t.nodes[0].node_type, "category");
        assert_eq!(t.nodes.iter().filter(|n| n.node_type == "category").count(), 1);
        assert!(t.nodes.iter().all(|n| ["topic", "category", "leaf"].contains(&n.node_type.as_str())));
    }
}
