use ring_core::error::RingError;
use ring_core::graph::{
    command_report, doc_excerpt, doc_path, graph_command_request, graph_response,
    mutation_report, node_search_content, plan_graph_command, plan_graph_mutation,
    snapshot_commit_message, CommandPlan, DocRef, GraphCommand, GraphOp, GraphOutcome, GraphRow,
    GRAPH_COMMAND_PROMPT,
};
use ring_core::workflow::GraphMutationArgs;

fn s(x: &str) -> String {
    x.to_string()
}

fn args(action: &str) -> GraphMutationArgs {
    GraphMutationArgs {
        action: s(action),
        node_id: None,
        label: None,
        node_type: None,
        parent_id: None,
        content: None,
        tags: None,
        source_id: None,
        target_id: None,
        relation: None,
        edge_id: None,
    }
}

fn command(action: &str) -> GraphCommand {
    GraphCommand {
        action: s(action),
        label: None,
        node_type: None,
        parent_id: None,
        content: None,
        node_id: None,
        source_id: None,
        target_id: None,
        relation: None,
        edge_id: None,
        tags: None,
    }
}

#[test]
fn graph_rows_and_texts() {
    let g = GraphRow {
        id: s("g1"),
        ring_id: s("r1"),
        name: s("default"),
        created_at: s("t0"),
        updated_at: s("t1"),
    };
    let r = graph_response(g, vec![], vec![]);
    assert_eq!(r.id, "g1");
    assert_eq!(r.name, "default");
    assert!(r.nodes.is_empty());
    assert_eq!(node_search_content("body", "[\"a\"]"), "body [\"a\"]");
    assert_eq!(snapshot_commit_message("r1"), "sync: update graph snapshot for ring r1");
}

#[test]
fn documents_of_nodes() {
    let d = DocRef { path: s("archives/a.md"), title: s("A"), doc_type: s("archive") };
    assert_eq!(doc_path("/data", "r1", &d), "/data/r1/archives/a.md");
    assert_eq!(doc_excerpt("short"), "short");
    assert_eq!(doc_excerpt(&"中".repeat(6000)).chars().count(), 5000);
}

#[test]
fn mutation_defaults() {
    match plan_graph_mutation(args("create_node")) {
        Ok(GraphOp::CreateNode(i)) => {
            assert_eq!(i.label, "New Node");
            assert_eq!(i.node_type, "topic");
            assert_eq!(i.content, "");
            assert!(i.tags.is_empty());
            assert!(i.parent_id.is_none());
        }
        _ => panic!("expected create"),
    }
    let mut a = args("create_edge");
    a.source_id = Some(s("n1"));
    a.target_id = Some(s("n2"));
    match plan_graph_mutation(a) {
        Ok(GraphOp::CreateEdge(e)) => {
            assert_eq!(e.relation, "related_to");
            assert_eq!(e.label, "");
        }
        _ => panic!("expected edge"),
    }
}

#[test]
fn mutation_errors() {
    let err = |a: GraphMutationArgs| match plan_graph_mutation(a) {
        Err(RingError::BadRequest(m)) => m,
        _ => panic!("expected error"),
    };
    assert_eq!(err(args("update_node")), "node_id required for update_node");
    assert_eq!(err(args("delete_node")), "node_id required for delete_node");
    assert_eq!(err(args("create_edge")), "source_id required");
    let mut a = args("create_edge");
    a.source_id = Some(s("n1"));
    assert_eq!(err(a), "target_id required");
    assert_eq!(err(args("delete_edge")), "edge_id required for delete_edge");
    assert_eq!(err(args("explode")), "unknown graph mutation action: explode");
}

#[test]
fn mutation_reports() {
    assert_eq!(
        mutation_report(&GraphOutcome::NodeCreated { label: s("A"), id: s("n1") }),
        "Created node: A (n1)"
    );
    assert_eq!(mutation_report(&GraphOutcome::NodeDeleted), "Deleted node");
    assert_eq!(
        mutation_report(&GraphOutcome::EdgeCreated {
            source_id: s("a"),
            relation: s("rel"),
            target_id: s("b"),
            id: s("e1")
        }),
        "Created edge: a -[rel]-> b (e1)"
    );
}

#[test]
fn chat_graph_commands() {
    assert_eq!(graph_command_request("建个节点"), format!("{}\n建个节点", GRAPH_COMMAND_PROMPT));
    assert!(matches!(plan_graph_command(command("none")), CommandPlan::NotACommand));
    assert!(matches!(plan_graph_command(command("delete_node")), CommandPlan::Reply(m) if m == "需要指定节点 ID"));
    assert!(matches!(plan_graph_command(command("delete_edge")), CommandPlan::Reply(m) if m == "需要指定边 ID"));
    match plan_graph_command(command("create_edge")) {
        CommandPlan::Run(GraphOp::CreateEdge(e)) => {
            assert_eq!(e.source_id, "");
            assert_eq!(e.relation, "related_to");
        }
        _ => panic!("expected edge"),
    }
    let mut c = command("update_node");
    c.node_id = Some(s("n1"));
    c.label = Some(s("New"));
    match plan_graph_command(c) {
        CommandPlan::Run(GraphOp::UpdateNode { node_id, input }) => {
            assert_eq!(node_id, "n1");
            assert_eq!(input.label, Some(s("New")));
        }
        _ => panic!("expected update"),
    }
}

#[test]
fn command_reports() {
    let op = GraphOp::DeleteNode { node_id: s("n1") };
    assert_eq!(command_report(&op, &Ok(GraphOutcome::NodeDeleted)), "已删除节点");
    assert_eq!(
        command_report(&op, &Err(RingError::NotFound(s("node n1")))),
        "删除节点失败: not found: node n1"
    );
    assert_eq!(
        command_report(
            &op,
            &Ok(GraphOutcome::EdgeCreated { source_id: s("a"), relation: s("r"), target_id: s("b"), id: s("e") })
        ),
        "已创建边: a -> b (e)"
    );
}
