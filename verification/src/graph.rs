//! Knowledge graphs: the rows a ring's graphs are stored as, the documents a
//! node refers to, and the graph edits that a tool call or a chat command
//! asks for, with the answers given once an edit has run.
use vstd::prelude::*;
use vstd::string::*;

use crate::archive::{join_path, path_join};
use crate::error::{error_text, RingError};
use crate::text::{chars_of, owned, push_str, str_eq, string_of, take_chars};
use crate::workflow::GraphMutationArgs;

verus! {

// ---------------------------------------------------------------------------
// Stored rows
// ---------------------------------------------------------------------------

/// A graph of a ring.
pub struct GraphRow {
    pub id: String,
    pub ring_id: String,
    pub name: String,
    pub created_at: String,
    pub updated_at: String,
}

/// A node of a graph. `tags` and `metadata` hold JSON text.
pub struct GraphNodeRow {
    pub id: String,
    pub graph_id: String,
    pub ring_id: String,
    pub label: String,
    pub parent_id: Option<String>,
    pub node_type: String,
    pub content: String,
    pub tags: String,
    pub markdown_path: Option<String>,
    pub metadata: String,
    pub created_at: String,
    pub updated_at: String,
}

/// An edge of a graph.
pub struct GraphEdgeRow {
    pub id: String,
    pub graph_id: String,
    pub ring_id: String,
    pub source_id: String,
    pub target_id: String,
    pub relation: String,
    pub label: String,
    pub created_at: String,
}

/// A graph with its nodes and edges, as the API returns it.
pub struct GraphResponse {
    pub id: String,
    pub name: String,
    pub ring_id: String,
    pub nodes: Vec<GraphNodeRow>,
    pub edges: Vec<GraphEdgeRow>,
    pub created_at: String,
    pub updated_at: String,
}

/// A graph with its nodes and edges.
pub fn graph_response(g: GraphRow, nodes: Vec<GraphNodeRow>, edges: Vec<GraphEdgeRow>) -> (r: GraphResponse)
    ensures
        r.id == g.id && r.name == g.name && r.ring_id == g.ring_id,
        r.created_at == g.created_at && r.updated_at == g.updated_at,
        r.nodes@ == nodes@ && r.edges@ == edges@,
{
    GraphResponse {
        id: g.id,
        name: g.name,
        ring_id: g.ring_id,
        nodes,
        edges,
        created_at: g.created_at,
        updated_at: g.updated_at,
    }
}

/// What the search index holds for a node: its content and its tags.
pub fn node_search_content(content: &str, tags: &str) -> (r: String)
    ensures
        r@ == content@ + " "@ + tags@,
{
    let mut r = owned(content);
    push_str(&mut r, " ");
    push_str(&mut r, tags);
    r
}

/// The commit message when a ring's graph snapshot is saved.
pub fn snapshot_commit_message(ring_id: &str) -> (r: String)
    ensures
        r@ == "sync: update graph snapshot for ring "@ + ring_id@,
{
    let mut r = owned("sync: update graph snapshot for ring ");
    push_str(&mut r, ring_id);
    r
}

// ---------------------------------------------------------------------------
// Documents that nodes refer to
// ---------------------------------------------------------------------------

/// A document that a node refers to: a path inside the ring's directory.
pub struct DocRef {
    pub path: String,
    pub title: String,
    pub doc_type: String,
}

/// Where a referenced document lives: the ring's directory joined with the
/// reference's path.
pub fn doc_path(rings_dir: &str, ring_id: &str, doc: &DocRef) -> (r: String)
    ensures
        r@ == path_join(path_join(rings_dir@, ring_id@), doc.path@),
{
    let ring_dir = join_path(rings_dir, ring_id);
    join_path(ring_dir.as_str(), doc.path.as_str())
}

/// The part of a referenced document that is shown: its first 5000
/// characters.
pub fn doc_excerpt(content: &str) -> (r: String)
    ensures
        r@ == content@.take(if content@.len() < 5000 { content@.len() as int } else { 5000 }),
{
    let cs = chars_of(content);
    let head = take_chars(cs.as_slice(), 5000);
    string_of(head.as_slice())
}

// ---------------------------------------------------------------------------
// Graph edits
// ---------------------------------------------------------------------------

/// A node to create. The graph is the ring's default one when none is named.
pub struct CreateNodeInput {
    pub label: String,
    pub graph_id: Option<String>,
    pub parent_id: Option<String>,
    pub node_type: String,
    pub tags: Vec<String>,
    pub content: String,
    pub markdown_path: Option<String>,
}

/// The changes to a node; absent fields stay as they are.
pub struct UpdateNodeInput {
    pub label: Option<String>,
    pub tags: Option<Vec<String>>,
    pub content: Option<String>,
}

/// An edge to create. The graph is the ring's default one when none is named.
pub struct CreateEdgeInput {
    pub graph_id: Option<String>,
    pub source_id: String,
    pub target_id: String,
    pub relation: String,
    pub label: String,
}

/// An edit of a ring's graph.
pub enum GraphOp {
    CreateNode(CreateNodeInput),
    UpdateNode { node_id: String, input: UpdateNodeInput },
    DeleteNode { node_id: String },
    CreateEdge(CreateEdgeInput),
    DeleteEdge { edge_id: String },
}

/// An optional text, or a default when absent.
pub open spec fn text_or(o: Option<String>, d: Seq<char>) -> Seq<char> {
    match o {
        Some(s) => s@,
        None => d,
    }
}

/// Whether a node to create is the one that a request with these fields
/// describes: label `New Node` and type `topic` unless given, no tags and
/// empty content unless given, the default graph, no Markdown path.
pub open spec fn node_created_from(
    i: CreateNodeInput,
    label: Option<String>,
    node_type: Option<String>,
    parent_id: Option<String>,
    content: Option<String>,
    tags: Option<Vec<String>>,
) -> bool {
    &&& i.label@ == text_or(label, "New Node"@)
    &&& i.node_type@ == text_or(node_type, "topic"@)
    &&& i.parent_id == parent_id
    &&& i.content@ == text_or(content, Seq::empty())
    &&& i.tags@ == match tags {
        Some(t) => t@,
        None => Seq::<String>::empty(),
    }
    &&& i.graph_id is None
    &&& i.markdown_path is None
}

fn node_to_create(
    label: Option<String>,
    node_type: Option<String>,
    parent_id: Option<String>,
    content: Option<String>,
    tags: Option<Vec<String>>,
) -> (r: CreateNodeInput)
    ensures
        node_created_from(r, label, node_type, parent_id, content, tags),
{
    CreateNodeInput {
        label: match label {
            Some(l) => l,
            None => owned("New Node"),
        },
        graph_id: None,
        parent_id,
        node_type: match node_type {
            Some(t) => t,
            None => owned("topic"),
        },
        tags: match tags {
            Some(t) => t,
            None => Vec::new(),
        },
        content: match content {
            Some(c) => c,
            None => String::new(),
        },
        markdown_path: None,
    }
}

/// The edit that a graph-mutation tool call asks for. `update_node` and
/// `delete_node` need a node id, `create_edge` a source and a target (the
/// relation is `related_to` unless given), `delete_edge` an edge id; a
/// missing one and an unknown action are refused.
pub fn plan_graph_mutation(args: GraphMutationArgs) -> (r: Result<GraphOp, RingError>)
    ensures
        args.action@ == "create_node"@ ==> (r matches Ok(GraphOp::CreateNode(i)) && node_created_from(
            i,
            args.label,
            args.node_type,
            args.parent_id,
            args.content,
            args.tags,
        )),
        args.action@ == "update_node"@ && args.node_id is None ==> (r matches Err(
            RingError::BadRequest(m),
        ) && m@ == "node_id required for update_node"@),
        args.action@ == "update_node"@ && args.node_id is Some ==> (r matches Ok(
            GraphOp::UpdateNode { node_id, input },
        ) && Some(node_id) == args.node_id && input.label == args.label && input.tags == args.tags
            && input.content == args.content),
        args.action@ == "delete_node"@ && args.node_id is None ==> (r matches Err(
            RingError::BadRequest(m),
        ) && m@ == "node_id required for delete_node"@),
        args.action@ == "delete_node"@ && args.node_id is Some ==> (r matches Ok(
            GraphOp::DeleteNode { node_id },
        ) && Some(node_id) == args.node_id),
        args.action@ == "create_edge"@ && args.source_id is None ==> (r matches Err(
            RingError::BadRequest(m),
        ) && m@ == "source_id required"@),
        args.action@ == "create_edge"@ && args.source_id is Some && args.target_id is None ==> (r matches Err(
            RingError::BadRequest(m),
        ) && m@ == "target_id required"@),
        args.action@ == "create_edge"@ && args.source_id is Some && args.target_id is Some ==> (r matches Ok(
            GraphOp::CreateEdge(i),
        ) && Some(i.source_id) == args.source_id && Some(i.target_id) == args.target_id
            && i.relation@ == text_or(args.relation, "related_to"@) && i.label@.len() == 0
            && i.graph_id is None),
        args.action@ == "delete_edge"@ && args.edge_id is None ==> (r matches Err(
            RingError::BadRequest(m),
        ) && m@ == "edge_id required for delete_edge"@),
        args.action@ == "delete_edge"@ && args.edge_id is Some ==> (r matches Ok(
            GraphOp::DeleteEdge { edge_id },
        ) && Some(edge_id) == args.edge_id),
        !is_graph_action(args.action@) ==> (r matches Err(RingError::BadRequest(m)) && m@
            == "unknown graph mutation action: "@ + args.action@),
{
    proof {
        reveal_actions();
    }
    let GraphMutationArgs {
        action,
        node_id,
        label,
        node_type,
        parent_id,
        content,
        tags,
        source_id,
        target_id,
        relation,
        edge_id,
    } = args;
    if str_eq(action.as_str(), "create_node") {
        Ok(GraphOp::CreateNode(node_to_create(label, node_type, parent_id, content, tags)))
    } else if str_eq(action.as_str(), "update_node") {
        match node_id {
            Some(id) => Ok(
                GraphOp::UpdateNode { node_id: id, input: UpdateNodeInput { label, tags, content } },
            ),
            None => Err(RingError::BadRequest(owned("node_id required for update_node"))),
        }
    } else if str_eq(action.as_str(), "delete_node") {
        match node_id {
            Some(id) => Ok(GraphOp::DeleteNode { node_id: id }),
            None => Err(RingError::BadRequest(owned("node_id required for delete_node"))),
        }
    } else if str_eq(action.as_str(), "create_edge") {
        match source_id {
            None => Err(RingError::BadRequest(owned("source_id required"))),
            Some(s) => match target_id {
                None => Err(RingError::BadRequest(owned("target_id required"))),
                Some(t) => Ok(
                    GraphOp::CreateEdge(
                        CreateEdgeInput {
                            graph_id: None,
                            source_id: s,
                            target_id: t,
                            relation: match relation {
                                Some(x) => x,
                                None => owned("related_to"),
                            },
                            label: String::new(),
                        },
                    ),
                ),
            },
        }
    } else if str_eq(action.as_str(), "delete_edge") {
        match edge_id {
            Some(id) => Ok(GraphOp::DeleteEdge { edge_id: id }),
            None => Err(RingError::BadRequest(owned("edge_id required for delete_edge"))),
        }
    } else {
        let mut m = owned("unknown graph mutation action: ");
        push_str(&mut m, action.as_str());
        Err(RingError::BadRequest(m))
    }
}

/// The actions a graph edit can name.
pub open spec fn is_graph_action(a: Seq<char>) -> bool {
    a == "create_node"@ || a == "update_node"@ || a == "delete_node"@ || a == "create_edge"@ || a
        == "delete_edge"@
}

proof fn reveal_actions()
    ensures
        "create_node"@ != "update_node"@,
        "create_node"@ != "delete_node"@,
        "create_node"@ != "create_edge"@,
        "create_node"@ != "delete_edge"@,
        "update_node"@ != "delete_node"@,
        "update_node"@ != "create_edge"@,
        "update_node"@ != "delete_edge"@,
        "delete_node"@ != "create_edge"@,
        "delete_node"@ != "delete_edge"@,
        "create_edge"@ != "delete_edge"@,
{
    reveal_strlit("create_node");
    reveal_strlit("update_node");
    reveal_strlit("delete_node");
    reveal_strlit("create_edge");
    reveal_strlit("delete_edge");
    assert("create_node"@[0] != "update_node"@[0]);
    assert("create_node"@[0] != "delete_node"@[0]);
    assert("create_node"@[7] != "create_edge"@[7]);
    assert("create_node"@[0] != "delete_edge"@[0]);
    assert("update_node"@[0] != "delete_node"@[0]);
    assert("update_node"@[0] != "create_edge"@[0]);
    assert("update_node"@[0] != "delete_edge"@[0]);
    assert("delete_node"@[0] != "create_edge"@[0]);
    assert("delete_node"@[7] != "delete_edge"@[7]);
    assert("create_edge"@[0] != "delete_edge"@[0]);
}

/// What a graph edit produced.
pub enum GraphOutcome {
    NodeCreated { label: String, id: String },
    NodeUpdated { label: String, id: String },
    NodeDeleted,
    EdgeCreated { source_id: String, relation: String, target_id: String, id: String },
    EdgeDeleted,
}

/// The tool's answer after an edit ran.
pub fn mutation_report(o: &GraphOutcome) -> (r: String)
    ensures
        r@ == match *o {
            GraphOutcome::NodeCreated { label, id } => "Created node: "@ + label@ + " ("@ + id@ + ")"@,
            GraphOutcome::NodeUpdated { label, id } => "Updated node: "@ + label@ + " ("@ + id@ + ")"@,
            GraphOutcome::NodeDeleted => "Deleted node"@,
            GraphOutcome::EdgeCreated { source_id, relation, target_id, id } => "Created edge: "@
                + source_id@ + " -["@ + relation@ + "]-> "@ + target_id@ + " ("@ + id@ + ")"@,
            GraphOutcome::EdgeDeleted => "Deleted edge"@,
        },
{
    match o {
        GraphOutcome::NodeCreated { label, id } => {
            let mut r = owned("Created node: ");
            push_str(&mut r, label.as_str());
            push_str(&mut r, " (");
            push_str(&mut r, id.as_str());
            push_str(&mut r, ")");
            r
        },
        GraphOutcome::NodeUpdated { label, id } => {
            let mut r = owned("Updated node: ");
            push_str(&mut r, label.as_str());
            push_str(&mut r, " (");
            push_str(&mut r, id.as_str());
            push_str(&mut r, ")");
            r
        },
        GraphOutcome::NodeDeleted => owned("Deleted node"),
        GraphOutcome::EdgeCreated { source_id, relation, target_id, id } => {
            let mut r = owned("Created edge: ");
            push_str(&mut r, source_id.as_str());
            push_str(&mut r, " -[");
            push_str(&mut r, relation.as_str());
            push_str(&mut r, "]-> ");
            push_str(&mut r, target_id.as_str());
            push_str(&mut r, " (");
            push_str(&mut r, id.as_str());
            push_str(&mut r, ")");
            r
        },
        GraphOutcome::EdgeDeleted => owned("Deleted edge"),
    }
}

// ---------------------------------------------------------------------------
// Graph commands in chat
// ---------------------------------------------------------------------------

/// The instruction that asks a model whether a chat message is a graph
/// command, and to answer with the command as JSON.
pub const GRAPH_COMMAND_PROMPT: &'static str = "分析以下用户消息，判断是否是图谱操作指令。如果是，输出 JSON 格式的操作：\n\n可能的操作：\n- create_node: {\"action\": \"create_node\", \"label\": \"节点名称\", \"node_type\": \"topic|concept|task|note\", \"parent_id\": \"父节点ID或null\", \"content\": \"内容\"}\n- update_node: {\"action\": \"update_node\", \"node_id\": \"节点ID\", \"label\": \"新名称或null\", \"content\": \"新内容或null\", \"tags\": [\"标签\"]}\n- delete_node: {\"action\": \"delete_node\", \"node_id\": \"节点ID\"}\n- create_edge: {\"action\": \"create_edge\", \"source_id\": \"源节点ID\", \"target_id\": \"目标节点ID\", \"relation\": \"关系类型\", \"label\": \"标签\"}\n- delete_edge: {\"action\": \"delete_edge\", \"edge_id\": \"边ID\"}\n\n如果不是图谱操作指令，输出：{\"action\": \"none\"}\n\n只输出 JSON，不要其他内容。\n\n用户消息：\n";

/// The request that asks the model to read a chat message as a command.
pub fn graph_command_request(message: &str) -> (r: String)
    ensures
        r@ == GRAPH_COMMAND_PROMPT@ + "\n"@ + message@,
{
    let mut r = owned(GRAPH_COMMAND_PROMPT);
    push_str(&mut r, "\n");
    push_str(&mut r, message);
    r
}

/// A graph command as the model wrote it.
pub struct GraphCommand {
    pub action: String,
    pub label: Option<String>,
    pub node_type: Option<String>,
    pub parent_id: Option<String>,
    pub content: Option<String>,
    pub node_id: Option<String>,
    pub source_id: Option<String>,
    pub target_id: Option<String>,
    pub relation: Option<String>,
    pub edge_id: Option<String>,
    pub tags: Option<Vec<String>>,
}

/// What to do with a chat message read as a graph command.
pub enum CommandPlan {
    /// Run this edit.
    Run(GraphOp),
    /// Answer with this text without editing.
    Reply(String),
    /// The message is no graph command.
    NotACommand,
}

/// The plan for a command: edits as for the tool, except that a missing
/// node or edge id is answered in words, an edge's missing ends are empty,
/// its label is the command's, and an unknown action is no command.
pub fn plan_graph_command(cmd: GraphCommand) -> (r: CommandPlan)
    ensures
        cmd.action@ == "create_node"@ ==> (r matches CommandPlan::Run(GraphOp::CreateNode(i))
            && node_created_from(i, cmd.label, cmd.node_type, cmd.parent_id, cmd.content, cmd.tags)),
        (cmd.action@ == "update_node"@ || cmd.action@ == "delete_node"@) && cmd.node_id is None
            ==> (r matches CommandPlan::Reply(m) && m@ == "需要指定节点 ID"@),
        cmd.action@ == "update_node"@ && cmd.node_id is Some ==> (r matches CommandPlan::Run(
            GraphOp::UpdateNode { node_id, input },
        ) && Some(node_id) == cmd.node_id && input.label == cmd.label && input.tags == cmd.tags
            && input.content == cmd.content),
        cmd.action@ == "delete_node"@ && cmd.node_id is Some ==> (r matches CommandPlan::Run(
            GraphOp::DeleteNode { node_id },
        ) && Some(node_id) == cmd.node_id),
        cmd.action@ == "create_edge"@ ==> (r matches CommandPlan::Run(GraphOp::CreateEdge(i))
            && i.source_id@ == text_or(cmd.source_id, Seq::empty()) && i.target_id@ == text_or(
            cmd.target_id,
            Seq::empty(),
        ) && i.relation@ == text_or(cmd.relation, "related_to"@) && i.label@ == text_or(
            cmd.label,
            Seq::empty(),
        ) && i.graph_id is None),
        cmd.action@ == "delete_edge"@ && cmd.edge_id is None ==> (r matches CommandPlan::Reply(m)
            && m@ == "需要指定边 ID"@),
        cmd.action@ == "delete_edge"@ && cmd.edge_id is Some ==> (r matches CommandPlan::Run(
            GraphOp::DeleteEdge { edge_id },
        ) && Some(edge_id) == cmd.edge_id),
        !is_graph_action(cmd.action@) ==> r is NotACommand,
{
    proof {
        reveal_actions();
    }
    let GraphCommand {
        action,
        label,
        node_type,
        parent_id,
        content,
        node_id,
        source_id,
        target_id,
        relation,
        edge_id,
        tags,
    } = cmd;
    if str_eq(action.as_str(), "create_node") {
        CommandPlan::Run(GraphOp::CreateNode(node_to_create(label, node_type, parent_id, content, tags)))
    } else if str_eq(action.as_str(), "update_node") {
        match node_id {
            Some(id) => CommandPlan::Run(
                GraphOp::UpdateNode { node_id: id, input: UpdateNodeInput { label, tags, content } },
            ),
            None => CommandPlan::Reply(owned("需要指定节点 ID")),
        }
    } else if str_eq(action.as_str(), "delete_node") {
        match node_id {
            Some(id) => CommandPlan::Run(GraphOp::DeleteNode { node_id: id }),
            None => CommandPlan::Reply(owned("需要指定节点 ID")),
        }
    } else if str_eq(action.as_str(), "create_edge") {
        CommandPlan::Run(
            GraphOp::CreateEdge(
                CreateEdgeInput {
                    graph_id: None,
                    source_id: match source_id {
                        Some(s) => s,
                        None => String::new(),
                    },
                    target_id: match target_id {
                        Some(t) => t,
                        None => String::new(),
                    },
                    relation: match relation {
                        Some(x) => x,
                        None => owned("related_to"),
                    },
                    label: match label {
                        Some(l) => l,
                        None => String::new(),
                    },
                },
            ),
        )
    } else if str_eq(action.as_str(), "delete_edge") {
        match edge_id {
            Some(id) => CommandPlan::Run(GraphOp::DeleteEdge { edge_id: id }),
            None => CommandPlan::Reply(owned("需要指定边 ID")),
        }
    } else {
        CommandPlan::NotACommand
    }
}

/// The answer in chat after a command's edit ran or failed.
pub fn command_report(op: &GraphOp, result: &Result<GraphOutcome, RingError>) -> (r: String)
    ensures
        result matches Ok(GraphOutcome::NodeCreated { label, id }) ==> r@ == "已创建节点: "@ + label@
            + " ("@ + id@ + ")"@,
        result matches Ok(GraphOutcome::NodeUpdated { label, id }) ==> r@ == "已更新节点: "@ + label@
            + " ("@ + id@ + ")"@,
        result matches Ok(GraphOutcome::NodeDeleted) ==> r@ == "已删除节点"@,
        result matches Ok(GraphOutcome::EdgeCreated { source_id, target_id, id, .. }) ==> r@
            == "已创建边: "@ + source_id@ + " -> "@ + target_id@ + " ("@ + id@ + ")"@,
        result matches Ok(GraphOutcome::EdgeDeleted) ==> r@ == "已删除边"@,
        result matches Err(e) ==> r@ == match *op {
            GraphOp::CreateNode(_) => "创建节点失败: "@,
            GraphOp::UpdateNode { .. } => "更新节点失败: "@,
            GraphOp::DeleteNode { .. } => "删除节点失败: "@,
            GraphOp::CreateEdge(_) => "创建边失败: "@,
            GraphOp::DeleteEdge { .. } => "删除边失败: "@,
        } + error_text(*e),
{
    match result {
        Ok(GraphOutcome::NodeCreated { label, id }) => {
            let mut r = owned("已创建节点: ");
            push_str(&mut r, label.as_str());
            push_str(&mut r, " (");
            push_str(&mut r, id.as_str());
            push_str(&mut r, ")");
            r
        },
        Ok(GraphOutcome::NodeUpdated { label, id }) => {
            let mut r = owned("已更新节点: ");
            push_str(&mut r, label.as_str());
            push_str(&mut r, " (");
            push_str(&mut r, id.as_str());
            push_str(&mut r, ")");
            r
        },
        Ok(GraphOutcome::NodeDeleted) => owned("已删除节点"),
        Ok(GraphOutcome::EdgeCreated { source_id, target_id, id, .. }) => {
            let mut r = owned("已创建边: ");
            push_str(&mut r, source_id.as_str());
            push_str(&mut r, " -> ");
            push_str(&mut r, target_id.as_str());
            push_str(&mut r, " (");
            push_str(&mut r, id.as_str());
            push_str(&mut r, ")");
            r
        },
        Ok(GraphOutcome::EdgeDeleted) => owned("已删除边"),
        Err(e) => {
            let mut r = match op {
                GraphOp::CreateNode(_) => owned("创建节点失败: "),
                GraphOp::UpdateNode { .. } => owned("更新节点失败: "),
                GraphOp::DeleteNode { .. } => owned("删除节点失败: "),
                GraphOp::CreateEdge(_) => owned("创建边失败: "),
                GraphOp::DeleteEdge { .. } => owned("删除边失败: "),
            };
            let d = e.describe();
            push_str(&mut r, d.as_str());
            r
        },
    }
}

} // verus!
