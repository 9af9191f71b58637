//! Graph blueprints: the built-in templates a ring's knowledge graph can
//! start from, previews of a template, and how a confirmed blueprint's edges
//! are tied to the nodes created for it.
use vstd::prelude::*;
use vstd::string::*;

use crate::error::RingError;
use crate::text::{owned, str_eq};

verus! {

/// A starting layout for a knowledge graph.
pub struct BlueprintTemplate {
    pub id: String,
    pub name: String,
    pub description: String,
    pub nodes: Vec<BlueprintNode>,
    pub edges: Vec<BlueprintEdge>,
}

/// A node of a template.
pub struct BlueprintNode {
    pub label: String,
    pub node_type: String,
    pub tags: Vec<String>,
}

/// An edge of a template, between node labels.
pub struct BlueprintEdge {
    pub from: String,
    pub to: String,
    pub relation: String,
}

/// A node as plain values: label, type and tags.
pub type NodeModel = (Seq<char>, Seq<char>, Seq<Seq<char>>);

/// An edge as plain values: from, to and relation.
pub type EdgeModel = (Seq<char>, Seq<char>, Seq<char>);

/// A template as plain values: id, name, description, nodes and edges in order.
pub type TemplateModel = (Seq<char>, Seq<char>, Seq<char>, Seq<NodeModel>, Seq<EdgeModel>);

/// The plain values of a node.
pub open spec fn node_model(n: BlueprintNode) -> NodeModel {
    (n.label@, n.node_type@, n.tags@.map_values(|t: String| t@))
}

/// The plain values of an edge.
pub open spec fn edge_model(e: BlueprintEdge) -> EdgeModel {
    (e.from@, e.to@, e.relation@)
}

/// The plain values of a template.
pub open spec fn template_model(t: &BlueprintTemplate) -> TemplateModel {
    (
        t.id@,
        t.name@,
        t.description@,
        t.nodes@.map_values(|n: BlueprintNode| node_model(n)),
        t.edges@.map_values(|e: BlueprintEdge| edge_model(e)),
    )
}

/// The content of the built-in template `product-research`.
pub open spec fn product_research_model() -> TemplateModel {
    (
        "product-research"@,
        "产品研究"@,
        "产品分析、竞品调研、市场洞察"@,
        seq![
            ("产品概览"@, "category"@, seq!["overview"@]),
            ("目标用户"@, "topic"@, seq!["user"@]),
            ("核心场景"@, "topic"@, seq!["scenario"@]),
            ("竞品 A"@, "topic"@, seq!["competitor"@]),
            ("竞品 B"@, "topic"@, seq!["competitor"@]),
            ("功能对比"@, "topic"@, seq!["comparison"@]),
            ("市场趋势"@, "topic"@, seq!["market"@]),
            ("用户反馈"@, "topic"@, seq!["feedback"@]),
            ("差异化策略"@, "topic"@, seq!["strategy"@]),
            ("决策记录"@, "leaf"@, seq!["decision"@]),
        ],
        seq![
            ("产品概览"@, "目标用户"@, "related_to"@),
            ("产品概览"@, "核心场景"@, "related_to"@),
            ("竞品 A"@, "功能对比"@, "related_to"@),
            ("竞品 B"@, "功能对比"@, "related_to"@),
            ("市场趋势"@, "差异化策略"@, "derives_from"@),
            ("用户反馈"@, "差异化策略"@, "derives_from"@),
            ("功能对比"@, "差异化策略"@, "derives_from"@),
            ("差异化策略"@, "决策记录"@, "related_to"@),
        ],
    )
}

/// The content of the built-in template `project-management`.
pub open spec fn project_management_model() -> TemplateModel {
    (
        "project-management"@,
        "项目管理"@,
        "项目规划、任务跟踪、风险管理"@,
        seq![
            ("项目目标"@, "category"@, seq!["goal"@]),
            ("需求分析"@, "topic"@, seq!["requirement"@]),
            ("技术方案"@, "topic"@, seq!["tech"@]),
            ("任务拆解"@, "topic"@, seq!["task"@]),
            ("里程碑"@, "topic"@, seq!["milestone"@]),
            ("风险记录"@, "topic"@, seq!["risk"@]),
            ("会议记录"@, "topic"@, seq!["meeting"@]),
            ("决策记录"@, "topic"@, seq!["decision"@]),
            ("进度更新"@, "leaf"@, seq!["progress"@]),
        ],
        seq![
            ("项目目标"@, "需求分析"@, "depends_on"@),
            ("需求分析"@, "技术方案"@, "derives_from"@),
            ("技术方案"@, "任务拆解"@, "derives_from"@),
            ("任务拆解"@, "里程碑"@, "related_to"@),
            ("风险记录"@, "决策记录"@, "related_to"@),
            ("会议记录"@, "决策记录"@, "related_to"@),
            ("里程碑"@, "进度更新"@, "related_to"@),
        ],
    )
}

/// The content of the built-in template `learning-notes`.
pub open spec fn learning_notes_model() -> TemplateModel {
    (
        "learning-notes"@,
        "学习笔记"@,
        "知识学习、概念梳理、实践总结"@,
        seq![
            ("学习主题"@, "category"@, seq!["topic"@]),
            ("核心概念"@, "topic"@, seq!["concept"@]),
            ("前置知识"@, "topic"@, seq!["prerequisite"@]),
            ("参考资料"@, "topic"@, seq!["reference"@]),
            ("实践案例"@, "topic"@, seq!["example"@]),
            ("常见问题"@, "topic"@, seq!["question"@]),
            ("总结反思"@, "leaf"@, seq!["summary"@]),
            ("延伸学习"@, "leaf"@, seq!["extension"@]),
        ],
        seq![
            ("学习主题"@, "核心概念"@, "related_to"@),
            ("前置知识"@, "核心概念"@, "depends_on"@),
            ("核心概念"@, "参考资料"@, "related_to"@),
            ("核心概念"@, "实践案例"@, "related_to"@),
            ("实践案例"@, "常见问题"@, "related_to"@),
            ("常见问题"@, "总结反思"@, "related_to"@),
            ("总结反思"@, "延伸学习"@, "related_to"@),
        ],
    )
}

/// The content of the built-in template `technical-docs`.
pub open spec fn technical_docs_model() -> TemplateModel {
    (
        "technical-docs"@,
        "技术文档"@,
        "技术方案、架构设计、运维手册"@,
        seq![
            ("系统架构"@, "category"@, seq!["architecture"@]),
            ("接口设计"@, "topic"@, seq!["api"@]),
            ("数据模型"@, "topic"@, seq!["data"@]),
            ("部署方案"@, "topic"@, seq!["deploy"@]),
            ("安全设计"@, "topic"@, seq!["security"@]),
            ("性能指标"@, "topic"@, seq!["performance"@]),
            ("监控告警"@, "topic"@, seq!["monitoring"@]),
            ("故障手册"@, "leaf"@, seq!["troubleshoot"@]),
            ("变更记录"@, "leaf"@, seq!["changelog"@]),
        ],
        seq![
            ("系统架构"@, "接口设计"@, "related_to"@),
            ("系统架构"@, "数据模型"@, "related_to"@),
            ("系统架构"@, "安全设计"@, "related_to"@),
            ("接口设计"@, "部署方案"@, "depends_on"@),
            ("部署方案"@, "监控告警"@, "related_to"@),
            ("部署方案"@, "性能指标"@, "related_to"@),
            ("监控告警"@, "故障手册"@, "derives_from"@),
            ("故障手册"@, "变更记录"@, "related_to"@),
        ],
    )
}

/// The content of the built-in template `blank`.
pub open spec fn blank_model() -> TemplateModel {
    (
        "blank"@,
        "空白"@,
        "从零开始构建图谱"@,
        seq![
            ("中心主题"@, "category"@, seq![]),
        ],
        seq![],
    )
}

/// Some node of `t` carries label `l`.
pub open spec fn has_node_label(t: &BlueprintTemplate, l: Seq<char>) -> bool {
    exists|i: int| 0 <= i < t.nodes.len() && #[trigger] t.nodes@[i].label@ == l
}

/// Every edge of `t` connects labels of nodes of `t`.
pub open spec fn template_well_formed(t: &BlueprintTemplate) -> bool {
    forall|j: int|
        0 <= j < t.edges.len() ==> has_node_label(t, #[trigger] t.edges@[j].from@)
            && has_node_label(t, t.edges@[j].to@)
}

fn node(label: &str, node_type: &str, tag: Option<&str>) -> (n: BlueprintNode)
    ensures
        n.label@ == label@,
        n.node_type@ == node_type@,
        n.tags@.map_values(|t: String| t@) == match tag {
            Some(t) => seq![t@],
            None => Seq::<Seq<char>>::empty(),
        },
{
    let mut tags: Vec<String> = Vec::new();
    match tag {
        Some(t) => {
            tags.push(owned(t));
        },
        None => {},
    }
    proof {
        assert(tags@.map_values(|t: String| t@) =~= match tag {
            Some(t) => seq![t@],
            None => Seq::<Seq<char>>::empty(),
        });
    }
    BlueprintNode { label: owned(label), node_type: owned(node_type), tags }
}

fn edge(from: &str, to: &str, relation: &str) -> (e: BlueprintEdge)
    ensures
        e.from@ == from@,
        e.to@ == to@,
        e.relation@ == relation@,
{
    BlueprintEdge { from: owned(from), to: owned(to), relation: owned(relation) }
}

/// The built-in template "产品研究" (product-research).
pub fn product_research_template() -> (t: BlueprintTemplate)
    ensures
        template_model(&t) == product_research_model(),
        template_well_formed(&t),
{
    let mut nodes: Vec<BlueprintNode> = Vec::new();
    nodes.push(node("产品概览", "category", Some("overview")));
    nodes.push(node("目标用户", "topic", Some("user")));
    nodes.push(node("核心场景", "topic", Some("scenario")));
    nodes.push(node("竞品 A", "topic", Some("competitor")));
    nodes.push(node("竞品 B", "topic", Some("competitor")));
    nodes.push(node("功能对比", "topic", Some("comparison")));
    nodes.push(node("市场趋势", "topic", Some("market")));
    nodes.push(node("用户反馈", "topic", Some("feedback")));
    nodes.push(node("差异化策略", "topic", Some("strategy")));
    nodes.push(node("决策记录", "leaf", Some("decision")));
    let mut edges: Vec<BlueprintEdge> = Vec::new();
    edges.push(edge("产品概览", "目标用户", "related_to"));
    edges.push(edge("产品概览", "核心场景", "related_to"));
    edges.push(edge("竞品 A", "功能对比", "related_to"));
    edges.push(edge("竞品 B", "功能对比", "related_to"));
    edges.push(edge("市场趋势", "差异化策略", "derives_from"));
    edges.push(edge("用户反馈", "差异化策略", "derives_from"));
    edges.push(edge("功能对比", "差异化策略", "derives_from"));
    edges.push(edge("差异化策略", "决策记录", "related_to"));
    let t = BlueprintTemplate { id: owned("product-research"), name: owned("产品研究"), description: owned("产品分析、竞品调研、市场洞察"), nodes, edges };
    proof {
        assert(has_node_label(&t, t.edges@[0].from@)) by { assert(t.nodes@[0].label@ == t.edges@[0].from@); }
        assert(has_node_label(&t, t.edges@[0].to@)) by { assert(t.nodes@[1].label@ == t.edges@[0].to@); }
        assert(has_node_label(&t, t.edges@[1].from@)) by { assert(t.nodes@[0].label@ == t.edges@[1].from@); }
        assert(has_node_label(&t, t.edges@[1].to@)) by { assert(t.nodes@[2].label@ == t.edges@[1].to@); }
        assert(has_node_label(&t, t.edges@[2].from@)) by { assert(t.nodes@[3].label@ == t.edges@[2].from@); }
        assert(has_node_label(&t, t.edges@[2].to@)) by { assert(t.nodes@[5].label@ == t.edges@[2].to@); }
        assert(has_node_label(&t, t.edges@[3].from@)) by { assert(t.nodes@[4].label@ == t.edges@[3].from@); }
        assert(has_node_label(&t, t.edges@[3].to@)) by { assert(t.nodes@[5].label@ == t.edges@[3].to@); }
        assert(has_node_label(&t, t.edges@[4].from@)) by { assert(t.nodes@[6].label@ == t.edges@[4].from@); }
        assert(has_node_label(&t, t.edges@[4].to@)) by { assert(t.nodes@[8].label@ == t.edges@[4].to@); }
        assert(has_node_label(&t, t.edges@[5].from@)) by { assert(t.nodes@[7].label@ == t.edges@[5].from@); }
        assert(has_node_label(&t, t.edges@[5].to@)) by { assert(t.nodes@[8].label@ == t.edges@[5].to@); }
        assert(has_node_label(&t, t.edges@[6].from@)) by { assert(t.nodes@[5].label@ == t.edges@[6].from@); }
        assert(has_node_label(&t, t.edges@[6].to@)) by { assert(t.nodes@[8].label@ == t.edges@[6].to@); }
        assert(has_node_label(&t, t.edges@[7].from@)) by { assert(t.nodes@[8].label@ == t.edges@[7].from@); }
        assert(has_node_label(&t, t.edges@[7].to@)) by { assert(t.nodes@[9].label@ == t.edges@[7].to@); }
    }
    proof {
        assert(t.nodes@.map_values(|n: BlueprintNode| node_model(n)) =~= product_research_model().3);
        assert(t.edges@.map_values(|e: BlueprintEdge| edge_model(e)) =~= product_research_model().4);
    }
    t
}

/// The built-in template "项目管理" (project-management).
pub fn project_management_template() -> (t: BlueprintTemplate)
    ensures
        template_model(&t) == project_management_model(),
        template_well_formed(&t),
{
    let mut nodes: Vec<BlueprintNode> = Vec::new();
    nodes.push(node("项目目标", "category", Some("goal")));
    nodes.push(node("需求分析", "topic", Some("requirement")));
    nodes.push(node("技术方案", "topic", Some("tech")));
    nodes.push(node("任务拆解", "topic", Some("task")));
    nodes.push(node("里程碑", "topic", Some("milestone")));
    nodes.push(node("风险记录", "topic", Some("risk")));
    nodes.push(node("会议记录", "topic", Some("meeting")));
    nodes.push(node("决策记录", "topic", Some("decision")));
    nodes.push(node("进度更新", "leaf", Some("progress")));
    let mut edges: Vec<BlueprintEdge> = Vec::new();
    edges.push(edge("项目目标", "需求分析", "depends_on"));
    edges.push(edge("需求分析", "技术方案", "derives_from"));
    edges.push(edge("技术方案", "任务拆解", "derives_from"));
    edges.push(edge("任务拆解", "里程碑", "related_to"));
    edges.push(edge("风险记录", "决策记录", "related_to"));
    edges.push(edge("会议记录", "决策记录", "related_to"));
    edges.push(edge("里程碑", "进度更新", "related_to"));
    let t = BlueprintTemplate { id: owned("project-management"), name: owned("项目管理"), description: owned("项目规划、任务跟踪、风险管理"), nodes, edges };
    proof {
        assert(has_node_label(&t, t.edges@[0].from@)) by { assert(t.nodes@[0].label@ == t.edges@[0].from@); }
        assert(has_node_label(&t, t.edges@[0].to@)) by { assert(t.nodes@[1].label@ == t.edges@[0].to@); }
        assert(has_node_label(&t, t.edges@[1].from@)) by { assert(t.nodes@[1].label@ == t.edges@[1].from@); }
        assert(has_node_label(&t, t.edges@[1].to@)) by { assert(t.nodes@[2].label@ == t.edges@[1].to@); }
        assert(has_node_label(&t, t.edges@[2].from@)) by { assert(t.nodes@[2].label@ == t.edges@[2].from@); }
        assert(has_node_label(&t, t.edges@[2].to@)) by { assert(t.nodes@[3].label@ == t.edges@[2].to@); }
        assert(has_node_label(&t, t.edges@[3].from@)) by { assert(t.nodes@[3].label@ == t.edges@[3].from@); }
        assert(has_node_label(&t, t.edges@[3].to@)) by { assert(t.nodes@[4].label@ == t.edges@[3].to@); }
        assert(has_node_label(&t, t.edges@[4].from@)) by { assert(t.nodes@[5].label@ == t.edges@[4].from@); }
        assert(has_node_label(&t, t.edges@[4].to@)) by { assert(t.nodes@[7].label@ == t.edges@[4].to@); }
        assert(has_node_label(&t, t.edges@[5].from@)) by { assert(t.nodes@[6].label@ == t.edges@[5].from@); }
        assert(has_node_label(&t, t.edges@[5].to@)) by { assert(t.nodes@[7].label@ == t.edges@[5].to@); }
        assert(has_node_label(&t, t.edges@[6].from@)) by { assert(t.nodes@[4].label@ == t.edges@[6].from@); }
        assert(has_node_label(&t, t.edges@[6].to@)) by { assert(t.nodes@[8].label@ == t.edges@[6].to@); }
    }
    proof {
        assert(t.nodes@.map_values(|n: BlueprintNode| node_model(n)) =~= project_management_model().3);
        assert(t.edges@.map_values(|e: BlueprintEdge| edge_model(e)) =~= project_management_model().4);
    }
    t
}

/// The built-in template "学习笔记" (learning-notes).
pub fn learning_notes_template() -> (t: BlueprintTemplate)
    ensures
        template_model(&t) == learning_notes_model(),
        template_well_formed(&t),
{
    let mut nodes: Vec<BlueprintNode> = Vec::new();
    nodes.push(node("学习主题", "category", Some("topic")));
    nodes.push(node("核心概念", "topic", Some("concept")));
    nodes.push(node("前置知识", "topic", Some("prerequisite")));
    nodes.push(node("参考资料", "topic", Some("reference")));
    nodes.push(node("实践案例", "topic", Some("example")));
    nodes.push(node("常见问题", "topic", Some("question")));
    nodes.push(node("总结反思", "leaf", Some("summary")));
    nodes.push(node("延伸学习", "leaf", Some("extension")));
    let mut edges: Vec<BlueprintEdge> = Vec::new();
    edges.push(edge("学习主题", "核心概念", "related_to"));
    edges.push(edge("前置知识", "核心概念", "depends_on"));
    edges.push(edge("核心概念", "参考资料", "related_to"));
    edges.push(edge("核心概念", "实践案例", "related_to"));
    edges.push(edge("实践案例", "常见问题", "related_to"));
    edges.push(edge("常见问题", "总结反思", "related_to"));
    edges.push(edge("总结反思", "延伸学习", "related_to"));
    let t = BlueprintTemplate { id: owned("learning-notes"), name: owned("学习笔记"), description: owned("知识学习、概念梳理、实践总结"), nodes, edges };
    proof {
        assert(has_node_label(&t, t.edges@[0].from@)) by { assert(t.nodes@[0].label@ == t.edges@[0].from@); }
        assert(has_node_label(&t, t.edges@[0].to@)) by { assert(t.nodes@[1].label@ == t.edges@[0].to@); }
        assert(has_node_label(&t, t.edges@[1].from@)) by { assert(t.nodes@[2].label@ == t.edges@[1].from@); }
        assert(has_node_label(&t, t.edges@[1].to@)) by { assert(t.nodes@[1].label@ == t.edges@[1].to@); }
        assert(has_node_label(&t, t.edges@[2].from@)) by { assert(t.nodes@[1].label@ == t.edges@[2].from@); }
        assert(has_node_label(&t, t.edges@[2].to@)) by { assert(t.nodes@[3].label@ == t.edges@[2].to@); }
        assert(has_node_label(&t, t.edges@[3].from@)) by { assert(t.nodes@[1].label@ == t.edges@[3].from@); }
        assert(has_node_label(&t, t.edges@[3].to@)) by { assert(t.nodes@[4].label@ == t.edges@[3].to@); }
        assert(has_node_label(&t, t.edges@[4].from@)) by { assert(t.nodes@[4].label@ == t.edges@[4].from@); }
        assert(has_node_label(&t, t.edges@[4].to@)) by { assert(t.nodes@[5].label@ == t.edges@[4].to@); }
        assert(has_node_label(&t, t.edges@[5].from@)) by { assert(t.nodes@[5].label@ == t.edges@[5].from@); }
        assert(has_node_label(&t, t.edges@[5].to@)) by { assert(t.nodes@[6].label@ == t.edges@[5].to@); }
        assert(has_node_label(&t, t.edges@[6].from@)) by { assert(t.nodes@[6].label@ == t.edges@[6].from@); }
        assert(has_node_label(&t, t.edges@[6].to@)) by { assert(t.nodes@[7].label@ == t.edges@[6].to@); }
    }
    proof {
        assert(t.nodes@.map_values(|n: BlueprintNode| node_model(n)) =~= learning_notes_model().3);
        assert(t.edges@.map_values(|e: BlueprintEdge| edge_model(e)) =~= learning_notes_model().4);
    }
    t
}

/// The built-in template "技术文档" (technical-docs).
pub fn technical_docs_template() -> (t: BlueprintTemplate)
    ensures
        template_model(&t) == technical_docs_model(),
        template_well_formed(&t),
{
    let mut nodes: Vec<BlueprintNode> = Vec::new();
    nodes.push(node("系统架构", "category", Some("architecture")));
    nodes.push(node("接口设计", "topic", Some("api")));
    nodes.push(node("数据模型", "topic", Some("data")));
    nodes.push(node("部署方案", "topic", Some("deploy")));
    nodes.push(node("安全设计", "topic", Some("security")));
    nodes.push(node("性能指标", "topic", Some("performance")));
    nodes.push(node("监控告警", "topic", Some("monitoring")));
    nodes.push(node("故障手册", "leaf", Some("troubleshoot")));
    nodes.push(node("变更记录", "leaf", Some("changelog")));
    let mut edges: Vec<BlueprintEdge> = Vec::new();
    edges.push(edge("系统架构", "接口设计", "related_to"));
    edges.push(edge("系统架构", "数据模型", "related_to"));
    edges.push(edge("系统架构", "安全设计", "related_to"));
    edges.push(edge("接口设计", "部署方案", "depends_on"));
    edges.push(edge("部署方案", "监控告警", "related_to"));
    edges.push(edge("部署方案", "性能指标", "related_to"));
    edges.push(edge("监控告警", "故障手册", "derives_from"));
    edges.push(edge("故障手册", "变更记录", "related_to"));
    let t = BlueprintTemplate { id: owned("technical-docs"), name: owned("技术文档"), description: owned("技术方案、架构设计、运维手册"), nodes, edges };
    proof {
        assert(has_node_label(&t, t.edges@[0].from@)) by { assert(t.nodes@[0].label@ == t.edges@[0].from@); }
        assert(has_node_label(&t, t.edges@[0].to@)) by { assert(t.nodes@[1].label@ == t.edges@[0].to@); }
        assert(has_node_label(&t, t.edges@[1].from@)) by { assert(t.nodes@[0].label@ == t.edges@[1].from@); }
        assert(has_node_label(&t, t.edges@[1].to@)) by { assert(t.nodes@[2].label@ == t.edges@[1].to@); }
        assert(has_node_label(&t, t.edges@[2].from@)) by { assert(t.nodes@[0].label@ == t.edges@[2].from@); }
        assert(has_node_label(&t, t.edges@[2].to@)) by { assert(t.nodes@[4].label@ == t.edges@[2].to@); }
        assert(has_node_label(&t, t.edges@[3].from@)) by { assert(t.nodes@[1].label@ == t.edges@[3].from@); }
        assert(has_node_label(&t, t.edges@[3].to@)) by { assert(t.nodes@[3].label@ == t.edges@[3].to@); }
        assert(has_node_label(&t, t.edges@[4].from@)) by { assert(t.nodes@[3].label@ == t.edges@[4].from@); }
        assert(has_node_label(&t, t.edges@[4].to@)) by { assert(t.nodes@[6].label@ == t.edges@[4].to@); }
        assert(has_node_label(&t, t.edges@[5].from@)) by { assert(t.nodes@[3].label@ == t.edges@[5].from@); }
        assert(has_node_label(&t, t.edges@[5].to@)) by { assert(t.nodes@[5].label@ == t.edges@[5].to@); }
        assert(has_node_label(&t, t.edges@[6].from@)) by { assert(t.nodes@[6].label@ == t.edges@[6].from@); }
        assert(has_node_label(&t, t.edges@[6].to@)) by { assert(t.nodes@[7].label@ == t.edges@[6].to@); }
        assert(has_node_label(&t, t.edges@[7].from@)) by { assert(t.nodes@[7].label@ == t.edges@[7].from@); }
        assert(has_node_label(&t, t.edges@[7].to@)) by { assert(t.nodes@[8].label@ == t.edges@[7].to@); }
    }
    proof {
        assert(t.nodes@.map_values(|n: BlueprintNode| node_model(n)) =~= technical_docs_model().3);
        assert(t.edges@.map_values(|e: BlueprintEdge| edge_model(e)) =~= technical_docs_model().4);
    }
    t
}

/// The built-in template "空白" (blank).
pub fn blank_template() -> (t: BlueprintTemplate)
    ensures
        template_model(&t) == blank_model(),
        template_well_formed(&t),
{
    let mut nodes: Vec<BlueprintNode> = Vec::new();
    nodes.push(node("中心主题", "category", None));
    let mut edges: Vec<BlueprintEdge> = Vec::new();
    let t = BlueprintTemplate { id: owned("blank"), name: owned("空白"), description: owned("从零开始构建图谱"), nodes, edges };
    proof {
        assert(t.nodes@.map_values(|n: BlueprintNode| node_model(n)) =~= blank_model().3);
        assert(t.edges@.map_values(|e: BlueprintEdge| edge_model(e)) =~= blank_model().4);
    }
    t
}

/// The built-in templates, in the order they are offered: product research,
/// project management, learning notes, technical docs, blank. Each is well
/// formed: its edges only connect labels of its own nodes.
pub fn get_builtin_templates() -> (r: Vec<BlueprintTemplate>)
    ensures
        r.len() == 5,
        template_model(&r@[0]) == product_research_model(),
        template_model(&r@[1]) == project_management_model(),
        template_model(&r@[2]) == learning_notes_model(),
        template_model(&r@[3]) == technical_docs_model(),
        template_model(&r@[4]) == blank_model(),
        forall|i: int| 0 <= i < r.len() ==> template_well_formed(#[trigger] &r@[i]),
{
    let mut r: Vec<BlueprintTemplate> = Vec::new();
    r.push(product_research_template());
    r.push(project_management_template());
    r.push(learning_notes_template());
    r.push(technical_docs_template());
    r.push(blank_template());
    r
}

// ---------------------------------------------------------------------------
// Previews and confirmation
// ---------------------------------------------------------------------------

/// A ring's blueprint state as the API reports it.
pub struct BlueprintResponse {
    pub status: String,
    pub template: Option<String>,
    pub preview: Option<BlueprintPreview>,
}

/// The nodes and edges a blueprint would create.
pub struct BlueprintPreview {
    pub nodes: Vec<PreviewNode>,
    pub edges: Vec<PreviewEdge>,
}

/// A node of a preview.
pub struct PreviewNode {
    pub label: String,
    pub node_type: String,
    pub tags: Vec<String>,
}

/// An edge of a preview, between node labels.
pub struct PreviewEdge {
    pub from: String,
    pub to: String,
    pub relation: String,
}

/// A request for the preview of a built-in template.
pub struct FromTemplateRequest {
    pub template: String,
}

/// One graph of a blueprint to confirm.
pub struct BlueprintGraphInput {
    pub name: String,
    pub nodes: Vec<PreviewNode>,
    pub edges: Vec<PreviewEdge>,
}

/// A confirmation, with the graphs to create if any.
pub struct ConfirmBlueprintRequest {
    pub blueprint: Option<BlueprintGraphsInput>,
}

/// The graphs of a confirmed blueprint.
pub struct BlueprintGraphsInput {
    pub graphs: Vec<BlueprintGraphInput>,
}

/// The content of the built-in template with the given id, if there is one.
pub open spec fn builtin_template_model(id: Seq<char>) -> Option<TemplateModel> {
    if id == product_research_model().0 {
        Some(product_research_model())
    } else if id == project_management_model().0 {
        Some(project_management_model())
    } else if id == learning_notes_model().0 {
        Some(learning_notes_model())
    } else if id == technical_docs_model().0 {
        Some(technical_docs_model())
    } else if id == blank_model().0 {
        Some(blank_model())
    } else {
        None
    }
}

/// The node labels of `m` are pairwise distinct, every node is a topic, a
/// category or a leaf, and the first node is the only category.
pub open spec fn template_shape_ok(m: TemplateModel) -> bool {
    &&& m.3.len() > 0
    &&& m.3[0].1 == "category"@
    &&& forall|i: int| 1 <= i < m.3.len() ==> (#[trigger] m.3[i]).1 != "category"@
    &&& forall|i: int|
        0 <= i < m.3.len() ==> {
            ||| (#[trigger] m.3[i]).1 == "topic"@
            ||| m.3[i].1 == "category"@
            ||| m.3[i].1 == "leaf"@
        }
    &&& forall|i: int, j: int| 0 <= i < j < m.3.len() ==> (#[trigger] m.3[i]).0 != (#[trigger] m.3[j]).0
}

proof fn lemma_product_research_shape()
    ensures
        template_shape_ok(product_research_model()),
{
    reveal_strlit("category");
    reveal_strlit("leaf");
    reveal_strlit("topic");
    reveal_strlit("产品概览");
    reveal_strlit("决策记录");
    reveal_strlit("功能对比");
    reveal_strlit("差异化策略");
    reveal_strlit("市场趋势");
    reveal_strlit("核心场景");
    reveal_strlit("用户反馈");
    reveal_strlit("目标用户");
    reveal_strlit("竞品 A");
    reveal_strlit("竞品 B");
    let s = product_research_model().3;
    assert(s[0].0 == "产品概览"@ && s[0].1 == "category"@);
    assert(s[1].0 == "目标用户"@ && s[1].1 == "topic"@);
    assert(s[2].0 == "核心场景"@ && s[2].1 == "topic"@);
    assert(s[3].0 == "竞品 A"@ && s[3].1 == "topic"@);
    assert(s[4].0 == "竞品 B"@ && s[4].1 == "topic"@);
    assert(s[5].0 == "功能对比"@ && s[5].1 == "topic"@);
    assert(s[6].0 == "市场趋势"@ && s[6].1 == "topic"@);
    assert(s[7].0 == "用户反馈"@ && s[7].1 == "topic"@);
    assert(s[8].0 == "差异化策略"@ && s[8].1 == "topic"@);
    assert(s[9].0 == "决策记录"@ && s[9].1 == "leaf"@);
    assert forall|i: int| 0 <= i < s.len() implies {
        ||| (#[trigger] s[i]).1 == "topic"@
        ||| s[i].1 == "category"@
        ||| s[i].1 == "leaf"@
    } && (i >= 1 ==> s[i].1 != "category"@) by {
        if i == 0 {} else if i == 1 {} else if i == 2 {} else if i == 3 {} else if i == 4 {} else if i == 5 {} else if i == 6 {} else if i == 7 {} else if i == 8 {} else if i == 9 {}
    }
    assert forall|i: int, j: int| 0 <= i < j < s.len() implies (#[trigger] s[i]).0 != (#[trigger] s[j]).0 by {
        if i == 0 {
            if j == 1 { assert(s[0].0[0] != s[1].0[0]); } else if j == 2 { assert(s[0].0[0] != s[2].0[0]); } else if j == 3 { assert(s[0].0[0] != s[3].0[0]); } else if j == 4 { assert(s[0].0[0] != s[4].0[0]); } else if j == 5 { assert(s[0].0[0] != s[5].0[0]); } else if j == 6 { assert(s[0].0[0] != s[6].0[0]); } else if j == 7 { assert(s[0].0[0] != s[7].0[0]); } else if j == 8 {} else if j == 9 { assert(s[0].0[0] != s[9].0[0]); }
        }
        if i == 1 {
            if j == 2 { assert(s[1].0[0] != s[2].0[0]); } else if j == 3 { assert(s[1].0[0] != s[3].0[0]); } else if j == 4 { assert(s[1].0[0] != s[4].0[0]); } else if j == 5 { assert(s[1].0[0] != s[5].0[0]); } else if j == 6 { assert(s[1].0[0] != s[6].0[0]); } else if j == 7 { assert(s[1].0[0] != s[7].0[0]); } else if j == 8 {} else if j == 9 { assert(s[1].0[0] != s[9].0[0]); }
        }
        if i == 2 {
            if j == 3 { assert(s[2].0[0] != s[3].0[0]); } else if j == 4 { assert(s[2].0[0] != s[4].0[0]); } else if j == 5 { assert(s[2].0[0] != s[5].0[0]); } else if j == 6 { assert(s[2].0[0] != s[6].0[0]); } else if j == 7 { assert(s[2].0[0] != s[7].0[0]); } else if j == 8 {} else if j == 9 { assert(s[2].0[0] != s[9].0[0]); }
        }
        if i == 3 {
            if j == 4 { assert(s[3].0[3] != s[4].0[3]); } else if j == 5 { assert(s[3].0[0] != s[5].0[0]); } else if j == 6 { assert(s[3].0[0] != s[6].0[0]); } else if j == 7 { assert(s[3].0[0] != s[7].0[0]); } else if j == 8 {} else if j == 9 { assert(s[3].0[0] != s[9].0[0]); }
        }
        if i == 4 {
            if j == 5 { assert(s[4].0[0] != s[5].0[0]); } else if j == 6 { assert(s[4].0[0] != s[6].0[0]); } else if j == 7 { assert(s[4].0[0] != s[7].0[0]); } else if j == 8 {} else if j == 9 { assert(s[4].0[0] != s[9].0[0]); }
        }
        if i == 5 {
            if j == 6 { assert(s[5].0[0] != s[6].0[0]); } else if j == 7 { assert(s[5].0[0] != s[7].0[0]); } else if j == 8 {} else if j == 9 { assert(s[5].0[0] != s[9].0[0]); }
        }
        if i == 6 {
            if j == 7 { assert(s[6].0[0] != s[7].0[0]); } else if j == 8 {} else if j == 9 { assert(s[6].0[0] != s[9].0[0]); }
        }
        if i == 7 {
            if j == 8 {} else if j == 9 { assert(s[7].0[0] != s[9].0[0]); }
        }
        if i == 8 {
            if j == 9 {}
        }
    }
}

proof fn lemma_project_management_shape()
    ensures
        template_shape_ok(project_management_model()),
{
    reveal_strlit("category");
    reveal_strlit("leaf");
    reveal_strlit("topic");
    reveal_strlit("任务拆解");
    reveal_strlit("会议记录");
    reveal_strlit("决策记录");
    reveal_strlit("技术方案");
    reveal_strlit("进度更新");
    reveal_strlit("里程碑");
    reveal_strlit("需求分析");
    reveal_strlit("项目目标");
    reveal_strlit("风险记录");
    let s = project_management_model().3;
    assert(s[0].0 == "项目目标"@ && s[0].1 == "category"@);
    assert(s[1].0 == "需求分析"@ && s[1].1 == "topic"@);
    assert(s[2].0 == "技术方案"@ && s[2].1 == "topic"@);
    assert(s[3].0 == "任务拆解"@ && s[3].1 == "topic"@);
    assert(s[4].0 == "里程碑"@ && s[4].1 == "topic"@);
    assert(s[5].0 == "风险记录"@ && s[5].1 == "topic"@);
    assert(s[6].0 == "会议记录"@ && s[6].1 == "topic"@);
    assert(s[7].0 == "决策记录"@ && s[7].1 == "topic"@);
    assert(s[8].0 == "进度更新"@ && s[8].1 == "leaf"@);
    assert forall|i: int| 0 <= i < s.len() implies {
        ||| (#[trigger] s[i]).1 == "topic"@
        ||| s[i].1 == "category"@
        ||| s[i].1 == "leaf"@
    } && (i >= 1 ==> s[i].1 != "category"@) by {
        if i == 0 {} else if i == 1 {} else if i == 2 {} else if i == 3 {} else if i == 4 {} else if i == 5 {} else if i == 6 {} else if i == 7 {} else if i == 8 {}
    }
    assert forall|i: int, j: int| 0 <= i < j < s.len() implies (#[trigger] s[i]).0 != (#[trigger] s[j]).0 by {
        if i == 0 {
            if j == 1 { assert(s[0].0[0] != s[1].0[0]); } else if j == 2 { assert(s[0].0[0] != s[2].0[0]); } else if j == 3 { assert(s[0].0[0] != s[3].0[0]); } else if j == 4 {} else if j == 5 { assert(s[0].0[0] != s[5].0[0]); } else if j == 6 { assert(s[0].0[0] != s[6].0[0]); } else if j == 7 { assert(s[0].0[0] != s[7].0[0]); } else if j == 8 { assert(s[0].0[0] != s[8].0[0]); }
        }
        if i == 1 {
            if j == 2 { assert(s[1].0[0] != s[2].0[0]); } else if j == 3 { assert(s[1].0[0] != s[3].0[0]); } else if j == 4 {} else if j == 5 { assert(s[1].0[0] != s[5].0[0]); } else if j == 6 { assert(s[1].0[0] != s[6].0[0]); } else if j == 7 { assert(s[1].0[0] != s[7].0[0]); } else if j == 8 { assert(s[1].0[0] != s[8].0[0]); }
        }
        if i == 2 {
            if j == 3 { assert(s[2].0[0] != s[3].0[0]); } else if j == 4 {} else if j == 5 { assert(s[2].0[0] != s[5].0[0]); } else if j == 6 { assert(s[2].0[0] != s[6].0[0]); } else if j == 7 { assert(s[2].0[0] != s[7].0[0]); } else if j == 8 { assert(s[2].0[0] != s[8].0[0]); }
        }
        if i == 3 {
            if j == 4 {} else if j == 5 { assert(s[3].0[0] != s[5].0[0]); } else if j == 6 { assert(s[3].0[0] != s[6].0[0]); } else if j == 7 { assert(s[3].0[0] != s[7].0[0]); } else if j == 8 { assert(s[3].0[0] != s[8].0[0]); }
        }
        if i == 4 {
            if j == 5 {} else if j == 6 {} else if j == 7 {} else if j == 8 {}
        }
        if i == 5 {
            if j == 6 { assert(s[5].0[0] != s[6].0[0]); } else if j == 7 { assert(s[5].0[0] != s[7].0[0]); } else if j == 8 { assert(s[5].0[0] != s[8].0[0]); }
        }
        if i == 6 {
            if j == 7 { assert(s[6].0[0] != s[7].0[0]); } else if j == 8 { assert(s[6].0[0] != s[8].0[0]); }
        }
        if i == 7 {
            if j == 8 { assert(s[7].0[0] != s[8].0[0]); }
        }
    }
}

proof fn lemma_learning_notes_shape()
    ensures
        template_shape_ok(learning_notes_model()),
{
    reveal_strlit("category");
    reveal_strlit("leaf");
    reveal_strlit("topic");
    reveal_strlit("前置知识");
    reveal_strlit("参考资料");
    reveal_strlit("学习主题");
    reveal_strlit("实践案例");
    reveal_strlit("常见问题");
    reveal_strlit("延伸学习");
    reveal_strlit("总结反思");
    reveal_strlit("核心概念");
    let s = learning_notes_model().3;
    assert(s[0].0 == "学习主题"@ && s[0].1 == "category"@);
    assert(s[1].0 == "核心概念"@ && s[1].1 == "topic"@);
    assert(s[2].0 == "前置知识"@ && s[2].1 == "topic"@);
    assert(s[3].0 == "参考资料"@ && s[3].1 == "topic"@);
    assert(s[4].0 == "实践案例"@ && s[4].1 == "topic"@);
    assert(s[5].0 == "常见问题"@ && s[5].1 == "topic"@);
    assert(s[6].0 == "总结反思"@ && s[6].1 == "leaf"@);
    assert(s[7].0 == "延伸学习"@ && s[7].1 == "leaf"@);
    assert forall|i: int| 0 <= i < s.len() implies {
        ||| (#[trigger] s[i]).1 == "topic"@
        ||| s[i].1 == "category"@
        ||| s[i].1 == "leaf"@
    } && (i >= 1 ==> s[i].1 != "category"@) by {
        if i == 0 {} else if i == 1 {} else if i == 2 {} else if i == 3 {} else if i == 4 {} else if i == 5 {} else if i == 6 {} else if i == 7 {}
    }
    assert forall|i: int, j: int| 0 <= i < j < s.len() implies (#[trigger] s[i]).0 != (#[trigger] s[j]).0 by {
        if i == 0 {
            if j == 1 { assert(s[0].0[0] != s[1].0[0]); } else if j == 2 { assert(s[0].0[0] != s[2].0[0]); } else if j == 3 { assert(s[0].0[0] != s[3].0[0]); } else if j == 4 { assert(s[0].0[0] != s[4].0[0]); } else if j == 5 { assert(s[0].0[0] != s[5].0[0]); } else if j == 6 { assert(s[0].0[0] != s[6].0[0]); } else if j == 7 { assert(s[0].0[0] != s[7].0[0]); }
        }
        if i == 1 {
            if j == 2 { assert(s[1].0[0] != s[2].0[0]); } else if j == 3 { assert(s[1].0[0] != s[3].0[0]); } else if j == 4 { assert(s[1].0[0] != s[4].0[0]); } else if j == 5 { assert(s[1].0[0] != s[5].0[0]); } else if j == 6 { assert(s[1].0[0] != s[6].0[0]); } else if j == 7 { assert(s[1].0[0] != s[7].0[0]); }
        }
        if i == 2 {
            if j == 3 { assert(s[2].0[0] != s[3].0[0]); } else if j == 4 { assert(s[2].0[0] != s[4].0[0]); } else if j == 5 { assert(s[2].0[0] != s[5].0[0]); } else if j == 6 { assert(s[2].0[0] != s[6].0[0]); } else if j == 7 { assert(s[2].0[0] != s[7].0[0]); }
        }
        if i == 3 {
            if j == 4 { assert(s[3].0[0] != s[4].0[0]); } else if j == 5 { assert(s[3].0[0] != s[5].0[0]); } else if j == 6 { assert(s[3].0[0] != s[6].0[0]); } else if j == 7 { assert(s[3].0[0] != s[7].0[0]); }
        }
        if i == 4 {
            if j == 5 { assert(s[4].0[0] != s[5].0[0]); } else if j == 6 { assert(s[4].0[0] != s[6].0[0]); } else if j == 7 { assert(s[4].0[0] != s[7].0[0]); }
        }
        if i == 5 {
            if j == 6 { assert(s[5].0[0] != s[6].0[0]); } else if j == 7 { assert(s[5].0[0] != s[7].0[0]); }
        }
        if i == 6 {
            if j == 7 { assert(s[6].0[0] != s[7].0[0]); }
        }
    }
}

proof fn lemma_technical_docs_shape()
    ensures
        template_shape_ok(technical_docs_model()),
{
    reveal_strlit("category");
    reveal_strlit("leaf");
    reveal_strlit("topic");
    reveal_strlit("变更记录");
    reveal_strlit("安全设计");
    reveal_strlit("性能指标");
    reveal_strlit("接口设计");
    reveal_strlit("故障手册");
    reveal_strlit("数据模型");
    reveal_strlit("监控告警");
    reveal_strlit("系统架构");
    reveal_strlit("部署方案");
    let s = technical_docs_model().3;
    assert(s[0].0 == "系统架构"@ && s[0].1 == "category"@);
    assert(s[1].0 == "接口设计"@ && s[1].1 == "topic"@);
    assert(s[2].0 == "数据模型"@ && s[2].1 == "topic"@);
    assert(s[3].0 == "部署方案"@ && s[3].1 == "topic"@);
    assert(s[4].0 == "安全设计"@ && s[4].1 == "topic"@);
    assert(s[5].0 == "性能指标"@ && s[5].1 == "topic"@);
    assert(s[6].0 == "监控告警"@ && s[6].1 == "topic"@);
    assert(s[7].0 == "故障手册"@ && s[7].1 == "leaf"@);
    assert(s[8].0 == "变更记录"@ && s[8].1 == "leaf"@);
    assert forall|i: int| 0 <= i < s.len() implies {
        ||| (#[trigger] s[i]).1 == "topic"@
        ||| s[i].1 == "category"@
        ||| s[i].1 == "leaf"@
    } && (i >= 1 ==> s[i].1 != "category"@) by {
        if i == 0 {} else if i == 1 {} else if i == 2 {} else if i == 3 {} else if i == 4 {} else if i == 5 {} else if i == 6 {} else if i == 7 {} else if i == 8 {}
    }
    assert forall|i: int, j: int| 0 <= i < j < s.len() implies (#[trigger] s[i]).0 != (#[trigger] s[j]).0 by {
        if i == 0 {
            if j == 1 { assert(s[0].0[0] != s[1].0[0]); } else if j == 2 { assert(s[0].0[0] != s[2].0[0]); } else if j == 3 { assert(s[0].0[0] != s[3].0[0]); } else if j == 4 { assert(s[0].0[0] != s[4].0[0]); } else if j == 5 { assert(s[0].0[0] != s[5].0[0]); } else if j == 6 { assert(s[0].0[0] != s[6].0[0]); } else if j == 7 { assert(s[0].0[0] != s[7].0[0]); } else if j == 8 { assert(s[0].0[0] != s[8].0[0]); }
        }
        if i == 1 {
            if j == 2 { assert(s[1].0[0] != s[2].0[0]); } else if j == 3 { assert(s[1].0[0] != s[3].0[0]); } else if j == 4 { assert(s[1].0[0] != s[4].0[0]); } else if j == 5 { assert(s[1].0[0] != s[5].0[0]); } else if j == 6 { assert(s[1].0[0] != s[6].0[0]); } else if j == 7 { assert(s[1].0[0] != s[7].0[0]); } else if j == 8 { assert(s[1].0[0] != s[8].0[0]); }
        }
        if i == 2 {
            if j == 3 { assert(s[2].0[0] != s[3].0[0]); } else if j == 4 { assert(s[2].0[0] != s[4].0[0]); } else if j == 5 { assert(s[2].0[0] != s[5].0[0]); } else if j == 6 { assert(s[2].0[0] != s[6].0[0]); } else if j == 7 { assert(s[2].0[0] != s[7].0[0]); } else if j == 8 { assert(s[2].0[0] != s[8].0[0]); }
        }
        if i == 3 {
            if j == 4 { assert(s[3].0[0] != s[4].0[0]); } else if j == 5 { assert(s[3].0[0] != s[5].0[0]); } else if j == 6 { assert(s[3].0[0] != s[6].0[0]); } else if j == 7 { assert(s[3].0[0] != s[7].0[0]); } else if j == 8 { assert(s[3].0[0] != s[8].0[0]); }
        }
        if i == 4 {
            if j == 5 { assert(s[4].0[0] != s[5].0[0]); } else if j == 6 { assert(s[4].0[0] != s[6].0[0]); } else if j == 7 { assert(s[4].0[0] != s[7].0[0]); } else if j == 8 { assert(s[4].0[0] != s[8].0[0]); }
        }
        if i == 5 {
            if j == 6 { assert(s[5].0[0] != s[6].0[0]); } else if j == 7 { assert(s[5].0[0] != s[7].0[0]); } else if j == 8 { assert(s[5].0[0] != s[8].0[0]); }
        }
        if i == 6 {
            if j == 7 { assert(s[6].0[0] != s[7].0[0]); } else if j == 8 { assert(s[6].0[0] != s[8].0[0]); }
        }
        if i == 7 {
            if j == 8 { assert(s[7].0[0] != s[8].0[0]); }
        }
    }
}

proof fn lemma_blank_shape()
    ensures
        template_shape_ok(blank_model()),
{
    reveal_strlit("category");
    reveal_strlit("leaf");
    reveal_strlit("topic");
    reveal_strlit("中心主题");
}

/// Every built-in template has distinct node labels, nodes that are topics,
/// categories or leaves, and exactly one category node, its first.
pub proof fn law_builtin_templates_shape(id: Seq<char>)
    requires
        builtin_template_model(id) is Some,
    ensures
        template_shape_ok(builtin_template_model(id)->0),
{
    lemma_product_research_shape();
    lemma_project_management_shape();
    lemma_learning_notes_shape();
    lemma_technical_docs_shape();
    lemma_blank_shape();
}

/// The plain values of a preview node.
pub open spec fn preview_node_model(n: PreviewNode) -> NodeModel {
    (n.label@, n.node_type@, n.tags@.map_values(|t: String| t@))
}

/// The plain values of a preview edge.
pub open spec fn preview_edge_model(e: PreviewEdge) -> EdgeModel {
    (e.from@, e.to@, e.relation@)
}

/// Ids of the built-in templates.
pub open spec fn is_builtin_template_id(id: Seq<char>) -> bool {
    ||| id == "product-research"@
    ||| id == "project-management"@
    ||| id == "learning-notes"@
    ||| id == "technical-docs"@
    ||| id == "blank"@
}

fn clone_strings(v: &Vec<String>) -> (r: Vec<String>)
    ensures
        r@.map_values(|t: String| t@) == v@.map_values(|t: String| t@),
{
    let mut r: Vec<String> = Vec::new();
    let mut i: usize = 0;
    while i < v.len()
        invariant
            i <= v.len(),
            r@.map_values(|t: String| t@) == v@.take(i as int).map_values(|t: String| t@),
        decreases v.len() - i,
    {
        r.push(v[i].clone());
        assert(v@.take(i + 1).map_values(|t: String| t@) =~= v@.take(i as int).map_values(
            |t: String| t@,
        ).push(v@[i as int]@));
        i += 1;
    }
    assert(v@.take(v.len() as int) == v@);
    r
}

/// The preview of a template: its nodes and edges as they are.
pub fn preview_of(t: &BlueprintTemplate) -> (p: BlueprintPreview)
    ensures
        p.nodes.len() == t.nodes.len(),
        p.edges.len() == t.edges.len(),
        forall|i: int|
            0 <= i < t.nodes.len() ==> {
                &&& (#[trigger] p.nodes@[i]).label@ == t.nodes@[i].label@
                &&& p.nodes@[i].node_type@ == t.nodes@[i].node_type@
                &&& p.nodes@[i].tags@.map_values(|x: String| x@) == t.nodes@[i].tags@.map_values(
                    |x: String| x@,
                )
            },
        forall|j: int|
            0 <= j < t.edges.len() ==> {
                &&& (#[trigger] p.edges@[j]).from@ == t.edges@[j].from@
                &&& p.edges@[j].to@ == t.edges@[j].to@
                &&& p.edges@[j].relation@ == t.edges@[j].relation@
            },
        p.nodes@.map_values(|n: PreviewNode| preview_node_model(n)) == t.nodes@.map_values(
            |n: BlueprintNode| node_model(n),
        ),
        p.edges@.map_values(|e: PreviewEdge| preview_edge_model(e)) == t.edges@.map_values(
            |e: BlueprintEdge| edge_model(e),
        ),
{
    let mut nodes: Vec<PreviewNode> = Vec::new();
    let mut i: usize = 0;
    while i < t.nodes.len()
        invariant
            i <= t.nodes.len(),
            nodes.len() == i,
            forall|k: int|
                0 <= k < i ==> {
                    &&& (#[trigger] nodes@[k]).label@ == t.nodes@[k].label@
                    &&& nodes@[k].node_type@ == t.nodes@[k].node_type@
                    &&& nodes@[k].tags@.map_values(|x: String| x@) == t.nodes@[k].tags@.map_values(
                        |x: String| x@,
                    )
                },
        decreases t.nodes.len() - i,
    {
        let n = &t.nodes[i];
        nodes.push(
            PreviewNode {
                label: n.label.clone(),
                node_type: n.node_type.clone(),
                tags: clone_strings(&n.tags),
            },
        );
        i += 1;
    }
    let mut edges: Vec<PreviewEdge> = Vec::new();
    let mut j: usize = 0;
    while j < t.edges.len()
        invariant
            j <= t.edges.len(),
            edges.len() == j,
            forall|k: int|
                0 <= k < j ==> {
                    &&& (#[trigger] edges@[k]).from@ == t.edges@[k].from@
                    &&& edges@[k].to@ == t.edges@[k].to@
                    &&& edges@[k].relation@ == t.edges@[k].relation@
                },
        decreases t.edges.len() - j,
    {
        let e = &t.edges[j];
        edges.push(
            PreviewEdge { from: e.from.clone(), to: e.to.clone(), relation: e.relation.clone() },
        );
        j += 1;
    }
    assert(nodes@.map_values(|n: PreviewNode| preview_node_model(n)) =~= t.nodes@.map_values(
        |n: BlueprintNode| node_model(n),
    ));
    assert(edges@.map_values(|e: PreviewEdge| preview_edge_model(e)) =~= t.edges@.map_values(
        |e: BlueprintEdge| edge_model(e),
    ));
    BlueprintPreview { nodes, edges }
}

/// Some node of `p` carries label `l`.
pub open spec fn preview_has_label(p: &BlueprintPreview, l: Seq<char>) -> bool {
    exists|i: int| 0 <= i < p.nodes.len() && #[trigger] p.nodes@[i].label@ == l
}

/// Every edge of `p` connects labels of nodes of `p`.
pub open spec fn preview_well_formed(p: &BlueprintPreview) -> bool {
    forall|j: int|
        0 <= j < p.edges.len() ==> preview_has_label(p, #[trigger] p.edges@[j].from@)
            && preview_has_label(p, p.edges@[j].to@)
}

/// The message for an unknown template id.
pub open spec fn unknown_template_message(id: Seq<char>) -> Seq<char> {
    "template "@ + id + " not found"@
}

/// The preview of the built-in template with the given id; `NotFound` when
/// there is none. The preview holds the template's nodes and edges, in
/// order, and its edges only connect its own node labels.
pub fn preview_from_template(template_id: &str) -> (r: Result<BlueprintPreview, RingError>)
    ensures
        is_builtin_template_id(template_id@) <==> r is Ok,
        r matches Ok(p) ==> builtin_template_model(template_id@) matches Some(m) && p.nodes@.map_values(
            |n: PreviewNode| preview_node_model(n),
        ) == m.3 && p.edges@.map_values(|e: PreviewEdge| preview_edge_model(e)) == m.4,
        !is_builtin_template_id(template_id@) ==> (r matches Err(RingError::NotFound(m)) && m@
            == unknown_template_message(template_id@)),
        r matches Ok(p) ==> preview_well_formed(&p),
{
    let templates = get_builtin_templates();
    let mut k: usize = 0;
    while k < templates.len()
        invariant
            k <= templates.len(),
            templates.len() == 5,
            template_model(&templates@[0]) == product_research_model(),
            template_model(&templates@[1]) == project_management_model(),
            template_model(&templates@[2]) == learning_notes_model(),
            template_model(&templates@[3]) == technical_docs_model(),
            template_model(&templates@[4]) == blank_model(),
            forall|i: int| 0 <= i < templates.len() ==> template_well_formed(#[trigger] &templates@[i]),
            forall|i: int| 0 <= i < k ==> templates@[i].id@ != template_id@,
        decreases templates.len() - k,
    {
        if str_eq(templates[k].id.as_str(), template_id) {
            let t = &templates[k];
            let p = preview_of(t);
            proof {
                assert(builtin_template_model(template_id@) == Some(template_model(t)));
                assert(template_well_formed(t));
                assert forall|j: int| 0 <= j < p.edges.len() implies preview_has_label(
                    &p,
                    #[trigger] p.edges@[j].from@,
                ) && preview_has_label(&p, p.edges@[j].to@) by {
                    assert(has_node_label(t, t.edges@[j].from@));
                    assert(has_node_label(t, t.edges@[j].to@));
                    let a = choose|i: int|
                        0 <= i < t.nodes.len() && #[trigger] t.nodes@[i].label@ == t.edges@[j].from@;
                    let b = choose|i: int|
                        0 <= i < t.nodes.len() && #[trigger] t.nodes@[i].label@ == t.edges@[j].to@;
                    assert(p.nodes@[a].label@ == p.edges@[j].from@);
                    assert(p.nodes@[b].label@ == p.edges@[j].to@);
                }
            }
            return Ok(p);
        }
        k += 1;
    }
    let mut m = owned("template ");
    m.append(template_id);
    m.append(" not found");
    Err(RingError::NotFound(m))
}

/// An edge to insert for a confirmed blueprint: node ids and relation.
pub struct EdgeLink {
    pub source_id: String,
    pub target_id: String,
    pub relation: String,
}

/// The index of the last node labelled `l` among the first `n` nodes, or -1.
pub open spec fn last_with_label(nodes: Seq<PreviewNode>, l: Seq<char>, n: int) -> int
    decreases n,
{
    if n <= 0 {
        -1
    } else if nodes[n - 1].label@ == l {
        n - 1
    } else {
        last_with_label(nodes, l, n - 1)
    }
}

proof fn lemma_last_with_label_bounds(nodes: Seq<PreviewNode>, l: Seq<char>, n: int)
    requires
        0 <= n <= nodes.len(),
    ensures
        -1 <= last_with_label(nodes, l, n) < n,
        last_with_label(nodes, l, n) >= 0 ==> nodes[last_with_label(nodes, l, n)].label@ == l,
    decreases n,
{
    if n > 0 && nodes[n - 1].label@ != l {
        lemma_last_with_label_bounds(nodes, l, n - 1);
    }
}

/// The links for the edges of a blueprint graph, in order: an edge whose two
/// labels both name a node becomes a link between those nodes' ids (the last
/// node wins when a label repeats); any other edge is dropped.
pub open spec fn edge_links(
    nodes: Seq<PreviewNode>,
    ids: Seq<Seq<char>>,
    edges: Seq<PreviewEdge>,
) -> Seq<(Seq<char>, Seq<char>, Seq<char>)>
    decreases edges.len(),
{
    if edges.len() == 0 {
        seq![]
    } else {
        let prev = edge_links(nodes, ids, edges.drop_last());
        let e = edges.last();
        let a = last_with_label(nodes, e.from@, nodes.len() as int);
        let b = last_with_label(nodes, e.to@, nodes.len() as int);
        if a >= 0 && b >= 0 {
            prev.push((ids[a], ids[b], e.relation@))
        } else {
            prev
        }
    }
}

fn find_last_label(nodes: &Vec<PreviewNode>, l: &str) -> (r: Option<usize>)
    ensures
        match r {
            Some(i) => i as int == last_with_label(nodes@, l@, nodes.len() as int) && i < nodes.len(),
            None => last_with_label(nodes@, l@, nodes.len() as int) < 0,
        },
{
    let mut n: usize = nodes.len();
    while n > 0
        invariant
            n <= nodes.len(),
            last_with_label(nodes@, l@, nodes.len() as int) == last_with_label(nodes@, l@, n as int),
        decreases n,
    {
        if str_eq(nodes[n - 1].label.as_str(), l) {
            return Some(n - 1);
        }
        n -= 1;
    }
    None
}

/// The links to create for a blueprint graph whose nodes got the ids
/// `node_ids` (one per node, in order).
pub fn blueprint_edge_links(
    nodes: &Vec<PreviewNode>,
    node_ids: &Vec<String>,
    edges: &Vec<PreviewEdge>,
) -> (r: Vec<EdgeLink>)
    requires
        node_ids.len() == nodes.len(),
    ensures
        r@.map_values(|k: EdgeLink| (k.source_id@, k.target_id@, k.relation@)) == edge_links(
            nodes@,
            node_ids@.map_values(|t: String| t@),
            edges@,
        ),
{
    let ghost ids = node_ids@.map_values(|t: String| t@);
    let mut out: Vec<EdgeLink> = Vec::new();
    let mut j: usize = 0;
    while j < edges.len()
        invariant
            j <= edges.len(),
            node_ids.len() == nodes.len(),
            ids == node_ids@.map_values(|t: String| t@),
            out@.map_values(|k: EdgeLink| (k.source_id@, k.target_id@, k.relation@)) == edge_links(
                nodes@,
                ids,
                edges@.take(j as int),
            ),
        decreases edges.len() - j,
    {
        let e = &edges[j];
        assert(edges@.take(j + 1).drop_last() == edges@.take(j as int));
        assert(edges@.take(j + 1).last() == edges@[j as int]);
        let a = find_last_label(nodes, e.from.as_str());
        let b = find_last_label(nodes, e.to.as_str());
        match (a, b) {
            (Some(x), Some(y)) => {
                let ghost before = out@.map_values(|k: EdgeLink| (k.source_id@, k.target_id@, k.relation@));
                out.push(
                    EdgeLink {
                        source_id: node_ids[x].clone(),
                        target_id: node_ids[y].clone(),
                        relation: e.relation.clone(),
                    },
                );
                assert(out@.map_values(|k: EdgeLink| (k.source_id@, k.target_id@, k.relation@)) =~= before.push(
                    (ids[x as int], ids[y as int], e.relation@),
                ));
            },
            _ => {},
        }
        j += 1;
    }
    assert(edges@.take(edges.len() as int) == edges@);
    out
}

/// A ring's blueprint state from its stored status (`None` when the ring
/// does not exist).
pub fn get_blueprint(ring_id: &str, stored_status: Option<String>) -> (r: Result<BlueprintResponse, RingError>)
    ensures
        match stored_status {
            Some(st) => r matches Ok(b) && b.status == st && b.template is None && b.preview is None,
            None => r matches Err(RingError::NotFound(m)) && m@ == "ring "@ + ring_id@ + " not found"@,
        },
{
    match stored_status {
        Some(status) => Ok(BlueprintResponse { status, template: None, preview: None }),
        None => {
            let mut m = owned("ring ");
            m.append(ring_id);
            m.append(" not found");
            Err(RingError::NotFound(m))
        },
    }
}

} // verus!
