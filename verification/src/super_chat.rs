//! The global assistant ("Super Ring"): the tools it offers the model and how
//! a tool call is dispatched, the commands it runs for skills and ring
//! members, the reports it gives back to the model, and the system prompt it
//! assembles for each turn.
use vstd::prelude::*;
use vstd::string::*;

use crate::error::{error_text, RingError};
use crate::skill::SkillInfo;
use crate::text::{
    chars_of, concat_all, decimal, decimal_string, join, join_chars, lemma_concat_all_push, owned,
    push_chars, push_str, split_chars, split_on, str_ends_with, str_eq, str_starts_with,
    take_chars, utf8_len, utf8_len_exceeds,
};

verus! {

// ---------------------------------------------------------------------------
// Tools
// ---------------------------------------------------------------------------

/// A parameter of a tool: its name, what it means, the values it may take
/// (none listed: any string), and whether the model must give it.
pub struct ToolParam {
    pub name: &'static str,
    pub description: &'static str,
    pub choices: Vec<&'static str>,
    pub required: bool,
}

/// A tool that the model may call. All parameters are strings.
pub struct ToolSpec {
    pub name: &'static str,
    pub description: &'static str,
    pub params: Vec<ToolParam>,
}

/// The names of the assistant's tools, in the order they are offered.
pub open spec fn super_tool_names() -> Seq<Seq<char>> {
    seq!["query_rings"@, "query_ring_detail"@, "query_user_preferences"@, "update_user_preferences"@, "manage_skills"@, "create_ring"@, "search_rings"@, "manage_ring_members"@, "get_ring_graph"@]
}

/// Whether a declared parameter is the one given: name, description, allowed values, and whether it is required.
pub open spec fn param_is(p: ToolParam, name: Seq<char>, description: Seq<char>, choices: Seq<Seq<char>>, required: bool) -> bool {
    p.name@ == name && p.description@ == description && p.choices@.map_values(|c: &'static str| c@) == choices && p.required == required
}

/// Whether a declared tool is the `i`-th tool the assistant offers.
pub open spec fn tool_is(t: ToolSpec, i: int) -> bool {
    t.name@ == super_tool_names()[i] && (
        if i == 0 { t.description@ == "列出用户所有 Ring 的摘要信息，包括名称、成员数和最近归档标题。当用户询问关于 Ring 的概况时使用。"@
            && t.params@.len() == 0
        } else if i == 1 { t.description@ == "读取指定 Ring 的详细数据，包括图谱节点和最近归档内容。当用户想了解某个 Ring 的具体内容时使用。"@
            && t.params@.len() == 1
            && param_is(t.params@[0], "ring_name"@, "要查询的 Ring 名称"@, Seq::<Seq<char>>::empty(), true)
        } else if i == 2 { t.description@ == "读取用户的全局偏好设置，包括语言、默认 LLM、输出格式、默认模式等。"@
            && t.params@.len() == 0
        } else if i == 3 { t.description@ == "更新用户的全局偏好设置。接收完整的 Markdown 内容覆盖写入户好文件。修改前应先用 query_user_preferences 读取当前内容。"@
            && t.params@.len() == 1
            && param_is(t.params@[0], "content"@, "完整的偏好设置 Markdown 内容"@, Seq::<Seq<char>>::empty(), true)
        } else if i == 4 { t.description@ == "管理 Skill 插件。支持三个操作：list（列出所有 Skill）、install（从 URL 安装 Skill）、remove（卸载 Skill）。"@
            && t.params@.len() == 3
            && param_is(t.params@[0], "action"@, "操作类型"@, seq!["list"@, "install"@, "remove"@], true)
            && param_is(t.params@[1], "name"@, "Skill 名称（install/remove 时必填）"@, Seq::<Seq<char>>::empty(), false)
            && param_is(t.params@[2], "source_url"@, "远程 Skill URL（install 时必填）"@, Seq::<Seq<char>>::empty(), false)
        } else if i == 5 { t.description@ == "创建一个新的 Ring（群组知识空间）。用户说出想创建的 Ring 名称和用途时使用。"@
            && t.params@.len() == 3
            && param_is(t.params@[0], "name"@, "Ring 名称，简洁有意义"@, Seq::<Seq<char>>::empty(), true)
            && param_is(t.params@[1], "role_description"@, "Group Ring 的角色描述，如「你是技术架构组长，擅长架构决策记录」"@, Seq::<Seq<char>>::empty(), false)
            && param_is(t.params@[2], "storage_mode"@, "存储模式，默认 local"@, seq!["local"@, "gitlab"@], false)
        } else if i == 6 { t.description@ == "Search across all Rings for relevant knowledge. Returns top 10 matching results."@
            && t.params@.len() == 1
            && param_is(t.params@[0], "query"@, "Search query"@, Seq::<Seq<char>>::empty(), true)
        } else if i == 7 { t.description@ == "管理 Ring 成员。支持 list（列出成员）、invite（邀请成员）、remove（移除成员）。"@
            && t.params@.len() == 3
            && param_is(t.params@[0], "action"@, "操作类型"@, seq!["list"@, "invite"@, "remove"@], true)
            && param_is(t.params@[1], "ring_name"@, "Ring 名称"@, Seq::<Seq<char>>::empty(), true)
            && param_is(t.params@[2], "target_user_id"@, "目标用户 ID（invite/remove 时必填）"@, Seq::<Seq<char>>::empty(), false)
        } else if i == 8 { t.description@ == "获取 Ring 的图谱结构概要，包括所有节点和边。用于了解 Ring 的知识图谱。"@
            && t.params@.len() == 1
            && param_is(t.params@[0], "ring_name"@, "Ring 名称"@, Seq::<Seq<char>>::empty(), true)
        } else { false })
}

/// The tools the assistant may call, with their parameters.
pub fn super_tools() -> (r: Vec<ToolSpec>)
    ensures
        r@.len() == super_tool_names().len(),
        forall|i: int| 0 <= i < r@.len() ==> tool_is(#[trigger] r@[i], i),
{
    let mut r: Vec<ToolSpec> = Vec::new();
    let mut params: Vec<ToolParam> = Vec::new();
    r.push(ToolSpec { name: "query_rings", description: "列出用户所有 Ring 的摘要信息，包括名称、成员数和最近归档标题。当用户询问关于 Ring 的概况时使用。", params });
    proof { assert(tool_is(r@[0], 0)); }
    let mut params: Vec<ToolParam> = Vec::new();
    let mut choices: Vec<&'static str> = Vec::new();
    proof { assert(choices@.map_values(|c: &'static str| c@) =~= Seq::<Seq<char>>::empty()); }
    params.push(ToolParam { name: "ring_name", description: "要查询的 Ring 名称", choices, required: true });
    r.push(ToolSpec { name: "query_ring_detail", description: "读取指定 Ring 的详细数据，包括图谱节点和最近归档内容。当用户想了解某个 Ring 的具体内容时使用。", params });
    proof { assert(tool_is(r@[1], 1)); }
    let mut params: Vec<ToolParam> = Vec::new();
    r.push(ToolSpec { name: "query_user_preferences", description: "读取用户的全局偏好设置，包括语言、默认 LLM、输出格式、默认模式等。", params });
    proof { assert(tool_is(r@[2], 2)); }
    let mut params: Vec<ToolParam> = Vec::new();
    let mut choices: Vec<&'static str> = Vec::new();
    proof { assert(choices@.map_values(|c: &'static str| c@) =~= Seq::<Seq<char>>::empty()); }
    params.push(ToolParam { name: "content", description: "完整的偏好设置 Markdown 内容", choices, required: true });
    r.push(ToolSpec { name: "update_user_preferences", description: "更新用户的全局偏好设置。接收完整的 Markdown 内容覆盖写入户好文件。修改前应先用 query_user_preferences 读取当前内容。", params });
    proof { assert(tool_is(r@[3], 3)); }
    let mut params: Vec<ToolParam> = Vec::new();
    let mut choices: Vec<&'static str> = Vec::new();
    choices.push("list");
    choices.push("install");
    choices.push("remove");
    proof { assert(choices@.map_values(|c: &'static str| c@) =~= seq!["list"@, "install"@, "remove"@]); }
    params.push(ToolParam { name: "action", description: "操作类型", choices, required: true });
    let mut choices: Vec<&'static str> = Vec::new();
    proof { assert(choices@.map_values(|c: &'static str| c@) =~= Seq::<Seq<char>>::empty()); }
    params.push(ToolParam { name: "name", description: "Skill 名称（install/remove 时必填）", choices, required: false });
    let mut choices: Vec<&'static str> = Vec::new();
    proof { assert(choices@.map_values(|c: &'static str| c@) =~= Seq::<Seq<char>>::empty()); }
    params.push(ToolParam { name: "source_url", description: "远程 Skill URL（install 时必填）", choices, required: false });
    r.push(ToolSpec { name: "manage_skills", description: "管理 Skill 插件。支持三个操作：list（列出所有 Skill）、install（从 URL 安装 Skill）、remove（卸载 Skill）。", params });
    proof { assert(tool_is(r@[4], 4)); }
    let mut params: Vec<ToolParam> = Vec::new();
    let mut choices: Vec<&'static str> = Vec::new();
    proof { assert(choices@.map_values(|c: &'static str| c@) =~= Seq::<Seq<char>>::empty()); }
    params.push(ToolParam { name: "name", description: "Ring 名称，简洁有意义", choices, required: true });
    let mut choices: Vec<&'static str> = Vec::new();
    proof { assert(choices@.map_values(|c: &'static str| c@) =~= Seq::<Seq<char>>::empty()); }
    params.push(ToolParam { name: "role_description", description: "Group Ring 的角色描述，如「你是技术架构组长，擅长架构决策记录」", choices, required: false });
    let mut choices: Vec<&'static str> = Vec::new();
    choices.push("local");
    choices.push("gitlab");
    proof { assert(choices@.map_values(|c: &'static str| c@) =~= seq!["local"@, "gitlab"@]); }
    params.push(ToolParam { name: "storage_mode", description: "存储模式，默认 local", choices, required: false });
    r.push(ToolSpec { name: "create_ring", description: "创建一个新的 Ring（群组知识空间）。用户说出想创建的 Ring 名称和用途时使用。", params });
    proof { assert(tool_is(r@[5], 5)); }
    let mut params: Vec<ToolParam> = Vec::new();
    let mut choices: Vec<&'static str> = Vec::new();
    proof { assert(choices@.map_values(|c: &'static str| c@) =~= Seq::<Seq<char>>::empty()); }
    params.push(ToolParam { name: "query", description: "Search query", choices, required: true });
    r.push(ToolSpec { name: "search_rings", description: "Search across all Rings for relevant knowledge. Returns top 10 matching results.", params });
    proof { assert(tool_is(r@[6], 6)); }
    let mut params: Vec<ToolParam> = Vec::new();
    let mut choices: Vec<&'static str> = Vec::new();
    choices.push("list");
    choices.push("invite");
    choices.push("remove");
    proof { assert(choices@.map_values(|c: &'static str| c@) =~= seq!["list"@, "invite"@, "remove"@]); }
    params.push(ToolParam { name: "action", description: "操作类型", choices, required: true });
    let mut choices: Vec<&'static str> = Vec::new();
    proof { assert(choices@.map_values(|c: &'static str| c@) =~= Seq::<Seq<char>>::empty()); }
    params.push(ToolParam { name: "ring_name", description: "Ring 名称", choices, required: true });
    let mut choices: Vec<&'static str> = Vec::new();
    proof { assert(choices@.map_values(|c: &'static str| c@) =~= Seq::<Seq<char>>::empty()); }
    params.push(ToolParam { name: "target_user_id", description: "目标用户 ID（invite/remove 时必填）", choices, required: false });
    r.push(ToolSpec { name: "manage_ring_members", description: "管理 Ring 成员。支持 list（列出成员）、invite（邀请成员）、remove（移除成员）。", params });
    proof { assert(tool_is(r@[7], 7)); }
    let mut params: Vec<ToolParam> = Vec::new();
    let mut choices: Vec<&'static str> = Vec::new();
    proof { assert(choices@.map_values(|c: &'static str| c@) =~= Seq::<Seq<char>>::empty()); }
    params.push(ToolParam { name: "ring_name", description: "Ring 名称", choices, required: true });
    r.push(ToolSpec { name: "get_ring_graph", description: "获取 Ring 的图谱结构概要，包括所有节点和边。用于了解 Ring 的知识图谱。", params });
    proof { assert(tool_is(r@[8], 8)); }
    proof {
        assert forall|i: int| 0 <= i < r@.len() implies tool_is(#[trigger] r@[i], i) by {}
    }
    r
}

/// The tools that a call can name.
#[derive(Debug, PartialEq, Eq, Structural, Clone, Copy)]
pub enum SuperTool {
    QueryRings,
    QueryRingDetail,
    QueryUserPreferences,
    UpdateUserPreferences,
    ManageSkills,
    CreateRing,
    SearchRings,
    ManageRingMembers,
    GetRingGraph,
}

/// The position of a tool among the offered tools.
pub open spec fn tool_index(t: SuperTool) -> int {
    match t {
        SuperTool::QueryRings => 0,
        SuperTool::QueryRingDetail => 1,
        SuperTool::QueryUserPreferences => 2,
        SuperTool::UpdateUserPreferences => 3,
        SuperTool::ManageSkills => 4,
        SuperTool::CreateRing => 5,
        SuperTool::SearchRings => 6,
        SuperTool::ManageRingMembers => 7,
        SuperTool::GetRingGraph => 8,
    }
}

/// The name under which a tool is offered.
pub open spec fn tool_name(t: SuperTool) -> Seq<char> {
    super_tool_names()[tool_index(t)]
}

/// The tool that a call names. Every offered tool is recognised; any other
/// name is refused as an unknown tool.
pub fn super_tool(name: &str) -> (r: Result<SuperTool, RingError>)
    ensures
        r is Ok <==> super_tool_names().contains(name@),
        r matches Ok(t) ==> tool_name(t) == name@,
        r matches Err(e) ==> e matches RingError::BadRequest(m) && m@ == "unknown tool: "@ + name@,
{
    let r = if str_eq(name, "query_rings") {
        Ok(SuperTool::QueryRings)
    } else if str_eq(name, "query_ring_detail") {
        Ok(SuperTool::QueryRingDetail)
    } else if str_eq(name, "query_user_preferences") {
        Ok(SuperTool::QueryUserPreferences)
    } else if str_eq(name, "update_user_preferences") {
        Ok(SuperTool::UpdateUserPreferences)
    } else if str_eq(name, "manage_skills") {
        Ok(SuperTool::ManageSkills)
    } else if str_eq(name, "create_ring") {
        Ok(SuperTool::CreateRing)
    } else if str_eq(name, "search_rings") {
        Ok(SuperTool::SearchRings)
    } else if str_eq(name, "manage_ring_members") {
        Ok(SuperTool::ManageRingMembers)
    } else if str_eq(name, "get_ring_graph") {
        Ok(SuperTool::GetRingGraph)
    } else {
        let mut m = owned("unknown tool: ");
        push_str(&mut m, name);
        Err(RingError::BadRequest(m))
    };
    proof {
        let names = super_tool_names();
        match r {
            Ok(t) => {
                let k: int = tool_index(t);
                assert(names[k] == name@);
            },
            Err(_) => {
                assert forall|i: int| 0 <= i < names.len() implies names[i] != name@ by {}
            },
        }
    }
    r
}

/// Every tool offered to the model is one that a call can name: the
/// dispatcher recognises exactly the names of the offered tools.
pub proof fn law_offered_tools_dispatch(i: int)
    requires
        0 <= i < super_tool_names().len(),
    ensures
        exists|t: SuperTool| tool_name(t) == #[trigger] super_tool_names()[i],
{
    let t = if i == 0 {
        SuperTool::QueryRings
    } else if i == 1 {
        SuperTool::QueryRingDetail
    } else if i == 2 {
        SuperTool::QueryUserPreferences
    } else if i == 3 {
        SuperTool::UpdateUserPreferences
    } else if i == 4 {
        SuperTool::ManageSkills
    } else if i == 5 {
        SuperTool::CreateRing
    } else if i == 6 {
        SuperTool::SearchRings
    } else if i == 7 {
        SuperTool::ManageRingMembers
    } else {
        SuperTool::GetRingGraph
    };
    assert(tool_name(t) == super_tool_names()[i]);
}

/// The error for a tool call whose arguments do not parse.
pub fn invalid_arguments(reason: &str) -> (r: RingError)
    ensures
        r matches RingError::BadRequest(m) && m@ == "invalid tool arguments: "@ + reason@,
{
    let mut m = owned("invalid tool arguments: ");
    push_str(&mut m, reason);
    RingError::BadRequest(m)
}

// ---------------------------------------------------------------------------
// Stored prompt and preferences
// ---------------------------------------------------------------------------

/// The preferences that a user who has written none starts with.
pub const DEFAULT_PREFERENCES: &'static str = "## 语言\n- default: zh-CN\n\n## LLM\n- default_provider: openai\n\n## 输出格式\n- style: concise\n\n## 默认模式\n- mode: normal";

/// What a stored text gives: the stored text when it could be read and is
/// not blank, the default otherwise; and whether the stored text was used.
pub fn stored_or_default(stored: Option<&str>, default: &str) -> (r: (String, bool))
    ensures
        r.1 == (stored is Some && crate::text::trim(stored->0@).len() > 0),
        r.1 ==> r.0@ == stored->0@,
        !r.1 ==> r.0@ == default@,
{
    match stored {
        Some(s) => {
            if crate::text::is_blank(s) {
                (owned(default), false)
            } else {
                (owned(s), true)
            }
        },
        None => (owned(default), false),
    }
}

/// Saving a text: blank text removes the stored file, other text is written.
pub fn store_text(text: &str) -> (r: Option<String>)
    ensures
        r is None <==> crate::text::trim(text@).len() == 0,
        r matches Some(w) ==> w@ == text@,
{
    if crate::text::is_blank(text) {
        None
    } else {
        Some(owned(text))
    }
}

// ---------------------------------------------------------------------------
// The system prompt of a turn
// ---------------------------------------------------------------------------

/// Whether a message is worth searching the user's rings for: at least five
/// bytes long and not a slash command.
pub fn wants_search_context(content: &str) -> (r: bool)
    ensures
        r == (utf8_len(content@) >= 5 && !(content@.len() > 0 && content@[0] == '/')),
{
    let v = crate::text::chars_of(content);
    let long_enough = utf8_len_exceeds(v.as_slice(), 4);
    let slash = str_starts_with(content, "/");
    proof {
        reveal_strlit("/");
        assert("/"@ =~= seq!['/']);
        if content@.len() > 0 {
            assert(content@.subrange(0, 1) =~= seq![content@[0]]);
        }
        if slash {
            assert("/"@[0] == content@.subrange(0, 1)[0]);
        }
        assert(slash == (content@.len() > 0 && content@[0] == '/'));
        assert(long_enough == (utf8_len(content@) > 4));
    }
    long_enough && !slash
}

/// The search section of the system prompt: empty without search results,
/// otherwise the instruction and the results after a blank line each.
pub fn search_section(instruction: &str, results: &str) -> (r: String)
    ensures
        results@.len() == 0 ==> r@.len() == 0,
        results@.len() > 0 ==> r@ == "\n\n"@ + instruction@ + "\n\n"@ + results@,
{
    if results.is_empty() {
        String::new()
    } else {
        let mut r = owned("\n\n");
        push_str(&mut r, instruction);
        push_str(&mut r, "\n\n");
        push_str(&mut r, results);
        r
    }
}

/// The assistant's system prompt: its base prompt, the summary of the user's
/// rings, the user's preferences, and the search section.
pub fn super_system_prompt(base: &str, ring_summary: &str, preferences: &str, search: &str) -> (r: String)
    ensures
        r@ == base@ + "\n\n"@ + ring_summary@ + "\n\n## 用户偏好\n"@ + preferences@ + search@,
{
    let mut r = owned(base);
    push_str(&mut r, "\n\n");
    push_str(&mut r, ring_summary);
    push_str(&mut r, "\n\n## 用户偏好\n");
    push_str(&mut r, preferences);
    push_str(&mut r, search);
    r
}

/// Who a stored assistant message is from: the user's messages carry no
/// sender name, the assistant's carry its own.
pub fn super_sender_name(role: &str) -> (r: &'static str)
    ensures
        role@ == "user"@ ==> r@ == ""@,
        role@ != "user"@ ==> r@ == "SUPER RING"@,
{
    if str_eq(role, "user") {
        ""
    } else {
        "SUPER RING"
    }
}

/// A request to analyse several rings together.
pub struct CrossRingAnalysisRequest {
    pub ring_names: Vec<String>,
    pub analysis_type: String,
    pub question: Option<String>,
}

/// The section that one ring adds to a cross-ring prompt.
pub fn ring_detail_section(ring_name: &str, detail: &str) -> (r: String)
    ensures
        r@ == "\n## Ring: "@ + ring_name@ + "\n"@ + detail@,
{
    let mut r = owned("\n## Ring: ");
    push_str(&mut r, ring_name);
    push_str(&mut r, "\n");
    push_str(&mut r, detail);
    r
}

// ---------------------------------------------------------------------------
// Managing skills
// ---------------------------------------------------------------------------

/// An optional string argument, empty when absent.
pub open spec fn or_empty(o: Option<&str>) -> Seq<char> {
    match o {
        Some(s) => s@,
        None => Seq::empty(),
    }
}

/// Whether an optional argument is absent or empty.
pub fn no_text(o: Option<&str>) -> (r: bool)
    ensures
        r == (or_empty(o).len() == 0),
{
    match o {
        Some(s) => s.is_empty(),
        None => true,
    }
}

/// What a skill-management call asks for.
pub enum SkillCommand {
    List,
    Install { name: String, source_url: String },
    Remove { name: String },
    /// Nothing to run; answer the model with this text.
    Reply(String),
}

/// The command a skill-management call asks for: `list`; `install`, which
/// needs a name and a source URL; `remove`, which needs a name. Missing
/// arguments and unknown actions are answered in words.
pub fn skill_command(action: &str, name: Option<&str>, source_url: Option<&str>) -> (r: SkillCommand)
    ensures
        action@ == "list"@ ==> r is List,
        action@ == "install"@ && (or_empty(name).len() == 0 || or_empty(source_url).len() == 0)
            ==> (r matches SkillCommand::Reply(m) && m@ == "安装 Skill 需要 name 和 source_url 参数。"@),
        action@ == "install"@ && or_empty(name).len() > 0 && or_empty(source_url).len() > 0
            ==> (r matches SkillCommand::Install { name: n, source_url: u } && n@ == or_empty(name)
            && u@ == or_empty(source_url)),
        action@ == "remove"@ && or_empty(name).len() == 0 ==> (r matches SkillCommand::Reply(m)
            && m@ == "卸载 Skill 需要 name 参数。"@),
        action@ == "remove"@ && or_empty(name).len() > 0 ==> (r matches SkillCommand::Remove {
            name: n,
        } && n@ == or_empty(name)),
        action@ != "list"@ && action@ != "install"@ && action@ != "remove"@ ==> (r matches SkillCommand::Reply(m)
            && m@ == "未知操作 '"@ + action@ + "'。支持: list, install, remove"@),
{
    let n = match name {
        Some(x) => owned(x),
        None => String::new(),
    };
    let u = match source_url {
        Some(x) => owned(x),
        None => String::new(),
    };
    proof {
        reveal_strlit("list");
        reveal_strlit("install");
        reveal_strlit("remove");
        assert("list"@.len() == 4 && "install"@.len() == 7 && "remove"@.len() == 6);
    }
    let is_list = str_eq(action, "list");
    let is_install = str_eq(action, "install");
    let is_remove = str_eq(action, "remove");
    let missing_name = no_text(name);
    let missing_url = no_text(source_url);
    if is_list {
        SkillCommand::List
    } else if is_install {
        if missing_name || missing_url {
            SkillCommand::Reply(owned("安装 Skill 需要 name 和 source_url 参数。"))
        } else {
            SkillCommand::Install { name: n, source_url: u }
        }
    } else if is_remove {
        if missing_name {
            SkillCommand::Reply(owned("卸载 Skill 需要 name 参数。"))
        } else {
            SkillCommand::Remove { name: n }
        }
    } else {
        let mut m = owned("未知操作 '");
        push_str(&mut m, action);
        push_str(&mut m, "'。支持: list, install, remove");
        SkillCommand::Reply(m)
    }
}

/// How a skill is listed: its name, where it comes from, its description.
pub open spec fn skill_entry(s: SkillInfo) -> Seq<char> {
    "### "@ + s.name@ + " ["@ + (if s.source@ == "builtin"@ {
        "内置"@
    } else {
        "用户"@
    }) + "]\n"@ + s.description@ + "\n\n"@
}

pub open spec fn skill_entries(skills: Seq<SkillInfo>) -> Seq<char> {
    concat_all(skills.map_values(|s: SkillInfo| skill_entry(s)))
}

/// The answer to `list`: each skill under a heading, or a sentence saying
/// that none is installed.
pub fn skill_list_report(skills: &Vec<SkillInfo>) -> (r: String)
    ensures
        skills@.len() == 0 ==> r@ == "目前没有安装任何 Skill。"@,
        skills@.len() > 0 ==> r@ == "## 已安装的 Skill\n\n"@ + skill_entries(skills@),
{
    if skills.len() == 0 {
        return owned("目前没有安装任何 Skill。");
    }
    let mut r = owned("## 已安装的 Skill\n\n");
    let mut i: usize = 0;
    while i < skills.len()
        invariant
            i <= skills@.len(),
            r@ == "## 已安装的 Skill\n\n"@ + skill_entries(skills@.take(i as int)),
        decreases skills@.len() - i,
    {
        let s = &skills[i];
        push_str(&mut r, "### ");
        push_str(&mut r, s.name.as_str());
        push_str(&mut r, " [");
        if str_eq(s.source.as_str(), "builtin") {
            push_str(&mut r, "内置");
        } else {
            push_str(&mut r, "用户");
        }
        push_str(&mut r, "]\n");
        push_str(&mut r, s.description.as_str());
        push_str(&mut r, "\n\n");
        proof {
            let f = |x: SkillInfo| skill_entry(x);
            assert(skills@.take(i + 1).map_values(f) =~= skills@.take(i as int).map_values(f).push(
                skill_entry(skills@[i as int]),
            ));
            lemma_concat_all_push(skills@.take(i as int).map_values(f), skill_entry(skills@[i as int]));
        }
        i += 1;
    }
    proof {
        assert(skills@.take(skills@.len() as int) =~= skills@);
    }
    r
}

/// The answer to `install`: the skill installed, or why it was not.
pub fn skill_install_report(result: &Result<SkillInfo, RingError>) -> (r: String)
    ensures
        result matches Ok(s) ==> r@ == "Skill '"@ + s.name@ + "' 安装成功："@ + s.description@,
        result matches Err(e) ==> r@ == "Skill 安装失败："@ + error_text(*e),
{
    match result {
        Ok(s) => {
            let mut r = owned("Skill '");
            push_str(&mut r, s.name.as_str());
            push_str(&mut r, "' 安装成功：");
            push_str(&mut r, s.description.as_str());
            r
        },
        Err(e) => {
            let mut r = owned("Skill 安装失败：");
            let d = e.describe();
            push_str(&mut r, d.as_str());
            r
        },
    }
}

/// The answer to `remove`: the skill removed, or why it was not.
pub fn skill_remove_report(name: &str, result: &Result<(), RingError>) -> (r: String)
    ensures
        result is Ok ==> r@ == "Skill '"@ + name@ + "' 已卸载。"@,
        result matches Err(e) ==> r@ == "卸载失败："@ + error_text(*e),
{
    match result {
        Ok(_) => {
            let mut r = owned("Skill '");
            push_str(&mut r, name);
            push_str(&mut r, "' 已卸载。");
            r
        },
        Err(e) => {
            let mut r = owned("卸载失败：");
            let d = e.describe();
            push_str(&mut r, d.as_str());
            r
        },
    }
}

// ---------------------------------------------------------------------------
// Managing ring members
// ---------------------------------------------------------------------------

/// What a member-management call asks for.
pub enum MemberCommand {
    List,
    Invite { target: String },
    Remove { target: String },
    /// Nothing to run; answer the model with this text.
    Reply(String),
}

/// The command a member-management call asks for: `list`; `invite` and
/// `remove`, which need a non-empty target user. Missing targets and unknown
/// actions are answered in words.
pub fn member_command(action: &str, target: Option<&str>) -> (r: MemberCommand)
    ensures
        action@ == "list"@ ==> r is List,
        action@ == "invite"@ && or_empty(target).len() == 0 ==> (r matches MemberCommand::Reply(m)
            && m@ == "invite 操作需要 target_user_id 参数。"@),
        action@ == "invite"@ && or_empty(target).len() > 0 ==> (r matches MemberCommand::Invite {
            target: t,
        } && t@ == or_empty(target)),
        action@ == "remove"@ && or_empty(target).len() == 0 ==> (r matches MemberCommand::Reply(m)
            && m@ == "remove 操作需要 target_user_id 参数。"@),
        action@ == "remove"@ && or_empty(target).len() > 0 ==> (r matches MemberCommand::Remove {
            target: t,
        } && t@ == or_empty(target)),
        action@ != "list"@ && action@ != "invite"@ && action@ != "remove"@ ==> (r matches MemberCommand::Reply(m)
            && m@ == "未知操作 '"@ + action@ + "'。支持: list, invite, remove"@),
{
    let t = match target {
        Some(x) => owned(x),
        None => String::new(),
    };
    proof {
        reveal_strlit("list");
        reveal_strlit("invite");
        reveal_strlit("remove");
        assert("list"@.len() == 4 && "invite"@.len() == 6 && "remove"@.len() == 6);
        assert("invite"@[0] != "remove"@[0]);
    }
    if str_eq(action, "list") {
        MemberCommand::List
    } else if str_eq(action, "invite") {
        if no_text(target) {
            MemberCommand::Reply(owned("invite 操作需要 target_user_id 参数。"))
        } else {
            MemberCommand::Invite { target: t }
        }
    } else if str_eq(action, "remove") {
        if no_text(target) {
            MemberCommand::Reply(owned("remove 操作需要 target_user_id 参数。"))
        } else {
            MemberCommand::Remove { target: t }
        }
    } else {
        let mut m = owned("未知操作 '");
        push_str(&mut m, action);
        push_str(&mut m, "'。支持: list, invite, remove");
        MemberCommand::Reply(m)
    }
}

/// The answer when no ring of the user's has the name asked for.
pub fn ring_not_found_reply(ring_name: &str) -> (r: String)
    ensures
        r@ == "未找到名为「"@ + ring_name@ + "」的 Ring。"@,
{
    let mut r = owned("未找到名为「");
    push_str(&mut r, ring_name);
    push_str(&mut r, "」的 Ring。");
    r
}

/// A member as the member list shows it.
pub struct MemberLine {
    pub display_name: String,
    pub role: String,
    pub token_id: String,
}

pub open spec fn member_entry(m: MemberLine) -> Seq<char> {
    "- "@ + m.display_name@ + " ("@ + m.role@ + "): "@ + m.token_id@ + "\n"@
}

/// The answer to `list`: a heading with the ring's name, then one line per
/// member.
pub fn member_list_report(ring_name: &str, members: &Vec<MemberLine>) -> (r: String)
    ensures
        r@ == "## Ring「"@ + ring_name@ + "」的成员\n\n"@ + concat_all(
            members@.map_values(|m: MemberLine| member_entry(m)),
        ),
{
    let mut r = owned("## Ring「");
    push_str(&mut r, ring_name);
    push_str(&mut r, "」的成员\n\n");
    let ghost head = r@;
    let mut i: usize = 0;
    while i < members.len()
        invariant
            i <= members@.len(),
            r@ == head + concat_all(members@.take(i as int).map_values(|m: MemberLine| member_entry(m))),
        decreases members@.len() - i,
    {
        let m = &members[i];
        push_str(&mut r, "- ");
        push_str(&mut r, m.display_name.as_str());
        push_str(&mut r, " (");
        push_str(&mut r, m.role.as_str());
        push_str(&mut r, "): ");
        push_str(&mut r, m.token_id.as_str());
        push_str(&mut r, "\n");
        proof {
            let f = |x: MemberLine| member_entry(x);
            assert(members@.take(i + 1).map_values(f) =~= members@.take(i as int).map_values(f).push(
                member_entry(members@[i as int]),
            ));
            lemma_concat_all_push(members@.take(i as int).map_values(f), member_entry(members@[i as int]));
        }
        i += 1;
    }
    proof {
        assert(members@.take(members@.len() as int) =~= members@);
    }
    r
}

/// The answer to `invite`: the user added, or why not.
pub fn member_invite_report(ring_name: &str, target: &str, result: &Result<(), RingError>) -> (r: String)
    ensures
        result is Ok ==> r@ == "已将用户 "@ + target@ + " 添加到 Ring「"@ + ring_name@ + "」。"@,
        result matches Err(e) ==> r@ == "添加成员失败："@ + error_text(*e),
{
    match result {
        Ok(_) => {
            let mut r = owned("已将用户 ");
            push_str(&mut r, target);
            push_str(&mut r, " 添加到 Ring「");
            push_str(&mut r, ring_name);
            push_str(&mut r, "」。");
            r
        },
        Err(e) => {
            let mut r = owned("添加成员失败：");
            let d = e.describe();
            push_str(&mut r, d.as_str());
            r
        },
    }
}

/// The answer to `remove`: the user removed, or why not.
pub fn member_remove_report(ring_name: &str, target: &str, result: &Result<(), RingError>) -> (r: String)
    ensures
        result is Ok ==> r@ == "已将用户 "@ + target@ + " 从 Ring「"@ + ring_name@ + "」移除。"@,
        result matches Err(e) ==> r@ == "移除成员失败："@ + error_text(*e),
{
    match result {
        Ok(_) => {
            let mut r = owned("已将用户 ");
            push_str(&mut r, target);
            push_str(&mut r, " 从 Ring「");
            push_str(&mut r, ring_name);
            push_str(&mut r, "」移除。");
            r
        },
        Err(e) => {
            let mut r = owned("移除成员失败：");
            let d = e.describe();
            push_str(&mut r, d.as_str());
            r
        },
    }
}

// ---------------------------------------------------------------------------
// Creating a ring
// ---------------------------------------------------------------------------

/// The role description and storage mode of a ring created by the
/// assistant: as given, or `You are a {name} assistant` and `local`.
pub fn new_ring_settings(name: &str, role_description: Option<&str>, storage_mode: Option<&str>)
    -> (r: (String, String))
    ensures
        r.0@ == match role_description {
            Some(d) => d@,
            None => "You are a "@ + name@ + " assistant"@,
        },
        r.1@ == match storage_mode {
            Some(m) => m@,
            None => "local"@,
        },
{
    let role = match role_description {
        Some(d) => owned(d),
        None => {
            let mut r = owned("You are a ");
            push_str(&mut r, name);
            push_str(&mut r, " assistant");
            r
        },
    };
    let mode = match storage_mode {
        Some(m) => owned(m),
        None => owned("local"),
    };
    (role, mode)
}

/// The answer after creating a ring: its name and id, or why it failed.
pub fn ring_created_report(result: &Result<(String, String), RingError>) -> (r: String)
    ensures
        result matches Ok(c) ==> r@ == "Ring「"@ + c.0@ + "」已创建成功！ID: "@ + c.1@
            + "。用户可以进入该 Ring 开始使用。"@,
        result matches Err(e) ==> r@ == "创建 Ring 失败："@ + error_text(*e),
{
    match result {
        Ok(c) => {
            let mut r = owned("Ring「");
            push_str(&mut r, c.0.as_str());
            push_str(&mut r, "」已创建成功！ID: ");
            push_str(&mut r, c.1.as_str());
            push_str(&mut r, "。用户可以进入该 Ring 开始使用。");
            r
        },
        Err(e) => {
            let mut r = owned("创建 Ring 失败：");
            let d = e.describe();
            push_str(&mut r, d.as_str());
            r
        },
    }
}

// ---------------------------------------------------------------------------
// Reports on rings
// ---------------------------------------------------------------------------

/// A node of a ring's graph as the graph report shows it.
pub struct GraphNodeLine {
    pub id: String,
    pub label: String,
    pub node_type: String,
    pub tags: String,
}

/// An edge of a ring's graph as the graph report shows it.
pub struct GraphEdgeLine {
    pub source_id: String,
    pub target_id: String,
    pub relation: String,
}

/// The label of the first node with id `id`; the id itself if none has it.
pub open spec fn label_for(nodes: Seq<GraphNodeLine>, id: Seq<char>) -> Seq<char>
    decreases nodes.len(),
{
    if nodes.len() == 0 {
        id
    } else if nodes[0].id@ == id {
        nodes[0].label@
    } else {
        label_for(nodes.drop_first(), id)
    }
}

/// The label of the first node with id `id`, or the id itself.
pub fn find_label(nodes: &Vec<GraphNodeLine>, id: &str) -> (r: String)
    ensures
        r@ == label_for(nodes@, id@),
{
    let mut i: usize = 0;
    proof {
        assert(nodes@.skip(0) =~= nodes@);
    }
    while i < nodes.len()
        invariant
            i <= nodes@.len(),
            label_for(nodes@, id@) == label_for(nodes@.skip(i as int), id@),
        decreases nodes@.len() - i,
    {
        proof {
            assert(nodes@.skip(i as int)[0] == nodes@[i as int]);
            assert(nodes@.skip(i as int).drop_first() =~= nodes@.skip(i + 1));
        }
        if str_eq(nodes[i].id.as_str(), id) {
            return nodes[i].label.clone();
        }
        i += 1;
    }
    proof {
        assert(nodes@.skip(i as int) =~= Seq::<GraphNodeLine>::empty());
    }
    owned(id)
}

pub open spec fn node_line(n: GraphNodeLine) -> Seq<char> {
    "- "@ + n.label@ + " ["@ + n.node_type@ + "] "@ + (if n.tags@ == "[]"@ {
        Seq::empty()
    } else {
        "tags: "@ + n.tags@
    }) + "\n"@
}

pub open spec fn edge_line(nodes: Seq<GraphNodeLine>, e: GraphEdgeLine) -> Seq<char> {
    "- "@ + label_for(nodes, e.source_id@) + " → "@ + label_for(nodes, e.target_id@) + " ("@
        + e.relation@ + ")\n"@
}

/// The outline of a ring's graph: how many nodes, one line per node with
/// its type and tags (none shown when the tags are `[]`), how many edges,
/// and one line per edge between the labels of its ends.
#[verifier::spinoff_prover]
#[verifier::rlimit(40)]
pub fn ring_graph_report(ring_name: &str, nodes: &Vec<GraphNodeLine>, edges: &Vec<GraphEdgeLine>)
    -> (r: String)
    requires
        nodes@.len() <= u64::MAX,
        edges@.len() <= u64::MAX,
    ensures
        r@ == "## Ring「"@ + ring_name@ + "」图谱概要\n\n"@ + "### 节点（共 "@ + decimal(
            nodes@.len(),
        ) + " 个）\n\n"@ + concat_all(nodes@.map_values(|n: GraphNodeLine| node_line(n)))
            + "\n### 边（共 "@ + decimal(edges@.len()) + " 个）\n\n"@ + concat_all(
            edges@.map_values(|e: GraphEdgeLine| edge_line(nodes@, e)),
        ),
{
    let mut r = owned("## Ring「");
    push_str(&mut r, ring_name);
    push_str(&mut r, "」图谱概要\n\n");
    push_str(&mut r, "### 节点（共 ");
    let n = decimal_string(nodes.len() as u64);
    push_str(&mut r, n.as_str());
    push_str(&mut r, " 个）\n\n");
    let ghost head = r@;
    let mut i: usize = 0;
    while i < nodes.len()
        invariant
            i <= nodes@.len(),
            r@ == head + concat_all(nodes@.take(i as int).map_values(|n: GraphNodeLine| node_line(n))),
        decreases nodes@.len() - i,
    {
        let node = &nodes[i];
        push_str(&mut r, "- ");
        push_str(&mut r, node.label.as_str());
        push_str(&mut r, " [");
        push_str(&mut r, node.node_type.as_str());
        push_str(&mut r, "] ");
        if !str_eq(node.tags.as_str(), "[]") {
            push_str(&mut r, "tags: ");
            push_str(&mut r, node.tags.as_str());
        }
        push_str(&mut r, "\n");
        proof {
            let f = |x: GraphNodeLine| node_line(x);
            assert(nodes@.take(i + 1).map_values(f) =~= nodes@.take(i as int).map_values(f).push(
                node_line(nodes@[i as int]),
            ));
            lemma_concat_all_push(nodes@.take(i as int).map_values(f), node_line(nodes@[i as int]));
        }
        i += 1;
    }
    proof {
        assert(nodes@.take(nodes@.len() as int) =~= nodes@);
    }
    push_str(&mut r, "\n### 边（共 ");
    let m = decimal_string(edges.len() as u64);
    push_str(&mut r, m.as_str());
    push_str(&mut r, " 个）\n\n");
    let ghost head2 = r@;
    let mut j: usize = 0;
    while j < edges.len()
        invariant
            j <= edges@.len(),
            r@ == head2 + concat_all(
                edges@.take(j as int).map_values(|e: GraphEdgeLine| edge_line(nodes@, e)),
            ),
        decreases edges@.len() - j,
    {
        let e = &edges[j];
        let src = find_label(nodes, e.source_id.as_str());
        let tgt = find_label(nodes, e.target_id.as_str());
        push_str(&mut r, "- ");
        push_str(&mut r, src.as_str());
        push_str(&mut r, " → ");
        push_str(&mut r, tgt.as_str());
        push_str(&mut r, " (");
        push_str(&mut r, e.relation.as_str());
        push_str(&mut r, ")\n");
        proof {
            let f = |x: GraphEdgeLine| edge_line(nodes@, x);
            assert(edges@.take(j + 1).map_values(f) =~= edges@.take(j as int).map_values(f).push(
                edge_line(nodes@, edges@[j as int]),
            ));
            lemma_concat_all_push(edges@.take(j as int).map_values(f), edge_line(nodes@, edges@[j as int]));
        }
        j += 1;
    }
    proof {
        assert(edges@.take(edges@.len() as int) =~= edges@);
    }
    r
}

/// A ring as the summary of a user's rings shows it: its name, how many
/// members it has, and the titles of its archives joined by `|`.
pub struct RingSummaryRow {
    pub name: String,
    pub member_count: u64,
    pub archive_titles: Option<String>,
}

/// The titles a summary shows: the first three of the `|`-separated list.
pub open spec fn shown_titles(titles: Option<String>) -> Seq<Seq<char>> {
    match titles {
        None => Seq::empty(),
        Some(t) => {
            let all = split_on(t@, seq!['|']);
            all.take(if all.len() < 3 { all.len() as int } else { 3 })
        },
    }
}

pub open spec fn summary_entry(row: RingSummaryRow) -> Seq<char> {
    let titles = shown_titles(row.archive_titles);
    "### "@ + row.name@ + " ("@ + decimal(row.member_count as nat) + " 成员)\n"@ + (if titles.len()
        == 0 {
        "- 暂无归档\n\n"@
    } else {
        "- 最近归档: "@ + join(titles, ", "@) + "\n\n"@
    })
}

/// The titles shown for a ring, joined for its summary line.
fn titles_line(titles: &Option<String>) -> (r: Option<String>)
    ensures
        shown_titles(*titles).len() == 0 ==> r is None,
        shown_titles(*titles).len() > 0 ==> (r matches Some(l) && l@ == join(
            shown_titles(*titles),
            ", "@,
        )),
{
    match titles {
        None => None,
        Some(t) => {
            let cs = chars_of(t.as_str());
            let sep = vec!['|'];
            let mut parts = split_chars(cs.as_slice(), sep.as_slice());
            let ghost all = parts@.map_values(|w: Vec<char>| w@);
            proof {
                assert(sep@ =~= seq!['|']);
            }
            if parts.len() > 3 {
                parts.truncate(3);
            }
            proof {
                assert(parts@.map_values(|w: Vec<char>| w@) =~= all.take(
                    if all.len() < 3 { all.len() as int } else { 3 },
                ));
            }
            if parts.len() == 0 {
                None
            } else {
                let comma = vec![',', ' '];
                let joined = join_chars(&parts, comma.as_slice());
                proof {
                    reveal_strlit(", ");
                    assert(comma@ =~= ", "@);
                }
                Some(crate::text::string_of(joined.as_slice()))
            }
        },
    }
}

/// The summary of a user's rings: one entry per ring with its member count
/// and its three latest archive titles, or a sentence saying there is none.
pub fn ring_summary(rows: &Vec<RingSummaryRow>) -> (r: String)
    ensures
        rows@.len() == 0 ==> r@ == "用户目前没有任何 Ring。"@,
        rows@.len() > 0 ==> r@ == "## 用户的所有 Ring\n\n"@ + concat_all(
            rows@.map_values(|row: RingSummaryRow| summary_entry(row)),
        ),
{
    if rows.len() == 0 {
        return owned("用户目前没有任何 Ring。");
    }
    let mut r = owned("## 用户的所有 Ring\n\n");
    let ghost head = r@;
    let mut i: usize = 0;
    while i < rows.len()
        invariant
            i <= rows@.len(),
            r@ == head + concat_all(rows@.take(i as int).map_values(|row: RingSummaryRow| summary_entry(row))),
        decreases rows@.len() - i,
    {
        let row = &rows[i];
        let ghost r0 = r@;
        push_str(&mut r, "### ");
        push_str(&mut r, row.name.as_str());
        push_str(&mut r, " (");
        let n = decimal_string(row.member_count);
        push_str(&mut r, n.as_str());
        push_str(&mut r, " 成员)\n");
        match titles_line(&row.archive_titles) {
            None => {
                push_str(&mut r, "- 暂无归档\n\n");
            },
            Some(l) => {
                push_str(&mut r, "- 最近归档: ");
                push_str(&mut r, l.as_str());
                push_str(&mut r, "\n\n");
            },
        }
        proof {
            assert(r@ =~= r0 + summary_entry(rows@[i as int]));
            let f = |x: RingSummaryRow| summary_entry(x);
            assert(rows@.take(i + 1).map_values(f) =~= rows@.take(i as int).map_values(f).push(
                summary_entry(rows@[i as int]),
            ));
            lemma_concat_all_push(rows@.take(i as int).map_values(f), summary_entry(rows@[i as int]));
        }
        i += 1;
    }
    proof {
        assert(rows@.take(rows@.len() as int) =~= rows@);
    }
    r
}

/// A node of a ring's stored graph: its label and description.
pub struct DetailNode {
    pub label: String,
    pub description: String,
}

/// A file of a ring's archive directory, newest first; its content when it
/// could be read.
pub struct ArchiveEntry {
    pub name: String,
    pub content: Option<String>,
}

pub open spec fn detail_node_line(n: DetailNode) -> Seq<char> {
    if n.description@.len() == 0 {
        "- "@ + n.label@ + "\n"@
    } else {
        "- "@ + n.label@ + ": "@ + n.description@ + "\n"@
    }
}

/// An archive's content as shown: cut to 500 characters, and marked, when
/// longer than 500 bytes.
pub open spec fn clipped(c: Seq<char>) -> Seq<char> {
    if utf8_len(c) > 500 {
        c.take(if c.len() < 500 { c.len() as int } else { 500 }) + "...（截断）"@
    } else {
        c
    }
}

pub open spec fn archive_section(e: ArchiveEntry) -> Seq<char> {
    if ".md"@.is_suffix_of(e.name@) && e.content is Some {
        "#### "@ + e.name@ + "\n"@ + clipped(e.content->0@) + "\n\n"@
    } else {
        Seq::empty()
    }
}

pub open spec fn first_n<T>(s: Seq<T>, n: int) -> Seq<T> {
    s.take(if s.len() < n { s.len() as int } else { n })
}

/// Appends one archive file's section (see `archive_section`).
fn push_archive_section(r: &mut String, e: &ArchiveEntry)
    ensures
        final(r)@ == old(r)@ + archive_section(*e),
{
    let md = str_ends_with(e.name.as_str(), ".md");
    match &e.content {
        Some(c) => {
            if md {
                push_str(r, "#### ");
                push_str(r, e.name.as_str());
                push_str(r, "\n");
                let cs = chars_of(c.as_str());
                if utf8_len_exceeds(cs.as_slice(), 500) {
                    let head_chars = take_chars(cs.as_slice(), 500);
                    push_chars(r, head_chars.as_slice());
                    push_str(r, "...（截断）");
                } else {
                    push_str(r, c.as_str());
                }
                push_str(r, "\n\n");
            } else {
                proof {
                    assert(old(r)@ + Seq::<char>::empty() =~= old(r)@);
                }
            }
        },
        None => {
            proof {
                assert(old(r)@ + Seq::<char>::empty() =~= old(r)@);
            }
        },
    }
}

/// The stored details of a ring: the graph's nodes (up to fifty) when the
/// graph could be read, and the three newest archive files that are
/// Markdown and readable, when the archive directory exists.
pub fn ring_detail(nodes: Option<&Vec<DetailNode>>, archives: Option<&Vec<ArchiveEntry>>) -> (r: String)
    requires
        nodes matches Some(ns) ==> ns@.len() <= u64::MAX,
    ensures
        r@ == (match nodes {
            None => Seq::<char>::empty(),
            Some(ns) => "### 图谱节点（共 "@ + decimal(ns@.len()) + " 个，显示前 50 个）\n"@
                + concat_all(first_n(ns@, 50).map_values(|n: DetailNode| detail_node_line(n)))
                + "\n"@,
        }) + (match archives {
            None => Seq::<char>::empty(),
            Some(es) => "### 最近归档\n\n"@ + concat_all(
                first_n(es@, 3).map_values(|e: ArchiveEntry| archive_section(e)),
            ),
        }),
{
    let mut r = String::new();
    match nodes {
        None => {},
        Some(ns) => {
            push_str(&mut r, "### 图谱节点（共 ");
            let n = decimal_string(ns.len() as u64);
            push_str(&mut r, n.as_str());
            push_str(&mut r, " 个，显示前 50 个）\n");
            let ghost head = r@;
            let end: usize = if ns.len() < 50 { ns.len() } else { 50 };
            let mut i: usize = 0;
            while i < end
                invariant
                    i <= end,
                    end as int == (if ns@.len() < 50 { ns@.len() as int } else { 50 }),
                    r@ == head + concat_all(ns@.take(i as int).map_values(|n: DetailNode| detail_node_line(n))),
                decreases end - i,
            {
                let node = &ns[i];
                push_str(&mut r, "- ");
                push_str(&mut r, node.label.as_str());
                if !node.description.as_str().is_empty() {
                    push_str(&mut r, ": ");
                    push_str(&mut r, node.description.as_str());
                }
                push_str(&mut r, "\n");
                proof {
                    let f = |x: DetailNode| detail_node_line(x);
                    assert(ns@.take(i + 1).map_values(f) =~= ns@.take(i as int).map_values(f).push(
                        detail_node_line(ns@[i as int]),
                    ));
                    lemma_concat_all_push(ns@.take(i as int).map_values(f), detail_node_line(ns@[i as int]));
                }
                i += 1;
            }
            push_str(&mut r, "\n");
        },
    }
    let ghost mid = r@;
    match archives {
        None => {},
        Some(es) => {
            push_str(&mut r, "### 最近归档\n\n");
            let ghost head = r@;
            let end: usize = if es.len() < 3 { es.len() } else { 3 };
            let mut i: usize = 0;
            while i < end
                invariant
                    i <= end,
                    end as int == (if es@.len() < 3 { es@.len() as int } else { 3 }),
                    r@ == head + concat_all(es@.take(i as int).map_values(|e: ArchiveEntry| archive_section(e))),
                decreases end - i,
            {
                push_archive_section(&mut r, &es[i]);
                proof {
                    let f = |x: ArchiveEntry| archive_section(x);
                    assert(es@.take(i + 1).map_values(f) =~= es@.take(i as int).map_values(f).push(
                        archive_section(es@[i as int]),
                    ));
                    lemma_concat_all_push(es@.take(i as int).map_values(f), archive_section(es@[i as int]));
                }
                i += 1;
            }
        },
    }
    r
}

/// What the model is told about a ring: its details, or that it has none.
pub fn ring_detail_reply(ring_name: &str, detail: String) -> (r: String)
    ensures
        detail@.len() == 0 ==> r@ == "Ring「"@ + ring_name@ + "」暂无图谱和归档数据。"@,
        detail@.len() > 0 ==> r@ == detail@,
{
    if detail.as_str().is_empty() {
        let mut r = owned("Ring「");
        push_str(&mut r, ring_name);
        push_str(&mut r, "」暂无图谱和归档数据。");
        r
    } else {
        detail
    }
}

/// The answer of the `search_rings` tool: a sentence when the user has no
/// ring or nothing matched, else the hits as search context.
pub fn search_rings_reply(has_rings: bool, results: &[crate::search::SearchRow]) -> (r: String)
    ensures
        !has_rings ==> r@ == "用户目前没有任何 Ring。"@,
        has_rings && results@.len() == 0 ==> r@ == "未找到相关结果。"@,
        has_rings && results@.len() > 0 ==> r@ == crate::search::search_context(results@),
{
    if !has_rings {
        return owned("用户目前没有任何 Ring。");
    }
    if results.len() == 0 {
        return owned("未找到相关结果。");
    }
    crate::search::format_search_context(results)
}

} // verus!
