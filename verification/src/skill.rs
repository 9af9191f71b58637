//! Session skills: the built-in skill table, the prompts derived from it,
//! SKILL.md documents (front matter, validation, generation) and the skill
//! list that merges installed and built-in skills.
use vstd::prelude::*;
use vstd::string::*;

use crate::error::RingError;
use crate::text::{
    chars_of, contains, find, lowercase_of, owned, slice_chars, str_contains, str_ends_with,
    str_eq, string_of, to_lowercase, trim_start, trim_start_chars,
};

verus! {

/// Description of the built-in skill `decision`.
pub const DECISION_DESCRIPTION: &'static str = "团队决策：收集材料 → 讨论 → 决策结论 + 行动项";

/// Material-preparation prompt of the built-in skill `decision`.
pub const DECISION_MATERIAL_PROMPT: &'static str = "You are assisting a decision-making session. Based on the session title and description, identify and collect relevant documents, data points, and graph nodes. For each material, create a concise summary. List pros, cons, risks, and options related to the decision topic.";

/// Summary prompt of the built-in skill `decision`.
pub const DECISION_SUMMARY_PROMPT: &'static str = "Summarize this decision-making session. Include: 1) The key decision made, 2) Main arguments for and against, 3) Action items with owners, 4) Follow-up dates. Format as structured markdown.";

/// Description of the built-in skill `research`.
pub const RESEARCH_DESCRIPTION: &'static str = "研究讨论：收集资源 → 讨论 → 研究报告";

/// Material-preparation prompt of the built-in skill `research`.
pub const RESEARCH_MATERIAL_PROMPT: &'static str = "You are assisting a research session. Based on the session title and description, collect relevant resources, references, and existing knowledge from the graph. Identify gaps in knowledge and suggest areas to investigate.";

/// Summary prompt of the built-in skill `research`.
pub const RESEARCH_SUMMARY_PROMPT: &'static str = "Write a research report summarizing this session. Include: 1) Research question, 2) Key findings, 3) Data sources, 4) Conclusions, 5) Recommendations for further research. Format as structured markdown.";

/// Description of the built-in skill `review`.
pub const REVIEW_DESCRIPTION: &'static str = "评审：收集评审目标 → 讨论 → 评审意见 + 改进建议";

/// Material-preparation prompt of the built-in skill `review`.
pub const REVIEW_MATERIAL_PROMPT: &'static str = "You are assisting a review session. Based on the session title and description, collect the review targets (documents, code, designs). Identify review criteria and checklists relevant to the review type.";

/// Summary prompt of the built-in skill `review`.
pub const REVIEW_SUMMARY_PROMPT: &'static str = "Summarize this review session. Include: 1) Items reviewed, 2) Key findings (issues and positive aspects), 3) Improvement suggestions with priority levels, 4) Agreed actions. Format as structured markdown.";

/// Description of the built-in skill `retrospective`.
pub const RETROSPECTIVE_DESCRIPTION: &'static str = "回顾：收集项目数据 → 讨论 → 经验教训 + 改进计划";

/// Material-preparation prompt of the built-in skill `retrospective`.
pub const RETROSPECTIVE_MATERIAL_PROMPT: &'static str = "You are assisting a retrospective session. Based on the session title and description, collect project timeline data, metrics, and previous retrospective outcomes from the graph. Identify key events and milestones.";

/// Summary prompt of the built-in skill `retrospective`.
pub const RETROSPECTIVE_SUMMARY_PROMPT: &'static str = "Summarize this retrospective. Include: 1) What went well, 2) What could be improved, 3) Lessons learned, 4) Action items for next cycle. Format as structured markdown.";

/// Description of the built-in skill `knowledge_sharing`.
pub const KNOWLEDGE_SHARING_DESCRIPTION: &'static str = "知识分享：收集材料 → 讨论 → 整理笔记";

/// Material-preparation prompt of the built-in skill `knowledge_sharing`.
pub const KNOWLEDGE_SHARING_MATERIAL_PROMPT: &'static str = "You are assisting a knowledge sharing session. Based on the session title and description, collect relevant materials, prior discussions, and graph nodes related to the topic. Organize materials into a logical flow for presentation.";

/// Summary prompt of the built-in skill `knowledge_sharing`.
pub const KNOWLEDGE_SHARING_SUMMARY_PROMPT: &'static str = "Create organized notes from this knowledge sharing session. Include: 1) Key topics covered, 2) Important takeaways, 3) References and resources mentioned, 4) Open questions. Format as structured markdown.";

/// A built-in skill.
#[derive(Clone, Copy)]
pub struct SkillDef {
    pub name: &'static str,
    pub description: &'static str,
    pub material_prompt: &'static str,
    pub summary_prompt: &'static str,
}

/// The built-in skill called `name`, as ((name, description),
/// (material prompt, summary prompt)).
pub open spec fn builtin_skill(name: Seq<char>) -> Option<((Seq<char>, Seq<char>), (Seq<char>, Seq<char>))> {
    if name == "decision"@ {
        Some((("decision"@, DECISION_DESCRIPTION@), (DECISION_MATERIAL_PROMPT@, DECISION_SUMMARY_PROMPT@)))
    } else if name == "research"@ {
        Some((("research"@, RESEARCH_DESCRIPTION@), (RESEARCH_MATERIAL_PROMPT@, RESEARCH_SUMMARY_PROMPT@)))
    } else if name == "review"@ {
        Some((("review"@, REVIEW_DESCRIPTION@), (REVIEW_MATERIAL_PROMPT@, REVIEW_SUMMARY_PROMPT@)))
    } else if name == "retrospective"@ {
        Some((("retrospective"@, RETROSPECTIVE_DESCRIPTION@), (RETROSPECTIVE_MATERIAL_PROMPT@, RETROSPECTIVE_SUMMARY_PROMPT@)))
    } else if name == "knowledge_sharing"@ {
        Some((("knowledge_sharing"@, KNOWLEDGE_SHARING_DESCRIPTION@), (KNOWLEDGE_SHARING_MATERIAL_PROMPT@, KNOWLEDGE_SHARING_SUMMARY_PROMPT@)))
    } else {
        None
    }
}

/// Names of the built-in skills, in table order.
pub open spec fn builtin_skill_names() -> Seq<Seq<char>> {
    seq!["decision"@, "research"@, "review"@, "retrospective"@, "knowledge_sharing"@]
}

/// The view of a skill definition.
pub open spec fn skill_view(s: SkillDef) -> ((Seq<char>, Seq<char>), (Seq<char>, Seq<char>)) {
    ((s.name@, s.description@), (s.material_prompt@, s.summary_prompt@))
}

/// The built-in skill called `name`, if there is one.
pub fn get_skill(name: &str) -> (r: Option<SkillDef>)
    ensures
        match r {
            Some(s) => builtin_skill(name@) == Some(skill_view(s)),
            None => builtin_skill(name@) is None,
        },
{
    if str_eq(name, "decision") {
        Some(SkillDef { name: "decision", description: DECISION_DESCRIPTION, material_prompt: DECISION_MATERIAL_PROMPT, summary_prompt: DECISION_SUMMARY_PROMPT })
    } else if str_eq(name, "research") {
        Some(SkillDef { name: "research", description: RESEARCH_DESCRIPTION, material_prompt: RESEARCH_MATERIAL_PROMPT, summary_prompt: RESEARCH_SUMMARY_PROMPT })
    } else if str_eq(name, "review") {
        Some(SkillDef { name: "review", description: REVIEW_DESCRIPTION, material_prompt: REVIEW_MATERIAL_PROMPT, summary_prompt: REVIEW_SUMMARY_PROMPT })
    } else if str_eq(name, "retrospective") {
        Some(SkillDef { name: "retrospective", description: RETROSPECTIVE_DESCRIPTION, material_prompt: RETROSPECTIVE_MATERIAL_PROMPT, summary_prompt: RETROSPECTIVE_SUMMARY_PROMPT })
    } else if str_eq(name, "knowledge_sharing") {
        Some(SkillDef { name: "knowledge_sharing", description: KNOWLEDGE_SHARING_DESCRIPTION, material_prompt: KNOWLEDGE_SHARING_MATERIAL_PROMPT, summary_prompt: KNOWLEDGE_SHARING_SUMMARY_PROMPT })
    } else {
        None
    }
}

/// Whether `name` is a built-in skill.
pub fn is_builtin_skill(name: &str) -> (r: bool)
    ensures
        r == builtin_skill(name@) is Some,
{
    get_skill(name).is_some()
}

/// The system prompt for preparing a session's materials with a skill.
pub open spec fn material_system_prompt(material: Seq<char>, title: Seq<char>, description: Seq<char>) -> Seq<char> {
    material + "\n\nSession: "@ + title + "\nDescription: "@ + (if description.len() == 0 {
        "N/A"@
    } else {
        description
    }) + "\n\nAnalyze the topic and provide a structured list of materials that should be prepared for this session. For each material, specify: title, type (document/graph_node/ai_generated), and a brief description of what it should contain."@
}

/// The prompt for preparing materials of a session run with `skill_name`;
/// `None` for a skill that is not built in.
pub fn build_material_system_prompt(
    skill_name: &str,
    session_title: &str,
    session_description: &str,
) -> (r: Option<String>)
    ensures
        match builtin_skill(skill_name@) {
            Some(s) => r matches Some(p) && p@ == material_system_prompt(
                s.1.0,
                session_title@,
                session_description@,
            ),
            None => r is None,
        },
{
    let skill = match get_skill(skill_name) {
        Some(s) => s,
        None => return None,
    };
    let mut p = owned(skill.material_prompt);
    p.append("\n\nSession: ");
    p.append(session_title);
    p.append("\nDescription: ");
    let d = chars_of(session_description);
    if d.len() == 0 {
        p.append("N/A");
    } else {
        p.append(session_description);
    }
    p.append("\n\nAnalyze the topic and provide a structured list of materials that should be prepared for this session. For each material, specify: title, type (document/graph_node/ai_generated), and a brief description of what it should contain.");
    Some(p)
}

/// The summary prompt of a built-in skill; `None` for other skills.
pub fn build_summary_system_prompt(skill_name: &str) -> (r: Option<String>)
    ensures
        match builtin_skill(skill_name@) {
            Some(s) => r matches Some(p) && p@ == s.1.1,
            None => r is None,
        },
{
    match get_skill(skill_name) {
        Some(s) => Some(owned(s.summary_prompt)),
        None => None,
    }
}

// ---------------------------------------------------------------------------
// SKILL.md documents
// ---------------------------------------------------------------------------

/// The YAML front matter of a SKILL.md document: after leading whitespace
/// the document opens with `---`, and the front matter runs from there to
/// the next `---`.
pub open spec fn frontmatter_of(content: Seq<char>) -> Option<Seq<char>> {
    let t = trim_start(content);
    if "---"@.is_prefix_of(t) && contains(t.skip(3), "---"@) {
        let rest = t.skip(3);
        let e = choose|e: int|
            crate::text::occurs_at(rest, "---"@, e) && forall|j: int|
                0 <= j < e ==> !#[trigger] crate::text::occurs_at(rest, "---"@, j);
        Some(rest.take(e))
    } else {
        None
    }
}

/// The front matter of a SKILL.md document, if it has one.
pub fn parse_frontmatter(content: &str) -> (r: Option<String>)
    ensures
        match r {
            Some(y) => frontmatter_of(content@) == Some(y@),
            None => frontmatter_of(content@) is None,
        },
{
    let v = chars_of(content);
    let t = trim_start_chars(v.as_slice());
    let dashes: [char; 3] = ['-', '-', '-'];
    proof {
        reveal_strlit("---");
    }
    assert(dashes@ == "---"@);
    if !crate::text::starts_with(t.as_slice(), dashes.as_slice()) {
        return None;
    }
    let rest = slice_chars(t.as_slice(), 3, t.len());
    assert(rest@ == t@.skip(3));
    match find(rest.as_slice(), dashes.as_slice()) {
        Some(e) => {
            proof {
                let k = choose|k: int|
                    crate::text::occurs_at(rest@, "---"@, k) && forall|j: int|
                        0 <= j < k ==> !#[trigger] crate::text::occurs_at(rest@, "---"@, j);
                if k < e {
                    assert(!crate::text::occurs_at(rest@, "---"@, k));
                }
                if k > e {
                    assert(!crate::text::occurs_at(rest@, "---"@, e as int));
                }
            }
            let y = slice_chars(rest.as_slice(), 0, e);
            Some(string_of(y.as_slice()))
        },
        None => None,
    }
}

/// What reading `key` from a YAML document gives: `None` when the document
/// does not parse (with `serde_yaml`) into a mapping, `Some(None)` when the
/// key is missing or not a string, else the string.
pub uninterp spec fn yaml_field_of(yaml: Seq<char>, key: Seq<char>) -> Option<Option<Seq<char>>>;

/// Parses `yaml` with `serde_yaml::from_str` into a `serde_json::Value` and
/// reads the string field `key` of the resulting mapping
/// (`as_object`, `get`, `as_str`). The result is `yaml_field_of` of the two
/// arguments.
#[verifier::external_body]
pub(crate) fn yaml_str_field(yaml: &str, key: &str) -> (r: Option<Option<String>>)
    ensures
        match r {
            None => yaml_field_of(yaml@, key@) is None,
            Some(None) => yaml_field_of(yaml@, key@) == Some(None::<Seq<char>>),
            Some(Some(v)) => yaml_field_of(yaml@, key@) == Some(Some(v@)),
        },
{
    match serde_yaml::from_str::<serde_json::Value>(yaml) {
        Ok(v) => match v.as_object() {
            Some(o) => Some(o.get(key).and_then(|x| x.as_str()).map(|x| x.to_string())),
            None => None,
        },
        Err(_) => None,
    }
}

/// The message when a SKILL.md has no usable front matter.
pub open spec fn missing_frontmatter_message() -> Seq<char> {
    "Invalid SKILL.md: missing YAML frontmatter"@
}

/// What checking a SKILL.md document gives: its name and description, or
/// the reason it is refused.
pub open spec fn skill_check(content: Seq<char>) -> Result<(Seq<char>, Seq<char>), Seq<char>> {
    match frontmatter_of(content) {
        None => Err(missing_frontmatter_message()),
        Some(y) => match yaml_field_of(y, "name"@) {
            None => Err(missing_frontmatter_message()),
            Some(None) => Err("Invalid SKILL.md: missing required field 'name'"@),
            Some(Some(name)) => match yaml_field_of(y, "description"@) {
                Some(Some(d)) => if name.len() == 0 {
                    Err("Invalid SKILL.md: 'name' cannot be empty"@)
                } else {
                    Ok((name, d))
                },
                _ => Err("Invalid SKILL.md: missing required field 'description'"@),
            },
        },
    }
}

/// Checks a SKILL.md document: it needs YAML front matter with a non-empty
/// string `name` and a string `description`, which are returned.
#[verifier::spinoff_prover]
#[verifier::rlimit(30)]
pub fn validate_skill_content(content: &str) -> (r: Result<(String, String), String>)
    ensures
        match skill_check(content@) {
            Ok((n, d)) => r matches Ok((a, b)) && a@ == n && b@ == d,
            Err(m) => r matches Err(e) && e@ == m,
        },
{
    let y = match parse_frontmatter(content) {
        Some(y) => y,
        None => return Err(owned("Invalid SKILL.md: missing YAML frontmatter")),
    };
    let name = match yaml_str_field(y.as_str(), "name") {
        None => return Err(owned("Invalid SKILL.md: missing YAML frontmatter")),
        Some(None) => return Err(owned("Invalid SKILL.md: missing required field 'name'")),
        Some(Some(n)) => n,
    };
    let description = match yaml_str_field(y.as_str(), "description") {
        Some(Some(d)) => d,
        _ => return Err(owned("Invalid SKILL.md: missing required field 'description'")),
    };
    let nv = chars_of(name.as_str());
    if nv.len() == 0 {
        return Err(owned("Invalid SKILL.md: 'name' cannot be empty"));
    }
    Ok((name, description))
}

/// What std's `char::to_uppercase` yields for a character, collected.
pub uninterp spec fn uppercase_of_char(c: char) -> Seq<char>;

/// std `char::to_uppercase`, collected into a string.
#[verifier::external_body]
pub(crate) fn char_to_uppercase(c: char) -> (r: String)
    ensures
        r@ == uppercase_of_char(c),
{
    c.to_uppercase().collect::<String>()
}

/// `s` with its first character uppercased.
pub open spec fn capitalized(s: Seq<char>) -> Seq<char> {
    if s.len() == 0 {
        seq![]
    } else {
        uppercase_of_char(s[0]) + s.drop_first()
    }
}

/// `s` with its first character in upper case.
pub fn capitalize_first(s: &str) -> (r: String)
    ensures
        r@ == capitalized(s@),
{
    let v = chars_of(s);
    if v.len() == 0 {
        return String::new();
    }
    let mut r = char_to_uppercase(v[0]);
    let rest = slice_chars(v.as_slice(), 1, v.len());
    crate::text::push_chars(&mut r, rest.as_slice());
    assert(rest@ == v@.drop_first());
    r
}

/// The SKILL.md written for a built-in skill.
pub open spec fn builtin_skill_document(name: Seq<char>, description: Seq<char>, material: Seq<char>) -> Seq<char> {
    "---\nname: "@ + name + "\ndescription: \""@ + crate::git_service::replace_char(
        description,
        '"',
        "\\\""@,
    ) + "\"\nversion: \"1.0.0\"\n---\n\n# "@ + capitalized(name) + " Skill\n\n"@ + material
}

/// The SKILL.md document of the built-in skill `name`; `None` for other
/// names.
pub fn export_builtin_skill(name: &str) -> (r: Option<String>)
    ensures
        match builtin_skill(name@) {
            Some(s) => r matches Some(d) && d@ == builtin_skill_document(s.0.0, s.0.1, s.1.0),
            None => r is None,
        },
{
    let b = match get_skill(name) {
        Some(s) => s,
        None => return None,
    };
    let mut d = owned("---\nname: ");
    d.append(b.name);
    d.append("\ndescription: \"");
    let esc = crate::git_service::replace_char_with(b.description, '"', "\\\"");
    d.append(esc.as_str());
    d.append("\"\nversion: \"1.0.0\"\n---\n\n# ");
    let cap = capitalize_first(b.name);
    d.append(cap.as_str());
    d.append(" Skill\n\n");
    d.append(b.material_prompt);
    Some(d)
}

/// Whether a skill source URL points at a single SKILL.md file rather than
/// a git repository.
pub open spec fn is_single_file(url: Seq<char>) -> bool {
    ||| ".md"@.is_suffix_of(lowercase_of(url))
    ||| contains(url, "raw.githubusercontent.com"@)
    ||| contains(url, "/raw/"@)
}

/// Whether `url` is downloaded as a single file (see `is_single_file`).
pub fn is_single_file_url(url: &str) -> (r: bool)
    ensures
        r == is_single_file(url@),
        crate::text::is_ascii_text(url@) ==> r == (".md"@.is_suffix_of(crate::text::ascii_lowered(url@)) || contains(
            url@,
            "raw.githubusercontent.com"@,
        ) || contains(url@, "/raw/"@)),
{
    let lower = to_lowercase(url);
    str_ends_with(lower.as_str(), ".md") || str_contains(url, "raw.githubusercontent.com")
        || str_contains(url, "/raw/")
}

// ---------------------------------------------------------------------------
// The skill list
// ---------------------------------------------------------------------------

/// A skill as listed to users.
pub struct SkillInfo {
    pub name: String,
    pub description: String,
    pub source: String,
    pub installed_at: Option<String>,
}

/// A skill with its SKILL.md content.
pub struct ResolvedSkill {
    pub name: String,
    pub description: String,
    pub source: String,
    pub content: String,
    pub installed_at: Option<String>,
}

/// A skill read from the SKILL.md stored under `name`: nothing when the
/// document has no front matter that is a YAML mapping; else its name (the
/// directory's when the front matter gives none), its description (empty
/// when none), its source, its content and, for a skill that is not built
/// in, the file's modification time.
pub fn resolved_from_file(name: &str, content: String, modified: Option<String>) -> (r: Option<ResolvedSkill>)
    ensures
        match frontmatter_of(content@) {
            None => r is None,
            Some(y) => match yaml_field_of(y, "name"@) {
                None => r is None,
                Some(n) => r matches Some(s) && s.name@ == (match n {
                    Some(v) => v,
                    None => name@,
                }) && s.description@ == (match yaml_field_of(y, "description"@) {
                    Some(Some(d)) => d,
                    _ => Seq::<char>::empty(),
                }) && s.source@ == source_of(name@) && s.content == content && s.installed_at == (if builtin_skill(
                    name@,
                ) is Some {
                    None
                } else {
                    modified
                }),
            },
        },
{
    let y = match parse_frontmatter(content.as_str()) {
        Some(y) => y,
        None => return None,
    };
    let n = match yaml_str_field(y.as_str(), "name") {
        None => return None,
        Some(Some(v)) => v,
        Some(None) => owned(name),
    };
    let d = match yaml_str_field(y.as_str(), "description") {
        Some(Some(v)) => v,
        _ => String::new(),
    };
    let builtin = is_builtin_skill(name);
    Some(ResolvedSkill {
        name: n,
        description: d,
        source: if builtin { owned("builtin") } else { owned("user") },
        content,
        installed_at: if builtin { None } else { modified },
    })
}

/// A built-in skill with the content of its exported SKILL.md; nothing for
/// other names.
pub fn resolved_builtin(name: &str, content: String) -> (r: Option<ResolvedSkill>)
    ensures
        match builtin_skill(name@) {
            None => r is None,
            Some(b) => r matches Some(s) && s.name@ == b.0.0 && s.description@ == b.0.1 && s.source@
                == "builtin"@ && s.content == content && s.installed_at is None,
        },
{
    match get_skill(name) {
        None => None,
        Some(b) => Some(ResolvedSkill {
            name: owned(b.name),
            description: owned(b.description),
            source: owned("builtin"),
            content,
            installed_at: None,
        }),
    }
}

/// An installed skill directory whose SKILL.md has front matter with a
/// non-empty name: its name, description and modification time.
pub struct SkillEntry {
    pub name: String,
    pub description: String,
    pub modified: Option<String>,
}

/// The entry for an installed skill directory whose SKILL.md holds
/// `content`: nothing when the document has no front matter that is a YAML
/// mapping, or no non-empty string `name`; else that name, the string
/// `description` (empty when there is none) and the file's modification time.
pub fn skill_entry(content: &str, modified: Option<String>) -> (r: Option<SkillEntry>)
    ensures
        match frontmatter_of(content@) {
            None => r is None,
            Some(y) => match yaml_field_of(y, "name"@) {
                Some(Some(n)) => if n.len() > 0 {
                    r matches Some(e) && e.name@ == n && e.description@ == (match yaml_field_of(
                        y,
                        "description"@,
                    ) {
                        Some(Some(d)) => d,
                        _ => Seq::<char>::empty(),
                    }) && e.modified == modified
                } else {
                    r is None
                },
                _ => r is None,
            },
        },
{
    let y = match parse_frontmatter(content) {
        Some(y) => y,
        None => return None,
    };
    let name = match yaml_str_field(y.as_str(), "name") {
        Some(Some(n)) => n,
        _ => return None,
    };
    let nv = chars_of(name.as_str());
    if nv.len() == 0 {
        return None;
    }
    let description = match yaml_str_field(y.as_str(), "description") {
        Some(Some(d)) => d,
        _ => String::new(),
    };
    Some(SkillEntry { name, description, modified })
}

/// The view of a listed skill.
pub open spec fn info_view(s: SkillInfo) -> (Seq<char>, Seq<char>, Seq<char>, Option<Seq<char>>) {
    (
        s.name@,
        s.description@,
        s.source@,
        match s.installed_at {
            Some(t) => Some(t@),
            None => None,
        },
    )
}

/// Where a skill comes from.
pub open spec fn source_of(name: Seq<char>) -> Seq<char> {
    if builtin_skill(name) is Some {
        "builtin"@
    } else {
        "user"@
    }
}

/// How an installed skill is listed: built-in names keep no install time.
pub open spec fn installed_view(e: SkillEntry) -> (Seq<char>, Seq<char>, Seq<char>, Option<Seq<char>>) {
    (
        e.name@,
        e.description@,
        source_of(e.name@),
        if builtin_skill(e.name@) is Some {
            None
        } else {
            match e.modified {
                Some(t) => Some(t@),
                None => None,
            }
        },
    )
}

/// Whether an installed entry carries the name `n`.
pub open spec fn installed_has(entries: Seq<SkillEntry>, n: Seq<char>) -> bool {
    exists|i: int| 0 <= i < entries.len() && #[trigger] entries[i].name@ == n
}

/// Built-in skills with no installed entry of the same name, in table order.
pub open spec fn missing_builtins(entries: Seq<SkillEntry>, names: Seq<Seq<char>>) -> Seq<(Seq<char>, Seq<char>, Seq<char>, Option<Seq<char>>)>
    decreases names.len(),
{
    if names.len() == 0 {
        seq![]
    } else {
        let prev = missing_builtins(entries, names.drop_last());
        let n = names.last();
        if installed_has(entries, n) {
            prev
        } else {
            prev.push((n, builtin_skill(n).unwrap().0.1, "builtin"@, None))
        }
    }
}

/// Every listed skill, before sorting: the installed ones, then the
/// built-in ones not installed.
pub open spec fn listed_skills(entries: Seq<SkillEntry>) -> Seq<(Seq<char>, Seq<char>, Seq<char>, Option<Seq<char>>)> {
    entries.map_values(|e: SkillEntry| installed_view(e)) + missing_builtins(entries, builtin_skill_names())
}

/// Whether a listed skill carries the name `n`.
pub open spec fn lists_name(v: Seq<(Seq<char>, Seq<char>, Seq<char>, Option<Seq<char>>)>, n: Seq<char>) -> bool {
    exists|i: int| 0 <= i < v.len() && (#[trigger] v[i]).0 == n
}

proof fn lemma_missing_builtins_cover(entries: Seq<SkillEntry>, names: Seq<Seq<char>>, n: Seq<char>)
    requires
        names.contains(n),
        !installed_has(entries, n),
    ensures
        lists_name(missing_builtins(entries, names), n),
    decreases names.len(),
{
    let prev = missing_builtins(entries, names.drop_last());
    if names.last() == n {
        let r = missing_builtins(entries, names);
        assert(r[r.len() - 1].0 == n);
    } else {
        let k = names.index_of(n);
        assert(names.drop_last()[k] == n);
        lemma_missing_builtins_cover(entries, names.drop_last(), n);
        let i = choose|i: int| 0 <= i < prev.len() && (#[trigger] prev[i]).0 == n;
        let r = missing_builtins(entries, names);
        if !installed_has(entries, names.last()) {
            assert(r[i] == prev[i]);
        }
    }
}

/// The skill list names every built-in skill, whether or not it is
/// installed, and every installed skill.
pub proof fn law_list_includes_builtins(entries: Seq<SkillEntry>, n: Seq<char>)
    requires
        builtin_skill_names().contains(n) || installed_has(entries, n),
    ensures
        lists_name(listed_skills(entries), n),
{
    let inst = entries.map_values(|e: SkillEntry| installed_view(e));
    let all = listed_skills(entries);
    if installed_has(entries, n) {
        let i = choose|i: int| 0 <= i < entries.len() && #[trigger] entries[i].name@ == n;
        assert(all[i] == inst[i]);
    } else {
        lemma_missing_builtins_cover(entries, builtin_skill_names(), n);
        let m = missing_builtins(entries, builtin_skill_names());
        let j = choose|j: int| 0 <= j < m.len() && (#[trigger] m[j]).0 == n;
        assert(all[inst.len() + j] == m[j]);
    }
}

/// `a` sorts before or together with `b`: lexicographic order of code points,
/// which is how std orders `String`s.
pub open spec fn lex_le(a: Seq<char>, b: Seq<char>) -> bool
    decreases a.len(),
{
    if a.len() == 0 {
        true
    } else if b.len() == 0 {
        false
    } else if a[0] != b[0] {
        a[0] < b[0]
    } else {
        lex_le(a.drop_first(), b.drop_first())
    }
}

pub proof fn lemma_lex_total(a: Seq<char>, b: Seq<char>)
    ensures
        lex_le(a, b) || lex_le(b, a),
    decreases a.len(),
{
    if a.len() > 0 && b.len() > 0 && a[0] == b[0] {
        lemma_lex_total(a.drop_first(), b.drop_first());
    }
}

pub proof fn lemma_lex_trans(a: Seq<char>, b: Seq<char>, c: Seq<char>)
    requires
        lex_le(a, b),
        lex_le(b, c),
    ensures
        lex_le(a, c),
    decreases a.len(),
{
    if a.len() > 0 && b.len() > 0 && c.len() > 0 && a[0] == b[0] && b[0] == c[0] {
        lemma_lex_trans(a.drop_first(), b.drop_first(), c.drop_first());
    }
}

/// Whether `a` sorts before or together with `b`.
pub fn lex_le_chars(a: &[char], b: &[char]) -> (r: bool)
    ensures
        r == lex_le(a@, b@),
{
    let mut i: usize = 0;
    assert(a@.skip(0) == a@ && b@.skip(0) == b@);
    loop
        invariant
            i <= a.len(),
            i <= b.len(),
            lex_le(a@, b@) == lex_le(a@.skip(i as int), b@.skip(i as int)),
        decreases a.len() - i,
    {
        if i == a.len() {
            return true;
        }
        if i == b.len() {
            return false;
        }
        if a[i] != b[i] {
            return a[i] < b[i];
        }
        assert(a@.skip(i as int).drop_first() == a@.skip(i + 1));
        assert(b@.skip(i as int).drop_first() == b@.skip(i + 1));
        i += 1;
    }
}

/// A list is in name order.
pub open spec fn sorted_by_name(v: Seq<(Seq<char>, Seq<char>, Seq<char>, Option<Seq<char>>)>) -> bool {
    forall|i: int, j: int| 0 <= i < j < v.len() ==> lex_le(v[i].0, v[j].0)
}

fn info_of_entry(e: &SkillEntry) -> (r: SkillInfo)
    ensures
        info_view(r) == installed_view(*e),
{
    let builtin = is_builtin_skill(e.name.as_str());
    SkillInfo {
        name: e.name.clone(),
        description: e.description.clone(),
        source: if builtin { owned("builtin") } else { owned("user") },
        installed_at: if builtin { None } else { e.modified.clone() },
    }
}

/// Lists the skills: the installed ones (`entries`, read from the skills
/// directory), then the built-in ones that are not installed, sorted by
/// name. A skill whose name is built in is marked `builtin` and keeps no
/// install time; the others are marked `user`.
pub fn list_skills(entries: &Vec<SkillEntry>) -> (r: Vec<SkillInfo>)
    ensures
        r@.map_values(|s: SkillInfo| info_view(s)).to_multiset() == listed_skills(
            entries@,
        ).to_multiset(),
        sorted_by_name(r@.map_values(|s: SkillInfo| info_view(s))),
{
    broadcast use vstd::seq_lib::group_to_multiset_ensures;

    let mut all: Vec<SkillInfo> = Vec::new();
    let mut i: usize = 0;
    while i < entries.len()
        invariant
            i <= entries.len(),
            all@.map_values(|s: SkillInfo| info_view(s)) == entries@.take(i as int).map_values(
                |e: SkillEntry| installed_view(e),
            ),
        decreases entries.len() - i,
    {
        let ghost before = all@.map_values(|s: SkillInfo| info_view(s));
        all.push(info_of_entry(&entries[i]));
        assert(all@.map_values(|s: SkillInfo| info_view(s)) == before.push(installed_view(entries@[i as int])));
        assert(entries@.take(i + 1).map_values(|e: SkillEntry| installed_view(e)) =~= entries@.take(
            i as int,
        ).map_values(|e: SkillEntry| installed_view(e)).push(installed_view(entries@[i as int])));
        i += 1;
    }
    assert(entries@.take(entries.len() as int) == entries@);
    let ghost installed = all@.map_values(|s: SkillInfo| info_view(s));
    let names: [&str; 5] = ["decision", "research", "review", "retrospective", "knowledge_sharing"];
    assert(names@.map_values(|k: &str| k@) =~= builtin_skill_names());
    let ghost nv = names@.map_values(|k: &str| k@);
    let mut k: usize = 0;
    while k < 5
        invariant
            k <= 5,
            nv == names@.map_values(|k: &str| k@),
            nv == builtin_skill_names(),
            all@.map_values(|s: SkillInfo| info_view(s)) == installed + missing_builtins(
                entries@,
                nv.take(k as int),
            ),
        decreases 5 - k,
    {
        assert(nv.take(k + 1).drop_last() == nv.take(k as int));
        assert(nv.take(k + 1).last() == names@[k as int]@);
        let n = names[k];
        let mut seen = false;
        let mut j: usize = 0;
        while j < entries.len()
            invariant
                j <= entries.len(),
                seen == exists|x: int| 0 <= x < j && #[trigger] entries@[x].name@ == n@,
            decreases entries.len() - j,
        {
            if str_eq(entries[j].name.as_str(), n) {
                seen = true;
            }
            j += 1;
        }
        assert(seen == installed_has(entries@, n@));
        if !seen {
            let b = get_skill(n);
            match b {
                Some(b) => {
                    let ghost before = all@.map_values(|s: SkillInfo| info_view(s));
                    all.push(
                        SkillInfo {
                            name: owned(n),
                            description: owned(b.description),
                            source: owned("builtin"),
                            installed_at: None,
                        },
                    );
                    assert(all@.map_values(|s: SkillInfo| info_view(s)) == before.push(
                        (n@, builtin_skill(n@).unwrap().0.1, "builtin"@, None),
                    ));
                    assert(installed + missing_builtins(entries@, nv.take(k + 1)) == (installed
                        + missing_builtins(entries@, nv.take(k as int))).push(
                        (n@, builtin_skill(n@).unwrap().0.1, "builtin"@, None),
                    ));
                },
                None => {
                    assert(false);
                },
            }
        }
        k += 1;
    }
    assert(nv.take(5) == nv);
    sort_by_name(all)
}

/// `v` sorted by name (a stable insertion sort).
pub fn sort_by_name(v: Vec<SkillInfo>) -> (r: Vec<SkillInfo>)
    ensures
        r@.map_values(|s: SkillInfo| info_view(s)).to_multiset() == v@.map_values(
            |s: SkillInfo| info_view(s),
        ).to_multiset(),
        sorted_by_name(r@.map_values(|s: SkillInfo| info_view(s))),
{
    broadcast use vstd::seq_lib::group_to_multiset_ensures;

    let ghost vv = v@.map_values(|s: SkillInfo| info_view(s));
    let mut out: Vec<SkillInfo> = Vec::new();
    let mut rest = v;
    let ghost orig_len = rest.len();
    assert(vv.len() == orig_len);
    let mut done: usize = 0;
    assert(vv.take(0) =~= Seq::<(Seq<char>, Seq<char>, Seq<char>, Option<Seq<char>>)>::empty());
    while rest.len() > 0
        invariant
            vv.len() == done + rest.len(),
            vv.len() == orig_len,
            orig_len <= usize::MAX,
            rest@.map_values(|s: SkillInfo| info_view(s)) == vv.skip(done as int),
            out@.map_values(|s: SkillInfo| info_view(s)).to_multiset() == vv.take(done as int).to_multiset(),
            sorted_by_name(out@.map_values(|s: SkillInfo| info_view(s))),
        decreases rest.len(),
    {
        let ghost old_rest = rest@;
        assert(old_rest.map_values(|s: SkillInfo| info_view(s))[0] == info_view(old_rest[0]));
        let x = rest.remove(0);
        assert(rest@ == old_rest.remove(0));
        assert(rest@.map_values(|s: SkillInfo| info_view(s)) =~= old_rest.map_values(
            |s: SkillInfo| info_view(s),
        ).drop_first());
        let ghost ov = out@.map_values(|s: SkillInfo| info_view(s));
        assert(info_view(x) == vv[done as int]);
        let xn = chars_of(x.name.as_str());
        let mut p: usize = 0;
        while p < out.len() && lex_le_chars(chars_of(out[p].name.as_str()).as_slice(), xn.as_slice())
            invariant
                p <= out.len(),
                ov == out@.map_values(|s: SkillInfo| info_view(s)),
                xn@ == x.name@,
                forall|i: int| 0 <= i < p ==> lex_le(ov[i].0, x.name@),
            decreases out.len() - p,
        {
            p += 1;
        }
        proof {
            if p < out.len() {
                lemma_lex_total(ov[p as int].0, x.name@);
            }
        }
        out.insert(p, x);
        let ghost nv = out@.map_values(|s: SkillInfo| info_view(s));
        assert(nv =~= ov.insert(p as int, info_view(x)));
        proof {
            assert forall|i: int, j: int| 0 <= i < j < nv.len() implies lex_le(nv[i].0, nv[j].0) by {
                if j < p {
                    assert(nv[i] == ov[i] && nv[j] == ov[j]);
                } else if j == p {
                    assert(nv[i] == ov[i]);
                } else if i == p {
                    assert(nv[j] == ov[j - 1]);
                    if j - 1 > p {
                        lemma_lex_trans(x.name@, ov[p as int].0, ov[j - 1].0);
                    }
                } else if i < p {
                    assert(nv[i] == ov[i] && nv[j] == ov[j - 1]);
                } else {
                    assert(nv[i] == ov[i - 1] && nv[j] == ov[j - 1]);
                }
            }
            assert(vv.take(done + 1) =~= vv.take(done as int).push(vv[done as int]));
            vstd::seq_lib::to_multiset_insert(ov, p as int, info_view(x));
            vstd::seq_lib::to_multiset_build(vv.take(done as int), vv[done as int]);
            assert(nv.to_multiset() == ov.to_multiset().insert(info_view(x)));
            assert(vv.skip(done as int).drop_first() =~= vv.skip(done + 1));
        }
        done += 1;
    }
    assert(vv.take(done as int) == vv);
    out
}

/// The message when removing a built-in skill.
pub open spec fn builtin_removal_message() -> Seq<char> {
    "Cannot remove built-in skill"@
}

/// What removing a skill does: whether its directory is deleted, and what
/// the caller is told. A built-in skill is refused (its exported copy is
/// still deleted when it exists); an unknown one is not found; any other is
/// deleted.
pub fn skill_removal(name: &str, exists: bool) -> (r: (bool, Result<(), RingError>))
    ensures
        builtin_skill(name@) is Some ==> r.0 == exists && (r.1 matches Err(RingError::BadRequest(m)) && m@ == builtin_removal_message()),
        builtin_skill(name@) is None && !exists ==> !r.0 && (r.1 matches Err(RingError::NotFound(m)) && m@ == "Skill '"@ + name@ + "' not found"@),
        builtin_skill(name@) is None && exists ==> r.0 && r.1 is Ok,
{
    if is_builtin_skill(name) {
        return (exists, Err(RingError::BadRequest(owned("Cannot remove built-in skill"))));
    }
    if !exists {
        let mut m = owned("Skill '");
        m.append(name);
        m.append("' not found");
        return (false, Err(RingError::NotFound(m)));
    }
    (true, Ok(()))
}

/// The listing of a skill installed at `now`.
pub fn installed_skill_info(name: String, description: String, now: String) -> (r: SkillInfo)
    ensures
        r.name == name,
        r.description == description,
        r.source@ == source_of(name@),
        r.installed_at == Some(now),
{
    let builtin = is_builtin_skill(name.as_str());
    SkillInfo {
        name,
        description,
        source: if builtin { owned("builtin") } else { owned("user") },
        installed_at: Some(now),
    }
}

} // verus!
