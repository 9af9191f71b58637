//! Background work around a ring's assistant: the short-lived cache of
//! cross-ring answers, the group documents that are kept up to date after
//! conversations, and the materials prepared for a new session.
use vstd::prelude::*;
use vstd::string::*;

use crate::error::RingError;
use crate::text::{chars_of, join, join_chars, owned, push_str, str_eq, string_of, trim};

verus! {

// ---------------------------------------------------------------------------
// A cache with expiry
// ---------------------------------------------------------------------------

/// How long, in seconds, a cached answer stays fresh.
pub const CACHE_TTL_SECS: u64 = 300;

/// Cached answers by key, each with the time (in seconds) it was stored.
pub struct TtlCache {
    pub entries: Vec<(String, String, u64)>,
}

/// The entry stored last under a key, as (value, time).
pub open spec fn cached(es: Seq<(String, String, u64)>, key: Seq<char>) -> Option<(Seq<char>, u64)>
    decreases es.len(),
{
    if es.len() == 0 {
        None
    } else if es.last().0@ == key {
        Some((es.last().1@, es.last().2))
    } else {
        cached(es.drop_last(), key)
    }
}

/// What a lookup at time `now` gives: the value stored under the key when
/// it was stored less than the lifetime ago.
pub open spec fn fresh(es: Seq<(String, String, u64)>, key: Seq<char>, now: u64) -> Option<Seq<char>> {
    match cached(es, key) {
        Some((v, t)) => if t <= now && now - t < 300 {
            Some(v)
        } else {
            None
        },
        None => None,
    }
}

impl TtlCache {
    /// An empty cache.
    pub fn new() -> (r: TtlCache)
        ensures
            r.entries@.len() == 0,
    {
        TtlCache { entries: Vec::new() }
    }

    /// The fresh value under a key at time `now`, if any.
    pub fn get(&self, key: &str, now: u64) -> (r: Option<String>)
        ensures
            match r {
                Some(v) => fresh(self.entries@, key@, now) == Some(v@),
                None => fresh(self.entries@, key@, now) is None,
            },
    {
        let mut i: usize = self.entries.len();
        proof {
            assert(self.entries@.take(i as int) =~= self.entries@);
        }
        while i > 0
            invariant
                i <= self.entries@.len(),
                cached(self.entries@, key@) == cached(self.entries@.take(i as int), key@),
            decreases i,
        {
            proof {
                assert(self.entries@.take(i as int).drop_last() =~= self.entries@.take(i - 1));
                assert(self.entries@.take(i as int).last() == self.entries@[i - 1]);
            }
            if str_eq(self.entries[i - 1].0.as_str(), key) {
                let t = self.entries[i - 1].2;
                if t <= now && now - t < CACHE_TTL_SECS {
                    return Some(self.entries[i - 1].1.clone());
                } else {
                    return None;
                }
            }
            i -= 1;
        }
        proof {
            assert(self.entries@.take(self.entries@.len() as int) =~= self.entries@);
        }
        None
    }

    /// Stores a value under a key at time `now`.
    pub fn put(&mut self, key: &str, value: String, now: u64)
        ensures
            final(self).entries@.drop_last() == old(self).entries@,
            final(self).entries@.len() == old(self).entries@.len() + 1,
            final(self).entries@.last().0@ == key@,
            final(self).entries@.last().1 == value,
            final(self).entries@.last().2 == now,
            forall|k: Seq<char>|
                #[trigger] cached(final(self).entries@, k) == if k == key@ {
                    Some((value@, now))
                } else {
                    cached(old(self).entries@, k)
                },
    {
        let ghost before = self.entries@;
        self.entries.push((owned(key), value, now));
        proof {
            assert(self.entries@.drop_last() =~= before);
        }
    }

    /// Drops every value stored under a key.
    pub fn remove(&mut self, key: &str)
        ensures
            forall|k: Seq<char>|
                #[trigger] cached(final(self).entries@, k) == if k == key@ {
                    None
                } else {
                    cached(old(self).entries@, k)
                },
    {
        let ghost before = self.entries@;
        let mut kept: Vec<(String, String, u64)> = Vec::new();
        let mut i: usize = 0;
        while i < self.entries.len()
            invariant
                i <= self.entries@.len(),
                self.entries@ == before,
                forall|k: Seq<char>|
                    #[trigger] cached(kept@, k) == if k == key@ {
                        None
                    } else {
                        cached(before.take(i as int), k)
                    },
            decreases self.entries@.len() - i,
        {
            let ghost kb = kept@;
            proof {
                assert(before.take(i + 1).drop_last() =~= before.take(i as int));
                assert(before.take(i + 1).last() == before[i as int]);
            }
            let same = str_eq(self.entries[i].0.as_str(), key);
            if !same {
                let e = (self.entries[i].0.clone(), self.entries[i].1.clone(), self.entries[i].2);
                kept.push(e);
            }
            proof {
                let tb = before.take(i + 1);
                assert(tb.drop_last() =~= before.take(i as int));
                assert forall|k: Seq<char>|
                    #[trigger] cached(kept@, k) == if k == key@ {
                        None
                    } else {
                        cached(tb, k)
                    } by {
                    assert(cached(kb, k) == if k == key@ {
                        None
                    } else {
                        cached(before.take(i as int), k)
                    });
                    if !same {
                        assert(kept@.drop_last() =~= kb);
                        assert(kept@.last().0@ == tb.last().0@);
                    } else {
                        assert(kept@ == kb);
                    }
                }
            }
            i += 1;
        }
        proof {
            assert(before.take(before.len() as int) =~= before);
        }
        self.entries = kept;
    }
}

/// A value read from the cache soon after it was stored is the value
/// stored; once removed it is gone.
pub proof fn law_cache_read_after_write(es: Seq<(String, String, u64)>, key: Seq<char>, value: Seq<char>, t: u64, now: u64)
    requires
        cached(es, key) == Some((value, t)),
        t <= now,
        now - t < 300,
    ensures
        fresh(es, key, now) == Some(value),
{
}

/// A new, empty cache of cross-ring answers.
pub fn new_cache() -> (r: TtlCache)
    ensures
        r.entries@.len() == 0,
{
    TtlCache::new()
}

/// The cache key of a user's ring summary.
pub fn summary_key(user_id: &str) -> (r: String)
    ensures
        r@ == "summary:"@ + user_id@,
{
    let mut r = owned("summary:");
    push_str(&mut r, user_id);
    r
}

/// The cache key of a ring's details.
pub fn detail_key(ring_id: &str) -> (r: String)
    ensures
        r@ == "detail:"@ + ring_id@,
{
    let mut r = owned("detail:");
    push_str(&mut r, ring_id);
    r
}

/// The cache key of a ring's graph outline.
pub fn graph_key(ring_id: &str) -> (r: String)
    ensures
        r@ == "graph:"@ + ring_id@,
{
    let mut r = owned("graph:");
    push_str(&mut r, ring_id);
    r
}

/// Forgets what is cached about a ring: its details and its graph outline.
pub fn invalidate_ring(cache: &mut TtlCache, ring_id: &str)
    ensures
        forall|k: Seq<char>|
            #[trigger] cached(final(cache).entries@, k) == if k == "detail:"@ + ring_id@ || k == "graph:"@
                + ring_id@ {
                None
            } else {
                cached(old(cache).entries@, k)
            },
{
    let d = detail_key(ring_id);
    let g = graph_key(ring_id);
    cache.remove(d.as_str());
    cache.remove(g.as_str());
}

/// Forgets a user's cached ring summary.
pub fn invalidate_summary(cache: &mut TtlCache, user_id: &str)
    ensures
        forall|k: Seq<char>|
            #[trigger] cached(final(cache).entries@, k) == if k == "summary:"@ + user_id@ {
                None
            } else {
                cached(old(cache).entries@, k)
            },
{
    let s = summary_key(user_id);
    cache.remove(s.as_str());
}

// ---------------------------------------------------------------------------
// Group documents
// ---------------------------------------------------------------------------

/// Whether the active-context document is refreshed: once the ring has at
/// least three messages.
pub fn refreshes_active_context(message_count: usize) -> (r: bool)
    ensures
        r == (message_count >= 3),
{
    message_count >= 3
}

/// The archive-patterns document with new patterns: the new ones alone at
/// first, else after the old ones and a rule; trimmed.
pub fn merged_patterns(existing: &str, new_patterns: &str) -> (r: String)
    ensures
        r@ == trim(if existing@.len() == 0 {
            new_patterns@
        } else {
            existing@ + "\n\n---\n\n"@ + new_patterns@
        }),
{
    let merged = if existing.is_empty() {
        owned(new_patterns)
    } else {
        let mut m = owned(existing);
        push_str(&mut m, "\n\n---\n\n");
        push_str(&mut m, new_patterns);
        m
    };
    crate::text::str_trim(merged.as_str())
}

/// The corrections document with a new correction: the day's entry first,
/// then what was there; trimmed.
pub fn merged_corrections(existing: Option<&str>, date: &str, detail: &str) -> (r: String)
    ensures
        r@ == trim(match existing {
            Some(e) => "## "@ + date@ + "\n- "@ + detail@ + "\n\n"@ + e@,
            None => "## "@ + date@ + "\n- "@ + detail@,
        }),
{
    let mut entry = owned("## ");
    push_str(&mut entry, date);
    push_str(&mut entry, "\n- ");
    push_str(&mut entry, detail);
    match existing {
        Some(e) => {
            push_str(&mut entry, "\n\n");
            push_str(&mut entry, e);
        },
        None => {},
    }
    crate::text::str_trim(entry.as_str())
}

/// The instruction that asks for the knowledge summary of a ring's graph.
pub const KNOWLEDGE_SUMMARY_PROMPT: &'static str = "基于以下图谱节点和边信息，生成知识库整体摘要。用 Markdown 格式输出，包含以下部分：\n\n## 知识概览\n- 总节点数、边数\n\n## 主要分类\n- 列出主要节点分类及描述\n\n## 近期变化\n- 如果有更新，列出近期变化\n\n图谱数据：\n";

/// An instruction followed, on a new line, by what it applies to.
pub fn instruction_with(instruction: &str, material: &str) -> (r: String)
    ensures
        r@ == instruction@ + "\n"@ + material@,
{
    let mut r = owned(instruction);
    push_str(&mut r, "\n");
    push_str(&mut r, material);
    r
}

// ---------------------------------------------------------------------------
// Session materials
// ---------------------------------------------------------------------------

/// The instruction that asks a model for a session's preparation materials.
pub const MATERIAL_PREP_PROMPT: &'static str = "你正在为一场会议准备材料。请根据以下会议主题、Skill 类型和群组上下文，生成 3-5 条会议准备材料。\n\n每条材料应包含：\n- 类型（context / question / data / reference）\n- 标题\n- 具体内容\n\n请以 JSON 数组格式输出，每条材料格式为：\n{\"item_type\": \"类型\", \"title\": \"标题\", \"content\": \"内容\"}\n\n会议信息：\n";

/// A preparation material of a session.
pub struct Material {
    pub item_type: String,
    pub title: String,
    pub content: String,
}

/// A graph node as the material request describes it.
pub struct NodeBrief {
    pub label: String,
    pub node_type: String,
    pub content: String,
}

pub open spec fn node_brief(n: NodeBrief) -> Seq<char> {
    "- "@ + n.label@ + " ("@ + n.node_type@ + "): "@ + n.content@
}

/// The request for a session's materials: the instruction, the skill, the
/// session's title and description, and the ring's graph one node per line.
pub fn material_request(skill: &str, title: &str, description: &str, nodes: &Vec<NodeBrief>) -> (r: String)
    ensures
        r@ == MATERIAL_PREP_PROMPT@ + "\nSkill: "@ + skill@ + "\n标题: "@ + title@ + "\n描述: "@
            + description@ + "\n\n群组图谱上下文:\n"@ + join(
            nodes@.map_values(|n: NodeBrief| node_brief(n)),
            "\n"@,
        ),
{
    let mut parts: Vec<Vec<char>> = Vec::new();
    let mut i: usize = 0;
    while i < nodes.len()
        invariant
            i <= nodes@.len(),
            parts@.map_values(|w: Vec<char>| w@) == nodes@.take(i as int).map_values(|n: NodeBrief| node_brief(n)),
        decreases nodes@.len() - i,
    {
        let n = &nodes[i];
        let mut line = owned("- ");
        push_str(&mut line, n.label.as_str());
        push_str(&mut line, " (");
        push_str(&mut line, n.node_type.as_str());
        push_str(&mut line, "): ");
        push_str(&mut line, n.content.as_str());
        let ghost before = parts@;
        parts.push(chars_of(line.as_str()));
        proof {
            let f = |w: Vec<char>| w@;
            let g = |n: NodeBrief| node_brief(n);
            assert(parts@.map_values(f) =~= before.map_values(f).push(node_brief(nodes@[i as int])));
            assert(nodes@.take(i + 1).map_values(g) =~= nodes@.take(i as int).map_values(g).push(
                node_brief(nodes@[i as int]),
            ));
        }
        i += 1;
    }
    proof {
        assert(nodes@.take(nodes@.len() as int) =~= nodes@);
    }
    let nl = vec!['\n'];
    proof {
        reveal_strlit("\n");
        assert(nl@ =~= "\n"@);
    }
    let context = join_chars(&parts, nl.as_slice());
    let mut r = owned(MATERIAL_PREP_PROMPT);
    push_str(&mut r, "\nSkill: ");
    push_str(&mut r, skill);
    push_str(&mut r, "\n标题: ");
    push_str(&mut r, title);
    push_str(&mut r, "\n描述: ");
    push_str(&mut r, description);
    push_str(&mut r, "\n\n群组图谱上下文:\n");
    let c = string_of(context.as_slice());
    push_str(&mut r, c.as_str());
    r
}

/// A material from the fields a model gave: type `context`, title
/// `Untitled` and empty content unless given.
pub fn material_from(item_type: Option<&str>, title: Option<&str>, content: Option<&str>) -> (r: Material)
    ensures
        r.item_type@ == match item_type {
            Some(t) => t@,
            None => "context"@,
        },
        r.title@ == match title {
            Some(t) => t@,
            None => "Untitled"@,
        },
        r.content@ == match content {
            Some(c) => c@,
            None => Seq::<char>::empty(),
        },
{
    Material {
        item_type: match item_type {
            Some(t) => owned(t),
            None => owned("context"),
        },
        title: match title {
            Some(t) => owned(t),
            None => owned("Untitled"),
        },
        content: match content {
            Some(c) => owned(c),
            None => String::new(),
        },
    }
}

/// A material's field as a model gave it, or its default.
pub open spec fn field_or(f: Option<String>, d: Seq<char>) -> Seq<char> {
    match f {
        Some(t) => t@,
        None => d,
    }
}

/// The materials stored from a model's list: at most the first five, each
/// with its missing fields defaulted as `material_from` does.
pub fn materials_from(raw: &Vec<(Option<String>, Option<String>, Option<String>)>) -> (r: Vec<Material>)
    ensures
        r@.len() == if raw@.len() < 5 { raw@.len() } else { 5 },
        forall|i: int|
            0 <= i < r@.len() ==> {
                &&& (#[trigger] r@[i]).item_type@ == field_or(raw@[i].0, "context"@)
                &&& r@[i].title@ == field_or(raw@[i].1, "Untitled"@)
                &&& r@[i].content@ == field_or(raw@[i].2, Seq::<char>::empty())
            },
{
    let mut r: Vec<Material> = Vec::new();
    let mut i: usize = 0;
    while i < raw.len() && i < 5
        invariant
            i <= raw@.len(),
            i <= 5,
            r@.len() == i,
            forall|j: int|
                0 <= j < i ==> {
                    &&& (#[trigger] r@[j]).item_type@ == field_or(raw@[j].0, "context"@)
                    &&& r@[j].title@ == field_or(raw@[j].1, "Untitled"@)
                    &&& r@[j].content@ == field_or(raw@[j].2, Seq::<char>::empty())
                },
        decreases raw@.len() - i,
    {
        let (t, ti, c) = &raw[i];
        let m = material_from(
            match t {
                Some(x) => Some(x.as_str()),
                None => None,
            },
            match ti {
                Some(x) => Some(x.as_str()),
                None => None,
            },
            match c {
                Some(x) => Some(x.as_str()),
                None => None,
            },
        );
        r.push(m);
        i += 1;
    }
    r
}

/// The standard materials of a skill, as (type, title, content).
pub open spec fn default_materials(skill: Seq<char>) -> Seq<(Seq<char>, Seq<char>, Seq<char>)> {
    if skill == "decision"@ {
        seq![
            ("context"@, "背景信息"@, "收集与决策相关的背景资料"@),
            ("question"@, "关键问题"@, "明确需要讨论和决策的核心问题"@),
            ("data"@, "备选方案"@, "列出可能的解决方案及其优缺点"@),
            ("reference"@, "决策标准"@, "定义评估和选择方案的标准"@),
        ]
    } else if skill == "research"@ {
        seq![
            ("context"@, "研究背景"@, "阐述研究主题的背景和意义"@),
            ("question"@, "研究问题"@, "明确需要解答的研究问题"@),
            ("data"@, "现有资料"@, "汇总已有的相关研究和数据来源"@),
            ("reference"@, "研究方法"@, "建议采用的研究方法和工具"@),
        ]
    } else if skill == "review"@ {
        seq![
            ("context"@, "审查范围"@, "明确审查的对象和范围"@),
            ("question"@, "审查标准"@, "列出审查的具体标准和检查项"@),
            ("data"@, "现有状态"@, "描述当前的状态和已知问题"@),
            ("reference"@, "参考规范"@, "引用相关的规范和最佳实践"@),
        ]
    } else if skill == "retrospective"@ {
        seq![
            ("context"@, "迭代回顾"@, "回顾本周期的工作内容和目标"@),
            ("question"@, "成功经验"@, "总结本周期做得好的方面"@),
            ("data"@, "改进机会"@, "识别需要改进的问题和挑战"@),
            ("reference"@, "行动项"@, "提出下一步的改进措施"@),
        ]
    } else if skill == "knowledge_sharing"@ {
        seq![
            ("context"@, "知识背景"@, "介绍分享主题的背景信息"@),
            ("question"@, "核心概念"@, "列出需要讲解的关键概念"@),
            ("data"@, "案例素材"@, "准备相关的实例和案例"@),
            ("reference"@, "延伸阅读"@, "提供进一步学习的参考资料"@),
        ]
    } else {
        seq![
            ("context"@, "主题背景"@, "收集与主题相关的背景信息"@),
            ("question"@, "讨论要点"@, "列出需要讨论的关键问题"@),
            ("data"@, "相关资料"@, "汇总已有的相关资料和数据"@),
        ]
    }
}

/// The materials used when the model's answer is no list: the skill's
/// standard materials, each titled after the session.
pub fn fallback_materials(skill: &str, session_title: &str) -> (r: Vec<Material>)
    ensures
        r@.len() == default_materials(skill@).len(),
        forall|i: int|
            0 <= i < r@.len() ==> {
                &&& (#[trigger] r@[i]).item_type@ == default_materials(skill@)[i].0
                &&& r@[i].title@ == session_title@ + " - "@ + default_materials(skill@)[i].1
                &&& r@[i].content@ == default_materials(skill@)[i].2
            },
{
    let defaults: Vec<(&str, &str, &str)> = if str_eq(skill, "decision") {
        vec![
            ("context", "背景信息", "收集与决策相关的背景资料"),
            ("question", "关键问题", "明确需要讨论和决策的核心问题"),
            ("data", "备选方案", "列出可能的解决方案及其优缺点"),
            ("reference", "决策标准", "定义评估和选择方案的标准"),
        ]
    } else if str_eq(skill, "research") {
        vec![
            ("context", "研究背景", "阐述研究主题的背景和意义"),
            ("question", "研究问题", "明确需要解答的研究问题"),
            ("data", "现有资料", "汇总已有的相关研究和数据来源"),
            ("reference", "研究方法", "建议采用的研究方法和工具"),
        ]
    } else if str_eq(skill, "review") {
        vec![
            ("context", "审查范围", "明确审查的对象和范围"),
            ("question", "审查标准", "列出审查的具体标准和检查项"),
            ("data", "现有状态", "描述当前的状态和已知问题"),
            ("reference", "参考规范", "引用相关的规范和最佳实践"),
        ]
    } else if str_eq(skill, "retrospective") {
        vec![
            ("context", "迭代回顾", "回顾本周期的工作内容和目标"),
            ("question", "成功经验", "总结本周期做得好的方面"),
            ("data", "改进机会", "识别需要改进的问题和挑战"),
            ("reference", "行动项", "提出下一步的改进措施"),
        ]
    } else if str_eq(skill, "knowledge_sharing") {
        vec![
            ("context", "知识背景", "介绍分享主题的背景信息"),
            ("question", "核心概念", "列出需要讲解的关键概念"),
            ("data", "案例素材", "准备相关的实例和案例"),
            ("reference", "延伸阅读", "提供进一步学习的参考资料"),
        ]
    } else {
        vec![
            ("context", "主题背景", "收集与主题相关的背景信息"),
            ("question", "讨论要点", "列出需要讨论的关键问题"),
            ("data", "相关资料", "汇总已有的相关资料和数据"),
        ]
    };
    proof {
        assert(defaults@.map_values(|d: (&str, &str, &str)| (d.0@, d.1@, d.2@)) =~= default_materials(skill@));
    }
    let mut r: Vec<Material> = Vec::new();
    let mut i: usize = 0;
    while i < defaults.len()
        invariant
            i <= defaults@.len(),
            defaults@.map_values(|d: (&str, &str, &str)| (d.0@, d.1@, d.2@)) == default_materials(skill@),
            r@.len() == i,
            forall|j: int|
                0 <= j < i ==> {
                    &&& (#[trigger] r@[j]).item_type@ == default_materials(skill@)[j].0
                    &&& r@[j].title@ == session_title@ + " - "@ + default_materials(skill@)[j].1
                    &&& r@[j].content@ == default_materials(skill@)[j].2
                },
        decreases defaults@.len() - i,
    {
        let (t, ti, c) = defaults[i];
        let mut title = owned(session_title);
        push_str(&mut title, " - ");
        push_str(&mut title, ti);
        proof {
            let f = |d: (&str, &str, &str)| (d.0@, d.1@, d.2@);
            assert(defaults@.map_values(f)[i as int] == (t@, ti@, c@));
        }
        r.push(Material { item_type: owned(t), title, content: owned(c) });
        i += 1;
    }
    r
}

} // verus!
