//! The Self space's long-term memory: the files it keeps, how facts that a
//! model extracted from a conversation are added to them, when a file needs
//! compressing, and the memory section of the personal prompt.
use vstd::prelude::*;
use vstd::string::*;

use crate::error::RingError;
use crate::text::{
    chars_of, concat_all, contains, is_blank, lemma_concat_all_push, lines, lines_of, owned,
    push_char, push_str, str_contains, str_ends_with, str_eq, trim, utf8_len, utf8_len_exceeds,
};

verus! {

/// The memory files, in the order they are listed and read.
pub open spec fn memory_files() -> Seq<Seq<char>> {
    seq!["user_profile"@, "preferences"@, "active_goals"@, "growth"@]
}

/// How long (in bytes) a memory file may grow before it is compressed.
pub const MAX_FILE_CHARS: usize = 2000;

/// Whether a name is one of the memory files.
pub fn is_memory_file(name: &str) -> (r: bool)
    ensures
        r == memory_files().contains(name@),
{
    let r = str_eq(name, "user_profile") || str_eq(name, "preferences") || str_eq(name, "active_goals")
        || str_eq(name, "growth");
    proof {
        let m = memory_files();
        if r {
            if name@ == m[0] {
            } else if name@ == m[1] {
            } else if name@ == m[2] {
            } else {
                assert(name@ == m[3]);
            }
        } else {
            assert forall|i: int| 0 <= i < m.len() implies m[i] != name@ by {}
        }
    }
    r
}

/// Only the memory files can be read, written or deleted.
pub fn validate_memory_name(name: &str) -> (r: Result<(), RingError>)
    ensures
        r is Ok <==> memory_files().contains(name@),
        r matches Err(e) ==> e matches RingError::BadRequest(m) && m@ == "invalid memory file: "@ + name@,
{
    if is_memory_file(name) {
        Ok(())
    } else {
        let mut m = owned("invalid memory file: ");
        push_str(&mut m, name);
        Err(RingError::BadRequest(m))
    }
}

/// The heading of a memory file in prompts.
pub open spec fn memory_label(name: Seq<char>) -> Seq<char> {
    if name == "user_profile"@ {
        "用户画像"@
    } else if name == "preferences"@ {
        "偏好"@
    } else if name == "active_goals"@ {
        "当前目标"@
    } else if name == "growth"@ {
        "成长轨迹"@
    } else {
        name
    }
}

/// The heading of a memory file in prompts (see `memory_label`).
pub fn label_of(name: &str) -> (r: String)
    ensures
        r@ == memory_label(name@),
{
    if str_eq(name, "user_profile") {
        owned("用户画像")
    } else if str_eq(name, "preferences") {
        owned("偏好")
    } else if str_eq(name, "active_goals") {
        owned("当前目标")
    } else if str_eq(name, "growth") {
        owned("成长轨迹")
    } else {
        owned(name)
    }
}

/// How a memory file is listed: whether it exists, how many lines that are
/// not blank it has, and its size in bytes.
pub struct MemoryFileInfo {
    pub name: String,
    pub exists: bool,
    pub line_count: usize,
    pub size: usize,
}

pub open spec fn nonblank_count(ls: Seq<Seq<char>>) -> nat
    decreases ls.len(),
{
    if ls.len() == 0 {
        0
    } else {
        nonblank_count(ls.drop_last()) + if trim(ls.last()).len() > 0 {
            1nat
        } else {
            0nat
        }
    }
}

/// The listing of a memory file from its content (empty when missing).
pub fn memory_file_info(name: &str, content: &str, present: bool) -> (r: MemoryFileInfo)
    requires
        vstd::utf8::encode_utf8(content@).len() <= usize::MAX,
    ensures
        r.name@ == name@,
        r.exists == present,
        r.line_count == if present {
            nonblank_count(lines_of(content@))
        } else {
            0
        },
        r.size == vstd::utf8::encode_utf8(content@).len(),
{
    let mut count: usize = 0;
    if present {
        let cs = chars_of(content);
        let ls = lines(cs.as_slice());
        let ghost lv = ls@.map_values(|w: Vec<char>| w@);
        let mut i: usize = 0;
        while i < ls.len()
            invariant
                i <= ls@.len(),
                lv == ls@.map_values(|w: Vec<char>| w@),
                count == nonblank_count(lv.take(i as int)),
                count <= i,
            decreases ls@.len() - i,
        {
            proof {
                assert(lv.take(i + 1).drop_last() =~= lv.take(i as int));
                assert(lv.take(i + 1).last() == ls@[i as int]@);
            }
            let s = crate::text::string_of(ls[i].as_slice());
            if !is_blank(s.as_str()) {
                count = count + 1;
            }
            i += 1;
        }
        proof {
            assert(lv.take(lv.len() as int) =~= lv);
        }
    }
    MemoryFileInfo { name: owned(name), exists: present, line_count: count, size: content.len() }
}

/// The memory section of the personal prompt: each memory file that exists
/// and is not blank, under its heading; nothing when there is none.
pub open spec fn memory_section(f: (Seq<char>, Option<Seq<char>>)) -> Seq<char> {
    match f.1 {
        Some(c) => if trim(c).len() > 0 {
            "### "@ + memory_label(f.0) + "\n"@ + c + "\n\n"@
        } else {
            Seq::empty()
        },
        None => Seq::empty(),
    }
}

pub open spec fn file_texts(files: Seq<(String, Option<String>)>) -> Seq<(Seq<char>, Option<Seq<char>>)> {
    files.map_values(
        |f: (String, Option<String>)|
            (
                f.0@,
                match f.1 {
                    Some(c) => Some(c@),
                    None => None,
                },
            ),
    )
}

/// The memory section from the files' names and contents (none when a file
/// is missing).
pub fn memory_context(files: &Vec<(String, Option<String>)>) -> (r: String)
    ensures
        concat_all(file_texts(files@).map_values(|f: (Seq<char>, Option<Seq<char>>)| memory_section(f))).len()
            == 0 ==> r@.len() == 0,
        concat_all(file_texts(files@).map_values(|f: (Seq<char>, Option<Seq<char>>)| memory_section(f))).len()
            > 0 ==> r@ == "## 长期记忆\n\n"@ + concat_all(
            file_texts(files@).map_values(|f: (Seq<char>, Option<Seq<char>>)| memory_section(f)),
        ),
{
    let mut ctx = String::new();
    let mut i: usize = 0;
    while i < files.len()
        invariant
            i <= files@.len(),
            ctx@ == concat_all(
                file_texts(files@.take(i as int)).map_values(|f: (Seq<char>, Option<Seq<char>>)| memory_section(f)),
            ),
        decreases files@.len() - i,
    {
        let ghost before = ctx@;
        match &files[i].1 {
            Some(c) => {
                if !is_blank(c.as_str()) {
                    let label = label_of(files[i].0.as_str());
                    push_str(&mut ctx, "### ");
                    push_str(&mut ctx, label.as_str());
                    push_str(&mut ctx, "\n");
                    push_str(&mut ctx, c.as_str());
                    push_str(&mut ctx, "\n\n");
                } else {
                    proof {
                        assert(before + Seq::<char>::empty() =~= before);
                    }
                }
            },
            None => {
                proof {
                    assert(before + Seq::<char>::empty() =~= before);
                }
            },
        }
        proof {
            let g = |f: (Seq<char>, Option<Seq<char>>)| memory_section(f);
            let ft = file_texts(files@.take(i as int));
            let ft1 = file_texts(files@.take(i + 1));
            let e = file_texts(files@)[i as int];
            assert(ft1 =~= ft.push(e));
            assert(ft1.map_values(g) =~= ft.map_values(g).push(memory_section(e)));
            lemma_concat_all_push(ft.map_values(g), memory_section(e));
        }
        i += 1;
    }
    proof {
        assert(files@.take(files@.len() as int) =~= files@);
    }
    if ctx.as_str().is_empty() {
        ctx
    } else {
        let mut r = owned("## 长期记忆\n\n");
        push_str(&mut r, ctx.as_str());
        r
    }
}

/// The memory file that a fact of a category goes to; none for other
/// categories.
pub fn fact_file(category: &str) -> (r: Option<&'static str>)
    ensures
        category@ == "user_profile"@ ==> (r matches Some(f) && f@ == "user_profile"@),
        category@ == "preferences"@ ==> (r matches Some(f) && f@ == "preferences"@),
        category@ == "goals"@ ==> (r matches Some(f) && f@ == "active_goals"@),
        category@ == "growth"@ ==> (r matches Some(f) && f@ == "growth"@),
        !(category@ == "user_profile"@ || category@ == "preferences"@ || category@ == "goals"@
            || category@ == "growth"@) ==> r is None,
{
    proof {
        reveal_strlit("user_profile");
        reveal_strlit("preferences");
        reveal_strlit("goals");
        reveal_strlit("growth");
        assert("goals"@.len() == 5 && "growth"@.len() == 6 && "preferences"@.len() == 11
            && "user_profile"@.len() == 12);
    }
    if str_eq(category, "user_profile") {
        Some("user_profile")
    } else if str_eq(category, "preferences") {
        Some("preferences")
    } else if str_eq(category, "goals") {
        Some("active_goals")
    } else if str_eq(category, "growth") {
        Some("growth")
    } else {
        None
    }
}

/// A memory file with a fact added: unchanged (nothing to write) when the
/// file mentions the fact already; otherwise the fact as a list item on a
/// line of its own at the end.
pub open spec fn with_fact(content: Seq<char>, fact: Seq<char>) -> Option<Seq<char>> {
    if contains(content, fact) {
        None
    } else if content.len() > 0 && content.last() != '\n' {
        Some(content + seq!['\n'] + "- "@ + fact + seq!['\n'])
    } else {
        Some(content + "- "@ + fact + seq!['\n'])
    }
}

/// A memory file with a fact added (see `with_fact`).
pub fn add_fact(content: &str, fact: &str) -> (r: Option<String>)
    ensures
        match r {
            Some(c) => with_fact(content@, fact@) == Some(c@),
            None => with_fact(content@, fact@) is None,
        },
{
    if str_contains(content, fact) {
        return None;
    }
    let mut c = owned(content);
    if !content.is_empty() && !str_ends_with(content, "\n") {
        push_char(&mut c, '\n');
    }
    push_str(&mut c, "- ");
    push_str(&mut c, fact);
    push_char(&mut c, '\n');
    proof {
        reveal_strlit("\n");
        if content@.len() > 0 {
            assert("\n"@.is_suffix_of(content@) == (content@.last() == '\n')) by {
                if "\n"@.is_suffix_of(content@) {
                    assert(content@.subrange(content@.len() - 1, content@.len() as int)[0] == content@.last());
                } else {
                    assert(content@.subrange(content@.len() - 1, content@.len() as int) =~= seq![content@.last()]);
                }
            }
        }
    }
    Some(c)
}

/// A fact once added is mentioned by the file, so adding it again changes
/// nothing.
pub proof fn law_fact_added_once(content: Seq<char>, fact: Seq<char>)
    requires
        with_fact(content, fact) is Some,
    ensures
        with_fact(with_fact(content, fact)->0, fact) is None,
{
    reveal_strlit("- ");
    assert("- "@.len() == 2);
    let c = with_fact(content, fact)->0;
    let k: int = if content.len() > 0 && content.last() != '\n' {
        content.len() + 3int
    } else {
        content.len() + 2int
    };
    assert(c.subrange(k, k + fact.len() as int) =~= fact);
    assert(crate::text::occurs_at(c, fact, k));
}

/// Whether a memory file has grown past the size to compress it at.
pub fn needs_compression(content: &str, present: bool) -> (r: bool)
    ensures
        r == (present && utf8_len(content@) > 2000),
{
    present && utf8_len_exceeds(chars_of(content).as_slice(), MAX_FILE_CHARS)
}

/// The request that asks a model to extract facts about the user from one
/// exchange.
pub fn extraction_request(user_message: &str, ai_response: &str) -> (r: String)
    ensures
        r@ == "你是记忆提取系统。从以下对话中提取新的或更新的用户事实。\n\n输出 JSON 数组：\n[{\"fact\": \"...\", \"category\": \"user_profile|preferences|goals|growth\"}]\n\n规则：\n- 只提取明确的用户事实，不提取 AI 的内容\n- 跳过问候、闲聊、没有答案的问题\n- category 必须是 user_profile（用户身份/背景/技能）、preferences（偏好/习惯）、goals（目标/任务）、growth（成就/学习/进步/里程碑）之一\n- 如果没有新事实，输出空数组 []\n- 每个事实用一句话概括\n\n用户说："@
            + user_message@ + "\n\nAI 回复："@ + ai_response@,
{
    let mut r = owned(
        "你是记忆提取系统。从以下对话中提取新的或更新的用户事实。\n\n输出 JSON 数组：\n[{\"fact\": \"...\", \"category\": \"user_profile|preferences|goals|growth\"}]\n\n规则：\n- 只提取明确的用户事实，不提取 AI 的内容\n- 跳过问候、闲聊、没有答案的问题\n- category 必须是 user_profile（用户身份/背景/技能）、preferences（偏好/习惯）、goals（目标/任务）、growth（成就/学习/进步/里程碑）之一\n- 如果没有新事实，输出空数组 []\n- 每个事实用一句话概括\n\n用户说：",
    );
    push_str(&mut r, user_message);
    push_str(&mut r, "\n\nAI 回复：");
    push_str(&mut r, ai_response);
    r
}

/// The system prompt of fact extraction.
pub const EXTRACTION_SYSTEM: &'static str = "你是记忆提取系统，只输出 JSON 数组，不要其他内容。";

/// The system prompt of memory compression.
pub const COMPRESSION_SYSTEM: &'static str = "你是记忆压缩系统，只输出精简后的 markdown 要点。";

/// The request that asks a model to compress a memory file.
pub fn compression_request(name: &str, content: &str) -> (r: String)
    ensures
        r@ == "以下是 Self AI 的「"@ + memory_label(name@)
            + "」记忆文件，内容过长需要压缩。\n请重写为简洁的要点列表，保留最重要的信息，删除冗余和过时内容。\n只输出 markdown 要点，不要其他内容。\n\n原始内容：\n"@
            + content@,
{
    let mut r = owned("以下是 Self AI 的「");
    let l = label_of(name);
    push_str(&mut r, l.as_str());
    push_str(
        &mut r,
        "」记忆文件，内容过长需要压缩。\n请重写为简洁的要点列表，保留最重要的信息，删除冗余和过时内容。\n只输出 markdown 要点，不要其他内容。\n\n原始内容：\n",
    );
    push_str(&mut r, content);
    r
}

} // verus!
