use ring_core::skill::{resolved_builtin, resolved_from_file};
use ring_core::error::RingError;
use ring_core::skill::{
    build_material_system_prompt, build_summary_system_prompt, capitalize_first,
    export_builtin_skill, get_skill, installed_skill_info, is_builtin_skill,
    is_single_file_url, lex_le_chars, list_skills, parse_frontmatter, skill_removal, sort_by_name,
    validate_skill_content, SkillEntry, SkillInfo, DECISION_MATERIAL_PROMPT,
    RESEARCH_SUMMARY_PROMPT,
};

#[test]
fn builtin_skills() {
    for n in ["decision", "research", "review", "retrospective", "knowledge_sharing"] {
        assert!(is_builtin_skill(n));
        assert_eq!(get_skill(n).unwrap().name, n);
    }
    assert!(!is_builtin_skill("discussion"));
    assert!(get_skill("nope").is_none());
}

#[test]
fn material_and_summary_prompts() {
    let p = build_material_system_prompt("decision", "Pick DB", "").unwrap();
    assert!(p.starts_with(DECISION_MATERIAL_PROMPT));
    assert!(p.contains("\n\nSession: Pick DB\nDescription: N/A\n\nAnalyze the topic"));
    let p = build_material_system_prompt("decision", "T", "why").unwrap();
    assert!(p.contains("\nDescription: why\n"));
    assert!(build_material_system_prompt("unknown", "T", "D").is_none());
    assert_eq!(build_summary_system_prompt("research").unwrap(), RESEARCH_SUMMARY_PROMPT);
    assert!(build_summary_system_prompt("other").is_none());
}

#[test]
fn front_matter() {
    assert_eq!(
        parse_frontmatter("  ---\nname: x\n---\nbody"),
        Some("\nname: x\n".to_string())
    );
    assert_eq!(parse_frontmatter("no front matter"), None);
    assert_eq!(parse_frontmatter("---\nunterminated"), None);
}

#[test]
fn yaml_fields() {
    // A name that is not a string counts as missing.
    assert_eq!(
        validate_skill_content("---\nname: 3\ndescription: d\n---\n"),
        Err("Invalid SKILL.md: missing required field 'name'".to_string())
    );
    // Front matter that is no mapping is no front matter.
    assert_eq!(
        validate_skill_content("---\n- a\n- b\n---\n"),
        Err("Invalid SKILL.md: missing YAML frontmatter".to_string())
    );
}

#[test]
fn skill_documents_are_checked() {
    let ok = "---\nname: my-skill\ndescription: does things\n---\n# Body";
    assert_eq!(
        validate_skill_content(ok),
        Ok(("my-skill".to_string(), "does things".to_string()))
    );
    assert_eq!(
        validate_skill_content("# no yaml"),
        Err("Invalid SKILL.md: missing YAML frontmatter".to_string())
    );
    assert_eq!(
        validate_skill_content("---\ndescription: d\n---\n"),
        Err("Invalid SKILL.md: missing required field 'name'".to_string())
    );
    assert_eq!(
        validate_skill_content("---\nname: n\n---\n"),
        Err("Invalid SKILL.md: missing required field 'description'".to_string())
    );
    assert_eq!(
        validate_skill_content("---\nname: \"\"\ndescription: d\n---\n"),
        Err("Invalid SKILL.md: 'name' cannot be empty".to_string())
    );
}

#[test]
fn capitalization() {
    assert_eq!(capitalize_first("ßa"), "SSa");
    assert_eq!(capitalize_first("decision"), "Decision");
    assert_eq!(capitalize_first(""), "");
}

#[test]
fn exported_builtin_document() {
    let d = export_builtin_skill("decision").unwrap();
    assert!(d.starts_with("---\nname: decision\ndescription: \""));
    assert!(d.contains("\"\nversion: \"1.0.0\"\n---\n\n# Decision Skill\n\n"));
    assert!(d.ends_with(DECISION_MATERIAL_PROMPT));
    assert!(export_builtin_skill("mine").is_none());
    // The exported document validates back to the skill's name.
    let (name, _) = validate_skill_content(&d).unwrap();
    assert_eq!(name, "decision");
}

#[test]
fn single_file_urls() {
    assert!(is_single_file_url("https://x.io/SKILL.MD"));
    assert!(is_single_file_url("https://raw.githubusercontent.com/a/b/main/x"));
    assert!(is_single_file_url("https://gitlab.com/a/b/-/raw/main/x"));
    assert!(!is_single_file_url("https://github.com/a/b"));
}

#[test]
fn lexicographic_order() {
    let a: Vec<char> = "abc".chars().collect();
    let b: Vec<char> = "abd".chars().collect();
    let p: Vec<char> = "ab".chars().collect();
    assert!(lex_le_chars(&a, &b));
    assert!(!lex_le_chars(&b, &a));
    assert!(lex_le_chars(&p, &a));
    assert!(lex_le_chars(&a, &a));
}

fn entry(name: &str, modified: Option<&str>) -> SkillEntry {
    SkillEntry {
        name: name.to_string(),
        description: format!("{} skill", name),
        modified: modified.map(|m| m.to_string()),
    }
}

#[test]
fn skill_list_includes_builtins_sorted() {
    let list = list_skills(&vec![entry("zeta", Some("t1")), entry("review", Some("t2"))]);
    let names: Vec<&str> = list.iter().map(|s| s.name.as_str()).collect();
    assert_eq!(
        names,
        vec!["decision", "knowledge_sharing", "research", "retrospective", "review", "zeta"]
    );
    let review = list.iter().find(|s| s.name == "review").unwrap();
    assert_eq!(review.source, "builtin");
    assert_eq!(review.description, "review skill");
    assert_eq!(review.installed_at, None);
    let zeta = list.iter().find(|s| s.name == "zeta").unwrap();
    assert_eq!(zeta.source, "user");
    assert_eq!(zeta.installed_at, Some("t1".to_string()));
}

#[test]
fn sorting_skill_infos() {
    let info = |n: &str| SkillInfo {
        name: n.to_string(),
        description: String::new(),
        source: "user".to_string(),
        installed_at: None,
    };
    let v = sort_by_name(vec![info("b"), info("a"), info("c"), info("a")]);
    let names: Vec<&str> = v.iter().map(|s| s.name.as_str()).collect();
    assert_eq!(names, vec!["a", "a", "b", "c"]);
}

#[test]
fn removing_skills() {
    let (delete, r) = skill_removal("decision", true);
    assert!(delete);
    assert_eq!(r, Err(RingError::BadRequest("Cannot remove built-in skill".to_string())));
    let (delete, r) = skill_removal("nonexistent", false);
    assert!(!delete);
    assert_eq!(r, Err(RingError::NotFound("Skill 'nonexistent' not found".to_string())));
    let (delete, r) = skill_removal("mine", true);
    assert!(delete);
    assert_eq!(r, Ok(()));
}

#[test]
fn installed_info() {
    let i = installed_skill_info("mine".to_string(), "d".to_string(), "now".to_string());
    assert_eq!(i.source, "user");
    assert_eq!(i.installed_at, Some("now".to_string()));
    let i = installed_skill_info("review".to_string(), "d".to_string(), "now".to_string());
    assert_eq!(i.source, "builtin");
}

#[test]
fn resolving_skills() {
    let doc = "---\nname: mine\ndescription: d\n---\nbody".to_string();
    let r = resolved_from_file("dir", doc.clone(), Some("t".to_string())).unwrap();
    assert_eq!(r.name, "mine");
    assert_eq!(r.description, "d");
    assert_eq!(r.source, "user");
    assert_eq!(r.content, doc);
    assert_eq!(r.installed_at, Some("t".to_string()));
    let r = resolved_from_file("review", "---\nx: 1\n---\n".to_string(), Some("t".to_string())).unwrap();
    assert_eq!(r.name, "review");
    assert_eq!(r.description, "");
    assert_eq!(r.source, "builtin");
    assert_eq!(r.installed_at, None);
    assert!(resolved_from_file("dir", "no front matter".to_string(), None).is_none());
    let b = resolved_builtin("decision", "C".to_string()).unwrap();
    assert_eq!(b.name, "decision");
    assert_eq!(b.source, "builtin");
    assert!(resolved_builtin("mine", "C".to_string()).is_none());
}

#[test]
fn skill_entry_reads_front_matter() {
    let doc = "---\nname: my-skill\ndescription: does things\n---\nbody";
    let e = ring_core::skill::skill_entry(doc, Some("2024-01-01T00:00:00+00:00".to_string())).unwrap();
    assert_eq!(e.name, "my-skill");
    assert_eq!(e.description, "does things");
    assert_eq!(e.modified, Some("2024-01-01T00:00:00+00:00".to_string()));
}

#[test]
fn skill_entry_without_description() {
    let e = ring_core::skill::skill_entry("---\nname: bare\n---\n", None).unwrap();
    assert_eq!(e.name, "bare");
    assert_eq!(e.description, "");
    assert_eq!(e.modified, None);
}

#[test]
fn skill_entry_skips_unusable_documents() {
    assert!(ring_core::skill::skill_entry("no front matter", None).is_none());
    assert!(ring_core::skill::skill_entry("---\nname: \"\"\n---\n", None).is_none());
    assert!(ring_core::skill::skill_entry("---\ndescription: x\n---\n", None).is_none());
    assert!(ring_core::skill::skill_entry("---\nname: 3\n---\n", None).is_none());
    assert!(ring_core::skill::skill_entry("---\n- a\n- b\n---\n", None).is_none());
}
