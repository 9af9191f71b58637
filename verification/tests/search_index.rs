use ring_core::search::{format_search_context, is_cjk, normalize_cjk, sanitize_fts_query, SearchRow};

#[test]
fn test_normalize_cjk_pure() {
    let result = normalize_cjk("这是知识库");
    let tokens: Vec<&str> = result.split_whitespace().collect();
    assert!(tokens.contains(&"这"));
    assert!(tokens.contains(&"是"));
    assert!(tokens.contains(&"知"));
    assert!(tokens.contains(&"识"));
    assert!(tokens.contains(&"库"));
    assert!(tokens.contains(&"这是"));
    assert!(tokens.contains(&"知识"));
    assert!(tokens.contains(&"识库"));
}

#[test]
fn test_normalize_cjk_mixed() {
    let result = normalize_cjk("hello世界test");
    let tokens: Vec<&str> = result.split_whitespace().collect();
    assert!(tokens.contains(&"hello"));
    assert!(tokens.contains(&"世"));
    assert!(tokens.contains(&"界"));
    assert!(tokens.contains(&"世界"));
    assert!(tokens.contains(&"test"));
}

#[test]
fn test_normalize_cjk_no_cjk() {
    let result = normalize_cjk("hello world");
    assert_eq!(result, "hello world");
}

#[test]
fn test_normalize_cjk_single_char() {
    let result = normalize_cjk("中");
    assert_eq!(result, "中");
}

#[test]
fn test_normalize_cjk_empty() {
    let result = normalize_cjk("");
    assert_eq!(result, "");
}

#[test]
fn normalize_cjk_exact_forms() {
    assert_eq!(normalize_cjk("知识"), "知 识 知识");
    assert_eq!(normalize_cjk("a 图谱 b"), "a 图 谱 图谱 b");
    assert_eq!(normalize_cjk("  x   y  "), "x y");
}

#[test]
fn cjk_classification() {
    assert!(is_cjk('中'));
    assert!(is_cjk('か'));
    assert!(is_cjk('한'));
    assert!(!is_cjk('a'));
    assert!(!is_cjk('。'));
}

#[test]
fn fts_query_forms() {
    assert_eq!(sanitize_fts_query("API JWT"), "API* OR JWT*");
    assert_eq!(sanitize_fts_query("a \"b\" (cd)"), "cd*");
    assert_eq!(sanitize_fts_query("x"), "");
    assert_eq!(sanitize_fts_query("中"), "中*");
    assert_eq!(
        sanitize_fts_query("aa bb cc dd ee ff gg hh ii jj kk"),
        "aa* OR bb* OR cc* OR dd* OR ee* OR ff* OR gg* OR hh* OR ii* OR jj*"
    );
}

fn row(content: &str) -> SearchRow {
    SearchRow {
        source_type: "graph_node".to_string(),
        source_id: "node-1".to_string(),
        ring_id: "r1".to_string(),
        ring_name: "Test Ring".to_string(),
        title: "API设计".to_string(),
        content: content.to_string(),
        metadata: "{}".to_string(),
    }
}

#[test]
fn search_context_rendering() {
    assert_eq!(format_search_context(&[]), "");
    let out = format_search_context(&[row("REST API")]);
    assert_eq!(
        out,
        "<cross_ring_context>\n以下是从用户的所有 Ring 中检索到的相关内容：\n\n[Ring: Test Ring > API设计]\ntype: graph_node, id: node-1\nREST API\n\n</cross_ring_context>"
    );
    let long = "x".repeat(600);
    let out = format_search_context(&[row(&long)]);
    assert!(out.contains(&format!("{}...", "x".repeat(500))));
    assert!(!out.contains(&"x".repeat(501)));
}
