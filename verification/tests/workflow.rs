use ring_core::error::RingError;
use ring_core::workflow::{
    check_body_size, check_fetch_url, existing_labels, extract_html_title, extract_main_content,
    fetch_url_report, file_message_missing, is_url_allowed, strip_html, truncate_for_model,
    FetchUrlArgs,
};

#[test]
fn internal_addresses_are_blocked() {
    assert!(is_url_allowed("https://example.com/page"));
    assert!(!is_url_allowed("http://LOCALHOST:8080"));
    assert!(!is_url_allowed("http://127.0.0.1/"));
    assert!(!is_url_allowed("http://10.0.0.5/"));
    assert!(!is_url_allowed("http://172.20.1.1/"));
    assert!(is_url_allowed("http://172.32.1.1/"));
    assert!(!is_url_allowed("http://192.168.1.1/"));
    assert!(!is_url_allowed("http://[::1]:80/"));
}

#[test]
fn fetch_url_checks() {
    assert_eq!(check_fetch_url("https://example.com"), Ok(()));
    assert_eq!(
        check_fetch_url("ftp://example.com"),
        Err(RingError::BadRequest("URL must start with http:// or https://".to_string()))
    );
    assert_eq!(
        check_fetch_url("http://localhost"),
        Err(RingError::BadRequest("Access to internal addresses is not allowed".to_string()))
    );
    assert_eq!(check_body_size(512 * 1024), Ok(()));
    assert_eq!(
        check_body_size(512 * 1024 + 1),
        Err(RingError::BadRequest("Response too large (max 512KB)".to_string()))
    );
}

#[test]
fn html_titles() {
    assert_eq!(
        extract_html_title("<html><TITLE>  Hello </TITLE></html>"),
        Some("Hello".to_string())
    );
    assert_eq!(extract_html_title("<title>   </title>"), None);
    assert_eq!(extract_html_title("no title"), None);
    assert_eq!(extract_html_title("</title><title>x"), None);
}

#[test]
fn main_content_of_pages() {
    assert_eq!(
        extract_main_content("<body><article class=\"a\">Text <b>x</b></article></body>"),
        "Text <b>x</b>"
    );
    assert_eq!(extract_main_content("<main>M</main>"), "M");
    assert_eq!(extract_main_content("<div>none</div>"), "");
}

#[test]
fn html_is_reduced_to_text() {
    let html = "<head><title>T</title></head><script>var x=1;</script><p>Fish &amp; chips</p>\n\n<p>a&lt;b</p>";
    assert_eq!(strip_html(html), "Fish & chips a");
    assert_eq!(strip_html("<NAV>menu</NAV>body"), "body");
}

#[test]
fn fetch_reports() {
    let args = FetchUrlArgs { url: "https://e.com".to_string(), focus: None };
    assert_eq!(fetch_url_report(&args, false, "plain"), "## Source: https://e.com\n\nplain");
    let args = FetchUrlArgs { url: "https://e.com".to_string(), focus: Some("prices".to_string()) };
    let html = "<title>Shop</title><main><p>Price: 3</p></main>";
    assert_eq!(
        fetch_url_report(&args, true, html),
        "## Source: https://e.com\n## Focus: prices\n\nTitle: Shop\n\nPrice: 3"
    );
    let long = "x".repeat(20000);
    let r = fetch_url_report(&FetchUrlArgs { url: "u".to_string(), focus: None }, false, &long);
    assert_eq!(r.len(), "## Source: u\n\n".len() + 15000);
}

#[test]
fn model_input_is_truncated() {
    assert_eq!(truncate_for_model("short"), "short");
    let long = "字".repeat(30005);
    assert_eq!(truncate_for_model(&long).chars().count(), 30000);
}

#[test]
fn file_parse_helpers() {
    assert_eq!(
        file_message_missing("m1"),
        RingError::NotFound("message m1 not found".to_string())
    );
    assert_eq!(existing_labels(&vec![]), None);
    assert_eq!(
        existing_labels(&vec!["A".to_string(), "B".to_string()]),
        Some("A, B".to_string())
    );
}
