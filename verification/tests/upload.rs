use ring_core::error::RingError;
use ring_core::upload::{
    chunk_info, estimate_tokens, exceeds_token_warning, extract_text, finish_pdf_fallback,
    pdf_extraction,
    split_into_chunks, validate_file, TextExtraction,
};

#[test]
fn accepts_known_extensions() {
    assert!(validate_file("notes.md", 10).is_ok());
    assert!(validate_file("REPORT.PDF", 10).is_ok());
    assert!(validate_file("a.b.rs", 0).is_ok());
    assert!(validate_file("test.txt", 10 * 1024 * 1024).is_ok());
}

#[test]
fn rejects_large_file() {
    let r = validate_file("big.txt", 11 * 1024 * 1024);
    assert_eq!(
        r,
        Err(RingError::BadRequest("file too large: 11534336 bytes (max 10485760)".to_string()))
    );
}

#[test]
fn rejects_bad_extension() {
    assert_eq!(
        validate_file("evil.exe", 100),
        Err(RingError::BadRequest("unsupported file type: .exe".to_string()))
    );
    assert_eq!(
        validate_file("Makefile", 100),
        Err(RingError::BadRequest("unsupported file type: .makefile".to_string()))
    );
}

#[test]
fn extracts_plain_text() {
    match extract_text("test.txt", b"Hello, this is a test file content.") {
        TextExtraction::Text(t) => assert_eq!(t, "Hello, this is a test file content."),
        _ => panic!("expected text"),
    }
    match extract_text("x.md", &[0x61, 0xff, 0x62]) {
        TextExtraction::Text(t) => assert_eq!(t, "a\u{fffd}b"),
        _ => panic!("expected text"),
    }
}

#[test]
fn broken_pdf_asks_for_fallback() {
    assert!(matches!(extract_text("doc.pdf", b"not a pdf"), TextExtraction::ReadPdf));
    assert!(matches!(extract_text("DOC.PDF", b""), TextExtraction::ReadPdf));
    match pdf_extraction(Err("bad header".to_string())) {
        TextExtraction::PdfNeedsFallback { error } => assert_eq!(error, "bad header"),
        _ => panic!("expected fallback request"),
    }
    match pdf_extraction(Ok("  \n ".to_string())) {
        TextExtraction::Failed(RingError::BadRequest(m)) => {
            assert_eq!(m, "PDF contains no extractable text (possibly scanned image)")
        }
        _ => panic!("expected failure"),
    }
    match pdf_extraction(Ok("page one".to_string())) {
        TextExtraction::Text(t) => assert_eq!(t, "page one"),
        _ => panic!("expected text"),
    }
    assert_eq!(finish_pdf_fallback("e", Some("t".to_string())), Ok("t".to_string()));
    assert_eq!(
        finish_pdf_fallback("bad", None),
        Err(RingError::BadRequest(
            "Failed to extract PDF text. Error: bad. If this is a CJK PDF, try converting it to plain text first."
                .to_string()
        ))
    );
}

#[test]
fn token_estimates() {
    assert_eq!(estimate_tokens(""), 0);
    assert_eq!(estimate_tokens("abcdefgh"), 2);
    assert_eq!(estimate_tokens("你好"), 3);
    assert_eq!(estimate_tokens("你好吗abc"), 4);
    assert!(!exceeds_token_warning("short"));
    assert!(exceeds_token_warning(&"a".repeat(40004)));
}

#[test]
fn short_text_is_one_chunk() {
    assert_eq!(split_into_chunks("hello", 10), vec!["hello".to_string()]);
    assert_eq!(split_into_chunks("", 0), vec!["".to_string()]);
}

#[test]
fn long_text_splits_at_paragraphs() {
    let chunks = split_into_chunks("aaaa\n\nbbbb\n\ncc", 9);
    assert_eq!(chunks, vec!["aaaa".to_string(), "bbbb\n\ncc".to_string()]);
    assert_eq!(chunks.join("\n\n"), "aaaa\n\nbbbb\n\ncc");
    let chunks = split_into_chunks("aaaaaaaaaaaa\n\nb", 5);
    assert_eq!(chunks, vec!["aaaaaaaaaaaa".to_string(), "b".to_string()]);
}

#[test]
fn chunk_info_counts() {
    let text = "word ".repeat(10000);
    let (tokens, count) = chunk_info(&text);
    assert_eq!(tokens, 12500);
    assert_eq!(count, 1);
    let big = format!("{}\n\n{}", "a".repeat(15000), "b".repeat(15000));
    assert_eq!(chunk_info(&big).1, 2);
}

#[test]
fn chunks_are_packed_greedily() {
    let text = "aaa\n\nbbb\n\nccc\n\ndddddddd\n\ne";
    let chunks = split_into_chunks(text, 8);
    assert_eq!(chunks, vec!["aaa\n\nbbb", "ccc", "dddddddd", "e"]);
    for i in 0..chunks.len() - 1 {
        let next_first = chunks[i + 1].split("\n\n").next().unwrap();
        let joined = format!("{}\n\n{}", chunks[i], next_first);
        assert!(joined.chars().count() > 8);
    }
    assert_eq!(chunks.join("\n\n"), text);
}
