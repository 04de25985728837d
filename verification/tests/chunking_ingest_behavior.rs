use agent_runtime::chunking::chunk_text;
use agent_runtime::ingest::{
    attachment_file_name, extraction_kind, ingest_plan, mime_for_extension,
    unsupported_mime_message, ExtractKind,
};

#[test]
fn test_chunk_text_single_chunk() {
    let chunks = chunk_text("hello world\nsecond line", 512).unwrap();
    assert_eq!(chunks, vec!["hello world\nsecond line".to_string()]);
}

#[test]
fn test_chunk_text_empty() {
    let chunks = chunk_text("", 512).unwrap();
    assert!(chunks.is_empty());
    let blank = chunk_text("   \n  \n", 512).unwrap();
    assert!(blank.is_empty());
}

#[test]
fn test_chunk_text_splits_on_budget() {
    // With a budget of one token, every line closes the running chunk:
    // the first close flushes the (still empty) accumulator, so the chunk
    // list starts with an empty entry and the last line stays in the tail.
    let chunks = chunk_text("first line here\nsecond line here", 1).unwrap();
    assert_eq!(
        chunks,
        vec![
            "".to_string(),
            "first line here".to_string(),
            "second line here".to_string()
        ]
    );
}

#[test]
fn test_chunk_text_counts_with_real_tokenizer() {
    // A budget comfortably above one line but below two keeps pairs of
    // short lines apart; this fails if the token counter were a constant.
    let text = "alpha beta gamma delta\nepsilon zeta eta theta";
    let one_chunk = chunk_text(text, 512).unwrap();
    assert_eq!(one_chunk.len(), 1);
    let many = chunk_text(text, 1).unwrap();
    assert!(many.len() > 1);
}

#[test]
fn test_chunk_text_uses_token_counts_not_characters() {
    // Two lines of 120 short words each: roughly 120 tokens but 599
    // characters per line. A budget of 150 admits each line alone but not
    // both together, so the text splits into exactly two chunks; counting
    // characters instead would already split on the first line.
    let line = vec!["word"; 120].join(" ");
    let text = format!("{}\n{}", line, line);
    let chunks = chunk_text(&text, 150).unwrap();
    assert_eq!(chunks.len(), 2);
    assert_eq!(chunks[0], line);
    assert_eq!(chunks[1], line);
}

#[test]
fn test_guessed_mime_drives_extraction() {
    // Through the real media-type guesser: known extensions pick their
    // extractor, unknown ones are rejected.
    let (essence, kind) = ingest_plan("paper.pdf");
    assert_eq!(essence, "application/pdf");
    assert_eq!(kind, ExtractKind::Pdf);
    assert_eq!(ingest_plan("notes.txt").1, ExtractKind::PlainText);
    assert_eq!(ingest_plan("report.docx").1, ExtractKind::Docx);
    assert_eq!(ingest_plan("binary.exe").1, ExtractKind::Unsupported);
}

#[test]
fn test_extraction_kind_exact() {
    assert_eq!(extraction_kind("application/pdf"), ExtractKind::Pdf);
    assert_eq!(extraction_kind("text/plain"), ExtractKind::PlainText);
    assert_eq!(extraction_kind("text/markdown"), ExtractKind::PlainText);
    assert_eq!(
        extraction_kind(
            "application/vnd.openxmlformats-officedocument.wordprocessingml.document"
        ),
        ExtractKind::Docx
    );
    assert_eq!(extraction_kind("image/png"), ExtractKind::Unsupported);
}

#[test]
fn test_unsupported_mime_message() {
    assert_eq!(
        unsupported_mime_message("application/zip"),
        "Unsupported mime: application/zip"
    );
}

#[test]
fn test_mime_for_extension() {
    assert_eq!(mime_for_extension(Some("txt")), "text/plain");
    assert_eq!(mime_for_extension(Some("md")), "text/plain");
    assert_eq!(mime_for_extension(Some("pdf")), "application/pdf");
    assert_eq!(mime_for_extension(Some("jpeg")), "image/jpeg");
    assert_eq!(mime_for_extension(Some("svg")), "image/svg+xml");
    assert_eq!(mime_for_extension(Some("weird")), "application/octet-stream");
    assert_eq!(mime_for_extension(None), "application/octet-stream");
}

#[test]
fn test_attachment_file_name() {
    assert_eq!(attachment_file_name("id1", "a.txt"), "id1_a.txt");
}
