use desk_assist_core::extractor::ExtractError;
use desk_assist_core::TextExtractor;

#[test]
fn missing_file_is_not_found() {
    let r = TextExtractor::extract_text("somewhere/missing.txt", None);
    assert_eq!(r, Err(ExtractError::NotFound));
}

#[test]
fn unsupported_extension_is_rejected() {
    let bytes = b"binary payload".to_vec();
    let r = TextExtractor::extract_text("report.docx", Some(&bytes));
    assert_eq!(r, Err(ExtractError::UnsupportedType));
}

#[test]
fn extension_without_dot_is_rejected() {
    let bytes = b"text".to_vec();
    let r = TextExtractor::extract_text("README", Some(&bytes));
    assert_eq!(r, Err(ExtractError::UnsupportedType));
}

#[test]
fn plain_text_comes_back_decoded() {
    let bytes = "Grüße, Welt!".as_bytes().to_vec();
    let r = TextExtractor::extract_text("note.txt", Some(&bytes));
    assert_eq!(r, Ok("Grüße, Welt!".to_string()));
}

#[test]
fn extension_case_is_ignored() {
    let bytes = b"upper case extension".to_vec();
    let r = TextExtractor::extract_text("NOTE.TXT", Some(&bytes));
    assert_eq!(r, Ok("upper case extension".to_string()));
}

#[test]
fn markdown_files_are_read_as_plain_text() {
    let bytes = b"# Title\nbody".to_vec();
    let r = TextExtractor::extract_text("doc.md", Some(&bytes));
    assert_eq!(r, Ok("# Title\nbody".to_string()));
}

#[test]
fn invalid_utf8_is_a_parse_failure() {
    let bytes = vec![0xff, 0xfe, 0x00, 0x41];
    let r = TextExtractor::extract_text("note.txt", Some(&bytes));
    assert_eq!(r, Err(ExtractError::ParseFailure));
}

#[test]
fn html_is_rendered_to_text() {
    let bytes = b"<html><body><p>Hello there</p></body></html>".to_vec();
    let r = TextExtractor::extract_text("page.html", Some(&bytes)).unwrap();
    assert!(r.contains("Hello there"));
    assert!(!r.contains("<p>"));
}

#[test]
fn htm_extension_is_html_too() {
    let bytes = b"<p>short page</p>".to_vec();
    let r = TextExtractor::extract_text("page.htm", Some(&bytes)).unwrap();
    assert!(r.contains("short page"));
}

#[test]
fn garbage_pdf_is_a_parse_failure() {
    let bytes = b"this is not a pdf at all".to_vec();
    let r = TextExtractor::extract_text("doc.pdf", Some(&bytes));
    assert_eq!(r, Err(ExtractError::ParseFailure));
}

#[test]
fn markdown_text_keeps_words_and_spaces_breaks() {
    let text = TextExtractor::extract_markdown_text("line one\nline two");
    assert_eq!(text, "line one line two");

    let text = TextExtractor::extract_markdown_text("Hello *world* and `code`");
    assert_eq!(text, "Hello world and code");
}
