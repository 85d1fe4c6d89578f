use desk_assist_core::TextChunker;

#[test]
fn test_chunk_short_text() {
    let text = "This is a short text.";
    let chunks = TextChunker::chunk_text(text);
    assert_eq!(chunks.len(), 1);
    assert_eq!(chunks[0], text);
}

#[test]
fn test_chunk_long_text() {
    let text = "A".repeat(2000);
    let chunks = TextChunker::chunk_text_with_options(&text, 500, 50);
    assert!(chunks.len() > 1);

    for chunk in &chunks {
        assert!(chunk.len() <= 500);
    }
}

#[test]
fn short_text_is_returned_unmodified() {
    let text = "  spaced out, but still short  ";
    let chunks = TextChunker::chunk_text(text);
    assert_eq!(chunks.len(), 1);
    assert_eq!(chunks[0], text);
}

#[test]
fn empty_text_is_one_empty_chunk() {
    let chunks = TextChunker::chunk_text("");
    assert_eq!(chunks.len(), 1);
    assert_eq!(chunks[0], "");
}

#[test]
fn long_text_default_options() {
    let text = "B".repeat(2000);
    let chunks = TextChunker::chunk_text(&text);
    assert_eq!(chunks.len(), 3);
    assert_eq!(chunks[0].len(), 1000);
    assert_eq!(chunks[1].len(), 1000);
    assert_eq!(chunks[2].len(), 400);
    for chunk in &chunks {
        assert!(chunk.chars().all(|c| c == 'B'));
    }
}

#[test]
fn cut_prefers_sentence_boundary() {
    let text = "Hello there. More words follow here";
    let chunks = TextChunker::chunk_text_with_options(text, 20, 5);
    assert!(chunks.len() > 1);
    assert_eq!(chunks[0], "Hello there.");
}

#[test]
fn cut_falls_back_to_word_boundary() {
    let text = "alpha beta gamma delta epsilon zeta etas";
    let chunks = TextChunker::chunk_text_with_options(text, 12, 0);
    assert!(chunks.len() > 1);
    assert_eq!(chunks[0], "alpha beta");
    for chunk in &chunks {
        assert!(chunk.len() <= 12);
        assert!(!chunk.is_empty());
        assert_eq!(chunk, &chunk.trim().to_string());
    }
}

#[test]
fn chunks_are_trimmed_and_nonempty() {
    let mut text = String::new();
    for _ in 0..60 {
        text.push_str("word and more. ");
    }
    let chunks = TextChunker::chunk_text_with_options(&text, 100, 10);
    assert!(chunks.len() > 1);
    for chunk in &chunks {
        assert!(!chunk.is_empty());
        assert!(chunk.len() <= 100);
        assert_eq!(chunk, &chunk.trim().to_string());
    }
}

#[test]
fn whitespace_heavy_text_can_collapse() {
    let mut text = " ".repeat(1000);
    text.push('a');
    let chunks = TextChunker::chunk_text_with_options(&text, 1000, 10);
    assert_eq!(chunks.len(), 1);
    assert_eq!(chunks[0], "a");
}
