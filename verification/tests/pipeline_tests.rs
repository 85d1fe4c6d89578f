use desk_assist_core::extractor::ExtractError;
use desk_assist_core::pipeline::error_response;
use desk_assist_core::pipeline::success_response;
use desk_assist_core::pipeline::Action;
use desk_assist_core::pipeline::CapabilityFailure;
use desk_assist_core::pipeline::Event;
use desk_assist_core::pipeline::IngestError;
use desk_assist_core::pipeline::IngestQuery;
use desk_assist_core::pipeline::Phase;
use sha2::Digest;

type Emb = Vec<f32>;

fn failure(msg: &str) -> CapabilityFailure {
    CapabilityFailure { detail: msg.to_string() }
}

fn sha256_hex(bytes: &[u8]) -> String {
    let digest = sha2::Sha256::digest(bytes);
    let mut out = String::new();
    for b in digest.iter() {
        out.push_str(&format!("{:02x}", b));
    }
    out
}

#[test]
fn successful_run_stores_aligned_points() {
    let bytes = b"This is a short text.".to_vec();
    let (state, action) = Phase::<Emb>::start("docs/file.txt".to_string());
    let path = match action {
        Action::ReadFile { path } => path,
        _ => panic!("expected a read request"),
    };
    assert_eq!(path, "docs/file.txt");

    let (state, action) = state.step(Event::FileRead { bytes: Some(bytes.clone()) });
    let text = match action {
        Some(Action::Summarize { text }) => text,
        _ => panic!("expected a summarize request"),
    };
    assert_eq!(text, "This is a short text.");

    let (state, action) = state.step(Event::SummaryReady {
        result: Ok("a text about shortness".to_string()),
    });
    let chunk = match action {
        Some(Action::Embed { text }) => text,
        _ => panic!("expected an embed request"),
    };
    assert_eq!(chunk, "This is a short text.");

    let vector: Emb = vec![0.25, -0.5, 1.0];
    let (state, action) = state.step(Event::EmbeddingReady { result: Ok(vector.clone()) });
    let points = match action {
        Some(Action::Store { points }) => points,
        _ => panic!("expected a store request"),
    };
    assert_eq!(points.len(), 1);
    assert_eq!(points[0].vector, vector);
    assert_eq!(points[0].text, "This is a short text.");
    assert_eq!(points[0].metadata.file_path, "docs/file.txt");
    assert_eq!(points[0].metadata.file_name, "file.txt");
    assert_eq!(points[0].metadata.file_size, 21);
    assert_eq!(points[0].metadata.file_hash, sha256_hex(b"This is a short text."));
    assert_eq!(points[0].metadata.chunk_index, 0);
    assert_eq!(points[0].metadata.total_chunks, 1);
    assert_eq!(points[0].metadata.llm_summary, "a text about shortness");
    assert!(!points[0].id.is_empty());

    let (state, action) = state.step(Event::StoreDone { result: Ok(()) });
    assert!(action.is_none());
    match state {
        Phase::Done { chunks_processed } => assert_eq!(chunks_processed, 1),
        _ => panic!("expected the run to be done"),
    }
}

#[test]
fn multi_chunk_run_keeps_metadata_consistent() {
    let bytes = "C".repeat(2000).into_bytes();
    let (state, _) = Phase::<Emb>::start("big.txt".to_string());
    let (mut state, mut action) = state.step(Event::FileRead { bytes: Some(bytes.clone()) });
    (state, action) = state.step(Event::SummaryReady { result: Ok("summary".to_string()) });

    let mut served: usize = 0;
    let points = loop {
        match action {
            Some(Action::Embed { text }) => {
                assert!(text.len() <= 1000);
                served += 1;
                let vector: Emb = vec![served as f32];
                (state, action) = state.step(Event::EmbeddingReady { result: Ok(vector) });
            }
            Some(Action::Store { points }) => break points,
            other => panic!("unexpected action: {:?}", other.is_some()),
        }
    };
    assert_eq!(served, 3);
    assert_eq!(points.len(), 3);
    let expected_hash = sha256_hex(&"C".repeat(2000).into_bytes());
    for (i, p) in points.iter().enumerate() {
        assert_eq!(p.metadata.chunk_index, i);
        assert_eq!(p.metadata.total_chunks, 3);
        assert_eq!(p.metadata.file_hash, expected_hash);
        assert_eq!(p.metadata.file_name, "big.txt");
        assert_eq!(p.metadata.file_size, 2000);
        assert_eq!(p.metadata.llm_summary, "summary");
        assert_eq!(p.vector, vec![(i + 1) as f32]);
    }

    let (state, action) = state.step(Event::StoreDone { result: Ok(()) });
    assert!(action.is_none());
    match state {
        Phase::Done { chunks_processed } => assert_eq!(chunks_processed, 3),
        _ => panic!("expected the run to be done"),
    }
}

#[test]
fn embed_failure_is_terminal_and_never_stores() {
    let bytes = "D".repeat(2000).into_bytes();
    let (state, _) = Phase::<Emb>::start("big.txt".to_string());
    let (state, _) = state.step(Event::FileRead { bytes: Some(bytes) });
    let (state, action) = state.step(Event::SummaryReady { result: Ok("s".to_string()) });
    assert!(matches!(action, Some(Action::Embed { .. })));

    // the first chunk embeds; the second fails
    let (state, action) = state.step(Event::EmbeddingReady { result: Ok(vec![1.0]) });
    assert!(matches!(action, Some(Action::Embed { .. })));
    let (mut state, action) = state.step(Event::EmbeddingReady {
        result: Err(failure("model offline")),
    });
    assert!(action.is_none());
    assert!(matches!(
        state,
        Phase::Failed { error: IngestError::Embedding(_) }
    ));

    // whatever arrives later, the terminal state absorbs it and never asks
    // for a store
    for _ in 0..3 {
        let (next, action) = state.step(Event::EmbeddingReady { result: Ok(vec![2.0]) });
        assert!(action.is_none());
        assert!(matches!(next, Phase::Failed { .. }));
        state = next;
    }
}

#[test]
fn summary_failure_is_terminal() {
    let bytes = b"Some content.".to_vec();
    let (state, _) = Phase::<Emb>::start("a.txt".to_string());
    let (state, _) = state.step(Event::FileRead { bytes: Some(bytes) });
    let (state, action) = state.step(Event::SummaryReady {
        result: Err(failure("timeout")),
    });
    assert!(action.is_none());
    match state {
        Phase::Failed { error: IngestError::Summary(d) } => assert_eq!(d, "timeout"),
        _ => panic!("expected a summary failure"),
    }
}

#[test]
fn store_failure_is_terminal() {
    let bytes = b"Some content.".to_vec();
    let (state, _) = Phase::<Emb>::start("a.txt".to_string());
    let (state, _) = state.step(Event::FileRead { bytes: Some(bytes) });
    let (state, _) = state.step(Event::SummaryReady { result: Ok("s".to_string()) });
    let (state, _) = state.step(Event::EmbeddingReady { result: Ok(vec![0.0]) });
    let (state, action) = state.step(Event::StoreDone {
        result: Err(failure("collection missing")),
    });
    assert!(action.is_none());
    assert!(matches!(state, Phase::Failed { error: IngestError::Store(_) }));
}

#[test]
fn missing_file_fails_with_not_found() {
    let (state, _) = Phase::<Emb>::start("gone.txt".to_string());
    let (state, action) = state.step(Event::FileRead { bytes: None });
    assert!(action.is_none());
    assert!(matches!(
        state,
        Phase::Failed { error: IngestError::Extraction(ExtractError::NotFound) }
    ));
}

#[test]
fn unsupported_extension_fails_before_any_phase() {
    let (state, _) = Phase::<Emb>::start("report.docx".to_string());
    let (state, action) = state.step(Event::FileRead { bytes: Some(b"PK\x03\x04".to_vec()) });
    assert!(action.is_none());
    assert!(matches!(
        state,
        Phase::Failed { error: IngestError::Extraction(ExtractError::UnsupportedType) }
    ));
}

#[test]
fn whitespace_only_content_fails_before_any_llm_call() {
    let (state, _) = Phase::<Emb>::start("blank.txt".to_string());
    let (state, action) = state.step(Event::FileRead {
        bytes: Some(b"  \n\t  \n".to_vec()),
    });
    assert!(action.is_none());
    assert!(matches!(state, Phase::Failed { error: IngestError::EmptyContent }));
}

#[test]
fn error_responses_carry_status_and_message() {
    let cases: Vec<(IngestError, u16, &str)> = vec![
        (
            IngestError::Extraction(ExtractError::NotFound),
            400,
            "Failed to extract text: file does not exist",
        ),
        (
            IngestError::Extraction(ExtractError::UnsupportedType),
            400,
            "Failed to extract text: unsupported file type",
        ),
        (
            IngestError::Extraction(ExtractError::ParseFailure),
            400,
            "Failed to extract text: no usable text in file",
        ),
        (IngestError::EmptyContent, 400, "No text content found in file"),
        (
            IngestError::Summary("x".to_string()),
            500,
            "Failed to generate summary: x",
        ),
        (
            IngestError::Embedding("y".to_string()),
            500,
            "Failed to generate embeddings: y",
        ),
        (IngestError::Alignment, 500, "Chunks and embeddings length mismatch"),
        (
            IngestError::Store("z".to_string()),
            500,
            "Failed to store embeddings: z",
        ),
    ];
    for (error, status, message) in cases {
        let (code, body) = error_response(&error);
        assert_eq!(code, status);
        assert_eq!(body.error, message);
    }
}

#[test]
fn a_run_starts_from_the_query_path() {
    let q = IngestQuery { path: "notes/today.txt".to_string() };
    let (_, action) = Phase::<Emb>::start(q.path.clone());
    match action {
        Action::ReadFile { path } => assert_eq!(path, q.path),
        _ => panic!("expected a read request"),
    }
}

#[test]
fn success_response_counts_chunks() {
    let r = success_response(5);
    assert!(r.success);
    assert_eq!(r.chunks_processed, 5);
    assert_eq!(r.message, "Successfully processed 5 chunks");

    let r = success_response(0);
    assert_eq!(r.message, "Successfully processed 0 chunks");

    let r = success_response(12034);
    assert_eq!(r.message, "Successfully processed 12034 chunks");
}
