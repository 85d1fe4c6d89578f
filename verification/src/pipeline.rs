//! The ingestion orchestrator: a linear state machine driven by the results
//! of the outside capabilities (file reading, summarization, embedding,
//! storage).  The surrounding process performs each requested action and
//! hands the outcome back as an event; the machine decides every transition
//! and owns the alignment and all-or-nothing invariants:
//!
//! * the store action is only ever emitted with a fully aligned,
//!   metadata-consistent batch of points;
//! * a failed embedding makes the run terminally failed, so no store action
//!   can follow and partially computed embeddings are discarded;
//! * empty extracted content fails the run before any language-model call.

use vstd::prelude::*;

use crate::chunker::chunk_model;
use crate::chunker::trim_range;
use crate::chunker::trim_seq;
use crate::chunker::views_of;
use crate::chunker::DEFAULT_CHUNK_SIZE;
use crate::chunker::DEFAULT_OVERLAP;
use crate::chunker::TextChunker;
use crate::extractor::html_text_of;
use crate::extractor::spec_extension;
use crate::extractor::spec_file_name;
use crate::extractor::spec_kind_of_ext;
use crate::extractor::ExtractError;
use crate::extractor::FileKind;
use crate::extractor::TextExtractor;
use crate::storage::build_points;
use crate::storage::points_match;
use crate::storage::sha256_of;
use crate::storage::DocumentInfo;
use crate::storage::StoredPoint;
use crate::text::decimal_of;
use crate::text::decimal_string;
use crate::text::hex_of;
use crate::text::str_chars;

verus! {

/// Why an ingestion request failed.  Every phase failure is terminal: no
/// retry, no fallback.
#[derive(Debug, Clone)]
pub enum IngestError {
    /// The extraction phase failed.
    Extraction(ExtractError),
    /// Extraction succeeded but yielded only whitespace.
    EmptyContent,
    /// The summarization call failed; the capability's detail is carried.
    Summary(String),
    /// An embedding call failed; the capability's detail is carried.
    Embedding(String),
    /// Chunk and embedding counts differed at assembly (defensive; the
    /// sequential embed loop makes it unreachable).
    Alignment,
    /// The store upsert failed; the capability's detail is carried.
    Store(String),
}

pub open spec fn extract_reason(e: ExtractError) -> Seq<char> {
    match e {
        ExtractError::NotFound => "file does not exist"@,
        ExtractError::UnsupportedType => "unsupported file type"@,
        ExtractError::ParseFailure => "no usable text in file"@,
    }
}

impl IngestError {
    /// The user-visible message for this error, one distinct message per
    /// kind.
    pub open spec fn spec_message(self) -> Seq<char> {
        match self {
            IngestError::Extraction(e) => "Failed to extract text: "@ + extract_reason(e),
            IngestError::EmptyContent => "No text content found in file"@,
            IngestError::Summary(d) => "Failed to generate summary: "@ + d@,
            IngestError::Embedding(d) => "Failed to generate embeddings: "@ + d@,
            IngestError::Alignment => "Chunks and embeddings length mismatch"@,
            IngestError::Store(d) => "Failed to store embeddings: "@ + d@,
        }
    }

    /// Input and extraction errors are the caller's fault; the rest are the
    /// pipeline's.
    pub open spec fn is_client_error(self) -> bool {
        (self matches IngestError::Extraction(_)) || (self matches IngestError::EmptyContent)
    }

    pub fn message(&self) -> (r: String)
        ensures
            r@ == self.spec_message(),
    {
        match self {
            IngestError::Extraction(e) => {
                let mut m = String::from_str("Failed to extract text: ");
                let reason: &str = match e {
                    ExtractError::NotFound => "file does not exist",
                    ExtractError::UnsupportedType => "unsupported file type",
                    ExtractError::ParseFailure => "no usable text in file",
                };
                m.append(reason);
                m
            },
            IngestError::EmptyContent => String::from_str("No text content found in file"),
            IngestError::Summary(d) => {
                let mut m = String::from_str("Failed to generate summary: ");
                m.append(d.as_str());
                m
            },
            IngestError::Embedding(d) => {
                let mut m = String::from_str("Failed to generate embeddings: ");
                m.append(d.as_str());
                m
            },
            IngestError::Alignment => String::from_str("Chunks and embeddings length mismatch"),
            IngestError::Store(d) => {
                let mut m = String::from_str("Failed to store embeddings: ");
                m.append(d.as_str());
                m
            },
        }
    }

    /// The HTTP status the error maps to: 400 for input and extraction
    /// errors, 500 for the rest.
    pub fn http_status(&self) -> (r: u16)
        ensures
            (r == 400) <==> self.is_client_error(),
            r == 400 || r == 500,
    {
        match self {
            IngestError::Extraction(_) => 400,
            IngestError::EmptyContent => 400,
            IngestError::Summary(_) => 500,
            IngestError::Embedding(_) => 500,
            IngestError::Alignment => 500,
            IngestError::Store(_) => 500,
        }
    }
}

/// What an outside capability reported when it failed.
#[derive(Debug, Clone)]
pub struct CapabilityFailure {
    pub detail: String,
}

/// The request taken by the ingest endpoint.
#[derive(Debug, Clone)]
pub struct IngestQuery {
    pub path: String,
}

/// The success reply of the ingest endpoint.
#[derive(Debug, Clone)]
pub struct IngestResponse {
    pub success: bool,
    pub message: String,
    pub chunks_processed: usize,
}

/// The failure reply of the ingest endpoint.
#[derive(Debug, Clone)]
pub struct ErrorResponse {
    pub error: String,
}

/// What the machine asks the surrounding process to do next.
pub enum Action<V> {
    /// Read the bytes of the file at `path` (`None` if it does not exist).
    ReadFile { path: String },
    /// Ask the language model to summarize the full text.
    Summarize { text: String },
    /// Ask the language model to embed one chunk's text.
    Embed { text: String },
    /// Upsert the whole batch of points into the vector store.
    Store { points: Vec<StoredPoint<V>> },
}

/// The outcome of the action last asked for.
pub enum Event<V> {
    FileRead { bytes: Option<Vec<u8>> },
    SummaryReady { result: Result<String, CapabilityFailure> },
    EmbeddingReady { result: Result<V, CapabilityFailure> },
    StoreDone { result: Result<(), CapabilityFailure> },
}

/// The phases of one ingestion run.  `Done` and `Failed` are terminal and
/// absorb every further event.
pub enum Phase<V> {
    /// Waiting for the file's bytes.
    Extracting { path: String },
    /// Waiting for the summary of the extracted text.
    AwaitSummary { info: DocumentInfo, text: String },
    /// Waiting for the embedding of chunk `embeddings.len()`.
    AwaitEmbedding {
        info: DocumentInfo,
        summary: String,
        chunks: Vec<String>,
        embeddings: Vec<V>,
    },
    /// Waiting for the store's answer to the single batched upsert.
    AwaitStore { total: usize },
    /// The run succeeded; `chunks_processed` chunks were stored.
    Done { chunks_processed: usize },
    /// The run failed; nothing was stored.
    Failed { error: IngestError },
}

impl<V> Phase<V> {
    /// Which event answers the action this phase waits for.  Terminal
    /// phases accept anything (and ignore it).
    pub open spec fn expects(self, event: Event<V>) -> bool {
        match self {
            Phase::Extracting { .. } => event is FileRead,
            Phase::AwaitSummary { .. } => event is SummaryReady,
            Phase::AwaitEmbedding { .. } => event is EmbeddingReady,
            Phase::AwaitStore { .. } => event is StoreDone,
            Phase::Done { .. } => true,
            Phase::Failed { .. } => true,
        }
    }

    /// The machine's invariant: while embedding, fewer embeddings than
    /// chunks exist (one is outstanding).
    pub open spec fn wf(self) -> bool {
        match self {
            Phase::AwaitEmbedding { chunks, embeddings, .. } => embeddings@.len() < chunks@.len(),
            _ => true,
        }
    }

    /// Begin an ingestion run for the file at `path`.
    pub fn start(path: String) -> (r: (Phase<V>, Action<V>))
        ensures
            r.0 == (Phase::<V>::Extracting { path }),
            r.0.wf(),
            r.1 == (Action::<V>::ReadFile { path }),
    {
        let p = path.clone();
        (Phase::Extracting { path }, Action::ReadFile { path: p })
    }

    /// One transition of the machine: consume the event answering the
    /// pending action, move to the next phase, and possibly ask for the
    /// next action.
    pub fn step(self, event: Event<V>) -> (r: (Phase<V>, Option<Action<V>>))
        requires
            self.wf(),
            self.expects(event),
        ensures
            r.0.wf(),
            // terminal phases absorb every event and ask for nothing
            self matches Phase::Done { .. } ==> r.0 == self && r.1 is None,
            self matches Phase::Failed { .. } ==> r.0 == self && r.1 is None,
            // a failed embedding is terminal and asks for nothing: the
            // partial embeddings are discarded with the state
            ((self matches Phase::AwaitEmbedding { .. }) && (event matches Event::EmbeddingReady {
                result: Err(_),
            })) ==> (r.0 matches Phase::Failed { error: IngestError::Embedding(_) }) && r.1
                is None,
            // every action is asked for from the right phase, and a store
            // action always carries a fully aligned, consistent batch
            (match r.1 {
                Some(a) => match a {
                    Action::ReadFile { .. } => false,
                    Action::Summarize { text } => (self matches Phase::Extracting { .. })
                        && trim_seq(text@).len() > 0,
                    Action::Embed { text } => (match r.0 {
                        Phase::AwaitEmbedding { chunks, embeddings, .. } => embeddings@.len()
                            < chunks@.len() && text@ == chunks@[embeddings@.len() as int]@,
                        _ => false,
                    }),
                    Action::Store { points } => (match self {
                        Phase::AwaitSummary { .. } => points@.len() == 0,
                        Phase::AwaitEmbedding { info, summary, chunks, embeddings } => (match
                        event {
                            Event::EmbeddingReady { result } => (match result {
                                Ok(v) => chunks@.len() == embeddings@.len() + 1 && points_match(
                                    points@,
                                    chunks@,
                                    embeddings@.push(v),
                                    info,
                                    summary@,
                                ),
                                Err(_) => false,
                            }),
                            _ => false,
                        }),
                        _ => false,
                    }),
                },
                None => true,
            }),
            // the extraction phase: failures map to their errors, success
            // carries the document's name, size and hash into the next
            // phase and asks for the summary of the extracted text
            (match self {
                Phase::Extracting { path } => (match event {
                    Event::FileRead { bytes } => (match bytes {
                        None => r.0 == (Phase::<V>::Failed {
                            error: IngestError::Extraction(ExtractError::NotFound),
                        }) && r.1 is None,
                        Some(b) => {
                            &&& (spec_kind_of_ext(spec_extension(path@)) is None ==> r.0 == (
                            Phase::<V>::Failed {
                                error: IngestError::Extraction(ExtractError::UnsupportedType),
                            }) && r.1 is None)
                            &&& (match r.0 {
                                Phase::AwaitSummary { info, text } => {
                                    &&& trim_seq(text@).len() > 0
                                    &&& info.file_path@ == path@
                                    &&& info.file_name@ == spec_file_name(path@)
                                    &&& info.file_size == b@.len()
                                    &&& info.file_hash@ == hex_of(sha256_of(b@))
                                    &&& (match r.1 {
                                        Some(Action::Summarize { text: t }) => t@ == text@,
                                        _ => false,
                                    })
                                },
                                Phase::Failed { .. } => r.1 is None,
                                _ => false,
                            })
                            &&& (match r.0 {
                                Phase::AwaitSummary { info, text } => spec_kind_of_ext(
                                    spec_extension(path@),
                                ) == Some(FileKind::Html) ==> text@ == html_text_of(b@, 80),
                                _ => true,
                            })
                            &&& ((spec_kind_of_ext(spec_extension(path@)) == Some(FileKind::Plain)
                                && vstd::utf8::valid_utf8(b@)) ==> {
                                let t = vstd::utf8::decode_utf8(b@);
                                if trim_seq(t).len() == 0 {
                                    r.0 == (Phase::<V>::Failed { error: IngestError::EmptyContent })
                                        && r.1 is None
                                } else {
                                    match r.0 {
                                        Phase::AwaitSummary { info, text } => text@ == t,
                                        _ => false,
                                    }
                                }
                            })
                        },
                    }),
                    _ => true,
                }),
                _ => true,
            }),
            // the summarization phase: failure is terminal; success chunks
            // the text with the default settings and starts the embed loop,
            // or stores the empty batch when no chunk survives trimming
            (match self {
                Phase::AwaitSummary { info, text } => (match event {
                    Event::SummaryReady { result } => (match result {
                        Err(f) => r.0 == (Phase::<V>::Failed {
                            error: IngestError::Summary(f.detail),
                        }) && r.1 is None,
                        Ok(s) => {
                            let model = chunk_model(
                                text@,
                                DEFAULT_CHUNK_SIZE as int,
                                DEFAULT_OVERLAP as int,
                            );
                            match r.0 {
                                Phase::AwaitEmbedding { info: i2, summary, chunks, embeddings } => {
                                    &&& i2 == info
                                    &&& summary@ == s@
                                    &&& views_of(chunks@) == model
                                    &&& embeddings@.len() == 0
                                    &&& chunks@.len() > 0
                                },
                                Phase::AwaitStore { total } => total == 0 && model.len() == 0,
                                _ => false,
                            }
                        },
                    }),
                    _ => true,
                }),
                _ => true,
            }),
            // the embed loop: each answer extends the embeddings in chunk
            // order; the last answer assembles and asks for the store
            (match self {
                Phase::AwaitEmbedding { info, summary, chunks, embeddings } => (match event {
                    Event::EmbeddingReady { result } => (match result {
                        Err(f) => r.0 == (Phase::<V>::Failed {
                            error: IngestError::Embedding(f.detail),
                        }) && r.1 is None,
                        Ok(v) => if embeddings@.len() + 1 < chunks@.len() {
                            match r.0 {
                                Phase::AwaitEmbedding { info: i2, summary: s2, chunks: c2, embeddings: e2 } => {
                                    &&& i2 == info
                                    &&& s2@ == summary@
                                    &&& c2@ == chunks@
                                    &&& e2@ == embeddings@.push(v)
                                },
                                _ => false,
                            }
                        } else {
                            (r.0 == (Phase::<V>::AwaitStore { total: chunks.len() })) && (
                            r.1 matches Some(Action::Store { .. }))
                        },
                    }),
                    _ => true,
                }),
                _ => true,
            }),
            // the store phase: failure is terminal, success reports the
            // number of chunks processed
            (match self {
                Phase::AwaitStore { total } => (match event {
                    Event::StoreDone { result } => (match result {
                        Err(f) => r.0 == (Phase::<V>::Failed { error: IngestError::Store(f.detail) })
                            && r.1 is None,
                        Ok(_) => r.0 == (Phase::<V>::Done { chunks_processed: total }) && r.1
                            is None,
                    }),
                    _ => true,
                }),
                _ => true,
            }),
    {
        match self {
            Phase::Extracting { path } => {
                match event {
                    Event::FileRead { bytes } => {
                        match bytes {
                            None => (
                                Phase::Failed {
                                    error: IngestError::Extraction(ExtractError::NotFound),
                                },
                                None,
                            ),
                            Some(b) => {
                                match TextExtractor::extract_text(path.as_str(), Some(&b)) {
                                    Err(e) => (
                                        Phase::Failed { error: IngestError::Extraction(e) },
                                        None,
                                    ),
                                    Ok(text) => {
                                        let tc = str_chars(text.as_str());
                                        let trimmed = trim_range(&tc, 0, tc.len());
                                        proof {
                                            assert(tc@.subrange(0, tc@.len() as int) =~= tc@);
                                        }
                                        if trimmed.len() == 0 {
                                            (
                                                Phase::Failed { error: IngestError::EmptyContent },
                                                None,
                                            )
                                        } else {
                                            let info = DocumentInfo::new(path, &b);
                                            let t = text.clone();
                                            (
                                                Phase::AwaitSummary { info, text },
                                                Some(Action::Summarize { text: t }),
                                            )
                                        }
                                    },
                                }
                            },
                        }
                    },
                    _ => {
                        proof {
                            assert(false);
                        }
                        (Phase::Extracting { path }, None)
                    },
                }
            },
            Phase::AwaitSummary { info, text } => {
                match event {
                    Event::SummaryReady { result } => {
                        match result {
                            Err(f) => (
                                Phase::Failed { error: IngestError::Summary(f.detail) },
                                None,
                            ),
                            Ok(summary) => {
                                let chunks = TextChunker::chunk_text(text.as_str());
                                if chunks.len() == 0 {
                                    let empty: Vec<V> = Vec::new();
                                    match build_points(&chunks, empty, &info, summary.as_str()) {
                                        Ok(points) => (
                                            Phase::AwaitStore { total: 0 },
                                            Some(Action::Store { points }),
                                        ),
                                        Err(_) => (
                                            Phase::Failed { error: IngestError::Alignment },
                                            None,
                                        ),
                                    }
                                } else {
                                    let first = chunks[0].clone();
                                    (
                                        Phase::AwaitEmbedding {
                                            info,
                                            summary,
                                            chunks,
                                            embeddings: Vec::new(),
                                        },
                                        Some(Action::Embed { text: first }),
                                    )
                                }
                            },
                        }
                    },
                    _ => {
                        proof {
                            assert(false);
                        }
                        (Phase::AwaitSummary { info, text }, None)
                    },
                }
            },
            Phase::AwaitEmbedding { info, summary, chunks, mut embeddings } => {
                match event {
                    Event::EmbeddingReady { result } => {
                        match result {
                            Err(f) => (
                                Phase::Failed { error: IngestError::Embedding(f.detail) },
                                None,
                            ),
                            Ok(v) => {
                                embeddings.push(v);
                                if embeddings.len() < chunks.len() {
                                    let idx = embeddings.len();
                                    let next = chunks[idx].clone();
                                    (
                                        Phase::AwaitEmbedding { info, summary, chunks, embeddings },
                                        Some(Action::Embed { text: next }),
                                    )
                                } else {
                                    let total = chunks.len();
                                    match build_points(&chunks, embeddings, &info, summary.as_str())
                                        {
                                        Ok(points) => (
                                            Phase::AwaitStore { total },
                                            Some(Action::Store { points }),
                                        ),
                                        Err(_) => (
                                            Phase::Failed { error: IngestError::Alignment },
                                            None,
                                        ),
                                    }
                                }
                            },
                        }
                    },
                    _ => {
                        proof {
                            assert(false);
                        }
                        (
                            Phase::Failed { error: IngestError::Alignment },
                            None,
                        )
                    },
                }
            },
            Phase::AwaitStore { total } => {
                match event {
                    Event::StoreDone { result } => {
                        match result {
                            Err(f) => (Phase::Failed { error: IngestError::Store(f.detail) }, None),
                            Ok(_) => (Phase::Done { chunks_processed: total }, None),
                        }
                    },
                    _ => {
                        proof {
                            assert(false);
                        }
                        (Phase::AwaitStore { total }, None)
                    },
                }
            },
            Phase::Done { chunks_processed } => (Phase::Done { chunks_processed }, None),
            Phase::Failed { error } => (Phase::Failed { error }, None),
        }
    }
}

/// The reply for a finished run: the chunk count processed and its message.
pub fn success_response(chunks_processed: usize) -> (r: IngestResponse)
    ensures
        r.success == true,
        r.chunks_processed == chunks_processed,
        r.message@ == "Successfully processed "@ + decimal_of(chunks_processed as nat)
            + " chunks"@,
{
    let mut message = String::from_str("Successfully processed ");
    let num = decimal_string(chunks_processed);
    message.append(num.as_str());
    message.append(" chunks");
    IngestResponse { success: true, message, chunks_processed }
}

/// The reply for a failed run: its HTTP status and its distinct message.
pub fn error_response(e: &IngestError) -> (r: (u16, ErrorResponse))
    ensures
        (r.0 == 400) <==> e.is_client_error(),
        r.0 == 400 || r.0 == 500,
        r.1.error@ == e.spec_message(),
{
    let status = e.http_status();
    let body = ErrorResponse { error: e.message() };
    (status, body)
}

} // verus!
