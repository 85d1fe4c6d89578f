//! Ingestion pipeline for a retrieval-augmented document assistant.
//!
//! A document is split into bounded, overlapping text segments by the
//! chunker; the pipeline orchestrator sequences extraction, summarization,
//! chunking, embedding and storage, and enforces the alignment and
//! all-or-nothing invariants between chunks and their embeddings.

pub mod chunker;
pub mod config;
pub mod extractor;
pub mod pipeline;
pub mod storage;
pub mod text;

pub use chunker::TextChunker;
pub use config::Config;
pub use extractor::TextExtractor;
