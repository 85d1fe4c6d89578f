//! The records handed to the vector store: per-chunk points carrying the
//! embedding, the chunk text and the document-level metadata.  Assembly is
//! verified; the digest, identifier and clock come from outside crates
//! through trusted wrappers.

use vstd::prelude::*;

use crate::extractor::file_name_string;
use crate::extractor::spec_file_name;
use crate::text::hex_of;
use crate::text::hex_string;

verus! {

/// The SHA-256 digest of a byte string: a function of the bytes alone,
/// 32 bytes long.
pub uninterp spec fn sha256_of(bytes: Seq<u8>) -> Seq<u8>;

/// Relies on `sha2::Sha256`: the digest depends on the bytes alone and is
/// 32 bytes long.
#[verifier::external_body]
fn sha256_digest(bytes: &Vec<u8>) -> (r: Vec<u8>)
    ensures
        r@ == sha256_of(bytes@),
        r@.len() == 32,
{
    <sha2::Sha256 as sha2::Digest>::digest(bytes.as_slice()).to_vec()
}

/// Relies on `uuid::Uuid::new_v4`: a freshly generated random identifier;
/// nothing is assumed of its value.
#[verifier::external_body]
fn fresh_point_id() -> (r: String) {
    uuid::Uuid::new_v4().to_string()
}

/// Relies on `chrono::Utc::now`: the current wall-clock time, rendered as
/// RFC 3339; nothing is assumed of its value.
#[verifier::external_body]
fn current_timestamp() -> (r: String) {
    chrono::Utc::now().to_rfc3339()
}

/// Document-level metadata shared by all points of one ingestion.
#[derive(Debug, Clone)]
pub struct DocumentMetadata {
    pub file_path: String,
    pub file_name: String,
    pub file_size: u64,
    pub file_hash: String,
    pub chunk_index: usize,
    pub total_chunks: usize,
    pub processed_at: String,
    pub llm_summary: String,
}

/// What one ingestion knows of its source document.
#[derive(Debug, Clone)]
pub struct DocumentInfo {
    pub file_path: String,
    pub file_name: String,
    pub file_size: u64,
    pub file_hash: String,
}

impl DocumentInfo {
    /// Describe the document at `path` whose bytes are `bytes`: name from
    /// the path, size from the byte count, hash as the hex SHA-256 digest
    /// of the whole file, computed once, independent of chunking.
    pub fn new(path: String, bytes: &Vec<u8>) -> (r: DocumentInfo)
        requires
            bytes@.len() <= u64::MAX,
        ensures
            r.file_path@ == path@,
            r.file_name@ == spec_file_name(path@),
            r.file_size == bytes@.len(),
            r.file_hash@ == hex_of(sha256_of(bytes@)),
    {
        let file_name = file_name_string(path.as_str());
        let file_size = bytes.len() as u64;
        let digest = sha256_digest(bytes);
        let file_hash = hex_string(&digest);
        DocumentInfo { file_path: path, file_name, file_size, file_hash }
    }
}

/// One stored unit: identifier, embedding vector, chunk text and metadata.
/// The vector's element type is the caller's; the library never looks
/// inside it.
#[derive(Debug, Clone)]
pub struct StoredPoint<V> {
    pub id: String,
    pub vector: V,
    pub text: String,
    pub metadata: DocumentMetadata,
}

/// The chunk and embedding counts differ: a defensive error that the
/// sequential embed loop makes unreachable.
#[derive(Debug, Clone, Copy, PartialEq, Eq, Structural)]
pub struct AlignmentError;

/// The points describe exactly the given chunks and embeddings, pairwise in
/// order, all sharing the document metadata and the summary, with
/// `chunk_index` running `0..total_chunks`.
pub open spec fn points_match<V>(
    pts: Seq<StoredPoint<V>>,
    chunks: Seq<String>,
    embeddings: Seq<V>,
    info: DocumentInfo,
    summary: Seq<char>,
) -> bool {
    &&& pts.len() == chunks.len()
    &&& pts.len() == embeddings.len()
    &&& forall|i: int|
        0 <= i < pts.len() ==> {
            let p = #[trigger] pts[i];
            &&& p.vector == embeddings[i]
            &&& p.text@ == chunks[i]@
            &&& p.metadata.chunk_index == i
            &&& p.metadata.total_chunks == chunks.len()
            &&& p.metadata.file_path@ == info.file_path@
            &&& p.metadata.file_name@ == info.file_name@
            &&& p.metadata.file_size == info.file_size
            &&& p.metadata.file_hash@ == info.file_hash@
            &&& p.metadata.llm_summary@ == summary
        }
}

/// Build one point per `(chunk, embedding)` pair.  The counts are checked
/// before any point is constructed; on a mismatch nothing is built and the
/// alignment error comes back.  Each point gets a fresh identifier and its
/// own timestamp; everything else of the metadata is shared.
pub fn build_points<V>(
    chunks: &Vec<String>,
    embeddings: Vec<V>,
    info: &DocumentInfo,
    summary: &str,
) -> (r: Result<Vec<StoredPoint<V>>, AlignmentError>)
    ensures
        r is Ok <==> chunks@.len() == embeddings@.len(),
        (match r {
            Ok(pts) => points_match(pts@, chunks@, embeddings@, *info, summary@),
            Err(_) => true,
        }),
{
    let total = chunks.len();
    if embeddings.len() != total {
        return Err(AlignmentError);
    }
    let ghost emb0 = embeddings@;
    let mut emb = embeddings;
    let mut pts: Vec<StoredPoint<V>> = Vec::new();
    let mut i: usize = 0;
    while i < total
        invariant
            total == chunks@.len(),
            emb0.len() == total,
            i <= total,
            emb@ == emb0.subrange(i as int, total as int),
            pts@.len() == i,
            forall|j: int|
                0 <= j < i ==> {
                    let p = #[trigger] pts@[j];
                    &&& p.vector == emb0[j]
                    &&& p.text@ == chunks@[j]@
                    &&& p.metadata.chunk_index == j
                    &&& p.metadata.total_chunks == total
                    &&& p.metadata.file_path@ == info.file_path@
                    &&& p.metadata.file_name@ == info.file_name@
                    &&& p.metadata.file_size == info.file_size
                    &&& p.metadata.file_hash@ == info.file_hash@
                    &&& p.metadata.llm_summary@ == summary@
                },
        decreases total - i,
    {
        let vector = emb.remove(0);
        proof {
            assert(emb0.subrange(i as int, total as int)[0] == emb0[i as int]);
            assert(emb@ =~= emb0.subrange(i as int + 1, total as int));
        }
        let metadata = DocumentMetadata {
            file_path: info.file_path.clone(),
            file_name: info.file_name.clone(),
            file_size: info.file_size,
            file_hash: info.file_hash.clone(),
            chunk_index: i,
            total_chunks: total,
            processed_at: current_timestamp(),
            llm_summary: String::from_str(summary),
        };
        let point = StoredPoint {
            id: fresh_point_id(),
            vector,
            text: chunks[i].clone(),
            metadata,
        };
        pts.push(point);
        i += 1;
    }
    Ok(pts)
}

} // verus!
