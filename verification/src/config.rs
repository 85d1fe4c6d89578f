//! Typed configuration the pipeline reads.  The surrounding process looks
//! the settings up (files, environment); the library only finishes the
//! load, falling back to the defaults when nothing usable was found.

use vstd::prelude::*;

verus! {

#[derive(Debug, Clone)]
pub struct ServerConfig {
    pub host: String,
    pub port: u16,
}

#[derive(Debug, Clone)]
pub struct OllamaConfig {
    pub base_url: String,
    pub llm_model: String,
    pub embedding_model: String,
}

#[derive(Debug, Clone)]
pub struct QdrantConfig {
    pub url: String,
    pub collection_name: String,
}

#[derive(Debug, Clone)]
pub struct Config {
    pub server: ServerConfig,
    pub ollama: OllamaConfig,
    pub qdrant: QdrantConfig,
}

/// The default settings: a local server, local model endpoints, and the
/// `documents` collection.
pub open spec fn is_default_config(c: Config) -> bool {
    &&& c.server.host@ == "0.0.0.0"@
    &&& c.server.port == 3000
    &&& c.ollama.base_url@ == "http://localhost:11434"@
    &&& c.ollama.llm_model@ == "llama3.2"@
    &&& c.ollama.embedding_model@ == "nomic-embed-text"@
    &&& c.qdrant.url@ == "http://localhost:6334"@
    &&& c.qdrant.collection_name@ == "documents"@
}

impl Default for Config {
    fn default() -> (r: Self)
        ensures
            is_default_config(r),
    {
        Config {
            server: ServerConfig { host: String::from_str("0.0.0.0"), port: 3000 },
            ollama: OllamaConfig {
                base_url: String::from_str("http://localhost:11434"),
                llm_model: String::from_str("llama3.2"),
                embedding_model: String::from_str("nomic-embed-text"),
            },
            qdrant: QdrantConfig {
                url: String::from_str("http://localhost:6334"),
                collection_name: String::from_str("documents"),
            },
        }
    }
}

impl Config {
    /// Finish loading: take the settings the surrounding process found, or
    /// the defaults when it found none.
    pub fn load(found: Option<Config>) -> (r: Config)
        ensures
            (match found {
                Some(c) => r == c,
                None => is_default_config(r),
            }),
    {
        match found {
            Some(c) => c,
            None => Config::default(),
        }
    }
}

} // verus!
