use desk_assist_core::config::OllamaConfig;
use desk_assist_core::config::QdrantConfig;
use desk_assist_core::config::ServerConfig;
use desk_assist_core::Config;

#[test]
fn load_without_settings_gives_defaults() {
    let c = Config::load(None);
    assert_eq!(c.server.host, "0.0.0.0");
    assert_eq!(c.server.port, 3000);
    assert_eq!(c.ollama.base_url, "http://localhost:11434");
    assert_eq!(c.ollama.llm_model, "llama3.2");
    assert_eq!(c.ollama.embedding_model, "nomic-embed-text");
    assert_eq!(c.qdrant.url, "http://localhost:6334");
    assert_eq!(c.qdrant.collection_name, "documents");
}

#[test]
fn load_keeps_found_settings() {
    let found = Config {
        server: ServerConfig { host: "127.0.0.1".to_string(), port: 8080 },
        ollama: OllamaConfig {
            base_url: "http://models:11434".to_string(),
            llm_model: "other".to_string(),
            embedding_model: "embedder".to_string(),
        },
        qdrant: QdrantConfig {
            url: "http://vectors:6334".to_string(),
            collection_name: "library".to_string(),
        },
    };
    let c = Config::load(Some(found));
    assert_eq!(c.server.host, "127.0.0.1");
    assert_eq!(c.server.port, 8080);
    assert_eq!(c.ollama.llm_model, "other");
    assert_eq!(c.qdrant.collection_name, "library");
}
