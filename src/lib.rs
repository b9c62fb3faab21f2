pub mod discovery;
pub mod framing;
pub mod ollama;
pub mod process_manager;
