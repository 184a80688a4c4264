pub mod ecb;
pub mod extractor_manager;
pub mod fred;
