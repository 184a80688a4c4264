pub mod graph;
pub mod loader_manager;
