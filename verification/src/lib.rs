//! Quarterly macro-economic indicators, from raw source tables to one wide
//! table keyed by fiscal quarter.
//!
//! The crate holds the rules of the pipeline: the registry of datasets, the
//! reading of the wire formats, the bucketing of dated rows into quarters,
//! the renaming of columns, the currency conversion and the join. Every
//! function states in its contract what it returns. Numbers are never
//! computed here: a numeric cell is a formula over the readings as the
//! sources wrote them, to be evaluated by the caller.

pub mod columns;
pub mod datasets_config;
pub mod error;
pub mod extractor;
pub mod frame;
pub mod loader;
pub mod model;
pub mod numeric;
pub mod pipeline;
pub mod shape;
pub mod text;
pub mod transformer;
pub mod wide;
