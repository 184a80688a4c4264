pub mod calendar;
pub mod convert;
pub mod laws;
pub mod normalize;
pub mod quarter;
