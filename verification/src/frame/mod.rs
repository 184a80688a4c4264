pub mod amount;
pub mod column;
pub mod join;
pub mod names;
pub mod rows;
pub mod table;
