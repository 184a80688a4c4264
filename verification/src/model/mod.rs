pub mod data_model;
