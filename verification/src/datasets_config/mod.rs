pub mod datasets_config;
