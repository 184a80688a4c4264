[package]
name = "quarterly_etl"
version = "0.1.0"
edition = "2021"
publish = false

[dependencies]
polars = { version = "0.46", features = ["lazy", "csv", "parquet", "temporal", "strings"] }
quick-xml = "0.37"
rayon = "1"
reqwest = { version = "0.12", default-features = false, features = ["json", "rustls-tls"] }
tokio = { version = "1", features = ["rt-multi-thread", "macros"] }
serde = { version = "1", features = ["derive"] }
config = { version = "0.14", default-features = false }
dotenvy = "0.15"
log = "0.4"
plotters = { version = "0.3", default-features = false, features = ["bitmap_backend", "bitmap_encoder", "line_series", "ttf"] }
