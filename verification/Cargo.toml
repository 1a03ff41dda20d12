[package]
name = "psvita-linker"
version = "0.1.0"
edition = "2021"
publish = false

[dependencies]
sha1 = "=0.10.7"
tracing-subscriber = { version = "=0.3.23", features = ["env-filter"] }
object = "=0.30.4"
faerie = "=0.16.0"
target-lexicon = "=0.11.2"
cargo_metadata = "=0.14.2"
structopt = "=0.3.26"
bitflags = "=1.3.2"
arrayvec = "0.7"
thiserror = "=1.0.69"
