[package]
name = "guessfs_indexer"
version = "0.1.0"
edition = "2021"
publish = false

[dependencies]
clap = "4"
directories = "*"
jwalk = "*"
regex = "1"
runas = "*"
rusqlite = { version = "*", features = ["bundled"] }
serde = { version = "1", features = ["derive"] }
sha2 = "0.10"
usn-journal-rs = "*"
winapi = { version = "0.3", features = ["fileapi", "winnt"] }
