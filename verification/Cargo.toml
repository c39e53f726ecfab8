[package]
name = "where-cmd"
version = "1.3.1"
edition = "2021"
publish = false

[dependencies]
clap = { version = "4", features = ["derive"] }
clap_complete = "4"
colored = "*"
csv = "1"
directories = "*"
goblin = "*"
hex = "0.4"
libc = "0.2"
rayon = "1"
serde = { version = "1", features = ["derive"] }
serde_json = "1"
serde_yaml = "0.9"
sha2 = "*"
skim = "*"
strsim = "*"
toml = "*"
wait-timeout = "0.2"
walkdir = "2"
which = "*"
