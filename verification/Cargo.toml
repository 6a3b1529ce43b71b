[package]
name = "tweec"
version = "0.1.0"
edition = "2021"
publish = false

[dependencies]
atty = "=0.2.14"
clap = "=2.34.0"
codespan-reporting = "=0.9.5"
color-eyre = "=0.5.11"
dirs-next = "=2.0.0"
eyre = "=0.6.14"
horrorshow = "=0.8.9"
json_comments = "=0.2.2"
opener = "=0.4.1"
serde = { version = "=1.0.229", features = ["derive"] }
serde_json = "=1.0.154"
strsim = "=0.10.0"
termcolor = "=1.4.1"
tweep = { version = "=0.3.0", features = ["full-context", "issue-names"] }
