[package]
name = "abt"
version = "0.1.0"
edition = "2021"
publish = false

[dependencies]
regex = "1"
rayon = "1"
globwalk = "0.8"
git2 = "0.18"
log = "0.4"
simple_logger = "4"
structopt = "0.3"
dirs = "5"
openssl-probe = "0.1"
rpassword = "5"
serde_json = "1"
reqwest = { version = "0.11", features = ["blocking", "json"] }
