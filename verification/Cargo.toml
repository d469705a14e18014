[package]
name = "transfer_notifier"
version = "0.1.0"
edition = "2021"
publish = false

[dependencies]
dotenvy = "=0.15.7"
dptree = "=0.3.0"
ethers = { version = "=2.0.14", default-features = false, features = ["abigen", "ws"] }
eyre = "=0.6.14"
# Not used by name: teloxide-core takes any takecell 0.1, and 0.1.2 asks for
# rustc 1.96. This line holds the patch before it, so that teloxide builds
# with an older compiler.
takecell = "=0.1.1"
teloxide = { version = "=0.12.2", default-features = false, features = ["macros", "ctrlc_handler"] }
tokio = { version = "=1.54.1", features = ["rt-multi-thread", "macros"] }
