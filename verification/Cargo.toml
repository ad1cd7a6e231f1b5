[package]
name = "ref_transaction"
version = "0.1.0"
edition = "2021"
publish = false

[dependencies]
bstr = "1"
git-hash = "*"
git-lock = "*"
git-object = "*"
git-traverse = "*"
quick-error = "2"
