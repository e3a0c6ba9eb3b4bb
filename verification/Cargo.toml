[package]
name = "deno_doc_printer"
version = "0.1.0"
edition = "2021"
publish = false

[dependencies]
deno_ast = { version = "*", default-features = false }
