[package]
name = "pdf_link_annotations"
version = "0.1.0"
edition = "2021"
publish = false

[dependencies]
lopdf = "*"
