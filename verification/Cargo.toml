[package]
name = "mkinit"
version = "0.1.0"
edition = "2021"
publish = false

[dependencies]
clap = { version = "=4.6.7", features = ["derive"] }
# Not used by name. ruff_python_ast 0.0.5 is built on compact_str 0.9, and
# get-size2 0.10.3 on compact_str 0.10: with it ruff_python_ast does not
# compile. 0.10.1 is the version that ruff_python_ast 0.0.5 was released with.
get-size2 = "=0.10.1"
ruff_python_ast = "=0.0.5"
ruff_python_parser = "=0.0.5"
ruff_text_size = "=0.0.5"
walkdir = "=2.5.0"
