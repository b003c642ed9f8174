[package]
name = "i18n_scanner"
version = "0.1.0"
edition = "2021"
publish = false

[dependencies]
regex = "=1.13.1"
log = "=0.4.34"
env_logger = "=0.11.11"
oxc_allocator = "=0.141.0"
oxc_ast = "=0.141.0"
oxc_ast_visit = "=0.141.0"
oxc_minifier = "=0.141.0"
oxc_parser = "=0.141.0"
oxc_resolver = "=11.24.3"
oxc_semantic = "=0.141.0"
oxc_span = "=0.141.0"
oxc_syntax = "=0.141.0"
