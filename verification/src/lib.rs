//! zvec-grep's search, discovery, watching and indexing decisions, verified with Verus.
pub mod text;
pub mod common;
pub mod rg_args;
pub mod context;
pub mod cli_args;
pub mod cli;
pub mod managed_rg;
pub mod lexical;
pub mod path;
pub mod glob;
pub mod pattern;
pub mod errors;
pub mod sort;
pub mod ripgrep;
pub mod service;
pub mod domain;
pub mod file_type;
pub mod scanner;
pub mod watcher;
pub mod models;
pub mod qwen;
pub mod extraction;
pub mod storage;
pub mod protocol;
pub mod ports;
pub mod indexing;
pub mod resident;
pub mod laws;
