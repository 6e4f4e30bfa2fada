use vstd::prelude::*;

pub mod text;
pub mod order;
pub mod json;
pub mod types;
pub mod policy;
pub mod security;
pub mod redaction;
pub mod url;
pub mod settings;
pub mod http_path;
pub mod workspace;
pub mod tools;
pub mod commands;
pub mod store;
pub mod config;
pub mod broker;
pub mod companion;
pub mod cloud;
pub mod windows;

verus! {
} // verus!
