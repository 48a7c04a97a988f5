//! Verified core logic of a monorepo task runner: path rules, task
//! conversion, script parsing, cache decisions and output rendering.

pub mod text;
pub mod kv;
pub mod paths;
pub mod portable_path;
pub mod script_rules;
pub mod node_task;
pub mod script_parser;
pub mod target;
pub mod turbo;
pub mod remote;
pub mod codeowners;
pub mod config;
pub mod toolchain;
pub mod platform;
pub mod process;
pub mod pipeline;
pub mod file_group;
pub mod hooks;
pub mod operation;
pub mod task_runner;
pub mod project;
pub mod ordered;
pub mod probe;
pub mod js_sync;
pub mod query;
pub mod deno;
pub mod node_deps;
pub mod archiver;
pub mod moonbase;
pub mod pnpm;
pub mod console;
pub mod cli;
