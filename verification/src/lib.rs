pub mod build_tasks;
pub mod cli;
pub mod cmd;
pub mod config;
pub mod construct;
pub mod fs;
pub mod markdown;
pub mod model;
pub mod path;
pub mod structure;
pub mod template;
pub mod text;
pub mod util;
pub mod website;
pub mod widgets;
