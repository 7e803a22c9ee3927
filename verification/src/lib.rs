pub mod config;
pub mod context;
pub mod generator;
pub mod runner;
pub mod template;
pub mod text;
pub mod tmp_file;
