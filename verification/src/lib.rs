pub mod app;
pub mod cli;
pub mod config;
pub mod context;
pub mod error;
pub mod interactive;
pub mod model;
pub mod output;
pub mod path;
pub mod providers;
pub mod shell_integration;
pub mod sort;
pub mod text;
pub mod update;
pub mod util;
