//! Verified core of a multi-repository git manager.
pub mod clean;
pub mod config;
pub mod dispatch;
pub mod error;
pub mod events;
pub mod fetch;
pub mod git;
pub mod labels;
pub mod list_files;
pub mod ops;
pub mod options;
pub mod panels;
pub mod path;
pub mod progress;
pub mod repo_manager;
pub mod repo_state;
pub mod session;
pub mod settings;
pub mod shell;
pub mod style_message;
pub mod system;
pub mod text;
pub mod windows;
