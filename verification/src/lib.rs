pub mod agent;
pub mod chat;
pub mod cli;
pub mod config;
pub mod identity;
pub mod session;
pub mod text;
pub mod time;
pub mod tui;

pub use agent::build_prompt;
pub use cli::Command;
pub use config::Config;
pub use tui::Tui;
