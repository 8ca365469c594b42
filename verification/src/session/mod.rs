pub mod manager;
pub mod session;
pub mod store;

pub use manager::{SessionConfig, SessionManager};


pub use session::{capitalize, estimate_tokens, Message, Session, SessionSummary};
