//! The pluggable subsystem surface of the surrounding host: one small
//! trait per concern, a default implementation each, and a selector enum
//! naming the implementations the host can wire in.

pub mod cache_handler;
pub mod database_system;
pub mod defaults;
pub mod exports;
pub mod governance;
pub mod life_cycle_handler;
pub mod log_handler;
pub mod message;
pub mod system;

pub use self::cache_handler::{CacheHandler, CacheSelector, LocalCacheHandler};
pub use self::database_system::{DatabaseSelector, DatabaseSystem, MockDatabaseSystem};
pub use self::governance::{DefaultGovernance, Governance, GovernanceSelector};
pub use self::life_cycle_handler::{DefaultLifeCycleHandler, LifeCycleHandler, LifeCycleSelector};
pub use self::log_handler::{LocalLogHandler, LogHandler, LogSelector};
pub use self::message::{LocalMessage, Message, MessageSelector};
