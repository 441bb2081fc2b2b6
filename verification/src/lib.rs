//! A lightweight, embeddable logging facility.
//!
//! Callers emit leveled, namespaced messages; the logger filters them by
//! severity and by excluded namespace prefixes, renders a stdout line, and
//! fans each eligible message out to every registered sink in registration
//! order.  The logger is an explicitly constructed handle; a process-wide
//! instance can be built around it by the embedding program.

pub mod host;
pub mod level;
pub mod logger;
pub mod message;
pub mod namespace;
pub mod render;
pub mod sink;

pub use level::LogLevel;
pub use logger::{ensure_init_logger, Logger};
pub use message::LogMessage;
pub use sink::{LogSink, RecordingSink};
