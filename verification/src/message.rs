//! The ephemeral message a caller hands to the logger.

use vstd::prelude::*;

use crate::level::LogLevel;

verus! {

/// One log message: where it comes from, how important it is, what it says,
/// and optionally the source location of the call site.
pub struct LogMessage {
    /// Hierarchical origin of the message, `::`-delimited.
    pub namespace: String,
    /// Severity of the message.
    pub level: LogLevel,
    /// The human-readable text.
    pub message: String,
    /// Call-site location, used only to decorate the rendered line.
    pub filename: Option<String>,
}

/// The mathematical content of a [`LogMessage`].
pub struct MessageView {
    pub namespace: Seq<char>,
    pub level: LogLevel,
    pub message: Seq<char>,
    pub filename: Option<Seq<char>>,
}

impl View for LogMessage {
    type V = MessageView;

    open spec fn view(&self) -> MessageView {
        MessageView {
            namespace: self.namespace@,
            level: self.level,
            message: self.message@,
            filename: match self.filename {
                Some(f) => Some(f@),
                None => None,
            },
        }
    }
}

} // verus!
