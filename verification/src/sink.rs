//! Sinks: callback capabilities that receive every eligible message together
//! with the timestamp the dispatcher captured for it.

use vstd::prelude::*;

use crate::level::LogLevel;
use crate::message::{LogMessage, MessageView};

/// The type of a sink's history, for implementors outside the library.
pub use vstd::seq::Seq as SinkHistory;

verus! {

/// What one sink invocation delivers: the timestamp the dispatcher captured
/// (nanoseconds since the Unix epoch) and the message, unchanged.
pub struct SinkRecord {
    pub timestamp: u64,
    pub message: MessageView,
}

/// A capability that can receive a log message.  The logger invokes
/// `receive` once per eligible message, in registration order, and passes
/// every sink of one message the same timestamp.
///
/// `received` is the sink's history: everything it has been handed, oldest
/// first.  An implementation must show that `receive` appends exactly the
/// record it was handed, so that delivery is exactly-once and unaltered.
pub trait LogSink: Sized {
    spec fn received(&self) -> Seq<SinkRecord>;

    fn receive(&mut self, timestamp: u64, message: &LogMessage)
        ensures
            final(self).received() == old(self).received().push(
                (SinkRecord { timestamp, message: (*message)@ }),
            ),
    ;
}

/// One record as a [`RecordingSink`] stores it, with owned strings.
pub struct StoredRecord {
    pub timestamp: u64,
    pub namespace: String,
    pub level: LogLevel,
    pub message: String,
    pub filename: Option<String>,
}

impl View for StoredRecord {
    type V = SinkRecord;

    open spec fn view(&self) -> SinkRecord {
        SinkRecord {
            timestamp: self.timestamp,
            message: MessageView {
                namespace: self.namespace@,
                level: self.level,
                message: self.message@,
                filename: match self.filename {
                    Some(f) => Some(f@),
                    None => None,
                },
            },
        }
    }
}

/// A sink that keeps every record it receives, oldest first.
pub struct RecordingSink {
    pub records: Vec<StoredRecord>,
}

impl RecordingSink {
    /// An empty recorder.
    pub fn new() -> (s: Self)
        ensures
            s.received() == Seq::<SinkRecord>::empty(),
            s.records@.len() == 0,
    {
        let s = RecordingSink { records: Vec::new() };
        proof {
            assert(s.received() =~= Seq::<SinkRecord>::empty());
        }
        s
    }
}

impl LogSink for RecordingSink {
    open spec fn received(&self) -> Seq<SinkRecord> {
        self.records@.map_values(|r: StoredRecord| r@)
    }

    fn receive(&mut self, timestamp: u64, message: &LogMessage) {
        let stored = StoredRecord {
            timestamp,
            namespace: message.namespace.clone(),
            level: message.level,
            message: message.message.clone(),
            filename: match &message.filename {
                Some(f) => Some(f.clone()),
                None => None,
            },
        };
        proof {
            assert(stored@ == (SinkRecord { timestamp, message: (*message)@ }));
            old(self).records@.lemma_push_map_commute(|r: StoredRecord| r@, stored);
        }
        self.records.push(stored);
    }
}

} // verus!
