//! The logger: its configuration, and the dispatch engine that filters,
//! renders and fans out each message.
//!
//! A `Logger` is an explicitly constructed handle.  A process-wide instance
//! is the embedding program's affair: it wraps one `Logger` in its own
//! mutual-exclusion guard and initializes it on first use with
//! [`ensure_init_logger`].  Everything here is synchronous; one message is
//! fully processed by one call.

use vstd::prelude::*;

use crate::host::{emit_line, format_timestamp, now_nanos};
use crate::level::{spec_level_allowed, LogLevel};
use crate::message::{LogMessage, MessageView};
use crate::namespace::{
    any_prefix_matches, seg_views, spec_any_prefix, spec_segments, split_namespace,
};
use crate::render::{render_line, spec_render_line};
use crate::sink::{LogSink, SinkRecord};
use owo_colors::CssColors;

verus! {

/// The namespace reserved for the logger's notes on its own lifecycle.
/// Messages under it never trigger further self-logging, so self-logging
/// cannot recurse.
pub open spec fn spec_self_namespace() -> Seq<char> {
    "justlogfox"@
}

/// The view of a message the logger emits about itself: `text` at `Trace`
/// under the reserved namespace, with no call site.
pub open spec fn spec_meta_message(text: Seq<char>) -> MessageView {
    MessageView {
        namespace: spec_self_namespace(),
        level: LogLevel::Trace,
        message: text,
        filename: None,
    }
}

/// Every sink of `after` holds what its counterpart in `before` held plus
/// one record of `m` stamped `t`: delivery was exactly-once, in place, with
/// the message unaltered.
pub open spec fn spec_all_delivered<S: LogSink>(
    before: Seq<S>,
    after: Seq<S>,
    t: u64,
    m: MessageView,
) -> bool {
    &&& after.len() == before.len()
    &&& forall|i: int|
        0 <= i < before.len() ==> after[i].received() == before[i].received().push(
            (SinkRecord { timestamp: t, message: m }),
        )
}

/// Some single timestamp was handed, with `m`, to every sink exactly once.
pub open spec fn spec_delivered_once<S: LogSink>(
    before: Seq<S>,
    after: Seq<S>,
    m: MessageView,
) -> bool {
    exists|t: u64| spec_all_delivered(before, after, t, m)
}

/// First color registered for `name`, scanning `entries` front to back.
pub open spec fn spec_color_of(entries: Seq<(String, CssColors)>, name: Seq<char>) -> Option<
    CssColors,
>
    decreases entries.len(),
{
    if entries.len() == 0 {
        None
    } else if entries[0].0@ == name {
        Some(entries[0].1)
    } else {
        spec_color_of(entries.skip(1), name)
    }
}

/// Text of the logger's own note when the severity filter is set.
pub open spec fn spec_set_level_text(level: LogLevel) -> Seq<char> {
    match level {
        LogLevel::Error => "Set filter level: Error"@,
        LogLevel::Warn => "Set filter level: Warn"@,
        LogLevel::Info => "Set filter level: Info"@,
        LogLevel::Debug => "Set filter level: Debug"@,
        LogLevel::Trace => "Set filter level: Trace"@,
    }
}

/// Text of the logger's own note when a sink is registered.
pub open spec fn spec_sink_added_text() -> Seq<char> {
    "New sink added"@
}

/// Text of the logger's own note when the time format is set.
pub open spec fn spec_set_time_text(format: Option<Seq<char>>) -> Seq<char> {
    match format {
        Some(f) => "Set time format: "@ + f,
        None => "Set time format: None"@,
    }
}

/// Text of the logger's own note when a namespace color is set.
pub open spec fn spec_set_color_text(name: Seq<char>) -> Seq<char> {
    "Set crate color: "@ + name
}

/// The logger's configuration and registered sinks.
pub struct Logger<S: LogSink> {
    /// Whether eligible messages are rendered to standard output.
    pub stdout: bool,
    /// The registered sinks, in registration order.  Registration is
    /// append-only; every eligible message reaches each of them once.
    pub custom_sinks: Vec<S>,
    /// Most verbose severity still let through.
    pub filter_level: LogLevel,
    /// Time format for the stdout line; `None` omits the time segment.
    pub time_format: Option<String>,
    /// Messages whose namespace starts with any of these segment sequences
    /// are dropped, whatever their severity.
    pub exclude_namespaces: Vec<Vec<String>>,
    /// Display colors by top-level namespace segment; cosmetic only.
    pub crate_colors: Vec<(String, CssColors)>,
    /// Whether the logger notes its own lifecycle by dispatching messages
    /// under the reserved namespace.
    pub logging_logging: bool,
}

impl<S: LogSink> Logger<S> {
    /// The exclusion prefixes as segment views.
    pub open spec fn spec_excludes(&self) -> Seq<Seq<Seq<char>>> {
        self.exclude_namespaces@.map_values(|p: Vec<String>| seg_views(p@))
    }

    /// Some exclusion prefix leads the segments of namespace `ns`.
    pub open spec fn spec_suppressed(&self, ns: Seq<char>) -> bool {
        spec_any_prefix(self.spec_excludes(), spec_segments(ns))
    }

    /// A message at `level` under `ns` passes both eligibility tests: it is
    /// no more verbose than the filter, and no exclusion prefix leads its
    /// namespace.
    pub open spec fn spec_eligible(&self, level: LogLevel, ns: Seq<char>) -> bool {
        spec_level_allowed(level, self.filter_level) && !self.spec_suppressed(ns)
    }

    /// Both loggers carry the same configuration; the sinks may differ.
    pub open spec fn spec_same_config(&self, other: &Self) -> bool {
        &&& self.stdout == other.stdout
        &&& self.filter_level == other.filter_level
        &&& self.time_format == other.time_format
        &&& self.exclude_namespaces == other.exclude_namespaces
        &&& self.crate_colors == other.crate_colors
        &&& self.logging_logging == other.logging_logging
    }

    /// What self-logging under this configuration does to the sinks: when it
    /// is on and the note is eligible, the note is delivered once to every
    /// sink; otherwise they are untouched.
    pub open spec fn spec_meta_effect(&self, before: Seq<S>, after: Seq<S>, text: Seq<char>) -> bool {
        if self.logging_logging && self.spec_eligible(LogLevel::Trace, spec_self_namespace()) {
            spec_delivered_once(before, after, spec_meta_message(text))
        } else {
            after == before
        }
    }

    /// The default configuration: stdout on, everything allowed, no
    /// exclusions, no time segment, no sinks, no colors, no self-logging.
    pub open spec fn spec_is_default(&self) -> bool {
        &&& self.stdout == true
        &&& self.custom_sinks@.len() == 0
        &&& self.filter_level == LogLevel::Trace
        &&& self.time_format is None
        &&& self.exclude_namespaces@.len() == 0
        &&& self.crate_colors@.len() == 0
        &&& self.logging_logging == false
    }

    /// A logger with the default configuration.
    pub fn new() -> (logger: Self)
        ensures
            logger.spec_is_default(),
    {
        Logger {
            stdout: true,
            custom_sinks: Vec::new(),
            filter_level: LogLevel::Trace,
            time_format: None,
            exclude_namespaces: Vec::new(),
            crate_colors: Vec::new(),
            logging_logging: false,
        }
    }

    /// Decide whether `message` is eligible and, when it is, hand it to
    /// every sink in registration order, all with one timestamp, and return
    /// the rendered stdout line when standard output is enabled.  The caller
    /// prints the returned line; the configuration itself never changes.
    pub fn dispatch(&mut self, message: &LogMessage) -> (line: Option<String>)
        ensures
            final(self).spec_same_config(old(self)),
            final(self).custom_sinks@.len() == old(self).custom_sinks@.len(),
            old(self).spec_eligible(message@.level, message@.namespace) ==> spec_delivered_once(
                old(self).custom_sinks@,
                final(self).custom_sinks@,
                (*message)@,
            ),
            !old(self).spec_eligible(message@.level, message@.namespace)
                ==> final(self).custom_sinks@ == old(self).custom_sinks@,
            (line is Some) <==> (old(self).spec_eligible(message@.level, message@.namespace)
                && old(self).stdout && message@.namespace.len() + 8 <= usize::MAX),
            line matches Some(l) ==> exists|ts: Seq<char>|
                l@ == spec_render_line(
                    ts,
                    message@.namespace,
                    message@.level,
                    message@.message,
                    message@.filename,
                ) && (old(self).time_format is None ==> ts == Seq::<char>::empty()),
    {
        if !message.level.allowed_under(self.filter_level) {
            return None;
        }
        let segments = split_namespace(message.namespace.as_str());
        if any_prefix_matches(&self.exclude_namespaces, &segments) {
            return None;
        }
        let t = now_nanos();
        let ns_len = message.namespace.as_str().unicode_len();
        let line: Option<String> = if self.stdout && ns_len <= usize::MAX - 8 {
            let time_segment: String = match &self.time_format {
                Some(f) => {
                    match format_timestamp(t, f.as_str()) {
                        Some(mut s) => {
                            if ns_len <= usize::MAX - 9 && s.as_str().unicode_len() <= usize::MAX
                                - 9 - ns_len {
                                s.append(" ");
                                proof {
                                    reveal_strlit(" ");
                                }
                                s
                            } else {
                                String::new()
                            }
                        },
                        None => String::new(),
                    }
                },
                None => String::new(),
            };
            proof {
                assert(message@.namespace == message.namespace@);
                assert(time_segment@.len() + message.namespace@.len() + 8 <= usize::MAX);
            }
            Some(render_line(time_segment.as_str(), message))
        } else {
            None
        };
        let ghost rec = SinkRecord { timestamp: t, message: (*message)@ };
        let mut i: usize = 0;
        while i < self.custom_sinks.len()
            invariant
                0 <= i <= self.custom_sinks@.len(),
                self.custom_sinks@.len() == old(self).custom_sinks@.len(),
                self.spec_same_config(old(self)),
                rec == (SinkRecord { timestamp: t, message: (*message)@ }),
                forall|j: int|
                    0 <= j < i ==> self.custom_sinks@[j].received()
                        == old(self).custom_sinks@[j].received().push(rec),
                forall|j: int|
                    i <= j < self.custom_sinks@.len() ==> self.custom_sinks@[j]
                        == old(self).custom_sinks@[j],
            decreases self.custom_sinks@.len() - i,
        {
            let sink = &mut self.custom_sinks[i];
            sink.receive(t, message);
            i = i + 1;
        }
        proof {
            assert(spec_all_delivered(
                old(self).custom_sinks@,
                self.custom_sinks@,
                t,
                (*message)@,
            ));
        }
        line
    }

    /// Log one message: filter, render, print, fan out.  The namespace, text
    /// and call site reach every sink exactly as given here.
    pub fn log(&mut self, namespace: &str, level: LogLevel, message: &str, filename: Option<&str>)
        ensures
            final(self).spec_same_config(old(self)),
            final(self).custom_sinks@.len() == old(self).custom_sinks@.len(),
            old(self).spec_eligible(level, namespace@) ==> spec_delivered_once(
                old(self).custom_sinks@,
                final(self).custom_sinks@,
                (MessageView {
                    namespace: namespace@,
                    level,
                    message: message@,
                    filename: match filename {
                        Some(f) => Some(f@),
                        None => None,
                    },
                }),
            ),
            !old(self).spec_eligible(level, namespace@)
                ==> final(self).custom_sinks@ == old(self).custom_sinks@,
    {
        let msg = LogMessage {
            namespace: String::from_str(namespace),
            level,
            message: String::from_str(message),
            filename: match filename {
                Some(f) => Some(String::from_str(f)),
                None => None,
            },
        };
        match self.dispatch(&msg) {
            Some(l) => emit_line(l.as_str()),
            None => {},
        }
    }

    /// When self-logging is on, dispatch `text` at `Trace` under the
    /// reserved namespace (printing the line as any dispatch does);
    /// otherwise do nothing.
    fn log_log(&mut self, text: &str)
        ensures
            final(self).spec_same_config(old(self)),
            old(self).spec_meta_effect(
                old(self).custom_sinks@,
                final(self).custom_sinks@,
                text@,
            ),
    {
        if self.logging_logging {
            let msg = LogMessage {
                namespace: String::from_str("justlogfox"),
                level: LogLevel::Trace,
                message: String::from_str(text),
                filename: None,
            };
            proof {
                assert(msg@ == spec_meta_message(text@));
            }
            match self.dispatch(&msg) {
                Some(l) => emit_line(l.as_str()),
                None => {},
            }
        }
    }

    /// Replace the severity filter; takes effect for every later dispatch.
    pub fn set_log_level(&mut self, level: LogLevel)
        ensures
            final(self).filter_level == level,
            final(self).stdout == old(self).stdout,
            final(self).time_format == old(self).time_format,
            final(self).exclude_namespaces == old(self).exclude_namespaces,
            final(self).crate_colors == old(self).crate_colors,
            final(self).logging_logging == old(self).logging_logging,
            final(self).spec_meta_effect(
                old(self).custom_sinks@,
                final(self).custom_sinks@,
                spec_set_level_text(level),
            ),
    {
        self.filter_level = level;
        let text = match level {
            LogLevel::Error => "Set filter level: Error",
            LogLevel::Warn => "Set filter level: Warn",
            LogLevel::Info => "Set filter level: Info",
            LogLevel::Debug => "Set filter level: Debug",
            LogLevel::Trace => "Set filter level: Trace",
        };
        self.log_log(text);
    }

    /// Append a sink; it receives every eligible message dispatched from now
    /// on.  Registration only stores the sink and never invokes it, so the
    /// note about the registration itself does not reach the new sink.
    pub fn add_logger(&mut self, sink: S)
        ensures
            final(self).spec_same_config(old(self)),
            exists|mid: Seq<S>|
                old(self).spec_meta_effect(old(self).custom_sinks@, mid, spec_sink_added_text())
                    && final(self).custom_sinks@ == mid.push(sink),
    {
        self.log_log("New sink added");
        let ghost mid = self.custom_sinks@;
        self.custom_sinks.push(sink);
        proof {
            assert(old(self).spec_meta_effect(
                old(self).custom_sinks@,
                mid,
                spec_sink_added_text(),
            ) && final(self).custom_sinks@ == mid.push(sink));
        }
    }

    /// Turn on self-logging and set the filter to the most verbose level.
    pub fn verbose_verbose_verbose(&mut self)
        ensures
            final(self).logging_logging == true,
            final(self).filter_level == LogLevel::Trace,
            final(self).stdout == old(self).stdout,
            final(self).time_format == old(self).time_format,
            final(self).exclude_namespaces == old(self).exclude_namespaces,
            final(self).crate_colors == old(self).crate_colors,
            final(self).spec_meta_effect(
                old(self).custom_sinks@,
                final(self).custom_sinks@,
                spec_set_level_text(LogLevel::Trace),
            ),
    {
        self.logging_logging = true;
        self.set_log_level(LogLevel::Trace);
    }

    /// Replace the time format of the stdout line; `None` omits the time
    /// segment entirely.
    pub fn set_log_time_format(&mut self, format: Option<&str>)
        ensures
            final(self).stdout == old(self).stdout,
            final(self).filter_level == old(self).filter_level,
            final(self).exclude_namespaces == old(self).exclude_namespaces,
            final(self).crate_colors == old(self).crate_colors,
            final(self).logging_logging == old(self).logging_logging,
            match format {
                Some(f) => final(self).time_format matches Some(g) && g@ == f@,
                None => final(self).time_format is None,
            },
            final(self).spec_meta_effect(
                old(self).custom_sinks@,
                final(self).custom_sinks@,
                spec_set_time_text(
                    match format {
                        Some(f) => Some(f@),
                        None => None,
                    },
                ),
            ),
    {
        let text: String = match format {
            Some(f) => {
                let mut t = String::from_str("Set time format: ");
                t.append(f);
                t
            },
            None => String::from_str("Set time format: None"),
        };
        self.time_format = match format {
            Some(f) => Some(String::from_str(f)),
            None => None,
        };
        self.log_log(text.as_str());
    }

    /// Associate a display color with top-level namespace segment
    /// `crate_name`, replacing any earlier association.  Cosmetic only:
    /// colors have no effect on filtering or routing.
    pub fn set_crate_color(&mut self, crate_name: &str, color: CssColors)
        ensures
            final(self).stdout == old(self).stdout,
            final(self).filter_level == old(self).filter_level,
            final(self).time_format == old(self).time_format,
            final(self).exclude_namespaces == old(self).exclude_namespaces,
            final(self).logging_logging == old(self).logging_logging,
            spec_color_of(final(self).crate_colors@, crate_name@) == Some(color),
            forall|n: Seq<char>|
                n != crate_name@ ==> spec_color_of(final(self).crate_colors@, n) == spec_color_of(
                    old(self).crate_colors@,
                    n,
                ),
            final(self).spec_meta_effect(
                old(self).custom_sinks@,
                final(self).custom_sinks@,
                spec_set_color_text(crate_name@),
            ),
    {
        match find_color_index(&self.crate_colors, crate_name) {
            Some(j) => {
                let entry = &mut self.crate_colors[j];
                entry.1 = color;
                proof {
                    assert(self.crate_colors@ =~= old(self).crate_colors@.update(
                        j as int,
                        ((old(self).crate_colors@[j as int].0, color)),
                    ));
                    lemma_color_of_update(old(self).crate_colors@, j as int, color, crate_name@);
                    assert forall|n: Seq<char>| n != crate_name@ implies spec_color_of(
                        self.crate_colors@,
                        n,
                    ) == spec_color_of(old(self).crate_colors@, n) by {
                        lemma_color_of_update(old(self).crate_colors@, j as int, color, n);
                    };
                }
            },
            None => {
                let owned = String::from_str(crate_name);
                proof {
                    lemma_color_of_push(old(self).crate_colors@, owned, color, crate_name@);
                    assert forall|n: Seq<char>| n != crate_name@ implies spec_color_of(
                        old(self).crate_colors@.push((owned, color)),
                        n,
                    ) == spec_color_of(old(self).crate_colors@, n) by {
                        lemma_color_of_push(old(self).crate_colors@, owned, color, n);
                    };
                }
                self.crate_colors.push((owned, color));
            },
        }
        let mut text = String::from_str("Set crate color: ");
        text.append(crate_name);
        self.log_log(text.as_str());
    }

    /// The color registered for `crate_name`, if any.
    pub fn crate_color(&self, crate_name: &str) -> (r: Option<CssColors>)
        ensures
            r == spec_color_of(self.crate_colors@, crate_name@),
    {
        match find_color_index(&self.crate_colors, crate_name) {
            Some(j) => {
                proof {
                    lemma_color_of_found(self.crate_colors@, j as int, crate_name@);
                }
                Some(self.crate_colors[j].1)
            },
            None => {
                proof {
                    lemma_color_of_absent(self.crate_colors@, crate_name@);
                }
                None
            },
        }
    }

    /// Append one exclusion prefix: messages whose namespace starts with
    /// these segments are dropped from now on, whatever their severity.
    pub fn exclude_namespace(&mut self, prefix: Vec<String>)
        ensures
            final(self).stdout == old(self).stdout,
            final(self).filter_level == old(self).filter_level,
            final(self).time_format == old(self).time_format,
            final(self).crate_colors == old(self).crate_colors,
            final(self).logging_logging == old(self).logging_logging,
            final(self).custom_sinks@ == old(self).custom_sinks@,
            final(self).exclude_namespaces@ == old(self).exclude_namespaces@.push(prefix),
    {
        self.exclude_namespaces.push(prefix);
    }
}

impl<S: LogSink> Default for Logger<S> {
    /// The same logger as [`Logger::new`].
    fn default() -> (logger: Self)
        ensures
            logger.spec_is_default(),
    {
        Logger::new()
    }
}

/// Index of the first entry for `name`, if any.
fn find_color_index(entries: &Vec<(String, CssColors)>, name: &str) -> (r: Option<usize>)
    ensures
        match r {
            Some(j) => j < entries@.len() && entries@[j as int].0@ == name@ && forall|k: int|
                0 <= k < j ==> entries@[k].0@ != name@,
            None => forall|k: int| 0 <= k < entries@.len() ==> entries@[k].0@ != name@,
        },
{
    let owned = String::from_str(name);
    let mut i: usize = 0;
    while i < entries.len()
        invariant
            0 <= i <= entries@.len(),
            owned@ == name@,
            forall|k: int| 0 <= k < i ==> entries@[k].0@ != name@,
        decreases entries@.len() - i,
    {
        if entries[i].0 == owned {
            return Some(i);
        }
        i = i + 1;
    }
    None
}

/// Replacing the color of the first entry for a key changes what
/// [`spec_color_of`] finds for that key and for no other.
proof fn lemma_color_of_update(
    entries: Seq<(String, CssColors)>,
    j: int,
    color: CssColors,
    n: Seq<char>,
)
    requires
        0 <= j < entries.len(),
        forall|k: int| 0 <= k < j ==> entries[k].0@ != entries[j].0@,
    ensures
        spec_color_of(entries.update(j, ((entries[j].0, color))), n) == if n == entries[j].0@ {
            Some(color)
        } else {
            spec_color_of(entries, n)
        },
    decreases j,
{
    let updated = entries.update(j, (entries[j].0, color));
    if j == 0 {
        assert(updated[0] == (entries[0].0, color));
        if entries[0].0@ != n {
            assert(updated.skip(1) =~= entries.skip(1));
        }
    } else {
        assert(updated[0] == entries[0]);
        assert(entries[0].0@ != entries[j].0@);
        if entries[0].0@ != n {
            let tail = entries.skip(1);
            assert(tail[j - 1] == entries[j]);
            assert forall|k: int| 0 <= k < j - 1 implies (#[trigger] tail[k]).0@ != tail[j
                - 1].0@ by {
                assert(tail[k] == entries[k + 1]);
            };
            assert(updated.skip(1) =~= tail.update(j - 1, ((tail[j - 1].0, color))));
            lemma_color_of_update(tail, j - 1, color, n);
        }
    }
}

/// Appending an entry for a key not yet present changes what
/// [`spec_color_of`] finds for that key and for no other.
proof fn lemma_color_of_push(
    entries: Seq<(String, CssColors)>,
    name: String,
    color: CssColors,
    n: Seq<char>,
)
    requires
        forall|k: int| 0 <= k < entries.len() ==> entries[k].0@ != name@,
    ensures
        spec_color_of(entries.push((name, color)), n) == if n == name@ {
            Some(color)
        } else {
            spec_color_of(entries, n)
        },
    decreases entries.len(),
{
    let pushed = entries.push((name, color));
    if entries.len() == 0 {
        assert(pushed[0] == (name, color));
        assert(pushed.skip(1) =~= Seq::<(String, CssColors)>::empty());
        assert(spec_color_of(pushed.skip(1), n) is None);
        if name@ == n {
            assert(spec_color_of(pushed, n) == Some(color));
        } else {
            assert(spec_color_of(pushed, n) is None);
            assert(spec_color_of(entries, n) is None);
        }
    } else {
        assert(pushed[0] == entries[0]);
        if entries[0].0@ == n {
            assert(spec_color_of(pushed, n) == Some(entries[0].1));
            assert(spec_color_of(entries, n) == Some(entries[0].1));
        } else {
            assert(pushed.skip(1) =~= entries.skip(1).push((name, color)));
            lemma_color_of_push(entries.skip(1), name, color, n);
            assert(spec_color_of(pushed, n) == spec_color_of(pushed.skip(1), n));
            assert(spec_color_of(entries, n) == spec_color_of(entries.skip(1), n));
        }
    }
}

/// The first entry for a key is what [`spec_color_of`] finds.
proof fn lemma_color_of_found(entries: Seq<(String, CssColors)>, j: int, name: Seq<char>)
    requires
        0 <= j < entries.len(),
        entries[j].0@ == name,
        forall|k: int| 0 <= k < j ==> entries[k].0@ != name,
    ensures
        spec_color_of(entries, name) == Some(entries[j].1),
    decreases j,
{
    if j > 0 {
        assert(entries.skip(1)[j - 1] == entries[j]);
        lemma_color_of_found(entries.skip(1), j - 1, name);
    }
}

/// A key with no entry has no color.
proof fn lemma_color_of_absent(entries: Seq<(String, CssColors)>, name: Seq<char>)
    requires
        forall|k: int| 0 <= k < entries.len() ==> entries[k].0@ != name,
    ensures
        spec_color_of(entries, name) is None,
    decreases entries.len(),
{
    if entries.len() > 0 {
        lemma_color_of_absent(entries.skip(1), name);
    }
}

/// Initialize `slot` with a default logger if it holds none yet; an already
/// initialized slot is left exactly as it is, so repeated initialization
/// never resets a configuration.
pub fn ensure_init_logger<S: LogSink>(slot: &mut Option<Logger<S>>)
    ensures
        (*old(slot)) is Some ==> *final(slot) == *old(slot),
        (*old(slot)) is None ==> ((*final(slot)) matches Some(l) && l.spec_is_default()),
{
    if slot.is_none() {
        *slot = Some(Logger::new());
    }
}

} // verus!
