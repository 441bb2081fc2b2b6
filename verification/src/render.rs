//! Rendering one stdout line for a message: optional time segment, the
//! bracketed namespace (wrapped as a clickable link when a call site is
//! known), the four-character severity tag, and the message text with each
//! embedded line break re-indented to align under the header.

use vstd::prelude::*;

use crate::level::{spec_tag, LogLevel};
use crate::message::LogMessage;

verus! {

/// `n` spaces.
pub open spec fn spec_spaces(n: nat) -> Seq<char> {
    Seq::new(n, |i: int| ' ')
}

/// `text` with every line break re-indented: each `'\n'` is followed by
/// `width` spaces, so continuation lines align under a header of `width - 1`
/// visible characters plus the separating space.
pub open spec fn spec_indent(text: Seq<char>, width: nat) -> Seq<char>
    decreases text.len(),
{
    if text.len() == 0 {
        Seq::empty()
    } else if text[0] == '\n' {
        seq!['\n'] + spec_spaces(width) + spec_indent(text.skip(1), width)
    } else {
        seq![text[0]] + spec_indent(text.skip(1), width)
    }
}

/// Re-indentation distributes over concatenation.
pub proof fn lemma_indent_concat(a: Seq<char>, b: Seq<char>, width: nat)
    ensures
        spec_indent(a + b, width) == spec_indent(a, width) + spec_indent(b, width),
    decreases a.len(),
{
    if a.len() == 0 {
        assert(a + b =~= b);
        assert(spec_indent(a, width) + spec_indent(b, width) =~= spec_indent(b, width));
    } else {
        assert((a + b)[0] == a[0]);
        assert((a + b).skip(1) =~= a.skip(1) + b);
        lemma_indent_concat(a.skip(1), b, width);
        assert(spec_indent(a + b, width) =~= spec_indent(a, width) + spec_indent(b, width));
    }
}

/// Re-indentation leaves a text without line breaks as it is.
pub proof fn lemma_indent_plain(a: Seq<char>, width: nat)
    requires
        forall|k: int| 0 <= k < a.len() ==> a[k] != '\n',
    ensures
        spec_indent(a, width) == a,
    decreases a.len(),
{
    if a.len() == 0 {
        assert(spec_indent(a, width) =~= a);
    } else {
        lemma_indent_plain(a.skip(1), width);
        assert(seq![a[0]] + a.skip(1) =~= a);
    }
}

/// A string of `n` spaces.
pub fn spaces(n: usize) -> (r: String)
    ensures
        r@ == spec_spaces(n as nat),
{
    let mut r = String::new();
    let mut i: usize = 0;
    proof {
        assert(r@ =~= spec_spaces(0));
    }
    while i < n
        invariant
            i <= n,
            r@ == spec_spaces(i as nat),
        decreases n - i,
    {
        r.append(" ");
        proof {
            reveal_strlit(" ");
            assert(r@ =~= spec_spaces((i + 1) as nat));
        }
        i = i + 1;
    }
    r
}

/// `text` with `width` spaces inserted after every line break.
pub fn indent_text(text: &str, width: usize) -> (r: String)
    ensures
        r@ == spec_indent(text@, width as nat),
{
    let len = text.unicode_len();
    let pad = spaces(width);
    let mut out = String::new();
    let mut start: usize = 0;
    let mut i: usize = 0;
    proof {
        assert(text@.subrange(0, 0) =~= Seq::<char>::empty());
        assert(out@ =~= spec_indent(text@.subrange(0, 0), width as nat));
    }
    while i < len
        invariant
            len == text@.len(),
            0 <= start <= i <= len,
            pad@ == spec_spaces(width as nat),
            out@ == spec_indent(text@.subrange(0, start as int), width as nat),
            forall|k: int| start <= k < i ==> text@[k] != '\n',
        decreases len - i,
    {
        if text.get_char(i) == '\n' {
            out.append(text.substring_char(start, i));
            out.append("\n");
            out.append(pad.as_str());
            proof {
                reveal_strlit("\n");
                let w = width as nat;
                let a = text@.subrange(0, start as int);
                let chunk = text@.subrange(start as int, i as int);
                lemma_indent_plain(chunk, w);
                lemma_indent_concat(a, chunk, w);
                assert(a + chunk =~= text@.subrange(0, i as int));
                let nl = text@.subrange(i as int, i + 1);
                assert(nl.len() == 1 && nl[0] == '\n');
                lemma_indent_concat(text@.subrange(0, i as int), nl, w);
                assert(text@.subrange(0, i as int) + nl =~= text@.subrange(0, i + 1));
                assert(nl.skip(1) =~= Seq::<char>::empty());
                assert(spec_indent(Seq::<char>::empty(), w) =~= Seq::<char>::empty());
                assert(spec_indent(nl, w) =~= seq!['\n'] + spec_spaces(w) + spec_indent(
                    nl.skip(1),
                    w,
                ));
                assert(spec_indent(nl, w) =~= seq!['\n'] + spec_spaces(w));
                assert(out@ =~= spec_indent(text@.subrange(0, i + 1), w));
            }
            start = i + 1;
            i = i + 1;
        } else {
            i = i + 1;
        }
    }
    out.append(text.substring_char(start, len));
    proof {
        let w = width as nat;
        let a = text@.subrange(0, start as int);
        let chunk = text@.subrange(start as int, len as int);
        lemma_indent_plain(chunk, w);
        lemma_indent_concat(a, chunk, w);
        assert(a + chunk =~= text@.subrange(0, len as int));
        assert(text@.subrange(0, len as int) =~= text@);
    }
    out
}

/// What precedes the bracketed namespace when the message carries a call
/// site: a terminal hyperlink escape opening a link to that location.
pub open spec fn spec_link_open(origin: Option<Seq<char>>) -> Seq<char> {
    match origin {
        Some(f) => "\x1b]8;id=hi;vscode://file/"@ + f + "\x1b\\"@,
        None => Seq::empty(),
    }
}

/// What follows the bracketed namespace when the message carries a call
/// site: the escape closing the link.
pub open spec fn spec_link_close(origin: Option<Seq<char>>) -> Seq<char> {
    match origin {
        Some(_) => "\x1b]8;;\x1b\\"@,
        None => Seq::empty(),
    }
}

/// Visible width of the line's header: the time segment, the namespace in
/// its brackets, a space, and the four-character severity tag.  The link
/// escapes print nothing and do not count.
pub open spec fn spec_header_width(ts: Seq<char>, ns: Seq<char>) -> nat {
    ts.len() + ns.len() + 7
}

/// The full rendered line for one message, given the already-formatted time
/// segment `ts` (empty when no time format is configured): header, a space,
/// then the text with continuation lines aligned under the header.
pub open spec fn spec_render_line(
    ts: Seq<char>,
    ns: Seq<char>,
    level: LogLevel,
    text: Seq<char>,
    origin: Option<Seq<char>>,
) -> Seq<char> {
    ts + spec_link_open(origin) + "["@ + ns + "]"@ + spec_link_close(origin) + " "@ + spec_tag(
        level,
    ) + " "@ + spec_indent(text, spec_header_width(ts, ns) + 1)
}

/// Render the stdout line for `message`, with `time_segment` (already
/// formatted, trailing space included) in front.
pub fn render_line(time_segment: &str, message: &LogMessage) -> (r: String)
    requires
        time_segment@.len() + message@.namespace.len() + 8 <= usize::MAX,
    ensures
        r@ == spec_render_line(
            time_segment@,
            message@.namespace,
            message@.level,
            message@.message,
            message@.filename,
        ),
{
    let ts_len = time_segment.unicode_len();
    let ns_len = message.namespace.as_str().unicode_len();
    let width = ts_len + ns_len + 8;
    let mut line = String::from_str(time_segment);
    match &message.filename {
        Some(f) => {
            line.append("\x1b]8;id=hi;vscode://file/");
            line.append(f.as_str());
            line.append("\x1b\\");
        },
        None => {},
    }
    line.append("[");
    line.append(message.namespace.as_str());
    line.append("]");
    match &message.filename {
        Some(_) => {
            line.append("\x1b]8;;\x1b\\");
        },
        None => {},
    }
    line.append(" ");
    line.append(message.level.tag());
    line.append(" ");
    let indented = indent_text(message.message.as_str(), width);
    line.append(indented.as_str());
    proof {
        assert(line@ =~= spec_render_line(
            time_segment@,
            message@.namespace,
            message@.level,
            message@.message,
            message@.filename,
        ));
    }
    line
}

} // verus!
