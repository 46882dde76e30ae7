//! Capture of an upstream's stderr into its log file: the byte stream is cut
//! into lines at `\n`, each line keeps at most 8 KiB and is marked when cut
//! short, and every logged line has the registered secrets redacted.

use vstd::prelude::*;

use crate::redact::{redact, redact_seq, SecretSet};
use crate::text::{push_str, string_of};

verus! {

/// The most bytes of one stderr line that are kept.
pub const MAX_LOG_LINE_BYTES: usize = 8192;

/// Appended to a line that was cut short.
pub const LOG_LINE_TRUNCATED_MARKER: &'static str = "... [truncated]";

/// The bytes after the last `\n` of a stream: the line still being read.
pub open spec fn pending(s: Seq<u8>) -> Seq<u8>
    decreases s.len(),
{
    if s.len() == 0 {
        Seq::empty()
    } else if s.last() == 10u8 {
        Seq::empty()
    } else {
        pending(s.drop_last()).push(s.last())
    }
}

/// The complete lines of a stream: the bytes before each `\n`, in order.
pub open spec fn segments(s: Seq<u8>) -> Seq<Seq<u8>>
    decreases s.len(),
{
    if s.len() == 0 {
        Seq::empty()
    } else if s.last() == 10u8 {
        segments(s.drop_last()).push(pending(s.drop_last()))
    } else {
        segments(s.drop_last())
    }
}

/// A line as it is logged: its first [`MAX_LOG_LINE_BYTES`] bytes, and
/// whether bytes were dropped.
pub open spec fn cut(line: Seq<u8>) -> (Seq<u8>, bool) {
    if line.len() <= MAX_LOG_LINE_BYTES {
        (line, false)
    } else {
        (line.take(MAX_LOG_LINE_BYTES as int), true)
    }
}

/// Lines as they are logged.
pub open spec fn cut_all(lines: Seq<Seq<u8>>) -> Seq<(Seq<u8>, bool)> {
    lines.map_values(|l: Seq<u8>| cut(l))
}

/// Emitted lines taken as byte sequences.
pub open spec fn line_views(v: Seq<(Vec<u8>, bool)>) -> Seq<(Seq<u8>, bool)> {
    v.map_values(|e: (Vec<u8>, bool)| (e.0@, e.1))
}

/// The line splitter of one upstream's stderr.
pub struct StderrLines {
    line: Vec<u8>,
    truncated: bool,
    seen: Ghost<Seq<u8>>,
}

impl StderrLines {
    #[verifier::type_invariant]
    spec fn kept_line(self) -> bool {
        (self.line@, self.truncated) == cut(pending(self.seen@))
    }

    /// Every byte read so far.
    pub closed spec fn stream(&self) -> Seq<u8> {
        self.seen@
    }

    /// A splitter that has read nothing.
    pub fn new() -> (r: Self)
        ensures
            r.stream() == Seq::<u8>::empty(),
    {
        StderrLines { line: Vec::new(), truncated: false, seen: Ghost(Seq::empty()) }
    }

    /// Read one chunk: returns the lines the chunk completes, in order. Lines
    /// come out the same however the stream is split into chunks: after any
    /// sequence of reads, the lines returned are the stream's complete
    /// lines, each cut to [`MAX_LOG_LINE_BYTES`].
    pub fn feed(self, chunk: &[u8]) -> (r: (Self, Vec<(Vec<u8>, bool)>))
        ensures
            r.0.stream() == self.stream() + chunk@,
            cut_all(segments(r.0.stream())) == cut_all(segments(self.stream())) + line_views(r.1@),
    {
        proof {
            use_type_invariant(&self);
        }
        let StderrLines { line, truncated, seen } = self;
        let mut line = line;
        let mut truncated = truncated;
        let ghost start = seen@;
        let ghost mut s = seen@;
        let mut out: Vec<(Vec<u8>, bool)> = Vec::new();
        let mut i: usize = 0;
        while i < chunk.len()
            invariant
                i <= chunk.len(),
                s == start + chunk@.take(i as int),
                (line@, truncated) == cut(pending(s)),
                cut_all(segments(s)) == cut_all(segments(start)) + line_views(out@),
            decreases chunk.len() - i,
        {
            let b = chunk[i];
            let ghost s1 = s.push(b);
            assert(s1.drop_last() =~= s);
            assert(start + chunk@.take(i + 1) =~= s1);
            if b == 10u8 {
                let ghost before = line_views(out@);
                out.push((line, truncated));
                assert(line_views(out@) =~= before.push(cut(pending(s))));
                assert(cut_all(segments(s1)) =~= cut_all(segments(s)).push(cut(pending(s))));
                line = Vec::new();
                truncated = false;
                assert(line@ =~= Seq::<u8>::empty());
            } else if line.len() < MAX_LOG_LINE_BYTES {
                line.push(b);
                assert(pending(s1) == pending(s).push(b));
                assert(segments(s1) == segments(s));
            } else {
                truncated = true;
                assert(pending(s1) == pending(s).push(b));
                assert(pending(s1).take(MAX_LOG_LINE_BYTES as int) =~= pending(s).take(
                    MAX_LOG_LINE_BYTES as int,
                ));
                assert(segments(s1) == segments(s));
            }
            proof {
                s = s1;
            }
            i = i + 1;
        }
        assert(chunk@.take(chunk.len() as int) =~= chunk@);
        (StderrLines { line, truncated, seen: Ghost(s) }, out)
    }

    /// End of stream: the partial line still being read, if any bytes of it
    /// were read.
    pub fn finish(self) -> (r: Option<(Vec<u8>, bool)>)
        ensures
            match r {
                Some((l, t)) => pending(self.stream()).len() > 0 && (l@, t) == cut(
                    pending(self.stream()),
                ),
                None => pending(self.stream()).len() == 0,
            },
    {
        proof {
            use_type_invariant(&self);
        }
        let StderrLines { line, truncated, seen } = self;
        if line.len() > 0 || truncated {
            Some((line, truncated))
        } else {
            None
        }
    }
}

/// A logged line without one trailing carriage return.
pub open spec fn strip_cr(b: Seq<u8>) -> Seq<u8> {
    if b.len() > 0 && b.last() == 13u8 {
        b.drop_last()
    } else {
        b
    }
}

/// What `String::from_utf8_lossy` makes of a byte sequence.
pub uninterp spec fn utf8_lossy(bytes: Seq<u8>) -> Seq<char>;

/// Decodes bytes as UTF-8, replacing each invalid sequence with U+FFFD.
///
/// Calls `String::from_utf8_lossy`; the contract names its result, which
/// depends on the bytes alone, and says nothing more of it.
#[verifier::external_body]
fn decode_lossy(bytes: &[u8]) -> (r: String)
    ensures
        r@ == utf8_lossy(bytes@),
{
    String::from_utf8_lossy(bytes).into_owned()
}

/// The text of a logged stderr line before redaction: the kept bytes
/// without a trailing `\r`, decoded, then the truncation marker when bytes
/// were dropped.
pub open spec fn line_text(bytes: Seq<u8>, truncated: bool) -> Seq<char> {
    utf8_lossy(strip_cr(bytes)) + if truncated {
        LOG_LINE_TRUNCATED_MARKER@
    } else {
        Seq::empty()
    }
}

/// Render one captured stderr line for the log, with every registered
/// secret redacted.
pub fn stderr_line_text(secrets: &SecretSet, bytes: &Vec<u8>, truncated: bool) -> (r: String)
    ensures
        r@ == redact_seq(line_text(bytes@, truncated), secrets.contents()),
{
    let n = bytes.len();
    let mut kept: Vec<u8> = Vec::new();
    let keep = if n > 0 && bytes[n - 1] == 13u8 {
        n - 1
    } else {
        n
    };
    let mut i: usize = 0;
    while i < keep
        invariant
            i <= keep <= n,
            n == bytes.len(),
            kept@ == bytes@.take(i as int),
        decreases keep - i,
    {
        kept.push(bytes[i]);
        assert(bytes@.take(i + 1) =~= bytes@.take(i as int).push(bytes@[i as int]));
        i = i + 1;
    }
    assert(kept@ =~= strip_cr(bytes@));
    let mut text = decode_lossy(kept.as_slice());
    if truncated {
        push_str(&mut text, LOG_LINE_TRUNCATED_MARKER);
    } else {
        assert(text@ + Seq::<char>::empty() =~= text@);
    }
    redact(secrets, text.as_str())
}

/// One line of a server's log file: `[server] line`, with every registered
/// secret redacted from the line.
pub fn log_file_line(secrets: &SecretSet, server: &str, line: &str) -> (r: String)
    ensures
        r@ == "["@ + server@ + "] "@ + redact_seq(line@, secrets.contents()) + "\n"@,
{
    let redacted = redact(secrets, line);
    let mut out = string_of("[");
    push_str(&mut out, server);
    push_str(&mut out, "] ");
    push_str(&mut out, redacted.as_str());
    push_str(&mut out, "\n");
    out
}

} // verus!
