//! Server-Sent Events as cloud providers stream them: `data:` payloads,
//! comments, `event:` lines, blank-line delimiters and an optional end
//! sentinel such as `[DONE]`.
use vstd::prelude::*;

use crate::text::{chars_of, slice_range, starts_with, starts_with_chars, string_of, trim, trim_chars};

verus! {

broadcast use vstd::string::group_string_axioms;

/// What one SSE line means.
pub enum LineEvent {
    /// Nothing to deliver: a blank line, a comment, an `event:` line, a line
    /// of another field, or an empty payload.
    Skip,
    /// The end sentinel: the stream is over.
    Done,
    /// A payload to deliver.
    Payload(Vec<char>),
}

/// The payload of a `data:` line (after `data: `, else after `data:`).
pub open spec fn data_payload(line: Seq<char>) -> Option<Seq<char>> {
    if starts_with(line, "data: "@) {
        Some(line.skip(6))
    } else if starts_with(line, "data:"@) {
        Some(line.skip(5))
    } else {
        None
    }
}

/// The meaning of a line, as a payload (`Some(Some(p))`), the end sentinel
/// (`Some(None)`), or nothing (`None`).
pub open spec fn line_meaning(line: Seq<char>, sentinel: Option<Seq<char>>) -> Option<
    Option<Seq<char>>,
> {
    if line.len() == 0 || starts_with(line, ":"@) || starts_with(line, "event:"@) {
        None
    } else {
        match data_payload(line) {
            None => None,
            Some(d) => if sentinel is Some && trim(d) == sentinel->0 {
                Some(None)
            } else if trim(d).len() == 0 {
                None
            } else {
                Some(Some(d))
            },
        }
    }
}

/// The exec event matches its meaning.
pub open spec fn event_means(e: LineEvent, m: Option<Option<Seq<char>>>) -> bool {
    match e {
        LineEvent::Skip => m is None,
        LineEvent::Done => m == Some(None::<Seq<char>>),
        LineEvent::Payload(p) => m == Some(Some(p@)),
    }
}

fn starts_with_str(line: &[char], p: &str) -> (r: bool)
    ensures
        r == starts_with(line@, p@),
{
    let pc = chars_of(p);
    starts_with_chars(line, &pc)
}

/// The meaning of one SSE line.
pub fn classify_line(line: &[char], sentinel: Option<&Vec<char>>) -> (e: LineEvent)
    ensures
        event_means(
            e,
            line_meaning(
                line@,
                match sentinel {
                    Some(s) => Some(s@),
                    None => None,
                },
            ),
        ),
{
    if line.len() == 0 || starts_with_str(line, ":") || starts_with_str(line, "event:") {
        return LineEvent::Skip;
    }
    let data = if starts_with_str(line, "data: ") {
        proof {
            reveal_strlit("data: ");
        }
        slice_range(line, 6, line.len())
    } else if starts_with_str(line, "data:") {
        proof {
            reveal_strlit("data:");
        }
        slice_range(line, 5, line.len())
    } else {
        return LineEvent::Skip;
    };
    proof {
        assert(data@ == data_payload(line@)->0);
    }
    let t = trim_chars(&data);
    if let Some(s) = sentinel {
        if crate::text::chars_eq(&t, s) {
            return LineEvent::Done;
        }
    }
    if t.len() == 0 {
        LineEvent::Skip
    } else {
        LineEvent::Payload(data)
    }
}

/// `s` without one trailing carriage return.
pub open spec fn strip_cr(s: Seq<char>) -> Seq<char> {
    if s.len() > 0 && s.last() == '\r' {
        s.drop_last()
    } else {
        s
    }
}

/// The payloads of a whole SSE text: its lines (`str::lines`: split at
/// `\n`, a `\r` before it dropped, no empty last line) trimmed and read in
/// order, up to the end sentinel. `cur` is the part of the current line read
/// so far, `rest` the text after it.
pub open spec fn sse_scan(cur: Seq<char>, rest: Seq<char>, sentinel: Option<Seq<char>>) -> Seq<
    Seq<char>,
>
    decreases rest.len(),
{
    if rest.len() == 0 {
        if cur.len() == 0 {
            Seq::empty()
        } else {
            deliver(line_meaning(trim(cur), sentinel), Seq::empty())
        }
    } else if rest[0] == '\n' {
        deliver(
            line_meaning(trim(strip_cr(cur)), sentinel),
            sse_scan(Seq::empty(), rest.drop_first(), sentinel),
        )
    } else {
        sse_scan(cur.push(rest[0]), rest.drop_first(), sentinel)
    }
}

/// The payloads delivered by one line followed by those of the lines after
/// it.
pub open spec fn deliver(m: Option<Option<Seq<char>>>, next: Seq<Seq<char>>) -> Seq<Seq<char>> {
    match m {
        None => next,
        Some(None) => Seq::empty(),
        Some(Some(p)) => seq![p] + next,
    }
}

/// The payloads of an SSE text.
pub open spec fn sse_payloads(raw: Seq<char>, sentinel: Option<Seq<char>>) -> Seq<Seq<char>> {
    sse_scan(Seq::empty(), raw, sentinel)
}

/// The payloads of an SSE text, in order, stopping at the end sentinel
/// when one is given.
pub fn parse_sse_lines(raw: &str, done_sentinel: Option<&str>) -> (r: Vec<String>)
    ensures
        r@.map_values(|s: String| s@) == sse_payloads(
            raw@,
            match done_sentinel {
                Some(s) => Some(s@),
                None => None,
            },
        ),
{
    let ghost sent = match done_sentinel {
        Some(s) => Some(s@),
        None => None::<Seq<char>>,
    };
    let sentinel: Option<Vec<char>> = match done_sentinel {
        Some(s) => Some(chars_of(s)),
        None => None,
    };
    let text = chars_of(raw);
    let mut out: Vec<String> = Vec::new();
    let mut cur: Vec<char> = Vec::new();
    let mut i: usize = 0;
    proof {
        assert(text@.skip(0) =~= text@);
        assert(out@.map_values(|s: String| s@) + sse_scan(cur@, text@, sent) =~= sse_scan(
            cur@,
            text@,
            sent,
        ));
        assert(cur@ =~= Seq::<char>::empty());
    }
    while i < text.len()
        invariant
            i <= text@.len(),
            text@ == raw@,
            sent == match done_sentinel {
                Some(s) => Some(s@),
                None => None::<Seq<char>>,
            },
            sent == match sentinel {
                Some(s) => Some(s@),
                None => None::<Seq<char>>,
            },
            sse_payloads(raw@, sent) == out@.map_values(|s: String| s@) + sse_scan(
                cur@,
                text@.skip(i as int),
                sent,
            ),
        decreases text@.len() - i,
    {
        let ghost rest = text@.skip(i as int);
        proof {
            assert(rest.drop_first() =~= text@.skip(i + 1));
            assert(rest[0] == text@[i as int]);
        }
        let c = text[i];
        if c == '\n' {
            let line = if cur.len() > 0 && cur[cur.len() - 1] == '\r' {
                slice_range(&cur, 0, cur.len() - 1)
            } else {
                slice_range(&cur, 0, cur.len())
            };
            proof {
                assert(line@ =~= strip_cr(cur@));
            }
            let t = trim_chars(&line);
            let ev = classify_line(&t, sentinel.as_ref());
            match ev {
                LineEvent::Skip => {},
                LineEvent::Done => {
                    proof {
                        assert(line_meaning(trim(strip_cr(cur@)), sent) == Some(None::<Seq<char>>));
                        assert(sse_scan(cur@, rest, sent) == Seq::<Seq<char>>::empty());
                        assert(out@.map_values(|s: String| s@) + Seq::<Seq<char>>::empty()
                            =~= out@.map_values(|s: String| s@));
                    }
                    return out;
                },
                LineEvent::Payload(p) => {
                    let ghost before = out@;
                    out.push(string_of(&p));
                    proof {
                        assert(out@.map_values(|s: String| s@) =~= before.map_values(
                            |s: String| s@,
                        ).push(p@));
                        assert(out@.map_values(|s: String| s@) + sse_scan(
                            Seq::empty(),
                            text@.skip(i + 1),
                            sent,
                        ) =~= before.map_values(|s: String| s@) + (seq![p@] + sse_scan(
                            Seq::empty(),
                            text@.skip(i + 1),
                            sent,
                        )));
                    }
                },
            }
            cur = Vec::new();
        } else {
            cur.push(c);
        }
        i = i + 1;
    }
    if cur.len() > 0 {
        let t = trim_chars(&cur);
        let ev = classify_line(&t, sentinel.as_ref());
        match ev {
            LineEvent::Payload(p) => {
                let ghost before = out@;
                out.push(string_of(&p));
                proof {
                    assert(out@.map_values(|s: String| s@) =~= before.map_values(|s: String| s@).push(
                        p@,
                    ));
                }
            },
            _ => {},
        }
    }
    proof {
        assert(text@.skip(text@.len() as int).len() == 0);
    }
    out
}

/// `s` without its trailing carriage returns.
pub open spec fn trim_end_cr(s: Seq<char>) -> Seq<char>
    decreases s.len(),
{
    if s.len() > 0 && s.last() == '\r' {
        trim_end_cr(s.drop_last())
    } else {
        s
    }
}

/// What a stream buffer yields: the payloads of its complete lines (split
/// at `\n`, trailing `\r`s dropped, not trimmed), whether the end sentinel
/// was met, and the unfinished last line. `cur` is the part of the current
/// line read so far, `rest` what follows.
pub open spec fn stream_scan(cur: Seq<char>, rest: Seq<char>, sentinel: Option<Seq<char>>) -> (
    Seq<Seq<char>>,
    bool,
    Seq<char>,
)
    decreases rest.len(),
{
    if rest.len() == 0 {
        (Seq::empty(), false, cur)
    } else if rest[0] == '\n' {
        let next = stream_scan(Seq::empty(), rest.drop_first(), sentinel);
        match line_meaning(trim_end_cr(cur), sentinel) {
            None => next,
            Some(None) => (Seq::empty(), true, Seq::empty()),
            Some(Some(p)) => (seq![p] + next.0, next.1, next.2),
        }
    } else {
        stream_scan(cur.push(rest[0]), rest.drop_first(), sentinel)
    }
}

/// Where a response body is cut into chunks does not matter: scanning one
/// chunk and then the next (from the line held back) yields the same
/// payloads, end flag and held-back line as scanning both at once; after
/// the end sentinel nothing more is read.
pub proof fn chunking_does_not_matter(
    cur: Seq<char>,
    a: Seq<char>,
    b: Seq<char>,
    sentinel: Option<Seq<char>>,
)
    ensures
        ({
            let first = stream_scan(cur, a, sentinel);
            let second = stream_scan(first.2, b, sentinel);
            let whole = stream_scan(cur, a + b, sentinel);
            if first.1 {
                whole == first
            } else {
                whole == (first.0 + second.0, second.1, second.2)
            }
        }),
    decreases a.len(),
{
    if a.len() == 0 {
        assert(a + b =~= b);
        assert(stream_scan(cur, a, sentinel).0 + stream_scan(cur, b, sentinel).0 =~= stream_scan(cur, b, sentinel).0);
    } else {
        let ab = a + b;
        assert(ab[0] == a[0]);
        assert(ab.drop_first() =~= a.drop_first() + b);
        if a[0] == '\n' {
            chunking_does_not_matter(Seq::empty(), a.drop_first(), b, sentinel);
            let nf = stream_scan(Seq::<char>::empty(), a.drop_first(), sentinel);
            let second = stream_scan(nf.2, b, sentinel);
            match line_meaning(trim_end_cr(cur), sentinel) {
                None => {},
                Some(None) => {},
                Some(Some(p)) => {
                    if !nf.1 {
                        assert(seq![p] + (nf.0 + second.0) =~= (seq![p] + nf.0) + second.0);
                    }
                },
            }
        } else {
            chunking_does_not_matter(cur.push(a[0]), a.drop_first(), b, sentinel);
        }
    }
}

/// Every complete line (ended by `\n`) of the text is clean: trimming it
/// after dropping one trailing `\r` gives the same as dropping all its
/// trailing `\r`s, i.e. it has no leading whitespace and no trailing blanks
/// other than carriage returns. `cur` is the part of the current line read
/// so far, `rest` what follows.
pub open spec fn lines_clean(cur: Seq<char>, rest: Seq<char>) -> bool
    decreases rest.len(),
{
    if rest.len() == 0 {
        true
    } else if rest[0] == '\n' {
        trim(strip_cr(cur)) == trim_end_cr(cur) && lines_clean(Seq::empty(), rest.drop_first())
    } else {
        lines_clean(cur.push(rest[0]), rest.drop_first())
    }
}

/// No line break in `s`.
pub open spec fn no_newline(s: Seq<char>) -> bool {
    forall|i: int| 0 <= i < s.len() ==> s[i] != '\n'
}

/// Reading an unfinished line piece by piece is reading it whole.
proof fn lemma_scan_unbroken(cur: Seq<char>, rest: Seq<char>, sentinel: Option<Seq<char>>)
    requires
        no_newline(rest),
    ensures
        sse_scan(cur, rest, sentinel) == sse_scan(cur + rest, Seq::empty(), sentinel),
    decreases rest.len(),
{
    if rest.len() == 0 {
        assert(cur + rest =~= cur);
    } else {
        assert(rest[0] != '\n');
        assert(no_newline(rest.drop_first()));
        lemma_scan_unbroken(cur.push(rest[0]), rest.drop_first(), sentinel);
        assert(cur.push(rest[0]) + rest.drop_first() =~= cur + rest);
    }
}

proof fn lemma_stream_then_finish(cur: Seq<char>, rest: Seq<char>, sentinel: Option<Seq<char>>)
    requires
        no_newline(cur),
        lines_clean(cur, rest),
    ensures
        ({
            let s = stream_scan(cur, rest, sentinel);
            sse_scan(cur, rest, sentinel) == s.0 + if s.1 {
                Seq::<Seq<char>>::empty()
            } else {
                sse_scan(Seq::empty(), s.2, sentinel)
            }
        }),
    decreases rest.len(),
{
    if rest.len() == 0 {
        lemma_scan_unbroken(Seq::empty(), cur, sentinel);
        assert(Seq::<char>::empty() + cur =~= cur);
        assert(rest =~= Seq::<char>::empty());
        let t = sse_scan(Seq::empty(), cur, sentinel);
        assert(Seq::<Seq<char>>::empty() + t =~= t);
    } else if rest[0] == '\n' {
        assert(no_newline(Seq::<char>::empty()));
        lemma_stream_then_finish(Seq::empty(), rest.drop_first(), sentinel);
        let next = stream_scan(Seq::empty(), rest.drop_first(), sentinel);
        let tail = if next.1 {
            Seq::<Seq<char>>::empty()
        } else {
            sse_scan(Seq::empty(), next.2, sentinel)
        };
        match line_meaning(trim_end_cr(cur), sentinel) {
            None => {},
            Some(None) => {
                assert(Seq::<Seq<char>>::empty() + Seq::<Seq<char>>::empty() =~= Seq::<
                    Seq<char>,
                >::empty());
            },
            Some(Some(p)) => {
                assert(seq![p] + (next.0 + tail) =~= (seq![p] + next.0) + tail);
            },
        }
    } else {
        assert(no_newline(cur.push(rest[0])));
        lemma_stream_then_finish(cur.push(rest[0]), rest.drop_first(), sentinel);
    }
}

/// Decoding a body as a stream (its complete lines as they arrive, then the
/// held-back rest at the end) yields exactly the payloads that
/// `parse_sse_lines` reads from the whole text, when every complete line is
/// clean. By `chunking_does_not_matter` this holds however the body was cut
/// into chunks.
pub proof fn decoder_agrees_with_whole_text_parse(text: Seq<char>, sentinel: Option<Seq<char>>)
    requires
        lines_clean(Seq::empty(), text),
    ensures
        ({
            let s = stream_scan(Seq::empty(), text, sentinel);
            sse_payloads(text, sentinel) == s.0 + if s.1 {
                Seq::<Seq<char>>::empty()
            } else {
                sse_payloads(s.2, sentinel)
            }
        }),
{
    assert(no_newline(Seq::<char>::empty()));
    lemma_stream_then_finish(Seq::empty(), text, sentinel);
}

/// What the stream yields for one payload, given what the payload parser
/// made of it: the item when it made one; nothing when it skipped the
/// payload (`Ok(None)`) or failed on it.
pub open spec fn yield_of<T>(parsed: Result<Option<T>, String>) -> Option<T> {
    match parsed {
        Ok(Some(t)) => Some(t),
        _ => None,
    }
}

/// The items yielded for a sequence of parsed payloads, in order.
pub open spec fn yielded<T>(parsed: Seq<Result<Option<T>, String>>) -> Seq<T>
    decreases parsed.len(),
{
    if parsed.len() == 0 {
        Seq::empty()
    } else {
        yielded(parsed.drop_last()) + match yield_of(parsed.last()) {
            Some(t) => seq![t],
            None => Seq::empty(),
        }
    }
}

/// The item to yield for one payload, from the payload parser's result.
pub fn yielded_item<T>(parsed: Result<Option<T>, String>) -> (r: Option<T>)
    ensures
        r == yield_of(parsed),
{
    match parsed {
        Ok(Some(t)) => Some(t),
        _ => None,
    }
}

/// Yielding payload by payload is yielding for all of them: the items of
/// two runs of payloads are those of the first run followed by those of the
/// second, so a stream that yields each payload's item as it comes yields
/// `yielded` of all its payloads, in order.
pub proof fn yielded_items_concatenate<T>(
    a: Seq<Result<Option<T>, String>>,
    b: Seq<Result<Option<T>, String>>,
)
    ensures
        yielded(a + b) == yielded(a) + yielded(b),
    decreases b.len(),
{
    if b.len() == 0 {
        assert(a + b =~= a);
        assert(yielded(a) + yielded(b) =~= yielded(a));
    } else {
        yielded_items_concatenate(a, b.drop_last());
        assert((a + b).drop_last() =~= a + b.drop_last());
        assert((a + b).last() == b.last());
        let tail: Seq<T> = match yield_of(b.last()) {
            Some(t) => seq![t],
            None => Seq::empty(),
        };
        assert(yielded(a) + yielded(b.drop_last()) + tail =~= yielded(a) + (yielded(b.drop_last())
            + tail));
    }
}

/// Incremental SSE decoder: chunks of a response body go in, payloads come
/// out as soon as their lines are complete.
pub struct SseDecoder {
    buffer: Vec<char>,
    sentinel: Option<Vec<char>>,
    done: bool,
}

impl SseDecoder {
    /// The unfinished line held back.
    pub closed spec fn pending(&self) -> Seq<char> {
        self.buffer@
    }

    /// The end sentinel, if any.
    pub closed spec fn end_sentinel(&self) -> Option<Seq<char>> {
        match self.sentinel {
            Some(s) => Some(s@),
            None => None,
        }
    }

    /// The end sentinel was met or the stream was finished.
    pub closed spec fn is_done(&self) -> bool {
        self.done
    }

    /// A decoder that stops at `done_sentinel`, when given.
    pub fn new(done_sentinel: Option<&str>) -> (d: SseDecoder)
        ensures
            d.pending().len() == 0,
            d.end_sentinel() == match done_sentinel {
                Some(s) => Some(s@),
                None => None::<Seq<char>>,
            },
            !d.is_done(),
    {
        SseDecoder {
            buffer: Vec::new(),
            sentinel: match done_sentinel {
                Some(s) => Some(chars_of(s)),
                None => None,
            },
            done: false,
        }
    }

    /// Feed the next chunk of the body; returns the payloads of the lines it
    /// completes.
    pub fn push_chunk(&mut self, text: &str) -> (r: Vec<String>)
        ensures
            final(self).end_sentinel() == old(self).end_sentinel(),
            old(self).is_done() ==> r@.len() == 0 && final(self).is_done(),
            !old(self).is_done() ==> ({
                let s = stream_scan(Seq::empty(), old(self).pending() + text@, old(self).end_sentinel());
                &&& r@.map_values(|p: String| p@) == s.0
                &&& final(self).is_done() == s.1
                &&& final(self).pending() == s.2
            }),
    {
        if self.done {
            return Vec::new();
        }
        let ghost sent = self.end_sentinel();
        let ghost whole = self.buffer@ + text@;
        let incoming = chars_of(text);
        let mut all: Vec<char> = Vec::new();
        let mut k: usize = 0;
        while k < self.buffer.len()
            invariant
                k <= self.buffer@.len(),
                all@ == self.buffer@.take(k as int),
            decreases self.buffer@.len() - k,
        {
            all.push(self.buffer[k]);
            proof {
                assert(self.buffer@.take(k + 1) =~= self.buffer@.take(k as int).push(
                    self.buffer@[k as int],
                ));
            }
            k = k + 1;
        }
        let mut k: usize = 0;
        while k < incoming.len()
            invariant
                k <= incoming@.len(),
                all@ == self.buffer@ + incoming@.take(k as int),
            decreases incoming@.len() - k,
        {
            all.push(incoming[k]);
            proof {
                assert(incoming@.take(k + 1) =~= incoming@.take(k as int).push(
                    incoming@[k as int],
                ));
            }
            k = k + 1;
        }
        proof {
            assert(self.buffer@.take(self.buffer@.len() as int) =~= self.buffer@);
            assert(incoming@.take(incoming@.len() as int) =~= incoming@);
            assert(all@ =~= whole);
        }
        let mut out: Vec<String> = Vec::new();
        let mut cur: Vec<char> = Vec::new();
        let mut i: usize = 0;
        proof {
            assert(all@.skip(0) =~= all@);
            assert(cur@ =~= Seq::<char>::empty());
            let total = stream_scan(Seq::empty(), whole, sent);
            assert(out@.map_values(|s: String| s@) + total.0 =~= total.0);
        }
        while i < all.len()
            invariant
                i <= all@.len(),
                all@ == whole,
                whole == old(self).buffer@ + text@,
                *self == *old(self),
                !self.done,
                sent == match self.sentinel {
                    Some(s) => Some(s@),
                    None => None::<Seq<char>>,
                },
                ({
                    let total = stream_scan(Seq::empty(), whole, sent);
                    let tail = stream_scan(cur@, all@.skip(i as int), sent);
                    &&& total.0 == out@.map_values(|s: String| s@) + tail.0
                    &&& total.1 == tail.1
                    &&& total.2 == tail.2
                }),
            decreases all@.len() - i,
        {
            let ghost rest = all@.skip(i as int);
            proof {
                assert(rest.drop_first() =~= all@.skip(i + 1));
                assert(rest[0] == all@[i as int]);
            }
            let c = all[i];
            if c == '\n' {
                let mut end = cur.len();
                proof {
                    assert(cur@.take(cur@.len() as int) =~= cur@);
                }
                while end > 0 && cur[end - 1] == '\r'
                    invariant
                        end <= cur@.len(),
                        trim_end_cr(cur@) == trim_end_cr(cur@.take(end as int)),
                    decreases end,
                {
                    proof {
                        assert(cur@.take(end as int).drop_last() =~= cur@.take(end - 1));
                    }
                    end = end - 1;
                }
                let line = slice_range(&cur, 0, end);
                proof {
                    assert(cur@.take(cur@.len() as int) =~= cur@);
                    assert(line@ =~= cur@.take(end as int));
                }
                let ev = classify_line(&line, self.sentinel.as_ref());
                match ev {
                    LineEvent::Skip => {},
                    LineEvent::Done => {
                        self.done = true;
                        self.buffer = Vec::new();
                        proof {
                            assert(self.buffer@ =~= Seq::<char>::empty());
                            assert(out@.map_values(|s: String| s@) + Seq::<Seq<char>>::empty()
                                =~= out@.map_values(|s: String| s@));
                        }
                        return out;
                    },
                    LineEvent::Payload(p) => {
                        let ghost before = out@;
                        out.push(string_of(&p));
                        proof {
                            let next = stream_scan(Seq::empty(), all@.skip(i + 1), sent);
                            assert(out@.map_values(|s: String| s@) =~= before.map_values(
                                |s: String| s@,
                            ).push(p@));
                            assert(out@.map_values(|s: String| s@) + next.0 =~= before.map_values(
                                |s: String| s@,
                            ) + (seq![p@] + next.0));
                        }
                    },
                }
                cur = Vec::new();
            } else {
                cur.push(c);
            }
            i = i + 1;
        }
        proof {
            assert(all@.skip(all@.len() as int).len() == 0);
            assert(out@.map_values(|s: String| s@) + Seq::<Seq<char>>::empty() =~= out@.map_values(
                |s: String| s@,
            ));
        }
        self.buffer = cur;
        out
    }

    /// Whether the end sentinel was met or the stream finished: no more
    /// payloads will come, so the body need not be read further.
    pub fn finished(&self) -> (r: bool)
        ensures
            r == self.is_done(),
    {
        self.done
    }

    /// End of the body: the payloads of what was held back, read as a whole
    /// SSE text; the decoder is done afterwards.
    pub fn finish(&mut self) -> (r: Vec<String>)
        ensures
            final(self).is_done(),
            final(self).end_sentinel() == old(self).end_sentinel(),
            old(self).is_done() ==> r@.len() == 0,
            !old(self).is_done() ==> r@.map_values(|p: String| p@) == sse_payloads(
                old(self).pending(),
                old(self).end_sentinel(),
            ),
    {
        if self.done {
            return Vec::new();
        }
        let pending = string_of(&self.buffer);
        let r = match &self.sentinel {
            Some(s) => {
                let st = string_of(s);
                parse_sse_lines(pending.as_str(), Some(st.as_str()))
            },
            None => parse_sse_lines(pending.as_str(), None),
        };
        self.buffer = Vec::new();
        self.done = true;
        r
    }
}

} // verus!
