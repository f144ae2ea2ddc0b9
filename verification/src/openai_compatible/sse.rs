//! Server-sent events framing for streamed chat completions: bytes arrive in
//! arbitrary chunks, are cut into newline-terminated lines, decoded as UTF-8,
//! and each `data:` line yields its payload.
use crate::openai_compatible::errors::OpenAiClientError;
use crate::text::{
    chars_of, is_whitespace, lemma_trim_range, lemma_trim_start_skip, skip_whitespace,
    skip_whitespace_back, trim, trim_start,
};
use std::str::Utf8Error;
use vstd::prelude::*;
use vstd::slice::{slice_subrange, slice_to_vec};
use vstd::string::StrSliceExecFns;
use vstd::utf8::{decode_utf8, valid_utf8};

verus! {

/// The byte that ends a line of the event stream.
pub const NEWLINE: u8 = 10u8;

/// Index of the first newline in `bytes`, if any.
pub open spec fn first_newline(bytes: Seq<u8>) -> Option<int>
    decreases bytes.len(),
{
    if bytes.len() == 0 {
        None
    } else if bytes[0] == NEWLINE {
        Some(0)
    } else {
        match first_newline(bytes.drop_first()) {
            Some(i) => Some(i + 1),
            None => None,
        }
    }
}

/// Splits `bytes` into its complete lines (each keeps its terminating newline)
/// and the unterminated tail that follows the last newline.
pub open spec fn split_lines(bytes: Seq<u8>) -> (Seq<Seq<u8>>, Seq<u8>)
    decreases bytes.len(),
{
    match first_newline(bytes) {
        Some(i) => if 0 <= i < bytes.len() {
            let rest = split_lines(bytes.skip(i + 1));
            (seq![bytes.take(i + 1)] + rest.0, rest.1)
        } else {
            (Seq::empty(), bytes)
        },
        None => (Seq::empty(), bytes),
    }
}

/// `bytes` holds no newline.
pub open spec fn newline_free(bytes: Seq<u8>) -> bool {
    forall|j: int| 0 <= j < bytes.len() ==> bytes[j] != NEWLINE
}

/// What `first_newline` finds: the first newline, or nothing when there is none.
pub proof fn lemma_first_newline(bytes: Seq<u8>)
    ensures
        match first_newline(bytes) {
            Some(i) => 0 <= i < bytes.len() && bytes[i] == NEWLINE && newline_free(bytes.take(i)),
            None => newline_free(bytes),
        },
    decreases bytes.len(),
{
    if bytes.len() > 0 && bytes[0] != NEWLINE {
        let t = bytes.drop_first();
        lemma_first_newline(t);
        match first_newline(t) {
            Some(i) => {
                assert forall|j: int| 0 <= j < i + 1 implies #[trigger] bytes.take(i + 1)[j] != NEWLINE by {
                    if j > 0 {
                        assert(t.take(i)[j - 1] == bytes[j]);
                    }
                }
            },
            None => {
                assert forall|j: int| 0 <= j < bytes.len() implies bytes[j] != NEWLINE by {
                    if j > 0 {
                        assert(t[j - 1] == bytes[j]);
                    }
                }
            },
        }
    }
}

/// The first newline of `bytes` stands at `i`.
pub proof fn lemma_first_newline_at(bytes: Seq<u8>, i: int)
    requires
        0 <= i < bytes.len(),
        bytes[i] == NEWLINE,
        newline_free(bytes.take(i)),
    ensures
        first_newline(bytes) == Some(i),
{
    lemma_first_newline(bytes);
    match first_newline(bytes) {
        Some(k) => {
            if k < i {
                assert(bytes.take(i)[k] == bytes[k]);
            }
            if k > i {
                assert(bytes.take(k)[i] == bytes[i]);
            }
        },
        None => {},
    }
}

/// A newline-free sequence is all tail.
pub proof fn lemma_split_newline_free(bytes: Seq<u8>)
    requires
        newline_free(bytes),
    ensures
        split_lines(bytes) == (Seq::<Seq<u8>>::empty(), bytes),
{
    lemma_first_newline(bytes);
}

/// Splitting where the first newline stands at `i`.
pub proof fn lemma_split_at_first(bytes: Seq<u8>, i: int)
    requires
        0 <= i < bytes.len(),
        bytes[i] == NEWLINE,
        newline_free(bytes.take(i)),
    ensures
        split_lines(bytes) == ({
            let rest = split_lines(bytes.skip(i + 1));
            (seq![bytes.take(i + 1)] + rest.0, rest.1)
        }),
{
    lemma_first_newline_at(bytes, i);
}

/// The tail left by a split holds no newline.
pub proof fn lemma_split_tail_newline_free(bytes: Seq<u8>)
    ensures
        newline_free(split_lines(bytes).1),
    decreases bytes.len(),
{
    lemma_first_newline(bytes);
    match first_newline(bytes) {
        Some(i) => {
            if 0 <= i < bytes.len() {
                lemma_split_tail_newline_free(bytes.skip(i + 1));
            }
        },
        None => {},
    }
}

/// Splitting `x + y` splits `x` first and carries its tail into `y`.
pub proof fn lemma_split_append(x: Seq<u8>, y: Seq<u8>)
    ensures
        split_lines(x + y) == ({
            let sx = split_lines(x);
            let st = split_lines(sx.1 + y);
            (sx.0 + st.0, st.1)
        }),
    decreases x.len(),
{
    match first_newline(x) {
        Some(i) => {
            lemma_first_newline(x);
            assert((x + y).take(i) =~= x.take(i));
            assert((x + y).take(i + 1) =~= x.take(i + 1));
            assert((x + y).skip(i + 1) =~= x.skip(i + 1) + y);
            lemma_split_at_first(x, i);
            lemma_split_at_first(x + y, i);
            lemma_split_append(x.skip(i + 1), y);
            let sx = split_lines(x);
            let sr = split_lines(x.skip(i + 1));
            let st = split_lines(sr.1 + y);
            assert(sx.0 + st.0 =~= seq![x.take(i + 1)] + (sr.0 + st.0));
        },
        None => {
            lemma_first_newline(x);
            lemma_split_newline_free(x);
            assert(Seq::<Seq<u8>>::empty() + split_lines(x + y).0 =~= split_lines(x + y).0);
        },
    }
}

/// The byte sequences held by a list of lines.
pub open spec fn lines_view(lines: Seq<Vec<u8>>) -> Seq<Seq<u8>> {
    lines.map_values(|line: Vec<u8>| line@)
}

/// Bytes of the event stream received but not yet ended by a newline.
pub struct SseLineBuffer {
    pending: Vec<u8>,
}

impl SseLineBuffer {
    #[verifier::type_invariant]
    spec fn holds_no_complete_line(self) -> bool {
        newline_free(self.pending@)
    }

    /// The unterminated bytes the buffer holds.
    pub closed spec fn pending(self) -> Seq<u8> {
        self.pending@
    }

    /// An empty buffer.
    pub fn new() -> (buffer: Self)
        ensures
            buffer.pending() == Seq::<u8>::empty(),
    {
        SseLineBuffer { pending: Vec::new() }
    }

    /// Appends `chunk` and takes out, in order, every line it completes; each
    /// line keeps its newline. What follows the last newline stays pending.
    pub fn push_bytes(&mut self, chunk: &[u8]) -> (lines: Vec<Vec<u8>>)
        ensures
            lines_view(lines@) == split_lines(old(self).pending() + chunk@).0,
            final(self).pending() == split_lines(old(self).pending() + chunk@).1,
    {
        proof {
            use_type_invariant(&*self);
        }
        let mut buf = slice_to_vec(self.pending.as_slice());
        let mut tail = slice_to_vec(chunk);
        buf.append(&mut tail);
        let ghost all = buf@;
        let mut lines: Vec<Vec<u8>> = Vec::new();
        let mut start: usize = 0;
        let mut j: usize = 0;
        proof {
            assert(all.skip(0) =~= all);
            assert(lines_view(lines@) =~= Seq::<Seq<u8>>::empty());
            assert(Seq::<Seq<u8>>::empty() + split_lines(all).0 =~= split_lines(all).0);
        }
        while j < buf.len()
            invariant
                start <= j <= buf.len(),
                buf@ == all,
                newline_free(all.subrange(start as int, j as int)),
                split_lines(all) == (
                    lines_view(lines@) + split_lines(all.skip(start as int)).0,
                    split_lines(all.skip(start as int)).1,
                ),
            decreases buf.len() - j,
        {
            if buf[j] == NEWLINE {
                let line = slice_to_vec(slice_subrange(buf.as_slice(), start, j + 1));
                proof {
                    let rest = all.skip(start as int);
                    let i = j - start;
                    assert(rest.take(i) =~= all.subrange(start as int, j as int));
                    assert(rest[i] == NEWLINE);
                    lemma_split_at_first(rest, i);
                    assert(rest.take(i + 1) =~= line@);
                    assert(rest.skip(i + 1) =~= all.skip(j + 1));
                    assert(lines_view(lines@.push(line)) =~= lines_view(lines@).push(line@));
                    let r2 = split_lines(all.skip(j + 1));
                    assert(lines_view(lines@) + (seq![line@] + r2.0) =~= lines_view(lines@).push(
                        line@,
                    ) + r2.0);
                }
                lines.push(line);
                start = j + 1;
                proof {
                    assert(all.subrange(start as int, start as int) =~= Seq::<u8>::empty());
                }
            } else {
                proof {
                    assert forall|k: int|
                        0 <= k < all.subrange(start as int, j + 1).len() implies #[trigger] all.subrange(
                        start as int,
                        j + 1,
                    )[k] != NEWLINE by {
                        if k < j - start {
                            assert(all.subrange(start as int, j as int)[k] == all[start + k]);
                        }
                    }
                }
            }
            j = j + 1;
        }
        let rest = slice_to_vec(slice_subrange(buf.as_slice(), start, buf.len()));
        proof {
            assert(all.skip(start as int) =~= all.subrange(start as int, j as int));
            assert(rest@ =~= all.skip(start as int));
            lemma_split_newline_free(rest@);
            assert(lines_view(lines@) + Seq::<Seq<u8>>::empty() =~= lines_view(lines@));
        }
        self.pending = rest;
        lines
    }

    /// Takes out the unterminated bytes, leaving the buffer empty.
    pub fn take_rest(&mut self) -> (rest: Vec<u8>)
        ensures
            rest@ == old(self).pending(),
            final(self).pending() == Seq::<u8>::empty(),
    {
        let rest = slice_to_vec(self.pending.as_slice());
        self.pending = Vec::new();
        rest
    }
}

/// Why a byte sequence is not valid UTF-8.
#[verifier::external_type_specification]
#[verifier::external_body]
pub struct ExUtf8Error(Utf8Error);

/// Calls `std::str::from_utf8`: it succeeds exactly on valid UTF-8, and the
/// text it gives back is the decoding of the bytes.
#[verifier::external_body]
fn str_from_utf8(bytes: &[u8]) -> (text: Result<&str, Utf8Error>)
    ensures
        match text {
            Ok(s) => valid_utf8(bytes@) && s@ == decode_utf8(bytes@),
            Err(_) => !valid_utf8(bytes@),
        },
{
    std::str::from_utf8(bytes)
}

/// Calls `Utf8Error`'s `to_string`, std's description of the error. Nothing is
/// stated of the text: the error is opaque here.
#[verifier::external_body]
fn utf8_error_text(error: &Utf8Error) -> String {
    error.to_string()
}

/// The characters `data:`.
pub open spec fn data_prefix() -> Seq<char> {
    seq!['d', 'a', 't', 'a', ':']
}

/// The characters `[DONE]`, which end the stream.
pub open spec fn done_marker() -> Seq<char> {
    seq!['[', 'D', 'O', 'N', 'E', ']']
}

/// The payload of one line of the event stream: the text after `data:` with
/// surrounding whitespace removed, or nothing for a blank line, a line that is
/// not a `data:` line, or the `[DONE]` marker.
pub open spec fn sse_line_data(line: Seq<char>) -> Option<Seq<char>> {
    let t = trim(line);
    if t.len() == 0 {
        None
    } else if t.len() >= 5 && t.take(5) == data_prefix() {
        let d = trim_start(t.skip(5));
        if d == done_marker() {
            None
        } else {
            Some(d)
        }
    } else {
        None
    }
}

/// The text of an optional string.
pub open spec fn opt_string_view(s: Option<String>) -> Option<Seq<char>> {
    match s {
        Some(t) => Some(t@),
        None => None,
    }
}

/// Whether `cs[k..e]` begins with `data:`.
fn starts_with_data_prefix(cs: &[char], k: usize, e: usize) -> (b: bool)
    requires
        k <= e <= cs@.len(),
    ensures
        b == (e - k >= 5 && cs@.subrange(k as int, e as int).take(5) == data_prefix()),
{
    let ghost t = cs@.subrange(k as int, e as int);
    if e - k < 5 {
        return false;
    }
    let b = cs[k] == 'd' && cs[k + 1] == 'a' && cs[k + 2] == 't' && cs[k + 3] == 'a' && cs[k
        + 4] == ':';
    proof {
        if b {
            assert(t.take(5) =~= data_prefix());
        }
        if t.take(5) == data_prefix() {
            assert(t.take(5)[0] == cs@[k as int]);
            assert(t.take(5)[1] == cs@[k + 1]);
            assert(t.take(5)[2] == cs@[k + 2]);
            assert(t.take(5)[3] == cs@[k + 3]);
            assert(t.take(5)[4] == cs@[k + 4]);
        }
    }
    b
}

/// Whether `cs[q..e]` is exactly `[DONE]`.
fn is_done_marker(cs: &[char], q: usize, e: usize) -> (b: bool)
    requires
        q <= e <= cs@.len(),
    ensures
        b == (cs@.subrange(q as int, e as int) == done_marker()),
{
    let ghost d = cs@.subrange(q as int, e as int);
    if e - q != 6 {
        proof {
            if d == done_marker() {
                assert(d.len() == 6);
            }
        }
        return false;
    }
    let b = cs[q] == '[' && cs[q + 1] == 'D' && cs[q + 2] == 'O' && cs[q + 3] == 'N' && cs[q
        + 4] == 'E' && cs[q + 5] == ']';
    proof {
        if b {
            assert(d =~= done_marker());
        }
        if d == done_marker() {
            assert(d[0] == cs@[q as int]);
            assert(d[1] == cs@[q + 1]);
            assert(d[2] == cs@[q + 2]);
            assert(d[3] == cs@[q + 3]);
            assert(d[4] == cs@[q + 4]);
            assert(d[5] == cs@[q + 5]);
        }
    }
    b
}

/// The payload of one line of the event stream (see [`sse_line_data`]).
pub fn handle_sse_line(line: &str) -> (data: Option<String>)
    ensures
        opt_string_view(data) == sse_line_data(line@),
{
    let cs = chars_of(line);
    let n = cs.len();
    let k = skip_whitespace(cs.as_slice(), 0, n);
    let e = skip_whitespace_back(cs.as_slice(), k, n);
    proof {
        assert(cs@.subrange(0, n as int) =~= line@);
        lemma_trim_range(cs@, 0, k as int, e as int, n as int);
    }
    let ghost t = cs@.subrange(k as int, e as int);
    if k == e {
        return None;
    }
    if !starts_with_data_prefix(cs.as_slice(), k, e) {
        return None;
    }
    let q = skip_whitespace(cs.as_slice(), k + 5, e);
    proof {
        let u = cs@.subrange(k + 5, e as int);
        assert(t.skip(5) =~= u);
        assert(u.take(q - (k + 5)) =~= cs@.subrange(k + 5, q as int));
        if q < e {
            assert(u[q - (k + 5)] == cs@[q as int]);
        }
        lemma_trim_start_skip(u, q - (k + 5));
        assert(u.skip(q - (k + 5)) =~= cs@.subrange(q as int, e as int));
    }
    let ghost d = cs@.subrange(q as int, e as int);
    if is_done_marker(cs.as_slice(), q, e) {
        return None;
    }
    let payload = line.substring_char(q, e).to_owned();
    proof {
        assert(line@.subrange(q as int, e as int) =~= d);
    }
    Some(payload)
}

/// The payloads of a run of lines, in order, and whether the run was cut short by
/// a line that is not valid UTF-8; nothing after such a line counts.
pub open spec fn sse_events(lines: Seq<Seq<u8>>) -> (Seq<Seq<char>>, bool)
    decreases lines.len(),
{
    if lines.len() == 0 {
        (Seq::empty(), false)
    } else if !valid_utf8(lines[0]) {
        (Seq::empty(), true)
    } else {
        let rest = sse_events(lines.drop_first());
        match sse_line_data(decode_utf8(lines[0])) {
            Some(d) => (seq![d] + rest.0, rest.1),
            None => rest,
        }
    }
}

/// The events of two runs of lines: those of the first, then, unless the first
/// was cut short, those of the second.
pub proof fn lemma_events_append(a: Seq<Seq<u8>>, b: Seq<Seq<u8>>)
    ensures
        sse_events(a + b) == (if sse_events(a).1 {
            sse_events(a)
        } else {
            (sse_events(a).0 + sse_events(b).0, sse_events(b).1)
        }),
    decreases a.len(),
{
    if a.len() == 0 {
        assert(a + b =~= b);
        assert(Seq::<Seq<char>>::empty() + sse_events(b).0 =~= sse_events(b).0);
    } else {
        assert((a + b)[0] == a[0]);
        assert((a + b).drop_first() =~= a.drop_first() + b);
        lemma_events_append(a.drop_first(), b);
        if valid_utf8(a[0]) {
            match sse_line_data(decode_utf8(a[0])) {
                Some(d) => {
                    let ra = sse_events(a.drop_first());
                    assert(seq![d] + (ra.0 + sse_events(b).0) =~= (seq![d] + ra.0) + sse_events(
                        b,
                    ).0);
                },
                None => {},
            }
        }
    }
}

/// The text of a list of strings.
pub open spec fn strings_view(strings: Seq<String>) -> Seq<Seq<char>> {
    strings.map_values(|s: String| s@)
}

/// What one step of the decoder hands back: the payloads found, in order, and the
/// failure that cut the step short, if any.
pub struct SseBatch {
    /// Payloads of the `data:` lines, in the order they arrived.
    pub events: Vec<String>,
    /// Set when a line was not valid UTF-8; no payload after it is included.
    pub error: Option<OpenAiClientError>,
}

/// The batch reports `events` and, exactly when `failed`, a UTF-8 error.
pub open spec fn batch_matches(batch: SseBatch, events: (Seq<Seq<char>>, bool)) -> bool {
    &&& strings_view(batch.events@) == events.0
    &&& (batch.error is Some <==> events.1)
    &&& (batch.error matches Some(e) ==> e is Utf8)
}

/// The payloads of `lines`, decoding each as UTF-8 and stopping at the first that is not.
fn decode_lines(lines: &Vec<Vec<u8>>) -> (batch: SseBatch)
    ensures
        batch_matches(batch, sse_events(lines_view(lines@))),
{
    let ghost all = lines_view(lines@);
    let mut events: Vec<String> = Vec::new();
    let mut i: usize = 0;
    proof {
        assert(all.skip(0) =~= all);
        assert(strings_view(events@) + sse_events(all).0 =~= sse_events(all).0);
    }
    while i < lines.len()
        invariant
            0 <= i <= lines.len(),
            all == lines_view(lines@),
            !sse_events(all.take(i as int)).1,
            sse_events(all) == (strings_view(events@) + sse_events(all.skip(i as int)).0, sse_events(
                all.skip(i as int),
            ).1),
        decreases lines.len() - i,
    {
        let ghost rest = all.skip(i as int);
        proof {
            assert(rest[0] == lines@[i as int]@);
            assert(rest.drop_first() =~= all.skip(i + 1));
        }
        match str_from_utf8(lines[i].as_slice()) {
            Ok(text) => {
                match handle_sse_line(text) {
                    Some(d) => {
                        proof {
                            let r2 = sse_events(all.skip(i + 1));
                            assert(strings_view(events@.push(d)) =~= strings_view(events@).push(
                                d@,
                            ));
                            assert(strings_view(events@) + (seq![d@] + r2.0) =~= strings_view(
                                events@,
                            ).push(d@) + r2.0);
                        }
                        events.push(d);
                    },
                    None => {},
                }
            },
            Err(e) => {
                let message = utf8_error_text(&e);
                proof {
                    assert(strings_view(events@) + Seq::<Seq<char>>::empty() =~= strings_view(
                        events@,
                    ));
                }
                return SseBatch { events, error: Some(OpenAiClientError::Utf8 { message }) };
            },
        }
        proof {
            assert(all.take(i + 1) =~= all.take(i as int) + seq![all[i as int]]);
            lemma_events_append(all.take(i as int), seq![all[i as int]]);
            let one = seq![all[i as int]];
            assert(one[0] == all[i as int]);
            assert(one.drop_first() =~= Seq::<Seq<u8>>::empty());
            assert(!sse_events(Seq::<Seq<u8>>::empty()).1);
            assert(!sse_events(one).1);
        }
        i = i + 1;
    }
    proof {
        assert(all.skip(i as int) =~= Seq::<Seq<u8>>::empty());
        assert(strings_view(events@) + Seq::<Seq<char>>::empty() =~= strings_view(events@));
    }
    SseBatch { events, error: None }
}

/// The lines a finished stream still holds: its unterminated tail, when there is one.
pub open spec fn final_lines(pending: Seq<u8>) -> Seq<Seq<u8>> {
    if pending.len() == 0 {
        Seq::empty()
    } else {
        seq![pending]
    }
}

/// Turns the bytes of an event stream, chunk by chunk, into `data:` payloads.
pub struct SseDecoder {
    buffer: SseLineBuffer,
}

impl SseDecoder {
    /// The unterminated bytes the decoder holds.
    pub closed spec fn pending(self) -> Seq<u8> {
        self.buffer.pending()
    }

    /// A decoder that has seen nothing.
    pub fn new() -> (decoder: Self)
        ensures
            decoder.pending() == Seq::<u8>::empty(),
    {
        SseDecoder { buffer: SseLineBuffer::new() }
    }

    /// Feeds the next chunk of the stream: the payloads of every line it
    /// completes, in order, up to the first line that is not valid UTF-8.
    pub fn push(&mut self, chunk: &[u8]) -> (batch: SseBatch)
        ensures
            batch_matches(batch, sse_events(split_lines(old(self).pending() + chunk@).0)),
            final(self).pending() == split_lines(old(self).pending() + chunk@).1,
    {
        let lines = self.buffer.push_bytes(chunk);
        decode_lines(&lines)
    }

    /// Ends the stream: the payload of the unterminated tail, if it has one.
    pub fn finish(&mut self) -> (batch: SseBatch)
        ensures
            batch_matches(batch, sse_events(final_lines(old(self).pending()))),
            final(self).pending() == Seq::<u8>::empty(),
    {
        let rest = self.buffer.take_rest();
        let mut lines: Vec<Vec<u8>> = Vec::new();
        if rest.len() > 0 {
            lines.push(rest);
        }
        proof {
            assert(lines_view(lines@) =~= final_lines(old(self).pending()));
        }
        decode_lines(&lines)
    }
}

/// Cutting the stream into chunks does not change what it yields: feeding
/// `first` and then `second` gives the payloads, in order, and the tail that
/// feeding `first + second` at once gives.
pub proof fn law_chunking_is_invisible(pending: Seq<u8>, first: Seq<u8>, second: Seq<u8>)
    ensures
        ({
            let step1 = split_lines(pending + first);
            let step2 = split_lines(step1.1 + second);
            let whole = split_lines(pending + first + second);
            let e1 = sse_events(step1.0);
            let e2 = sse_events(step2.0);
            &&& whole.1 == step2.1
            &&& sse_events(whole.0) == (if e1.1 {
                e1
            } else {
                (e1.0 + e2.0, e2.1)
            })
        }),
{
    lemma_split_append(pending + first, second);
    let step1 = split_lines(pending + first);
    let step2 = split_lines(step1.1 + second);
    lemma_events_append(step1.0, step2.0);
}

/// Feeding `chunks` one after another to a decoder holding `pending`: the
/// payloads found, in order and up to the first line that is not valid UTF-8;
/// whether such a line was met; and the unterminated tail held at the end.
pub open spec fn feed_chunks(pending: Seq<u8>, chunks: Seq<Seq<u8>>) -> (Seq<Seq<char>>, bool, Seq<u8>)
    decreases chunks.len(),
{
    if chunks.len() == 0 {
        (Seq::empty(), false, pending)
    } else {
        let step = split_lines(pending + chunks[0]);
        let found = sse_events(step.0);
        let rest = feed_chunks(step.1, chunks.drop_first());
        if found.1 {
            (found.0, true, rest.2)
        } else {
            (found.0 + rest.0, rest.1, rest.2)
        }
    }
}

/// Feeding any list of chunks to a decoder, whose held tail never holds a
/// newline, gives what feeding their concatenation at once gives.
pub proof fn law_any_chunking_is_invisible(pending: Seq<u8>, chunks: Seq<Seq<u8>>)
    requires
        newline_free(pending),
    ensures
        ({
            let whole = split_lines(pending + chunks.flatten());
            let found = sse_events(whole.0);
            feed_chunks(pending, chunks) == (found.0, found.1, whole.1)
        }),
    decreases chunks.len(),
{
    if chunks.len() == 0 {
        assert(pending + chunks.flatten() =~= pending);
        lemma_split_newline_free(pending);
        assert(sse_events(Seq::<Seq<u8>>::empty()).0 =~= Seq::<Seq<char>>::empty());
    } else {
        let first = chunks[0];
        let others = chunks.drop_first().flatten();
        assert(chunks.flatten() =~= first + others);
        assert(pending + chunks.flatten() =~= pending + first + others);
        law_chunking_is_invisible(pending, first, others);
        let step = split_lines(pending + first);
        lemma_split_tail_newline_free(pending + first);
        law_any_chunking_is_invisible(step.1, chunks.drop_first());
    }
}

/// Two ways of cutting the same bytes into chunks give the same payloads, the
/// same failure and the same tail.
pub proof fn law_chunkings_agree(pending: Seq<u8>, chunks1: Seq<Seq<u8>>, chunks2: Seq<Seq<u8>>)
    requires
        newline_free(pending),
        chunks1.flatten() == chunks2.flatten(),
    ensures
        feed_chunks(pending, chunks1) == feed_chunks(pending, chunks2),
{
    law_any_chunking_is_invisible(pending, chunks1);
    law_any_chunking_is_invisible(pending, chunks2);
}

/// The characters `data: `, the prefix a provider writes before a payload.
pub open spec fn data_prefix_with_space() -> Seq<char> {
    data_prefix().push(' ')
}

/// The payload has no whitespace at either end.
pub open spec fn trimmed_payload(payload: Seq<char>) -> bool {
    payload.len() == 0 || (!is_whitespace(payload[0]) && !is_whitespace(payload.last()))
}

/// Reading back a written event line gives the payload that was written, with or
/// without a space after `data:`, for any payload without surrounding whitespace
/// other than the end marker.
pub proof fn law_data_line_round_trip(payload: Seq<char>)
    requires
        trimmed_payload(payload),
        payload != done_marker(),
    ensures
        sse_line_data(data_prefix_with_space() + payload) == Some(payload),
        sse_line_data(data_prefix() + payload) == Some(payload),
{
    lemma_data_line(data_prefix_with_space(), payload);
    lemma_data_line(data_prefix(), payload);
}

/// A `data:` line, with or without one space, reads back as its trimmed payload.
proof fn lemma_data_line(prefix: Seq<char>, payload: Seq<char>)
    requires
        prefix == data_prefix() || prefix == data_prefix_with_space(),
        trimmed_payload(payload),
        payload != done_marker(),
    ensures
        sse_line_data(prefix + payload) == Some(payload),
{
    let line = prefix + payload;
    assert(line[0] == 'd');
    assert(!is_whitespace('d'));
    assert(line.take(0) =~= Seq::<char>::empty());
    lemma_trim_start_skip(line, 0);
    assert(line.skip(0) =~= line);
    let e = if payload.len() > 0 {
        line.len() as int
    } else {
        5
    };
    if payload.len() > 0 {
        assert(line[e - 1] == payload.last());
        assert(line.skip(e) =~= Seq::<char>::empty());
    } else {
        assert(line[4] == ':');
        assert(!is_whitespace(':'));
        assert(line.skip(5) =~= prefix.skip(5));
        if prefix == data_prefix_with_space() {
            assert(line.skip(5)[0] == ' ');
        }
    }
    crate::text::lemma_trim_end_take(line, e);
    let t = line.take(e);
    assert(t == trim(line));
    assert(t.take(5) =~= data_prefix());
    let rest = t.skip(5);
    if payload.len() == 0 {
        assert(rest =~= Seq::<char>::empty());
        assert(rest =~= payload);
    } else if prefix == data_prefix_with_space() {
        assert(rest =~= seq![' '] + payload);
        assert(rest.take(1) =~= seq![' ']);
        if payload.len() > 0 {
            assert(rest[1] == payload[0]);
        }
        lemma_trim_start_skip(rest, 1);
        assert(rest.skip(1) =~= payload);
    } else {
        assert(rest =~= payload);
        assert(rest.take(0) =~= Seq::<char>::empty());
        lemma_trim_start_skip(rest, 0);
        assert(rest.skip(0) =~= rest);
    }
}

} // verus!

