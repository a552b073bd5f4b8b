//! Splitting a byte stream into lines.
//!
//! A line ends at a newline byte. The newline is not part of the line, and
//! neither is a carriage return that stands directly before it. What is left
//! must be UTF-8. Bytes may arrive in pieces of any size: the framer keeps
//! what it has not yet handed out.

use vstd::prelude::*;
use vstd::utf8::*;
use crate::error::{line_view, ErrorKind, Failure, SrpcError};

verus! {

/// The byte that ends a line.
pub const NEWLINE: u8 = 0x0a;

/// The byte that may precede the newline in a line ending.
pub const CARRIAGE_RETURN: u8 = 0x0d;

/// How many bytes stand before the first newline of `bytes`; its length when
/// it holds no newline.
pub open spec fn first_newline(bytes: Seq<u8>) -> int
    decreases bytes.len(),
{
    if bytes.len() == 0 || bytes[0] == NEWLINE {
        0
    } else {
        1 + first_newline(bytes.skip(1))
    }
}

/// `bytes` holds a newline.
pub open spec fn has_newline(bytes: Seq<u8>) -> bool {
    bytes.contains(NEWLINE)
}

/// `bytes` without one trailing carriage return.
pub open spec fn without_carriage_return(bytes: Seq<u8>) -> Seq<u8> {
    if bytes.len() > 0 && bytes.last() == CARRIAGE_RETURN {
        bytes.drop_last()
    } else {
        bytes
    }
}

/// The first complete line of `bytes` and what follows it, or `None` while no
/// line is complete.
pub open spec fn next_frame(bytes: Seq<u8>) -> Option<(Seq<u8>, Seq<u8>)> {
    let at = first_newline(bytes);
    if 0 <= at < bytes.len() {
        Some((without_carriage_return(bytes.take(at)), bytes.skip(at + 1)))
    } else {
        None
    }
}

/// All complete lines of `bytes`, in the order in which they stand there.
pub open spec fn complete_lines(bytes: Seq<u8>) -> Seq<Seq<u8>>
    decreases bytes.len(),
{
    let at = first_newline(bytes);
    if 0 <= at < bytes.len() {
        seq![without_carriage_return(bytes.take(at))] + complete_lines(bytes.skip(at + 1))
    } else {
        Seq::empty()
    }
}

/// What follows the last newline of `bytes`: the line that is still open.
pub open spec fn open_line(bytes: Seq<u8>) -> Seq<u8>
    decreases bytes.len(),
{
    let at = first_newline(bytes);
    if 0 <= at < bytes.len() {
        open_line(bytes.skip(at + 1))
    } else {
        bytes
    }
}

/// The line that the end of the stream closes: the open line without a
/// trailing carriage return, or `None` when nothing, or only a carriage
/// return, is left.
pub open spec fn last_frame(bytes: Seq<u8>) -> Option<Seq<u8>> {
    if bytes.len() == 0 || bytes =~= seq![CARRIAGE_RETURN] {
        None
    } else {
        Some(without_carriage_return(bytes))
    }
}

/// The message of the error that a line gets when it is not UTF-8.
pub open spec fn invalid_text_message() -> Seq<char> {
    "Unable to decode input as UTF8"@
}

/// What the raw line `raw` says: its text when it is UTF-8, and otherwise
/// the I/O failure that says that it is not.
pub open spec fn decoded(raw: Seq<u8>) -> Result<Seq<char>, Failure> {
    if valid_utf8(raw) {
        Ok(decode_utf8(raw))
    } else {
        Err(Failure { kind: ErrorKind::IoFailure, message: invalid_text_message() })
    }
}

/// `first_newline` stays within `bytes`, points at a newline when it is
/// inside, and has no newline before it.
pub proof fn lemma_first_newline(bytes: Seq<u8>)
    ensures
        0 <= first_newline(bytes) <= bytes.len(),
        first_newline(bytes) < bytes.len() ==> bytes[first_newline(bytes)] == NEWLINE,
        forall|j: int| 0 <= j < first_newline(bytes) ==> bytes[j] != NEWLINE,
        has_newline(bytes) <==> first_newline(bytes) < bytes.len(),
    decreases bytes.len(),
{
    if bytes.len() == 0 || bytes[0] == NEWLINE {
    } else {
        let rest = bytes.skip(1);
        lemma_first_newline(rest);
        let at = first_newline(bytes);
        assert(at == 1 + first_newline(rest));
        assert forall|j: int| 0 <= j < at implies bytes[j] != NEWLINE by {
            if j > 0 {
                assert(rest[j - 1] == bytes[j]);
            }
        }
        if at < bytes.len() {
            assert(rest[at - 1] == bytes[at]);
        }
        if has_newline(bytes) {
            let i = choose|i: int| 0 <= i < bytes.len() && bytes[i] == NEWLINE;
            assert(rest[i - 1] == NEWLINE);
        }
        if has_newline(rest) {
            let i = choose|i: int| 0 <= i < rest.len() && rest[i] == NEWLINE;
            assert(bytes[i + 1] == NEWLINE);
        }
    }
}

/// A position that holds the first newline of `bytes` is `first_newline`.
pub proof fn lemma_first_newline_is(bytes: Seq<u8>, at: int)
    requires
        0 <= at < bytes.len(),
        bytes[at] == NEWLINE,
        forall|j: int| 0 <= j < at ==> bytes[j] != NEWLINE,
    ensures
        first_newline(bytes) == at,
{
    lemma_first_newline(bytes);
}

/// The lines of `lines` on the wire: each one followed by a newline.
pub open spec fn framed(lines: Seq<Seq<u8>>) -> Seq<u8>
    decreases lines.len(),
{
    if lines.len() == 0 {
        Seq::empty()
    } else {
        lines[0].push(NEWLINE) + framed(lines.drop_first())
    }
}

/// `line` can stand on the wire as one line: it holds no newline and does
/// not end in a carriage return.
pub open spec fn is_line(line: Seq<u8>) -> bool {
    !line.contains(NEWLINE) && without_carriage_return(line) == line
}

/// `text` can stand on the wire as one line: it holds no newline and does
/// not end in a carriage return.
pub open spec fn is_line_text(text: Seq<char>) -> bool {
    !text.contains('\n') && (text.len() > 0 ==> text.last() != '\r')
}

/// The first frame is the first of the complete lines, and the complete
/// lines of what follows it are the others.
pub proof fn lemma_frame_is_first_line(bytes: Seq<u8>)
    ensures
        match next_frame(bytes) {
            Some((raw, rest)) => complete_lines(bytes) == seq![raw] + complete_lines(rest)
                && open_line(bytes) == open_line(rest) && rest.len() < bytes.len(),
            None => complete_lines(bytes) == Seq::<Seq<u8>>::empty() && open_line(bytes) == bytes
                && !has_newline(bytes),
        },
{
    lemma_first_newline(bytes);
}

/// Bytes that arrive later change nothing about a line that is complete:
/// they follow what follows it.
pub proof fn lemma_frame_with_tail(bytes: Seq<u8>, tail: Seq<u8>)
    ensures
        next_frame(bytes) matches Some((raw, rest)) ==> next_frame(bytes + tail) == Some(
            (raw, rest + tail),
        ),
{
    lemma_first_newline(bytes);
    if let Some((raw, rest)) = next_frame(bytes) {
        let at = first_newline(bytes);
        let whole = bytes + tail;
        assert(whole[at] == bytes[at]);
        assert forall|j: int| 0 <= j < at implies whole[j] != NEWLINE by {
            assert(whole[j] == bytes[j]);
        }
        lemma_first_newline_is(whole, at);
        assert(whole.take(at) =~= bytes.take(at));
        assert(whole.skip(at + 1) =~= rest + tail);
    }
}

/// No line holds the newline that ended it: neither its bytes nor, where
/// they are text, its characters.
pub proof fn lemma_frame_holds_no_newline(bytes: Seq<u8>)
    ensures
        next_frame(bytes) matches Some((raw, rest)) ==> !raw.contains(NEWLINE) && (decoded(
            raw,
        ) matches Ok(text) ==> !text.contains('\n')),
{
    lemma_first_newline(bytes);
    if let Some((raw, rest)) = next_frame(bytes) {
        let at = first_newline(bytes);
        let before = bytes.take(at);
        if raw.contains(NEWLINE) {
            let i = choose|i: int| 0 <= i < raw.len() && raw[i] == NEWLINE;
            assert(before[i] == bytes[i]);
        }
        lemma_text_holds_no_newline(raw);
    }
}

/// Bytes without a newline are no text with a newline.
pub proof fn lemma_text_holds_no_newline(raw: Seq<u8>)
    requires
        !raw.contains(NEWLINE),
    ensures
        decoded(raw) matches Ok(text) ==> !text.contains('\n'),
{
    if let Ok(text) = decoded(raw) {
        decode_utf8_encode_utf8(raw);
        crate::text::lemma_encoding_holds_char(text, NEWLINE);
        assert(NEWLINE as char == '\n');
    }
}

/// Every complete line of `bytes` is free of newlines, in its bytes and in
/// its text.
pub proof fn lemma_lines_hold_no_newline(bytes: Seq<u8>, i: int)
    requires
        0 <= i < complete_lines(bytes).len(),
    ensures
        !complete_lines(bytes)[i].contains(NEWLINE),
        decoded(complete_lines(bytes)[i]) matches Ok(text) ==> !text.contains('\n'),
    decreases bytes.len(),
{
    lemma_frame_is_first_line(bytes);
    lemma_frame_holds_no_newline(bytes);
    let (raw, rest) = next_frame(bytes)->0;
    if i > 0 {
        lemma_lines_hold_no_newline(rest, i - 1);
        assert(complete_lines(bytes)[i] == complete_lines(rest)[i - 1]);
    }
}

/// Lines that are put on the wire one after the other come back as they
/// were and in the same order, whatever follows them; what is open after
/// them is what is open in what follows.
pub proof fn lemma_lines_in_order(lines: Seq<Seq<u8>>, tail: Seq<u8>)
    requires
        forall|i: int| 0 <= i < lines.len() ==> is_line(#[trigger] lines[i]),
    ensures
        complete_lines(framed(lines) + tail) == lines + complete_lines(tail),
        open_line(framed(lines) + tail) == open_line(tail),
    decreases lines.len(),
{
    if lines.len() == 0 {
        assert(framed(lines) + tail =~= tail);
        assert(lines + complete_lines(tail) =~= complete_lines(tail));
    } else {
        let first = lines[0];
        let others = lines.drop_first();
        let wire = framed(lines) + tail;
        let after = framed(others) + tail;
        assert(is_line(first));
        assert(wire =~= first.push(NEWLINE) + after);
        assert(wire[first.len() as int] == NEWLINE);
        assert forall|j: int| 0 <= j < first.len() implies wire[j] != NEWLINE by {
            assert(wire[j] == first[j]);
        }
        lemma_first_newline_is(wire, first.len() as int);
        assert(wire.take(first.len() as int) =~= first);
        assert(wire.skip(first.len() as int + 1) =~= after);
        assert forall|i: int| 0 <= i < others.len() implies is_line(#[trigger] others[i]) by {
            assert(others[i] == lines[i + 1]);
        }
        lemma_lines_in_order(others, tail);
        assert(complete_lines(wire) =~= lines + complete_lines(tail));
    }
}

/// A text that can stand as one line is encoded as bytes that can, and the
/// bytes decode to the text.
pub proof fn lemma_line_text_is_line(text: Seq<char>)
    requires
        is_line_text(text),
    ensures
        is_line(encode_utf8(text)),
        decoded(encode_utf8(text)) == Ok::<Seq<char>, Failure>(text),
{
    let bytes = encode_utf8(text);
    encode_utf8_valid_utf8(text);
    encode_utf8_decode_utf8(text);
    crate::text::lemma_encoding_holds_char(text, NEWLINE);
    assert(NEWLINE as char == '\n');
    if text.len() > 0 {
        crate::text::lemma_encoding_last_byte(text, CARRIAGE_RETURN);
        assert(CARRIAGE_RETURN as char == '\r');
    }
}

/// A text that is sent as a line is received as that line: its encoding
/// with a newline behind it is one complete line, which decodes to the text,
/// and nothing is left open after it.
pub proof fn lemma_sent_line_is_received(text: Seq<char>)
    requires
        is_line_text(text),
    ensures
        complete_lines(encode_utf8(text.push('\n'))) == seq![encode_utf8(text)],
        decoded(encode_utf8(text)) == Ok::<Seq<char>, Failure>(text),
        open_line(encode_utf8(text.push('\n'))) == Seq::<u8>::empty(),
{
    let line = encode_utf8(text);
    let lines = seq![line];
    lemma_line_text_is_line(text);
    lemma_lines_in_order(lines, Seq::empty());
    assert(framed(lines) =~= line.push(NEWLINE)) by {
        reveal_with_fuel(framed, 2);
        assert(lines.drop_first() =~= Seq::<Seq<u8>>::empty());
    }
    assert(encode_utf8(text.push('\n')) =~= line.push(NEWLINE)) by {
        crate::text::lemma_encoding_of_concat(text, seq!['\n']);
        crate::text::lemma_newline_is_one_byte();
        assert(text.push('\n') =~= text + seq!['\n']);
        assert(encode_utf8(seq!['\n']) =~= seq![NEWLINE]) by {
            reveal_with_fuel(encode_utf8, 2);
        }
    }
    assert(framed(lines) + Seq::<u8>::empty() =~= framed(lines));
    assert(complete_lines(Seq::<u8>::empty()) =~= Seq::<Seq<u8>>::empty());
    assert(lines + Seq::<Seq<u8>>::empty() =~= lines);
}

/// The encoding of each of `texts`, in their order.
pub open spec fn encoded(texts: Seq<Seq<char>>) -> Seq<Seq<u8>> {
    texts.map_values(|text: Seq<char>| encode_utf8(text))
}

/// Texts that are sent as lines, one after the other, are received as the
/// same texts in the same order, and nothing is left open after them.
pub proof fn lemma_sent_lines_are_received(texts: Seq<Seq<char>>)
    requires
        forall|i: int| 0 <= i < texts.len() ==> is_line_text(#[trigger] texts[i]),
    ensures
        complete_lines(framed(encoded(texts))).len() == texts.len(),
        forall|i: int|
            0 <= i < texts.len() ==> decoded(#[trigger] complete_lines(framed(encoded(texts)))[i])
                == Ok::<Seq<char>, Failure>(texts[i]),
        open_line(framed(encoded(texts))) == Seq::<u8>::empty(),
{
    let lines = encoded(texts);
    assert forall|i: int| 0 <= i < lines.len() implies is_line(#[trigger] lines[i]) by {
        lemma_line_text_is_line(texts[i]);
    }
    lemma_lines_in_order(lines, Seq::empty());
    assert(framed(lines) + Seq::<u8>::empty() =~= framed(lines));
    assert(complete_lines(Seq::<u8>::empty()) =~= Seq::<Seq<u8>>::empty());
    assert(lines + Seq::<Seq<u8>>::empty() =~= lines);
    assert forall|i: int| 0 <= i < texts.len() implies decoded(
        #[trigger] complete_lines(framed(encoded(texts)))[i],
    ) == Ok::<Seq<char>, Failure>(texts[i]) by {
        lemma_line_text_is_line(texts[i]);
    }
}

/// `String::from_utf8` of std: the text whose UTF-8 encoding is `bytes`, and
/// `None` exactly when `bytes` is not UTF-8.
#[verifier::external_body]
fn text_from_utf8(bytes: Vec<u8>) -> (text: Option<String>)
    ensures
        text.is_some() == valid_utf8(bytes@),
        text matches Some(t) ==> encode_utf8(t@) == bytes@,
{
    String::from_utf8(bytes).ok()
}

/// The raw line `raw` as an item: its text, or the error for bytes that are
/// not UTF-8.
fn decode_line(raw: Vec<u8>) -> (item: Result<String, SrpcError>)
    ensures
        line_view(item) == decoded(raw@),
{
    match text_from_utf8(raw) {
        Some(text) => {
            proof {
                encode_utf8_decode_utf8(text@);
            }
            Ok(text)
        },
        None => Err(SrpcError::new(ErrorKind::IoFailure, "Unable to decode input as UTF8")),
    }
}

/// Drops one trailing carriage return from `raw`.
fn trim_carriage_return(raw: &mut Vec<u8>)
    ensures
        final(raw)@ == without_carriage_return(old(raw)@),
{
    let n = raw.len();
    if n > 0 && raw[n - 1] == CARRIAGE_RETURN {
        raw.pop();
    }
}

/// Bytes received and not yet handed out as lines.
pub struct LineFramer {
    buffer: Vec<u8>,
    /// No newline stands before this position.
    scanned: usize,
}

impl View for LineFramer {
    type V = Seq<u8>;

    /// The bytes that were pushed and not yet handed out.
    closed spec fn view(&self) -> Seq<u8> {
        self.buffer@
    }
}

impl LineFramer {
    #[verifier::type_invariant]
    spec fn well_formed(self) -> bool {
        &&& self.scanned <= self.buffer.len()
        &&& forall|j: int| 0 <= j < self.scanned ==> self.buffer[j] != NEWLINE
    }

    /// Moves the buffer out, so that it can be changed while the invariant
    /// holds of what stays behind.
    fn take_buffer(&mut self) -> (buffer: Vec<u8>)
        ensures
            buffer@ == old(self).buffer@,
            final(self).buffer@ == Seq::<u8>::empty(),
            final(self).scanned == 0,
    {
        self.scanned = 0;
        let mut buffer = Vec::new();
        std::mem::swap(&mut buffer, &mut self.buffer);
        assert(self.buffer@ =~= Seq::empty());
        buffer
    }

    /// Moves `buffer` in, of which the first `scanned` bytes hold no newline.
    fn put_buffer(&mut self, buffer: Vec<u8>, scanned: usize)
        requires
            old(self).scanned == 0,
            scanned <= buffer.len(),
            forall|j: int| 0 <= j < scanned ==> buffer[j] != NEWLINE,
        ensures
            final(self).buffer@ == buffer@,
            final(self).scanned == scanned,
    {
        let mut buffer = buffer;
        std::mem::swap(&mut buffer, &mut self.buffer);
        self.scanned = scanned;
    }

    /// A framer that holds nothing.
    pub fn new() -> (framer: LineFramer)
        ensures
            framer@ == Seq::<u8>::empty(),
    {
        LineFramer { buffer: Vec::new(), scanned: 0 }
    }

    /// Whether nothing is held back.
    pub fn is_empty(&self) -> (empty: bool)
        ensures
            empty == (self@.len() == 0),
    {
        self.buffer.len() == 0
    }

    /// Takes in the bytes of one read.
    pub fn push(&mut self, chunk: &[u8])
        ensures
            final(self)@ == old(self)@ + chunk@,
    {
        proof {
            use_type_invariant(&*self);
        }
        let scanned = self.scanned;
        let mut buffer = self.take_buffer();
        buffer.extend_from_slice(chunk);
        self.put_buffer(buffer, scanned);
    }

    /// Hands out the first complete line, if there is one, and keeps the
    /// rest. A line that is not UTF-8 comes out as an error; its bytes are
    /// gone all the same.
    pub fn next_line(&mut self) -> (item: Option<Result<String, SrpcError>>)
        ensures
            match next_frame(old(self)@) {
                Some((raw, rest)) => {
                    &&& item matches Some(line) && line_view(line) == decoded(raw)
                    &&& final(self)@ == rest
                },
                None => item is None && final(self)@ == old(self)@,
            },
    {
        proof {
            use_type_invariant(&*self);
            lemma_first_newline(self.buffer@);
        }
        let old_scanned = self.scanned;
        let mut buffer = self.take_buffer();
        let n = buffer.len();
        let mut at = old_scanned;
        while at < n && buffer[at] != NEWLINE
            invariant
                n == buffer.len(),
                at <= n,
                forall|j: int| 0 <= j < at ==> buffer[j] != NEWLINE,
            decreases n - at,
        {
            at += 1;
        }
        if at == n {
            self.put_buffer(buffer, n);
            return None;
        }
        proof {
            lemma_first_newline_is(buffer@, at as int);
        }
        let rest = buffer.split_off(at + 1);
        buffer.pop();
        assert(buffer@ == old(self)@.take(at as int));
        assert(rest@ == old(self)@.skip(at + 1));
        self.put_buffer(rest, 0);
        trim_carriage_return(&mut buffer);
        Some(decode_line(buffer))
    }

    /// Hands out what the end of the stream closes: first the complete lines,
    /// one for each call, then the open line, if anything but a carriage
    /// return is left of it.
    pub fn finish(&mut self) -> (item: Option<Result<String, SrpcError>>)
        ensures
            match next_frame(old(self)@) {
                Some((raw, rest)) => {
                    &&& item matches Some(line) && line_view(line) == decoded(raw)
                    &&& final(self)@ == rest
                },
                None => match last_frame(old(self)@) {
                    Some(raw) => {
                        &&& item matches Some(line) && line_view(line) == decoded(raw)
                        &&& final(self)@ == Seq::<u8>::empty()
                    },
                    None => item is None && final(self)@ == old(self)@,
                },
            },
    {
        let complete = self.next_line();
        if complete.is_some() {
            return complete;
        }
        proof {
            use_type_invariant(&*self);
        }
        let n = self.buffer.len();
        if n == 0 || (n == 1 && self.buffer[0] == CARRIAGE_RETURN) {
            assert(n == 1 && self.buffer[0] == CARRIAGE_RETURN ==> self.buffer@ =~= seq![
                CARRIAGE_RETURN,
            ]);
            return None;
        }
        let mut raw = self.take_buffer();
        assert(self@ =~= Seq::empty());
        trim_carriage_return(&mut raw);
        Some(decode_line(raw))
    }
}

} // verus!
