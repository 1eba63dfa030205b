//! A line terminal over a byte stream.
//!
//! The terminal holds the bytes that have arrived and not been read yet, and the
//! bytes that are still to be sent. Whoever owns the connection feeds it and
//! sends what it has written; a read that needs more bytes is pending.

use vstd::prelude::*;
use vstd::string::*;
use vstd::utf8::*;

verus! {

/// The longest line that is accepted, in bytes.
pub const MAX_LINE_BYTES: usize = 16384;

/// Carriage return.
pub const CR: u8 = 13;

/// Line feed.
pub const LF: u8 = 10;

/// The letter that a ZMODEM sender repeats to acknowledge the end.
pub const LETTER_O: u8 = 79;

/// The six bytes with which a client opens a ZMODEM upload.
pub open spec fn zmodem_start() -> Seq<u8> {
    seq![42u8, 42u8, 24u8, 66u8, 48u8, 48u8]
}

/// What a read has come to.
#[derive(Debug)]
pub enum Step<T> {
    /// More bytes have to arrive first.
    Pending,
    /// The read is complete.
    Ready(T),
}

/// What a client has sent where a command is expected.
#[derive(Debug)]
pub enum TerminalInput {
    Line(String),
    Zmodem(Vec<u8>),
}

/// Why a read fails.
#[derive(Clone, Copy, Debug, Eq, PartialEq, Structural)]
pub enum TerminalError {
    LineTooLong,
    NotUtf8,
    InvalidAcknowledgement,
}

impl TerminalError {
    /// The words in which the failure is reported.
    pub fn message(&self) -> (r: &'static str)
        ensures
            r@ == (match self {
                TerminalError::LineTooLong => "input line is longer than 16384 bytes"@,
                TerminalError::NotUtf8 => "input is not valid UTF-8"@,
                TerminalError::InvalidAcknowledgement => "invalid ZMODEM final acknowledgement"@,
            }),
    {
        match self {
            TerminalError::LineTooLong => "input line is longer than 16384 bytes",
            TerminalError::NotUtf8 => "input is not valid UTF-8",
            TerminalError::InvalidAcknowledgement => "invalid ZMODEM final acknowledgement",
        }
    }
}

/// `String::from_utf8`: it succeeds on valid UTF-8 and nowhere else, and the
/// string holds the characters that the bytes encode.
#[verifier::external_body]
pub(crate) fn utf8_text(bytes: Vec<u8>) -> (r: Option<String>)
    ensures
        r is Some <==> valid_utf8(bytes@),
        r matches Some(text) ==> text@ == decode_utf8(bytes@),
{
    String::from_utf8(bytes).ok()
}

/// The reading side of a terminal.
#[verifier::ext_equal]
pub struct Reading {
    /// Bytes that have arrived and not been read.
    pub input: Seq<u8>,
    /// No further bytes will arrive.
    pub ended: bool,
    /// The last line ended in CR, so that one LF may follow.
    pub skip_optional_lf: bool,
}

/// The end of a line.
pub open spec fn is_terminator(b: u8) -> bool {
    b == CR || b == LF
}

/// Index of the first line terminator, or the number of bytes.
pub open spec fn line_end(bytes: Seq<u8>) -> int
    decreases bytes.len(),
{
    if bytes.len() == 0 || is_terminator(bytes[0]) {
        0
    } else {
        1 + line_end(bytes.drop_first())
    }
}

/// The bytes without the LF of a CRLF whose CR ended the line before.
pub open spec fn settled(t: Reading) -> Seq<u8> {
    if t.skip_optional_lf && t.input.len() > 0 && t.input[0] == LF {
        t.input.drop_first()
    } else {
        t.input
    }
}

/// The reading side once it is known whether an LF is to be skipped.
pub open spec fn after_optional_lf(t: Reading) -> Reading {
    Reading {
        input: settled(t),
        ended: t.ended,
        skip_optional_lf: t.skip_optional_lf && t.input.len() == 0 && !t.ended,
    }
}

/// The text of a line.
pub open spec fn decoded(bytes: Seq<u8>) -> Result<Seq<char>, TerminalError> {
    if valid_utf8(bytes) {
        Ok(decode_utf8(bytes))
    } else {
        Err(TerminalError::NotUtf8)
    }
}

/// What stands for the line that was read: nothing where the input has ended.
pub open spec fn line_of(bytes: Seq<u8>) -> Result<Step<Option<Seq<char>>>, TerminalError> {
    match decoded(bytes) {
        Ok(text) => Ok(Step::Ready(Some(text))),
        Err(error) => Err(error),
    }
}

/// The reading side behind a line that ends at `k`.
pub open spec fn behind_line(t: Reading, k: int) -> Reading {
    if k < t.input.len() {
        Reading {
            input: t.input.skip(k + 1),
            ended: t.ended,
            skip_optional_lf: t.input[k] == CR,
        }
    } else {
        Reading { input: Seq::empty(), ended: t.ended, skip_optional_lf: false }
    }
}

/// Reading a line: what is left, and the result.
pub open spec fn line_read(t: Reading) -> (
    Reading,
    Result<Step<Option<Seq<char>>>, TerminalError>,
) {
    let u = after_optional_lf(t);
    let k = line_end(u.input);
    if k > MAX_LINE_BYTES {
        (u, Err(TerminalError::LineTooLong))
    } else if k < u.input.len() {
        (behind_line(u, k), line_of(u.input.take(k)))
    } else if !u.ended {
        (u, Ok(Step::Pending))
    } else if k == 0 {
        (u, Ok(Step::Ready(None)))
    } else {
        (behind_line(u, k), line_of(u.input))
    }
}

/// `TerminalInput` as a mathematical value.
pub enum InputView {
    Line(Seq<char>),
    Zmodem(Seq<u8>),
}

impl View for TerminalInput {
    type V = InputView;

    open spec fn view(&self) -> InputView {
        match self {
            TerminalInput::Line(line) => InputView::Line(line@),
            TerminalInput::Zmodem(bytes) => InputView::Zmodem(bytes@),
        }
    }
}

/// A line result as a command-level input.
pub open spec fn as_input(
    r: Result<Step<Option<Seq<char>>>, TerminalError>,
) -> Result<Step<Option<InputView>>, TerminalError> {
    match r {
        Ok(Step::Pending) => Ok(Step::Pending),
        Ok(Step::Ready(Some(line))) => Ok(Step::Ready(Some(InputView::Line(line)))),
        Ok(Step::Ready(None)) => Ok(Step::Ready(None)),
        Err(error) => Err(error),
    }
}

/// The bytes open a ZMODEM upload.
pub open spec fn opens_zmodem(bytes: Seq<u8>) -> bool {
    bytes.len() >= 6 && bytes.take(6) == zmodem_start()
}

/// Reading a line or the start of a ZMODEM upload.
pub open spec fn input_read(t: Reading) -> (
    Reading,
    Result<Step<Option<InputView>>, TerminalError>,
) {
    let u = after_optional_lf(t);
    if opens_zmodem(u.input) {
        (
            Reading { input: u.input.skip(6), ended: u.ended, skip_optional_lf: false },
            Ok(Step::Ready(Some(InputView::Zmodem(zmodem_start())))),
        )
    } else {
        let (left, result) = line_read(t);
        (left, as_input(result))
    }
}

/// Reading at most `max` bytes as they are; none of them means the end.
pub open spec fn bytes_read(t: Reading, max: int) -> (Reading, Step<Seq<u8>>) {
    let u = after_optional_lf(t);
    if max == 0 {
        (t, Step::Ready(Seq::empty()))
    } else if u.input.len() == 0 {
        if u.ended {
            (u, Step::Ready(Seq::empty()))
        } else {
            (u, Step::Pending)
        }
    } else {
        let n = if max < u.input.len() {
            max
        } else {
            u.input.len() as int
        };
        (
            Reading { input: u.input.skip(n), ended: u.ended, skip_optional_lf: false },
            Step::Ready(u.input.take(n)),
        )
    }
}

/// Consuming the `OO` with which a ZMODEM sender answers the final frame.
pub open spec fn ack_read(t: Reading) -> (Reading, Result<Step<bool>, TerminalError>) {
    if t.input.len() == 0 {
        (
            t,
            if t.ended {
                Ok(Step::Ready(false))
            } else {
                Ok(Step::Pending)
            },
        )
    } else if t.input[0] != LETTER_O {
        (t, Ok(Step::Ready(false)))
    } else if t.input.len() == 1 && !t.ended {
        (t, Ok(Step::Pending))
    } else if t.input.len() > 1 && t.input[1] == LETTER_O {
        (Reading { input: t.input.skip(2), ..t }, Ok(Step::Ready(true)))
    } else {
        (
            Reading { input: t.input.skip(1), ..t },
            Err(TerminalError::InvalidAcknowledgement),
        )
    }
}

/// Giving up on that acknowledgement: a first letter that has arrived is gone.
pub open spec fn ack_abandoned(t: Reading) -> Reading {
    if ack_read(t).1 == Ok::<Step<bool>, TerminalError>(Step::Pending) && t.input.len() == 1 {
        Reading { input: Seq::empty(), ..t }
    } else {
        t
    }
}

/// A terminal adapter that accepts the line endings commonly used by radio and
/// terminal clients, while always writing CRLF.
#[derive(Debug)]
pub struct Terminal {
    input: Vec<u8>,
    ended: bool,
    skip_optional_lf: bool,
    output: Vec<u8>,
    closed: bool,
}

/// Index of the first line terminator, or the number of bytes.
fn find_line_end(bytes: &[u8]) -> (r: usize)
    ensures
        r == line_end(bytes@),
        r <= bytes@.len(),
{
    let mut i: usize = 0;
    assert(bytes@.skip(0) =~= bytes@);
    while i < bytes.len() && bytes[i] != CR && bytes[i] != LF
        invariant
            i <= bytes@.len(),
            line_end(bytes@) == i + line_end(bytes@.skip(i as int)),
        decreases bytes@.len() - i,
    {
        assert(bytes@.skip(i as int).drop_first() =~= bytes@.skip(i + 1));
        i = i + 1;
    }
    i
}

/// Extend a line, unless it would become longer than is accepted.
fn append_with_limit(line: &mut Vec<u8>, bytes: &[u8]) -> (r: Result<(), TerminalError>)
    ensures
        old(line)@.len() + bytes@.len() > MAX_LINE_BYTES ==> {
            &&& r == Err::<(), TerminalError>(TerminalError::LineTooLong)
            &&& final(line)@ == old(line)@
        },
        old(line)@.len() + bytes@.len() <= MAX_LINE_BYTES ==> {
            &&& r == Ok::<(), TerminalError>(())
            &&& final(line)@ == old(line)@ + bytes@
        },
{
    if line.len() > MAX_LINE_BYTES || bytes.len() > MAX_LINE_BYTES - line.len() {
        return Err(TerminalError::LineTooLong);
    }
    let ghost before = line@;
    line.extend_from_slice(bytes);
    assert(line@ =~= before + bytes@);
    Ok(())
}

/// The text of a line.
fn decode_line(line: Vec<u8>) -> (r: Result<String, TerminalError>)
    ensures
        match r {
            Ok(text) => decoded(line@) == Ok::<Seq<char>, TerminalError>(text@),
            Err(error) => decoded(line@) == Err::<Seq<char>, TerminalError>(error),
        },
{
    match utf8_text(line) {
        Some(text) => Ok(text),
        None => Err(TerminalError::NotUtf8),
    }
}

/// A line result with the line as a mathematical value.
pub open spec fn line_outcome(
    r: Result<Step<Option<String>>, TerminalError>,
) -> Result<Step<Option<Seq<char>>>, TerminalError> {
    match r {
        Ok(Step::Pending) => Ok(Step::Pending),
        Ok(Step::Ready(Some(line))) => Ok(Step::Ready(Some(line@))),
        Ok(Step::Ready(None)) => Ok(Step::Ready(None)),
        Err(error) => Err(error),
    }
}

/// A command-level result as a mathematical value.
pub open spec fn input_outcome(
    r: Result<Step<Option<TerminalInput>>, TerminalError>,
) -> Result<Step<Option<InputView>>, TerminalError> {
    match r {
        Ok(Step::Pending) => Ok(Step::Pending),
        Ok(Step::Ready(Some(input))) => Ok(Step::Ready(Some(input@))),
        Ok(Step::Ready(None)) => Ok(Step::Ready(None)),
        Err(error) => Err(error),
    }
}

/// A byte result as a mathematical value.
pub open spec fn bytes_outcome(r: Step<Vec<u8>>) -> Step<Seq<u8>> {
    match r {
        Step::Pending => Step::Pending,
        Step::Ready(bytes) => Step::Ready(bytes@),
    }
}

impl Terminal {
    /// The reading side.
    pub closed spec fn reading(&self) -> Reading {
        Reading {
            input: self.input@,
            ended: self.ended,
            skip_optional_lf: self.skip_optional_lf,
        }
    }

    /// Bytes that have been written and not been taken for sending.
    pub closed spec fn output(&self) -> Seq<u8> {
        self.output@
    }

    /// The terminal has been shut down.
    pub closed spec fn closed(&self) -> bool {
        self.closed
    }

    /// A terminal on which nothing has happened yet.
    pub fn new() -> (r: Terminal)
        ensures
            r.reading() == (Reading {
                input: Seq::empty(),
                ended: false,
                skip_optional_lf: false,
            }),
            r.output() == Seq::<u8>::empty(),
            !r.closed(),
    {
        Terminal {
            input: Vec::new(),
            ended: false,
            skip_optional_lf: false,
            output: Vec::new(),
            closed: false,
        }
    }

    /// Bytes have arrived.
    pub fn feed(&mut self, bytes: &[u8])
        ensures
            final(self).reading() == (Reading {
                input: old(self).reading().input + bytes@,
                ..old(self).reading()
            }),
            final(self).output() == old(self).output(),
            final(self).closed() == old(self).closed(),
    {
        self.input.extend_from_slice(bytes);
        assert(self.input@ =~= old(self).input@ + bytes@);
    }

    /// No further bytes will arrive.
    pub fn feed_end(&mut self)
        ensures
            final(self).reading() == (Reading { ended: true, ..old(self).reading() }),
            final(self).output() == old(self).output(),
            final(self).closed() == old(self).closed(),
    {
        self.ended = true;
    }

    /// Remove the first `n` unread bytes.
    fn consume(&mut self, n: usize) -> (r: Vec<u8>)
        requires
            n <= old(self).input@.len(),
        ensures
            r@ == old(self).input@.take(n as int),
            final(self).input@ == old(self).input@.skip(n as int),
            final(self).ended == old(self).ended,
            final(self).skip_optional_lf == old(self).skip_optional_lf,
            final(self).output() == old(self).output(),
            final(self).closed() == old(self).closed(),
    {
        let rest: Vec<u8> = self.input.split_off(n);
        let mut front: Vec<u8> = rest;
        std::mem::swap(&mut front, &mut self.input);
        assert(front@ =~= old(self).input@.take(n as int));
        assert(self.input@ =~= old(self).input@.skip(n as int));
        front
    }

    /// Drop the LF that may follow the CR of the line before.
    fn consume_optional_lf(&mut self)
        ensures
            final(self).reading() == after_optional_lf(old(self).reading()),
            final(self).output() == old(self).output(),
            final(self).closed() == old(self).closed(),
    {
        if !self.skip_optional_lf {
            assert(self.reading() =~= after_optional_lf(old(self).reading()));
            return;
        }
        if self.input.len() == 0 {
            if self.ended {
                self.skip_optional_lf = false;
            }
            assert(self.reading() =~= after_optional_lf(old(self).reading()));
            return;
        }
        if self.input[0] == LF {
            let _ = self.consume(1);
        }
        self.skip_optional_lf = false;
        assert(self.reading() =~= after_optional_lf(old(self).reading()));
    }

    /// Read a line, without its end. `None` stands for the end of the input.
    pub fn read_line(&mut self) -> (r: Result<Step<Option<String>>, TerminalError>)
        ensures
            (final(self).reading(), line_outcome(r)) == line_read(old(self).reading()),
            final(self).output() == old(self).output(),
            final(self).closed() == old(self).closed(),
    {
        self.consume_optional_lf();
        let ghost u = self.reading();
        let end: usize = find_line_end(self.input.as_slice());
        let mut line: Vec<u8> = Vec::new();
        let text: &[u8] = vstd::slice::slice_subrange(self.input.as_slice(), 0, end);
        assert(text@ =~= u.input.take(end as int));
        match append_with_limit(&mut line, text) {
            Ok(()) => {},
            Err(error) => {
                return Err(error);
            },
        }
        assert(line@ =~= u.input.take(end as int));
        if end < self.input.len() {
            let terminator: u8 = self.input[end];
            let _ = self.consume(end + 1);
            self.skip_optional_lf = terminator == CR;
            assert(self.reading() =~= behind_line(u, end as int));
            return match decode_line(line) {
                Ok(text) => Ok(Step::Ready(Some(text))),
                Err(error) => Err(error),
            };
        }
        if !self.ended {
            return Ok(Step::Pending);
        }
        if end == 0 {
            return Ok(Step::Ready(None));
        }
        let _ = self.consume(end);
        self.skip_optional_lf = false;
        assert(self.reading() =~= behind_line(u, end as int));
        assert(line@ =~= u.input);
        match decode_line(line) {
            Ok(text) => Ok(Step::Ready(Some(text))),
            Err(error) => Err(error),
        }
    }

    /// Read a line, or the start of a ZMODEM upload where one stands in place of
    /// a line.
    pub fn read_input(&mut self) -> (r: Result<Step<Option<TerminalInput>>, TerminalError>)
        ensures
            (final(self).reading(), input_outcome(r)) == input_read(old(self).reading()),
            final(self).output() == old(self).output(),
            final(self).closed() == old(self).closed(),
    {
        self.consume_optional_lf();
        let ghost u = self.reading();
        if starts_zmodem(self.input.as_slice()) {
            let header: Vec<u8> = self.consume(6);
            self.skip_optional_lf = false;
            assert(self.reading() =~= (Reading {
                input: u.input.skip(6),
                ended: u.ended,
                skip_optional_lf: false,
            }));
            return Ok(Step::Ready(Some(TerminalInput::Zmodem(header))));
        }
        proof {
            assert(after_optional_lf(u) =~= u);
        }
        match self.read_line() {
            Ok(Step::Pending) => Ok(Step::Pending),
            Ok(Step::Ready(Some(line))) => Ok(Step::Ready(Some(TerminalInput::Line(line)))),
            Ok(Step::Ready(None)) => Ok(Step::Ready(None)),
            Err(error) => Err(error),
        }
    }

    /// Read at most `max` bytes as they are. No bytes stand for the end of the
    /// input.
    pub fn read_bytes(&mut self, max: usize) -> (r: Step<Vec<u8>>)
        ensures
            (final(self).reading(), bytes_outcome(r)) == bytes_read(
                old(self).reading(),
                max as int,
            ),
            final(self).output() == old(self).output(),
            final(self).closed() == old(self).closed(),
    {
        if max == 0 {
            return Step::Ready(Vec::new());
        }
        self.consume_optional_lf();
        let ghost u = self.reading();
        if self.input.len() == 0 {
            if self.ended {
                return Step::Ready(Vec::new());
            }
            return Step::Pending;
        }
        let n: usize = if max < self.input.len() {
            max
        } else {
            self.input.len()
        };
        let bytes: Vec<u8> = self.consume(n);
        self.skip_optional_lf = false;
        assert(self.reading() =~= (Reading {
            input: u.input.skip(n as int),
            ended: u.ended,
            skip_optional_lf: false,
        }));
        Step::Ready(bytes)
    }

    /// Consume the `OO` acknowledgement that a ZMODEM sender emits after the
    /// receiver's final ZFIN. Any bytes after it remain for normal terminal
    /// input, so a following command cannot become `OO<command>`.
    pub fn consume_zmodem_final_ack(&mut self) -> (r: Result<Step<bool>, TerminalError>)
        ensures
            (final(self).reading(), r) == ack_read(old(self).reading()),
            final(self).output() == old(self).output(),
            final(self).closed() == old(self).closed(),
    {
        if self.input.len() == 0 {
            if self.ended {
                return Ok(Step::Ready(false));
            }
            return Ok(Step::Pending);
        }
        if self.input[0] != LETTER_O {
            return Ok(Step::Ready(false));
        }
        if self.input.len() == 1 && !self.ended {
            return Ok(Step::Pending);
        }
        if self.input.len() > 1 && self.input[1] == LETTER_O {
            let _ = self.consume(2);
            return Ok(Step::Ready(true));
        }
        let _ = self.consume(1);
        Err(TerminalError::InvalidAcknowledgement)
    }

    /// Stop waiting for the acknowledgement. A first letter that has arrived
    /// without the second is dropped.
    pub fn abandon_zmodem_final_ack(&mut self)
        ensures
            final(self).reading() == ack_abandoned(old(self).reading()),
            final(self).output() == old(self).output(),
            final(self).closed() == old(self).closed(),
    {
        if self.input.len() == 1 && self.input[0] == LETTER_O && !self.ended {
            let _ = self.consume(1);
            assert(self.input@ =~= Seq::empty());
        }
    }

    /// Write bytes as they are.
    pub fn write_bytes(&mut self, bytes: &[u8])
        ensures
            final(self).reading() == old(self).reading(),
            final(self).output() == old(self).output() + bytes@,
            final(self).closed() == old(self).closed(),
    {
        self.output.extend_from_slice(bytes);
        assert(self.output@ =~= old(self).output@ + bytes@);
    }

    /// Write text.
    pub fn write(&mut self, text: &str)
        ensures
            final(self).reading() == old(self).reading(),
            final(self).output() == old(self).output() + encode_utf8(text@),
            final(self).closed() == old(self).closed(),
    {
        self.write_bytes(text.as_bytes());
    }

    /// Write a line, with CRLF behind it.
    pub fn write_line(&mut self, text: &str)
        ensures
            final(self).reading() == old(self).reading(),
            final(self).output() == old(self).output() + encode_utf8(text@) + seq![CR, LF],
            final(self).closed() == old(self).closed(),
    {
        self.write(text);
        self.output.push(CR);
        self.output.push(LF);
        assert(self.output@ =~= old(self).output@ + encode_utf8(text@) + seq![CR, LF]);
    }

    /// The bytes to send.
    pub fn take_output(&mut self) -> (r: Vec<u8>)
        ensures
            r@ == old(self).output(),
            final(self).reading() == old(self).reading(),
            final(self).output() == Seq::<u8>::empty(),
            final(self).closed() == old(self).closed(),
    {
        let mut out: Vec<u8> = Vec::new();
        std::mem::swap(&mut out, &mut self.output);
        out
    }

    /// End the writing side.
    pub fn shutdown(&mut self)
        ensures
            final(self).reading() == old(self).reading(),
            final(self).output() == old(self).output(),
            final(self).closed(),
    {
        self.closed = true;
    }

    /// Whether the writing side has been ended.
    pub fn is_closed(&self) -> (r: bool)
        ensures
            r == self.closed(),
    {
        self.closed
    }
}

/// Whether the bytes open a ZMODEM upload.
fn starts_zmodem(bytes: &[u8]) -> (r: bool)
    ensures
        r == opens_zmodem(bytes@),
{
    let r: bool = bytes.len() >= 6 && bytes[0] == 42 && bytes[1] == 42 && bytes[2] == 24
        && bytes[3] == 66 && bytes[4] == 48 && bytes[5] == 48;
    proof {
        if r {
            assert(bytes@.take(6) =~= zmodem_start());
        } else if opens_zmodem(bytes@) {
            let head = bytes@.take(6);
            assert(head[0] == 42 && head[1] == 42 && head[2] == 24 && head[3] == 66 && head[4]
                == 48 && head[5] == 48);
        }
    }
    r
}

/// What `line_end` promises.
proof fn lemma_line_end(bytes: Seq<u8>)
    ensures
        0 <= line_end(bytes) <= bytes.len(),
        forall|i: int| 0 <= i < line_end(bytes) ==> !is_terminator(#[trigger] bytes[i]),
        line_end(bytes) < bytes.len() ==> is_terminator(bytes[line_end(bytes)]),
    decreases bytes.len(),
{
    if bytes.len() != 0 && !is_terminator(bytes[0]) {
        let rest = bytes.drop_first();
        lemma_line_end(rest);
        assert forall|i: int| 0 <= i < line_end(bytes) implies !is_terminator(
            #[trigger] bytes[i],
        ) by {
            if i > 0 {
                assert(rest[i - 1] == bytes[i]);
            }
        }
    }
}

/// `line_end` is the only index with its defining property.
proof fn lemma_line_end_unique(bytes: Seq<u8>, k: int)
    requires
        0 <= k <= bytes.len(),
        forall|i: int| 0 <= i < k ==> !is_terminator(#[trigger] bytes[i]),
        k < bytes.len() ==> is_terminator(bytes[k]),
    ensures
        line_end(bytes) == k,
    decreases bytes.len(),
{
    if k > 0 {
        assert(!is_terminator(bytes[0]));
        let rest = bytes.drop_first();
        assert forall|i: int| 0 <= i < k - 1 implies !is_terminator(#[trigger] rest[i]) by {
            assert(rest[i] == bytes[i + 1]);
        }
        lemma_line_end_unique(rest, k - 1);
    }
}

/// CR, LF, or CR and LF.
pub open spec fn is_line_ending(ending: Seq<u8>) -> bool {
    ending == seq![CR] || ending == seq![LF] || ending == seq![CR, LF]
}

/// A line reads the same whichever of CR, CRLF and LF ends it, and the next
/// read starts at what follows. (A CR in front of an LF is a CRLF.)
pub proof fn law_line_endings_are_equivalent(
    line: Seq<u8>,
    ending: Seq<u8>,
    rest: Seq<u8>,
    ended: bool,
)
    requires
        is_line_ending(ending),
        forall|i: int| 0 <= i < line.len() ==> !is_terminator(#[trigger] line[i]),
        line.len() <= MAX_LINE_BYTES,
        ending == seq![CR] && rest.len() > 0 ==> rest[0] != LF,
    ensures
        ({
            let (left, result) = line_read(
                Reading { input: line + ending + rest, ended, skip_optional_lf: false },
            );
            &&& result == line_of(line)
            &&& settled(left) == rest
            &&& left.ended == ended
        }),
{
    let t = Reading { input: line + ending + rest, ended, skip_optional_lf: false };
    let s = t.input;
    let k = line.len() as int;
    assert(s[k] == ending[0]);
    assert forall|i: int| 0 <= i < k implies !is_terminator(#[trigger] s[i]) by {
        assert(s[i] == line[i]);
    }
    lemma_line_end_unique(s, k);
    assert(s.take(k) =~= line);
    let left = line_read(t).0;
    assert(left.input == s.skip(k + 1));
    if ending == seq![CR, LF] {
        assert(left.input[0] == s[k + 1]);
        assert(s[k + 1] == ending[1]);
        assert(left.input.drop_first() =~= rest);
    } else {
        assert(ending.len() == 1);
        assert(left.input =~= rest);
    }
}

/// Reading is independent of how the bytes arrive: a read that was pending gives,
/// once more bytes are there, what it would have given with all of them at once.
pub proof fn law_pending_read_resumes(t: Reading, more: Seq<u8>)
    requires
        !t.ended,
    ensures
        line_read(t).1 == Ok::<Step<Option<Seq<char>>>, TerminalError>(Step::Pending)
            ==> line_read(fed(line_read(t).0, more)) == line_read(fed(t, more)),
        input_read(t).1 == Ok::<Step<Option<InputView>>, TerminalError>(Step::Pending)
            ==> input_read(fed(input_read(t).0, more)) == input_read(fed(t, more)),
{
    let u = after_optional_lf(t);
    if t.input.len() == 0 {
        assert(u =~= t);
    } else {
        assert(after_optional_lf(fed(u, more)).input =~= after_optional_lf(fed(t, more)).input);
        assert(after_optional_lf(fed(u, more)) =~= after_optional_lf(fed(t, more)));
    }
}

/// A reading side after the arrival of more bytes.
pub open spec fn fed(t: Reading, more: Seq<u8>) -> Reading {
    Reading { input: t.input + more, ..t }
}

/// A line that could be read is not changed by what arrives later.
pub proof fn law_complete_read_is_final(t: Reading, more: Seq<u8>)
    requires
        !t.ended,
        line_read(t).1 matches Ok(Step::Ready(_)),
    ensures
        line_read(fed(t, more)) == (fed(line_read(t).0, more), line_read(t).1),
{
    let u = after_optional_lf(t);
    let v = after_optional_lf(fed(t, more));
    assert(t.input.len() > 0);
    assert(v.input =~= u.input + more);
    assert(v.skip_optional_lf == u.skip_optional_lf);
    let k = line_end(u.input);
    lemma_line_end(u.input);
    assert forall|i: int| 0 <= i < k implies !is_terminator(#[trigger] v.input[i]) by {
        assert(v.input[i] == u.input[i]);
    }
    assert(v.input[k] == u.input[k]);
    lemma_line_end_unique(v.input, k);
    assert(v.input.take(k) =~= u.input.take(k));
    assert(v.input.skip(k + 1) =~= u.input.skip(k + 1) + more);
}

/// No byte is lost or read twice: in front of what is left stand a skipped LF,
/// if there was one to skip, the line and its terminator.
pub proof fn law_line_read_accounts_for_every_byte(t: Reading)
    requires
        line_read(t).1 matches Ok(Step::Ready(_)),
    ensures
        ({
            let left = line_read(t).0.input;
            let k = line_end(settled(t));
            let read = if k < settled(t).len() {
                k + 1
            } else {
                k
            };
            &&& settled(t) == settled(t).take(read) + left
            &&& settled(t) == t.input || t.input == seq![LF] + settled(t)
        }),
{
    let s = settled(t);
    lemma_line_end(s);
    let k = line_end(s);
    if k < s.len() {
        assert(s =~= s.take(k + 1) + s.skip(k + 1));
    } else {
        assert(s =~= s.take(k) + Seq::empty());
    }
    if s != t.input {
        assert(t.input =~= seq![LF] + s);
    }
}

/// Nor is one by a read of bytes as they are.
pub proof fn law_byte_read_accounts_for_every_byte(t: Reading, max: int)
    requires
        max > 0,
    ensures
        bytes_read(t, max).1 matches Step::Ready(bytes) ==> settled(t) == bytes + bytes_read(
            t,
            max,
        ).0.input && bytes.len() <= max && (bytes.len() == 0 ==> t.ended),
        bytes_read(t, max).1 is Pending ==> settled(t).len() == 0 && !t.ended,
{
    let s = settled(t);
    let n = if max < s.len() {
        max
    } else {
        s.len() as int
    };
    assert(s =~= s.take(n) + s.skip(n));
}

/// The start of a ZMODEM upload is recognised before any line is decoded, and
/// everything behind it is left for the transfer.
pub proof fn law_zmodem_is_recognised(rest: Seq<u8>, ended: bool)
    ensures
        input_read(
            Reading { input: zmodem_start() + rest, ended, skip_optional_lf: false },
        ) == (
            Reading { input: rest, ended, skip_optional_lf: false },
            Ok::<Step<Option<InputView>>, TerminalError>(
                Step::Ready(Some(InputView::Zmodem(zmodem_start()))),
            ),
        ),
{
    let s = zmodem_start() + rest;
    assert(s.take(6) =~= zmodem_start());
    assert(s.skip(6) =~= rest);
}

/// The final acknowledgement of a ZMODEM sender does not become part of the next
/// command.
pub proof fn law_acknowledgement_is_not_a_command(rest: Seq<u8>, ended: bool, skip: bool)
    ensures
        ack_read(
            Reading {
                input: seq![LETTER_O, LETTER_O] + rest,
                ended,
                skip_optional_lf: skip,
            },
        ) == (
            Reading { input: rest, ended, skip_optional_lf: skip },
            Ok::<Step<bool>, TerminalError>(Step::Ready(true)),
        ),
{
    let s = seq![LETTER_O, LETTER_O] + rest;
    assert(s[0] == LETTER_O && s[1] == LETTER_O);
    assert(s.skip(2) =~= rest);
}

/// Only the two terminators themselves are encoded with a terminator's byte.
proof fn lemma_terminator_bytes(scalar: u32)
    by (bit_vector)
    ensures
        has_width_1_encoding(scalar) ==> leading_byte_width_1(scalar) == scalar,
        has_width_2_encoding(scalar) ==> leading_byte_width_2(scalar) >= 0x80,
        has_width_3_encoding(scalar) ==> leading_byte_width_3(scalar) >= 0x80,
        has_width_4_encoding(scalar) ==> leading_byte_width_4(scalar) >= 0x80,
        last_continuation_byte(scalar) >= 0x80,
        second_last_continuation_byte(scalar) >= 0x80,
        third_last_continuation_byte(scalar) >= 0x80,
{
}

/// A text holds a line terminator.
pub open spec fn holds_terminator(text: Seq<char>) -> bool {
    text.contains('\r') || text.contains('\n')
}

/// A text and its bytes hold a line terminator together or not at all.
proof fn lemma_terminators_are_encoded(text: Seq<char>)
    ensures
        holds_terminator(text) <==> exists|i: int|
            0 <= i < encode_utf8(text).len() && is_terminator(#[trigger] encode_utf8(text)[i]),
    decreases text.len(),
{
    if text.len() > 0 {
        let rest = text.drop_first();
        let head = encode_scalar(text[0] as u32);
        let tail = encode_utf8(rest);
        let bytes = encode_utf8(text);
        lemma_terminators_are_encoded(rest);
        lemma_terminator_bytes(text[0] as u32);
        char_is_scalar(text[0]);
        assert(bytes == head + tail);
        if holds_terminator(text) {
            if text[0] == '\r' || text[0] == '\n' {
                assert(is_terminator(bytes[0]));
            } else {
                let c = if text.contains('\r') {
                    '\r'
                } else {
                    '\n'
                };
                let k = choose|k: int| 0 <= k < text.len() && text[k] == c;
                assert(rest[k - 1] == c);
                let i = choose|i: int| 0 <= i < tail.len() && is_terminator(#[trigger] tail[i]);
                assert(bytes[head.len() + i] == tail[i]);
            }
        }
        if exists|i: int| 0 <= i < bytes.len() && is_terminator(#[trigger] bytes[i]) {
            let i = choose|i: int| 0 <= i < bytes.len() && is_terminator(#[trigger] bytes[i]);
            if i < head.len() {
                assert(bytes[i] == head[i]);
                let scalar = text[0] as u32;
                assert(has_width_1_encoding(scalar));
                assert(head =~= seq![leading_byte_width_1(scalar)]);
                assert(scalar == 13 || scalar == 10);
                char_u32_cast(text[0], scalar);
                assert(13u32 as char == '\r' && 10u32 as char == '\n');
                assert(text[0] == '\r' || text[0] == '\n');
            } else {
                assert(tail[i - head.len()] == bytes[i]);
                let c = if rest.contains('\r') {
                    '\r'
                } else {
                    '\n'
                };
                let k = choose|k: int| 0 <= k < rest.len() && rest[k] == c;
                assert(text[k + 1] == c);
            }
        }
    }
}

/// A line that was read holds no line terminator.
pub proof fn law_lines_hold_no_terminator(t: Reading)
    ensures
        line_read(t).1 matches Ok(Step::Ready(Some(text))) ==> !holds_terminator(text),
{
    let u = after_optional_lf(t);
    let k = line_end(u.input);
    lemma_line_end(u.input);
    let bytes = if k < u.input.len() {
        u.input.take(k)
    } else {
        u.input
    };
    if valid_utf8(bytes) {
        decode_utf8_encode_utf8(bytes);
        lemma_terminators_are_encoded(decode_utf8(bytes));
        assert forall|i: int| 0 <= i < bytes.len() implies !is_terminator(#[trigger] bytes[i]) by {
            assert(bytes[i] == u.input[i]);
        }
    }
}

/// What a client types arrives as it was typed: a text without line terminators,
/// with any line ending behind it, is read as that text, and the next read starts
/// at what follows.
pub proof fn law_typed_text_arrives(
    text: Seq<char>,
    ending: Seq<u8>,
    rest: Seq<u8>,
    ended: bool,
)
    requires
        is_line_ending(ending),
        !holds_terminator(text),
        encode_utf8(text).len() <= MAX_LINE_BYTES,
        ending == seq![CR] && rest.len() > 0 ==> rest[0] != LF,
    ensures
        ({
            let (left, result) = line_read(
                Reading {
                    input: encode_utf8(text) + ending + rest,
                    ended,
                    skip_optional_lf: false,
                },
            );
            &&& result == Ok::<Step<Option<Seq<char>>>, TerminalError>(
                Step::Ready(Some(text)),
            )
            &&& settled(left) == rest
        }),
{
    let bytes = encode_utf8(text);
    lemma_terminators_are_encoded(text);
    encode_utf8_valid_utf8(text);
    encode_utf8_decode_utf8(text);
    law_line_endings_are_equivalent(bytes, ending, rest, ended);
}

/// One line after the other: where the line before ended in CR, an LF in front
/// belongs to it and no more than one; then comes the text as it was typed. The
/// ending is read up to its CR or its LF, and a CR is remembered.
pub proof fn law_lines_arrive_in_turn(
    after_cr: bool,
    lf: bool,
    text: Seq<char>,
    ending: Seq<u8>,
    rest: Seq<u8>,
    ended: bool,
)
    requires
        lf ==> after_cr,
        is_line_ending(ending),
        !holds_terminator(text),
        encode_utf8(text).len() <= 16384,
        after_cr && !lf ==> (encode_utf8(text) + ending)[0] != 10,
    ensures
        ({
            let front = if lf {
                seq![10u8]
            } else {
                Seq::empty()
            };
            let (left, result) = line_read(
                Reading {
                    input: front + encode_utf8(text) + ending + rest,
                    ended,
                    skip_optional_lf: after_cr,
                },
            );
            &&& result == Ok::<Step<Option<Seq<char>>>, TerminalError>(Step::Ready(Some(text)))
            &&& left.ended == ended
            &&& left.skip_optional_lf == (ending[0] == 13)
            &&& left.input == ending.drop_first() + rest
        }),
{
    let bytes = encode_utf8(text);
    let front = if lf {
        seq![10u8]
    } else {
        Seq::<u8>::empty()
    };
    let t = Reading {
        input: front + bytes + ending + rest,
        ended,
        skip_optional_lf: after_cr,
    };
    let s = bytes + ending + rest;
    let k = bytes.len() as int;
    lemma_terminators_are_encoded(text);
    encode_utf8_valid_utf8(text);
    encode_utf8_decode_utf8(text);
    assert(t.input[0] == (if lf {
        10u8
    } else {
        (bytes + ending)[0]
    }));
    if lf {
        assert(t.input.drop_first() =~= s);
    } else {
        assert(t.input =~= s);
    }
    assert(after_optional_lf(t).input =~= s);
    assert(s[k] == ending[0]);
    assert forall|i: int| 0 <= i < k implies !is_terminator(#[trigger] s[i]) by {
        assert(s[i] == bytes[i]);
    }
    lemma_line_end_unique(s, k);
    assert(s.take(k) =~= bytes);
    assert(s.skip(k + 1) =~= ending.drop_first() + rest);
}

/// A line is complete with its terminator, or with the end of the input. Until
/// then nothing is lost; one of more than 16384 bytes is refused, and so are
/// bytes that are not UTF-8.
pub proof fn law_lines_end(line: Seq<u8>, rest: Seq<u8>, terminator: u8, ended: bool)
    requires
        forall|i: int| 0 <= i < line.len() ==> #[trigger] line[i] != 13 && line[i] != 10,
        terminator == 13 || terminator == 10,
    ensures
        ({
            let open = Reading { input: line, ended, skip_optional_lf: false };
            let closed = Reading {
                input: line.push(terminator) + rest,
                ended,
                skip_optional_lf: false,
            };
            let short = line.len() <= 16384;
            &&& !short ==> line_read(open).1 == Err::<Step<Option<Seq<char>>>, TerminalError>(
                TerminalError::LineTooLong,
            )
            &&& !short ==> line_read(closed).1 == Err::<Step<Option<Seq<char>>>, TerminalError>(
                TerminalError::LineTooLong,
            )
            &&& short && !ended ==> line_read(open) == (
                open,
                Ok::<Step<Option<Seq<char>>>, TerminalError>(Step::Pending),
            )
            &&& ended && line.len() == 0 ==> line_read(open).1 == Ok::<
                Step<Option<Seq<char>>>,
                TerminalError,
            >(Step::Ready(None))
            &&& short && ended && line.len() > 0 && valid_utf8(line) ==> line_read(open).1 == Ok::<
                Step<Option<Seq<char>>>,
                TerminalError,
            >(Step::Ready(Some(decode_utf8(line))))
            &&& short && ended && line.len() > 0 ==> line_read(open).0.input.len() == 0
            &&& short && !valid_utf8(line) ==> line_read(closed).1 == Err::<
                Step<Option<Seq<char>>>,
                TerminalError,
            >(TerminalError::NotUtf8)
            &&& short && valid_utf8(line) ==> line_read(closed).1 == Ok::<
                Step<Option<Seq<char>>>,
                TerminalError,
            >(Step::Ready(Some(decode_utf8(line))))
        }),
{
    let open = Reading { input: line, ended, skip_optional_lf: false };
    let k = line.len() as int;
    lemma_line_end_unique(line, k);
    assert(after_optional_lf(open) =~= open);
    let s = line.push(terminator) + rest;
    assert(s[k] == terminator);
    assert forall|i: int| 0 <= i < k implies !is_terminator(#[trigger] s[i]) by {
        assert(s[i] == line[i]);
    }
    lemma_line_end_unique(s, k);
    assert(s.take(k) =~= line);
}

/// Where a command is expected, the six bytes `**` CAN `B00` open an upload.
/// Anything else is a line, read as everywhere.
pub proof fn law_commands_and_uploads_are_told_apart(t: Reading)
    requires
        !t.skip_optional_lf,
    ensures
        ({
            let opening = seq![0x2au8, 0x2a, 0x18, 0x42, 0x30, 0x30];
            let (left, result) = input_read(t);
            let (line_left, line_result) = line_read(t);
            if opening.is_prefix_of(t.input) {
                &&& left.input == t.input.skip(6)
                &&& left.ended == t.ended
                &&& !left.skip_optional_lf
                &&& result == Ok::<Step<Option<InputView>>, TerminalError>(
                    Step::Ready(Some(InputView::Zmodem(opening))),
                )
            } else {
                &&& left == line_left
                &&& match line_result {
                    Ok(Step::Pending) => result == Ok::<Step<Option<InputView>>, TerminalError>(
                        Step::Pending,
                    ),
                    Ok(Step::Ready(None)) => result == Ok::<
                        Step<Option<InputView>>,
                        TerminalError,
                    >(Step::Ready(None)),
                    Ok(Step::Ready(Some(text))) => result == Ok::<
                        Step<Option<InputView>>,
                        TerminalError,
                    >(Step::Ready(Some(InputView::Line(text)))),
                    Err(error) => result == Err::<Step<Option<InputView>>, TerminalError>(error),
                }
            }
        }),
{
    let opening = seq![0x2au8, 0x2a, 0x18, 0x42, 0x30, 0x30];
    assert(after_optional_lf(t) =~= t);
    assert(opening =~= zmodem_start());
    if t.input.len() >= 6 {
        assert(t.input.take(6) =~= t.input.subrange(0, 6));
    }
}

/// Raw bytes come as they have arrived, from the first on: as many as are wanted
/// and there. None come at the end only. An LF behind the CR of the line before
/// is not among them.
pub proof fn law_raw_bytes_arrive(input: Seq<u8>, ended: bool, max: int)
    requires
        max > 0,
    ensures
        ({
            let t = Reading { input, ended, skip_optional_lf: false };
            let n = if input.len() < max {
                input.len() as int
            } else {
                max
            };
            let (left, got) = bytes_read(t, max);
            &&& input.len() > 0 ==> got == Step::Ready(input.take(n))
            &&& input.len() == 0 && ended ==> got == Step::Ready(Seq::<u8>::empty())
            &&& input.len() == 0 && !ended ==> got == Step::<Seq<u8>>::Pending
            &&& left == (Reading { input: input.skip(n), ended, skip_optional_lf: false })
            &&& bytes_read(
                Reading { input: seq![10u8] + input, ended, skip_optional_lf: true },
                max,
            ) == bytes_read(t, max)
            &&& input.len() > 0 && input[0] != 10 ==> bytes_read(
                Reading { input, ended, skip_optional_lf: true },
                max,
            ) == bytes_read(t, max)
        }),
{
    let t = Reading { input, ended, skip_optional_lf: false };
    assert(after_optional_lf(t) =~= t);
    let u = Reading { input: seq![10u8] + input, ended, skip_optional_lf: true };
    assert(u.input.drop_first() =~= input);
    assert(after_optional_lf(u) =~= t);
    if input.len() == 0 {
        assert(input.skip(0) =~= input);
    }
    if input.len() > 0 && input[0] != 10 {
        assert(after_optional_lf(Reading { input, ended, skip_optional_lf: true }) =~= t);
    }
}

/// What follows an upload and does not begin with the letter O is no
/// acknowledgement, and is kept for the next command. While nothing or one O has
/// arrived, more is waited for; given up, that one O is gone and nothing else.
pub proof fn law_no_acknowledgement_takes_no_command(t: Reading)
    ensures
        t.input.len() > 0 && t.input[0] != 79 ==> ack_read(t) == (
            t,
            Ok::<Step<bool>, TerminalError>(Step::Ready(false)),
        ),
        !t.ended && (t.input.len() == 0 || t.input == seq![79u8]) ==> ack_read(t) == (
            t,
            Ok::<Step<bool>, TerminalError>(Step::Pending),
        ),
        !t.ended && t.input == seq![79u8] ==> ack_abandoned(t) == (Reading {
            input: Seq::empty(),
            ..t
        }),
        t.input.len() > 1 && t.input[0] == 79 && t.input[1] != 79 ==> ack_read(t) == (
            Reading { input: t.input.drop_first(), ..t },
            Err::<Step<bool>, TerminalError>(TerminalError::InvalidAcknowledgement),
        ),
        t.ended && t.input.len() == 0 ==> ack_read(t) == (
            t,
            Ok::<Step<bool>, TerminalError>(Step::Ready(false)),
        ),
        t.input.len() != 1 ==> ack_abandoned(t) == t,
        t.input.len() > 0 && t.input[0] != 79 ==> ack_abandoned(t) == t,
{
    if t.input.len() > 0 {
        assert(t.input.skip(1) =~= t.input.drop_first());
    }
}

/// An LF right behind the CR of the line before belongs to that line: the read
/// goes on behind it, and any other read goes on as if there had been no CR.
/// Where nothing has arrived yet, it is still awaited.
pub proof fn law_an_lf_belongs_to_its_cr(input: Seq<u8>, ended: bool)
    ensures
        ({
            let plain = |bytes: Seq<u8>|
                Reading { input: bytes, ended, skip_optional_lf: false };
            let after = |bytes: Seq<u8>| Reading { input: bytes, ended, skip_optional_lf: true };
            let none = Seq::<u8>::empty();
            &&& input.len() > 0 && input[0] != 10 ==> line_read(after(input)) == line_read(
                plain(input),
            )
            &&& input.len() > 0 && input[0] != 10 ==> input_read(after(input)) == input_read(
                plain(input),
            )
            &&& line_read(after(seq![10u8] + input)) == line_read(plain(input))
            &&& input_read(after(seq![10u8] + input)) == input_read(plain(input))
            &&& !ended ==> line_read(after(none)) == (
                after(none),
                Ok::<Step<Option<Seq<char>>>, TerminalError>(Step::Pending),
            )
            &&& ended ==> line_read(after(none)).1 == Ok::<
                Step<Option<Seq<char>>>,
                TerminalError,
            >(Step::Ready(None))
        }),
{
    let none = Seq::<u8>::empty();
    let p = Reading { input, ended, skip_optional_lf: false };
    let a = Reading { input, ended, skip_optional_lf: true };
    let l = Reading { input: seq![10u8] + input, ended, skip_optional_lf: true };
    assert(l.input.drop_first() =~= input);
    assert(after_optional_lf(l) =~= after_optional_lf(p));
    if input.len() > 0 && input[0] != 10 {
        assert(after_optional_lf(a) =~= after_optional_lf(p));
    }
    assert(line_end(none) == 0);
    let e = Reading { input: none, ended, skip_optional_lf: true };
    if !ended {
        assert(after_optional_lf(e) =~= e);
    }
}

/// What a read gives is handed over as it is held.
pub proof fn law_reads_are_what_is_held(text: String, bytes: Vec<u8>, error: TerminalError)
    ensures
        TerminalInput::Line(text)@ == InputView::Line(text@),
        TerminalInput::Zmodem(bytes)@ == InputView::Zmodem(bytes@),
        line_outcome(Ok(Step::Ready(Some(text)))) == Ok::<
            Step<Option<Seq<char>>>,
            TerminalError,
        >(Step::Ready(Some(text@))),
        line_outcome(Ok(Step::Ready(None))) == Ok::<Step<Option<Seq<char>>>, TerminalError>(
            Step::Ready(None),
        ),
        line_outcome(Ok(Step::Pending)) == Ok::<Step<Option<Seq<char>>>, TerminalError>(
            Step::Pending,
        ),
        line_outcome(Err(error)) == Err::<Step<Option<Seq<char>>>, TerminalError>(error),
        input_outcome(Ok(Step::Ready(Some(TerminalInput::Line(text))))) == Ok::<
            Step<Option<InputView>>,
            TerminalError,
        >(Step::Ready(Some(InputView::Line(text@)))),
        input_outcome(Ok(Step::Ready(Some(TerminalInput::Zmodem(bytes))))) == Ok::<
            Step<Option<InputView>>,
            TerminalError,
        >(Step::Ready(Some(InputView::Zmodem(bytes@)))),
        input_outcome(Ok(Step::Ready(None))) == Ok::<Step<Option<InputView>>, TerminalError>(
            Step::Ready(None),
        ),
        input_outcome(Ok(Step::Pending)) == Ok::<Step<Option<InputView>>, TerminalError>(
            Step::Pending,
        ),
        input_outcome(Err(error)) == Err::<Step<Option<InputView>>, TerminalError>(error),
        bytes_outcome(Step::Ready(bytes)) == Step::Ready(bytes@),
        bytes_outcome(Step::Pending) == Step::<Seq<u8>>::Pending,
{
}

} // verus!
