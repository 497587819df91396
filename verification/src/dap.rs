//! The framing of Debug Adapter Protocol messages: a `Content-Length`
//! header, a blank line, and that many bytes of JSON.

use vstd::prelude::*;
use vstd::slice::slice_subrange;
use vstd::string::StringExecFns;
use vstd::utf8::{decode_utf8, encode_utf8, valid_utf8};
use crate::hex::{decimal, decimal_value, is_decimal_digit, push_decimal};
use crate::text::{chars_of, has_prefix, starts_with};

verus! {

/// Why a number of bytes could not be read out of a header.
#[derive(Debug, Clone, Copy, PartialEq, Eq, Structural)]
pub enum LengthError {
    /// There is nothing where the number should be.
    Empty,
    /// A character is not a decimal digit.
    InvalidDigit,
    /// The number does not fit.
    TooLarge,
}

/// Why no message could be read.
#[derive(Debug)]
pub enum DapReadError {
    /// The input ended inside the headers or inside the body.
    UnexpectedEof,
    /// The `Content-Length` header does not hold a length.
    InvalidLength(LengthError),
    /// The headers ended without a `Content-Length`.
    MissingContentLength,
    /// A header line or the body is not UTF-8; with the decoder's message.
    InvalidUtf8(String),
}

/// A `DapReadError` with text as sequences of characters.
pub enum DapReadErrorView {
    UnexpectedEof,
    InvalidLength(LengthError),
    MissingContentLength,
    InvalidUtf8(Seq<char>),
}

impl View for DapReadError {
    type V = DapReadErrorView;

    open spec fn view(&self) -> DapReadErrorView {
        match self {
            DapReadError::UnexpectedEof => DapReadErrorView::UnexpectedEof,
            DapReadError::InvalidLength(e) => DapReadErrorView::InvalidLength(*e),
            DapReadError::MissingContentLength => DapReadErrorView::MissingContentLength,
            DapReadError::InvalidUtf8(m) => DapReadErrorView::InvalidUtf8(m@),
        }
    }
}

/// What a length error says.
pub open spec fn length_error_text(e: LengthError) -> Seq<char> {
    match e {
        LengthError::Empty => "cannot parse integer from empty string"@,
        LengthError::InvalidDigit => "invalid digit found in string"@,
        LengthError::TooLarge => "number too large to fit in target type"@,
    }
}

/// What a read error says, as a line of text.
pub open spec fn read_error_text(e: DapReadErrorView) -> Seq<char> {
    match e {
        DapReadErrorView::UnexpectedEof => "unexpected EOF while reading headers"@,
        DapReadErrorView::InvalidLength(e) => "invalid length: "@ + length_error_text(e),
        DapReadErrorView::MissingContentLength => "Content-Length header missing"@,
        DapReadErrorView::InvalidUtf8(m) => m,
    }
}

impl DapReadError {
    /// What the error says, as a line of text.
    pub fn message(&self) -> (text: String)
        ensures
            text@ == read_error_text(self@),
    {
        match self {
            DapReadError::UnexpectedEof => "unexpected EOF while reading headers".to_owned(),
            DapReadError::InvalidLength(e) => {
                let mut text = "invalid length: ".to_owned();
                text.append(
                    match e {
                        LengthError::Empty => "cannot parse integer from empty string",
                        LengthError::InvalidDigit => "invalid digit found in string",
                        LengthError::TooLarge => "number too large to fit in target type",
                    },
                );
                text
            },
            DapReadError::MissingContentLength => "Content-Length header missing".to_owned(),
            DapReadError::InvalidUtf8(m) => m.clone(),
        }
    }
}

/// Whether `c` is white space, as `str::trim` sees it.
pub open spec fn is_whitespace(c: char) -> bool {
    ||| c == ' '
    ||| '\t' <= c <= '\r'
    ||| c == '\u{85}'
    ||| c == '\u{a0}'
    ||| c == '\u{1680}'
    ||| '\u{2000}' <= c <= '\u{200a}'
    ||| c == '\u{2028}'
    ||| c == '\u{2029}'
    ||| c == '\u{202f}'
    ||| c == '\u{205f}'
    ||| c == '\u{3000}'
}

/// `s` without the white space at its start.
pub open spec fn trim_start(s: Seq<char>) -> Seq<char>
    decreases s.len(),
{
    if s.len() > 0 && is_whitespace(s[0]) {
        trim_start(s.drop_first())
    } else {
        s
    }
}

/// `s` without the white space at its end.
pub open spec fn trim_end(s: Seq<char>) -> Seq<char>
    decreases s.len(),
{
    if s.len() > 0 && is_whitespace(s.last()) {
        trim_end(s.drop_last())
    } else {
        s
    }
}

/// `s` without the white space at both ends.
pub open spec fn trimmed(s: Seq<char>) -> Seq<char> {
    trim_end(trim_start(s))
}

/// `s` without the carriage returns and line feeds at its end.
pub open spec fn without_line_end(s: Seq<char>) -> Seq<char>
    decreases s.len(),
{
    if s.len() > 0 && (s.last() == '\r' || s.last() == '\n') {
        without_line_end(s.drop_last())
    } else {
        s
    }
}

/// How many decimal digits `s` begins with.
pub open spec fn leading_digits(s: Seq<char>) -> int
    decreases s.len(),
{
    if s.len() > 0 && is_decimal_digit(s[0]) {
        1 + leading_digits(s.drop_first())
    } else {
        0
    }
}

/// The length that `s` writes: decimal digits, with a `+` in front if one
/// likes. Read from the left, the first fault decides: a number that has
/// grown too large, or a character that is no digit.
pub open spec fn parse_length(s: Seq<char>) -> Result<usize, LengthError> {
    if s.len() == 0 {
        Err(LengthError::Empty)
    } else {
        let digits = if s[0] == '+' {
            s.drop_first()
        } else {
            s
        };
        let n = leading_digits(digits);
        if digits.len() == 0 {
            Err(LengthError::InvalidDigit)
        } else if decimal_value(digits.take(n)) > usize::MAX {
            Err(LengthError::TooLarge)
        } else if n < digits.len() {
            Err(LengthError::InvalidDigit)
        } else {
            Ok(decimal_value(digits) as usize)
        }
    }
}

/// The name of the header that gives the length of the body.
pub open spec fn length_header() -> Seq<char> {
    "Content-Length:"@
}

/// What a reader of headers knows: whether it has read a header line of
/// the message, and the length of the body, once a `Content-Length` header
/// has given it.
pub struct MessageReader {
    started: bool,
    content_length: Option<usize>,
}

/// A `MessageReader` as a value.
pub struct HeaderState {
    pub started: bool,
    pub content_length: Option<usize>,
}

/// The reader at the start of a message: it has read nothing of it.
pub open spec fn fresh_headers() -> HeaderState {
    HeaderState { started: false, content_length: None }
}

impl View for MessageReader {
    type V = HeaderState;

    closed spec fn view(&self) -> HeaderState {
        HeaderState { started: self.started, content_length: self.content_length }
    }
}

/// What a line of input means to a reader of headers.
#[derive(Debug)]
pub enum HeaderStep {
    /// The headers go on: read another line.
    Continue,
    /// The headers are over: read a body of this many bytes.
    Body(usize),
    /// The input ended where a message could begin.
    End,
    /// The input is no message.
    Failed(DapReadError),
}

/// A `HeaderStep` over views.
pub enum HeaderStepView {
    Continue,
    Body(usize),
    End,
    Failed(DapReadErrorView),
}

impl View for HeaderStep {
    type V = HeaderStepView;

    open spec fn view(&self) -> HeaderStepView {
        match self {
            HeaderStep::Continue => HeaderStepView::Continue,
            HeaderStep::Body(n) => HeaderStepView::Body(*n),
            HeaderStep::End => HeaderStepView::End,
            HeaderStep::Failed(e) => HeaderStepView::Failed(e@),
        }
    }
}

/// The reader after a line, and what the line means. `line` is the line
/// with its end, or nothing at the end of the input.
///
/// The end of the input is a clean end only where no header line of the
/// message has been read; inside the headers it is a failure. A line that is
/// blank but for its end closes the headers; they must have given a length.
/// A `Content-Length:` line gives the length; any other line is passed over.
/// After the headers are closed, and after a failure, the reader stands at
/// the start of a message again.
pub open spec fn header_step(state: HeaderState, line: Seq<char>) -> (
    HeaderState,
    HeaderStepView,
) {
    if line.len() == 0 {
        if state.started {
            (fresh_headers(), HeaderStepView::Failed(DapReadErrorView::UnexpectedEof))
        } else {
            (fresh_headers(), HeaderStepView::End)
        }
    } else {
        let header = without_line_end(line);
        if header.len() == 0 {
            match state.content_length {
                Some(n) => (fresh_headers(), HeaderStepView::Body(n)),
                None => (
                    fresh_headers(),
                    HeaderStepView::Failed(DapReadErrorView::MissingContentLength),
                ),
            }
        } else if has_prefix(header, length_header()) {
            match parse_length(trimmed(header.skip(length_header().len() as int))) {
                Ok(n) => (
                    HeaderState { started: true, content_length: Some(n) },
                    HeaderStepView::Continue,
                ),
                Err(e) => (
                    fresh_headers(),
                    HeaderStepView::Failed(DapReadErrorView::InvalidLength(e)),
                ),
            }
        } else {
            (
                HeaderState { started: true, content_length: state.content_length },
                HeaderStepView::Continue,
            )
        }
    }
}

/// Whether `c` is white space, as `str::trim` sees it.
pub fn is_space(c: char) -> (yes: bool)
    ensures
        yes == is_whitespace(c),
{
    c == ' ' || ('\t' <= c && c <= '\r') || c == '\u{85}' || c == '\u{a0}' || c == '\u{1680}' || (
    '\u{2000}' <= c && c <= '\u{200a}') || c == '\u{2028}' || c == '\u{2029}' || c == '\u{202f}'
        || c == '\u{205f}' || c == '\u{3000}'
}

proof fn lemma_trim_start(s: Seq<char>, n: int)
    requires
        0 <= n <= s.len(),
        forall|k: int| 0 <= k < n ==> is_whitespace(s[k]),
        n < s.len() ==> !is_whitespace(s[n]),
    ensures
        trim_start(s) == s.skip(n),
    decreases n,
{
    if n > 0 {
        let tail = s.drop_first();
        assert forall|k: int| 0 <= k < n - 1 implies is_whitespace(tail[k]) by {
            assert(tail[k] == s[k + 1]);
        }
        lemma_trim_start(tail, n - 1);
        assert(tail.skip(n - 1) == s.skip(n));
    } else {
        assert(s.skip(0) == s);
    }
}

proof fn lemma_leading_digits(s: Seq<char>, n: int)
    requires
        0 <= n <= s.len(),
        forall|k: int| 0 <= k < n ==> is_decimal_digit(s[k]),
        n < s.len() ==> !is_decimal_digit(s[n]),
    ensures
        leading_digits(s) == n,
    decreases n,
{
    if n > 0 {
        let tail = s.drop_first();
        assert forall|k: int| 0 <= k < n - 1 implies is_decimal_digit(tail[k]) by {
            assert(tail[k] == s[k + 1]);
        }
        lemma_leading_digits(tail, n - 1);
    }
}

proof fn lemma_leading_digits_are(s: Seq<char>)
    ensures
        0 <= leading_digits(s) <= s.len(),
        forall|k: int| 0 <= k < leading_digits(s) ==> is_decimal_digit(s[k]),
        leading_digits(s) < s.len() ==> !is_decimal_digit(s[leading_digits(s)]),
    decreases s.len(),
{
    if s.len() > 0 && is_decimal_digit(s[0]) {
        let tail = s.drop_first();
        lemma_leading_digits_are(tail);
        assert forall|k: int| 0 <= k < leading_digits(s) implies is_decimal_digit(s[k]) by {
            if k > 0 {
                assert(tail[k - 1] == s[k]);
            }
        }
        if leading_digits(s) < s.len() {
            assert(tail[leading_digits(tail)] == s[leading_digits(s)]);
        }
    }
}

proof fn lemma_decimal_grows(s: Seq<char>, k: int, n: int)
    requires
        0 <= k <= n <= s.len(),
        forall|i: int| 0 <= i < n ==> is_decimal_digit(s[i]),
    ensures
        decimal_value(s.take(k)) <= decimal_value(s.take(n)),
    decreases n - k,
{
    if k < n {
        lemma_decimal_grows(s, k + 1, n);
        assert(s.take(k + 1).drop_last() == s.take(k));
        assert(is_decimal_digit(s[k]));
        assert(decimal_value(s.take(k)) * 10 >= decimal_value(s.take(k))) by (nonlinear_arith);
    }
}

/// Reads a length.
pub fn parse_usize(s: &[char]) -> (n: Result<usize, LengthError>)
    ensures
        n == parse_length(s@),
{
    if s.len() == 0 {
        return Err(LengthError::Empty);
    }
    let from: usize = if s[0] == '+' {
        1
    } else {
        0
    };
    let digits = slice_subrange(s, from, s.len());
    proof {
        if from == 1 {
            assert(digits@ == s@.drop_first());
        } else {
            assert(digits@ == s@);
        }
    }
    if digits.len() == 0 {
        return Err(LengthError::InvalidDigit);
    }
    let mut value: usize = 0;
    let mut i: usize = 0;
    while i < digits.len()
        invariant
            i <= digits.len(),
            s@.len() > 0,
            digits@.len() > 0,
            digits@ == (if s@[0] == '+' {
                s@.drop_first()
            } else {
                s@
            }),
            forall|k: int| 0 <= k < i ==> is_decimal_digit(digits@[k]),
            value == decimal_value(digits@.take(i as int)),
        decreases digits.len() - i,
    {
        let c = digits[i];
        if !('0' <= c && c <= '9') {
            proof {
                lemma_leading_digits(digits@, i as int);
            }
            return Err(LengthError::InvalidDigit);
        }
        let d: usize = (c as u32 - '0' as u32) as usize;
        proof {
            assert(digits@.take(i as int + 1).drop_last() == digits@.take(i as int));
        }
        if value > (usize::MAX - d) / 10 {
            proof {
                lemma_leading_digits_are(digits@);
                let n = leading_digits(digits@);
                if n < i + 1 {
                    assert(is_decimal_digit(digits@[n]));
                }
                lemma_decimal_grows(digits@, i as int + 1, n);
            }
            return Err(LengthError::TooLarge);
        }
        value = value * 10 + d;
        i += 1;
    }
    proof {
        lemma_leading_digits(digits@, digits@.len() as int);
        assert(digits@.take(digits@.len() as int) == digits@);
    }
    Ok(value)
}

/// The part of `s` that is left when white space is trimmed off both ends.
fn trim_span(s: &[char]) -> (span: (usize, usize))
    ensures
        span.0 <= span.1 <= s.len(),
        s@.subrange(span.0 as int, span.1 as int) == trimmed(s@),
{
    let mut start: usize = 0;
    while start < s.len() && is_space(s[start])
        invariant
            start <= s.len(),
            forall|k: int| 0 <= k < start ==> is_whitespace(s@[k]),
        decreases s.len() - start,
    {
        start += 1;
    }
    proof {
        lemma_trim_start(s@, start as int);
    }
    let ghost rest = s@.skip(start as int);
    let mut end: usize = s.len();
    proof {
        assert(s@.subrange(start as int, end as int) == rest);
    }
    while end > start && is_space(s[end - 1])
        invariant
            start <= end <= s.len(),
            trim_end(s@.subrange(start as int, end as int)) == trim_end(rest),
        decreases end,
    {
        proof {
            assert(s@.subrange(start as int, end as int).drop_last() == s@.subrange(
                start as int,
                end as int - 1,
            ));
        }
        end -= 1;
    }
    (start, end)
}

impl MessageReader {
    /// A reader at the start of a message.
    pub fn new() -> (reader: MessageReader)
        ensures
            reader@ == fresh_headers(),
    {
        MessageReader { started: false, content_length: None }
    }

    /// Takes the next line of input, with its end; an empty line stands for
    /// the end of the input.
    pub fn on_line(&mut self, line: &str) -> (step: HeaderStep)
        ensures
            (final(self)@, step@) == header_step(old(self)@, line@),
    {
        let chars = chars_of(line);
        let known = self.content_length;
        let started = self.started;
        if chars.len() == 0 {
            self.started = false;
            self.content_length = None;
            return if started {
                HeaderStep::Failed(DapReadError::UnexpectedEof)
            } else {
                HeaderStep::End
            };
        }
        let mut end: usize = chars.len();
        proof {
            assert(chars@.take(end as int) == chars@);
        }
        while end > 0 && (chars[end - 1] == '\r' || chars[end - 1] == '\n')
            invariant
                end <= chars.len(),
                without_line_end(chars@.take(end as int)) == without_line_end(chars@),
            decreases end,
        {
            proof {
                assert(chars@.take(end as int).drop_last() == chars@.take(end as int - 1));
            }
            end -= 1;
        }
        let header = slice_subrange(chars.as_slice(), 0, end);
        proof {
            assert(header@ == chars@.take(end as int));
        }
        if header.len() == 0 {
            self.started = false;
            self.content_length = None;
            return match known {
                Some(n) => HeaderStep::Body(n),
                None => HeaderStep::Failed(DapReadError::MissingContentLength),
            };
        }
        let key = chars_of("Content-Length:");
        if starts_with(header, key.as_slice()) {
            let rest = slice_subrange(header, key.len(), header.len());
            proof {
                assert(rest@ == header@.skip(key@.len() as int));
            }
            let (from, to) = trim_span(rest);
            match parse_usize(slice_subrange(rest, from, to)) {
                Ok(n) => {
                    self.started = true;
                    self.content_length = Some(n);
                    HeaderStep::Continue
                },
                Err(e) => {
                    self.started = false;
                    self.content_length = None;
                    HeaderStep::Failed(DapReadError::InvalidLength(e))
                },
            }
        } else {
            self.started = true;
            HeaderStep::Continue
        }
    }
}

/// The bytes of text that is all ASCII: one byte for each character.
pub open spec fn ascii_bytes(s: Seq<char>) -> Seq<u8> {
    s.map_values(|c: char| c as u8)
}

/// What separates the headers of a message from its body.
pub open spec fn separator() -> Seq<char> {
    "\r\n\r\n"@
}

/// The header block of a message whose body has `len` bytes.
pub open spec fn frame_header(len: nat) -> Seq<char> {
    "Content-Length: "@ + decimal(len) + separator()
}

/// A body as it goes out: the header block with the length of the body,
/// then the body.
pub open spec fn dap_frame(body: Seq<u8>) -> Seq<u8> {
    ascii_bytes(frame_header(body.len())) + body
}

/// Frames a serialized message for output: the bytes to write.
pub fn write_dap_message(json: &str) -> (out: Vec<u8>)
    ensures
        out@ == dap_frame(encode_utf8(json@)),
{
    let body = json.as_bytes();
    let mut header = "Content-Length: ".to_owned();
    push_decimal(&mut header, body.len() as u64);
    header.append("\r\n\r\n");
    let chars = chars_of(header.as_str());
    let mut out: Vec<u8> = Vec::new();
    let mut i: usize = 0;
    while i < chars.len()
        invariant
            i <= chars.len(),
            out@ == ascii_bytes(chars@.take(i as int)),
        decreases chars.len() - i,
    {
        out.push(chars[i] as u8);
        proof {
            assert(chars@.take(i as int + 1) == chars@.take(i as int).push(chars@[i as int]));
            assert(out@ =~= ascii_bytes(chars@.take(i as int + 1)));
        }
        i += 1;
    }
    proof {
        assert(chars@.take(chars.len() as int) == chars@);
    }
    let ghost head = out@;
    let mut j: usize = 0;
    while j < body.len()
        invariant
            j <= body.len(),
            out@ == head + body@.take(j as int),
        decreases body.len() - j,
    {
        out.push(body[j]);
        j += 1;
    }
    proof {
        assert(body@.take(body.len() as int) == body@);
    }
    out
}

/// The message with which `std::str::from_utf8` refuses `bytes`.
pub uninterp spec fn utf8_error_text(bytes: Seq<u8>) -> Seq<char>;

/// `std::str::from_utf8`: the text that `bytes` encode, for bytes that are
/// UTF-8, and no text for others.
#[verifier::external_body]
fn text_from_utf8(bytes: &[u8]) -> (text: Result<String, String>)
    ensures
        match text {
            Ok(t) => valid_utf8(bytes@) && t@ == decode_utf8(bytes@),
            Err(m) => !valid_utf8(bytes@) && m@ == utf8_error_text(bytes@),
        },
{
    match std::str::from_utf8(bytes) {
        Ok(t) => Ok(t.to_owned()),
        Err(e) => Err(e.to_string()),
    }
}

/// The text of `bytes`, which must be UTF-8.
pub open spec fn decoded(bytes: Seq<u8>) -> Result<Seq<char>, DapReadErrorView> {
    if valid_utf8(bytes) {
        Ok(decode_utf8(bytes))
    } else {
        Err(DapReadErrorView::InvalidUtf8(utf8_error_text(bytes)))
    }
}

/// The view of a result that holds text.
pub open spec fn text_view(r: Result<String, DapReadError>) -> Result<
    Seq<char>,
    DapReadErrorView,
> {
    match r {
        Ok(t) => Ok(t@),
        Err(e) => Err(e@),
    }
}

/// The text of a body, which must be UTF-8.
pub fn decode_body(bytes: &[u8]) -> (text: Result<String, DapReadError>)
    ensures
        text_view(text) == decoded(bytes@),
{
    match text_from_utf8(bytes) {
        Ok(t) => Ok(t),
        Err(m) => Err(DapReadError::InvalidUtf8(m)),
    }
}

/// Where the line that starts at `pos` ends: behind its line feed, or at
/// the end of the input.
pub open spec fn line_end(input: Seq<u8>, pos: int) -> int
    decreases input.len() - pos,
{
    if pos < 0 || pos >= input.len() {
        input.len() as int
    } else if input[pos] == 0x0a {
        pos + 1
    } else {
        line_end(input, pos + 1)
    }
}

/// The message that `input` holds from `pos` on, for a reader in `state`:
/// the text of the body and where it ends; nothing where the input ends
/// before a header line of the message is read. The end of the input inside
/// the headers or inside the body is a failure.
pub open spec fn message_at(state: HeaderState, input: Seq<u8>, pos: int) -> Result<
    Option<(Seq<char>, int)>,
    DapReadErrorView,
>
    decreases input.len() - pos,
{
    let end = line_end(input, pos);
    if !(0 <= pos <= end <= input.len()) {
        Ok(None)
    } else {
        match decoded(input.subrange(pos, end)) {
            Err(e) => Err(e),
            Ok(line) => {
                let (next, step) = header_step(state, line);
                match step {
                    HeaderStepView::End => Ok(None),
                    HeaderStepView::Failed(e) => Err(e),
                    HeaderStepView::Body(n) => if end + n > input.len() {
                        Err(DapReadErrorView::UnexpectedEof)
                    } else {
                        match decoded(input.subrange(end, end + n)) {
                            Ok(text) => Ok(Some((text, end + n))),
                            Err(e) => Err(e),
                        }
                    },
                    HeaderStepView::Continue => if end > pos {
                        message_at(next, input, end)
                    } else {
                        Ok(None)
                    },
                }
            },
        }
    }
}

/// The view of what reading a message gives.
pub open spec fn read_view(r: Result<Option<(String, usize)>, DapReadError>) -> Result<
    Option<(Seq<char>, int)>,
    DapReadErrorView,
> {
    match r {
        Ok(Some((text, end))) => Ok(Some((text@, end as int))),
        Ok(None) => Ok(None),
        Err(e) => Err(e@),
    }
}

/// The line that starts at `pos` ends at `end` where `end` lies behind the
/// first line feed from `pos` on, or at the end of an input without one.
pub proof fn lemma_line_end(input: Seq<u8>, pos: int, end: int)
    requires
        0 <= pos <= end <= input.len(),
        forall|k: int| pos <= k < end - 1 ==> input[k] != 0x0a,
        end > pos ==> (input[end - 1] == 0x0a || (end == input.len() && input[end - 1] != 0x0a)),
        end == pos ==> pos == input.len(),
    ensures
        line_end(input, pos) == end,
    decreases end - pos,
{
    if pos < input.len() && input[pos] != 0x0a {
        lemma_line_end(input, pos + 1, end);
    }
}

/// Reads the message that begins at `start` of `input`: its text and where
/// it ends. The end of the input where a message could begin gives nothing;
/// the end of the input after a header line, or inside the body, is an error.
pub fn read_dap_message(input: &[u8], start: usize) -> (message: Result<
    Option<(String, usize)>,
    DapReadError,
>)
    ensures
        read_view(message) == message_at(fresh_headers(), input@, start as int),
{
    if start > input.len() {
        return Ok(None);
    }
    let mut reader = MessageReader::new();
    let mut pos: usize = start;
    loop
        invariant
            pos <= input.len(),
            message_at(reader@, input@, pos as int) == message_at(
                fresh_headers(),
                input@,
                start as int,
            ),
        decreases input.len() - pos,
    {
        let mut end: usize = pos;
        let mut found = false;
        while !found && end < input.len()
            invariant
                pos <= end <= input.len(),
                forall|k: int| pos <= k < end - if found { 1int } else { 0int } ==> input@[k] != 0x0a,
                found ==> end > pos && input@[end - 1] == 0x0a,
            decreases input.len() - end + if found { 0int } else { 1int },
        {
            if input[end] == 0x0a {
                found = true;
            }
            end += 1;
        }
        proof {
            lemma_line_end(input@, pos as int, end as int);
        }
        let line = match decode_body(slice_subrange(input, pos, end)) {
            Ok(line) => line,
            Err(e) => {
                return Err(e);
            },
        };
        match reader.on_line(line.as_str()) {
            HeaderStep::End => {
                return Ok(None);
            },
            HeaderStep::Failed(e) => {
                return Err(e);
            },
            HeaderStep::Body(n) => {
                if n > input.len() - end {
                    return Err(DapReadError::UnexpectedEof);
                }
                return match decode_body(slice_subrange(input, end, end + n)) {
                    Ok(text) => Ok(Some((text, end + n))),
                    Err(e) => Err(e),
                };
            },
            HeaderStep::Continue => {
                if end == pos {
                    return Ok(None);
                }
                pos = end;
            },
        }
    }
}

} // verus!
