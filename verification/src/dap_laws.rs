//! What holds of every framed message.

use vstd::prelude::*;
use vstd::utf8::{
    decode_utf8, encode_utf8, encode_utf8_decode_utf8, encode_utf8_valid_utf8, is_ascii_chars,
    is_ascii_chars_encode_utf8, valid_utf8,
};
use crate::dap::{
    ascii_bytes, dap_frame, decoded, frame_header, fresh_headers, header_step, HeaderState, is_whitespace, leading_digits,
    lemma_line_end, length_header, message_at, parse_length, separator, trim_start, trimmed,
    without_line_end, HeaderStepView,
};
use crate::hex::{decimal, decimal_value, is_decimal_digit};
use crate::text::has_prefix;

verus! {

/// The digits of a number are decimal digits, at least one, and write the
/// number.
pub proof fn lemma_decimal_digits(n: nat)
    ensures
        decimal(n).len() > 0,
        forall|i: int| 0 <= i < decimal(n).len() ==> is_decimal_digit(#[trigger] decimal(n)[i]),
        decimal_value(decimal(n)) == n,
    decreases n,
{
    if n >= 10 {
        lemma_decimal_digits(n / 10);
        let head = decimal(n / 10);
        let all = decimal(n);
        assert(all.drop_last() == head);
        assert forall|i: int| 0 <= i < all.len() implies is_decimal_digit(#[trigger] all[i]) by {
            if i < head.len() {
                assert(all[i] == head[i]);
            }
        }
    } else {
        assert(decimal(n).drop_last() == Seq::<char>::empty());
        assert(decimal_value(Seq::<char>::empty()) == 0);
    }
}

/// Text that is all ASCII is the text of its bytes.
pub proof fn lemma_ascii_decodes(s: Seq<char>)
    requires
        is_ascii_chars(s),
    ensures
        valid_utf8(ascii_bytes(s)),
        decode_utf8(ascii_bytes(s)) == s,
{
    is_ascii_chars_encode_utf8(s);
    assert(encode_utf8(s) =~= ascii_bytes(s));
    encode_utf8_valid_utf8(s);
    encode_utf8_decode_utf8(s);
}

/// The line that names the length `n`, without its end.
pub open spec fn length_line(n: nat) -> Seq<char> {
    "Content-Length: "@ + decimal(n)
}

proof fn lemma_length_line(n: nat)
    ensures
        length_line(n).len() == 16 + decimal(n).len(),
        is_ascii_chars(length_line(n)),
        is_ascii_chars(frame_header(n)),
        frame_header(n) == length_line(n) + separator(),
        forall|i: int|
            0 <= i < length_line(n).len() ==> (#[trigger] length_line(n)[i]) != '\r'
                && length_line(n)[i] != '\n',
        has_prefix(length_line(n), length_header()),
        length_line(n).skip(15) == seq![' '] + decimal(n),
{
    reveal_strlit("Content-Length: ");
    reveal_strlit("Content-Length:");
    reveal_strlit("\r\n\r\n");
    lemma_decimal_digits(n);
    let line = length_line(n);
    let d = decimal(n);
    assert forall|i: int| 0 <= i < line.len() implies '\0' <= (#[trigger] line[i]) <= '\u{7f}'
        && line[i] != '\r' && line[i] != '\n' by {
        if i >= 16 {
            assert(line[i] == d[i - 16]);
            assert(is_decimal_digit(d[i - 16]));
        }
    }
    let header = frame_header(n);
    assert(header =~= line + separator());
    assert forall|i: int| 0 <= i < header.len() implies '\0' <= (#[trigger] header[i])
        <= '\u{7f}' by {
        if i < line.len() {
            assert(header[i] == line[i]);
        }
    }
    assert(line.take(15) =~= length_header());
    assert(line.skip(15) =~= seq![' '] + d);
}

/// Every framed message begins with `Content-Length:`; its header block
/// ends with the one blank line that it holds, and no carriage return comes
/// before that; what follows is the body, whose length is the one named.
pub proof fn lemma_frame_shape(body: Seq<u8>)
    ensures
        dap_frame(body).take(15) == ascii_bytes(length_header()),
        dap_frame(body) == ascii_bytes(length_line(body.len())) + ascii_bytes(separator())
            + body,
        forall|i: int|
            0 <= i < length_line(body.len()).len() ==> (#[trigger] dap_frame(body)[i]) != 0x0d,
        decimal_value(length_line(body.len()).skip(16)) == body.len(),
{
    let n = body.len();
    lemma_length_line(n);
    lemma_decimal_digits(n);
    reveal_strlit("Content-Length: ");
    reveal_strlit("Content-Length:");
    let line = length_line(n);
    let frame = dap_frame(body);
    assert(ascii_bytes(frame_header(n)) =~= ascii_bytes(line) + ascii_bytes(separator()));
    assert(frame.take(15) =~= ascii_bytes(length_header()));
    assert(line.skip(16) =~= decimal(n));
    assert forall|i: int| 0 <= i < line.len() implies (#[trigger] frame[i]) != 0x0d by {
        assert(frame[i] == line[i] as u8);
        assert(line[i] != '\r');
        assert('\0' <= line[i] <= '\u{7f}');
    }
}

proof fn lemma_trim_digits(d: Seq<char>)
    requires
        d.len() > 0,
        forall|i: int| 0 <= i < d.len() ==> is_decimal_digit(#[trigger] d[i]),
    ensures
        trimmed(seq![' '] + d) == d,
        leading_digits(d) == d.len(),
    decreases d.len(),
{
    let s = seq![' '] + d;
    assert(s.drop_first() == d);
    assert(is_decimal_digit(d[0]));
    assert(!is_whitespace(d[0]));
    assert(s[0] == ' ');
    assert(trim_start(d) == d);
    assert(trim_start(s) == trim_start(d));
    assert(is_decimal_digit(d.last()));
    assert(!is_whitespace(d.last()));
    lemma_all_digits(d);
}

proof fn lemma_all_digits(d: Seq<char>)
    requires
        forall|i: int| 0 <= i < d.len() ==> is_decimal_digit(#[trigger] d[i]),
    ensures
        leading_digits(d) == d.len(),
    decreases d.len(),
{
    if d.len() > 0 {
        let tail = d.drop_first();
        assert forall|i: int| 0 <= i < tail.len() implies is_decimal_digit(#[trigger] tail[i]) by {
            assert(tail[i] == d[i + 1]);
        }
        lemma_all_digits(tail);
    }
}

proof fn lemma_strip_line(line: Seq<char>)
    requires
        forall|i: int| 0 <= i < line.len() ==> (#[trigger] line[i]) != '\r' && line[i] != '\n',
    ensures
        without_line_end(line + seq!['\r', '\n']) == line,
{
    let full = line + seq!['\r', '\n'];
    let mid = line + seq!['\r'];
    assert(full.drop_last() == mid);
    assert(mid.drop_last() == line);
    if line.len() > 0 {
        assert(line.last() != '\r' && line.last() != '\n');
    }
    assert(without_line_end(line) == line);
    assert(mid.last() == '\r');
    assert(without_line_end(mid) == without_line_end(line));
    assert(full.last() == '\n');
    assert(without_line_end(full) == without_line_end(mid));
}

/// Reading what was framed gives back the body: for every body that is
/// UTF-8 and whose length fits, the message read at the start of its frame,
/// whatever follows the frame, is the text of the body, and it ends where
/// the frame ends.
pub proof fn lemma_read_what_was_written(body: Seq<u8>, rest: Seq<u8>)
    requires
        valid_utf8(body),
        body.len() <= usize::MAX,
    ensures
        message_at(fresh_headers(), dap_frame(body) + rest, 0) == Ok::<
            Option<(Seq<char>, int)>,
            crate::dap::DapReadErrorView,
        >(Some((decode_utf8(body), dap_frame(body).len() as int))),
{
    let n = body.len();
    reveal_strlit("\r\n\r\n");
    reveal_strlit("Content-Length:");
    lemma_length_line(n);
    lemma_decimal_digits(n);
    lemma_frame_shape(body);
    let line = length_line(n);
    let digits = decimal(n);
    let crlf = seq!['\r', '\n'];
    let frame = dap_frame(body);
    let input = frame + rest;
    let l1: int = line.len() as int + 2;
    let h: int = l1 + 2;
    assert(separator() =~= crlf + crlf);
    assert(frame =~= ascii_bytes(line) + ascii_bytes(crlf) + ascii_bytes(crlf) + body);
    assert(frame.len() == h + n);

    // The first line.
    let first = line + crlf;
    assert forall|k: int| 0 <= k < l1 - 1 implies input[k] != 0x0a by {
        if k < line.len() {
            assert(input[k] == line[k] as u8);
            assert(line[k] != '\n');
            assert('\0' <= line[k] <= '\u{7f}');
        } else {
            assert(input[k] == 0x0d);
        }
    }
    assert(input[l1 - 1] == 0x0a);
    lemma_line_end(input, 0, l1);
    assert(input.subrange(0, l1) =~= ascii_bytes(first));
    assert forall|i: int| 0 <= i < first.len() implies '\0' <= (#[trigger] first[i])
        <= '\u{7f}' by {
        if i < line.len() {
            assert(first[i] == line[i]);
        }
    }
    lemma_ascii_decodes(first);
    lemma_strip_line(line);
    lemma_trim_digits(digits);
    assert(digits.take(digits.len() as int) == digits);
    assert(digits[0] != '+');
    assert(parse_length(digits) == Ok::<usize, crate::dap::LengthError>(n as usize));
    let known = HeaderState { started: true, content_length: Some(n as usize) };
    assert(header_step(fresh_headers(), first) == (known, HeaderStepView::Continue));
    assert(decoded(input.subrange(0, l1)) == Ok::<Seq<char>, crate::dap::DapReadErrorView>(first));
    assert(message_at(fresh_headers(), input, 0) == message_at(known, input, l1));

    // The blank line.
    assert(input[l1] == 0x0d);
    assert(input[l1 + 1] == 0x0a);
    lemma_line_end(input, l1, h);
    assert(input.subrange(l1, h) =~= ascii_bytes(crlf));
    lemma_ascii_decodes(crlf);
    lemma_strip_line(Seq::<char>::empty());
    assert(Seq::<char>::empty() + crlf == crlf);
    assert(header_step(known, crlf).1 == HeaderStepView::Body(n as usize));
    assert(decoded(input.subrange(l1, h)) == Ok::<Seq<char>, crate::dap::DapReadErrorView>(crlf));

    // The body.
    assert(input.subrange(h, h + n) =~= body);
}

/// Only the end of the input before any header line is a clean end: once
/// a line has been read as a header, the reader has started, and the end of
/// the input is a failure until the headers are closed.
pub proof fn lemma_end_inside_headers(state: HeaderState, line: Seq<char>)
    ensures
        header_step(state, Seq::empty()).1 == if state.started {
            HeaderStepView::Failed(crate::dap::DapReadErrorView::UnexpectedEof)
        } else {
            HeaderStepView::End
        },
        header_step(state, line).1 is Continue ==> header_step(state, line).0.started,
        !(header_step(state, line).1 is Continue) ==> header_step(state, line).0
            == fresh_headers(),
{
}

} // verus!
