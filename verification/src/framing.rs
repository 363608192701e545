//! Messages on a socket: a line with the length in bytes, then the bytes.
use crate::decimal::{decimal, format_unsigned, law_decimal_reads_back, parse_unsigned, parsed};
use crate::text::{is_white_space, trim, trim_end, trim_start, trimmed};
use vstd::prelude::*;
use vstd::utf8::{decode_utf8, encode_utf8, valid_utf8};

verus! {

/// Why received bytes are no message.
#[derive(Debug, Clone, Copy, PartialEq, Eq, Structural)]
pub enum FrameError {
    /// The length line is no UTF-8.
    LineNotText,
    /// The length line is no length.
    BadLength,
    /// Fewer bytes came than the length says.
    Short,
    /// The message is no UTF-8.
    NotText,
}

/// The bytes of a message on a socket.
pub open spec fn framed(content: Seq<char>) -> Seq<u8> {
    encode_utf8(decimal(encode_utf8(content).len()).push('\n')) + encode_utf8(content)
}

/// How many bytes the first line has, with the line break if there is one.
pub open spec fn line_len(bytes: Seq<u8>) -> nat
    decreases bytes.len(),
{
    if bytes.len() == 0 {
        0
    } else if bytes[0] == 10 {
        1
    } else {
        1 + line_len(bytes.skip(1))
    }
}

/// The length that a line stands for.
pub open spec fn length_in(line: Seq<char>) -> Option<nat> {
    parsed(trimmed(line), usize::MAX as nat)
}

/// The message that received bytes hold.
pub open spec fn message_in(bytes: Seq<u8>) -> Result<Seq<char>, FrameError> {
    let line = bytes.take(line_len(bytes) as int);
    let rest = bytes.skip(line_len(bytes) as int);
    if !valid_utf8(line) {
        Err(FrameError::LineNotText)
    } else {
        match length_in(decode_utf8(line)) {
            None => Err(FrameError::BadLength),
            Some(len) => if rest.len() < len {
                Err(FrameError::Short)
            } else if !valid_utf8(rest.take(len as int)) {
                Err(FrameError::NotText)
            } else {
                Ok(decode_utf8(rest.take(len as int)))
            },
        }
    }
}

/// `String::from_utf8` makes a string of bytes that are UTF-8, and fails on others. The
/// string's bytes are the ones it was made of.
#[verifier::external_body]
fn text_of(bytes: Vec<u8>) -> (r: Option<String>)
    ensures
        match r {
            Some(s) => valid_utf8(bytes@) && encode_utf8(s@) == bytes@,
            None => !valid_utf8(bytes@),
        },
{
    String::from_utf8(bytes).ok()
}

/// The bytes `bytes[from..to]`.
fn slice_of(bytes: &Vec<u8>, from: usize, to: usize) -> (r: Vec<u8>)
    requires
        from <= to <= bytes@.len(),
    ensures
        r@ == bytes@.subrange(from as int, to as int),
{
    let mut out: Vec<u8> = Vec::new();
    let mut i: usize = from;
    while i < to
        invariant
            from <= i <= to <= bytes@.len(),
            out@ == bytes@.subrange(from as int, i as int),
        decreases to - i,
    {
        out.push(bytes[i]);
        i += 1;
    }
    out
}

/// The bytes of a message on a socket.
pub fn frame(content: &str) -> (r: Vec<u8>)
    ensures
        r@ == framed(content@),
        message_in(r@) == Ok::<Seq<char>, FrameError>(content@),
{
    let body = content.as_bytes();
    let len: usize = body.len();
    proof {
        assert(encode_utf8(content@) == body@);
        law_frame_reads_back(content@, Seq::empty());
        assert(framed(content@) + Seq::empty() =~= framed(content@));
    }
    let mut head = format_unsigned(len as u64);
    head.push('\n');
    let mut out: Vec<u8> = Vec::new();
    out.extend_from_slice(head.as_str().as_bytes());
    out.extend_from_slice(body);
    out
}

/// The length that a line stands for.
pub fn parse_length(line: &str) -> (r: Option<usize>)
    ensures
        match r {
            Some(len) => length_in(line@) == Some(len as nat),
            None => length_in(line@) is None,
        },
{
    match parse_unsigned(&trim(line), usize::MAX as u64) {
        Some(len) => Some(len as usize),
        None => None,
    }
}

/// How many bytes the first line has, with the line break if there is one.
fn find_line_end(bytes: &Vec<u8>) -> (r: usize)
    ensures
        r == line_len(bytes@),
        r <= bytes@.len(),
{
    let mut i: usize = 0;
    assert(bytes@.skip(0) =~= bytes@);
    while i < bytes.len()
        invariant
            i <= bytes@.len(),
            line_len(bytes@) == i + line_len(bytes@.skip(i as int)),
        decreases bytes@.len() - i,
    {
        assert(bytes@.skip(i as int).skip(1) =~= bytes@.skip(i + 1));
        if bytes[i] == 10 {
            return i + 1;
        }
        i += 1;
    }
    i
}

/// The message that received bytes hold.
pub fn read_frame(bytes: &Vec<u8>) -> (r: Result<String, FrameError>)
    ensures
        match r {
            Ok(content) => message_in(bytes@) == Ok::<Seq<char>, FrameError>(content@),
            Err(error) => message_in(bytes@) == Err::<Seq<char>, FrameError>(error),
        },
{
    broadcast use vstd::utf8::encode_utf8_decode_utf8;

    let end: usize = find_line_end(bytes);
    let head = slice_of(bytes, 0, end);
    assert(head@ =~= bytes@.take(end as int));
    let line = match text_of(head) {
        Some(line) => line,
        None => {
            return Err(FrameError::LineNotText);
        },
    };
    let len = match parse_length(&line) {
        Some(len) => len,
        None => {
            return Err(FrameError::BadLength);
        },
    };
    if bytes.len() - end < len {
        return Err(FrameError::Short);
    }
    let body = slice_of(bytes, end, end + len);
    assert(body@ =~= bytes@.skip(end as int).take(len as int));
    match text_of(body) {
        Some(content) => Ok(content),
        None => Err(FrameError::NotText),
    }
}

proof fn lemma_line_of_frame(digits: Seq<char>, rest: Seq<u8>)
    requires
        forall|i: int| 0 <= i < digits.len() ==> crate::decimal::is_digit(#[trigger] digits[i]),
    ensures
        line_len(encode_utf8(digits.push('\n')) + rest) == digits.len() + 1,
        encode_utf8(digits.push('\n')).len() == digits.len() + 1,
    decreases digits.len(),
{
    let line = digits.push('\n');
    assert(vstd::utf8::is_ascii_chars(line)) by {
        assert forall|i: int| 0 <= i < line.len() implies '\0' <= #[trigger] line[i] <= '\u{7f}' by {
            if i < digits.len() {
                assert(crate::decimal::is_digit(digits[i]));
            }
        }
    }
    vstd::utf8::is_ascii_chars_encode_utf8(line);
    let head = encode_utf8(line);
    let bytes = head + rest;
    assert(bytes[0] == head[0]);
    assert(line[0] as u8 == head[0]);
    if digits.len() > 0 {
        assert(crate::decimal::is_digit(digits[0]));
        let later = digits.drop_first();
        assert forall|i: int| 0 <= i < later.len() implies crate::decimal::is_digit(
            #[trigger] later[i],
        ) by {
            assert(later[i] == digits[i + 1]);
        }
        lemma_line_of_frame(later, rest);
        assert(line.drop_first() =~= later.push('\n'));
        let first = vstd::utf8::encode_scalar(line[0] as u32);
        assert(head =~= first + encode_utf8(later.push('\n')));
        assert(first.len() == 1);
        assert(bytes.skip(1) =~= encode_utf8(later.push('\n')) + rest);
    }
}

proof fn lemma_trim_line(digits: Seq<char>)
    requires
        crate::decimal::all_digits(digits),
    ensures
        trimmed(digits.push('\n')) == digits,
{
    let line = digits.push('\n');
    assert(crate::decimal::is_digit(digits[0]));
    assert(line[0] == digits[0]);
    assert(trim_start(line) == line);
    assert(line.drop_last() =~= digits);
    assert(crate::decimal::is_digit(digits[digits.len() - 1]));
    assert(!is_white_space(digits.last()));
    assert(trim_end(digits) == digits);
    assert(is_white_space('\n'));
    assert(trim_end(line) == trim_end(digits));
}

/// A message that was put into a frame is read back from it, whatever bytes follow.
pub proof fn law_frame_reads_back(content: Seq<char>, more: Seq<u8>)
    requires
        encode_utf8(content).len() <= usize::MAX,
    ensures
        message_in(framed(content) + more) == Ok::<Seq<char>, FrameError>(content),
{
    let body = encode_utf8(content);
    let digits = decimal(body.len());
    let head = encode_utf8(digits.push('\n'));
    let bytes = framed(content) + more;
    law_decimal_reads_back(body.len(), usize::MAX as nat);
    crate::decimal::lemma_decimal(body.len());
    assert forall|i: int| 0 <= i < digits.len() implies crate::decimal::is_digit(
        #[trigger] digits[i],
    ) by {}
    assert(bytes =~= head + (body + more));
    lemma_line_of_frame(digits, body + more);
    assert(bytes.take(head.len() as int) =~= head);
    assert(bytes.skip(head.len() as int) =~= body + more);
    assert((body + more).take(body.len() as int) =~= body);
    vstd::utf8::encode_utf8_valid_utf8(digits.push('\n'));
    vstd::utf8::encode_utf8_decode_utf8(digits.push('\n'));
    vstd::utf8::encode_utf8_valid_utf8(content);
    vstd::utf8::encode_utf8_decode_utf8(content);
    lemma_trim_line(digits);
}

/// A message of which not all bytes came is refused as short.
pub proof fn law_short_message_is_refused(content: Seq<char>, came: int)
    requires
        encode_utf8(content).len() <= usize::MAX,
        0 <= came < encode_utf8(content).len(),
    ensures
        ({
            let head = framed(content).len() - encode_utf8(content).len();
            message_in(framed(content).take(head + came)) == Err::<Seq<char>, FrameError>(
                FrameError::Short,
            )
        }),
{
    let body = encode_utf8(content);
    let digits = decimal(body.len());
    let head = encode_utf8(digits.push('\n'));
    let some = body.take(came);
    let bytes = framed(content).take(head.len() + came);
    law_decimal_reads_back(body.len(), usize::MAX as nat);
    crate::decimal::lemma_decimal(body.len());
    assert forall|i: int| 0 <= i < digits.len() implies crate::decimal::is_digit(
        #[trigger] digits[i],
    ) by {}
    assert(bytes =~= head + some);
    lemma_line_of_frame(digits, some);
    assert(bytes.take(head.len() as int) =~= head);
    assert(bytes.skip(head.len() as int) =~= some);
    vstd::utf8::encode_utf8_valid_utf8(digits.push('\n'));
    vstd::utf8::encode_utf8_decode_utf8(digits.push('\n'));
    lemma_trim_line(digits);
}

} // verus!
