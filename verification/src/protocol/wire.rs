//! The grammar that the commands share: names, line ends, and the header of
//! a command that carries a payload.

use vstd::prelude::*;
use vstd::slice::slice_subrange;
use vstd::utf8::{decode_utf8, encode_utf8, encode_utf8_decode_utf8, valid_utf8};
use crate::protocol::error::CommandError;
use crate::text::{
    append, bytes_eq, cut, decimal, fields, find_byte, opt_text, parse_decimal,
    parse_decimal_field, push_decimal, ranges_within, split_fields,
};

verus! {

/// `INFO`
pub const CMD_INFO: [u8; 4] = [0x49, 0x4e, 0x46, 0x4f];

/// `CONNECT`
pub const CMD_CONNECT: [u8; 7] = [0x43, 0x4f, 0x4e, 0x4e, 0x45, 0x43, 0x54];

/// `PUB`
pub const CMD_PUB: [u8; 3] = [0x50, 0x55, 0x42];

/// `SUB`
pub const CMD_SUB: [u8; 3] = [0x53, 0x55, 0x42];

/// `UNSUB`
pub const CMD_UNSUB: [u8; 5] = [0x55, 0x4e, 0x53, 0x55, 0x42];

/// `MSG`
pub const CMD_MSG: [u8; 3] = [0x4d, 0x53, 0x47];

/// `PING`
pub const CMD_PING: [u8; 4] = [0x50, 0x49, 0x4e, 0x47];

/// `PONG`
pub const CMD_PONG: [u8; 4] = [0x50, 0x4f, 0x4e, 0x47];

/// `+OK`
pub const CMD_OK: [u8; 3] = [0x2b, 0x4f, 0x4b];

/// `-ERR`
pub const CMD_ERR: [u8; 4] = [0x2d, 0x45, 0x52, 0x52];

/// The tab that this client writes between two fields.
pub const TAB: u8 = 0x09;

/// Carriage return, the first byte of a line end.
pub const CR: u8 = 0x0d;

/// Line feed, the second byte of a line end.
pub const LF: u8 = 0x0a;

/// The two bytes that end a line.
pub open spec fn crlf() -> Seq<u8> {
    seq![CR, LF]
}

/// Whether the last two bytes are a line end.
pub open spec fn ends_with_crlf(frame: Seq<u8>) -> bool {
    frame.len() >= 2 && frame[frame.len() - 2] == CR && frame[frame.len() - 1] == LF
}

/// The number of bytes before the first `b`, or the length where there is
/// none.
pub open spec fn position(s: Seq<u8>, b: u8) -> int
    decreases s.len(),
{
    if s.len() == 0 || s[0] == b {
        0
    } else {
        1 + position(s.drop_first(), b)
    }
}

/// A frame with a payload, cut at its first line end: the fields of the
/// header line and the payload between the two line ends.
pub struct PayloadFrame {
    pub fields: Seq<Seq<u8>>,
    pub payload: Seq<u8>,
}

/// Cuts a frame with a payload. The header ends at the first carriage
/// return, which a line feed must follow; the payload is what stands between
/// that line end and the one that closes the frame.
pub open spec fn split_payload_frame(frame: Seq<u8>) -> Result<PayloadFrame, CommandError> {
    if !ends_with_crlf(frame) {
        Err(CommandError::IncompleteCommandError)
    } else {
        let body = frame.take(frame.len() - 2);
        let p = position(body, CR);
        if p == body.len() {
            Err(CommandError::CommandMalformed)
        } else if frame[p + 1] != LF {
            Err(CommandError::CommandMalformed)
        } else {
            Ok(
                PayloadFrame {
                    fields: fields(frame.take(p)),
                    payload: frame.subrange(p + 2, frame.len() - 2),
                },
            )
        }
    }
}

/// Checks the outer fields of a header with a payload: the first must be
/// the command's name, and the last must be a decimal number that equals the
/// length of the payload.
pub open spec fn check_payload_header(pf: PayloadFrame, name: Seq<u8>) -> Result<
    (),
    CommandError,
> {
    if pf.fields.len() == 0 || pf.fields[0] != name {
        Err(CommandError::CommandMalformed)
    } else if pf.fields.len() < 2 {
        Err(CommandError::CommandMalformed)
    } else if !valid_utf8(pf.fields.last()) {
        Err(CommandError::UTF8SliceError)
    } else {
        match parse_decimal(pf.fields.last(), usize::MAX as nat) {
            Err(fault) => Err(CommandError::PayloadLengthParseError(fault)),
            Ok(n) => if n != pf.payload.len() {
                Err(CommandError::CommandMalformed)
            } else {
                Ok(())
            },
        }
    }
}

/// The text that a field holds, where the field is valid UTF-8.
pub open spec fn field_text(field: Seq<u8>) -> Result<Seq<char>, CommandError> {
    if valid_utf8(field) {
        Ok(decode_utf8(field))
    } else {
        Err(CommandError::UTF8SliceError)
    }
}

/// The frame's header fields, each by its place in the frame, and the place
/// where the payload starts.
pub struct HeaderCut {
    pub ranges: Vec<(usize, usize)>,
    pub payload_start: usize,
}

/// `position` names the first occurrence.
pub proof fn lemma_position_first(s: Seq<u8>, b: u8, i: int)
    requires
        0 <= i <= s.len(),
        forall|j: int| 0 <= j < i ==> s[j] != b,
        i < s.len() ==> s[i] == b,
    ensures
        position(s, b) == i,
    decreases s.len(),
{
    if s.len() == 0 || s[0] == b {
    } else {
        assert forall|j: int| 0 <= j < i - 1 implies s.drop_first()[j] != b by {
            assert(s[j + 1] != b);
        }
        lemma_position_first(s.drop_first(), b, i - 1);
    }
}

/// A field behind the tab that separates it from what stands before it.
pub open spec fn tabbed(field: Seq<u8>) -> Seq<u8> {
    seq![TAB] + field
}

/// A text behind a tab, where there is a text.
pub open spec fn tabbed_text(text: Option<Seq<char>>) -> Seq<u8> {
    match text {
        Some(t) => tabbed(encode_utf8(t)),
        None => Seq::empty(),
    }
}

/// A count behind a tab, where there is a count.
pub open spec fn tabbed_count(n: Option<u32>) -> Seq<u8> {
    match n {
        Some(n) => tabbed(decimal(n as nat)),
        None => Seq::empty(),
    }
}

/// Appends a tab and a field.
pub fn push_field(out: &mut Vec<u8>, field: &[u8])
    ensures
        final(out)@ == old(out)@ + tabbed(field@),
{
    out.push(TAB);
    append(out, field);
    assert(out@ =~= old(out)@ + tabbed(field@));
}

/// Appends a tab and a text, where there is a text.
pub fn push_optional_text(out: &mut Vec<u8>, text: &Option<String>)
    ensures
        final(out)@ == old(out)@ + tabbed_text(opt_text(*text)),
{
    match text {
        Some(t) => {
            push_field(out, t.as_str().as_bytes());
        },
        None => {
            assert(out@ =~= out@ + Seq::<u8>::empty());
        },
    }
}

/// Appends a tab and a number in base ten.
pub fn push_number(out: &mut Vec<u8>, n: u64)
    ensures
        final(out)@ == old(out)@ + tabbed(decimal(n as nat)),
{
    let ghost start = out@;
    out.push(TAB);
    push_decimal(out, n);
    assert(out@ =~= start + tabbed(decimal(n as nat)));
}

/// Starts a line with the name of a command.
pub fn start_line(name: &[u8]) -> (out: Vec<u8>)
    ensures
        out@ == name@,
{
    let mut out: Vec<u8> = Vec::with_capacity(64);
    append(&mut out, name);
    assert(out@ =~= name@);
    out
}

/// Appends a line end.
pub fn push_line_end(out: &mut Vec<u8>)
    ensures
        final(out)@ == old(out)@ + crlf(),
{
    out.push(CR);
    out.push(LF);
    assert(out@ =~= old(out)@ + crlf());
}

/// Whether the frame closes with a line end.
pub fn has_line_end(frame: &[u8]) -> (r: bool)
    ensures
        r == ends_with_crlf(frame@),
{
    let n = frame.len();
    n >= 2 && frame[n - 2] == CR && frame[n - 1] == LF
}

/// Reads the text of a field.
pub fn read_text(frame: &[u8], range: (usize, usize)) -> (r: Result<String, CommandError>)
    requires
        range.0 <= range.1 <= frame@.len(),
    ensures
        match r {
            Ok(s) => field_text(frame@.subrange(range.0 as int, range.1 as int)) == Ok::<
                Seq<char>,
                CommandError,
            >(s@),
            Err(e) => field_text(frame@.subrange(range.0 as int, range.1 as int)) == Err::<
                Seq<char>,
                CommandError,
            >(e),
        },
{
    let field = slice_subrange(frame, range.0, range.1);
    match core::str::from_utf8(field) {
        Ok(s) => {
            proof {
                encode_utf8_decode_utf8(s@);
            }
            Ok(s.to_owned())
        },
        Err(_) => Err(CommandError::UTF8SliceError),
    }
}

/// Cuts the frame of a command with a payload and checks its outer fields.
pub fn read_payload_header(frame: &[u8], name: &[u8]) -> (r: Result<HeaderCut, CommandError>)
    ensures
        match r {
            Ok(cut_at) => split_payload_frame(frame@) matches Ok(pf) && check_payload_header(
                pf,
                name@,
            ) is Ok && ranges_within(cut_at.ranges@, frame@.len()) && cut(frame@, cut_at.ranges@)
                == pf.fields && cut_at.payload_start + pf.payload.len() + 2 == frame@.len()
                && pf.payload == frame@.subrange(
                cut_at.payload_start as int,
                frame@.len() - 2,
            ),
            Err(e) => match split_payload_frame(frame@) {
                Ok(pf) => check_payload_header(pf, name@) == Err::<(), CommandError>(e),
                Err(e0) => e0 == e,
            },
        },
{
    if !has_line_end(frame) {
        return Err(CommandError::IncompleteCommandError);
    }
    let n = frame.len();
    let body = slice_subrange(frame, 0, n - 2);
    assert(body@ =~= frame@.take(n - 2));
    let p = match find_byte(body, 0, CR) {
        Some(p) => p,
        None => {
            proof {
                lemma_position_first(body@, CR, body@.len() as int);
            }
            return Err(CommandError::CommandMalformed);
        },
    };
    proof {
        lemma_position_first(body@, CR, p as int);
    }
    if frame[p + 1] != LF {
        return Err(CommandError::CommandMalformed);
    }
    let header = slice_subrange(frame, 0, p);
    assert(header@ =~= frame@.take(p as int));
    let ranges = split_fields(header);
    let ghost pf = split_payload_frame(frame@)->Ok_0;
    assert(cut(frame@, ranges@) =~= cut(header@, ranges@)) by {
        assert forall|k: int| 0 <= k < ranges@.len() implies frame@.subrange(
            ranges@[k].0 as int,
            ranges@[k].1 as int,
        ) == header@.subrange(ranges@[k].0 as int, ranges@[k].1 as int) by {
            assert(ranges@[k].0 <= ranges@[k].1 <= header@.len());
            assert(frame@.subrange(ranges@[k].0 as int, ranges@[k].1 as int) =~= header@.subrange(
                ranges@[k].0 as int,
                ranges@[k].1 as int,
            ));
        }
    }
    let count = ranges.len();
    if count == 0 {
        return Err(CommandError::CommandMalformed);
    }
    let first = slice_subrange(frame, ranges[0].0, ranges[0].1);
    assert(first@ == pf.fields[0]);
    if !bytes_eq(first, name) {
        return Err(CommandError::CommandMalformed);
    }
    if count < 2 {
        return Err(CommandError::CommandMalformed);
    }
    let last = slice_subrange(frame, ranges[count - 1].0, ranges[count - 1].1);
    assert(last@ == pf.fields.last());
    if core::str::from_utf8(last).is_err() {
        return Err(CommandError::UTF8SliceError);
    }
    let declared = match parse_decimal_field(last, usize::MAX as u64) {
        Ok(n) => n,
        Err(fault) => {
            return Err(CommandError::PayloadLengthParseError(fault));
        },
    };
    if declared != (n - 2 - (p + 2)) as u64 {
        return Err(CommandError::CommandMalformed);
    }
    Ok(HeaderCut { ranges, payload_start: p + 2 })
}

} // verus!
