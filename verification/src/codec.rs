//! The frame codec: finds the frames in a stream of bytes and reads each as
//! a message, and writes messages into an output buffer.

use vstd::prelude::*;
use vstd::slice::slice_subrange;
use bytes::BytesMut;
use crate::buf::buffer_content;
use crate::error::NatsError;
use crate::protocol::error::{CommandError, JsonFault};
use crate::protocol::op::{
    is_command_name, name_kind, op_parse, op_wire, op_writable, NameKind, Op, OpView,
};
use crate::protocol::wire::{CMD_MSG, CMD_PUB, CR, LF};

verus! {

/// Frames the bytes of a connection into messages
#[derive(Clone, Debug, Eq, PartialEq, Ord, PartialOrd, Hash)]
pub struct OpCodec {
    /// Used as an optimization for buffer lookup
    next_index: usize,
}

/// A byte that ends the name of a command: a space, a tab or a carriage
/// return.
pub open spec fn is_blank(b: u8) -> bool {
    b == 0x20 || b == 0x09 || b == CR
}

/// The place of the first blank at or behind `from`; the length where
/// there is none.
pub open spec fn first_blank(content: Seq<u8>, from: int) -> int
    decreases content.len() - from,
{
    if from >= content.len() {
        content.len() as int
    } else if is_blank(content[from]) {
        from
    } else {
        first_blank(content, from + 1)
    }
}

/// The place of the first line end that starts at or behind `from`; the
/// length where there is none.
pub open spec fn first_line_end(content: Seq<u8>, from: int) -> int
    decreases content.len() - from,
{
    if from + 1 >= content.len() {
        content.len() as int
    } else if content[from] == CR && content[from + 1] == LF {
        from
    } else {
        first_line_end(content, from + 1)
    }
}

/// What the codec finds in its buffer.
pub enum Scan {
    /// No whole frame yet. `cursor` is where the next search for the end of
    /// the name may start.
    NeedMore { cursor: int },
    /// A whole frame: the command's name ends at `name_end`, the frame at
    /// `end`.
    Frame { name_end: int, end: int },
}

/// Whether a command of this name carries a payload behind its header line.
pub open spec fn has_payload(name: Seq<u8>) -> bool {
    name == CMD_PUB@ || name == CMD_MSG@
}

/// Looks for a frame at the front of the buffer. The name ends at the first
/// blank at or behind the cursor; it must be the name of a command. The
/// frame ends with the first line end behind the name, and for a command
/// with a payload with the first line end behind that one.
pub open spec fn scan(content: Seq<u8>, cursor: int) -> Scan {
    if content.len() == 0 {
        Scan::NeedMore { cursor }
    } else {
        let start = if cursor > content.len() {
            content.len() as int
        } else {
            cursor
        };
        let name_end = first_blank(content, start);
        if name_end == content.len() {
            Scan::NeedMore { cursor: content.len() as int }
        } else if !is_command_name(content.take(name_end)) {
            Scan::NeedMore { cursor }
        } else {
            let header_end = first_line_end(content, name_end);
            if header_end == content.len() {
                Scan::NeedMore { cursor }
            } else if has_payload(content.take(name_end)) {
                let payload_end = first_line_end(content, header_end + 2);
                if payload_end == content.len() {
                    Scan::NeedMore { cursor }
                } else {
                    Scan::Frame { name_end, end: payload_end + 2 }
                }
            } else {
                Scan::Frame { name_end, end: header_end + 2 }
            }
        }
    }
}

/// Finds the first blank at or behind `from`.
fn find_blank(content: &[u8], from: usize) -> (r: usize)
    requires
        from <= content.len(),
    ensures
        r == first_blank(content@, from as int),
        from <= r <= content.len(),
{
    let mut i: usize = from;
    while i < content.len()
        invariant
            from <= i <= content.len(),
            first_blank(content@, from as int) == first_blank(content@, i as int),
        decreases content.len() - i,
    {
        let b = content[i];
        if b == 0x20 || b == 0x09 || b == CR {
            return i;
        }
        i += 1;
    }
    i
}

/// Finds the first line end that starts at or behind `from`.
fn find_line_end(content: &[u8], from: usize) -> (r: usize)
    requires
        from <= content.len(),
    ensures
        r == first_line_end(content@, from as int),
        from <= r <= content.len(),
        r < content.len() ==> r + 2 <= content.len(),
{
    let mut i: usize = from;
    while i < content.len() && i + 1 < content.len()
        invariant
            from <= i <= content.len(),
            first_line_end(content@, from as int) == first_line_end(content@, i as int),
        decreases content.len() - i,
    {
        if content[i] == CR && content[i + 1] == LF {
            return i;
        }
        i += 1;
    }
    content.len()
}

/// Where the frame at the front of the buffer ends, if there is one.
enum Found {
    NeedMore { cursor: usize },
    Frame { name_end: usize, end: usize },
}

/// Runs the search for a frame.
fn search(content: &[u8], cursor: usize) -> (r: Found)
    ensures
        match r {
            Found::NeedMore { cursor: c } => scan(content@, cursor as int) == (Scan::NeedMore {
                cursor: c as int,
            }),
            Found::Frame { name_end, end } => scan(content@, cursor as int) == (Scan::Frame {
                name_end: name_end as int,
                end: end as int,
            }) && name_end <= end <= content@.len(),
        },
{
    let n = content.len();
    if n == 0 {
        return Found::NeedMore { cursor };
    }
    let start = if cursor > n {
        n
    } else {
        cursor
    };
    let name_end = find_blank(content, start);
    if name_end == n {
        return Found::NeedMore { cursor: n };
    }
    let name = slice_subrange(content, 0, name_end);
    assert(name@ =~= content@.take(name_end as int));
    let kind = name_kind(name);
    if kind == NameKind::Unknown {
        return Found::NeedMore { cursor };
    }
    let header_end = find_line_end(content, name_end);
    if header_end == n {
        return Found::NeedMore { cursor };
    }
    if kind == NameKind::Pub || kind == NameKind::Msg {
        let payload_end = find_line_end(content, header_end + 2);
        if payload_end == n {
            return Found::NeedMore { cursor };
        }
        Found::Frame { name_end, end: payload_end + 2 }
    } else {
        Found::Frame { name_end, end: header_end + 2 }
    }
}

impl OpCodec {
    /// Where the next search for the end of a command's name starts.
    pub closed spec fn cursor(&self) -> usize {
        self.next_index
    }

    /// A codec that has seen no byte yet.
    pub fn new() -> (r: Self)
        ensures
            r.cursor() == 0,
    {
        OpCodec { next_index: 0 }
    }

    /// Writes a message behind what the output buffer holds already. A
    /// message that cannot be written leaves the buffer as it was.
    pub fn encode(&mut self, item: Op, dst: &mut BytesMut) -> (r: Result<(), NatsError>)
        ensures
            final(self).cursor() == old(self).cursor(),
            match r {
                Ok(_) => op_writable(item@) && buffer_content(*final(dst)) == buffer_content(
                    *old(dst),
                ) + op_wire(item@),
                Err(e) => !op_writable(item@) && e == NatsError::ProtocolError(
                    CommandError::JsonError(JsonFault::Syntax),
                ) && buffer_content(*final(dst)) == buffer_content(*old(dst)),
            },
    {
        match item.into_bytes() {
            Ok(bytes) => {
                dst.extend_from_slice(bytes.as_ref());
                Ok(())
            },
            Err(e) => Err(NatsError::ProtocolError(e)),
        }
    }

    /// Takes the next frame off the front of the buffer, if the buffer holds
    /// a whole one, and reads it as a message. Without a whole frame the
    /// buffer stays as it is and the answer is `Ok(None)`: more bytes are
    /// needed. A frame that cannot be read is taken off all the same, and
    /// its error is returned.
    pub fn decode(&mut self, buf: &mut BytesMut) -> (r: Result<Option<Op>, NatsError>)
        ensures
            match scan(buffer_content(*old(buf)), old(self).cursor() as int) {
                Scan::NeedMore { cursor } => {
                    &&& r matches Ok(None)
                    &&& final(self).cursor() == cursor
                    &&& buffer_content(*final(buf)) == buffer_content(*old(buf))
                },
                Scan::Frame { name_end, end } => {
                    &&& final(self).cursor() == 0
                    &&& 0 <= name_end <= end <= buffer_content(*old(buf)).len()
                    &&& buffer_content(*final(buf)) == buffer_content(*old(buf)).skip(end)
                    &&& match r {
                        Ok(Some(op)) => op_parse(buffer_content(*old(buf)).take(end), name_end)
                            == Ok::<OpView, CommandError>(op@),
                        Ok(None) => false,
                        Err(e) => e matches NatsError::ProtocolError(ce) && op_parse(
                            buffer_content(*old(buf)).take(end),
                            name_end,
                        ) == Err::<OpView, CommandError>(ce),
                    }
                },
            },
    {
        let found = {
            let content: &[u8] = (*buf).as_ref();
            search(content, self.next_index)
        };
        match found {
            Found::NeedMore { cursor } => {
                self.next_index = cursor;
                Ok(None)
            },
            Found::Frame { name_end, end } => {
                let ghost before = buffer_content(*buf);
                let frame = buf.split_to(end).freeze();
                assert(before.subrange(0, end as int) =~= before.take(end as int));
                assert(before.subrange(end as int, before.len() as int) =~= before.skip(
                    end as int,
                ));
                self.next_index = 0;
                match Op::from_bytes(frame, name_end) {
                    Ok(op) => Ok(Some(op)),
                    Err(e) => Err(NatsError::ProtocolError(e)),
                }
            },
        }
    }
}

impl Default for OpCodec {
    fn default() -> (r: Self)
        ensures
            r.cursor() == 0,
    {
        OpCodec::new()
    }
}

} // verus!
