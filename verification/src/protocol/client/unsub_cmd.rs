use vstd::prelude::*;
use vstd::slice::slice_subrange;
use vstd::utf8::{encode_utf8, valid_utf8};
use bytes::Bytes;
use crate::buf::bytes_content;
use crate::protocol::builder::{missing, missing_words};
use crate::protocol::client::sub_cmd::SubCommand;
use crate::protocol::Command;
use crate::protocol::error::CommandError;
use crate::protocol::wire::{
    crlf, ends_with_crlf, field_text, has_line_end, push_field, push_line_end, push_number,
    read_text, start_line, tabbed, tabbed_count, CMD_UNSUB,
};
use crate::text::{bytes_eq, cut, fields, parse_decimal, parse_decimal_field, split_fields};

verus! {

/// UNSUB unsubcribes the connection from the specified subject, or auto-unsubscribes after the
/// specified number of messages has been received.
#[derive(Debug, Clone, PartialEq)]
pub struct UnsubCommand {
    /// The unique alphanumeric subscription ID of the subject to unsubscribe from
    pub sid: String,
    /// An optional number of messages to wait for before automatically unsubscribing
    pub max_msgs: Option<u32>,
}

/// An UNSUB command as plain values.
pub struct UnsubCommandView {
    pub sid: Seq<char>,
    pub max_msgs: Option<u32>,
}

impl View for UnsubCommand {
    type V = UnsubCommandView;

    open spec fn view(&self) -> UnsubCommandView {
        UnsubCommandView { sid: self.sid@, max_msgs: self.max_msgs }
    }
}

/// `UNSUB\t<sid>[\t<max_msgs>]\r\n`
pub open spec fn unsub_wire(c: UnsubCommandView) -> Seq<u8> {
    CMD_UNSUB@ + tabbed(encode_utf8(c.sid)) + tabbed_count(c.max_msgs) + crlf()
}

/// What a frame reads as, taken as an UNSUB command: the line before the
/// line end must hold the name, a subscription ID, and optionally a count
/// that fits 32 bits. Fields behind the count are passed over.
pub open spec fn unsub_parse(frame: Seq<u8>) -> Result<UnsubCommandView, CommandError> {
    if !ends_with_crlf(frame) {
        Err(CommandError::IncompleteCommandError)
    } else {
        let f = fields(frame.take(frame.len() - 2));
        if f.len() == 0 || f[0] != CMD_UNSUB@ {
            Err(CommandError::CommandMalformed)
        } else if f.len() < 2 {
            Err(CommandError::CommandMalformed)
        } else {
            match field_text(f[1]) {
                Err(e) => Err(e),
                Ok(sid) => if f.len() < 3 {
                    Ok(UnsubCommandView { sid, max_msgs: None })
                } else if !valid_utf8(f[2]) {
                    Err(CommandError::UTF8SliceError)
                } else {
                    match parse_decimal(f[2], u32::MAX as nat) {
                        Err(fault) => Err(CommandError::PayloadLengthParseError(fault)),
                        Ok(n) => Ok(UnsubCommandView { sid, max_msgs: Some(n as u32) }),
                    }
                },
            }
        }
    }
}

/// The command that ends a subscription at once: the subscription's ID, and
/// no count.
impl From<SubCommand> for UnsubCommand {
    fn from(cmd: SubCommand) -> (r: UnsubCommand)
        ensures
            r == (UnsubCommand { sid: cmd.sid, max_msgs: None }),
    {
        UnsubCommand { sid: cmd.sid, max_msgs: None }
    }
}

impl vstd::std_specs::convert::FromSpecImpl<SubCommand> for UnsubCommand {
    open spec fn obeys_from_spec() -> bool {
        true
    }

    open spec fn from_spec(cmd: SubCommand) -> UnsubCommand {
        UnsubCommand { sid: cmd.sid, max_msgs: None }
    }
}

impl Command for UnsubCommand {
    fn into_vec(self) -> (r: Result<Bytes, CommandError>)
        ensures
            r matches Ok(b) && bytes_content(b) == unsub_wire(self@),
    {
        let mut out = start_line(CMD_UNSUB.as_slice());
        push_field(&mut out, self.sid.as_str().as_bytes());
        match self.max_msgs {
            Some(max) => {
                push_number(&mut out, max as u64);
            },
            None => {
                assert(out@ =~= out@ + Seq::<u8>::empty());
            },
        }
        push_line_end(&mut out);
        Ok(Bytes::from(out))
    }

    fn try_parse(buf: Bytes) -> (r: Result<Self, CommandError>)
        ensures
            match r {
                Ok(c) => unsub_parse(bytes_content(buf)) == Ok::<UnsubCommandView, CommandError>(
                    c@,
                ),
                Err(e) => unsub_parse(bytes_content(buf)) == Err::<UnsubCommandView, CommandError>(
                    e,
                ),
            },
    {
        let frame: &[u8] = buf.as_ref();
        if !has_line_end(frame) {
            return Err(CommandError::IncompleteCommandError);
        }
        let line = slice_subrange(frame, 0, frame.len() - 2);
        assert(line@ =~= frame@.take(frame@.len() - 2));
        let ranges = split_fields(line);
        let count = ranges.len();
        let ghost f = fields(line@);
        if count == 0 {
            return Err(CommandError::CommandMalformed);
        }
        let name = slice_subrange(line, ranges[0].0, ranges[0].1);
        assert(name@ == f[0]);
        if !bytes_eq(name, CMD_UNSUB.as_slice()) {
            return Err(CommandError::CommandMalformed);
        }
        if count < 2 {
            return Err(CommandError::CommandMalformed);
        }
        assert(cut(line@, ranges@)[1] == f[1]);
        let sid = read_text(line, ranges[1])?;
        if count < 3 {
            return Ok(UnsubCommand { sid, max_msgs: None });
        }
        let field = slice_subrange(line, ranges[2].0, ranges[2].1);
        assert(field@ == f[2]);
        if core::str::from_utf8(field).is_err() {
            return Err(CommandError::UTF8SliceError);
        }
        match parse_decimal_field(field, u32::MAX as u64) {
            Ok(n) => Ok(UnsubCommand { sid, max_msgs: Some(n as u32) }),
            Err(fault) => Err(CommandError::PayloadLengthParseError(fault)),
        }
    }
}

/// Builder for [`UnsubCommand`]: each setter takes the builder and hands it
/// back with one field set.
#[derive(Debug, Clone)]
pub struct UnsubCommandBuilder {
    pub sid: Option<String>,
    pub max_msgs: Option<Option<u32>>,
}

impl UnsubCommand {
    /// A builder with no field set.
    pub fn builder() -> (r: UnsubCommandBuilder)
        ensures
            r.sid is None,
            r.max_msgs is None,
    {
        UnsubCommandBuilder { sid: None, max_msgs: None }
    }
}

impl UnsubCommandBuilder {
    /// The unique alphanumeric subscription ID of the subject to unsubscribe from
    pub fn sid(self, value: &str) -> (r: Self)
        ensures
            r.sid matches Some(s) && s@ == value@,
            r.max_msgs == self.max_msgs,
    {
        UnsubCommandBuilder { sid: Some(value.to_owned()), ..self }
    }

    /// An optional number of messages to wait for before automatically unsubscribing
    pub fn max_msgs(self, value: Option<u32>) -> (r: Self)
        ensures
            r.max_msgs == Some(value),
            r.sid == self.sid,
    {
        UnsubCommandBuilder { max_msgs: Some(value), ..self }
    }

    /// Builds the command: the subscription ID must be set. A count that
    /// was not set is none.
    pub fn build(self) -> (r: Result<UnsubCommand, String>)
        ensures
            match self.sid {
                None => r matches Err(m) && m@ == missing_words("sid"@),
                Some(sid) => r matches Ok(c) && c@ == (UnsubCommandView {
                    sid: sid@,
                    max_msgs: match self.max_msgs {
                        Some(m) => m,
                        None => None,
                    },
                }),
            },
    {
        let sid = match self.sid {
            Some(s) => s,
            None => {
                return Err(missing("sid"));
            },
        };
        let max_msgs = match self.max_msgs {
            Some(m) => m,
            None => None,
        };
        Ok(UnsubCommand { sid, max_msgs })
    }
}

impl Default for UnsubCommandBuilder {
    fn default() -> (r: Self)
        ensures
            r.sid is None,
            r.max_msgs is None,
    {
        UnsubCommand::builder()
    }
}

} // verus!
