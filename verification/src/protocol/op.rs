use vstd::prelude::*;
use vstd::slice::slice_subrange;
use vstd::utf8::encode_utf8;
use bytes::Bytes;
use crate::buf::bytes_content;
use crate::protocol::client::connect::{
    connect_parse, connect_quotable, connect_wire, ConnectCommand, ConnectCommandView,
};
use crate::protocol::client::pub_cmd::{pub_parse, pub_wire, PubCommand, PubCommandView};
use crate::protocol::client::sub_cmd::{sub_parse, sub_wire, SubCommand, SubCommandView};
use crate::protocol::client::unsub_cmd::{unsub_parse, unsub_wire, UnsubCommand, UnsubCommandView};
use crate::protocol::Command;
use crate::protocol::error::CommandError;
use crate::protocol::server::info::{
    info_parse, info_quotable, info_wire, ServerInfo, ServerInfoView,
};
use crate::protocol::server::message::{msg_parse, msg_wire, Message, MessageView};
use crate::protocol::server::server_error::ServerError;
use crate::protocol::wire::{
    crlf, ends_with_crlf, field_text, has_line_end, push_line_end, read_text, CMD_CONNECT, CMD_ERR,
    CMD_INFO, CMD_MSG, CMD_OK, CMD_PING, CMD_PONG, CMD_PUB, CMD_SUB, CMD_UNSUB,
};
use crate::text::{append, bytes_eq, is_separator, push_byte};

verus! {

/// Abstraction over NATS protocol messages
#[derive(Debug, Clone, PartialEq)]
pub enum Op {
    /// **SERVER** Sent to client after initial TCP/IP connection
    INFO(ServerInfo),
    /// **CLIENT** Sent to server to specify connection information
    CONNECT(ConnectCommand),
    /// **CLIENT** Publish a message to a subject, with optional reply subject
    PUB(PubCommand),
    /// **CLIENT** Subscribe to a subject (or subject wildcard)
    SUB(SubCommand),
    /// **CLIENT** Unsubscribe (or auto-unsubscribe) from subject
    UNSUB(UnsubCommand),
    /// **SERVER** Delivers a message payload to a subscriber
    MSG(Message),
    /// **BOTH** PING keep-alive message
    PING,
    /// **BOTH** PONG keep-alive message
    PONG,
    /// **SERVER** Acknowledges well-formed protocol message in `verbose` mode
    OK,
    /// **SERVER** Indicates a protocol error. May cause client disconnect.
    ERR(ServerError),
}

/// A protocol message as plain values.
pub enum OpView {
    INFO(ServerInfoView),
    CONNECT(ConnectCommandView),
    PUB(PubCommandView),
    SUB(SubCommandView),
    UNSUB(UnsubCommandView),
    MSG(MessageView),
    PING,
    PONG,
    OK,
    ERR(Seq<char>),
}

impl View for Op {
    type V = OpView;

    open spec fn view(&self) -> OpView {
        match *self {
            Op::INFO(c) => OpView::INFO(c@),
            Op::CONNECT(c) => OpView::CONNECT(c@),
            Op::PUB(c) => OpView::PUB(c@),
            Op::SUB(c) => OpView::SUB(c@),
            Op::UNSUB(c) => OpView::UNSUB(c@),
            Op::MSG(c) => OpView::MSG(c@),
            Op::PING => OpView::PING,
            Op::PONG => OpView::PONG,
            Op::OK => OpView::OK,
            Op::ERR(e) => OpView::ERR(e@),
        }
    }
}

/// The space that stands between `-ERR` and its message.
pub const SPACE: u8 = 0x20;

/// `-ERR <text>\r\n`
pub open spec fn err_wire(text: Seq<char>) -> Seq<u8> {
    CMD_ERR@ + seq![SPACE] + encode_utf8(text) + crlf()
}

/// Whether a message can be written: the texts of an INFO or a CONNECT must
/// be texts that can be written as JSON; every other message can.
pub open spec fn op_writable(op: OpView) -> bool {
    match op {
        OpView::INFO(c) => info_quotable(c),
        OpView::CONNECT(c) => connect_quotable(c),
        _ => true,
    }
}

/// The bytes that write a message.
pub open spec fn op_wire(op: OpView) -> Seq<u8> {
    match op {
        OpView::INFO(c) => info_wire(c),
        OpView::CONNECT(c) => connect_wire(c),
        OpView::PUB(c) => pub_wire(c),
        OpView::SUB(c) => sub_wire(c),
        OpView::UNSUB(c) => unsub_wire(c),
        OpView::MSG(c) => msg_wire(c),
        OpView::PING => CMD_PING@ + crlf(),
        OpView::PONG => CMD_PONG@ + crlf(),
        OpView::OK => CMD_OK@ + crlf(),
        OpView::ERR(text) => err_wire(text),
    }
}

/// Whether the bytes are the name of a command.
pub open spec fn is_command_name(name: Seq<u8>) -> bool {
    name == CMD_INFO@ || name == CMD_CONNECT@ || name == CMD_MSG@ || name == CMD_PUB@ || name
        == CMD_SUB@ || name == CMD_UNSUB@ || name == CMD_PING@ || name == CMD_PONG@ || name
        == CMD_OK@ || name == CMD_ERR@
}

/// Where the message of an `-ERR` frame starts: behind the name, and behind
/// the one space or tab that may follow it.
pub open spec fn err_text_start(frame: Seq<u8>) -> int {
    if frame.len() > 6 && is_separator(frame[4]) {
        5
    } else {
        4
    }
}

/// Lifts the result of reading one command to a message.
pub open spec fn lift<V>(r: Result<V, CommandError>, wrap: spec_fn(V) -> OpView) -> Result<
    OpView,
    CommandError,
> {
    match r {
        Ok(v) => Ok(wrap(v)),
        Err(e) => Err(e),
    }
}

/// What a frame reads as, given where the command's name ends. A frame
/// whose name is unknown is taken as incomplete while it is at most seven
/// bytes long, and as unsupported beyond that.
pub open spec fn op_parse(frame: Seq<u8>, name_end: int) -> Result<OpView, CommandError> {
    let kind = if name_end > frame.len() {
        NameKind::Unknown
    } else {
        kind_of_name(frame.take(name_end))
    };
    match kind {
        NameKind::Unknown => if frame.len() > 7 {
            Err(CommandError::CommandNotFoundOrSupported)
        } else {
            Err(CommandError::IncompleteCommandError)
        },
        NameKind::Info => lift(info_parse(frame), |v: ServerInfoView| OpView::INFO(v)),
        NameKind::Connect => lift(
            connect_parse(frame),
            |v: ConnectCommandView| OpView::CONNECT(v),
        ),
        NameKind::Msg => lift(msg_parse(frame), |v: MessageView| OpView::MSG(v)),
        NameKind::Pub => lift(pub_parse(frame), |v: PubCommandView| OpView::PUB(v)),
        NameKind::Sub => lift(sub_parse(frame), |v: SubCommandView| OpView::SUB(v)),
        NameKind::Unsub => lift(unsub_parse(frame), |v: UnsubCommandView| OpView::UNSUB(v)),
        NameKind::Ping => if frame == CMD_PING@ + crlf() {
            Ok(OpView::PING)
        } else {
            Err(CommandError::IncompleteCommandError)
        },
        NameKind::Pong => if frame == CMD_PONG@ + crlf() {
            Ok(OpView::PONG)
        } else {
            Err(CommandError::IncompleteCommandError)
        },
        NameKind::Ack => if frame == CMD_OK@ + crlf() {
            Ok(OpView::OK)
        } else {
            Err(CommandError::IncompleteCommandError)
        },
        NameKind::Fault => if ends_with_crlf(frame) {
            lift(
                field_text(frame.subrange(err_text_start(frame), frame.len() - 2)),
                |text: Seq<char>| OpView::ERR(text),
            )
        } else {
            Err(CommandError::IncompleteCommandError)
        },
    }
}

/// Whether the frame is the given name and a line end, and nothing else.
fn is_bare(frame: &[u8], name: &[u8]) -> (r: bool)
    ensures
        r == (frame@ == name@ + crlf()),
{
    if frame.len() < 2 || !has_line_end(frame) {
        proof {
            if frame@ == name@ + crlf() {
                assert(frame@[frame@.len() - 2] == crlf()[0]);
                assert(frame@[frame@.len() - 1] == crlf()[1]);
            }
        }
        return false;
    }
    let head = slice_subrange(frame, 0, frame.len() - 2);
    let same = bytes_eq(head, name);
    proof {
        if same {
            assert(frame@ =~= name@ + crlf());
        }
        if frame@ == name@ + crlf() {
            assert(head@ =~= name@);
        }
    }
    same
}

impl Op {
    /// Transforms the OP into a byte slice
    pub fn into_bytes(self) -> (r: Result<Bytes, CommandError>)
        ensures
            match r {
                Ok(b) => op_writable(self@) && bytes_content(b) == op_wire(self@),
                Err(e) => !op_writable(self@) && e == CommandError::JsonError(
                    crate::protocol::error::JsonFault::Syntax,
                ),
            },
    {
        match self {
            Op::INFO(c) => c.into_vec(),
            Op::CONNECT(c) => c.into_vec(),
            Op::PUB(c) => c.into_vec(),
            Op::SUB(c) => c.into_vec(),
            Op::UNSUB(c) => c.into_vec(),
            Op::MSG(c) => c.into_vec(),
            Op::PING => Ok(Bytes::from(bare(CMD_PING.as_slice()))),
            Op::PONG => Ok(Bytes::from(bare(CMD_PONG.as_slice()))),
            Op::OK => Ok(Bytes::from(bare(CMD_OK.as_slice()))),
            Op::ERR(e) => {
                let mut out: Vec<u8> = Vec::new();
                append(&mut out, CMD_ERR.as_slice());
                push_byte(&mut out, SPACE);
                append(&mut out, e.message().as_bytes());
                push_line_end(&mut out);
                assert(out@ =~= err_wire(e@));
                Ok(Bytes::from(out))
            },
        }
    }

    /// Tries to parse from a pair of command name and whole buffer
    pub fn from_bytes(buf: Bytes, cmd_idx: usize) -> (r: Result<Self, CommandError>)
        ensures
            match r {
                Ok(op) => op_parse(bytes_content(buf), cmd_idx as int) == Ok::<
                    OpView,
                    CommandError,
                >(op@),
                Err(e) => op_parse(bytes_content(buf), cmd_idx as int) == Err::<
                    OpView,
                    CommandError,
                >(e),
            },
    {
        let n = {
            let frame: &[u8] = buf.as_ref();
            frame.len()
        };
        if cmd_idx > n {
            return Err(unknown_name(n));
        }
        let kind = {
            let frame: &[u8] = buf.as_ref();
            let name = slice_subrange(frame, 0, cmd_idx);
            assert(name@ =~= frame@.take(cmd_idx as int));
            name_kind(name)
        };
        match kind {
            NameKind::Info => match ServerInfo::try_parse(buf) {
                Ok(c) => Ok(Op::INFO(c)),
                Err(e) => Err(e),
            },
            NameKind::Connect => match ConnectCommand::try_parse(buf) {
                Ok(c) => Ok(Op::CONNECT(c)),
                Err(e) => Err(e),
            },
            NameKind::Msg => match Message::try_parse(buf) {
                Ok(c) => Ok(Op::MSG(c)),
                Err(e) => Err(e),
            },
            NameKind::Pub => match PubCommand::try_parse(buf) {
                Ok(c) => Ok(Op::PUB(c)),
                Err(e) => Err(e),
            },
            NameKind::Sub => match SubCommand::try_parse(buf) {
                Ok(c) => Ok(Op::SUB(c)),
                Err(e) => Err(e),
            },
            NameKind::Unsub => match UnsubCommand::try_parse(buf) {
                Ok(c) => Ok(Op::UNSUB(c)),
                Err(e) => Err(e),
            },
            NameKind::Ping => {
                let frame: &[u8] = buf.as_ref();
                if is_bare(frame, CMD_PING.as_slice()) {
                    Ok(Op::PING)
                } else {
                    Err(CommandError::IncompleteCommandError)
                }
            },
            NameKind::Pong => {
                let frame: &[u8] = buf.as_ref();
                if is_bare(frame, CMD_PONG.as_slice()) {
                    Ok(Op::PONG)
                } else {
                    Err(CommandError::IncompleteCommandError)
                }
            },
            NameKind::Ack => {
                let frame: &[u8] = buf.as_ref();
                if is_bare(frame, CMD_OK.as_slice()) {
                    Ok(Op::OK)
                } else {
                    Err(CommandError::IncompleteCommandError)
                }
            },
            NameKind::Fault => {
                let frame: &[u8] = buf.as_ref();
                if !has_line_end(frame) {
                    return Err(CommandError::IncompleteCommandError);
                }
                assert(n >= 6) by {
                    assert(frame@.take(4)[2] == CMD_ERR@[2]);
                    assert(frame@.take(4)[3] == CMD_ERR@[3]);
                }
                let start: usize = if n > 6 && (frame[4] == 0x20 || frame[4] == 0x09) {
                    5
                } else {
                    4
                };
                match read_text(frame, (start, n - 2)) {
                    Ok(text) => Ok(Op::ERR(ServerError::from(text))),
                    Err(e) => Err(e),
                }
            },
            NameKind::Unknown => Err(unknown_name(n)),
        }
    }

    /// Whether the bytes are the name of a command of the protocol.
    pub fn command_exists(cmd_name: &[u8]) -> (r: bool)
        ensures
            r == is_command_name(cmd_name@),
    {
        match name_kind(cmd_name) {
            NameKind::Unknown => false,
            _ => true,
        }
    }
}

/// The commands by name.
#[derive(Debug, Clone, Copy, PartialEq, Eq, Structural)]
pub enum NameKind {
    Info,
    Connect,
    Msg,
    Pub,
    Sub,
    Unsub,
    Ping,
    Pong,
    Ack,
    Fault,
    Unknown,
}

/// The command that a name stands for.
pub open spec fn kind_of_name(name: Seq<u8>) -> NameKind {
    if name == CMD_INFO@ {
        NameKind::Info
    } else if name == CMD_CONNECT@ {
        NameKind::Connect
    } else if name == CMD_MSG@ {
        NameKind::Msg
    } else if name == CMD_PUB@ {
        NameKind::Pub
    } else if name == CMD_SUB@ {
        NameKind::Sub
    } else if name == CMD_UNSUB@ {
        NameKind::Unsub
    } else if name == CMD_PING@ {
        NameKind::Ping
    } else if name == CMD_PONG@ {
        NameKind::Pong
    } else if name == CMD_OK@ {
        NameKind::Ack
    } else if name == CMD_ERR@ {
        NameKind::Fault
    } else {
        NameKind::Unknown
    }
}

/// Tells the command names apart.
pub fn name_kind(name: &[u8]) -> (r: NameKind)
    ensures
        r == kind_of_name(name@),
        (r != NameKind::Unknown) == is_command_name(name@),
{
    if bytes_eq(name, CMD_INFO.as_slice()) {
        NameKind::Info
    } else if bytes_eq(name, CMD_CONNECT.as_slice()) {
        NameKind::Connect
    } else if bytes_eq(name, CMD_MSG.as_slice()) {
        NameKind::Msg
    } else if bytes_eq(name, CMD_PUB.as_slice()) {
        NameKind::Pub
    } else if bytes_eq(name, CMD_SUB.as_slice()) {
        NameKind::Sub
    } else if bytes_eq(name, CMD_UNSUB.as_slice()) {
        NameKind::Unsub
    } else if bytes_eq(name, CMD_PING.as_slice()) {
        NameKind::Ping
    } else if bytes_eq(name, CMD_PONG.as_slice()) {
        NameKind::Pong
    } else if bytes_eq(name, CMD_OK.as_slice()) {
        NameKind::Ack
    } else if bytes_eq(name, CMD_ERR.as_slice()) {
        NameKind::Fault
    } else {
        NameKind::Unknown
    }
}

/// The error for a frame whose name is no command's.
fn unknown_name(frame_len: usize) -> (e: CommandError)
    ensures
        e == if frame_len > 7 {
            CommandError::CommandNotFoundOrSupported
        } else {
            CommandError::IncompleteCommandError
        },
{
    if frame_len > 7 {
        CommandError::CommandNotFoundOrSupported
    } else {
        CommandError::IncompleteCommandError
    }
}

/// A name and a line end.
fn bare(name: &[u8]) -> (out: Vec<u8>)
    ensures
        out@ == name@ + crlf(),
{
    let mut out: Vec<u8> = Vec::new();
    append(&mut out, name);
    push_line_end(&mut out);
    assert(out@ =~= name@ + crlf());
    out
}

} // verus!
