//! Reading back what was written: a command that is written as bytes and
//! read again is the command that was written.

use vstd::prelude::*;
use vstd::utf8::{
    encode_scalar, encode_utf8, encode_utf8_decode_utf8, encode_utf8_valid_utf8, is_ascii_chars,
    is_ascii_chars_encode_utf8, valid_utf8, valid_utf8_concat,
};
use crate::json::json_object;
use crate::protocol::client::connect::{
    connect_json, connect_of_members, connect_parse, connect_wire, ConnectCommandView,
};
use crate::protocol::client::pub_cmd::{pub_header, pub_parse, pub_wire, PubCommandView};
use crate::protocol::client::sub_cmd::{sub_parse, sub_wire, SubCommandView};
use crate::protocol::client::unsub_cmd::{unsub_parse, unsub_wire, UnsubCommandView};
use crate::protocol::error::CommandError;
use crate::protocol::op::{
    err_wire, is_command_name, kind_of_name, op_parse, op_wire, NameKind, OpView, SPACE,
};
use crate::protocol::server::info::{
    info_json, info_of_members, info_parse, info_wire, ServerInfoView,
};
use crate::protocol::server::message::{msg_header, msg_parse, msg_wire, MessageView};
use crate::protocol::wire::{
    check_payload_header, crlf, field_text, lemma_position_first, split_payload_frame, tabbed,
    tabbed_count, tabbed_text, PayloadFrame, CMD_CONNECT, CMD_ERR, CMD_INFO, CMD_MSG, CMD_OK,
    CMD_PING, CMD_PONG, CMD_PUB, CMD_SUB, CMD_UNSUB, CR, LF, TAB,
};
use crate::text::{
    decimal, fields, is_digit, is_separator, lemma_ascii_byte_occurs, lemma_decimal_round_trip,
    lemma_fields_append_token, lemma_fields_push_separator, parse_decimal, unsigned_part,
    IntParseFault,
};

verus! {

/// A text that can stand as a field: it is not empty and holds neither a
/// space nor a tab.
pub open spec fn is_field_text(t: Seq<char>) -> bool {
    t.len() > 0 && !t.contains(' ') && !t.contains('\t')
}

/// A text that can stand as a field of a header line that a payload
/// follows: a field text without carriage return.
pub open spec fn is_header_text(t: Seq<char>) -> bool {
    is_field_text(t) && !t.contains('\r')
}

/// A run of bytes that can stand as a field: not empty, without space or
/// tab.
pub open spec fn is_token(t: Seq<u8>) -> bool {
    t.len() > 0 && forall|i: int| 0 <= i < t.len() ==> !is_separator(#[trigger] t[i])
}

/// The bytes of a field text are a token, and are read back as the text.
pub proof fn lemma_field_bytes(t: Seq<char>)
    requires
        is_field_text(t),
    ensures
        is_token(encode_utf8(t)),
        valid_utf8(encode_utf8(t)),
        field_text(encode_utf8(t)) == Ok::<Seq<char>, CommandError>(t),
        t.contains('\r') <==> encode_utf8(t).contains(CR),
{
    let b = encode_utf8(t);
    lemma_ascii_byte_occurs(t, 0x20u8);
    lemma_ascii_byte_occurs(t, 0x09u8);
    lemma_ascii_byte_occurs(t, 0x0du8);
    encode_utf8_valid_utf8(t);
    encode_utf8_decode_utf8(t);
    assert(b.len() > 0) by {
        assert(b == encode_scalar(t[0] as u32) + encode_utf8(t.drop_first()));
    }
    assert forall|i: int| 0 <= i < b.len() implies !is_separator(#[trigger] b[i]) by {
        if b[i] == 0x20u8 {
            assert(b.contains(0x20u8));
        }
        if b[i] == 0x09u8 {
            assert(b.contains(0x09u8));
        }
    }
}

/// A run of ASCII bytes is valid UTF-8.
pub proof fn lemma_ascii_is_utf8(b: Seq<u8>)
    requires
        forall|i: int| 0 <= i < b.len() ==> #[trigger] b[i] < 0x80,
    ensures
        valid_utf8(b),
{
    let chars = Seq::new(b.len(), |i: int| b[i] as char);
    assert(is_ascii_chars(chars));
    is_ascii_chars_encode_utf8(chars);
    assert(encode_utf8(chars) =~= b) by {
        assert forall|i: int| 0 <= i < b.len() implies encode_utf8(chars)[i] == b[i] by {
            assert(chars[i] as u8 == encode_utf8(chars)[i]);
        }
    }
    encode_utf8_valid_utf8(chars);
}

/// A number in base ten is a token of digits that is read back as the
/// number.
pub proof fn lemma_decimal_field(n: nat, max: nat)
    requires
        n <= max,
    ensures
        is_token(decimal(n)),
        valid_utf8(decimal(n)),
        !decimal(n).contains(CR),
        parse_decimal(decimal(n), max) == Ok::<nat, IntParseFault>(n),
{
    let d = decimal(n);
    lemma_decimal_round_trip(n);
    assert forall|i: int| 0 <= i < d.len() implies !is_separator(#[trigger] d[i]) && d[i] < 0x80
        && d[i] != CR by {
        assert(is_digit(d[i]));
    }
    lemma_ascii_is_utf8(d);
    assert(is_digit(d[0]));
    assert(unsigned_part(d) == d);
}

/// Two runs of bytes without carriage return make one.
pub proof fn lemma_no_cr(a: Seq<u8>, b: Seq<u8>)
    requires
        !a.contains(CR),
        !b.contains(CR),
    ensures
        !(a + b).contains(CR),
{
    if (a + b).contains(CR) {
        let i = choose|i: int| 0 <= i < (a + b).len() && (a + b)[i] == CR;
        if i < a.len() {
            assert(a[i] == CR);
        } else {
            assert(b[i - a.len()] == CR);
        }
    }
}

/// Nothing holds no carriage return, and changes no line that it joins.
pub proof fn lemma_nothing(line: Seq<u8>)
    ensures
        !Seq::<u8>::empty().contains(CR),
        valid_utf8(Seq::<u8>::empty()),
        line + Seq::<u8>::empty() == line,
{
    let e = Seq::<u8>::empty();
    if e.contains(CR) {
        let i = choose|i: int| 0 <= i < e.len() && e[i] == CR;
    }
    assert(line + e =~= line);
}

/// The name of a command is a token of ASCII bytes without carriage
/// return, and is the only field of the line that it makes.
pub proof fn lemma_name(name: Seq<u8>)
    requires
        is_command_name(name),
    ensures
        is_token(name),
        valid_utf8(name),
        !name.contains(CR),
        fields(name) == seq![name],
{
    assert forall|i: int| 0 <= i < name.len() implies #[trigger] name[i] < 0x80 && name[i] != CR
        && !is_separator(name[i]) by {}
    lemma_ascii_is_utf8(name);
    if name.contains(CR) {
        let i = choose|i: int| 0 <= i < name.len() && name[i] == CR;
        assert(name[i] != CR);
    }
    lemma_fields_append_token(Seq::empty(), name);
    assert(Seq::<u8>::empty() + name =~= name);
    assert(fields(Seq::<u8>::empty()) =~= Seq::<Seq<u8>>::empty());
    assert(Seq::<Seq<u8>>::empty().push(name) =~= seq![name]);
}

/// A field that joins a line behind a tab is one more field of the line;
/// it brings no carriage return and no invalid UTF-8 that it does not hold.
pub proof fn lemma_tabbed(line: Seq<u8>, field: Seq<u8>)
    requires
        is_token(field),
    ensures
        fields(line + tabbed(field)) == fields(line).push(field),
        (line + tabbed(field)).len() == line.len() + 1 + field.len(),
        !line.contains(CR) && !field.contains(CR) ==> !(line + tabbed(field)).contains(CR),
        valid_utf8(line) && valid_utf8(field) ==> valid_utf8(line + tabbed(field)),
{
    let tab = seq![TAB];
    lemma_fields_push_separator(line, TAB);
    assert(line + tab =~= line.push(TAB));
    lemma_fields_append_token(line.push(TAB), field);
    assert(line + tabbed(field) =~= line.push(TAB) + field);
    if tab.contains(CR) {
        let i = choose|i: int| 0 <= i < tab.len() && tab[i] == CR;
        assert(tab[i] == TAB);
    }
    if !line.contains(CR) && !field.contains(CR) {
        lemma_no_cr(tab, field);
        lemma_no_cr(line, tabbed(field));
    }
    if valid_utf8(line) && valid_utf8(field) {
        lemma_ascii_is_utf8(tab);
        valid_utf8_concat(tab, field);
        valid_utf8_concat(line, tabbed(field));
    }
}

/// A field text that joins a line behind a tab.
pub proof fn lemma_tabbed_field(line: Seq<u8>, text: Seq<char>)
    requires
        is_field_text(text),
    ensures
        fields(line + tabbed(encode_utf8(text))) == fields(line).push(encode_utf8(text)),
        !line.contains(CR) && !text.contains('\r') ==> !(line + tabbed(
            encode_utf8(text),
        )).contains(CR),
        valid_utf8(line) ==> valid_utf8(line + tabbed(encode_utf8(text))),
        field_text(encode_utf8(text)) == Ok::<Seq<char>, CommandError>(text),
{
    lemma_field_bytes(text);
    lemma_tabbed(line, encode_utf8(text));
}

/// A field text that may be missing joins a line behind a tab, or nothing
/// does.
pub proof fn lemma_tabbed_text(line: Seq<u8>, text: Option<Seq<char>>)
    requires
        text matches Some(t) ==> is_field_text(t),
    ensures
        fields(line + tabbed_text(text)) == match text {
            Some(t) => fields(line).push(encode_utf8(t)),
            None => fields(line),
        },
        !line.contains(CR) && (text matches Some(t) ==> !t.contains('\r')) ==> !(line
            + tabbed_text(text)).contains(CR),
        valid_utf8(line) ==> valid_utf8(line + tabbed_text(text)),
        text matches Some(t) ==> field_text(encode_utf8(t)) == Ok::<Seq<char>, CommandError>(t),
{
    match text {
        Some(t) => {
            lemma_tabbed_field(line, t);
        },
        None => {
            lemma_nothing(line);
        },
    }
}

/// A number that joins a line behind a tab.
pub proof fn lemma_tabbed_number(line: Seq<u8>, n: nat, max: nat)
    requires
        n <= max,
    ensures
        fields(line + tabbed(decimal(n))) == fields(line).push(decimal(n)),
        !line.contains(CR) ==> !(line + tabbed(decimal(n))).contains(CR),
        valid_utf8(decimal(n)),
        parse_decimal(decimal(n), max) == Ok::<nat, IntParseFault>(n),
{
    lemma_decimal_field(n, max);
    lemma_tabbed(line, decimal(n));
}

/// A frame that is a header line without carriage return, a line end, a
/// payload and a line end is cut into the fields of the line and the
/// payload.
pub proof fn lemma_split_payload_frame(header: Seq<u8>, payload: Seq<u8>)
    requires
        !header.contains(CR),
    ensures
        split_payload_frame(header + crlf() + payload + crlf()) == Ok::<
            PayloadFrame,
            CommandError,
        >(PayloadFrame { fields: fields(header), payload }),
{
    let frame = header + crlf() + payload + crlf();
    let body = frame.take(frame.len() - 2);
    let p = header.len() as int;
    assert(frame[frame.len() - 2] == CR);
    assert(frame[frame.len() - 1] == LF);
    assert forall|j: int| 0 <= j < p implies body[j] != CR by {
        assert(body[j] == header[j]);
        if header[j] == CR {
            assert(header.contains(CR));
        }
    }
    assert(body[p] == CR);
    lemma_position_first(body, CR, p);
    assert(frame[p + 1] == LF);
    assert(frame.take(p) =~= header);
    assert(frame.subrange(p + 2, frame.len() - 2) =~= payload);
}

/// A line and a line end: the frame closes with the line end, and before
/// it stands the line.
pub proof fn lemma_line_frame(line: Seq<u8>)
    ensures
        crate::protocol::wire::ends_with_crlf(line + crlf()),
        (line + crlf()).take((line + crlf()).len() - 2) == line,
{
    let frame = line + crlf();
    assert(frame[frame.len() - 2] == CR);
    assert(frame[frame.len() - 1] == LF);
    assert(frame.take(frame.len() - 2) =~= line);
}

/// The fields of the header line of a PUB command.
pub proof fn lemma_pub_header(c: PubCommandView)
    requires
        is_header_text(c.subject),
        c.reply_to matches Some(r) ==> is_header_text(r),
        c.payload.len() <= usize::MAX,
    ensures
        !pub_header(c).contains(CR),
        fields(pub_header(c)).len() == if c.reply_to is Some {
            4int
        } else {
            3int
        },
        fields(pub_header(c))[0] == CMD_PUB@,
        fields(pub_header(c))[1] == encode_utf8(c.subject),
        c.reply_to matches Some(r) ==> fields(pub_header(c))[2] == encode_utf8(r),
        fields(pub_header(c)).last() == decimal(c.payload.len()),
{
    let a = CMD_PUB@;
    let b = a + tabbed(encode_utf8(c.subject));
    let d = b + tabbed_text(c.reply_to);
    lemma_name(a);
    lemma_tabbed_field(a, c.subject);
    lemma_tabbed_text(b, c.reply_to);
    lemma_tabbed_number(d, c.payload.len(), usize::MAX as nat);
}

/// What is read of a frame whose header was cut into the right fields.
proof fn lemma_pub_fields(pf: PayloadFrame, c: PubCommandView)
    requires
        pf.payload == c.payload,
        c.payload.len() <= usize::MAX,
        pf.fields.len() == if c.reply_to is Some {
            4int
        } else {
            3int
        },
        pf.fields[0] == CMD_PUB@,
        pf.fields.last() == decimal(c.payload.len()),
        field_text(pf.fields[1]) == Ok::<Seq<char>, CommandError>(c.subject),
        c.reply_to matches Some(r) ==> field_text(pf.fields[2]) == Ok::<Seq<char>, CommandError>(
            r,
        ),
    ensures
        check_payload_header(pf, CMD_PUB@) is Ok,
{
    lemma_decimal_field(c.payload.len(), usize::MAX as nat);
}

/// A PUB command whose subject and reply subject are header texts is read
/// back from its bytes as it was written, whatever its payload holds.
pub proof fn law_pub_round_trip(c: PubCommandView)
    requires
        is_header_text(c.subject),
        c.reply_to matches Some(r) ==> is_header_text(r),
        c.payload.len() <= usize::MAX,
    ensures
        pub_parse(pub_wire(c)) == Ok::<PubCommandView, CommandError>(c),
{
    lemma_pub_header(c);
    lemma_split_payload_frame(pub_header(c), c.payload);
    lemma_field_bytes(c.subject);
    if let Some(r) = c.reply_to {
        lemma_field_bytes(r);
    }
    let pf = PayloadFrame { fields: fields(pub_header(c)), payload: c.payload };
    lemma_pub_fields(pf, c);
}

/// The fields of the header line of a MSG command.
pub proof fn lemma_msg_header(m: MessageView)
    requires
        is_header_text(m.subject),
        is_header_text(m.sid),
        m.reply_to matches Some(r) ==> is_header_text(r),
        m.payload.len() <= usize::MAX,
    ensures
        !msg_header(m).contains(CR),
        fields(msg_header(m)).len() == if m.reply_to is Some {
            5int
        } else {
            4int
        },
        fields(msg_header(m))[0] == CMD_MSG@,
        fields(msg_header(m))[1] == encode_utf8(m.subject),
        fields(msg_header(m))[2] == encode_utf8(m.sid),
        m.reply_to matches Some(r) ==> fields(msg_header(m))[3] == encode_utf8(r),
        fields(msg_header(m)).last() == decimal(m.payload.len()),
{
    let a = CMD_MSG@;
    let b = a + tabbed(encode_utf8(m.subject));
    let c = b + tabbed(encode_utf8(m.sid));
    let d = c + tabbed_text(m.reply_to);
    lemma_name(a);
    lemma_tabbed_field(a, m.subject);
    lemma_tabbed_field(b, m.sid);
    lemma_tabbed_text(c, m.reply_to);
    lemma_tabbed_number(d, m.payload.len(), usize::MAX as nat);
}

/// What is read of a frame whose header was cut into the right fields.
proof fn lemma_msg_fields(pf: PayloadFrame, m: MessageView)
    requires
        pf.payload == m.payload,
        m.payload.len() <= usize::MAX,
        pf.fields.len() >= 2,
        pf.fields[0] == CMD_MSG@,
        pf.fields.last() == decimal(m.payload.len()),
    ensures
        check_payload_header(pf, CMD_MSG@) is Ok,
{
    lemma_decimal_field(m.payload.len(), usize::MAX as nat);
}

/// A MSG command whose subject, subscription ID and reply subject are
/// header texts is read back from its bytes as it was written, whatever its
/// payload holds.
pub proof fn law_msg_round_trip(m: MessageView)
    requires
        is_header_text(m.subject),
        is_header_text(m.sid),
        m.reply_to matches Some(r) ==> is_header_text(r),
        m.payload.len() <= usize::MAX,
    ensures
        msg_parse(msg_wire(m)) == Ok::<MessageView, CommandError>(m),
{
    lemma_msg_header(m);
    lemma_split_payload_frame(msg_header(m), m.payload);
    lemma_field_bytes(m.subject);
    lemma_field_bytes(m.sid);
    if let Some(r) = m.reply_to {
        lemma_field_bytes(r);
    }
    let pf = PayloadFrame { fields: fields(msg_header(m)), payload: m.payload };
    lemma_msg_fields(pf, m);
}

/// A SUB command whose subject, queue group and subscription ID are field
/// texts is read back from its bytes as it was written.
pub proof fn law_sub_round_trip(c: SubCommandView)
    requires
        is_field_text(c.subject),
        is_field_text(c.sid),
        c.queue_group matches Some(q) ==> is_field_text(q),
    ensures
        sub_parse(sub_wire(c)) == Ok::<SubCommandView, CommandError>(c),
{
    let a = CMD_SUB@;
    let b = a + tabbed(encode_utf8(c.subject));
    let d = b + tabbed_text(c.queue_group);
    let line = d + tabbed(encode_utf8(c.sid));
    lemma_name(a);
    lemma_tabbed_field(a, c.subject);
    lemma_tabbed_text(b, c.queue_group);
    lemma_tabbed_field(d, c.sid);
    lemma_line_frame(line);
    let f = fields(line);
    assert(f[0] == a);
    assert(f[1] == encode_utf8(c.subject));
    assert(f.last() == encode_utf8(c.sid));
}

/// An UNSUB command whose subscription ID is a field text is read back from
/// its bytes as it was written.
pub proof fn law_unsub_round_trip(c: UnsubCommandView)
    requires
        is_field_text(c.sid),
    ensures
        unsub_parse(unsub_wire(c)) == Ok::<UnsubCommandView, CommandError>(c),
{
    let a = CMD_UNSUB@;
    let b = a + tabbed(encode_utf8(c.sid));
    let line = b + tabbed_count(c.max_msgs);
    lemma_name(a);
    lemma_tabbed_field(a, c.sid);
    match c.max_msgs {
        Some(n) => {
            lemma_tabbed_number(b, n as nat, u32::MAX as nat);
        },
        None => {
            lemma_nothing(b);
        },
    }
    lemma_line_frame(line);
    let f = fields(line);
    assert(f[0] == a);
    assert(f[1] == encode_utf8(c.sid));
}

/// Whether the JSON reader finds in the body of an INFO the members that
/// make this INFO.
pub open spec fn info_reads_back(c: ServerInfoView) -> bool {
    match json_object(tabbed(info_json(c))) {
        Some(members) => info_of_members(members) == Some(c),
        None => false,
    }
}

/// Whether the JSON reader finds in the body of a CONNECT the members that
/// make this CONNECT.
pub open spec fn connect_reads_back(c: ConnectCommandView) -> bool {
    match json_object(tabbed(connect_json(c))) {
        Some(members) => connect_of_members(members) == Some(c),
        None => false,
    }
}

/// An INFO is read back from its bytes as it was written, as far as the
/// JSON reader reads back what the JSON writer wrote.
pub proof fn law_info_round_trip(c: ServerInfoView)
    requires
        info_reads_back(c),
    ensures
        info_parse(info_wire(c)) == Ok::<ServerInfoView, CommandError>(c),
{
    let frame = info_wire(c);
    let body = tabbed(info_json(c));
    lemma_line_frame(CMD_INFO@ + body);
    assert(frame.take(4) =~= CMD_INFO@);
    assert(frame.subrange(4, frame.len() - 2) =~= body);
}

/// A CONNECT is read back from its bytes as it was written, as far as the
/// JSON reader reads back what the JSON writer wrote.
pub proof fn law_connect_round_trip(c: ConnectCommandView)
    requires
        connect_reads_back(c),
    ensures
        connect_parse(connect_wire(c)) == Ok::<ConnectCommandView, CommandError>(c),
{
    let frame = connect_wire(c);
    let body = tabbed(connect_json(c));
    lemma_line_frame(CMD_CONNECT@ + body);
    assert(frame.take(7) =~= CMD_CONNECT@);
    assert(frame.subrange(7, frame.len() - 2) =~= body);
}

/// An `-ERR` is read back from its bytes as it was written, whatever its
/// message holds.
pub proof fn law_err_round_trip(text: Seq<char>)
    ensures
        op_parse(err_wire(text), 4) == Ok::<OpView, CommandError>(OpView::ERR(text)),
{
    let wire = err_wire(text);
    let body = encode_utf8(text);
    lemma_line_frame(CMD_ERR@ + seq![SPACE] + body);
    assert(wire.take(4) =~= CMD_ERR@);
    assert(wire[4] == SPACE);
    assert(wire.subrange(5, wire.len() - 2) =~= body);
    encode_utf8_valid_utf8(text);
    encode_utf8_decode_utf8(text);
    lemma_kinds();
}

/// Whether a message is read back from its bytes as it was written. The
/// texts of a command must be able to stand as fields. Reading and writing
/// JSON is not this crate's own: of an INFO and a CONNECT it is asked that
/// the JSON reader reads back what the JSON writer wrote.
pub open spec fn round_trips(op: OpView) -> bool {
    match op {
        OpView::INFO(c) => info_reads_back(c),
        OpView::CONNECT(c) => connect_reads_back(c),
        OpView::PUB(c) => is_header_text(c.subject) && (c.reply_to matches Some(r)
            ==> is_header_text(r)) && c.payload.len() <= usize::MAX,
        OpView::MSG(m) => is_header_text(m.subject) && is_header_text(m.sid) && (
        m.reply_to matches Some(r) ==> is_header_text(r)) && m.payload.len() <= usize::MAX,
        OpView::SUB(c) => is_field_text(c.subject) && is_field_text(c.sid) && (
        c.queue_group matches Some(q) ==> is_field_text(q)),
        OpView::UNSUB(c) => is_field_text(c.sid),
        OpView::PING => true,
        OpView::PONG => true,
        OpView::OK => true,
        OpView::ERR(_) => true,
    }
}

/// The name that opens a message on the wire.
pub open spec fn name_of(op: OpView) -> Seq<u8> {
    match op {
        OpView::INFO(_) => CMD_INFO@,
        OpView::CONNECT(_) => CMD_CONNECT@,
        OpView::PUB(_) => CMD_PUB@,
        OpView::MSG(_) => CMD_MSG@,
        OpView::SUB(_) => CMD_SUB@,
        OpView::UNSUB(_) => CMD_UNSUB@,
        OpView::PING => CMD_PING@,
        OpView::PONG => CMD_PONG@,
        OpView::OK => CMD_OK@,
        OpView::ERR(_) => CMD_ERR@,
    }
}

/// The command that each name stands for.
pub proof fn lemma_kinds()
    ensures
        kind_of_name(CMD_INFO@) == NameKind::Info,
        kind_of_name(CMD_CONNECT@) == NameKind::Connect,
        kind_of_name(CMD_MSG@) == NameKind::Msg,
        kind_of_name(CMD_PUB@) == NameKind::Pub,
        kind_of_name(CMD_SUB@) == NameKind::Sub,
        kind_of_name(CMD_UNSUB@) == NameKind::Unsub,
        kind_of_name(CMD_PING@) == NameKind::Ping,
        kind_of_name(CMD_PONG@) == NameKind::Pong,
        kind_of_name(CMD_OK@) == NameKind::Ack,
        kind_of_name(CMD_ERR@) == NameKind::Fault,
{
    assert(CMD_MSG@[0] != CMD_INFO@[0]);
    assert(CMD_PUB@[0] != CMD_MSG@[0]);
    assert(CMD_SUB@[0] != CMD_MSG@[0]);
    assert(CMD_SUB@[0] != CMD_PUB@[0]);
    assert(CMD_PING@[0] != CMD_INFO@[0]);
    assert(CMD_PONG@[0] != CMD_INFO@[0]);
    assert(CMD_PONG@[1] != CMD_PING@[1]);
    assert(CMD_OK@[0] != CMD_MSG@[0]);
    assert(CMD_OK@[0] != CMD_PUB@[0]);
    assert(CMD_OK@[0] != CMD_SUB@[0]);
    assert(CMD_ERR@[0] != CMD_INFO@[0]);
    assert(CMD_ERR@[0] != CMD_PING@[0]);
    assert(CMD_ERR@[0] != CMD_PONG@[0]);
}

/// A line that opens with a name opens with it still when more is joined
/// to it.
pub proof fn lemma_opens_with(name: Seq<u8>, line: Seq<u8>, more: Seq<u8>)
    requires
        name.len() <= line.len(),
        line.take(name.len() as int) == name,
    ensures
        name.len() <= (line + more).len(),
        (line + more).take(name.len() as int) == name,
{
    assert((line + more).take(name.len() as int) =~= line.take(name.len() as int));
}

/// The bytes of a message start with its name.
pub proof fn lemma_wire_starts_with_name(op: OpView)
    ensures
        name_of(op).len() <= op_wire(op).len(),
        op_wire(op).take(name_of(op).len() as int) == name_of(op),
        is_command_name(name_of(op)),
{
    let name = name_of(op);
    assert(name.take(name.len() as int) =~= name);
    match op {
        OpView::INFO(c) => {
            lemma_opens_with(name, name, tabbed(info_json(c)));
            lemma_opens_with(name, name + tabbed(info_json(c)), crlf());
        },
        OpView::CONNECT(c) => {
            lemma_opens_with(name, name, tabbed(connect_json(c)));
            lemma_opens_with(name, name + tabbed(connect_json(c)), crlf());
        },
        OpView::PUB(c) => {
            let a = name + tabbed(encode_utf8(c.subject));
            let b = a + tabbed_text(c.reply_to);
            let d = b + tabbed(decimal(c.payload.len()));
            lemma_opens_with(name, name, tabbed(encode_utf8(c.subject)));
            lemma_opens_with(name, a, tabbed_text(c.reply_to));
            lemma_opens_with(name, b, tabbed(decimal(c.payload.len())));
            lemma_opens_with(name, d, crlf());
            lemma_opens_with(name, d + crlf(), c.payload);
            lemma_opens_with(name, d + crlf() + c.payload, crlf());
        },
        OpView::MSG(m) => {
            let a = name + tabbed(encode_utf8(m.subject));
            let a2 = a + tabbed(encode_utf8(m.sid));
            let b = a2 + tabbed_text(m.reply_to);
            let d = b + tabbed(decimal(m.payload.len()));
            lemma_opens_with(name, name, tabbed(encode_utf8(m.subject)));
            lemma_opens_with(name, a, tabbed(encode_utf8(m.sid)));
            lemma_opens_with(name, a2, tabbed_text(m.reply_to));
            lemma_opens_with(name, b, tabbed(decimal(m.payload.len())));
            lemma_opens_with(name, d, crlf());
            lemma_opens_with(name, d + crlf(), m.payload);
            lemma_opens_with(name, d + crlf() + m.payload, crlf());
        },
        OpView::SUB(c) => {
            let a = name + tabbed(encode_utf8(c.subject));
            let b = a + tabbed_text(c.queue_group);
            let d = b + tabbed(encode_utf8(c.sid));
            lemma_opens_with(name, name, tabbed(encode_utf8(c.subject)));
            lemma_opens_with(name, a, tabbed_text(c.queue_group));
            lemma_opens_with(name, b, tabbed(encode_utf8(c.sid)));
            lemma_opens_with(name, d, crlf());
        },
        OpView::UNSUB(c) => {
            let a = name + tabbed(encode_utf8(c.sid));
            let b = a + tabbed_count(c.max_msgs);
            lemma_opens_with(name, name, tabbed(encode_utf8(c.sid)));
            lemma_opens_with(name, a, tabbed_count(c.max_msgs));
            lemma_opens_with(name, b, crlf());
        },
        OpView::PING => {
            lemma_opens_with(name, name, crlf());
        },
        OpView::PONG => {
            lemma_opens_with(name, name, crlf());
        },
        OpView::OK => {
            lemma_opens_with(name, name, crlf());
        },
        OpView::ERR(text) => {
            lemma_opens_with(name, name, seq![SPACE]);
            lemma_opens_with(name, name + seq![SPACE], encode_utf8(text));
            lemma_opens_with(name, name + seq![SPACE] + encode_utf8(text), crlf());
        },
    }
}

proof fn lemma_round_trip_info(c: ServerInfoView)
    requires
        info_reads_back(c),
    ensures
        op_parse(info_wire(c), 4) == Ok::<OpView, CommandError>(OpView::INFO(c)),
{
    lemma_wire_starts_with_name(OpView::INFO(c));
    lemma_kinds();
    law_info_round_trip(c);
}

proof fn lemma_round_trip_connect(c: ConnectCommandView)
    requires
        connect_reads_back(c),
    ensures
        op_parse(connect_wire(c), 7) == Ok::<OpView, CommandError>(OpView::CONNECT(c)),
{
    lemma_wire_starts_with_name(OpView::CONNECT(c));
    lemma_kinds();
    law_connect_round_trip(c);
}

proof fn lemma_round_trip_pub(c: PubCommandView)
    requires
        round_trips(OpView::PUB(c)),
    ensures
        op_parse(pub_wire(c), 3) == Ok::<OpView, CommandError>(OpView::PUB(c)),
{
    lemma_wire_starts_with_name(OpView::PUB(c));
    lemma_kinds();
    law_pub_round_trip(c);
}

proof fn lemma_round_trip_msg(m: MessageView)
    requires
        round_trips(OpView::MSG(m)),
    ensures
        op_parse(msg_wire(m), 3) == Ok::<OpView, CommandError>(OpView::MSG(m)),
{
    lemma_wire_starts_with_name(OpView::MSG(m));
    lemma_kinds();
    law_msg_round_trip(m);
}

proof fn lemma_round_trip_sub(c: SubCommandView)
    requires
        round_trips(OpView::SUB(c)),
    ensures
        op_parse(sub_wire(c), 3) == Ok::<OpView, CommandError>(OpView::SUB(c)),
{
    lemma_wire_starts_with_name(OpView::SUB(c));
    lemma_kinds();
    law_sub_round_trip(c);
}

proof fn lemma_round_trip_unsub(c: UnsubCommandView)
    requires
        round_trips(OpView::UNSUB(c)),
    ensures
        op_parse(unsub_wire(c), 5) == Ok::<OpView, CommandError>(OpView::UNSUB(c)),
{
    lemma_wire_starts_with_name(OpView::UNSUB(c));
    lemma_kinds();
    law_unsub_round_trip(c);
}

proof fn lemma_round_trip_bare(op: OpView)
    requires
        op is PING || op is PONG || op is OK,
    ensures
        op_parse(op_wire(op), name_of(op).len() as int) == Ok::<OpView, CommandError>(op),
{
    lemma_wire_starts_with_name(op);
    lemma_kinds();
}

/// Round trip: a message that is written as bytes and read again, with the
/// length of its name as the place where the name ends, is the message that
/// was written. In particular the payload of a PUB or a MSG comes back byte
/// for byte, line ends included.
pub proof fn law_round_trip(op: OpView)
    requires
        round_trips(op),
    ensures
        op_parse(op_wire(op), name_of(op).len() as int) == Ok::<OpView, CommandError>(op),
{
    match op {
        OpView::INFO(c) => {
            lemma_round_trip_info(c);
        },
        OpView::CONNECT(c) => {
            lemma_round_trip_connect(c);
        },
        OpView::PUB(c) => {
            lemma_round_trip_pub(c);
        },
        OpView::MSG(m) => {
            lemma_round_trip_msg(m);
        },
        OpView::SUB(c) => {
            lemma_round_trip_sub(c);
        },
        OpView::UNSUB(c) => {
            lemma_round_trip_unsub(c);
        },
        OpView::PING => {
            lemma_round_trip_bare(op);
        },
        OpView::PONG => {
            lemma_round_trip_bare(op);
        },
        OpView::OK => {
            lemma_round_trip_bare(op);
        },
        OpView::ERR(text) => {
            law_err_round_trip(text);
        },
    }
}

} // verus!
