//! Laws of the frame codec: the cursor is only a short cut, frames do not
//! depend on how the bytes were cut into chunks, and a command that has not
//! arrived in full is waited for.

use vstd::prelude::*;
use vstd::utf8::encode_utf8;
use crate::codec::{first_blank, first_line_end, has_payload, is_blank, scan, Scan};
use crate::protocol::client::connect::connect_json;
use crate::protocol::client::pub_cmd::{pub_header, PubCommandView};
use crate::protocol::client::sub_cmd::SubCommandView;
use crate::protocol::client::unsub_cmd::UnsubCommandView;
use crate::protocol::error::CommandError;
use crate::protocol::op::{is_command_name, op_parse, op_wire, OpView, SPACE};
use crate::protocol::round_trip::{
    law_round_trip, lemma_decimal_field, lemma_name, lemma_no_cr, lemma_nothing, name_of,
    round_trips,
};
use crate::protocol::server::info::info_json;
use crate::protocol::server::message::{msg_header, MessageView};
use crate::protocol::wire::{
    crlf, tabbed, tabbed_count, tabbed_text, CMD_MSG, CMD_PUB, CMD_SUB, CMD_UNSUB, CR, LF, TAB,
};
use crate::text::{decimal, lemma_ascii_byte_occurs};

verus! {

/// A cursor that the codec may hold for a buffer: it lies inside the
/// buffer, and no blank stands before it.
pub open spec fn cursor_ok(content: Seq<u8>, cursor: int) -> bool {
    0 <= cursor <= content.len() && forall|i: int|
        0 <= i < cursor ==> !is_blank(#[trigger] content[i])
}

/// `at` is the place of the first blank at or behind `from`, or the length
/// if there is none.
pub proof fn lemma_first_blank(content: Seq<u8>, from: int, at: int)
    requires
        0 <= from <= at <= content.len(),
        forall|i: int| from <= i < at ==> !is_blank(#[trigger] content[i]),
        at < content.len() ==> is_blank(content[at]),
    ensures
        first_blank(content, from) == at,
    decreases at - from,
{
    if from < at {
        lemma_first_blank(content, from + 1, at);
    }
}

/// Where the first blank is said to be, it is; and before it, behind
/// `from`, there is none.
pub proof fn lemma_first_blank_found(content: Seq<u8>, from: int)
    requires
        0 <= from <= content.len(),
    ensures
        from <= first_blank(content, from) <= content.len(),
        forall|i: int|
            from <= i < first_blank(content, from) ==> !is_blank(#[trigger] content[i]),
        first_blank(content, from) < content.len() ==> is_blank(
            content[first_blank(content, from)],
        ),
    decreases content.len() - from,
{
    if from < content.len() && !is_blank(content[from]) {
        lemma_first_blank_found(content, from + 1);
    }
}

/// Whether a line end starts at `i`.
pub open spec fn line_end_at(content: Seq<u8>, i: int) -> bool {
    0 <= i && i + 1 < content.len() && content[i] == CR && content[i + 1] == LF
}

/// `at` is the place of the first line end at or behind `from`, or the
/// length if there is none.
pub proof fn lemma_first_line_end(content: Seq<u8>, from: int, at: int)
    requires
        0 <= from <= at <= content.len(),
        forall|i: int| from <= i < at ==> !line_end_at(content, i),
        at < content.len() ==> line_end_at(content, at),
    ensures
        first_line_end(content, from) == at,
    decreases content.len() - from,
{
    if from + 1 >= content.len() {
        if at < content.len() {
            assert(line_end_at(content, at));
        }
    } else if content[from] == CR && content[from + 1] == LF {
        assert(line_end_at(content, from));
    } else {
        if at == from {
            assert(line_end_at(content, at));
        }
        lemma_first_line_end(content, from + 1, at);
    }
}

/// Where the first line end is said to be, it is; and before it, behind
/// `from`, there is none.
pub proof fn lemma_first_line_end_found(content: Seq<u8>, from: int)
    requires
        0 <= from <= content.len(),
    ensures
        from <= first_line_end(content, from) <= content.len(),
        forall|i: int|
            from <= i < first_line_end(content, from) ==> !line_end_at(content, i),
        first_line_end(content, from) < content.len() ==> line_end_at(
            content,
            first_line_end(content, from),
        ),
    decreases content.len() - from,
{
    if from + 1 >= content.len() {
    } else if content[from] == CR && content[from + 1] == LF {
    } else {
        lemma_first_line_end_found(content, from + 1);
    }
}

/// The cursor is a short cut and no more: from a cursor that the codec may
/// hold, the search finds the frame that a search from the start finds; and
/// where it finds none, the cursor that it leaves is one that the codec may
/// hold, also once more bytes have come.
pub proof fn law_cursor_is_a_short_cut(content: Seq<u8>, cursor: int)
    requires
        cursor_ok(content, cursor),
    ensures
        match scan(content, cursor) {
            Scan::Frame { name_end, end } => scan(content, 0) == (Scan::Frame { name_end, end })
                && 0 <= name_end < end <= content.len(),
            Scan::NeedMore { cursor: next } => scan(content, 0) is NeedMore && cursor_ok(
                content,
                next,
            ),
        },
{
    if content.len() > 0 {
        lemma_first_blank_found(content, cursor);
        lemma_first_blank_found(content, 0);
        let at = first_blank(content, cursor);
        lemma_first_blank(content, 0, at);
        if at < content.len() {
            lemma_first_line_end_found(content, at);
            let header_end = first_line_end(content, at);
            if header_end < content.len() {
                lemma_first_line_end_found(content, header_end + 2);
            }
        }
    }
}

/// A frame that the buffer holds stays the frame at its front when more
/// bytes come.
pub proof fn law_frames_are_stable(content: Seq<u8>, more: Seq<u8>)
    ensures
        scan(content, 0) matches Scan::Frame { name_end, end } ==> scan(content + more, 0) == (
        Scan::Frame { name_end, end }),
{
    let longer = content + more;
    if let Scan::Frame { name_end, end } = scan(content, 0) {
        lemma_first_blank_found(content, 0);
        let at = first_blank(content, 0);
        assert forall|i: int| 0 <= i < at implies !is_blank(#[trigger] longer[i]) by {
            assert(longer[i] == content[i]);
        }
        assert(longer[at] == content[at]);
        lemma_first_blank(longer, 0, at);
        assert(longer.take(at) =~= content.take(at));
        lemma_first_line_end_found(content, at);
        let header_end = first_line_end(content, at);
        assert forall|i: int| at <= i < header_end implies !line_end_at(longer, i) by {
            assert(!line_end_at(content, i));
            assert(longer[i] == content[i]);
            assert(longer[i + 1] == content[i + 1]);
        }
        assert(line_end_at(longer, header_end)) by {
            assert(longer[header_end] == content[header_end]);
            assert(longer[header_end + 1] == content[header_end + 1]);
        }
        lemma_first_line_end(longer, at, header_end);
        if has_payload(content.take(at)) {
            lemma_first_line_end_found(content, header_end + 2);
            let payload_end = first_line_end(content, header_end + 2);
            assert forall|i: int| header_end + 2 <= i < payload_end implies !line_end_at(
                longer,
                i,
            ) by {
                assert(!line_end_at(content, i));
                assert(longer[i] == content[i]);
                assert(longer[i + 1] == content[i + 1]);
            }
            assert(line_end_at(longer, payload_end)) by {
                assert(longer[payload_end] == content[payload_end]);
                assert(longer[payload_end + 1] == content[payload_end + 1]);
            }
            lemma_first_line_end(longer, header_end + 2, payload_end);
        }
    }
}

/// What the codec holds between two calls: its buffer and its cursor.
pub struct CodecState {
    pub buffer: Seq<u8>,
    pub cursor: int,
}

/// A frame as the codec hands it to the reader of commands: its bytes, and
/// where the command's name ends.
pub struct Frame {
    pub bytes: Seq<u8>,
    pub name_end: int,
}

/// The frames that the codec takes off its buffer when it is asked until it
/// needs more, and what it holds then.
pub open spec fn drain(s: CodecState) -> (Seq<Frame>, CodecState)
    decreases s.buffer.len(),
{
    match scan(s.buffer, s.cursor) {
        Scan::NeedMore { cursor } => (Seq::empty(), CodecState { buffer: s.buffer, cursor }),
        Scan::Frame { name_end, end } => if 0 < end <= s.buffer.len() {
            let rest = drain(CodecState { buffer: s.buffer.skip(end), cursor: 0 });
            (seq![Frame { bytes: s.buffer.take(end), name_end }] + rest.0, rest.1)
        } else {
            (Seq::empty(), s)
        },
    }
}

/// The frames that the codec hands out when the chunks arrive one by one
/// and it is asked after each until it needs more, and what it holds in the
/// end.
pub open spec fn feed(s: CodecState, chunks: Seq<Seq<u8>>) -> (Seq<Frame>, CodecState)
    decreases chunks.len(),
{
    if chunks.len() == 0 {
        (Seq::empty(), s)
    } else {
        let first = drain(CodecState { buffer: s.buffer + chunks[0], cursor: s.cursor });
        let rest = feed(first.1, chunks.drop_first());
        (first.0 + rest.0, rest.1)
    }
}

/// The chunks, one behind the other.
pub open spec fn joined(chunks: Seq<Seq<u8>>) -> Seq<u8>
    decreases chunks.len(),
{
    if chunks.len() == 0 {
        Seq::empty()
    } else {
        chunks[0] + joined(chunks.drop_first())
    }
}

/// A buffer in which the codec finds no frame.
pub open spec fn settled(buffer: Seq<u8>) -> bool {
    scan(buffer, 0) is NeedMore
}

/// Draining from a cursor that the codec may hold gives the frames that
/// draining from the start gives, and leaves the same bytes, with a cursor
/// that the codec may hold and no frame among them.
pub proof fn lemma_drain_from_cursor(s: CodecState)
    requires
        cursor_ok(s.buffer, s.cursor),
    ensures
        drain(s).0 == drain(CodecState { buffer: s.buffer, cursor: 0 }).0,
        drain(s).1.buffer == drain(CodecState { buffer: s.buffer, cursor: 0 }).1.buffer,
        cursor_ok(drain(s).1.buffer, drain(s).1.cursor),
        settled(drain(s).1.buffer),
    decreases s.buffer.len(),
{
    law_cursor_is_a_short_cut(s.buffer, s.cursor);
    match scan(s.buffer, s.cursor) {
        Scan::NeedMore { cursor } => {},
        Scan::Frame { name_end, end } => {
            lemma_drain_from_cursor(CodecState { buffer: s.buffer.skip(end), cursor: 0 });
        },
    }
}

/// Draining a buffer that has grown gives the frames of the buffer as it
/// was, then the frames of what was left with the new bytes behind it.
pub proof fn lemma_drain_grown(buffer: Seq<u8>, more: Seq<u8>)
    ensures
        ({
            let before = drain(CodecState { buffer, cursor: 0 });
            let after = drain(CodecState { buffer: before.1.buffer + more, cursor: 0 });
            let whole = drain(CodecState { buffer: buffer + more, cursor: 0 });
            whole.0 == before.0 + after.0 && whole.1.buffer == after.1.buffer
        }),
    decreases buffer.len(),
{
    let before = drain(CodecState { buffer, cursor: 0 });
    let after = drain(CodecState { buffer: before.1.buffer + more, cursor: 0 });
    let whole = drain(CodecState { buffer: buffer + more, cursor: 0 });
    assert(cursor_ok(buffer, 0));
    law_cursor_is_a_short_cut(buffer, 0);
    match scan(buffer, 0) {
        Scan::NeedMore { cursor } => {
            assert(before.0 + after.0 =~= after.0);
        },
        Scan::Frame { name_end, end } => {
            law_frames_are_stable(buffer, more);
            let rest = buffer.skip(end);
            lemma_drain_grown(rest, more);
            assert((buffer + more).skip(end) =~= rest + more);
            assert((buffer + more).take(end) =~= buffer.take(end));
            let head = seq![Frame { bytes: buffer.take(end), name_end }];
            let rest_before = drain(CodecState { buffer: rest, cursor: 0 });
            assert(before.0 == head + rest_before.0);
            assert(head + (rest_before.0 + after.0) =~= (head + rest_before.0) + after.0);
        },
    }
}

/// Chunks do not matter: from a state that the codec may be in between two
/// calls, frames and leftover are those of one search through all the bytes
/// at once.
pub proof fn lemma_feed(s: CodecState, chunks: Seq<Seq<u8>>)
    requires
        cursor_ok(s.buffer, s.cursor),
        settled(s.buffer),
    ensures
        feed(s, chunks).0 == drain(
            CodecState { buffer: s.buffer + joined(chunks), cursor: 0 },
        ).0,
        feed(s, chunks).1.buffer == drain(
            CodecState { buffer: s.buffer + joined(chunks), cursor: 0 },
        ).1.buffer,
    decreases chunks.len(),
{
    if chunks.len() == 0 {
        assert(s.buffer + joined(chunks) =~= s.buffer);
    } else {
        let grown = CodecState { buffer: s.buffer + chunks[0], cursor: s.cursor };
        assert(cursor_ok(grown.buffer, grown.cursor)) by {
            assert forall|i: int| 0 <= i < grown.cursor implies !is_blank(
                #[trigger] grown.buffer[i],
            ) by {
                assert(grown.buffer[i] == s.buffer[i]);
            }
        }
        lemma_drain_from_cursor(grown);
        let first = drain(grown);
        lemma_feed(first.1, chunks.drop_first());
        let tail = joined(chunks.drop_first());
        lemma_drain_grown(grown.buffer, tail);
        assert(grown.buffer + tail =~= s.buffer + joined(chunks));
    }
}

/// Streaming: whatever the sizes of the chunks in which a stream of bytes
/// reaches a fresh codec, the frames that the codec hands out, and so the
/// messages that are read from them, are those that it hands out when all
/// the bytes come at once; and it is left with the same bytes.
pub proof fn law_chunks_do_not_matter(chunks: Seq<Seq<u8>>)
    ensures
        feed(CodecState { buffer: Seq::empty(), cursor: 0 }, chunks).0 == drain(
            CodecState { buffer: joined(chunks), cursor: 0 },
        ).0,
        feed(CodecState { buffer: Seq::empty(), cursor: 0 }, chunks).1.buffer == drain(
            CodecState { buffer: joined(chunks), cursor: 0 },
        ).1.buffer,
{
    let fresh = CodecState { buffer: Seq::empty(), cursor: 0 };
    lemma_feed(fresh, chunks);
    assert(fresh.buffer + joined(chunks) =~= joined(chunks));
}

/// A command without payload, arriving: a line that opens with a name, and
/// a line end. While a byte is missing the codec finds no frame; once all
/// are there it finds the frame, whole.
pub proof fn lemma_line_arrives(name: Seq<u8>, line: Seq<u8>, k: int, cursor: int)
    requires
        is_command_name(name),
        !has_payload(name),
        name.len() <= line.len(),
        line.take(name.len() as int) == name,
        line.len() > name.len() ==> is_blank(line[name.len() as int]),
        !line.contains(CR),
        0 <= k <= (line + crlf()).len(),
        cursor_ok((line + crlf()).take(k), cursor),
    ensures
        k < (line + crlf()).len() ==> scan((line + crlf()).take(k), cursor) is NeedMore,
        k == (line + crlf()).len() ==> scan((line + crlf()).take(k), cursor) == (Scan::Frame {
            name_end: name.len() as int,
            end: k,
        }),
{
    let w = line + crlf();
    let p = w.take(k);
    let n = name.len() as int;
    let h = line.len() as int;
    lemma_name(name);
    assert forall|i: int| 0 <= i < n implies !is_blank(#[trigger] w[i]) by {
        assert(w[i] == line.take(n)[i]);
        if name[i] == CR {
            assert(name.contains(CR));
        }
    }
    assert forall|i: int| 0 <= i < h implies w[i] != CR by {
        assert(w[i] == line[i]);
        if line[i] == CR {
            assert(line.contains(CR));
        }
    }
    assert(w[h] == CR && w[h + 1] == LF);
    assert(is_blank(w[n])) by {
        if h > n {
            assert(w[n] == line[n]);
        }
    }
    if k == 0 {
    } else if k <= n {
        assert forall|i: int| cursor <= i < k implies !is_blank(#[trigger] p[i]) by {
            assert(p[i] == w[i]);
        }
        lemma_first_blank(p, cursor, k);
    } else {
        assert(p[n] == w[n]);
        assert(cursor <= n) by {
            if cursor > n {
                assert(!is_blank(p[n]));
            }
        }
        assert forall|i: int| cursor <= i < n implies !is_blank(#[trigger] p[i]) by {
            assert(p[i] == w[i]);
        }
        lemma_first_blank(p, cursor, n);
        assert(p.take(n) =~= name) by {
            assert forall|i: int| 0 <= i < n implies p.take(n)[i] == name[i] by {
                assert(p[i] == w[i]);
                assert(w[i] == line.take(n)[i]);
            }
        }
        if k < w.len() {
            assert forall|i: int| n <= i < k implies !line_end_at(p, i) by {
                if i + 1 < k {
                    assert(p[i] == w[i]);
                }
            }
            lemma_first_line_end(p, n, k);
        } else {
            assert(p =~= w);
            assert forall|i: int| n <= i < h implies !line_end_at(w, i) by {}
            assert(line_end_at(w, h));
            lemma_first_line_end(w, n, h);
        }
    }
}

/// A command with a payload, arriving: a header line that opens with a
/// name, a line end, the payload and a line end. While a byte is missing
/// the codec finds no frame; once all are there it finds the frame, whole.
pub proof fn lemma_payload_arrives(
    name: Seq<u8>,
    line: Seq<u8>,
    payload: Seq<u8>,
    k: int,
    cursor: int,
)
    requires
        is_command_name(name),
        has_payload(name),
        name.len() < line.len(),
        line.take(name.len() as int) == name,
        is_blank(line[name.len() as int]),
        !line.contains(CR),
        forall|i: int| !line_end_at(payload, i),
        0 <= k <= (line + crlf() + payload + crlf()).len(),
        cursor_ok((line + crlf() + payload + crlf()).take(k), cursor),
    ensures
        k < (line + crlf() + payload + crlf()).len() ==> scan(
            (line + crlf() + payload + crlf()).take(k),
            cursor,
        ) is NeedMore,
        k == (line + crlf() + payload + crlf()).len() ==> scan(
            (line + crlf() + payload + crlf()).take(k),
            cursor,
        ) == (Scan::Frame { name_end: name.len() as int, end: k }),
{
    let w = line + crlf() + payload + crlf();
    let p = w.take(k);
    let n = name.len() as int;
    let h = line.len() as int;
    let f = h + 2 + payload.len();
    lemma_name(name);
    assert forall|i: int| 0 <= i < n implies !is_blank(#[trigger] w[i]) by {
        assert(w[i] == line.take(n)[i]);
        if name[i] == CR {
            assert(name.contains(CR));
        }
    }
    assert forall|i: int| 0 <= i < h implies w[i] != CR by {
        assert(w[i] == line[i]);
        if line[i] == CR {
            assert(line.contains(CR));
        }
    }
    assert(w[h] == CR && w[h + 1] == LF);
    assert(w[f] == CR && w[f + 1] == LF);
    assert(is_blank(w[n])) by {
        assert(w[n] == line[n]);
    }
    assert forall|i: int| h + 2 <= i < f implies !line_end_at(w, i) by {
        assert(w[i] == payload[i - h - 2]);
        if i + 1 < f {
            assert(w[i + 1] == payload[i + 1 - h - 2]);
            assert(!line_end_at(payload, i - h - 2));
        }
    }
    if k == 0 {
    } else if k <= n {
        assert forall|i: int| cursor <= i < k implies !is_blank(#[trigger] p[i]) by {
            assert(p[i] == w[i]);
        }
        lemma_first_blank(p, cursor, k);
    } else {
        assert(p[n] == w[n]);
        assert(cursor <= n) by {
            if cursor > n {
                assert(!is_blank(p[n]));
            }
        }
        assert forall|i: int| cursor <= i < n implies !is_blank(#[trigger] p[i]) by {
            assert(p[i] == w[i]);
        }
        lemma_first_blank(p, cursor, n);
        assert(p.take(n) =~= name) by {
            assert forall|i: int| 0 <= i < n implies p.take(n)[i] == name[i] by {
                assert(p[i] == w[i]);
                assert(w[i] == line.take(n)[i]);
            }
        }
        if k < h + 2 {
            assert forall|i: int| n <= i < k implies !line_end_at(p, i) by {
                if i + 1 < k {
                    assert(p[i] == w[i]);
                }
            }
            lemma_first_line_end(p, n, k);
        } else {
            assert forall|i: int| n <= i < h implies !line_end_at(p, i) by {
                assert(p[i] == w[i]);
            }
            assert(line_end_at(p, h)) by {
                assert(p[h] == w[h]);
                assert(p[h + 1] == w[h + 1]);
            }
            lemma_first_line_end(p, n, h);
            if k < w.len() {
                assert forall|i: int| h + 2 <= i < k implies !line_end_at(p, i) by {
                    if i + 1 < k {
                        assert(p[i] == w[i]);
                        assert(p[i + 1] == w[i + 1]);
                        if i < f {
                            assert(!line_end_at(w, i));
                        }
                    }
                }
                lemma_first_line_end(p, h + 2, k);
            } else {
                assert(p =~= w);
                assert(line_end_at(w, f));
                lemma_first_line_end(w, h + 2, f);
            }
        }
    }
}

/// Whether a text holds no carriage return, where there is a text.
pub open spec fn no_cr(text: Option<Seq<char>>) -> bool {
    match text {
        Some(t) => !t.contains('\r'),
        None => true,
    }
}

/// Whether the bytes of a message show where the message ends: no text of
/// it holds a carriage return, and no line end stands inside its payload.
/// The JSON of an INFO or a CONNECT must be free of carriage returns as
/// well.
pub open spec fn frames_cleanly(op: OpView) -> bool {
    match op {
        OpView::INFO(c) => !info_json(c).contains(CR),
        OpView::CONNECT(c) => !connect_json(c).contains(CR),
        OpView::PUB(c) => !c.subject.contains('\r') && no_cr(c.reply_to) && forall|i: int|
            !line_end_at(c.payload, i),
        OpView::MSG(m) => !m.subject.contains('\r') && !m.sid.contains('\r') && no_cr(m.reply_to)
            && forall|i: int| !line_end_at(m.payload, i),
        OpView::SUB(c) => !c.subject.contains('\r') && !c.sid.contains('\r') && no_cr(
            c.queue_group,
        ),
        OpView::UNSUB(c) => !c.sid.contains('\r'),
        OpView::PING => true,
        OpView::PONG => true,
        OpView::OK => true,
        OpView::ERR(text) => !text.contains('\r'),
    }
}

/// A piece that joins a line which opens with a name: the line opens with
/// the name still, the byte behind the name stays, and no carriage return
/// comes in that the piece does not hold.
pub proof fn lemma_joins(name: Seq<u8>, line: Seq<u8>, piece: Seq<u8>)
    requires
        name.len() <= line.len(),
        line.take(name.len() as int) == name,
    ensures
        name.len() <= (line + piece).len(),
        (line + piece).take(name.len() as int) == name,
        line.len() > name.len() ==> (line + piece)[name.len() as int] == line[name.len() as int],
        line.len() == name.len() && piece.len() > 0 ==> (line + piece)[name.len() as int]
            == piece[0],
        !line.contains(CR) && !piece.contains(CR) ==> !(line + piece).contains(CR),
{
    assert((line + piece).take(name.len() as int) =~= line.take(name.len() as int));
    if !line.contains(CR) && !piece.contains(CR) {
        lemma_no_cr(line, piece);
    }
}

/// A tab and a field hold a carriage return only if the field holds one,
/// and start with a blank.
pub proof fn lemma_tabbed_piece(field: Seq<u8>)
    ensures
        tabbed(field).len() > 0,
        is_blank(tabbed(field)[0]),
        !field.contains(CR) ==> !tabbed(field).contains(CR),
{
    let tab = seq![TAB];
    assert(tabbed(field)[0] == TAB);
    if tab.contains(CR) {
        let i = choose|i: int| 0 <= i < tab.len() && tab[i] == CR;
        assert(tab[i] == TAB);
    }
    if !field.contains(CR) {
        lemma_no_cr(tab, field);
    }
}

/// A tab and a text hold no carriage return if the text holds none.
pub proof fn lemma_tabbed_text_piece(text: Option<Seq<char>>)
    requires
        no_cr(text),
    ensures
        !tabbed_text(text).contains(CR),
        tabbed_text(text).len() > 0 ==> is_blank(tabbed_text(text)[0]),
{
    match text {
        Some(t) => {
            lemma_ascii_byte_occurs(t, 0x0du8);
            lemma_tabbed_piece(encode_utf8(t));
        },
        None => {
            lemma_nothing(Seq::empty());
        },
    }
}

/// A tab and a text hold no carriage return if the text holds none.
pub proof fn lemma_tabbed_field_piece(text: Seq<char>)
    requires
        !text.contains('\r'),
    ensures
        !tabbed(encode_utf8(text)).contains(CR),
        tabbed(encode_utf8(text)).len() > 0,
        is_blank(tabbed(encode_utf8(text))[0]),
{
    lemma_ascii_byte_occurs(text, 0x0du8);
    lemma_tabbed_piece(encode_utf8(text));
}

/// A tab and a number hold no carriage return.
pub proof fn lemma_tabbed_number_piece(n: nat)
    ensures
        !tabbed(decimal(n)).contains(CR),
        is_blank(tabbed(decimal(n))[0]),
{
    lemma_decimal_field(n, n);
    lemma_tabbed_piece(decimal(n));
}

/// What `law_message_arrives` says, of one message.
pub open spec fn arrives(op: OpView, k: int, cursor: int) -> bool {
    &&& k < op_wire(op).len() ==> scan(op_wire(op).take(k), cursor) is NeedMore
    &&& k == op_wire(op).len() ==> scan(op_wire(op).take(k), cursor) == (Scan::Frame {
        name_end: name_of(op).len() as int,
        end: k,
    })
}

proof fn lemma_start(name: Seq<u8>)
    requires
        is_command_name(name),
    ensures
        name.take(name.len() as int) == name,
        !name.contains(CR),
{
    assert(name.take(name.len() as int) =~= name);
    lemma_name(name);
}

proof fn lemma_json_arrives(op: OpView, json: Seq<u8>, k: int, cursor: int)
    requires
        op is INFO || op is CONNECT,
        op_wire(op) == name_of(op) + tabbed(json) + crlf(),
        !json.contains(CR),
        0 <= k <= op_wire(op).len(),
        cursor_ok(op_wire(op).take(k), cursor),
    ensures
        arrives(op, k, cursor),
{
    let name = name_of(op);
    lemma_start(name);
    lemma_tabbed_piece(json);
    lemma_joins(name, name, tabbed(json));
    lemma_line_arrives(name, name + tabbed(json), k, cursor);
}

proof fn lemma_bare_arrives(op: OpView, k: int, cursor: int)
    requires
        op is PING || op is PONG || op is OK,
        0 <= k <= op_wire(op).len(),
        cursor_ok(op_wire(op).take(k), cursor),
    ensures
        arrives(op, k, cursor),
{
    let name = name_of(op);
    lemma_start(name);
    lemma_line_arrives(name, name, k, cursor);
}

proof fn lemma_err_arrives(text: Seq<char>, k: int, cursor: int)
    requires
        !text.contains('\r'),
        0 <= k <= op_wire(OpView::ERR(text)).len(),
        cursor_ok(op_wire(OpView::ERR(text)).take(k), cursor),
    ensures
        arrives(OpView::ERR(text), k, cursor),
{
    let op = OpView::ERR(text);
    let name = name_of(op);
    let space = seq![SPACE];
    lemma_start(name);
    lemma_ascii_byte_occurs(text, 0x0du8);
    if space.contains(CR) {
        let i = choose|i: int| 0 <= i < space.len() && space[i] == CR;
        assert(space[i] == SPACE);
    }
    assert(space[0] == SPACE);
    lemma_joins(name, name, space);
    lemma_joins(name, name + space, encode_utf8(text));
    lemma_line_arrives(name, name + space + encode_utf8(text), k, cursor);
}

proof fn lemma_pub_arrives(c: PubCommandView, k: int, cursor: int)
    requires
        frames_cleanly(OpView::PUB(c)),
        0 <= k <= op_wire(OpView::PUB(c)).len(),
        cursor_ok(op_wire(OpView::PUB(c)).take(k), cursor),
    ensures
        arrives(OpView::PUB(c), k, cursor),
{
    let name = CMD_PUB@;
    let a = name + tabbed(encode_utf8(c.subject));
    let b = a + tabbed_text(c.reply_to);
    lemma_start(name);
    lemma_tabbed_field_piece(c.subject);
    lemma_tabbed_text_piece(c.reply_to);
    lemma_tabbed_number_piece(c.payload.len());
    lemma_joins(name, name, tabbed(encode_utf8(c.subject)));
    lemma_joins(name, a, tabbed_text(c.reply_to));
    lemma_joins(name, b, tabbed(decimal(c.payload.len())));
    lemma_payload_arrives(name, pub_header(c), c.payload, k, cursor);
}

proof fn lemma_msg_arrives(m: MessageView, k: int, cursor: int)
    requires
        frames_cleanly(OpView::MSG(m)),
        0 <= k <= op_wire(OpView::MSG(m)).len(),
        cursor_ok(op_wire(OpView::MSG(m)).take(k), cursor),
    ensures
        arrives(OpView::MSG(m), k, cursor),
{
    let name = CMD_MSG@;
    let a = name + tabbed(encode_utf8(m.subject));
    let b = a + tabbed(encode_utf8(m.sid));
    let d = b + tabbed_text(m.reply_to);
    lemma_start(name);
    lemma_tabbed_field_piece(m.subject);
    lemma_tabbed_field_piece(m.sid);
    lemma_tabbed_text_piece(m.reply_to);
    lemma_tabbed_number_piece(m.payload.len());
    lemma_joins(name, name, tabbed(encode_utf8(m.subject)));
    lemma_joins(name, a, tabbed(encode_utf8(m.sid)));
    lemma_joins(name, b, tabbed_text(m.reply_to));
    lemma_joins(name, d, tabbed(decimal(m.payload.len())));
    lemma_payload_arrives(name, msg_header(m), m.payload, k, cursor);
}

proof fn lemma_sub_arrives(c: SubCommandView, k: int, cursor: int)
    requires
        frames_cleanly(OpView::SUB(c)),
        0 <= k <= op_wire(OpView::SUB(c)).len(),
        cursor_ok(op_wire(OpView::SUB(c)).take(k), cursor),
    ensures
        arrives(OpView::SUB(c), k, cursor),
{
    let name = CMD_SUB@;
    let a = name + tabbed(encode_utf8(c.subject));
    let b = a + tabbed_text(c.queue_group);
    let line = b + tabbed(encode_utf8(c.sid));
    lemma_start(name);
    lemma_tabbed_field_piece(c.subject);
    lemma_tabbed_text_piece(c.queue_group);
    lemma_tabbed_field_piece(c.sid);
    lemma_joins(name, name, tabbed(encode_utf8(c.subject)));
    lemma_joins(name, a, tabbed_text(c.queue_group));
    lemma_joins(name, b, tabbed(encode_utf8(c.sid)));
    lemma_line_arrives(name, line, k, cursor);
}

proof fn lemma_unsub_arrives(c: UnsubCommandView, k: int, cursor: int)
    requires
        frames_cleanly(OpView::UNSUB(c)),
        0 <= k <= op_wire(OpView::UNSUB(c)).len(),
        cursor_ok(op_wire(OpView::UNSUB(c)).take(k), cursor),
    ensures
        arrives(OpView::UNSUB(c), k, cursor),
{
    let name = CMD_UNSUB@;
    let a = name + tabbed(encode_utf8(c.sid));
    let line = a + tabbed_count(c.max_msgs);
    lemma_start(name);
    lemma_tabbed_field_piece(c.sid);
    match c.max_msgs {
        Some(n) => {
            lemma_tabbed_number_piece(n as nat);
        },
        None => {
            lemma_nothing(a);
        },
    }
    lemma_joins(name, name, tabbed(encode_utf8(c.sid)));
    lemma_joins(name, a, tabbed_count(c.max_msgs));
    lemma_line_arrives(name, line, k, cursor);
}

/// Arrival: while a byte of a message is missing, the codec asks for more,
/// whatever cursor it holds; once the last byte is there, it finds the
/// message as one frame, with the name's end where the name ends.
pub proof fn law_message_arrives(op: OpView, k: int, cursor: int)
    requires
        frames_cleanly(op),
        0 <= k <= op_wire(op).len(),
        cursor_ok(op_wire(op).take(k), cursor),
    ensures
        k < op_wire(op).len() ==> scan(op_wire(op).take(k), cursor) is NeedMore,
        k == op_wire(op).len() ==> scan(op_wire(op).take(k), cursor) == (Scan::Frame {
            name_end: name_of(op).len() as int,
            end: k,
        }),
{
    match op {
        OpView::INFO(c) => {
            lemma_json_arrives(op, info_json(c), k, cursor);
        },
        OpView::CONNECT(c) => {
            lemma_json_arrives(op, connect_json(c), k, cursor);
        },
        OpView::PUB(c) => {
            lemma_pub_arrives(c, k, cursor);
        },
        OpView::MSG(m) => {
            lemma_msg_arrives(m, k, cursor);
        },
        OpView::SUB(c) => {
            lemma_sub_arrives(c, k, cursor);
        },
        OpView::UNSUB(c) => {
            lemma_unsub_arrives(c, k, cursor);
        },
        OpView::PING => {
            lemma_bare_arrives(op, k, cursor);
        },
        OpView::PONG => {
            lemma_bare_arrives(op, k, cursor);
        },
        OpView::OK => {
            lemma_bare_arrives(op, k, cursor);
        },
        OpView::ERR(text) => {
            lemma_err_arrives(text, k, cursor);
        },
    }
}

/// Through the codec and back: the bytes of a message whose texts can stand
/// as fields and whose end shows are found by the codec as one frame, and
/// the frame is read as the message that was written.
pub proof fn law_codec_round_trip(op: OpView, cursor: int)
    requires
        round_trips(op),
        frames_cleanly(op),
        cursor_ok(op_wire(op), cursor),
    ensures
        scan(op_wire(op), cursor) == (Scan::Frame {
            name_end: name_of(op).len() as int,
            end: op_wire(op).len() as int,
        }),
        op_parse(op_wire(op).take(op_wire(op).len() as int), name_of(op).len() as int) == Ok::<
            OpView,
            CommandError,
        >(op),
{
    let wire = op_wire(op);
    assert(wire.take(wire.len() as int) =~= wire);
    law_message_arrives(op, wire.len() as int, cursor);
    law_round_trip(op);
}

} // verus!
