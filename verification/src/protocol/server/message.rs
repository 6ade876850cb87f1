use vstd::prelude::*;
use vstd::slice::slice_subrange;
use vstd::utf8::encode_utf8;
use bytes::Bytes;
use crate::buf::bytes_content;
use crate::protocol::builder::{
    check_optional_part, first_refusal, missing, missing_words, optional_refusal, Part,
};
use crate::protocol::client::pub_cmd::flat_text;
use crate::protocol::Command;
use crate::protocol::error::CommandError;
use crate::protocol::wire::{
    check_payload_header, crlf, field_text, push_field, push_line_end, push_number,
    push_optional_text, read_payload_header, read_text, split_payload_frame, start_line, tabbed,
    tabbed_text, CMD_MSG,
};
use crate::text::opt_text;
use crate::text::{append, decimal};

verus! {

/// The MSG protocol message is used to deliver an application message to the client.
#[derive(Debug, Clone, PartialEq)]
pub struct Message {
    /// Subject name this message was received on
    pub subject: String,
    /// The unique alphanumeric subscription ID of the subject
    pub sid: String,
    /// The inbox subject on which the publisher is listening for responses
    pub reply_to: Option<String>,
    /// The message payload data
    pub payload: Bytes,
}

/// A delivered message as plain values.
pub struct MessageView {
    pub subject: Seq<char>,
    pub sid: Seq<char>,
    pub reply_to: Option<Seq<char>>,
    pub payload: Seq<u8>,
}

impl View for Message {
    type V = MessageView;

    open spec fn view(&self) -> MessageView {
        MessageView {
            subject: self.subject@,
            sid: self.sid@,
            reply_to: match self.reply_to {
                Some(r) => Some(r@),
                None => None,
            },
            payload: bytes_content(self.payload),
        }
    }
}

/// The header line of a MSG command:
/// `MSG\t<subject>\t<sid>[\t<reply_to>]\t<n>`
pub open spec fn msg_header(m: MessageView) -> Seq<u8> {
    CMD_MSG@ + tabbed(encode_utf8(m.subject)) + tabbed(encode_utf8(m.sid)) + tabbed_text(
        m.reply_to,
    ) + tabbed(decimal(m.payload.len()))
}

/// `MSG\t<subject>\t<sid>[\t<reply_to>]\t<n>\r\n<n bytes>\r\n`
pub open spec fn msg_wire(m: MessageView) -> Seq<u8> {
    msg_header(m) + crlf() + m.payload + crlf()
}

/// What a frame reads as, taken as a MSG command: the header must hold the
/// name, a subject, a subscription ID, optionally a reply subject, and the
/// payload's length. Fields behind the reply subject and before the length
/// are passed over.
pub open spec fn msg_parse(frame: Seq<u8>) -> Result<MessageView, CommandError> {
    match split_payload_frame(frame) {
        Err(e) => Err(e),
        Ok(pf) => match check_payload_header(pf, CMD_MSG@) {
            Err(e) => Err(e),
            Ok(_) => if pf.fields.len() < 3 {
                Err(CommandError::CommandMalformed)
            } else {
                match field_text(pf.fields[1]) {
                    Err(e) => Err(e),
                    Ok(subject) => if pf.fields.len() < 4 {
                        Err(CommandError::CommandMalformed)
                    } else {
                        match field_text(pf.fields[2]) {
                            Err(e) => Err(e),
                            Ok(sid) => if pf.fields.len() < 5 {
                                Ok(
                                    MessageView {
                                        subject,
                                        sid,
                                        reply_to: None,
                                        payload: pf.payload,
                                    },
                                )
                            } else {
                                match field_text(pf.fields[3]) {
                                    Err(e) => Err(e),
                                    Ok(r) => Ok(
                                        MessageView {
                                            subject,
                                            sid,
                                            reply_to: Some(r),
                                            payload: pf.payload,
                                        },
                                    ),
                                }
                            },
                        }
                    },
                }
            },
        },
    }
}

impl Command for Message {
    fn into_vec(self) -> (r: Result<Bytes, CommandError>)
        ensures
            r matches Ok(b) && bytes_content(b) == msg_wire(self@),
    {
        let payload: &[u8] = self.payload.as_ref();
        let mut out = start_line(CMD_MSG.as_slice());
        push_field(&mut out, self.subject.as_str().as_bytes());
        push_field(&mut out, self.sid.as_str().as_bytes());
        push_optional_text(&mut out, &self.reply_to);
        push_number(&mut out, payload.len() as u64);
        push_line_end(&mut out);
        append(&mut out, payload);
        push_line_end(&mut out);
        Ok(Bytes::from(out))
    }

    fn try_parse(buf: Bytes) -> (r: Result<Self, CommandError>)
        ensures
            match r {
                Ok(m) => msg_parse(bytes_content(buf)) == Ok::<MessageView, CommandError>(m@),
                Err(e) => msg_parse(bytes_content(buf)) == Err::<MessageView, CommandError>(e),
            },
    {
        let frame: &[u8] = buf.as_ref();
        let cut_at = match read_payload_header(frame, CMD_MSG.as_slice()) {
            Ok(cut_at) => cut_at,
            Err(e) => {
                return Err(e);
            },
        };
        let count = cut_at.ranges.len();
        if count < 3 {
            return Err(CommandError::CommandMalformed);
        }
        let subject = match read_text(frame, cut_at.ranges[1]) {
            Ok(s) => s,
            Err(e) => {
                return Err(e);
            },
        };
        if count < 4 {
            return Err(CommandError::CommandMalformed);
        }
        let sid = match read_text(frame, cut_at.ranges[2]) {
            Ok(s) => s,
            Err(e) => {
                return Err(e);
            },
        };
        let reply_to = if count < 5 {
            None
        } else {
            match read_text(frame, cut_at.ranges[3]) {
                Ok(s) => Some(s),
                Err(e) => {
                    return Err(e);
                },
            }
        };
        let payload = Bytes::from(slice_subrange(frame, cut_at.payload_start, frame.len() - 2));
        Ok(Message { subject, sid, reply_to, payload })
    }
}

/// Builder for [`Message`]: each setter takes the builder and hands it back
/// with one field set.
#[derive(Debug, Clone)]
pub struct MessageBuilder {
    pub subject: Option<String>,
    pub sid: Option<String>,
    pub reply_to: Option<Option<String>>,
    pub payload: Option<Bytes>,
}

impl Message {
    /// A builder with no field set.
    pub fn builder() -> (r: MessageBuilder)
        ensures
            r.subject is None,
            r.sid is None,
            r.reply_to is None,
            r.payload is None,
    {
        MessageBuilder { subject: None, sid: None, reply_to: None, payload: None }
    }
}

impl MessageBuilder {
    /// Subject name this message was received on
    pub fn subject(self, value: &str) -> (r: Self)
        ensures
            r.subject matches Some(s) && s@ == value@,
            r.sid == self.sid,
            r.reply_to == self.reply_to,
            r.payload == self.payload,
    {
        MessageBuilder { subject: Some(value.to_owned()), ..self }
    }

    /// The unique alphanumeric subscription ID of the subject
    pub fn sid(self, value: &str) -> (r: Self)
        ensures
            r.sid matches Some(s) && s@ == value@,
            r.subject == self.subject,
            r.reply_to == self.reply_to,
            r.payload == self.payload,
    {
        MessageBuilder { sid: Some(value.to_owned()), ..self }
    }

    /// The inbox subject on which the publisher is listening for responses
    pub fn reply_to(self, value: Option<String>) -> (r: Self)
        ensures
            r.reply_to == Some(value),
            r.subject == self.subject,
            r.sid == self.sid,
            r.payload == self.payload,
    {
        MessageBuilder { reply_to: Some(value), ..self }
    }

    /// The message payload data
    pub fn payload(self, value: Bytes) -> (r: Self)
        ensures
            r.payload == Some(value),
            r.subject == self.subject,
            r.sid == self.sid,
            r.reply_to == self.reply_to,
    {
        MessageBuilder { payload: Some(value), ..self }
    }

    /// The words in which the builder refuses its arguments, if it does:
    /// the subject is looked at before the inbox.
    pub open spec fn fault(&self) -> Option<Seq<char>> {
        first_refusal(
            optional_refusal(Part::Subject, opt_text(self.subject)),
            optional_refusal(Part::Inbox, flat_text(self.reply_to)),
        )
    }

    /// The words in which `build` fails, if it does: a refused argument is
    /// reported first, then the first field that was never set.
    pub open spec fn build_error(&self) -> Option<Seq<char>> {
        match self.fault() {
            Some(words) => Some(words),
            None => if self.subject is None {
                Some(missing_words("subject"@))
            } else if self.sid is None {
                Some(missing_words("sid"@))
            } else if self.payload is None {
                Some(missing_words("payload"@))
            } else {
                None
            },
        }
    }

    /// Checks the subject and the inbox, as far as they are set.
    pub fn validate(&self) -> (r: Result<(), String>)
        ensures
            match self.fault() {
                Some(words) => r matches Err(m) && m@ == words,
                None => r is Ok,
            },
    {
        check_optional_part(Part::Subject, &self.subject)?;
        match &self.reply_to {
            Some(reply_to) => check_optional_part(Part::Inbox, reply_to),
            None => Ok(()),
        }
    }

    /// Builds the message: subject, subscription ID and payload must be
    /// set, and neither the subject nor the inbox may hold a space or a
    /// tab. A reply subject that was not set is none.
    pub fn build(self) -> (r: Result<Message, String>)
        ensures
            match self.build_error() {
                Some(words) => r matches Err(m) && m@ == words,
                None => r matches Ok(c) && c@ == (MessageView {
                    subject: self.subject->0@,
                    sid: self.sid->0@,
                    reply_to: flat_text(self.reply_to),
                    payload: bytes_content(self.payload->0),
                }),
            },
    {
        self.validate()?;
        let subject = match self.subject {
            Some(s) => s,
            None => {
                return Err(missing("subject"));
            },
        };
        let sid = match self.sid {
            Some(s) => s,
            None => {
                return Err(missing("sid"));
            },
        };
        let reply_to = match self.reply_to {
            Some(r) => r,
            None => None,
        };
        let payload = match self.payload {
            Some(p) => p,
            None => {
                return Err(missing("payload"));
            },
        };
        Ok(Message { subject, sid, reply_to, payload })
    }
}

impl Default for MessageBuilder {
    fn default() -> (r: Self)
        ensures
            r.subject is None,
            r.sid is None,
            r.reply_to is None,
            r.payload is None,
    {
        Message::builder()
    }
}

} // verus!
