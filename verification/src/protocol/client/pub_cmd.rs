use vstd::prelude::*;
use vstd::slice::slice_subrange;
use vstd::utf8::encode_utf8;
use bytes::Bytes;
use crate::buf::bytes_content;
use crate::protocol::builder::{
    check_optional_part, first_refusal, missing, missing_words, optional_refusal, Part,
};
use crate::protocol::Command;
use crate::protocol::error::CommandError;
use crate::protocol::ident::{all_alphanumeric, generate_inbox, INBOX_LENGTH};
use crate::protocol::wire::{
    check_payload_header, crlf, field_text, push_field, push_line_end, push_number,
    push_optional_text, read_payload_header, read_text, split_payload_frame, start_line, tabbed,
    tabbed_text, CMD_PUB,
};
use crate::text::opt_text;
use crate::text::{append, decimal};

verus! {

/// The PUB message publishes the message payload to the given subject name,
/// optionally supplying a reply subject. If a reply subject is supplied, it
/// will be delivered to eligible subscribers along with the supplied
/// payload. Note that the payload itself is optional.
#[derive(Debug, Clone, PartialEq)]
pub struct PubCommand {
    /// The destination subject to publish to
    pub subject: String,
    /// The optional reply inbox subject that subscribers can use to send a response back to the
    /// publisher/requestor
    pub reply_to: Option<String>,
    /// The message payload data
    pub payload: Bytes,
}

/// A PUB command as plain values.
pub struct PubCommandView {
    pub subject: Seq<char>,
    pub reply_to: Option<Seq<char>>,
    pub payload: Seq<u8>,
}

impl View for PubCommand {
    type V = PubCommandView;

    open spec fn view(&self) -> PubCommandView {
        PubCommandView {
            subject: self.subject@,
            reply_to: match self.reply_to {
                Some(r) => Some(r@),
                None => None,
            },
            payload: bytes_content(self.payload),
        }
    }
}

/// The header line of a PUB command: `PUB\t<subject>[\t<reply_to>]\t<n>`
pub open spec fn pub_header(c: PubCommandView) -> Seq<u8> {
    CMD_PUB@ + tabbed(encode_utf8(c.subject)) + tabbed_text(c.reply_to) + tabbed(
        decimal(c.payload.len()),
    )
}

/// `PUB\t<subject>[\t<reply_to>]\t<n>\r\n<n bytes>\r\n`
pub open spec fn pub_wire(c: PubCommandView) -> Seq<u8> {
    pub_header(c) + crlf() + c.payload + crlf()
}

/// What a frame reads as, taken as a PUB command: the header must hold the
/// name, a subject, optionally a reply subject, and the payload's length.
/// Fields behind the reply subject and before the length are passed over.
pub open spec fn pub_parse(frame: Seq<u8>) -> Result<PubCommandView, CommandError> {
    match split_payload_frame(frame) {
        Err(e) => Err(e),
        Ok(pf) => match check_payload_header(pf, CMD_PUB@) {
            Err(e) => Err(e),
            Ok(_) => if pf.fields.len() < 3 {
                Err(CommandError::CommandMalformed)
            } else {
                match field_text(pf.fields[1]) {
                    Err(e) => Err(e),
                    Ok(subject) => if pf.fields.len() < 4 {
                        Ok(PubCommandView { subject, reply_to: None, payload: pf.payload })
                    } else {
                        match field_text(pf.fields[2]) {
                            Err(e) => Err(e),
                            Ok(r) => Ok(
                                PubCommandView { subject, reply_to: Some(r), payload: pf.payload },
                            ),
                        }
                    },
                }
            },
        },
    }
}

impl Command for PubCommand {
    fn into_vec(self) -> (r: Result<Bytes, CommandError>)
        ensures
            r matches Ok(b) && bytes_content(b) == pub_wire(self@),
    {
        let payload: &[u8] = self.payload.as_ref();
        let mut out = start_line(CMD_PUB.as_slice());
        push_field(&mut out, self.subject.as_str().as_bytes());
        push_optional_text(&mut out, &self.reply_to);
        push_number(&mut out, payload.len() as u64);
        push_line_end(&mut out);
        append(&mut out, payload);
        push_line_end(&mut out);
        Ok(Bytes::from(out))
    }

    fn try_parse(buf: Bytes) -> (r: Result<Self, CommandError>)
        ensures
            match r {
                Ok(c) => pub_parse(bytes_content(buf)) == Ok::<PubCommandView, CommandError>(c@),
                Err(e) => pub_parse(bytes_content(buf)) == Err::<PubCommandView, CommandError>(e),
            },
    {
        let frame: &[u8] = buf.as_ref();
        let cut_at = match read_payload_header(frame, CMD_PUB.as_slice()) {
            Ok(cut_at) => cut_at,
            Err(e) => {
                return Err(e);
            },
        };
        let ghost pf = split_payload_frame(frame@)->Ok_0;
        let count = cut_at.ranges.len();
        if count < 3 {
            return Err(CommandError::CommandMalformed);
        }
        
        let subject = match read_text(frame, cut_at.ranges[1]) {
            Ok(s) => s,
            Err(e) => {
                return Err(e);
            },
        };
        let reply_to = if count < 4 {
            None
        } else {
            match read_text(frame, cut_at.ranges[2]) {
                Ok(s) => Some(s),
                Err(e) => {
                    return Err(e);
                },
            }
        };
        let payload = Bytes::from(slice_subrange(frame, cut_at.payload_start, frame.len() - 2));
        Ok(PubCommand { subject, reply_to, payload })
    }
}

/// The text of an argument that may be unset, or set to none.
pub open spec fn flat_text(value: Option<Option<String>>) -> Option<Seq<char>> {
    match value {
        Some(Some(s)) => Some(s@),
        _ => None,
    }
}

/// Builder for [`PubCommand`]: each setter takes the builder and hands it
/// back with one field set.
#[derive(Debug, Clone)]
pub struct PubCommandBuilder {
    pub subject: Option<String>,
    pub reply_to: Option<Option<String>>,
    pub payload: Option<Bytes>,
}

impl PubCommand {
    /// A builder with no field set.
    pub fn builder() -> (r: PubCommandBuilder)
        ensures
            r.subject is None,
            r.reply_to is None,
            r.payload is None,
    {
        PubCommandBuilder { subject: None, reply_to: None, payload: None }
    }

    /// Generates a random `reply_to` `String`
    pub fn generate_reply_to() -> (r: String)
        ensures
            r@.len() == INBOX_LENGTH,
            all_alphanumeric(r@),
    {
        generate_inbox()
    }
}

impl PubCommandBuilder {
    /// The destination subject to publish to
    pub fn subject(self, value: &str) -> (r: Self)
        ensures
            r.subject matches Some(s) && s@ == value@,
            r.reply_to == self.reply_to,
            r.payload == self.payload,
    {
        PubCommandBuilder { subject: Some(value.to_owned()), ..self }
    }

    /// The optional reply inbox subject
    pub fn reply_to(self, value: Option<String>) -> (r: Self)
        ensures
            r.reply_to == Some(value),
            r.subject == self.subject,
            r.payload == self.payload,
    {
        PubCommandBuilder { reply_to: Some(value), ..self }
    }

    /// The message payload data
    pub fn payload(self, value: Bytes) -> (r: Self)
        ensures
            r.payload == Some(value),
            r.subject == self.subject,
            r.reply_to == self.reply_to,
    {
        PubCommandBuilder { payload: Some(value), ..self }
    }

    /// The words in which the builder refuses its arguments, if it does:
    /// the subject is looked at before the inbox.
    pub open spec fn fault(&self) -> Option<Seq<char>> {
        first_refusal(
            optional_refusal(Part::Subject, opt_text(self.subject)),
            optional_refusal(Part::Inbox, flat_text(self.reply_to)),
        )
    }

    /// The words in which `build` fails, if it does: a refused argument is
    /// reported before a subject that was never set.
    pub open spec fn build_error(&self) -> Option<Seq<char>> {
        match self.fault() {
            Some(words) => Some(words),
            None => if self.subject is None {
                Some(missing_words("subject"@))
            } else {
                None
            },
        }
    }

    /// Checks the subject and the inbox, as far as they are set.
    pub fn validate(&self) -> (r: Result<(), String>)
        ensures
            match self.fault() {
                Some(words) => r matches Err(m) && m@ == words,
                None => r is Ok,
            },
    {
        check_optional_part(Part::Subject, &self.subject)?;
        match &self.reply_to {
            Some(reply_to) => check_optional_part(Part::Inbox, reply_to),
            None => Ok(()),
        }
    }

    /// Builds the command: the subject must be set, and neither the subject
    /// nor the inbox may hold a space or a tab. A reply subject that was
    /// not set is none, a payload that was not set is empty.
    pub fn build(self) -> (r: Result<PubCommand, String>)
        ensures
            match self.build_error() {
                Some(words) => r matches Err(m) && m@ == words,
                None => r matches Ok(c) && c@ == (PubCommandView {
                    subject: self.subject->0@,
                    reply_to: flat_text(self.reply_to),
                    payload: match self.payload {
                        Some(p) => bytes_content(p),
                        None => Seq::empty(),
                    },
                }),
            },
    {
        self.validate()?;
        let subject = match self.subject {
            Some(s) => s,
            None => {
                return Err(missing("subject"));
            },
        };
        let reply_to = match self.reply_to {
            Some(r) => r,
            None => None,
        };
        let payload = match self.payload {
            Some(p) => p,
            None => Bytes::from(Vec::new()),
        };
        Ok(PubCommand { subject, reply_to, payload })
    }
}

impl Default for PubCommandBuilder {
    fn default() -> (r: Self)
        ensures
            r.subject is None,
            r.reply_to is None,
            r.payload is None,
    {
        PubCommand::builder()
    }
}

} // verus!
