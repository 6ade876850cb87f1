use vstd::prelude::*;
use vstd::slice::slice_subrange;
use vstd::utf8::{encode_utf8, valid_utf8};
use bytes::Bytes;
use crate::buf::bytes_content;
use crate::protocol::builder::{
    check_optional_part, first_refusal, missing, missing_words, optional_refusal, Part,
};
use crate::protocol::client::pub_cmd::flat_text;
use crate::protocol::Command;
use crate::protocol::error::CommandError;
use crate::protocol::ident::{all_alphanumeric, generate_sid, SID_LENGTH};
use crate::protocol::wire::{
    crlf, ends_with_crlf, field_text, has_line_end, push_field, push_line_end,
    push_optional_text, read_text, start_line, tabbed, tabbed_text, CMD_SUB,
};
use crate::text::{bytes_eq, cut, fields, opt_text, split_fields};

verus! {

/// SUB initiates a subscription to a subject, optionally joining a distributed queue group.
#[derive(Debug, Clone, PartialEq)]
pub struct SubCommand {
    /// The subject name to subscribe to
    pub subject: String,
    /// If specified, the subscriber will join this queue group
    pub queue_group: Option<String>,
    /// A unique alphanumeric subscription ID, generated by the client
    pub sid: String,
}

/// A SUB command as plain values.
pub struct SubCommandView {
    pub subject: Seq<char>,
    pub queue_group: Option<Seq<char>>,
    pub sid: Seq<char>,
}

impl View for SubCommand {
    type V = SubCommandView;

    open spec fn view(&self) -> SubCommandView {
        SubCommandView {
            subject: self.subject@,
            queue_group: opt_text(self.queue_group),
            sid: self.sid@,
        }
    }
}

/// `SUB\t<subject>[\t<queue_group>]\t<sid>\r\n`
pub open spec fn sub_wire(c: SubCommandView) -> Seq<u8> {
    CMD_SUB@ + tabbed(encode_utf8(c.subject)) + tabbed_text(c.queue_group) + tabbed(
        encode_utf8(c.sid),
    ) + crlf()
}

/// What a frame reads as, taken as a SUB command: the line before the line
/// end must be valid UTF-8 and hold the name, a subject, optionally a queue
/// group, and the subscription ID as its last field. Fields between the
/// queue group and the last are passed over.
pub open spec fn sub_parse(frame: Seq<u8>) -> Result<SubCommandView, CommandError> {
    if !ends_with_crlf(frame) {
        Err(CommandError::IncompleteCommandError)
    } else {
        let line = frame.take(frame.len() - 2);
        let f = fields(line);
        if !valid_utf8(line) {
            Err(CommandError::UTF8SliceError)
        } else if f.len() == 0 || f[0] != CMD_SUB@ {
            Err(CommandError::CommandMalformed)
        } else if f.len() < 3 {
            Err(CommandError::CommandMalformed)
        } else {
            match field_text(f[1]) {
                Err(e) => Err(e),
                Ok(subject) => match field_text(f.last()) {
                    Err(e) => Err(e),
                    Ok(sid) => if f.len() < 4 {
                        Ok(SubCommandView { subject, queue_group: None, sid })
                    } else {
                        match field_text(f[2]) {
                            Err(e) => Err(e),
                            Ok(q) => Ok(SubCommandView { subject, queue_group: Some(q), sid }),
                        }
                    },
                },
            }
        }
    }
}

impl Command for SubCommand {
    fn into_vec(self) -> (r: Result<Bytes, CommandError>)
        ensures
            r matches Ok(b) && bytes_content(b) == sub_wire(self@),
    {
        let mut out = start_line(CMD_SUB.as_slice());
        push_field(&mut out, self.subject.as_str().as_bytes());
        push_optional_text(&mut out, &self.queue_group);
        push_field(&mut out, self.sid.as_str().as_bytes());
        push_line_end(&mut out);
        Ok(Bytes::from(out))
    }

    fn try_parse(buf: Bytes) -> (r: Result<Self, CommandError>)
        ensures
            match r {
                Ok(c) => sub_parse(bytes_content(buf)) == Ok::<SubCommandView, CommandError>(c@),
                Err(e) => sub_parse(bytes_content(buf)) == Err::<SubCommandView, CommandError>(e),
            },
    {
        let frame: &[u8] = buf.as_ref();
        if !has_line_end(frame) {
            return Err(CommandError::IncompleteCommandError);
        }
        let line = slice_subrange(frame, 0, frame.len() - 2);
        assert(line@ =~= frame@.take(frame@.len() - 2));
        if core::str::from_utf8(line).is_err() {
            return Err(CommandError::UTF8SliceError);
        }
        let ranges = split_fields(line);
        let count = ranges.len();
        let ghost f = fields(line@);
        if count == 0 {
            return Err(CommandError::CommandMalformed);
        }
        let name = slice_subrange(line, ranges[0].0, ranges[0].1);
        assert(name@ == f[0]);
        if !bytes_eq(name, CMD_SUB.as_slice()) {
            return Err(CommandError::CommandMalformed);
        }
        if count < 3 {
            return Err(CommandError::CommandMalformed);
        }
        assert(cut(line@, ranges@)[1] == f[1]);
        assert(cut(line@, ranges@)[2] == f[2]);
        assert(cut(line@, ranges@)[count - 1] == f.last());
        let subject = read_text(line, ranges[1])?;
        let sid = read_text(line, ranges[count - 1])?;
        let queue_group = if count < 4 {
            None
        } else {
            Some(read_text(line, ranges[2])?)
        };
        Ok(SubCommand { subject, queue_group, sid })
    }
}

/// Builder for [`SubCommand`]: each setter takes the builder and hands it
/// back with one field set.
#[derive(Debug, Clone)]
pub struct SubCommandBuilder {
    pub subject: Option<String>,
    pub queue_group: Option<Option<String>>,
    pub sid: Option<String>,
}

impl SubCommand {
    /// A builder with no field set.
    pub fn builder() -> (r: SubCommandBuilder)
        ensures
            r.subject is None,
            r.queue_group is None,
            r.sid is None,
    {
        SubCommandBuilder { subject: None, queue_group: None, sid: None }
    }

    /// Generates a random subscription ID
    pub fn generate_sid() -> (r: String)
        ensures
            r@.len() == SID_LENGTH,
            all_alphanumeric(r@),
    {
        generate_sid()
    }
}

impl SubCommandBuilder {
    /// Generates a random subscription ID
    pub fn generate_sid() -> (r: String)
        ensures
            r@.len() == SID_LENGTH,
            all_alphanumeric(r@),
    {
        generate_sid()
    }

    /// The subject name to subscribe to
    pub fn subject(self, value: &str) -> (r: Self)
        ensures
            r.subject matches Some(s) && s@ == value@,
            r.queue_group == self.queue_group,
            r.sid == self.sid,
    {
        SubCommandBuilder { subject: Some(value.to_owned()), ..self }
    }

    /// The queue group to join
    pub fn queue_group(self, value: Option<String>) -> (r: Self)
        ensures
            r.queue_group == Some(value),
            r.subject == self.subject,
            r.sid == self.sid,
    {
        SubCommandBuilder { queue_group: Some(value), ..self }
    }

    /// The subscription ID
    pub fn sid(self, value: &str) -> (r: Self)
        ensures
            r.sid matches Some(s) && s@ == value@,
            r.subject == self.subject,
            r.queue_group == self.queue_group,
    {
        SubCommandBuilder { sid: Some(value.to_owned()), ..self }
    }

    /// The words in which the builder refuses its arguments, if it does:
    /// the subject is looked at before the queue group.
    pub open spec fn fault(&self) -> Option<Seq<char>> {
        first_refusal(
            optional_refusal(Part::Subject, opt_text(self.subject)),
            optional_refusal(Part::QueueGroup, flat_text(self.queue_group)),
        )
    }

    /// The words in which `build` fails, if it does: a refused argument is
    /// reported before a subject that was never set.
    pub open spec fn build_error(&self) -> Option<Seq<char>> {
        match self.fault() {
            Some(words) => Some(words),
            None => if self.subject is None {
                Some(missing_words("subject"@))
            } else {
                None
            },
        }
    }

    /// Checks the subject and the queue group, as far as they are set.
    pub fn validate(&self) -> (r: Result<(), String>)
        ensures
            match self.fault() {
                Some(words) => r matches Err(m) && m@ == words,
                None => r is Ok,
            },
    {
        check_optional_part(Part::Subject, &self.subject)?;
        match &self.queue_group {
            Some(queue_group) => check_optional_part(Part::QueueGroup, queue_group),
            None => Ok(()),
        }
    }

    /// Builds the command: the subject must be set, and neither the subject
    /// nor the queue group may hold a space or a tab. A queue group that
    /// was not set is none; a subscription ID that was not set is drawn at
    /// random.
    pub fn build(self) -> (r: Result<SubCommand, String>)
        ensures
            match self.build_error() {
                Some(words) => r matches Err(m) && m@ == words,
                None => r matches Ok(c) && c.subject@ == self.subject->0@ && opt_text(
                    c.queue_group,
                ) == flat_text(self.queue_group) && match self.sid {
                    Some(sid) => c.sid@ == sid@,
                    None => c.sid@.len() == SID_LENGTH && all_alphanumeric(c.sid@),
                },
            },
    {
        self.validate()?;
        let subject = match self.subject {
            Some(s) => s,
            None => {
                return Err(missing("subject"));
            },
        };
        let queue_group = match self.queue_group {
            Some(q) => q,
            None => None,
        };
        let sid = match self.sid {
            Some(s) => s,
            None => generate_sid(),
        };
        Ok(SubCommand { subject, queue_group, sid })
    }
}

impl Default for SubCommandBuilder {
    fn default() -> (r: Self)
        ensures
            r.subject is None,
            r.queue_group is None,
            r.sid is None,
    {
        SubCommand::builder()
    }
}

} // verus!
