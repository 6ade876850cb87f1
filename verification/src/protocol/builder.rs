//! What the builders of the commands share: the check of arguments, and the
//! words of their errors.

use vstd::prelude::*;
use vstd::string::StringExecFns;
use crate::protocol::check_command_arg;
use crate::protocol::error::ArgumentValidationError;

verus! {

/// The arguments that a builder checks.
#[derive(Debug, Clone, Copy, PartialEq, Eq, Structural)]
pub enum Part {
    Subject,
    Inbox,
    QueueGroup,
}

/// What is wrong with an argument, if anything is: a space is reported
/// before a tab.
pub open spec fn argument_fault(text: Seq<char>) -> Option<ArgumentValidationError> {
    if text.contains(' ') {
        Some(ArgumentValidationError::ContainsSpace)
    } else if text.contains('\t') {
        Some(ArgumentValidationError::ContainsTab)
    } else {
        None
    }
}

/// The words in which a builder refuses an argument.
pub open spec fn fault_words(part: Part, fault: ArgumentValidationError) -> Seq<char> {
    match (part, fault) {
        (Part::Subject, ArgumentValidationError::ContainsSpace) => "subject contains spaces"@,
        (Part::Subject, ArgumentValidationError::ContainsTab) => "subject contains tabs"@,
        (Part::Inbox, ArgumentValidationError::ContainsSpace) => "inbox contains spaces"@,
        (Part::Inbox, ArgumentValidationError::ContainsTab) => "inbox contains tabs"@,
        (Part::QueueGroup, ArgumentValidationError::ContainsSpace) => {
            "queue group contains spaces"@
        },
        (Part::QueueGroup, ArgumentValidationError::ContainsTab) => "queue group contains tabs"@,
    }
}

/// The words in which a builder refuses an argument, where it refuses it.
pub open spec fn refusal(part: Part, text: Seq<char>) -> Option<Seq<char>> {
    match argument_fault(text) {
        Some(fault) => Some(fault_words(part, fault)),
        None => None,
    }
}

/// The refusal of an argument that may be missing.
pub open spec fn optional_refusal(part: Part, text: Option<Seq<char>>) -> Option<Seq<char>> {
    match text {
        Some(t) => refusal(part, t),
        None => None,
    }
}

/// The first of two refusals.
pub open spec fn first_refusal(a: Option<Seq<char>>, b: Option<Seq<char>>) -> Option<Seq<char>> {
    match a {
        Some(words) => Some(words),
        None => b,
    }
}

/// The words in which a builder says that a field was never set.
pub open spec fn missing_words(field: Seq<char>) -> Seq<char> {
    "`"@ + field + "` must be initialized"@
}

/// Checks an argument and puts a refusal in words.
pub fn check_part(part: Part, text: &str) -> (r: Result<(), String>)
    ensures
        match refusal(part, text@) {
            Some(words) => r matches Err(m) && m@ == words,
            None => r is Ok,
        },
{
    match check_command_arg(text) {
        Ok(_) => Ok(()),
        Err(ArgumentValidationError::ContainsSpace) => Err(
            match part {
                Part::Subject => String::from_str("subject contains spaces"),
                Part::Inbox => String::from_str("inbox contains spaces"),
                Part::QueueGroup => String::from_str("queue group contains spaces"),
            },
        ),
        Err(ArgumentValidationError::ContainsTab) => Err(
            match part {
                Part::Subject => String::from_str("subject contains tabs"),
                Part::Inbox => String::from_str("inbox contains tabs"),
                Part::QueueGroup => String::from_str("queue group contains tabs"),
            },
        ),
    }
}

/// Checks an argument that may be missing.
pub fn check_optional_part(part: Part, text: &Option<String>) -> (r: Result<(), String>)
    ensures
        match optional_refusal(part, crate::text::opt_text(*text)) {
            Some(words) => r matches Err(m) && m@ == words,
            None => r is Ok,
        },
{
    match text {
        Some(t) => check_part(part, t.as_str()),
        None => Ok(()),
    }
}

/// Says that a field was never set.
pub fn missing(field: &str) -> (r: String)
    ensures
        r@ == missing_words(field@),
{
    let mut words = String::from_str("`");
    words.append(field);
    words.append("` must be initialized");
    words
}

} // verus!
