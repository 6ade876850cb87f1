//! Identifiers that the client makes up: subscription IDs and inboxes.

use vstd::prelude::*;
use rand::distributions::Alphanumeric;
use rand::{thread_rng, Rng};

verus! {

/// An ASCII letter or digit.
pub open spec fn is_alphanumeric(c: char) -> bool {
    ('0' <= c <= '9') || ('A' <= c <= 'Z') || ('a' <= c <= 'z')
}

/// Whether a text is made of ASCII letters and digits alone.
pub open spec fn all_alphanumeric(text: Seq<char>) -> bool {
    forall|i: int| 0 <= i < text.len() ==> is_alphanumeric(#[trigger] text[i])
}

/// The number of characters of a subscription ID.
pub const SID_LENGTH: usize = 8;

/// The number of characters of an inbox.
pub const INBOX_LENGTH: usize = 16;

/// Draws `count` characters with `rand`: the thread's generator samples the
/// `Alphanumeric` distribution, which yields ASCII letters and digits. Which
/// characters come is up to chance; their number and their kind are not.
/// The generator panics where the system gives it no seed.
#[verifier::external_body]
fn random_alphanumeric(count: usize) -> (r: String)
    ensures
        r@.len() == count,
        all_alphanumeric(r@),
{
    thread_rng().sample_iter(&Alphanumeric).take(count).collect()
}

/// A fresh subscription ID: eight random letters and digits.
pub fn generate_sid() -> (r: String)
    ensures
        r@.len() == SID_LENGTH,
        all_alphanumeric(r@),
{
    random_alphanumeric(SID_LENGTH)
}

/// A fresh inbox: sixteen random letters and digits.
pub fn generate_inbox() -> (r: String)
    ensures
        r@.len() == INBOX_LENGTH,
        all_alphanumeric(r@),
{
    random_alphanumeric(INBOX_LENGTH)
}

/// The identifiers that the client makes up can stand as arguments of a
/// command: a text of letters and digits holds neither a space nor a tab.
pub proof fn law_identifiers_are_arguments(text: Seq<char>)
    requires
        all_alphanumeric(text),
    ensures
        !text.contains(' '),
        !text.contains('\t'),
{
    if text.contains(' ') {
        let i = choose|i: int| 0 <= i < text.len() && text[i] == ' ';
        assert(is_alphanumeric(text[i]));
    }
    if text.contains('\t') {
        let i = choose|i: int| 0 <= i < text.len() && text[i] == '\t';
        assert(is_alphanumeric(text[i]));
    }
}

} // verus!
