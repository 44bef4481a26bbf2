//! The mailbox namespaces that an IMAP session announces.

use vstd::prelude::*;

verus! {

/// The text of an optional string.
pub open spec fn prefix_view(s: Option<String>) -> Option<Seq<char>> {
    match s {
        Some(s) => Some(s@),
        None => None,
    }
}

/// The prefix of the shared folders to announce: `shared_folder` where the
/// session sees the mailboxes of more than one account, none else.
pub fn shared_prefix(accounts: usize, shared_folder: &str) -> (r: Option<String>)
    ensures
        prefix_view(r) == (if accounts > 1 {
            Some(shared_folder@)
        } else {
            None
        }),
{
    if accounts > 1 {
        Some(shared_folder.to_owned())
    } else {
        None
    }
}

} // verus!
