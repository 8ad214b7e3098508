//! What the user is told during a cleanup.

use vstd::prelude::*;
use vstd::string::*;
use crate::scan::Notice;

verus! {

/// The text for a root with more than one candidate.
pub open spec fn ambiguity_text(fragment: Seq<char>, root: Seq<char>) -> Seq<char> {
    "Found more than 1 directory matching "@ + fragment + " in "@ + root + "..."@
}

/// The text for a candidate that holds executable files.
pub open spec fn unsafe_text(target: Seq<char>) -> Seq<char> {
    "Some executable files were found. The directory "@ + target
        + " may not be safe to remove..."@
}

/// The text for a candidate that is about to be removed.
pub open spec fn removal_text(target: Seq<char>) -> Seq<char> {
    "Removing "@ + target + " directory..."@
}

/// The text of a notice, for the fragment searched, the root just listed
/// and the candidate selected; nothing for a silent step.
pub open spec fn notice_text(
    notice: Notice,
    fragment: Seq<char>,
    root: Seq<char>,
    target: Seq<char>,
) -> Option<Seq<char>> {
    match notice {
        Notice::Silent => None,
        Notice::Ambiguous => Some(ambiguity_text(fragment, root)),
        Notice::NotSafe => Some(unsafe_text(target)),
        Notice::Removing => Some(removal_text(target)),
    }
}

/// Says that `root` has more than one directory matching `fragment`.
pub fn ambiguity_message(fragment: &str, root: &str) -> (message: String)
    ensures
        message@ == ambiguity_text(fragment@, root@),
{
    let mut message = String::from_str("Found more than 1 directory matching ");
    message.append(fragment);
    message.append(" in ");
    message.append(root);
    message.append("...");
    message
}

/// Says that `target` holds executable files and stays.
pub fn unsafe_message(target: &str) -> (message: String)
    ensures
        message@ == unsafe_text(target@),
{
    let mut message = String::from_str("Some executable files were found. The directory ");
    message.append(target);
    message.append(" may not be safe to remove...");
    message
}

/// Says that `target` is being removed.
pub fn removal_message(target: &str) -> (message: String)
    ensures
        message@ == removal_text(target@),
{
    let mut message = String::from_str("Removing ");
    message.append(target);
    message.append(" directory...");
    message
}

/// The message for a notice, if it has one.
pub fn message(notice: Notice, fragment: &str, root: &str, target: &str) -> (text: Option<String>)
    ensures
        text is Some <==> notice_text(notice, fragment@, root@, target@) is Some,
        text matches Some(t) ==> Some(t@) == notice_text(notice, fragment@, root@, target@),
{
    match notice {
        Notice::Silent => None,
        Notice::Ambiguous => Some(ambiguity_message(fragment, root)),
        Notice::NotSafe => Some(unsafe_message(target)),
        Notice::Removing => Some(removal_message(target)),
    }
}

} // verus!
