//! Directory entries as plain values, and the two tests the cleanup applies
//! to them: whether a subdirectory is a candidate for a name fragment, and
//! whether a child is an executable file.

use vstd::prelude::*;
use vstd::string::*;
use crate::text::{contains, contains_text, ends_with, ends_with_text};

verus! {

/// What a directory entry turned out to be when it was examined.
#[derive(Clone, Copy, Debug, PartialEq, Eq, Structural)]
pub enum EntryKind {
    Directory,
    File,
    Other,
}

/// One entry of a directory listing.
///
/// `path` is the full path of the entry, `name` its last component.
#[derive(Clone, Debug)]
pub struct Entry {
    pub path: String,
    pub name: String,
    pub kind: EntryKind,
}

/// The mathematical value of an [`Entry`].
pub struct EntryView {
    pub path: Seq<char>,
    pub name: Seq<char>,
    pub kind: EntryKind,
}

impl View for Entry {
    type V = EntryView;

    open spec fn view(&self) -> EntryView {
        EntryView { path: self.path@, name: self.name@, kind: self.kind }
    }
}

/// The values of a listing, entry by entry.
pub open spec fn entry_views(entries: Seq<Entry>) -> Seq<EntryView> {
    entries.map_values(|e: Entry| e@)
}

/// The suffix that marks an executable file.
pub open spec fn executable_suffix() -> Seq<char> {
    seq!['.', 'e', 'x', 'e']
}

/// `name` has the extension `exe`: a non-empty stem, a dot, then `exe`.
/// A name that is nothing but `.exe` has no extension.
pub open spec fn has_executable_extension(name: Seq<char>) -> bool {
    name.len() > 4 && ends_with_text(name, executable_suffix())
}

/// The entry is a file with an executable extension.
pub open spec fn is_executable_file(entry: EntryView) -> bool {
    entry.kind == EntryKind::File && has_executable_extension(entry.name)
}

/// The entry is a directory whose full path contains `fragment`.
///
/// The match is made on the whole path, not on the last component alone, so
/// a fragment that occurs in the root's own path matches every subdirectory
/// of that root.
pub open spec fn is_candidate(entry: EntryView, fragment: Seq<char>) -> bool {
    entry.kind == EntryKind::Directory && contains_text(entry.path, fragment)
}

/// The candidates of a listing, in listing order.
pub open spec fn candidates(entries: Seq<EntryView>, fragment: Seq<char>) -> Seq<EntryView> {
    entries.filter(|e: EntryView| is_candidate(e, fragment))
}

/// Some child of the listing is an executable file.
pub open spec fn holds_executable(children: Seq<EntryView>) -> bool {
    exists|i: int| 0 <= i < children.len() && is_executable_file(#[trigger] children[i])
}

/// Extending a listing by one entry extends its candidates by that entry if
/// it is one, and leaves them alone otherwise.
pub proof fn lemma_candidates_push(entries: Seq<EntryView>, entry: EntryView, fragment: Seq<char>)
    ensures
        candidates(entries.push(entry), fragment) == if is_candidate(entry, fragment) {
            candidates(entries, fragment).push(entry)
        } else {
            candidates(entries, fragment)
        },
{
    reveal(Seq::filter);
    assert(entries.push(entry).drop_last() =~= entries);
}

/// Whether a file name carries the executable extension.
pub fn executable_name(name: &str) -> (yes: bool)
    ensures
        yes == has_executable_extension(name@),
{
    proof {
        reveal_strlit(".exe");
        assert(".exe"@ =~= executable_suffix());
    }
    name.unicode_len() > 4 && ends_with(name, ".exe")
}

impl Entry {
    /// Whether this entry is a directory whose path contains `fragment`.
    pub fn matches(&self, fragment: &str) -> (yes: bool)
        ensures
            yes == is_candidate(self@, fragment@),
    {
        match self.kind {
            EntryKind::Directory => contains(self.path.as_str(), fragment),
            _ => false,
        }
    }

    /// Whether this entry is a file with an executable extension.
    pub fn is_executable(&self) -> (yes: bool)
        ensures
            yes == is_executable_file(self@),
    {
        match self.kind {
            EntryKind::File => executable_name(self.name.as_str()),
            _ => false,
        }
    }
}

/// What a listing yields for a fragment.
#[derive(Clone, Copy, Debug, PartialEq, Eq, Structural)]
pub enum Selection {
    /// No entry is a candidate.
    Nothing,
    /// Exactly one entry is a candidate: the one at this index.
    Single(usize),
    /// More than one entry is a candidate.
    Ambiguous,
}

/// Classifies a listing by the number of its candidates.
pub fn select_candidate(entries: &Vec<Entry>, fragment: &str) -> (selection: Selection)
    ensures
        candidates(entry_views(entries@), fragment@).len() == 0 <==> selection
            == Selection::Nothing,
        candidates(entry_views(entries@), fragment@).len() > 1 <==> selection
            == Selection::Ambiguous,
        selection matches Selection::Single(at) ==> at < entries@.len() && seq![entries@[at as int]@]
            == candidates(entry_views(entries@), fragment@),
{
    let ghost all = entry_views(entries@);
    let n: usize = entries.len();
    let mut count: usize = 0;
    let mut first: usize = 0;
    let mut i: usize = 0;
    assert(all.take(0) =~= Seq::<EntryView>::empty());
    while i < n
        invariant
            i <= n == entries@.len(),
            all == entry_views(entries@),
            count <= i,
            count == candidates(all.take(i as int), fragment@).len(),
            count > 0 ==> first < i && all[first as int] == candidates(
                all.take(i as int),
                fragment@,
            )[0],
        decreases n - i,
    {
        proof {
            lemma_candidates_push(all.take(i as int), all[i as int], fragment@);
            assert(all.take(i as int).push(all[i as int]) =~= all.take(i + 1));
        }
        if entries[i].matches(fragment) {
            if count == 0 {
                first = i;
            }
            count += 1;
        }
        i += 1;
    }
    assert(all.take(n as int) =~= all);
    if count == 0 {
        Selection::Nothing
    } else if count == 1 {
        assert(seq![entries@[first as int]@] =~= candidates(all, fragment@));
        Selection::Single(first)
    } else {
        Selection::Ambiguous
    }
}

/// Whether any child of a listing is an executable file.
pub fn any_executable(children: &Vec<Entry>) -> (found: bool)
    ensures
        found == holds_executable(entry_views(children@)),
{
    let n: usize = children.len();
    let mut i: usize = 0;
    while i < n
        invariant
            i <= n == children@.len(),
            forall|j: int| 0 <= j < i ==> !is_executable_file(#[trigger] entry_views(children@)[j]),
        decreases n - i,
    {
        if children[i].is_executable() {
            assert(is_executable_file(entry_views(children@)[i as int]));
            return true;
        }
        i += 1;
    }
    false
}

} // verus!
