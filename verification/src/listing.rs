//! What a folder holds, as far as the transfers need to know it.

use vstd::prelude::*;

verus! {

/// One entry of a folder.
#[derive(Debug, Clone, PartialEq, Eq)]
pub struct Entry {
    /// The last component of the entry's path.
    pub name: String,
    /// Whether the entry is a regular file.
    pub is_file: bool,
}

/// An `Entry` with its name as a sequence of characters.
pub struct EntryView {
    pub name: Seq<char>,
    pub is_file: bool,
}

impl View for Entry {
    type V = EntryView;

    open spec fn view(&self) -> EntryView {
        EntryView { name: self.name@, is_file: self.is_file }
    }
}

/// The views of the entries of a listing.
pub open spec fn views(es: Seq<Entry>) -> Seq<EntryView> {
    es.map_values(|e: Entry| e@)
}

/// The file-type bits of a permission word.
pub const TYPE_MASK: u32 = 0o170000;

/// The file-type bits of a regular file.
pub const TYPE_REGULAR: u32 = 0o100000;

/// Whether the permission word `perm` of a remote entry is that of a regular
/// file. An entry without a permission word counts as one with the word 0.
pub open spec fn is_regular(perm: Option<u32>) -> bool {
    (perm.unwrap_or(0) & TYPE_MASK) == TYPE_REGULAR
}

/// The position of the first regular file of `es` at or behind `from`, or
/// `es.len()` where none is left.
pub open spec fn next_file(es: Seq<EntryView>, from: int) -> int
    decreases es.len() - from,
{
    if from >= es.len() {
        es.len() as int
    } else if es[from].is_file {
        from
    } else {
        next_file(es, from + 1)
    }
}

/// The regular files of `es` at or behind `from`, by position and in order.
pub open spec fn files_from(es: Seq<EntryView>, from: int) -> Seq<int>
    decreases es.len() - from,
{
    if from >= es.len() {
        Seq::empty()
    } else if es[from].is_file {
        seq![from] + files_from(es, from + 1)
    } else {
        files_from(es, from + 1)
    }
}

/// `next_file` returns a regular file or the end, and skips no regular file.
pub proof fn lemma_next_file(es: Seq<EntryView>, from: int)
    requires
        0 <= from <= es.len(),
    ensures
        from <= next_file(es, from) <= es.len(),
        next_file(es, from) < es.len() ==> es[next_file(es, from)].is_file,
        forall|j: int| from <= j < next_file(es, from) ==> !es[j].is_file,
    decreases es.len() - from,
{
    if from < es.len() && !es[from].is_file {
        lemma_next_file(es, from + 1);
    }
}

/// The regular files from `from` on are the next one and those behind it.
pub proof fn lemma_files_from(es: Seq<EntryView>, from: int)
    requires
        0 <= from <= es.len(),
    ensures
        files_from(es, from) == if next_file(es, from) < es.len() {
            seq![next_file(es, from)] + files_from(es, next_file(es, from) + 1)
        } else {
            Seq::empty()
        },
    decreases es.len() - from,
{
    if from < es.len() && !es[from].is_file {
        lemma_files_from(es, from + 1);
    }
}

/// Tells from the permission word that a listing of the server gives for an
/// entry whether the entry is a regular file.
///
/// This is `ssh2::FileStat::is_file`, asked of a record that holds `perm` and
/// nothing else. It masks the file-type bits out of the word, taking 0 for a
/// missing word, and compares them with those of a regular file.
#[verifier::external_body]
fn stat_is_file(perm: Option<u32>) -> (r: bool)
    ensures
        r == is_regular(perm),
{
    let stat = ssh2::FileStat { size: None, uid: None, gid: None, perm, atime: None, mtime: None };
    stat.is_file()
}

impl Entry {
    /// An entry of a local folder.
    pub fn local(name: String, is_file: bool) -> (r: Entry)
        ensures
            r@ == (EntryView { name: name@, is_file }),
    {
        Entry { name, is_file }
    }

    /// An entry of a remote folder, as the server lists it: with its name and
    /// its permission word, if it has one.
    pub fn remote(name: String, perm: Option<u32>) -> (r: Entry)
        ensures
            r@ == (EntryView { name: name@, is_file: is_regular(perm) }),
    {
        let is_file = stat_is_file(perm);
        Entry { name, is_file }
    }
}

/// Finds the first regular file of `entries` at or behind `from`.
pub(crate) fn find_file(entries: &Vec<Entry>, from: usize) -> (i: usize)
    requires
        from <= entries.len(),
    ensures
        i == next_file(views(entries@), from as int),
        from <= i <= entries.len(),
        i < entries.len() ==> entries@[i as int].is_file,
{
    let mut i: usize = from;
    while i < entries.len() && !entries[i].is_file
        invariant
            from <= i <= entries.len(),
            next_file(views(entries@), from as int) == next_file(views(entries@), i as int),
        decreases entries.len() - i,
    {
        i += 1;
    }
    i
}

} // verus!
