//! The filter between change notifications and the readers: which changes
//! matter, and what each one asks for.
use vstd::prelude::*;

verus! {

/// The kind of a change notification, as the watcher reports it.
#[derive(Debug, Clone, Copy, PartialEq, Eq, Structural)]
pub enum ChangeKind {
    /// The content of a file changed.
    ContentChanged,
    /// An entry was created in the watched directory.
    EntryCreated,
    /// Anything else: metadata, access, removal.
    Other,
}

/// What a reader does about one changed path.
#[derive(Debug, Clone, Copy, PartialEq, Eq, Structural)]
pub enum Reaction {
    /// Nothing.
    Ignore,
    /// Read the snapshot file again and queue the result.
    ReloadSnapshot,
    /// Wake the reader: a tailed file may have grown.
    Wake,
    /// List the directory again: a newer file may exist.
    NewEntry,
}

/// The reaction to a change of `kind` on the file named `name`, where
/// `snapshot` is the name of the snapshot file, if the reader watches one.
pub open spec fn reaction_spec(kind: ChangeKind, name: Seq<u8>, snapshot: Option<Seq<u8>>) -> Reaction {
    match kind {
        ChangeKind::ContentChanged => if snapshot == Some(name) {
            Reaction::ReloadSnapshot
        } else {
            Reaction::Wake
        },
        ChangeKind::EntryCreated => Reaction::NewEntry,
        ChangeKind::Other => Reaction::Ignore,
    }
}

/// Whether two byte strings are equal.
pub fn bytes_equal(a: &[u8], b: &[u8]) -> (r: bool)
    ensures
        r == (a@ == b@),
{
    if a.len() != b.len() {
        return false;
    }
    let mut i: usize = 0;
    while i < a.len()
        invariant
            a@.len() == b@.len(),
            i <= a@.len(),
            forall|k: int| 0 <= k < i ==> a@[k] == b@[k],
        decreases a@.len() - i,
    {
        if a[i] != b[i] {
            return false;
        }
        i = i + 1;
    }
    assert(a@ =~= b@);
    true
}

/// The reaction to a change of `kind` on the file named `name` (its last
/// path component).
pub fn reaction(kind: ChangeKind, name: &[u8], snapshot: Option<&[u8]>) -> (r: Reaction)
    ensures
        r == reaction_spec(
            kind,
            name@,
            match snapshot {
                Some(s) => Some(s@),
                None => None,
            },
        ),
{
    match kind {
        ChangeKind::ContentChanged => match snapshot {
            Some(s) => if bytes_equal(name, s) {
                Reaction::ReloadSnapshot
            } else {
                Reaction::Wake
            },
            None => Reaction::Wake,
        },
        ChangeKind::EntryCreated => Reaction::NewEntry,
        ChangeKind::Other => Reaction::Ignore,
    }
}

} // verus!
