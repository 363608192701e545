//! What a daemon removes from its pool when it starts and when it ends.
use crate::constants::{AGENTS_DIR, STATUS_FILE, SUBMISSIONS_DIR};
use crate::path::{join, joined};
use crate::text::{has_suffix, strip_suffix};
use vstd::prelude::*;

verus! {

/// Something in a directory.
#[derive(Debug, Clone, PartialEq, Eq)]
pub struct Entry {
    /// Its name.
    pub name: String,
    /// Whether it is a file.
    pub is_file: bool,
    /// Whether it is a directory.
    pub is_dir: bool,
}

/// An entry's name and kind.
#[verifier::ext_equal]
pub struct EntryText {
    /// Its name.
    pub name: Seq<char>,
    /// Whether it is a file.
    pub is_file: bool,
    /// Whether it is a directory.
    pub is_dir: bool,
}

impl View for Entry {
    type V = EntryText;

    open spec fn view(&self) -> EntryText {
        EntryText { name: self.name@, is_file: self.is_file, is_dir: self.is_dir }
    }
}

/// The names and kinds of a list of entries.
pub open spec fn entry_texts(entries: Seq<Entry>) -> Seq<EntryText> {
    Seq::new(entries.len(), |i: int| entries[i]@)
}

/// What was found in a pool.
#[derive(Debug, Clone, PartialEq, Eq)]
pub struct PoolContents {
    /// Whether there is a status file.
    pub has_status: bool,
    /// What is in the directory of the submissions.
    pub submissions: Vec<Entry>,
    /// What is in the directory of the agents.
    pub agents: Vec<Entry>,
    /// What is in the pool's own directory.
    pub root: Vec<Entry>,
    /// Whether there is a file `canary`.
    pub has_canary: bool,
    /// Whether there is a file `client_canary`.
    pub has_client_canary: bool,
}

/// Something to be removed.
#[derive(Debug, Clone, PartialEq, Eq)]
pub enum Removal {
    /// A file.
    File(String),
    /// A directory with all that is in it.
    Tree(String),
}

/// A removal's text.
pub enum Removed {
    /// A file.
    File(Seq<char>),
    /// A directory with all that is in it.
    Tree(Seq<char>),
}

impl View for Removal {
    type V = Removed;

    open spec fn view(&self) -> Removed {
        match self {
            Removal::File(path) => Removed::File(path@),
            Removal::Tree(path) => Removed::Tree(path@),
        }
    }
}

/// The texts of a list of removals.
pub open spec fn removed(removals: Seq<Removal>) -> Seq<Removed> {
    Seq::new(removals.len(), |i: int| removals[i]@)
}

/// What of a directory is removed.
#[derive(Debug, Clone, Copy, PartialEq, Eq, Structural)]
pub enum Sweep {
    /// The files.
    Files,
    /// The files and the directories.
    Everything,
    /// The canaries: files with a name that ends in `.canary`.
    Canaries,
}

/// How an entry is removed, if it is.
pub open spec fn swept(sweep: Sweep, dir: Seq<char>, entry: EntryText) -> Option<Removed> {
    let path = joined(dir, entry.name);
    match sweep {
        Sweep::Files => if entry.is_file {
            Some(Removed::File(path))
        } else {
            None
        },
        Sweep::Everything => if entry.is_dir {
            Some(Removed::Tree(path))
        } else if entry.is_file {
            Some(Removed::File(path))
        } else {
            None
        },
        Sweep::Canaries => if entry.is_file && has_suffix(entry.name, ".canary"@) {
            Some(Removed::File(path))
        } else {
            None
        },
    }
}

/// What is removed of a directory, in order.
pub open spec fn all_swept(sweep: Sweep, dir: Seq<char>, entries: Seq<EntryText>) -> Seq<Removed>
    decreases entries.len(),
{
    if entries.len() == 0 {
        Seq::empty()
    } else {
        let before = all_swept(sweep, dir, entries.drop_last());
        match swept(sweep, dir, entries.last()) {
            Some(removal) => before.push(removal),
            None => before,
        }
    }
}

/// A file of the pool's own directory, removed where it is there.
pub open spec fn if_there(there: bool, root: Seq<char>, name: Seq<char>) -> Seq<Removed> {
    if there {
        seq![Removed::File(joined(root, name))]
    } else {
        Seq::empty()
    }
}

/// What is removed of a pool: the status file, the files of submissions, all that is in the
/// directory of the agents, and the canaries.
pub open spec fn pool_cleanup(root: Seq<char>, found: PoolContents) -> Seq<Removed> {
    if_there(found.has_status, root, STATUS_FILE@) + all_swept(
        Sweep::Files,
        joined(root, SUBMISSIONS_DIR@),
        entry_texts(found.submissions@),
    ) + all_swept(
        Sweep::Everything,
        joined(root, AGENTS_DIR@),
        entry_texts(found.agents@),
    ) + all_swept(Sweep::Canaries, root, entry_texts(found.root@)) + if_there(
        found.has_canary,
        root,
        "canary"@,
    ) + if_there(found.has_client_canary, root, "client_canary"@)
}

/// Adds what is removed of a directory.
fn sweep_directory(sweep: Sweep, dir: &str, entries: &Vec<Entry>, removals: &mut Vec<Removal>)
    ensures
        removed(final(removals)@) == removed(old(removals)@) + all_swept(
            sweep,
            dir@,
            entry_texts(entries@),
        ),
{
    let ghost start = removed(removals@);
    let ghost all = entry_texts(entries@);
    let mut i: usize = 0;
    assert(all.take(0) =~= Seq::empty());
    assert(start + all_swept(sweep, dir@, all.take(0)) =~= start);
    while i < entries.len()
        invariant
            i <= entries@.len(),
            all == entry_texts(entries@),
            removed(removals@) == start + all_swept(sweep, dir@, all.take(i as int)),
        decreases entries@.len() - i,
    {
        let entry = &entries[i];
        let ghost before = removed(removals@);
        let path = join(dir, &entry.name);
        let removal = match sweep {
            Sweep::Files => if entry.is_file {
                Some(Removal::File(path))
            } else {
                None
            },
            Sweep::Everything => if entry.is_dir {
                Some(Removal::Tree(path))
            } else if entry.is_file {
                Some(Removal::File(path))
            } else {
                None
            },
            Sweep::Canaries => if entry.is_file && strip_suffix(&entry.name, ".canary").is_some() {
                Some(Removal::File(path))
            } else {
                None
            },
        };
        assert(all.take(i + 1).drop_last() =~= all.take(i as int));
        assert(all.take(i + 1).last() == entry@);
        if let Some(removal) = removal {
            let ghost text = removal@;
            removals.push(removal);
            assert(removed(removals@) =~= before.push(text));
            assert(removed(removals@) =~= start + all_swept(sweep, dir@, all.take(i + 1)));
        }
        i += 1;
    }
    assert(all.take(i as int) =~= all);
}

/// Adds a file of the pool's own directory, where it is there.
fn sweep_file(there: bool, root: &str, name: &str, removals: &mut Vec<Removal>)
    ensures
        removed(final(removals)@) == removed(old(removals)@) + if_there(there, root@, name@),
{
    let ghost start = removed(removals@);
    if there {
        removals.push(Removal::File(join(root, name)));
    }
    assert(removed(removals@) =~= start + if_there(there, root@, name@));
}

/// What is removed of a pool.
pub fn cleanup_pool_state(root: &str, found: &PoolContents) -> (r: Vec<Removal>)
    ensures
        removed(r@) == pool_cleanup(root@, *found),
{
    let mut removals: Vec<Removal> = Vec::new();
    assert(removed(removals@) =~= Seq::empty());
    sweep_file(found.has_status, root, STATUS_FILE, &mut removals);
    assert(removed(removals@) =~= if_there(found.has_status, root@, STATUS_FILE@));
    sweep_directory(Sweep::Files, &join(root, SUBMISSIONS_DIR), &found.submissions, &mut removals);
    sweep_directory(Sweep::Everything, &join(root, AGENTS_DIR), &found.agents, &mut removals);
    sweep_directory(Sweep::Canaries, root, &found.root, &mut removals);
    sweep_file(found.has_canary, root, "canary", &mut removals);
    sweep_file(found.has_client_canary, root, "client_canary", &mut removals);
    removals
}

} // verus!
