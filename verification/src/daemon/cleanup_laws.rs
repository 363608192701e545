//! What a daemon removes from its pool, and what it leaves.
use super::cleanup::{all_swept, entry_texts, pool_cleanup, swept, EntryText, PoolContents, Removed, Sweep};
use crate::path::joined;
use crate::text::has_suffix;
use vstd::prelude::*;

verus! {

proof fn lemma_all_swept(sweep: Sweep, dir: Seq<char>, entries: Seq<EntryText>, removal: Removed)
    ensures
        all_swept(sweep, dir, entries).contains(removal) <==> exists|i: int|
            0 <= i < entries.len() && swept(sweep, dir, #[trigger] entries[i]) == Some(removal),
    decreases entries.len(),
{
    let all = all_swept(sweep, dir, entries);
    if entries.len() > 0 {
        let early = entries.drop_last();
        let before = all_swept(sweep, dir, early);
        lemma_all_swept(sweep, dir, early, removal);
        if before.contains(removal) {
            let k = choose|k: int| 0 <= k < before.len() && before[k] == removal;
            assert(all[k] == removal);
            let i = choose|i: int|
                0 <= i < early.len() && swept(sweep, dir, #[trigger] early[i]) == Some(removal);
            assert(entries[i] == early[i]);
        }
        if swept(sweep, dir, entries.last()) == Some(removal) {
            assert(all[before.len() as int] == removal);
            assert(entries[entries.len() - 1] == entries.last());
        }
        if all.contains(removal) {
            let k = choose|k: int| 0 <= k < all.len() && all[k] == removal;
            if k < before.len() {
                assert(before[k] == removal);
            } else {
                assert(entries[entries.len() - 1] == entries.last());
            }
        }
        if exists|i: int|
            0 <= i < entries.len() && swept(sweep, dir, #[trigger] entries[i]) == Some(removal) {
            let i = choose|i: int|
                0 <= i < entries.len() && swept(sweep, dir, #[trigger] entries[i]) == Some(removal);
            if i < early.len() {
                assert(early[i] == entries[i]);
            }
        }
    }
}

/// Whether one of the entries is a file of this path in the directory.
pub open spec fn is_file_of(entries: Seq<EntryText>, dir: Seq<char>, path: Seq<char>) -> bool {
    exists|i: int|
        0 <= i < entries.len() && (#[trigger] entries[i]).is_file && joined(dir, entries[i].name)
            == path
}

/// A file is removed from a pool exactly where it is the status file, a file of a submission, a
/// file of an agent, or a canary; a directory with all that is in it exactly where it is one of
/// an agent. All else stays.
pub proof fn law_what_is_removed(root: Seq<char>, found: PoolContents, path: Seq<char>)
    ensures
        ({
            let removals = pool_cleanup(root, found);
            let agents = joined(root, "agents"@);
            let submissions = joined(root, "submissions"@);
            &&& removals.contains(Removed::File(path)) <==> {
                ||| found.has_status && path == joined(root, "status"@)
                ||| is_file_of(entry_texts(found.submissions@), submissions, path)
                ||| exists|i: int|
                    0 <= i < found.agents@.len() && (#[trigger] found.agents@[i]).is_file
                        && !found.agents@[i].is_dir && joined(agents, found.agents@[i].name@)
                        == path
                ||| exists|i: int|
                    0 <= i < found.root@.len() && (#[trigger] found.root@[i]).is_file && has_suffix(
                        found.root@[i].name@,
                        ".canary"@,
                    ) && joined(root, found.root@[i].name@) == path
                ||| found.has_canary && path == joined(root, "canary"@)
                ||| found.has_client_canary && path == joined(root, "client_canary"@)
            }
            &&& removals.contains(Removed::Tree(path)) <==> exists|i: int|
                0 <= i < found.agents@.len() && (#[trigger] found.agents@[i]).is_dir && joined(
                    agents,
                    found.agents@[i].name@,
                ) == path
        }),
{
    let agents = joined(root, "agents"@);
    let submissions = joined(root, "submissions"@);
    let a = super::cleanup::if_there(found.has_status, root, "status"@);
    let b = all_swept(Sweep::Files, submissions, entry_texts(found.submissions@));
    let c = all_swept(Sweep::Everything, agents, entry_texts(found.agents@));
    let d = all_swept(Sweep::Canaries, root, entry_texts(found.root@));
    let e = super::cleanup::if_there(found.has_canary, root, "canary"@);
    let f = super::cleanup::if_there(found.has_client_canary, root, "client_canary"@);
    let all = pool_cleanup(root, found);
    assert(all == a + b + c + d + e + f);
    let file = Removed::File(path);
    let tree = Removed::Tree(path);
    lemma_in_six(a, b, c, d, e, f, file);
    lemma_in_six(a, b, c, d, e, f, tree);
    lemma_all_swept(Sweep::Files, submissions, entry_texts(found.submissions@), file);
    lemma_all_swept(Sweep::Files, submissions, entry_texts(found.submissions@), tree);
    lemma_all_swept(Sweep::Everything, agents, entry_texts(found.agents@), file);
    lemma_all_swept(Sweep::Everything, agents, entry_texts(found.agents@), tree);
    lemma_all_swept(Sweep::Canaries, root, entry_texts(found.root@), file);
    lemma_all_swept(Sweep::Canaries, root, entry_texts(found.root@), tree);
    if found.has_status {
        assert(a[0] == Removed::File(joined(root, "status"@)));
    }
    if found.has_canary {
        assert(e[0] == Removed::File(joined(root, "canary"@)));
    }
    if found.has_client_canary {
        assert(f[0] == Removed::File(joined(root, "client_canary"@)));
    }
    let subs = entry_texts(found.submissions@);
    if is_file_of(subs, submissions, path) {
        let i = choose|i: int|
            0 <= i < subs.len() && (#[trigger] subs[i]).is_file && joined(submissions, subs[i].name)
                == path;
        assert(swept(Sweep::Files, submissions, subs[i]) == Some(file));
    }
    if b.contains(file) {
        let i = choose|i: int|
            0 <= i < subs.len() && swept(Sweep::Files, submissions, #[trigger] subs[i]) == Some(
                file,
            );
        assert(subs[i].is_file && joined(submissions, subs[i].name) == path);
    }
    let ags = entry_texts(found.agents@);
    assert forall|i: int| 0 <= i < ags.len() implies #[trigger] ags[i] == found.agents@[i]@ by {}
    if c.contains(file) {
        let i = choose|i: int|
            0 <= i < ags.len() && swept(Sweep::Everything, agents, #[trigger] ags[i]) == Some(file);
        assert(found.agents@[i].is_file && !found.agents@[i].is_dir);
    }
    if c.contains(tree) {
        let i = choose|i: int|
            0 <= i < ags.len() && swept(Sweep::Everything, agents, #[trigger] ags[i]) == Some(tree);
        assert(found.agents@[i].is_dir);
    }
    assert forall|i: int| 0 <= i < found.agents@.len() && joined(
        agents,
        (#[trigger] found.agents@[i]).name@,
    ) == path implies (found.agents@[i].is_dir ==> c.contains(tree)) && (found.agents@[i].is_file
        && !found.agents@[i].is_dir ==> c.contains(file)) by {
        assert(ags[i] == found.agents@[i]@);
        if found.agents@[i].is_dir {
            assert(swept(Sweep::Everything, agents, ags[i]) == Some(tree));
        } else if found.agents@[i].is_file {
            assert(swept(Sweep::Everything, agents, ags[i]) == Some(file));
        }
    }
    let own = entry_texts(found.root@);
    assert forall|i: int| 0 <= i < own.len() implies #[trigger] own[i] == found.root@[i]@ by {}
    if d.contains(file) {
        let i = choose|i: int|
            0 <= i < own.len() && swept(Sweep::Canaries, root, #[trigger] own[i]) == Some(file);
        assert(found.root@[i].is_file);
    }
    assert forall|i: int|
        0 <= i < found.root@.len() && (#[trigger] found.root@[i]).is_file && has_suffix(
            found.root@[i].name@,
            ".canary"@,
        ) && joined(root, found.root@[i].name@) == path implies d.contains(file) by {
        assert(own[i] == found.root@[i]@);
        assert(swept(Sweep::Canaries, root, own[i]) == Some(file));
    }
}

proof fn lemma_in_two<T>(a: Seq<T>, b: Seq<T>, x: T)
    ensures
        (a + b).contains(x) <==> a.contains(x) || b.contains(x),
{
    let all = a + b;
    if a.contains(x) {
        let k = choose|k: int| 0 <= k < a.len() && a[k] == x;
        assert(all[k] == x);
    }
    if b.contains(x) {
        let k = choose|k: int| 0 <= k < b.len() && b[k] == x;
        assert(all[a.len() + k] == x);
    }
    if all.contains(x) {
        let k = choose|k: int| 0 <= k < all.len() && all[k] == x;
        if k < a.len() {
            assert(a[k] == x);
        } else {
            assert(b[k - a.len()] == x);
        }
    }
}

proof fn lemma_in_six<T>(
    a: Seq<T>,
    b: Seq<T>,
    c: Seq<T>,
    d: Seq<T>,
    e: Seq<T>,
    f: Seq<T>,
    x: T,
)
    ensures
        (a + b + c + d + e + f).contains(x) <==> a.contains(x) || b.contains(x) || c.contains(x)
            || d.contains(x) || e.contains(x) || f.contains(x),
{
    lemma_in_two(a, b, x);
    lemma_in_two(a + b, c, x);
    lemma_in_two(a + b + c, d, x);
    lemma_in_two(a + b + c + d, e, x);
    lemma_in_two(a + b + c + d + e, f, x);
}

} // verus!
