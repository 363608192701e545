//! When a wait ends, and what a watch still has to prove.
use crate::constants::SCRATCH_DIR;
use crate::path::{joined, outer, parts, Parts};
use crate::text::{is_white_space, trim_end, trim_start};
use crate::watcher::{
    asks_stop, first_end, heard_from, left_after, left_after_all, paths_that_count,
    scratch_write, Canary,
};
use vstd::prelude::*;

verus! {

/// Whether a path ends a wait: it is the file that is waited for, or the status file of a pool
/// that is to stop.
pub open spec fn ends_wait(path: Seq<char>, stop_path: Parts, stop_now: bool, target: Parts) -> bool {
    parts(path) == target || (stop_now && parts(path) == stop_path)
}

/// The first path that ends a wait decides it, however many come before it: a stop where it is
/// the status file of a pool that is to stop, and else the file. It counts, and none after it.
pub proof fn law_first_path_decides(
    paths: Seq<Seq<char>>,
    stop_path: Parts,
    stop_now: bool,
    target: Parts,
    at: int,
)
    requires
        0 <= at < paths.len(),
        ends_wait(paths[at], stop_path, stop_now, target),
        forall|i: int|
            0 <= i < at ==> !ends_wait(#[trigger] paths[i], stop_path, stop_now, target),
    ensures
        first_end(paths, stop_path, stop_now, target) == Some(
            !(stop_now && parts(paths[at]) == stop_path),
        ),
        paths_that_count(paths, stop_path, stop_now, target) == at + 1,
    decreases at,
{
    if at > 0 {
        assert(!ends_wait(paths[0], stop_path, stop_now, target));
        assert(paths.skip(1)[at - 1] == paths[at]);
        assert forall|i: int| 0 <= i < at - 1 implies !ends_wait(
            #[trigger] paths.skip(1)[i],
            stop_path,
            stop_now,
            target,
        ) by {
            assert(paths.skip(1)[i] == paths[i + 1]);
        }
        law_first_path_decides(paths.skip(1), stop_path, stop_now, target, at - 1);
    }
}

/// Where no path ends the wait, it goes on, and all paths count.
pub proof fn law_other_paths_decide_nothing(
    paths: Seq<Seq<char>>,
    stop_path: Parts,
    stop_now: bool,
    target: Parts,
)
    requires
        forall|i: int|
            0 <= i < paths.len() ==> !ends_wait(#[trigger] paths[i], stop_path, stop_now, target),
    ensures
        first_end(paths, stop_path, stop_now, target) is None,
        paths_that_count(paths, stop_path, stop_now, target) == paths.len(),
    decreases paths.len(),
{
    if paths.len() > 0 {
        assert(!ends_wait(paths[0], stop_path, stop_now, target));
        assert forall|i: int| 0 <= i < paths.len() - 1 implies !ends_wait(
            #[trigger] paths.skip(1)[i],
            stop_path,
            stop_now,
            target,
        ) by {
            assert(paths.skip(1)[i] == paths[i + 1]);
        }
        law_other_paths_decide_nothing(paths.skip(1), stop_path, stop_now, target);
    }
}

proof fn lemma_left_after(all: Seq<Canary>, path: Parts, canary: Canary)
    ensures
        left_after(all, path).contains(canary) <==> all.contains(canary) && !heard_from(
            canary,
            path,
        ),
    decreases all.len(),
{
    reveal(Seq::filter);
    let keep = |canary: Canary| !heard_from(canary, path);
    let left = all.filter(keep);
    if all.len() > 0 {
        let early = all.drop_last();
        let before = early.filter(keep);
        lemma_left_after(early, path, canary);
        assert(all[all.len() - 1] == all.last());
        if early.contains(canary) {
            let k = choose|k: int| 0 <= k < early.len() && early[k] == canary;
            assert(all[k] == canary);
        }
        if before.contains(canary) {
            let k = choose|k: int| 0 <= k < before.len() && before[k] == canary;
            assert(left[k] == canary);
        }
        if keep(all.last()) {
            assert(left == before.push(all.last()));
            assert(left[before.len() as int] == all.last());
        }
        if left.contains(canary) {
            let k = choose|k: int| 0 <= k < left.len() && left[k] == canary;
            if k < before.len() {
                assert(before[k] == canary);
            }
        }
        if all.contains(canary) {
            let k = choose|k: int| 0 <= k < all.len() && all[k] == canary;
            if k < early.len() {
                assert(early[k] == canary);
            }
        }
    }
}

/// A canary is left exactly until something is heard from its own directory: nothing that
/// happens elsewhere takes it away, and nothing that happens there leaves it.
pub proof fn law_canary_stays_until_its_directory_is_heard(
    all: Seq<Canary>,
    paths: Seq<Seq<char>>,
    canary: Canary,
)
    ensures
        left_after_all(all, paths).contains(canary) <==> all.contains(canary) && forall|i: int|
            0 <= i < paths.len() ==> !(parts(#[trigger] paths[i]).names.len() > 0 && outer(
                parts(paths[i]),
            ) == parts(canary.dir)),
    decreases paths.len(),
{
    if paths.len() > 0 {
        let rest = paths.skip(1);
        let next = left_after(all, parts(paths[0]));
        lemma_left_after(all, parts(paths[0]), canary);
        law_canary_stays_until_its_directory_is_heard(next, rest, canary);
        assert forall|i: int| 0 <= i < rest.len() implies #[trigger] rest[i] == paths[i + 1] by {}
        let silent = |p: Seq<char>|
            !(parts(p).names.len() > 0 && outer(parts(p)) == parts(canary.dir));
        if forall|i: int| 0 <= i < paths.len() ==> silent(#[trigger] paths[i]) {
            assert(silent(paths[0]));
            assert forall|i: int| 0 <= i < rest.len() implies silent(#[trigger] rest[i]) by {
                assert(silent(paths[i + 1]));
            }
        }
        if left_after_all(all, paths).contains(canary) {
            assert forall|i: int| 0 <= i < paths.len() implies silent(#[trigger] paths[i]) by {
                if i > 0 {
                    assert(silent(rest[i - 1]));
                }
            }
        }
    }
}

/// A status that begins with `stop`, after white space and with anything behind it, asks the pool
/// to stop; one that begins otherwise does not.
pub proof fn law_stop_is_asked_for(blank: Seq<char>, more: Seq<char>)
    requires
        forall|i: int| 0 <= i < blank.len() ==> is_white_space(#[trigger] blank[i]),
    ensures
        asks_stop(blank + "stop"@ + more),
        !asks_stop("ready"@ + more),
        !asks_stop(blank),
{
    reveal_strlit("stop");
    reveal_strlit("ready");
    let whole = blank + "stop"@ + more;
    let rest = "stop"@ + more;
    assert(whole =~= blank + rest);
    assert("stop"@[0] == 's' && "stop"@[1] == 't' && "stop"@[2] == 'o' && "stop"@[3] == 'p');
    lemma_blank_front(blank, rest);
    assert(!is_white_space('s') && !is_white_space('p') && !is_white_space('r'));
    assert(rest[0] == 's');
    assert(trim_start(rest) == rest);
    lemma_trim_end_front("stop"@, more);
    let said = trim_end(rest);
    assert(said.take(4) =~= "stop"@);
    let other = "ready"@ + more;
    assert(other[0] == 'r' && "ready"@[0] == 'r' && "ready"@[4] == 'y');
    assert(trim_start(other) == other);
    assert(!is_white_space('y'));
    lemma_trim_end_front("ready"@, more);
    assert(trim_end(other)[0] == 'r');
    assert(trim_end(other).take(4)[0] == 'r');
    lemma_blank_front(blank, Seq::empty());
    assert(blank + Seq::<char>::empty() =~= blank);
}

proof fn lemma_blank_front(blank: Seq<char>, rest: Seq<char>)
    requires
        forall|i: int| 0 <= i < blank.len() ==> is_white_space(#[trigger] blank[i]),
    ensures
        trim_start(blank + rest) == trim_start(rest),
    decreases blank.len(),
{
    if blank.len() == 0 {
        assert(blank + rest =~= rest);
    } else {
        let later = blank.skip(1);
        assert forall|i: int| 0 <= i < later.len() implies is_white_space(#[trigger] later[i]) by {
            assert(later[i] == blank[i + 1]);
        }
        lemma_blank_front(later, rest);
        assert((blank + rest)[0] == blank[0]);
        assert((blank + rest).skip(1) =~= later + rest);
    }
}

/// A text that ends in no white space is still there once white space is taken off what follows.
proof fn lemma_trim_end_front(head: Seq<char>, more: Seq<char>)
    requires
        head.len() > 0,
        !is_white_space(head.last()),
    ensures
        trim_end(head + more).len() >= head.len(),
        trim_end(head + more).take(head.len() as int) == head,
    decreases more.len(),
{
    let whole = head + more;
    if more.len() == 0 {
        assert(whole =~= head);
        assert(head.take(head.len() as int) =~= head);
    } else if is_white_space(whole.last()) {
        assert(whole.drop_last() =~= head + more.drop_last());
        lemma_trim_end_front(head, more.drop_last());
    } else {
        assert(whole.take(head.len() as int) =~= head);
    }
}

/// A write by way of the scratch directory ends with the whole content in the file that it is
/// for, and what is written before lies in the scratch directory.
pub proof fn law_scratch_write_is_for_its_target(
    pool_root: Seq<char>,
    target: Seq<char>,
    content: Seq<char>,
    unique: Seq<char>,
)
    requires
        !unique.contains('/'),
    ensures
        ({
            let write = scratch_write(pool_root, target, content, unique);
            &&& write.target == target
            &&& write.content == content
            &&& outer(parts(write.temp)) == parts(joined(pool_root, "scratch"@))
        }),
{
    reveal_strlit(".tmp");
    let name = unique + ".tmp"@;
    assert forall|i: int| 0 <= i < name.len() implies name[i] != '/' by {
        if i < unique.len() {
            assert(unique.contains(unique[i]));
        }
    }
    assert(seq!['.'].len() == 1);
    let dir = joined(pool_root, SCRATCH_DIR@);
    crate::path::law_join_adds_one_component(dir, name);
    assert(crate::path::inner(parts(dir), name).names.drop_last() =~= parts(dir).names);
}

} // verus!
