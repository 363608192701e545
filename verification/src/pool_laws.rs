//! Which pools are listed, and where they lie.
use crate::daemon::cleanup::EntryText;
use crate::path::joined;
use crate::pool::{pools_among, PoolText};
use vstd::prelude::*;

verus! {

/// Each directory among the entries is listed as a pool, by its name, with its place below the
/// pools and whether its daemon runs; and nothing else is.
pub proof fn law_directories_are_pools(
    pool_root: Seq<char>,
    entries: Seq<EntryText>,
    running: Seq<bool>,
    pool: PoolText,
)
    requires
        entries.len() == running.len(),
    ensures
        pools_among(pool_root, entries, running).contains(pool) <==> exists|i: int|
            0 <= i < entries.len() && (#[trigger] entries[i]).is_dir && pool == (PoolText {
                id: entries[i].name,
                path: joined(pool_root, entries[i].name),
                running: running[i],
            }),
{
    lemma_among(pool_root, entries, running, pool);
}

proof fn lemma_among(
    pool_root: Seq<char>,
    entries: Seq<EntryText>,
    running: Seq<bool>,
    pool: PoolText,
)
    requires
        entries.len() <= running.len(),
    ensures
        pools_among(pool_root, entries, running).contains(pool) <==> exists|i: int|
            0 <= i < entries.len() && (#[trigger] entries[i]).is_dir && pool == (PoolText {
                id: entries[i].name,
                path: joined(pool_root, entries[i].name),
                running: running[i],
            }),
    decreases entries.len(),
{
    if entries.len() > 0 {
        let all = pools_among(pool_root, entries, running);
        let early = entries.drop_last();
        let before = pools_among(pool_root, early, running);
        let last = entries.len() - 1;
        lemma_among(pool_root, early, running, pool);
        assert(entries[last] == entries.last());
        assert forall|i: int| 0 <= i < early.len() implies #[trigger] early[i] == entries[i] by {}
        if before.contains(pool) {
            let k = choose|k: int| 0 <= k < before.len() && before[k] == pool;
            assert(all[k] == pool);
            let i = choose|i: int|
                0 <= i < early.len() && (#[trigger] early[i]).is_dir && pool == (PoolText {
                    id: early[i].name,
                    path: joined(pool_root, early[i].name),
                    running: running[i],
                });
            assert(entries[i].is_dir);
        }
        if entries.last().is_dir {
            assert(all[before.len() as int] == (PoolText {
                id: entries[last].name,
                path: joined(pool_root, entries[last].name),
                running: running[last],
            }));
        }
        if all.contains(pool) {
            let k = choose|k: int| 0 <= k < all.len() && all[k] == pool;
            if k < before.len() {
                assert(before[k] == pool);
            } else {
                assert(entries[last].is_dir);
            }
        }
        if exists|i: int|
            0 <= i < entries.len() && (#[trigger] entries[i]).is_dir && pool == (PoolText {
                id: entries[i].name,
                path: joined(pool_root, entries[i].name),
                running: running[i],
            }) {
            let i = choose|i: int|
                0 <= i < entries.len() && (#[trigger] entries[i]).is_dir && pool == (PoolText {
                    id: entries[i].name,
                    path: joined(pool_root, entries[i].name),
                    running: running[i],
                });
            if i < last {
                assert(early[i].is_dir);
            }
        }
    }
}

/// Pools are listed in the order of the entries: what two lists of entries come to, one after the
/// other, is what the first comes to followed by what the second comes to.
pub proof fn law_pools_keep_their_order(
    pool_root: Seq<char>,
    first: Seq<EntryText>,
    second: Seq<EntryText>,
    running_first: Seq<bool>,
    running_second: Seq<bool>,
)
    requires
        first.len() == running_first.len(),
        second.len() == running_second.len(),
    ensures
        pools_among(pool_root, first + second, running_first + running_second) == pools_among(
            pool_root,
            first,
            running_first,
        ) + pools_among(pool_root, second, running_second),
{
    lemma_order(pool_root, first, second, running_first, running_second);
}

proof fn lemma_same_running(
    pool_root: Seq<char>,
    entries: Seq<EntryText>,
    a: Seq<bool>,
    b: Seq<bool>,
)
    requires
        forall|i: int| 0 <= i < entries.len() ==> a[i] == b[i],
    ensures
        pools_among(pool_root, entries, a) == pools_among(pool_root, entries, b),
    decreases entries.len(),
{
    if entries.len() > 0 {
        lemma_same_running(pool_root, entries.drop_last(), a, b);
    }
}

proof fn lemma_order(
    pool_root: Seq<char>,
    first: Seq<EntryText>,
    second: Seq<EntryText>,
    running_first: Seq<bool>,
    running_second: Seq<bool>,
)
    requires
        first.len() == running_first.len(),
        second.len() <= running_second.len(),
    ensures
        pools_among(pool_root, first + second, running_first + running_second) == pools_among(
            pool_root,
            first,
            running_first,
        ) + pools_among(pool_root, second, running_second),
    decreases second.len(),
{
    let running = running_first + running_second;
    if second.len() == 0 {
        assert(first + second =~= first);
        lemma_same_running(pool_root, first, running_first, running);
        let none = pools_among(pool_root, second, running_second);
        assert(pools_among(pool_root, first, running_first) + none =~= pools_among(
            pool_root,
            first,
            running_first,
        ));
    } else {
        let early = second.drop_last();
        lemma_order(pool_root, first, early, running_first, running_second);
        assert((first + second).drop_last() =~= first + early);
        assert((first + second).last() == second.last());
        assert(running[(first + second).len() - 1] == running_second[second.len() - 1]);
        assert(pools_among(pool_root, first + second, running) =~= pools_among(
            pool_root,
            first,
            running_first,
        ) + pools_among(pool_root, second, running_second));
    }
}

/// Two states of the generator stand for the same character only where they leave the same
/// remainder: each of the characters stands for one remainder.
pub proof fn law_id_characters_differ(a: u64, b: u64)
    ensures
        crate::pool::id_char(a) == crate::pool::id_char(b) <==> (a as usize) % 31 == (b as usize)
            % 31,
{
    let chars = crate::pool::id_chars();
    let i = ((a as usize) % 31) as int;
    let j = ((b as usize) % 31) as int;
    assert(chars.len() == 31);
    assert(forall|m: int, n: int| 0 <= m < n < 31 ==> chars[m] != chars[n]);
    if i < j {
        assert(chars[i] != chars[j]);
    } else if j < i {
        assert(chars[j] != chars[i]);
    }
}

/// The generator never comes from two states to the same one, so different seeds stay different.
pub proof fn law_generator_keeps_seeds_apart(a: u64, b: u64)
    requires
        crate::pool::shuffled(a) == crate::pool::shuffled(b),
    ensures
        a == b,
{
    let p = a ^ (a << 13);
    let q = b ^ (b << 13);
    let r = p ^ (p >> 7);
    let s = q ^ (q >> 7);
    assert(r == s) by (bit_vector)
        requires
            r ^ (r << 17) == s ^ (s << 17),
    ;
    assert(p == q) by (bit_vector)
        requires
            r == p ^ (p >> 7),
            s == q ^ (q >> 7),
            r == s,
    ;
    assert(a == b) by (bit_vector)
        requires
            p == a ^ (a << 13),
            q == b ^ (b << 13),
            p == q,
    ;
}

} // verus!
