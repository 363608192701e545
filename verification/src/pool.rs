//! Pools: their names, and where they lie.
use crate::daemon::cleanup::{Entry, EntryText, entry_texts};
use crate::path::{join, joined};
use crate::text::{concat3, holds_char};
use vstd::prelude::*;

verus! {

/// How long a pool's name is.
pub const ID_LENGTH: usize = 8;

/// The characters of a pool's name: small letters and digits, without those that are
/// easily taken for another.
pub open spec fn id_chars() -> Seq<char> {
    seq![
        'a', 'b', 'c', 'd', 'e', 'f', 'g', 'h', 'j', 'k', 'm', 'n', 'p', 'q', 'r', 's', 't',
        'u', 'v', 'w', 'x', 'y', 'z', '2', '3', '4', '5', '6', '7', '8', '9',
    ]
}

/// One round of the xorshift generator.
pub open spec fn shuffled(state: u64) -> u64 {
    let a = state ^ (state << 13);
    let b = a ^ (a >> 7);
    b ^ (b << 17)
}

/// The generator after so many rounds.
pub open spec fn shuffled_times(seed: u64, rounds: nat) -> u64
    decreases rounds,
{
    if rounds == 0 {
        seed
    } else {
        shuffled(shuffled_times(seed, (rounds - 1) as nat))
    }
}

/// The character that a state of the generator stands for.
pub open spec fn id_char(state: u64) -> char {
    id_chars()[(state as usize % 31) as int]
}

/// The name that a seed gives.
pub open spec fn id_from(seed: u64) -> Seq<char> {
    Seq::new(8, |i: int| id_char(shuffled_times(seed, (i + 1) as nat)))
}

/// The seed that the time, in nanoseconds, and the number of the process give.
pub open spec fn seed_of(nanos: u128, pid: u32) -> u64 {
    (nanos as u64) ^ (pid as u64)
}

/// A pool's name, made from the time, in nanoseconds, and the number of the process.
pub fn generate_id(nanos: u128, pid: u32) -> (r: String)
    ensures
        r@ == id_from(seed_of(nanos, pid)),
{
    let seed: u64 = (nanos as u64) ^ (pid as u64);
    let chars: Vec<char> = vec![
        'a', 'b', 'c', 'd', 'e', 'f', 'g', 'h', 'j', 'k', 'm', 'n', 'p', 'q', 'r', 's', 't',
        'u', 'v', 'w', 'x', 'y', 'z', '2', '3', '4', '5', '6', '7', '8', '9',
    ];
    assert(chars@ =~= id_chars());
    let mut id = String::new();
    let mut state: u64 = seed;
    let mut i: usize = 0;
    while i < ID_LENGTH
        invariant
            i <= 8,
            chars@ == id_chars(),
            chars@.len() == 31,
            state == shuffled_times(seed, i as nat),
            id@ == id_from(seed).take(i as int),
        decreases 8 - i,
    {
        state = state ^ (state << 13);
        state = state ^ (state >> 7);
        state = state ^ (state << 17);
        let index: usize = (state as usize) % 31;
        id.push(chars[index]);
        i += 1;
        assert(id_from(seed).take(i as int) =~= id_from(seed).take(i - 1).push(
            id_from(seed)[i - 1],
        ));
    }
    assert(id_from(seed).take(8) =~= id_from(seed));
    id
}

/// A pool's name is eight characters long, each of which is one of those allowed, so it
/// holds no slash.
pub proof fn law_id_is_short_and_plain(seed: u64)
    ensures
        id_from(seed).len() == 8,
        forall|i: int| 0 <= i < 8 ==> id_chars().contains(#[trigger] id_from(seed)[i]),
        crate::path::plain_name(id_from(seed)),
{
    let id = id_from(seed);
    let chars = id_chars();
    assert(chars.len() == 31);
    assert forall|k: int| 0 <= k < 31 implies chars[k] != '/' by {}
    assert forall|i: int| 0 <= i < 8 implies id_chars().contains(#[trigger] id[i]) && id[i] != '/' by {
        let k = (shuffled_times(seed, (i + 1) as nat) as usize % 31) as int;
        assert(chars[k] == id[i]);
    }
    assert(seq!['.'].len() == 1);
}

/// Where pools lie unless it is said otherwise: under `/tmp` on Unix, and in the directory
/// for temporary files elsewhere.
pub fn default_pool_root(unix: bool, temp_dir: &str) -> (r: String)
    ensures
        r@ == if unix {
            "/tmp/agent_pool"@
        } else {
            joined(temp_dir@, "agent_pool"@)
        },
{
    if unix {
        "/tmp/agent_pool".to_owned()
    } else {
        join(temp_dir, "agent_pool")
    }
}

/// Where the pool with this name lies.
pub fn id_to_path(pool_root: &str, id: &str) -> (r: String)
    ensures
        r@ == joined(pool_root@, id@),
{
    join(pool_root, id)
}

/// Where the pool lies that a reference stands for: a reference with a slash is a path, any
/// other is a name.
pub open spec fn pool_at(pool_root: Seq<char>, reference: Seq<char>) -> Seq<char> {
    if reference.contains('/') {
        reference
    } else {
        joined(pool_root, reference)
    }
}

/// Where the pool lies that a reference stands for.
pub fn resolve_pool(pool_root: &str, reference: &str) -> (r: String)
    ensures
        r@ == pool_at(pool_root@, reference@),
{
    if holds_char(reference, '/') {
        reference.to_owned()
    } else {
        id_to_path(pool_root, reference)
    }
}

/// A pool that was made up is found again by its name.
pub proof fn law_generated_id_resolves(pool_root: Seq<char>, seed: u64)
    ensures
        pool_at(pool_root, id_from(seed)) == joined(pool_root, id_from(seed)),
        crate::path::below(
            crate::path::parts(pool_at(pool_root, id_from(seed))),
            crate::path::parts(pool_root),
        ) == Some(id_from(seed)),
{
    law_id_is_short_and_plain(seed);
    crate::path::law_join_adds_one_component(pool_root, id_from(seed));
}

/// What is said of a pool.
#[derive(Debug, Clone, PartialEq, Eq)]
pub struct PoolInfo {
    /// Its name.
    pub id: String,
    /// Where it lies.
    pub path: String,
    /// Whether its daemon runs.
    pub running: bool,
}

/// A pool's name, place and state.
#[verifier::ext_equal]
pub struct PoolText {
    /// Its name.
    pub id: Seq<char>,
    /// Where it lies.
    pub path: Seq<char>,
    /// Whether its daemon runs.
    pub running: bool,
}

impl View for PoolInfo {
    type V = PoolText;

    open spec fn view(&self) -> PoolText {
        PoolText { id: self.id@, path: self.path@, running: self.running }
    }
}

/// The names, places and states of a list of pools.
pub open spec fn pool_texts(pools: Seq<PoolInfo>) -> Seq<PoolText> {
    Seq::new(pools.len(), |i: int| pools[i]@)
}

/// The pools among the entries of the directory of pools: its directories. `running` says of
/// each entry whether a daemon runs there.
pub open spec fn pools_among(
    pool_root: Seq<char>,
    entries: Seq<EntryText>,
    running: Seq<bool>,
) -> Seq<PoolText>
    decreases entries.len(),
{
    if entries.len() == 0 {
        Seq::empty()
    } else {
        let before = pools_among(pool_root, entries.drop_last(), running);
        let entry = entries.last();
        if entry.is_dir {
            before.push(
                PoolText {
                    id: entry.name,
                    path: joined(pool_root, entry.name),
                    running: running[entries.len() - 1],
                },
            )
        } else {
            before
        }
    }
}

/// The pools among the entries of the directory of pools.
pub fn list_pools(pool_root: &str, entries: &Vec<Entry>, running: &Vec<bool>) -> (r: Vec<PoolInfo>)
    requires
        entries@.len() == running@.len(),
    ensures
        pool_texts(r@) == pools_among(pool_root@, entry_texts(entries@), running@),
{
    let ghost all = entry_texts(entries@);
    let mut pools: Vec<PoolInfo> = Vec::new();
    let mut i: usize = 0;
    assert(all.take(0) =~= Seq::empty());
    assert(pool_texts(pools@) =~= Seq::empty());
    while i < entries.len()
        invariant
            i <= entries@.len(),
            entries@.len() == running@.len(),
            all == entry_texts(entries@),
            pool_texts(pools@) == pools_among(pool_root@, all.take(i as int), running@),
        decreases entries@.len() - i,
    {
        let entry = &entries[i];
        let ghost before = pool_texts(pools@);
        assert(all.take(i + 1).drop_last() =~= all.take(i as int));
        assert(all.take(i + 1).last() == entry@);
        if entry.is_dir {
            let info = PoolInfo {
                id: entry.name.clone(),
                path: join(pool_root, &entry.name),
                running: running[i],
            };
            let ghost text = info@;
            pools.push(info);
            assert(pool_texts(pools@) =~= before.push(text));
        }
        i += 1;
    }
    assert(all.take(i as int) =~= all);
    pools
}

/// Whether a pool's name is none: it holds a path separator. The answer is what is said of
/// it.
pub fn validate_pool_id(pool: &str) -> (r: Result<(), String>)
    ensures
        match r {
            Ok(valid) => !pool@.contains('/') && !pool@.contains('\\'),
            Err(message) => (pool@.contains('/') || pool@.contains('\\')) && message@
                == "Pool ID cannot contain path separators. Got: '"@ + pool@
                + "'. Use --pool-root to specify the base directory."@,
        },
{
    if holds_char(pool, '/') || holds_char(pool, '\\') {
        Err(
            concat3(
                "Pool ID cannot contain path separators. Got: '",
                pool,
                "'. Use --pool-root to specify the base directory.",
            ),
        )
    } else {
        Ok(())
    }
}

} // verus!
