//! Waiting for files to appear.
//!
//! A watch on a directory may miss what happens just after it was set up. So a canary
//! file is written to each watched directory, and rewritten until something is heard from
//! that directory. Waiting ends when the file appears, when the pool is stopped, when time
//! is up, or when the watch breaks.
use crate::constants::{SCRATCH_DIR, STATUS_FILE, STATUS_STOP};
use crate::decimal::{decimal, format_unsigned};
use crate::error::{ErrorKind, PoolError};
use crate::ids::{fresh_uuid, is_uuid};
use crate::path::{Parts, join, joined, outer, parent, parts, same_path};
use crate::text::{concat2, concat3, has_prefix, starts_with, texts, trim, trimmed};
use crate::transport::{AtomicWrite, WriteText};
use vstd::prelude::*;

verus! {

/// Why a wait ended without the file.
#[derive(Debug, Clone, PartialEq, Eq)]
pub enum WaitError {
    /// The pool is stopped.
    Stopped,
    /// Something went wrong.
    Io(PoolError),
}

impl WaitError {
    /// The error that callers see: a stopped pool interrupts the wait.
    pub fn into_error(self) -> (r: PoolError)
        ensures
            match self {
                WaitError::Stopped => r.says(ErrorKind::Interrupted, "pool stopped"@),
                WaitError::Io(error) => r == error,
            },
    {
        match self {
            WaitError::Stopped => PoolError::new(ErrorKind::Interrupted, "pool stopped"),
            WaitError::Io(error) => error,
        }
    }
}

/// A write of a file of the pool by way of its scratch directory.
pub open spec fn scratch_write(
    pool_root: Seq<char>,
    target: Seq<char>,
    content: Seq<char>,
    unique: Seq<char>,
) -> WriteText {
    let temp = joined(joined(pool_root, SCRATCH_DIR@), unique + ".tmp"@);
    WriteText {
        temp,
        target,
        content,
        write_error: "[E001] failed to write temp file "@ + temp + ": "@,
        rename_error: "[E002] failed to rename "@ + temp + " to "@ + target + ": "@,
    }
}

/// A write of a file of the pool by way of its scratch directory, with `unique` in the
/// name of the temporary file.
pub fn atomic_write_with(pool_root: &str, target: &str, content: &str, unique: &str) -> (r:
    AtomicWrite)
    ensures
        r@ == scratch_write(pool_root@, target@, content@, unique@),
{
    let temp = join(&join(pool_root, SCRATCH_DIR), &concat2(unique, ".tmp"));
    let write_error = concat3("[E001] failed to write temp file ", &temp, ": ");
    let mut rename_error = concat3("[E002] failed to rename ", &temp, " to ");
    rename_error.append(target);
    rename_error.append(": ");
    AtomicWrite {
        temp,
        target: target.to_owned(),
        content: content.to_owned(),
        write_error,
        rename_error,
    }
}

/// A write of a file of the pool by way of its scratch directory, with a fresh UUID in
/// the name of the temporary file.
pub fn atomic_write_str(pool_root: &str, target: &str, content: &str) -> (r: AtomicWrite)
    ensures
        exists|unique: Seq<char>|
            is_uuid(unique) && r@ == #[trigger] scratch_write(
                pool_root@,
                target@,
                content@,
                unique,
            ),
{
    let unique = fresh_uuid();
    atomic_write_with(pool_root, target, content, &unique)
}

/// The temporary file of a write by way of the scratch directory is none that lies elsewhere,
/// and writes with different names in theirs have different temporary files.
pub proof fn law_scratch_file_is_its_own(
    pool_root: Seq<char>,
    target: Seq<char>,
    content: Seq<char>,
    unique: Seq<char>,
    other: Seq<char>,
)
    requires
        !unique.contains('/'),
        !other.contains('/'),
        outer(parts(target)) != parts(joined(pool_root, SCRATCH_DIR@)),
    ensures
        ({
            let write = scratch_write(pool_root, target, content, unique);
            &&& parts(write.temp) != parts(write.target)
            &&& unique != other ==> parts(write.temp) != parts(
                scratch_write(pool_root, target, content, other).temp,
            )
        }),
{
    lemma_scratch_name(joined(pool_root, SCRATCH_DIR@), unique);
    lemma_scratch_name(joined(pool_root, SCRATCH_DIR@), other);
    if unique + ".tmp"@ == other + ".tmp"@ {
        crate::text::law_suffix_comes_off(unique, ".tmp"@);
        crate::text::law_suffix_comes_off(other, ".tmp"@);
    }
}

proof fn lemma_scratch_name(dir: Seq<char>, unique: Seq<char>)
    requires
        !unique.contains('/'),
    ensures
        outer(parts(joined(dir, unique + ".tmp"@))) == parts(dir),
        parts(joined(dir, unique + ".tmp"@)).names.last() == unique + ".tmp"@,
{
    reveal_strlit(".tmp");
    let name = unique + ".tmp"@;
    assert forall|i: int| 0 <= i < name.len() implies name[i] != '/' by {
        if i < unique.len() {
            assert(unique.contains(unique[i]));
        } else {
            assert(name[i] == ".tmp"@[i - unique.len()]);
        }
    }
    assert(name.len() > 1);
    assert(seq!['.'].len() == 1);
    crate::path::law_join_adds_one_component(dir, name);
    assert(crate::path::inner(parts(dir), name).names.drop_last() =~= parts(dir).names);
}

/// Whether the text of the status file asks the pool to stop.
pub open spec fn asks_stop(status: Seq<char>) -> bool {
    has_prefix(trimmed(status), STATUS_STOP@)
}

/// Whether the status file, if there is one, asks the pool to stop.
pub fn is_stop_requested(status: Option<&str>) -> (r: bool)
    ensures
        r == (status matches Some(text) && asks_stop(text@)),
{
    match status {
        Some(text) => starts_with(&trim(text), STATUS_STOP),
        None => false,
    }
}

/// A canary file: its directory, its path, and how often it was rewritten.
#[derive(Debug, PartialEq, Eq)]
pub struct CanaryGuard {
    path: String,
    dir: String,
    writes: u32,
}

/// A canary's texts and count.
#[verifier::ext_equal]
pub struct Canary {
    /// The canary file.
    pub path: Seq<char>,
    /// The directory that it is in.
    pub dir: Seq<char>,
    /// How often it was rewritten.
    pub writes: u32,
}

impl View for CanaryGuard {
    type V = Canary;

    closed spec fn view(&self) -> Canary {
        Canary { path: self.path@, dir: self.dir@, writes: self.writes }
    }
}

/// A file to be written in place.
#[derive(Debug, Clone, PartialEq, Eq)]
pub struct PlainWrite {
    /// The file.
    pub path: String,
    /// The content.
    pub content: String,
    /// What is said, before the cause, when writing fails.
    pub write_error: String,
}

impl CanaryGuard {
    /// The canary of a directory with `unique` in its name, and its first write.
    pub fn new_with(dir: &str, unique: &str) -> (r: (CanaryGuard, PlainWrite))
        ensures
            r.0@.dir == dir@,
            r.0@.path == joined(dir@, unique@ + ".canary"@),
            r.0@.writes == 0,
            r.1.path@ == r.0@.path,
            r.1.content@ == "0"@,
            r.1.write_error@ == "[E048] failed to write canary file "@ + r.0@.path + ": "@,
    {
        let path = join(dir, &concat2(unique, ".canary"));
        let write = PlainWrite {
            path: path.clone(),
            content: "0".to_owned(),
            write_error: concat3("[E048] failed to write canary file ", &path, ": "),
        };
        (CanaryGuard { path, dir: dir.to_owned(), writes: 0 }, write)
    }

    /// The canary of a directory with a fresh UUID in its name, and its first write.
    pub fn new(dir: &str) -> (r: (CanaryGuard, PlainWrite))
        ensures
            r.0@.dir == dir@,
            exists|unique: Seq<char>|
                is_uuid(unique) && r.0@.path == #[trigger] joined(dir@, unique + ".canary"@),
            r.0@.writes == 0,
            r.1.path@ == r.0@.path,
            r.1.content@ == "0"@,
            r.1.write_error@ == "[E048] failed to write canary file "@ + r.0@.path + ": "@,
    {
        let unique = fresh_uuid();
        CanaryGuard::new_with(dir, &unique)
    }

    /// The directory that the canary is in.
    pub fn dir(&self) -> (r: &str)
        ensures
            r@ == self@.dir,
    {
        self.dir.as_str()
    }

    /// The canary file.
    pub fn path(&self) -> (r: &str)
        ensures
            r@ == self@.path,
    {
        self.path.as_str()
    }

    /// Whether the canary can be rewritten once more, with its count going up.
    pub fn can_retry(&self) -> (r: bool)
        ensures
            r == (self@.writes < u32::MAX),
    {
        self.writes < u32::MAX
    }

    /// The next write of the canary: it says how often it was rewritten.
    pub fn retry(&mut self) -> (r: PlainWrite)
        requires
            old(self)@.writes < u32::MAX,
        ensures
            final(self)@ == (Canary { writes: (old(self)@.writes + 1) as u32, ..old(self)@ }),
            r.path@ == old(self)@.path,
            r.content@ == decimal((old(self)@.writes + 1) as nat),
            r.write_error@ == "[E049] failed to write canary file "@ + old(self)@.path
                + " (retry "@ + decimal((old(self)@.writes + 1) as nat) + "): "@,
    {
        self.writes = self.writes + 1;
        let count = format_unsigned(self.writes as u64);
        let mut write_error = concat3("[E049] failed to write canary file ", &self.path, " (retry ");
        write_error.append(&count);
        write_error.append("): ");
        PlainWrite { path: self.path.clone(), content: count, write_error }
    }
}

/// What came of listening for a moment.
#[derive(Debug, Clone, PartialEq, Eq)]
pub enum Heard {
    /// Something happened to these paths.
    Paths(Vec<String>),
    /// Nothing happened.
    Nothing,
    /// The watch is broken.
    Closed,
}

/// What to do next in a wait.
#[derive(Debug, Clone, PartialEq, Eq)]
pub enum WaitStep {
    /// The file is there.
    Found,
    /// The wait ends with an error.
    Failed(WaitError),
    /// Listen on.
    Listen,
    /// Rewrite the canaries that are left, then listen on.
    RewriteCanaries,
}

/// Watches a pool, with the canaries of the directories from which nothing was heard yet.
#[derive(Debug, PartialEq, Eq)]
pub struct VerifiedWatcher {
    /// The canaries that are left.
    pub remaining_canaries: Vec<CanaryGuard>,
    /// The status file of the pool.
    pub stop_path: String,
}

/// The texts and counts of a list of canaries.
pub open spec fn canaries(guards: Seq<CanaryGuard>) -> Seq<Canary> {
    Seq::new(guards.len(), |i: int| guards[i]@)
}

/// Whether something that happened to `path` was heard from the canary's directory.
pub open spec fn heard_from(canary: Canary, path: Parts) -> bool {
    path.names.len() > 0 && parts(canary.dir) == outer(path)
}

/// The canaries that are left once something happened to `path`.
pub open spec fn left_after(all: Seq<Canary>, path: Parts) -> Seq<Canary> {
    all.filter(|canary: Canary| !heard_from(canary, path))
}

/// The canaries that are left once something happened to each of the paths.
pub open spec fn left_after_all(all: Seq<Canary>, paths: Seq<Seq<char>>) -> Seq<Canary>
    decreases paths.len(),
{
    if paths.len() == 0 {
        all
    } else {
        left_after_all(left_after(all, parts(paths[0])), paths.skip(1))
    }
}

/// How many of the paths count for a wait: all up to the first that ends it, which is the
/// status file of a pool that is to stop, or the file that is waited for.
pub open spec fn paths_that_count(
    paths: Seq<Seq<char>>,
    stop_path: Parts,
    stop_now: bool,
    target: Parts,
) -> nat
    decreases paths.len(),
{
    if paths.len() == 0 {
        0
    } else if (parts(paths[0]) == stop_path && stop_now) || parts(paths[0]) == target {
        1
    } else {
        1 + paths_that_count(paths.skip(1), stop_path, stop_now, target)
    }
}

/// What the first path that ends a wait comes to: the pool is stopped (`false`), or the
/// file is there (`true`).
pub open spec fn first_end(
    paths: Seq<Seq<char>>,
    stop_path: Parts,
    stop_now: bool,
    target: Parts,
) -> Option<bool>
    decreases paths.len(),
{
    if paths.len() == 0 {
        None
    } else if parts(paths[0]) == stop_path && stop_now {
        Some(false)
    } else if parts(paths[0]) == target {
        Some(true)
    } else {
        first_end(paths.skip(1), stop_path, stop_now, target)
    }
}

impl VerifiedWatcher {
    /// A watcher of the pool at `watch_dir` with these canaries.
    pub fn new(watch_dir: &str, guards: Vec<CanaryGuard>) -> (r: VerifiedWatcher)
        ensures
            r.stop_path@ == joined(watch_dir@, STATUS_FILE@),
            r.remaining_canaries == guards,
    {
        VerifiedWatcher { remaining_canaries: guards, stop_path: join(watch_dir, STATUS_FILE) }
    }

    /// What a wait comes to before any listening, if it ends there: the file is there, or
    /// the pool is stopped.
    pub fn begin_wait(target_exists: bool, status: Option<&str>) -> (r: Option<
        Result<(), WaitError>,
    >)
        ensures
            r == if target_exists {
                Some(Ok::<(), WaitError>(()))
            } else if status matches Some(text) && asks_stop(text@) {
                Some(Err::<(), WaitError>(WaitError::Stopped))
            } else {
                None
            },
    {
        if target_exists {
            Some(Ok(()))
        } else if is_stop_requested(status) {
            Some(Err(WaitError::Stopped))
        } else {
            None
        }
    }

    /// How many milliseconds to listen, where so many are left, or as many as it takes: a
    /// tenth of a second, or what is left if that is less. It is an error that none is left.
    pub fn listen_time(remaining: Option<u64>, target: &str) -> (r: Result<u64, WaitError>)
        ensures
            match r {
                Ok(millis) => {
                    &&& remaining != Some(0u64)
                    &&& millis == match remaining {
                        Some(left) => if left < 100 {
                            left
                        } else {
                            100
                        },
                        None => 100,
                    }
                },
                Err(error) => remaining == Some(0u64) && (error matches WaitError::Io(e) && e.says(
                    ErrorKind::TimedOut,
                    "[E046] timed out waiting for "@ + target@,
                )),
            },
    {
        match remaining {
            Some(left) => {
                if left == 0 {
                    Err(
                        WaitError::Io(
                            PoolError {
                                kind: ErrorKind::TimedOut,
                                message: concat2("[E046] timed out waiting for ", target),
                            },
                        ),
                    )
                } else if left < 100 {
                    Ok(left)
                } else {
                    Ok(100)
                }
            },
            None => Ok(100),
        }
    }

    /// Takes out the canaries of directories from which `path` was heard.
    fn prune(&mut self, path: &str)
        ensures
            canaries(final(self).remaining_canaries@) == left_after(
                canaries(old(self).remaining_canaries@),
                parts(path@),
            ),
            final(self).stop_path == old(self).stop_path,
    {
        let dir = match parent(path) {
            Some(dir) => dir,
            None => {
                proof {
                    lemma_keep_all(canaries(self.remaining_canaries@), parts(path@));
                }
                return ;
            },
        };
        let ghost all = canaries(self.remaining_canaries@);
        let ghost keep = |canary: Canary| !heard_from(canary, parts(path@));
        let mut kept: Vec<CanaryGuard> = Vec::new();
        let mut i: usize = 0;
        proof {
            reveal(Seq::filter);
            assert(all.take(0).filter(keep) =~= Seq::empty());
            assert(canaries(kept@) =~= Seq::empty());
        }
        while i < self.remaining_canaries.len()
            invariant
                i <= self.remaining_canaries@.len(),
                all == canaries(self.remaining_canaries@),
                keep == (|canary: Canary| !heard_from(canary, parts(path@))),
                parts(path@).names.len() > 0,
                parts(dir@) == outer(parts(path@)),
                canaries(kept@) == all.take(i as int).filter(keep),
                self.stop_path == old(self).stop_path,
            decreases self.remaining_canaries@.len() - i,
        {
            let guard = &self.remaining_canaries[i];
            let ghost before = canaries(kept@);
            proof {
                reveal(Seq::filter);
                assert(all.take(i + 1).drop_last() =~= all.take(i as int));
                assert(all.take(i + 1).last() == guard@);
            }
            if !same_path(&guard.dir, &dir) {
                let same = CanaryGuard {
                    path: guard.path.clone(),
                    dir: guard.dir.clone(),
                    writes: guard.writes,
                };
                assert(same@ == guard@);
                kept.push(same);
                assert(canaries(kept@) =~= before.push(guard@));
            }
            i += 1;
        }
        assert(all.take(i as int) =~= all);
        self.remaining_canaries = kept;
    }

    /// What to do after listening in a wait for `target`. `status` is the text of the
    /// status file, and `target_exists` whether the file is there now.
    pub fn wait_for_file(
        &mut self,
        target: &str,
        heard: &Heard,
        status: Option<&str>,
        target_exists: bool,
    ) -> (r: WaitStep)
        ensures
            ({
                let stop_now = status matches Some(text) && asks_stop(text@);
                let stop_path = parts(old(self).stop_path@);
                match heard {
                    Heard::Paths(paths) => {
                        let all = texts(paths@);
                        let end = first_end(all, stop_path, stop_now, parts(target@));
                        &&& r == match end {
                            Some(true) => WaitStep::Found,
                            Some(false) => WaitStep::Failed(WaitError::Stopped),
                            None => if target_exists {
                                WaitStep::Found
                            } else {
                                WaitStep::Listen
                            },
                        }
                        &&& canaries(final(self).remaining_canaries@) == left_after_all(
                            canaries(old(self).remaining_canaries@),
                            all.take(
                                paths_that_count(all, stop_path, stop_now, parts(target@)) as int,
                            ),
                        )
                    },
                    Heard::Nothing => {
                        &&& r == if target_exists {
                            WaitStep::Found
                        } else {
                            WaitStep::RewriteCanaries
                        }
                        &&& canaries(final(self).remaining_canaries@) == canaries(
                            old(self).remaining_canaries@,
                        )
                    },
                    Heard::Closed => {
                        &&& r matches WaitStep::Failed(WaitError::Io(error)) && error.says(
                            ErrorKind::BrokenPipe,
                            "[E003] watcher disconnected while waiting for "@ + target@,
                        )
                        &&& canaries(final(self).remaining_canaries@) == canaries(
                            old(self).remaining_canaries@,
                        )
                    },
                }
            }),
            final(self).stop_path == old(self).stop_path,
    {
        match heard {
            Heard::Paths(paths) => {
                let stop_now = is_stop_requested(status);
                let ghost all = texts(paths@);
                let ghost stop_path = parts(self.stop_path@);
                let ghost wanted = parts(target@);
                let ghost count = paths_that_count(all, stop_path, stop_now, wanted);
                let ghost start = canaries(self.remaining_canaries@);
                let mut i: usize = 0;
                assert(all.skip(0) =~= all);
                while i < paths.len()
                    invariant
                        i <= paths@.len(),
                        *heard == Heard::Paths(*paths),
                        all == texts(paths@),
                        stop_path == parts(self.stop_path@),
                        wanted == parts(target@),
                        stop_now == (status matches Some(text) && asks_stop(text@)),
                        self.stop_path == old(self).stop_path,
                        start == canaries(old(self).remaining_canaries@),
                        count == paths_that_count(all, stop_path, stop_now, wanted),
                        count == i + paths_that_count(
                            all.skip(i as int),
                            stop_path,
                            stop_now,
                            wanted,
                        ),
                        first_end(all, stop_path, stop_now, wanted) == first_end(
                            all.skip(i as int),
                            stop_path,
                            stop_now,
                            wanted,
                        ),
                        left_after_all(start, all.take(i as int)) == canaries(
                            self.remaining_canaries@,
                        ),
                    decreases paths@.len() - i,
                {
                    proof {
                        assert(all.skip(i as int).skip(1) =~= all.skip(i + 1));
                        assert(all.skip(i as int)[0] == paths@[i as int]@);
                        lemma_left_after_one_more(start, all, i as int);
                    }
                    self.prune(&paths[i]);
                    if same_path(&paths[i], &self.stop_path) && stop_now {
                        return WaitStep::Failed(WaitError::Stopped);
                    }
                    if same_path(&paths[i], target) {
                        return WaitStep::Found;
                    }
                    i += 1;
                }
                assert(all.skip(i as int) =~= Seq::empty());
                if target_exists {
                    WaitStep::Found
                } else {
                    WaitStep::Listen
                }
            },
            Heard::Nothing => {
                if target_exists {
                    WaitStep::Found
                } else {
                    WaitStep::RewriteCanaries
                }
            },
            Heard::Closed => WaitStep::Failed(
                WaitError::Io(
                    PoolError {
                        kind: ErrorKind::BrokenPipe,
                        message: concat2("[E003] watcher disconnected while waiting for ", target),
                    },
                ),
            ),
        }
    }

    /// Whether something was heard from every directory.
    pub fn is_verified(&self) -> (r: bool)
        ensures
            r == (self.remaining_canaries@.len() == 0),
    {
        self.remaining_canaries.len() == 0
    }

    /// What to do after listening while the watch is verified: nothing more to do once
    /// something was heard from every directory. `overdue` says whether the time for it
    /// was over before listening, and `timeout` how long that time was.
    pub fn into_receiver(&mut self, heard: &Heard, overdue: bool, timeout: &str) -> (r:
        WaitStep)
        ensures
            if old(self).remaining_canaries@.len() == 0 {
                r == WaitStep::Found && *final(self) == *old(self)
            } else if overdue {
                &&& r matches WaitStep::Failed(WaitError::Io(error)) && error.says(
                    ErrorKind::TimedOut,
                    "[E047] watcher canary verification timed out after "@ + timeout@,
                )
                &&& *final(self) == *old(self)
            } else {
                match heard {
                    Heard::Paths(paths) => {
                        &&& canaries(final(self).remaining_canaries@) == left_after_all(
                            canaries(old(self).remaining_canaries@),
                            texts(paths@),
                        )
                        &&& r == if final(self).remaining_canaries@.len() == 0 {
                            WaitStep::Found
                        } else {
                            WaitStep::Listen
                        }
                        &&& final(self).stop_path == old(self).stop_path
                    },
                    Heard::Nothing => r == WaitStep::RewriteCanaries && *final(self) == *old(self),
                    Heard::Closed => {
                        &&& r matches WaitStep::Failed(WaitError::Io(error)) && error.says(
                            ErrorKind::BrokenPipe,
                            "[E004] watcher disconnected during canary verification"@,
                        )
                        &&& *final(self) == *old(self)
                    },
                }
            },
    {
        if self.remaining_canaries.len() == 0 {
            return WaitStep::Found;
        }
        if overdue {
            return WaitStep::Failed(
                WaitError::Io(
                    PoolError {
                        kind: ErrorKind::TimedOut,
                        message: concat2(
                            "[E047] watcher canary verification timed out after ",
                            timeout,
                        ),
                    },
                ),
            );
        }
        match heard {
            Heard::Paths(paths) => {
                let ghost all = texts(paths@);
                let ghost start = canaries(self.remaining_canaries@);
                let mut i: usize = 0;
                assert(all.take(0) =~= Seq::empty());
                while i < paths.len()
                    invariant
                        i <= paths@.len(),
                        all == texts(paths@),
                        self.stop_path == old(self).stop_path,
                        left_after_all(start, all.take(i as int)) == canaries(
                            self.remaining_canaries@,
                        ),
                    decreases paths@.len() - i,
                {
                    proof {
                        lemma_left_after_one_more(start, all, i as int);
                    }
                    self.prune(&paths[i]);
                    i += 1;
                }
                assert(all.take(i as int) =~= all);
                if self.remaining_canaries.len() == 0 {
                    WaitStep::Found
                } else {
                    WaitStep::Listen
                }
            },
            Heard::Nothing => WaitStep::RewriteCanaries,
            Heard::Closed => WaitStep::Failed(
                WaitError::Io(
                    PoolError::new(
                        ErrorKind::BrokenPipe,
                        "[E004] watcher disconnected during canary verification",
                    ),
                ),
            ),
        }
    }
}

/// How often a wait on a directory looks for the file before it listens.
pub const FIRST_LOOKS: u32 = 3;

/// How long, in microseconds, it pauses after each of these looks.
pub const LOOK_PAUSE_MICROS: u64 = 100;

/// What to do after one of the first looks for a file.
#[derive(Debug, Clone, Copy, PartialEq, Eq, Structural)]
pub enum FirstLook {
    /// The file is there.
    Found,
    /// Pause, then look again.
    LookAgain,
    /// Pause, then listen.
    Listen,
}

/// Watches a directory, with one canary until anything at all is heard.
#[derive(Debug, PartialEq, Eq)]
pub struct CanaryWatcher {
    /// The canary, until anything is heard.
    pub canary: Option<CanaryGuard>,
}

impl CanaryWatcher {
    /// What to do after one of the first looks for a file, `looks` of which were taken.
    pub fn first_look(looks: u32, target_exists: bool) -> (r: FirstLook)
        ensures
            r == if target_exists {
                FirstLook::Found
            } else if looks < FIRST_LOOKS {
                FirstLook::LookAgain
            } else {
                FirstLook::Listen
            },
    {
        if target_exists {
            FirstLook::Found
        } else if looks < FIRST_LOOKS {
            FirstLook::LookAgain
        } else {
            FirstLook::Listen
        }
    }

    /// What to do after listening in a wait for `target`: something happened to the path
    /// `heard`, or nothing did. Anything that is heard proves that the watch works.
    pub fn wait_for(&mut self, target: &str, heard: Option<&str>, target_exists: bool) -> (r:
        WaitStep)
        ensures
            match heard {
                Some(path) => {
                    &&& r == if target_exists || parts(path@) == parts(target@) {
                        WaitStep::Found
                    } else {
                        WaitStep::Listen
                    }
                    &&& final(self).canary is None
                },
                None => {
                    &&& r == if target_exists {
                        WaitStep::Found
                    } else if old(self).canary is Some {
                        WaitStep::RewriteCanaries
                    } else {
                        WaitStep::Listen
                    }
                    &&& *final(self) == *old(self)
                },
            },
    {
        match heard {
            Some(path) => {
                self.canary = None;
                if target_exists || same_path(path, target) {
                    WaitStep::Found
                } else {
                    WaitStep::Listen
                }
            },
            None => {
                if target_exists {
                    WaitStep::Found
                } else if self.canary.is_some() {
                    WaitStep::RewriteCanaries
                } else {
                    WaitStep::Listen
                }
            },
        }
    }

    /// What a wait comes to once its time is up: a last look for the file decides.
    pub fn time_is_up(target: &str, target_exists: bool) -> (r: Result<(), PoolError>)
        ensures
            match r {
                Ok(found) => target_exists,
                Err(error) => !target_exists && error.says(
                    ErrorKind::TimedOut,
                    "timed out waiting for "@ + target@,
                ),
            },
    {
        if target_exists {
            Ok(())
        } else {
            Err(
                PoolError {
                    kind: ErrorKind::TimedOut,
                    message: concat2("timed out waiting for ", target),
                },
            )
        }
    }
}

proof fn lemma_keep_all(all: Seq<Canary>, path: Parts)
    requires
        path.names.len() == 0,
    ensures
        left_after(all, path) == all,
    decreases all.len(),
{
    reveal(Seq::filter);
    if all.len() > 0 {
        lemma_keep_all(all.drop_last(), path);
        assert(all.drop_last().push(all.last()) =~= all);
    }
}

proof fn lemma_left_after_one_more(all: Seq<Canary>, paths: Seq<Seq<char>>, i: int)
    requires
        0 <= i < paths.len(),
    ensures
        left_after_all(all, paths.take(i + 1)) == left_after(
            left_after_all(all, paths.take(i)),
            parts(paths[i]),
        ),
    decreases i,
{
    let now = paths.take(i);
    let next = paths.take(i + 1);
    if i == 0 {
        assert(next.skip(1) =~= Seq::empty());
        assert(left_after_all(left_after(all, parts(next[0])), next.skip(1)) == left_after(
            all,
            parts(next[0]),
        ));
    } else {
        let rest = paths.skip(1);
        assert(next.skip(1) =~= rest.take(i));
        assert(now.skip(1) =~= rest.take(i - 1));
        lemma_left_after_one_more(left_after(all, parts(paths[0])), rest, i - 1);
    }
}

} // verus!
