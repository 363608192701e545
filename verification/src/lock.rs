//! The lock file that lets only one daemon run in a pool.
use crate::constants::LOCK_FILE;
use crate::decimal::{decimal, format_unsigned, parse_unsigned, parsed};
use crate::error::{ErrorKind, PoolError};
use crate::path::{join, joined};
use crate::text::{concat2, concat3, trim, trimmed};
use vstd::prelude::*;

verus! {

/// A lock that is held: its file, which is removed when the lock is given up.
#[derive(Debug, PartialEq, Eq)]
pub struct LockGuard {
    /// The lock file.
    pub path: String,
}

/// The process that a lock file names.
pub open spec fn owner_in(text: Seq<char>) -> Option<nat> {
    parsed(trimmed(text), u32::MAX as nat)
}

/// The process that a lock file names, where it can be read and names one.
pub fn lock_owner(text: Option<&str>) -> (r: Option<u32>)
    ensures
        match r {
            Some(pid) => text matches Some(t) && owner_in(t@) == Some(pid as nat),
            None => text matches Some(t) ==> owner_in(t@) is None,
        },
{
    match text {
        Some(text) => match parse_unsigned(&trim(text), u32::MAX as u64) {
            Some(pid) => Some(pid as u32),
            None => None,
        },
        None => None,
    }
}

/// The lock file of the pool at `root`.
pub fn lock_path(root: &str) -> (r: String)
    ensures
        r@ == joined(root@, LOCK_FILE@),
{
    join(root, LOCK_FILE)
}

/// How to take a lock.
#[derive(Debug, PartialEq, Eq)]
pub struct LockPlan {
    /// Whether a stale lock file is to be removed first.
    pub remove_stale: bool,
    /// What is written to the lock file.
    pub content: String,
    /// What is said, before the cause, when a stale lock file cannot be removed.
    pub remove_error: String,
    /// What is said, before the cause, when the lock file cannot be written.
    pub write_error: String,
    /// The lock, held once the file is written.
    pub guard: LockGuard,
}

/// How the daemon with the process number `pid` takes the lock. `exists` says whether the
/// lock file is there, `owner` which process it names, and `owner_runs` whether that
/// process runs. The lock cannot be taken from a process that runs; a lock file that names
/// none, or one that does not run, is stale.
pub fn acquire_lock(
    lock_path: &str,
    exists: bool,
    owner: Option<u32>,
    owner_runs: bool,
    pid: u32,
) -> (r: Result<LockPlan, PoolError>)
    ensures
        match r {
            Ok(plan) => {
                &&& !(exists && owner is Some && owner_runs)
                &&& plan.remove_stale == exists
                &&& plan.content@ == decimal(pid as nat)
                &&& plan.remove_error@ == "[E067] failed to remove stale lock "@ + lock_path@ + ": "@
                &&& plan.write_error@ == "[E068] failed to write lock file "@ + lock_path@ + ": "@
                &&& plan.guard.path@ == lock_path@
            },
            Err(error) => exists && owner_runs && (owner matches Some(other) && error.says(
                ErrorKind::AlreadyExists,
                "[E029] daemon already running (PID "@ + decimal(other as nat) + ", lock file "@
                    + lock_path@ + ")"@,
            )),
        },
{
    if exists && owner_runs {
        if let Some(other) = owner {
            let mut message = concat3(
                "[E029] daemon already running (PID ",
                &format_unsigned(other as u64),
                ", lock file ",
            );
            message.append(lock_path);
            message.append(")");
            return Err(PoolError { kind: ErrorKind::AlreadyExists, message });
        }
    }
    Ok(
        LockPlan {
            remove_stale: exists,
            content: format_unsigned(pid as u64),
            remove_error: concat3("[E067] failed to remove stale lock ", lock_path, ": "),
            write_error: concat3("[E068] failed to write lock file ", lock_path, ": "),
            guard: LockGuard { path: lock_path.to_owned() },
        },
    )
}

/// Whether a daemon runs: its lock file names a process, and that process runs.
pub fn is_daemon_running(owner: Option<u32>, owner_runs: bool) -> (r: bool)
    ensures
        r == (owner is Some && owner_runs),
{
    owner.is_some() && owner_runs
}

/// What a daemon writes to its lock file names that daemon.
pub proof fn law_lock_names_its_owner(pid: u32)
    ensures
        owner_in(decimal(pid as nat)) == Some(pid as nat),
{
    crate::decimal::lemma_decimal(pid as nat);
    crate::decimal::law_decimal_reads_back(pid as nat, u32::MAX as nat);
    let digits = decimal(pid as nat);
    assert(crate::decimal::is_digit(digits[0]));
    assert(crate::decimal::is_digit(digits[digits.len() - 1]));
    assert(trimmed(digits) == digits);
}

/// How to stop a daemon.
#[derive(Debug, PartialEq, Eq)]
pub struct StopPlan {
    /// The status file.
    pub status_path: String,
    /// What is written to it.
    pub content: String,
    /// The process that is ended if it still runs a moment later.
    pub pid: u32,
}

/// How to stop the daemon of the pool at `root`. `lock_exists` says whether its lock file is
/// there, and `owner` which process it names; `complaint` is what is said where it names none.
pub fn stop(root: &str, lock_exists: bool, owner: Option<u32>, complaint: &str) -> (r: Result<
    StopPlan,
    PoolError,
>)
    ensures
        match r {
            Ok(plan) => {
                &&& lock_exists
                &&& plan.status_path@ == joined(root@, crate::constants::STATUS_FILE@)
                &&& plan.content@ == crate::constants::STATUS_STOP@
                &&& owner == Some(plan.pid)
            },
            Err(error) => {
                ||| !lock_exists && error.says(
                    ErrorKind::NotFound,
                    "no daemon running (lock file not found)"@,
                )
                ||| lock_exists && owner is None && error.says(ErrorKind::InvalidData, complaint@)
            },
        },
{
    if !lock_exists {
        return Err(PoolError::new(ErrorKind::NotFound, "no daemon running (lock file not found)"));
    }
    match owner {
        Some(pid) => Ok(
            StopPlan {
                status_path: join(root, crate::constants::STATUS_FILE),
                content: crate::constants::STATUS_STOP.to_owned(),
                pid,
            },
        ),
        None => Err(PoolError::new(ErrorKind::InvalidData, complaint)),
    }
}

/// What becomes of a process that was to be ended, where `ended` says whether that went well.
pub fn terminate_process(pid: u32, ended: bool) -> (r: Result<(), PoolError>)
    ensures
        match r {
            Ok(done) => ended,
            Err(error) => !ended && error.says(
                ErrorKind::Other,
                "failed to terminate process "@ + decimal(pid as nat),
            ),
        },
{
    if ended {
        Ok(())
    } else {
        Err(
            PoolError {
                kind: ErrorKind::Other,
                message: concat2("failed to terminate process ", &format_unsigned(pid as u64)),
            },
        )
    }
}

/// A lock file names its owner with a line break behind the number too, and one that holds no
/// number, or one that is too large for a process, names none.
pub proof fn law_lock_file_may_end_in_a_line_break(pid: u32)
    ensures
        owner_in(decimal(pid as nat).push('\n')) == Some(pid as nat),
        owner_in(Seq::empty()) is None,
        owner_in(decimal(u32::MAX as nat + 1)) is None,
{
    let digits = decimal(pid as nat);
    let line = digits.push('\n');
    crate::decimal::lemma_decimal(pid as nat);
    crate::decimal::law_decimal_reads_back(pid as nat, u32::MAX as nat);
    law_lock_names_its_owner(pid);
    assert(crate::decimal::is_digit(digits[0]));
    assert(crate::decimal::is_digit(digits[digits.len() - 1]));
    assert(line[0] == digits[0]);
    assert(crate::text::trim_start(line) == line);
    assert(line.drop_last() =~= digits);
    assert(!crate::text::is_white_space(digits.last()));
    assert(crate::text::is_white_space('\n'));
    assert(crate::text::trim_end(digits) == digits);
    assert(crate::text::trim_end(line) == crate::text::trim_end(digits));
    assert(trimmed(Seq::<char>::empty()) =~= Seq::empty());
    let big = decimal(u32::MAX as nat + 1);
    crate::decimal::lemma_decimal(u32::MAX as nat + 1);
    assert(crate::decimal::is_digit(big[0]));
    assert(crate::decimal::is_digit(big[big.len() - 1]));
    assert(trimmed(big) == big);
}

} // verus!
