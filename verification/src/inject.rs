//! What the launcher decides while it loads the agent library into a
//! process that it has started suspended: which build of the library the
//! process needs, how much memory the library's path takes up in the
//! process, and which thread to resume afterwards.
//!
//! The launcher itself makes the system calls.

use crate::runner::Arch;
use vstd::prelude::*;

verus! {

/// Why the library cannot be loaded into the process.
#[derive(Clone, Copy, Debug, PartialEq, Eq, Structural)]
pub enum InjectError {
    /// The library's path has a NUL character before its end.
    NulInPath,
    /// The library's path is too long to lay out in memory.
    PathTooLong,
}

/// A thread as the system's snapshot lists it.
#[derive(Clone, Copy, Debug, PartialEq, Eq, Structural)]
pub struct ThreadEntry {
    /// The process that the thread belongs to.
    pub owner: u32,
    /// The thread's identifier.
    pub thread: u32,
}

/// What the launcher learnt from the snapshot: the thread to resume, and
/// how many threads the process has.
#[derive(Clone, Copy, Debug, PartialEq, Eq, Structural)]
pub struct ThreadChoice {
    pub thread: Option<u32>,
    pub count: usize,
}

/// Number of 16-bit units that a character takes in UTF-16.
pub open spec fn units_of(c: char) -> nat {
    if (c as u32) < 0x10000 {
        1
    } else {
        2
    }
}

/// Number of 16-bit units that a string takes in UTF-16.
pub open spec fn wide_units(s: Seq<char>) -> nat
    decreases s.len(),
{
    if s.len() == 0 {
        0
    } else {
        wide_units(s.drop_last()) + units_of(s.last())
    }
}

/// The string has a NUL character that is not its last character.
pub open spec fn interior_nul(s: Seq<char>) -> bool {
    exists|i: int| 0 <= i < s.len() - 1 && s[i] == '\0'
}

/// Length in 16-bit units of the string as a wide C string, not counting
/// the terminator: a NUL that ends the string is the terminator itself.
pub open spec fn wide_c_units(s: Seq<char>) -> nat {
    if s.len() > 0 && s.last() == '\0' {
        (wide_units(s) - 1) as nat
    } else {
        wide_units(s)
    }
}

/// Bytes that a wide C string of `units` units takes up, terminator
/// included.
pub open spec fn bytes_for(units: nat) -> nat {
    2 * (units + 1)
}

/// The build of the agent library that a process needs: the 32-bit one
/// where the launcher itself is 32-bit or the system runs the process in
/// its 32-bit emulation.
pub fn target_arch(host_is_32bit: bool, is_wow64: bool) -> (a: Arch)
    ensures
        a == if host_is_32bit || is_wow64 {
            Arch::I686
        } else {
            Arch::X86_64
        },
{
    if host_is_32bit || is_wow64 {
        Arch::I686
    } else {
        Arch::X86_64
    }
}

/// The threads of `pid` among `entries`, in snapshot order.
pub open spec fn threads_of(entries: Seq<ThreadEntry>, pid: u32) -> Seq<ThreadEntry> {
    entries.filter(|e: ThreadEntry| e.owner == pid)
}

/// Picks the thread to resume: the last thread of the process in the
/// snapshot. Also counts the threads of the process.
pub fn find_thread(entries: &Vec<ThreadEntry>, pid: u32) -> (c: ThreadChoice)
    ensures
        c.count == threads_of(entries@, pid).len(),
        c.thread == if threads_of(entries@, pid).len() > 0 {
            Some(threads_of(entries@, pid).last().thread)
        } else {
            None
        },
{
    let ghost mine = |e: ThreadEntry| e.owner == pid;
    let mut thread: Option<u32> = None;
    let mut count: usize = 0;
    let mut i: usize = 0;
    proof {
        assert(entries@.take(0) =~= Seq::<ThreadEntry>::empty());
        reveal(Seq::filter);
    }
    while i < entries.len()
        invariant
            i <= entries.len(),
            mine == (|e: ThreadEntry| e.owner == pid),
            count == entries@.take(i as int).filter(mine).len(),
            count <= i,
            thread == if entries@.take(i as int).filter(mine).len() > 0 {
                Some(entries@.take(i as int).filter(mine).last().thread)
            } else {
                None
            },
        decreases entries.len() - i,
    {
        proof {
            entries@.lemma_take_succ_push(i as int);
            entries@.take(i as int).lemma_filter_push(entries@[i as int], mine);
        }
        if entries[i].owner == pid {
            thread = Some(entries[i].thread);
            count = count + 1;
        }
        i += 1;
    }
    proof {
        assert(entries@.take(i as int) =~= entries@);
    }
    ThreadChoice { thread, count }
}

/// Length of `path` as a wide C string, in 16-bit units without the
/// terminator; `None` where the path has a NUL before its end.
///
/// Calls `widestring::U16CString::from_str`, which encodes the string as
/// UTF-16 and returns an error where a NUL unit stands anywhere but last,
/// and `U16CString::len`, which counts the units without the terminator.
/// Only the NUL character encodes to a NUL unit.
#[verifier::external_body]
fn wide_c_len(path: &str) -> (r: Option<usize>)
    ensures
        r.is_none() == interior_nul(path@),
        r matches Some(n) ==> n == wide_c_units(path@),
{
    match widestring::U16CString::from_str(path) {
        Ok(wide) => Some(wide.len()),
        Err(_) => None,
    }
}

/// Bytes that a wide C string of `units` units takes up, terminator
/// included; `None` where that is more than fits in memory.
pub fn buffer_bytes(units: usize) -> (r: Option<usize>)
    ensures
        match r {
            Some(n) => n == bytes_for(units as nat),
            None => bytes_for(units as nat) > usize::MAX,
        },
{
    match units.checked_add(1) {
        Some(with_terminator) => with_terminator.checked_mul(2),
        None => None,
    }
}

/// Bytes to reserve in the process for the library's path as a wide C
/// string.
pub fn remote_buffer_bytes(path: &str) -> (r: Result<usize, InjectError>)
    ensures
        match r {
            Ok(n) => !interior_nul(path@) && n == bytes_for(wide_c_units(path@)),
            Err(InjectError::NulInPath) => interior_nul(path@),
            Err(InjectError::PathTooLong) => !interior_nul(path@) && bytes_for(
                wide_c_units(path@),
            ) > usize::MAX,
        },
{
    match wide_c_len(path) {
        None => Err(InjectError::NulInPath),
        Some(units) => match buffer_bytes(units) {
            Some(n) => Ok(n),
            None => Err(InjectError::PathTooLong),
        },
    }
}

} // verus!
