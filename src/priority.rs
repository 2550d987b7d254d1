//! Scheduling priorities for the child process.
use vstd::prelude::*;

verus! {

/// Widens a byte to a 64-bit unsigned integer.
pub fn as_u64(x: u8) -> (r: u64)
    ensures
        r == x as u64,
{
    x as u64
}

/// Scheduling classes of the BSD `rtprio` interface.
#[derive(Clone, Copy, Debug, PartialEq, Eq, Structural)]
pub enum PriorityClass {
    Realtime,
    Normal,
}

/// A scheduling setting: a class and a level within it (lower is stronger).
#[derive(Clone, Copy, Debug, PartialEq, Eq, Structural)]
pub struct Priority {
    pub class: PriorityClass,
    pub level: u16,
}

/// The setting that makes a process realtime: the realtime class at level 1.
pub fn make_realtime() -> (r: Priority)
    ensures
        r == (Priority { class: PriorityClass::Realtime, level: 1 }),
{
    Priority { class: PriorityClass::Realtime, level: 1 }
}

/// The setting that gives a process back ordinary scheduling.
pub fn make_normal() -> (r: Priority)
    ensures
        r == (Priority { class: PriorityClass::Normal, level: 0 }),
{
    Priority { class: PriorityClass::Normal, level: 0 }
}

/// Whether a call that set a priority succeeded, from its return code.
pub fn priority_applied(code: i32) -> (r: bool)
    ensures
        r == (code == 0),
{
    code == 0
}

} // verus!
