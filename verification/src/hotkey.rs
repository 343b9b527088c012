//! The trigger source: the key that starts and stops a recording.

use crate::runner::OS;
use vstd::prelude::*;

verus! {

/// Identifier under which the hotkey is registered with the system.
pub const HOTKEY_ID: i32 = 1;

/// The hotkey fires once per press, however long the key is held.
pub const MOD_NOREPEAT: u32 = 0x4000;

/// The hotkey is F9.
pub const VK_F9: u32 = 0x78;

/// Whether the agent listens for the hotkey on `os`. Only Windows has a
/// listener; elsewhere the trigger comes from outside.
pub fn initialize(os: OS) -> (listen: bool)
    ensures
        listen == (os is Windows),
{
    match os {
        OS::Windows => true,
        _ => false,
    }
}

/// Whether the listener goes on after it asked the system to register the
/// hotkey and got `result`: the system answers 1 where it did.
pub fn poll(result: i32) -> (listen: bool)
    ensures
        listen == (result == 1),
{
    result == 1
}

} // verus!
