//! The agent's hooks on the graphics factory.
//!
//! The call that creates a swap chain is reached through the factory, so
//! it can be hooked only after a factory has been created.

use crate::hooks::Hook;
use crate::runner::OS;
use vstd::prelude::*;

verus! {

/// Whether a result code of the graphics interface reports success: the
/// codes that are not negative do.
pub fn succeeded(hresult: i32) -> (b: bool)
    ensures
        b == (hresult >= 0),
{
    hresult >= 0
}

/// The hook to install when the agent starts on `os`: on Windows the one
/// on the creation of the factory, elsewhere none.
pub fn initialize(os: OS) -> (hook: Option<Hook>)
    ensures
        hook == if os is Windows {
            Some(Hook::CreateDxgiFactory)
        } else {
            None::<Hook>
        },
{
    match os {
        OS::Windows => Some(Hook::CreateDxgiFactory),
        _ => None,
    }
}

/// The hook to install after the application created a factory with the
/// result `hresult`: the one on the creation of swap chains, where the
/// factory exists.
pub fn on_factory_created(hresult: i32) -> (hook: Option<Hook>)
    ensures
        hook == if hresult >= 0 {
            Some(Hook::CreateSwapChainForHwnd)
        } else {
            None::<Hook>
        },
{
    if succeeded(hresult) {
        Some(Hook::CreateSwapChainForHwnd)
    } else {
        None
    }
}

} // verus!
