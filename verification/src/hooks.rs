//! What the agent decides about its hooks: which calls of the application
//! to intercept at start-up, and when to intercept the call that presents
//! a frame.
//!
//! The presentation call is hooked once, as soon as the graphics library
//! is seen in the process. Installing a hook is the caller's work.

use crate::runner::OS;
use crate::wincap::{get_module_if_loaded, lowercase};
use vstd::prelude::*;

verus! {

/// The handle that the test harness presents in place of a real one.
pub const TEST_SENTINEL: u64 = 0xDEADBEEF;

/// A call of the application that the agent can intercept.
#[derive(Clone, Copy, Debug, PartialEq, Eq, Structural)]
pub enum Hook {
    /// The loader's call that opens a library by its narrow name.
    LoadLibraryA,
    /// The loader's call that opens a library by its wide name.
    LoadLibraryW,
    /// The loader's call that opens a shared object.
    Dlopen,
    /// The call that presents a frame.
    SwapBuffers,
    /// The call that creates the graphics factory.
    CreateDxgiFactory,
    /// The factory's call that creates a swap chain for a window.
    CreateSwapChainForHwnd,
}

/// What the agent remembers about its hooks.
#[derive(Clone, Copy, Debug, PartialEq, Eq, Structural)]
pub struct HookState {
    /// Whether the presentation call is hooked.
    pub swap_buffers: bool,
}

/// The loader hooks that the agent installs at start-up on `os`.
pub open spec fn loader_hooks(os: OS) -> Seq<Hook> {
    match os {
        OS::Windows => seq![Hook::LoadLibraryA, Hook::LoadLibraryW],
        OS::MacOS => seq![Hook::Dlopen],
        OS::Linux => Seq::empty(),
    }
}

/// The hook for the presentation call where it is due: the graphics
/// library is in use and the call is not hooked yet.
pub open spec fn due(state: HookState, using_opengl: bool) -> Seq<Hook> {
    if using_opengl && !state.swap_buffers {
        seq![Hook::SwapBuffers]
    } else {
        Seq::empty()
    }
}

/// Whether the call presents the test harness's handle to an agent under
/// test, on which the agent ends the process.
pub fn is_test_probe(in_test: bool, handle: u64) -> (b: bool)
    ensures
        b == (in_test && handle == TEST_SENTINEL),
{
    in_test && handle == TEST_SENTINEL
}

/// Whether the graphics library is among the loaded `modules`.
pub fn is_using_opengl(modules: &Vec<String>) -> (b: bool)
    ensures
        b == exists|i: int|
            0 <= i < modules.len() && lowercase(#[trigger] modules[i]@) == lowercase(
                "opengl32.dll"@,
            ),
{
    get_module_if_loaded(modules, "opengl32.dll").is_some()
}

impl HookState {
    /// No call is hooked.
    pub fn new() -> (s: HookState)
        ensures
            s == (HookState { swap_buffers: false }),
    {
        HookState { swap_buffers: false }
    }

    /// Decides whether to hook the presentation call now. It is hooked
    /// once in the life of the process, when the graphics library is first
    /// seen in use. Returns whether the caller is to install the hook.
    pub fn hook_if_needed(&mut self, using_opengl: bool) -> (install: bool)
        ensures
            install == (using_opengl && !old(self).swap_buffers),
            final(self).swap_buffers == (old(self).swap_buffers || using_opengl),
    {
        if using_opengl && !self.swap_buffers {
            self.swap_buffers = true;
            true
        } else {
            false
        }
    }
}

/// The hooks to install when the agent starts on `os`: those on the
/// loader, and the one on the presentation call where the graphics library
/// is in use already.
pub fn initialize(state: &mut HookState, os: OS, using_opengl: bool) -> (hooks: Vec<Hook>)
    ensures
        hooks@ == loader_hooks(os) + due(*old(state), using_opengl),
        final(state).swap_buffers == (old(state).swap_buffers || using_opengl),
{
    let mut hooks: Vec<Hook> = Vec::new();
    match os {
        OS::Windows => {
            hooks.push(Hook::LoadLibraryA);
            hooks.push(Hook::LoadLibraryW);
        },
        OS::MacOS => {
            hooks.push(Hook::Dlopen);
        },
        OS::Linux => {},
    }
    assert(hooks@ =~= loader_hooks(os));
    if state.hook_if_needed(using_opengl) {
        hooks.push(Hook::SwapBuffers);
    }
    assert(hooks@ =~= loader_hooks(os) + due(*old(state), using_opengl));
    hooks
}

} // verus!
