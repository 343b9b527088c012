//! What the launcher decides before it starts the application: which
//! build of the agent library to load, how to hand it to the loader, and
//! the exit code to pass on.
//!
//! The launcher itself spawns the process and reads the environment; the
//! functions here take what it found and return what it is to use.

use vstd::prelude::*;
use vstd::string::*;

verus! {

/// Processor architecture of a build.
#[allow(non_camel_case_types)]
#[derive(Clone, Copy, Debug, PartialEq, Eq, Structural)]
pub enum Arch {
    I686,
    X86_64,
}

impl Arch {
    /// The architecture's name in a target triple.
    pub open spec fn name(self) -> Seq<char> {
        match self {
            Arch::I686 => "i686"@,
            Arch::X86_64 => "x86_64"@,
        }
    }

    pub fn as_str(&self) -> (s: &str)
        ensures
            s@ == self.name(),
    {
        match self {
            Arch::I686 => "i686",
            Arch::X86_64 => "x86_64",
        }
    }

    /// The architecture of a process with pointers of `bits` bits: 64-bit
    /// pointers mean `X86_64`, anything else `I686`.
    pub fn of_pointer_width(bits: u32) -> (a: Arch)
        ensures
            a == if bits == 64 {
                Arch::X86_64
            } else {
                Arch::I686
            },
    {
        if bits == 64 {
            Arch::X86_64
        } else {
            Arch::I686
        }
    }
}

/// Operating system of a build.
#[derive(Clone, Copy, Debug, PartialEq, Eq, Structural)]
pub enum OS {
    Windows,
    Linux,
    MacOS,
}

impl OS {
    /// The vendor and system part of a target triple.
    pub open spec fn name(self) -> Seq<char> {
        match self {
            OS::Windows => "pc-windows-msvc"@,
            OS::Linux => "unknown-linux-gnu"@,
            OS::MacOS => "apple-darwin"@,
        }
    }

    pub fn as_str(&self) -> (s: &str)
        ensures
            s@ == self.name(),
    {
        match self {
            OS::Windows => "pc-windows-msvc",
            OS::Linux => "unknown-linux-gnu",
            OS::MacOS => "apple-darwin",
        }
    }
}

/// What the launcher was asked to do.
pub struct Options {
    pub executable: String,
    pub args: Vec<String>,
    pub arch: Arch,
    pub os: OS,
    pub suspend: bool,
    pub port: u16,
}

/// The target triple of a build: architecture, a hyphen, and the system.
pub open spec fn triple_of(arch: Arch, os: OS) -> Seq<char> {
    arch.name() + "-"@ + os.name()
}

/// The name of the build profile's directory.
pub open spec fn profile_of(debug: bool) -> Seq<char> {
    if debug {
        "debug"@
    } else {
        "release"@
    }
}

/// Where a build of the agent library lies, as the directories to descend
/// from the root of the build tree and the file's name in the last one.
pub struct LibLocation {
    pub triple: String,
    pub profile: String,
    pub name: String,
}

/// What the launcher hands to the dynamic loader.
pub struct Launch {
    /// The value of the loader's preload variable: the 32-bit library, a
    /// colon, the 64-bit library.
    pub preload: String,
    /// The port on which the supervisor listens, for the agent to find.
    pub port: u16,
    /// Whether to wait for the operator before the application runs.
    pub suspend: bool,
}

/// Which agent library the launcher injects.
pub enum LibChoice {
    /// The library that the operator named.
    Explicit(String),
    /// The library next to the launcher's executable.
    BesideLauncher,
    /// The debug build for the given architecture in the build tree.
    BuildTree(Arch),
}

/// Exit code of a launcher whose child was killed by a signal.
pub const KILLED_EXIT_CODE: i32 = 127;

/// The maximum log level of the launcher: everything from `info` up when
/// verbose, else warnings and errors.
pub fn log_filter(verbose: bool) -> (s: &'static str)
    ensures
        s@ == if verbose {
            "info"@
        } else {
            "warn"@
        },
{
    if verbose {
        "info"
    } else {
        "warn"
    }
}

/// The launcher's state.
pub struct Context {
    options: Options,
}

pub fn new_context(options: Options) -> (c: Context)
    ensures
        c.options() == options,
{
    Context { options: options }
}

impl Context {
    pub closed spec fn options(&self) -> Options {
        self.options
    }

    /// What the launcher was asked to do.
    pub fn get_options(&self) -> (o: &Options)
        ensures
            *o == self.options(),
    {
        &self.options
    }

    /// Where the agent library `name` for `target_arch` lies in the build
    /// tree of the launcher's own system.
    pub fn locate_lib(&self, name: &str, target_arch: Arch, debug: bool) -> (l: LibLocation)
        ensures
            l.triple@ == triple_of(target_arch, self.options().os),
            l.profile@ == profile_of(debug),
            l.name@ == name@,
    {
        let mut triple = String::from_str(target_arch.as_str());
        triple.append("-");
        triple.append(self.options.os.as_str());
        let profile = if debug {
            String::from_str("debug")
        } else {
            String::from_str("release")
        };
        LibLocation { triple, profile, name: String::from_str(name) }
    }

    /// What to hand to the loader, given where the two builds of the agent
    /// library lie.
    pub fn run(&self, lib32: &str, lib64: &str) -> (l: Launch)
        ensures
            l.preload@ == lib32@ + ":"@ + lib64@,
            l.port == self.options().port,
            l.suspend == self.options().suspend,
    {
        let mut preload = String::from_str(lib32);
        preload.append(":");
        preload.append(lib64);
        Launch { preload, port: self.options.port, suspend: self.options.suspend }
    }

    /// The launcher's exit code, given the child's: the child's own, or
    /// `KILLED_EXIT_CODE` where a signal killed it.
    pub fn wait_for_child(&self, code: Option<i32>) -> (exit: i32)
        ensures
            exit == match code {
                Some(c) => c,
                None => KILLED_EXIT_CODE,
            },
    {
        match code {
            Some(c) => c,
            None => KILLED_EXIT_CODE,
        }
    }
}

/// Which library to inject into an application, given what the operator
/// named and the word sizes of the launcher and the application. Where the
/// two differ, the library comes from the build tree of the application's
/// architecture.
pub fn determine_lib_path(lib: Option<&str>, host_is_32bit: bool, target_is_32bit: bool) -> (c:
    LibChoice)
    ensures
        match lib {
            Some(path) => c matches LibChoice::Explicit(s) && s@ == path@,
            None => if host_is_32bit == target_is_32bit {
                c is BesideLauncher
            } else if target_is_32bit {
                c matches LibChoice::BuildTree(a) && a == Arch::I686
            } else {
                c matches LibChoice::BuildTree(a) && a == Arch::X86_64
            },
        },
{
    match lib {
        Some(path) => LibChoice::Explicit(String::from_str(path)),
        None => {
            if host_is_32bit == target_is_32bit {
                LibChoice::BesideLauncher
            } else if target_is_32bit {
                LibChoice::BuildTree(Arch::I686)
            } else {
                LibChoice::BuildTree(Arch::X86_64)
            }
        },
    }
}

} // verus!
