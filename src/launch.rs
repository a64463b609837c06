//! What an invocation of the program does: forward its arguments, report the
//! running instance, start a detached one, or serve; and which project a
//! build picks.

use vstd::prelude::*;

verus! {

/// What an invocation does.
#[derive(Debug, PartialEq, Eq, Structural)]
pub enum Launch {
    /// The arguments are no `run` command of the program itself: hand them to
    /// the running service.
    Forward,
    /// A service already runs, with this process id: report it and stop.
    AlreadyRunning(u32),
    /// Start the service as a detached child process and stop.
    SpawnDetached,
    /// Become the service.
    Serve,
}

/// Decides what an invocation does. `run` is `Some(detached)` when the
/// arguments are the program's own `run` command, else `None`; `existing` is
/// what the existence probe found.
pub fn launch_decision(run: Option<bool>, existing: Option<u32>) -> (r: Launch)
    ensures
        run is None ==> r == Launch::Forward,
        run is Some && existing is Some ==> r == Launch::AlreadyRunning(existing->0),
        run == Some(true) && existing is None ==> r == Launch::SpawnDetached,
        run == Some(false) && existing is None ==> r == Launch::Serve,
{
    match run {
        None => Launch::Forward,
        Some(detached) => match existing {
            Some(pid) => Launch::AlreadyRunning(pid),
            None => if detached {
                Launch::SpawnDetached
            } else {
                Launch::Serve
            },
        },
    }
}

/// One entry of the working directory, as a build sees it.
#[derive(Clone, Copy, Debug, PartialEq, Eq, Structural)]
pub struct DirEntryInfo {
    /// The entry is a directory.
    pub is_dir: bool,
    /// The entry holds a `Cargo.toml`.
    pub has_manifest: bool,
}

/// The entry is a Rust project that a build can link.
pub open spec fn is_project(e: DirEntryInfo) -> bool {
    e.is_dir && e.has_manifest
}

/// Picks the project to build: the first entry, in the order given, that is a
/// directory holding a `Cargo.toml`; `None` when there is none, and nothing is
/// built.
pub fn try_build_rust_project(entries: &Vec<DirEntryInfo>) -> (r: Option<usize>)
    ensures
        match r {
            Some(i) => i < entries@.len() && is_project(entries@[i as int]) && forall|j: int|
                0 <= j < i ==> !is_project(#[trigger] entries@[j]),
            None => forall|j: int| 0 <= j < entries@.len() ==> !is_project(#[trigger] entries@[j]),
        },
{
    let mut i: usize = 0;
    while i < entries.len()
        invariant
            i <= entries@.len(),
            forall|j: int| 0 <= j < i ==> !is_project(#[trigger] entries@[j]),
        decreases entries@.len() - i,
    {
        let e = entries[i];
        if e.is_dir && e.has_manifest {
            return Some(i);
        }
        i = i + 1;
    }
    None
}

} // verus!
