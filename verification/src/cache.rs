//! The files kept beside a source file, and the order of steps by which
//! one is loaded, rebuilt and written.
//!
//! A cache file is written under a temporary name first. When the writing
//! is done the destination is looked for once more: if another process
//! has put it there meanwhile, the temporary file is discarded; if not, it
//! is renamed into place.

use vstd::prelude::*;
use vstd::string::*;

verus! {

/// The file of the identifier index beside `source`.
pub fn id_index_path(source: &str) -> (path: String)
    ensures
        path@ == source@ + ".idx"@,
{
    String::from_str(source).concat(".idx")
}

/// The file of the statistics beside `source`.
pub fn statistics_path(source: &str) -> (path: String)
    ensures
        path@ == source@ + ".stats"@,
{
    String::from_str(source).concat(".stats")
}

/// The file of the positional index beside `source`.
pub fn positional_index_path(source: &str) -> (path: String)
    ensures
        path@ == source@ + ".tbi"@,
{
    String::from_str(source).concat(".tbi")
}

/// The temporary file under which `destination` is written.
pub fn temporary_path(destination: &str) -> (path: String)
    ensures
        path@ == destination@ + ".tmp"@,
{
    String::from_str(destination).concat(".tmp")
}

/// What has just happened to a cache file.
#[derive(Debug, Clone, Copy, PartialEq, Eq, Structural)]
pub enum CacheEvent {
    /// The file was looked for and is there.
    Found,
    /// The file was looked for and is not there.
    Missing,
    /// The file was read and held a valid value.
    Loaded,
    /// The file could not be read, or what it held was not valid.
    Unreadable,
    /// The value was built afresh from the source file.
    Built,
    /// The value was written, or the attempt to write it failed.
    Written,
}

/// What to do next with a cache file.
#[derive(Debug, Clone, Copy, PartialEq, Eq, Structural)]
pub enum CacheStep {
    /// Read the file.
    Load,
    /// Build the value from the source file.
    Build,
    /// Write the value beside the source file.
    Save,
    /// Use the value in memory.
    Use,
}

/// The step that follows an event. A file that is there is read; one that
/// is missing or unreadable has its value built afresh; a fresh value is
/// written if writing is allowed; after reading or writing the value is
/// used. A failed write changes nothing: the value in memory serves.
pub open spec fn step_after(event: CacheEvent, may_write: bool) -> CacheStep {
    match event {
        CacheEvent::Found => CacheStep::Load,
        CacheEvent::Missing => CacheStep::Build,
        CacheEvent::Loaded => CacheStep::Use,
        CacheEvent::Unreadable => CacheStep::Build,
        CacheEvent::Built => if may_write {
            CacheStep::Save
        } else {
            CacheStep::Use
        },
        CacheEvent::Written => CacheStep::Use,
    }
}

/// Decides the step that follows an event.
pub fn next_cache_step(event: CacheEvent, may_write: bool) -> (step: CacheStep)
    ensures
        step == step_after(event, may_write),
{
    match event {
        CacheEvent::Found => CacheStep::Load,
        CacheEvent::Missing => CacheStep::Build,
        CacheEvent::Loaded => CacheStep::Use,
        CacheEvent::Unreadable => CacheStep::Build,
        CacheEvent::Built => {
            if may_write {
                CacheStep::Save
            } else {
                CacheStep::Use
            }
        },
        CacheEvent::Written => CacheStep::Use,
    }
}

/// What becomes of a temporary file once it is written.
#[derive(Debug, Clone, Copy, PartialEq, Eq, Structural)]
pub enum WriteStep {
    /// The destination appeared meanwhile: remove the temporary file.
    DiscardTemporary,
    /// Rename the temporary file to the destination.
    RenameTemporary,
}

/// Decides what becomes of a written temporary file, given whether the
/// destination exists now.
pub fn finish_write(destination_exists: bool) -> (step: WriteStep)
    ensures
        step == if destination_exists {
            WriteStep::DiscardTemporary
        } else {
            WriteStep::RenameTemporary
        },
{
    if destination_exists {
        WriteStep::DiscardTemporary
    } else {
        WriteStep::RenameTemporary
    }
}

/// With writing forbidden no event leads to a write.
pub proof fn lemma_never_persist(event: CacheEvent)
    ensures
        step_after(event, false) != CacheStep::Save,
{
}

} // verus!
