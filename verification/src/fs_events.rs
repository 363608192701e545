//! What happens to files, and which of it means that a file was written whole.
use vstd::prelude::*;

verus! {

/// The kinds of systems, which differ in what they report.
#[derive(Debug, Clone, Copy, PartialEq, Eq, Structural)]
pub enum Platform {
    /// Linux, with `inotify`.
    Linux,
    /// macOS, with `FSEvents`.
    MacOs,
    /// Any other.
    Other,
}

/// How a file was opened.
#[derive(Debug, Clone, Copy, PartialEq, Eq, Structural)]
pub enum AccessMode {
    /// Not said.
    Any,
    /// To be run.
    Execute,
    /// To be read.
    Read,
    /// To be written.
    Write,
    /// Otherwise.
    Other,
}

/// What was done with a file that stayed the same.
#[derive(Debug, Clone, Copy, PartialEq, Eq, Structural)]
pub enum AccessKind {
    /// Not said.
    Any,
    /// It was read.
    Read,
    /// It was opened.
    Open(AccessMode),
    /// It was closed.
    Close(AccessMode),
    /// Something else.
    Other,
}

/// What was created.
#[derive(Debug, Clone, Copy, PartialEq, Eq, Structural)]
pub enum CreateKind {
    /// Not said.
    Any,
    /// A file.
    File,
    /// A directory.
    Folder,
    /// Something else.
    Other,
}

/// What was changed.
#[derive(Debug, Clone, Copy, PartialEq, Eq, Structural)]
pub enum ModifyKind {
    /// Not said.
    Any,
    /// The content.
    Data,
    /// What is kept beside the content.
    Metadata,
    /// The name.
    Name,
    /// Something else.
    Other,
}

/// What happened to a file.
#[derive(Debug, Clone, Copy, PartialEq, Eq, Structural)]
pub enum EventKind {
    /// Not said.
    Any,
    /// It was used.
    Access(AccessKind),
    /// It was created.
    Create(CreateKind),
    /// It was changed.
    Modify(ModifyKind),
    /// It was removed.
    Remove,
    /// Something else.
    Other,
}

/// Whether an event means that a file was written whole. A renaming does on every
/// system, for files are renamed to once they are written. Linux reports a file that was
/// open for writing when it is closed; macOS reports a new file and new content when the
/// writing is over.
pub open spec fn write_complete(kind: EventKind, platform: Platform) -> bool {
    match kind {
        EventKind::Modify(ModifyKind::Name) => true,
        EventKind::Access(AccessKind::Close(AccessMode::Write)) => !(platform is MacOs),
        EventKind::Create(CreateKind::File) => !(platform is Linux),
        EventKind::Modify(ModifyKind::Data) => !(platform is Linux),
        _ => false,
    }
}

/// Whether an event means that a file was written whole.
pub fn is_write_complete(kind: EventKind, platform: Platform) -> (r: bool)
    ensures
        r == write_complete(kind, platform),
{
    match platform {
        Platform::Linux => matches!(
            kind,
            EventKind::Access(AccessKind::Close(AccessMode::Write))
                | EventKind::Modify(ModifyKind::Name)
        ),
        Platform::MacOs => matches!(
            kind,
            EventKind::Create(CreateKind::File)
                | EventKind::Modify(ModifyKind::Data | ModifyKind::Name)
        ),
        Platform::Other => matches!(
            kind,
            EventKind::Access(AccessKind::Close(AccessMode::Write))
                | EventKind::Create(CreateKind::File)
                | EventKind::Modify(ModifyKind::Data | ModifyKind::Name)
        ),
    }
}

/// What means that a file was written whole on Linux or on macOS means so on a system
/// that is neither.
pub proof fn law_other_platforms_take_either(kind: EventKind, platform: Platform)
    requires
        write_complete(kind, platform),
    ensures
        write_complete(kind, Platform::Other),
{
}

/// A file that was renamed is taken notice of on every system, and so is one that was written in
/// place, by what the system reports of it last. That a file is gone, was read or was opened, or
/// that a directory was made, never counts.
pub proof fn law_finished_writes_count(platform: Platform)
    ensures
        write_complete(EventKind::Modify(ModifyKind::Name), platform),
        !(platform is MacOs) <==> write_complete(
            EventKind::Access(AccessKind::Close(AccessMode::Write)),
            platform,
        ),
        !(platform is Linux) <==> write_complete(EventKind::Modify(ModifyKind::Data), platform),
        !(platform is Linux) <==> write_complete(EventKind::Create(CreateKind::File), platform),
        !write_complete(EventKind::Remove, platform),
        !write_complete(EventKind::Any, platform),
        !write_complete(EventKind::Other, platform),
        !write_complete(EventKind::Create(CreateKind::Folder), platform),
        !write_complete(EventKind::Modify(ModifyKind::Metadata), platform),
        forall|kind: AccessKind|
            kind != AccessKind::Close(AccessMode::Write) ==> !#[trigger] write_complete(
                EventKind::Access(kind),
                platform,
            ),
{
}

} // verus!
