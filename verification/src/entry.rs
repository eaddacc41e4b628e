//! What the engine learns about one filesystem entry, and how it classifies it.

use vstd::prelude::*;

verus! {

/// The type of a filesystem entry as a metadata query reports it.
#[derive(Clone, Copy, Debug, PartialEq, Eq, Structural)]
pub enum FileKind {
    /// A regular file.
    File,
    /// A directory.
    Directory,
    /// A symbolic link.
    Symlink,
    /// Anything else: a device, a socket, a fifo.
    Other,
}

/// The type that three answers of a filesystem add up to. A directory is
/// told first, then a regular file, then a link; an entry that is none of
/// them is of another type.
pub open spec fn kind_of(is_dir: bool, is_file: bool, is_symlink: bool) -> FileKind {
    if is_dir {
        FileKind::Directory
    } else if is_file {
        FileKind::File
    } else if is_symlink {
        FileKind::Symlink
    } else {
        FileKind::Other
    }
}

/// The type of an entry of which a filesystem says whether it is a
/// directory, a regular file, a link.
pub fn file_kind(is_dir: bool, is_file: bool, is_symlink: bool) -> (kind: FileKind)
    ensures
        kind == kind_of(is_dir, is_file, is_symlink),
{
    if is_dir {
        FileKind::Directory
    } else if is_file {
        FileKind::File
    } else if is_symlink {
        FileKind::Symlink
    } else {
        FileKind::Other
    }
}

/// A metadata snapshot of one entry: its type, its permission bits and its
/// owner. The owning user or group is `None` where the filesystem could not
/// tell it.
#[derive(Clone, Copy, Debug, PartialEq, Eq)]
pub struct Metadata {
    pub kind: FileKind,
    pub mode: u32,
    pub uid: Option<u32>,
    pub gid: Option<u32>,
}

/// What the engine does with a discovered path.
#[derive(Clone, Copy, Debug, PartialEq, Eq, Structural)]
pub enum EntryKind {
    /// Recreate the link, pointing at the same target.
    Symlink,
    /// Make the directory and its ancestors.
    Directory,
    /// Copy the content.
    File,
    /// Report the entry and go on with the next.
    Unknown,
}

/// The class of a discovered path that is not a readable link, from the type
/// in its metadata: directories and regular files are replicated, the rest is
/// unknown.
pub open spec fn class_of(kind: FileKind) -> EntryKind {
    match kind {
        FileKind::Directory => EntryKind::Directory,
        FileKind::File => EntryKind::File,
        _ => EntryKind::Unknown,
    }
}

/// Classifies a discovered path whose link target could not be read.
pub fn classify(kind: FileKind) -> (class: EntryKind)
    ensures
        class == class_of(kind),
{
    match kind {
        FileKind::Directory => EntryKind::Directory,
        FileKind::File => EntryKind::File,
        _ => EntryKind::Unknown,
    }
}

/// The options with which a file is opened.
#[derive(Clone, Copy, Debug, PartialEq, Eq, Structural)]
pub struct OpenOptions {
    pub read: bool,
    pub write: bool,
    pub create: bool,
    pub create_new: bool,
    /// Whether a file that exists is emptied when it is opened.
    pub truncate: bool,
}

/// What the file replicator found at the destination path.
#[derive(Clone, Copy, Debug, PartialEq, Eq, Structural)]
pub enum Destination {
    /// Nothing is there.
    Absent,
    /// An entry of the given type is there.
    Present(FileKind),
}

/// How the file replicator treats a destination.
#[derive(Clone, Copy, Debug, PartialEq, Eq, Structural)]
pub enum Collision {
    /// Create the file, failing if it has appeared meanwhile.
    CreateNew,
    /// Write a file named after the source inside the directory.
    WriteInside,
    /// Empty the file and write the content anew.
    Overwrite,
    /// Leave the link alone and report it.
    Skip,
    /// Open the entry and set its permissions and owner only.
    MetadataOnly,
}

/// The collision policy.
pub open spec fn policy_of(found: Destination) -> Collision {
    match found {
        Destination::Absent => Collision::CreateNew,
        Destination::Present(FileKind::Directory) => Collision::WriteInside,
        Destination::Present(FileKind::File) => Collision::Overwrite,
        Destination::Present(FileKind::Symlink) => Collision::Skip,
        Destination::Present(FileKind::Other) => Collision::MetadataOnly,
    }
}

/// The options with which the destination is opened under each policy. A
/// file that exists and is written to is emptied first, so that nothing of
/// its old content is left. Nothing is opened where the entry is skipped.
pub open spec fn options_of(policy: Collision) -> OpenOptions {
    match policy {
        Collision::CreateNew => OpenOptions {
            read: true,
            write: true,
            create: true,
            create_new: true,
            truncate: false,
        },
        Collision::WriteInside => OpenOptions {
            read: true,
            write: true,
            create: true,
            create_new: false,
            truncate: true,
        },
        Collision::Overwrite => OpenOptions {
            read: true,
            write: true,
            create: false,
            create_new: false,
            truncate: true,
        },
        _ => OpenOptions {
            read: true,
            write: true,
            create: false,
            create_new: false,
            truncate: false,
        },
    }
}

/// Decides how a file is written to a destination in the given state.
pub fn policy(found: Destination) -> (chosen: Collision)
    ensures
        chosen == policy_of(found),
{
    match found {
        Destination::Absent => Collision::CreateNew,
        Destination::Present(FileKind::Directory) => Collision::WriteInside,
        Destination::Present(FileKind::File) => Collision::Overwrite,
        Destination::Present(FileKind::Symlink) => Collision::Skip,
        Destination::Present(FileKind::Other) => Collision::MetadataOnly,
    }
}

/// The options with which the destination is opened under `policy`.
pub fn open_options(policy: Collision) -> (options: OpenOptions)
    ensures
        options == options_of(policy),
{
    match policy {
        Collision::CreateNew => OpenOptions {
            read: true,
            write: true,
            create: true,
            create_new: true,
            truncate: false,
        },
        Collision::WriteInside => OpenOptions {
            read: true,
            write: true,
            create: true,
            create_new: false,
            truncate: true,
        },
        Collision::Overwrite => OpenOptions {
            read: true,
            write: true,
            create: false,
            create_new: false,
            truncate: true,
        },
        _ => OpenOptions {
            read: true,
            write: true,
            create: false,
            create_new: false,
            truncate: false,
        },
    }
}

} // verus!
