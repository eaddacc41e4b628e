//! The requests that the engine hands out and the outcomes that it takes back.

use crate::entry::Metadata;
use crate::entry::OpenOptions;
use vstd::prelude::*;

verus! {

/// Why a copy was given up.
#[derive(Clone, Copy, Debug, PartialEq, Eq, Structural)]
pub enum Failure {
    /// The last request failed on the filesystem.
    Request,
    /// The source could not tell the owning user of an entry.
    UserId,
    /// The source could not tell the owning group of an entry.
    GroupId,
    /// A file was to be written inside a directory, and its path has no base
    /// name.
    BaseName,
    /// The outcome handed in does not answer the request that was handed out.
    Unexpected,
}

/// How a copy ended.
#[derive(Clone, Copy, Debug, PartialEq, Eq, Structural)]
pub enum Outcome {
    /// Every discovered path was dealt with.
    Completed,
    /// The copy stopped at the first failure; what was copied before stays.
    GaveUp(Failure),
}

/// Something worth telling that does not stop the copy.
#[derive(Clone, Copy, Debug, PartialEq, Eq, Structural)]
pub enum Notice {
    /// The source entry is neither a link, a directory nor a regular file. It
    /// is left out. To be reported as an error.
    UnknownFileType,
    /// The destination of a file is a symbolic link. It is left as it is. To
    /// be reported as a warning.
    DestinationIsSymlink,
}

/// A request to whoever drives the engine. Paths on the source filesystem are
/// named `path` or `root`; all other paths are on the destination.
#[derive(Clone, Debug, PartialEq, Eq)]
pub enum Action {
    /// Query the metadata of `path` on the source.
    SourceMetadata { path: Vec<u8> },
    /// Enumerate, in order, every path beneath `root` on the source.
    Walk { root: Vec<u8> },
    /// Read the target of the link at `path` on the source.
    ReadLink { path: Vec<u8> },
    /// Open `path` on the source for reading. It replaces the open source file.
    OpenSource { path: Vec<u8> },
    /// Query the metadata of the open source file.
    SourceFileMetadata,
    /// Create the directory `dir` and its missing ancestors.
    CreateDirAll { dir: Vec<u8> },
    /// Query the metadata of `dest`.
    DestinationMetadata { dest: Vec<u8> },
    /// Open `dest` with `options`. It replaces the open destination file.
    OpenDestination { dest: Vec<u8>, options: OpenOptions },
    /// Copy all bytes of the open source file into the open destination file.
    CopyStream,
    /// Set the owner of `dest`.
    Chown { dest: Vec<u8>, uid: u32, gid: u32 },
    /// Set the permission bits of `dest`.
    SetPermissions { dest: Vec<u8>, mode: u32 },
    /// Create at `link` a symbolic link that points at `target`.
    Symlink { target: Vec<u8>, link: Vec<u8> },
    /// Report `notice` about the source entry `path`, found at `dest`.
    Report { notice: Notice, path: Vec<u8>, dest: Vec<u8> },
    /// The copy has ended; nothing more is to be done.
    Finish { outcome: Outcome },
}

/// An [`Action`] as a mathematical value.
pub enum ActionView {
    SourceMetadata { path: Seq<u8> },
    Walk { root: Seq<u8> },
    ReadLink { path: Seq<u8> },
    OpenSource { path: Seq<u8> },
    SourceFileMetadata,
    CreateDirAll { dir: Seq<u8> },
    DestinationMetadata { dest: Seq<u8> },
    OpenDestination { dest: Seq<u8>, options: OpenOptions },
    CopyStream,
    Chown { dest: Seq<u8>, uid: u32, gid: u32 },
    SetPermissions { dest: Seq<u8>, mode: u32 },
    Symlink { target: Seq<u8>, link: Seq<u8> },
    Report { notice: Notice, path: Seq<u8>, dest: Seq<u8> },
    Finish { outcome: Outcome },
}

impl View for Action {
    type V = ActionView;

    open spec fn view(&self) -> ActionView {
        match *self {
            Action::SourceMetadata { path } => ActionView::SourceMetadata { path: path@ },
            Action::Walk { root } => ActionView::Walk { root: root@ },
            Action::ReadLink { path } => ActionView::ReadLink { path: path@ },
            Action::OpenSource { path } => ActionView::OpenSource { path: path@ },
            Action::SourceFileMetadata => ActionView::SourceFileMetadata,
            Action::CreateDirAll { dir } => ActionView::CreateDirAll { dir: dir@ },
            Action::DestinationMetadata { dest } => ActionView::DestinationMetadata {
                dest: dest@,
            },
            Action::OpenDestination { dest, options } => ActionView::OpenDestination {
                dest: dest@,
                options,
            },
            Action::CopyStream => ActionView::CopyStream,
            Action::Chown { dest, uid, gid } => ActionView::Chown { dest: dest@, uid, gid },
            Action::SetPermissions { dest, mode } => ActionView::SetPermissions {
                dest: dest@,
                mode,
            },
            Action::Symlink { target, link } => ActionView::Symlink {
                target: target@,
                link: link@,
            },
            Action::Report { notice, path, dest } => ActionView::Report {
                notice,
                path: path@,
                dest: dest@,
            },
            Action::Finish { outcome } => ActionView::Finish { outcome },
        }
    }
}

/// The outcome of a request.
#[derive(Clone, Debug, PartialEq, Eq)]
pub enum Event {
    /// No request has been made yet: the copy begins.
    Started,
    /// The request succeeded, and there is nothing to tell.
    Done,
    /// The metadata that was asked for.
    Metadata(Metadata),
    /// The target of the link that was read.
    Link(Vec<u8>),
    /// The paths that were enumerated. The engine takes the list as it is and
    /// deals with the paths in the order in which they stand: it is for the
    /// enumeration to list no path twice, and a directory before what is
    /// beneath it.
    Paths(Vec<Vec<u8>>),
    /// The request failed.
    Failed,
}

/// An [`Event`] as a mathematical value.
pub enum EventView {
    Started,
    Done,
    Metadata(Metadata),
    Link(Seq<u8>),
    Paths(Seq<Seq<u8>>),
    Failed,
}

/// The paths of a list, each as a sequence of bytes.
pub open spec fn path_views(paths: Seq<Vec<u8>>) -> Seq<Seq<u8>> {
    Seq::new(paths.len(), |i: int| paths[i]@)
}

impl View for Event {
    type V = EventView;

    open spec fn view(&self) -> EventView {
        match *self {
            Event::Started => EventView::Started,
            Event::Done => EventView::Done,
            Event::Metadata(metadata) => EventView::Metadata(metadata),
            Event::Link(target) => EventView::Link(target@),
            Event::Paths(paths) => EventView::Paths(path_views(paths@)),
            Event::Failed => EventView::Failed,
        }
    }
}

} // verus!
