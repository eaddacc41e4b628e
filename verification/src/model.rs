//! A mathematical model of the two filesystems, against which the engine is
//! run in proofs.
//!
//! A disk is a map from paths to nodes. The model answers each request of the
//! engine as a filesystem without faults would: a request fails only where
//! its own conditions are not met. Paths are told apart as they are written,
//! and links are never followed: a metadata query on a link tells of the link.

use crate::engine::Machine;
use crate::entry::FileKind;
use crate::entry::Metadata;
use crate::entry::OpenOptions;
use crate::path::parent_of;
use crate::request::ActionView;
use crate::request::EventView;
use crate::request::Notice;
use vstd::prelude::*;

verus! {

/// One entry of a disk.
pub struct Node {
    pub kind: FileKind,
    /// The bytes of a regular file, or the target of a link.
    pub content: Seq<u8>,
    pub mode: u32,
    pub uid: u32,
    pub gid: u32,
}

/// A disk: the entries that exist, by path.
pub type Disk = Map<Seq<u8>, Node>;

/// The permission bits and the owner that a disk gives to what it creates.
pub struct Defaults {
    pub mode: u32,
    pub uid: u32,
    pub gid: u32,
}

impl Defaults {
    /// A directory as the disk creates it.
    pub open spec fn directory(self) -> Node {
        Node {
            kind: FileKind::Directory,
            content: Seq::empty(),
            mode: self.mode,
            uid: self.uid,
            gid: self.gid,
        }
    }

    /// An empty regular file as the disk creates it.
    pub open spec fn file(self) -> Node {
        Node {
            kind: FileKind::File,
            content: Seq::empty(),
            mode: self.mode,
            uid: self.uid,
            gid: self.gid,
        }
    }

    /// A link as the disk creates it.
    pub open spec fn link(self, target: Seq<u8>) -> Node {
        Node {
            kind: FileKind::Symlink,
            content: target,
            mode: self.mode,
            uid: self.uid,
            gid: self.gid,
        }
    }
}

/// The metadata snapshot of a node.
pub open spec fn metadata_of(node: Node) -> Metadata {
    Metadata { kind: node.kind, mode: node.mode, uid: Some(node.uid), gid: Some(node.gid) }
}

/// The content of a file that held `old` after `new` was written from its
/// beginning: what `old` has beyond the length of `new` stays.
pub open spec fn overwritten(old: Seq<u8>, new: Seq<u8>) -> Seq<u8> {
    if new.len() >= old.len() {
        new
    } else {
        new + old.skip(new.len() as int)
    }
}

/// Whether `dir` and its ancestors can all be directories: none of them
/// exists as something else.
pub open spec fn can_hold_dir(disk: Disk, dir: Seq<u8>) -> bool
    decreases dir.len(),
{
    &&& disk.contains_key(dir) ==> disk[dir].kind is Directory
    &&& match parent_of(dir) {
        Some(above) => above.len() < dir.len() ==> can_hold_dir(disk, above),
        None => true,
    }
}

/// The disk after `dir` and its missing ancestors were created.
pub open spec fn with_dirs(disk: Disk, dir: Seq<u8>, defaults: Defaults) -> Disk
    decreases dir.len(),
{
    let below = match parent_of(dir) {
        Some(above) => if above.len() < dir.len() {
            with_dirs(disk, above, defaults)
        } else {
            disk
        },
        None => disk,
    };
    if dir.len() == 0 || below.contains_key(dir) {
        below
    } else {
        below.insert(dir, defaults.directory())
    }
}

/// Whether an entry can be created at `path`: the directory above it is
/// there. The empty path stands for a directory that is always there.
pub open spec fn has_dir_above(disk: Disk, path: Seq<u8>) -> bool {
    parent_of(path) matches Some(dir) && (dir.len() == 0 || (disk.contains_key(dir)
        && disk[dir].kind is Directory))
}

/// The two filesystems of a copy, and what the engine has open and has
/// reported.
pub struct World {
    pub source: Disk,
    pub dest: Disk,
    /// What enumerating the source scope yields.
    pub listing: Seq<Seq<u8>>,
    /// The path of the open source file.
    pub reading: Option<Seq<u8>>,
    /// The path of the open destination file.
    pub writing: Option<Seq<u8>>,
    /// What the destination gives to the entries it creates.
    pub defaults: Defaults,
    /// The notices reported so far, each with the source path it is about.
    pub reports: Seq<(Notice, Seq<u8>)>,
}

impl World {
    /// The world with another destination disk.
    pub open spec fn with_dest(self, dest: Disk) -> World {
        World { dest, ..self }
    }

    /// The answer to a metadata query.
    pub open spec fn stat(disk: Disk, path: Seq<u8>) -> EventView {
        if disk.contains_key(path) {
            EventView::Metadata(metadata_of(disk[path]))
        } else {
            EventView::Failed
        }
    }

    /// Opening `dest` with `options`: an entry that is missing is created
    /// where the options ask for it, and an entry that is there is opened
    /// unless it is a directory or a link, or had to be new. A regular file
    /// that is there is emptied where the options ask for it.
    pub open spec fn open_destination(self, dest: Seq<u8>, options: OpenOptions) -> (
        World,
        EventView,
    ) {
        if !self.dest.contains_key(dest) {
            if options.create || options.create_new {
                (
                    World {
                        dest: self.dest.insert(dest, self.defaults.file()),
                        writing: Some(dest),
                        ..self
                    },
                    EventView::Done,
                )
            } else {
                (self, EventView::Failed)
            }
        } else if options.create_new || self.dest[dest].kind is Directory
            || self.dest[dest].kind is Symlink {
            (self, EventView::Failed)
        } else if options.truncate && self.dest[dest].kind is File {
            let emptied = Node { content: Seq::empty(), ..self.dest[dest] };
            (
                World { dest: self.dest.insert(dest, emptied), writing: Some(dest), ..self },
                EventView::Done,
            )
        } else {
            (World { writing: Some(dest), ..self }, EventView::Done)
        }
    }

    /// Copying the open source file into the open destination file.
    pub open spec fn copy_stream(self) -> (World, EventView) {
        match (self.reading, self.writing) {
            (Some(from), Some(to)) => if self.source.contains_key(from)
                && self.source[from].kind is File && self.dest.contains_key(to)
                && self.dest[to].kind is File {
                let written = Node {
                    content: overwritten(self.dest[to].content, self.source[from].content),
                    ..self.dest[to]
                };
                (self.with_dest(self.dest.insert(to, written)), EventView::Done)
            } else {
                (self, EventView::Failed)
            },
            _ => (self, EventView::Failed),
        }
    }

    /// Changing the node at `dest`, which must be there and no link.
    pub open spec fn update(self, dest: Seq<u8>, node: Node) -> (World, EventView) {
        if self.dest.contains_key(dest) && !(self.dest[dest].kind is Symlink) {
            (self.with_dest(self.dest.insert(dest, node)), EventView::Done)
        } else {
            (self, EventView::Failed)
        }
    }

    /// The world after `action` was performed, and its outcome.
    pub open spec fn perform(self, action: ActionView) -> (World, EventView) {
        match action {
            ActionView::SourceMetadata { path } => (self, World::stat(self.source, path)),
            ActionView::Walk { root } => (self, EventView::Paths(self.listing)),
            ActionView::ReadLink { path } => if self.source.contains_key(path)
                && self.source[path].kind is Symlink {
                (self, EventView::Link(self.source[path].content))
            } else {
                (self, EventView::Failed)
            },
            ActionView::OpenSource { path } => if self.source.contains_key(path)
                && self.source[path].kind is File {
                (World { reading: Some(path), ..self }, EventView::Done)
            } else {
                (self, EventView::Failed)
            },
            ActionView::SourceFileMetadata => match self.reading {
                Some(path) => (self, World::stat(self.source, path)),
                None => (self, EventView::Failed),
            },
            ActionView::CreateDirAll { dir } => if can_hold_dir(self.dest, dir) {
                (self.with_dest(with_dirs(self.dest, dir, self.defaults)), EventView::Done)
            } else {
                (self, EventView::Failed)
            },
            ActionView::DestinationMetadata { dest } => (self, World::stat(self.dest, dest)),
            ActionView::OpenDestination { dest, options } => self.open_destination(dest, options),
            ActionView::CopyStream => self.copy_stream(),
            ActionView::Chown { dest, uid, gid } => self.update(
                dest,
                Node { uid, gid, ..self.dest[dest] },
            ),
            ActionView::SetPermissions { dest, mode } => self.update(
                dest,
                Node { mode, ..self.dest[dest] },
            ),
            ActionView::Symlink { target, link } => if self.dest.contains_key(link)
                || !has_dir_above(self.dest, link) {
                (self, EventView::Failed)
            } else {
                (
                    self.with_dest(self.dest.insert(link, self.defaults.link(target))),
                    EventView::Done,
                )
            },
            ActionView::Report { notice, path, dest } => (
                World { reports: self.reports.push((notice, path)), ..self },
                EventView::Done,
            ),
            ActionView::Finish { outcome } => (self, EventView::Done),
        }
    }
}

/// A copy under way: the engine, the request that it has handed out, and the
/// world in which that request is performed next.
pub struct Session {
    pub machine: Machine,
    pub request: ActionView,
    pub world: World,
}

impl Session {
    /// The beginning of a copy of `src_scope` into `dest_scope`.
    pub open spec fn begin(src_scope: Seq<u8>, dest_scope: Seq<u8>, world: World) -> Session {
        let (machine, request) = Machine::initial(src_scope, dest_scope).transition(
            EventView::Started,
        );
        Session { machine, request, world }
    }

    /// Whether the engine has asked to finish.
    pub open spec fn finished(self) -> bool {
        self.request is Finish
    }

    /// The session after its request was performed and the engine has taken
    /// the outcome. A finished session stays as it is.
    #[verifier::opaque]
    pub open spec fn advance(self) -> Session {
        if self.finished() {
            self
        } else {
            let (world, event) = self.world.perform(self.request);
            let (machine, request) = self.machine.transition(event);
            Session { machine, request, world }
        }
    }

    /// The session after `count` requests, or fewer where it finishes before.
    pub open spec fn run(self, count: nat) -> Session
        decreases count,
    {
        if count == 0 {
            self
        } else {
            self.advance().run((count - 1) as nat)
        }
    }
}

/// A finished session stays as it is, however long it is run.
pub proof fn finished_is_final(session: Session, count: nat)
    requires
        session.finished(),
    ensures
        session.run(count) == session,
    decreases count,
{
    reveal(Session::advance);
    if count > 0 {
        finished_is_final(session, (count - 1) as nat);
    }
}

/// Running a session for `first + second` requests is running it for `first`
/// and then for `second`.
pub proof fn run_in_two(session: Session, first: nat, second: nat)
    ensures
        session.run(first + second) == session.run(first).run(second),
    decreases first,
{
    if first > 0 {
        run_in_two(session.advance(), (first - 1) as nat, second);
    }
}

/// A session that has finished after `count` requests is the same after
/// any greater number.
pub proof fn run_settles(session: Session, count: nat, longer: nat)
    requires
        session.run(count).finished(),
        longer >= count,
    ensures
        session.run(longer) == session.run(count),
{
    run_in_two(session, count, (longer - count) as nat);
    finished_is_final(session.run(count), (longer - count) as nat);
}

} // verus!
