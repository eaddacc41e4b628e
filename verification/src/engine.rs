//! The copy engine: a state machine that turns the outcome of one filesystem
//! request into the next request.
//!
//! A copy begins with a metadata query on the source scope. A regular file is
//! copied alone; anything else is enumerated. Each discovered path is then
//! probed as a link, classified, and replicated by the matching part of the
//! machine before the next path is looked at. The first failed request ends
//! the copy. Two things are reported and passed over instead: a source entry
//! of an unknown type, and a file whose destination is a symbolic link.
//!
//! A destination path is the destination scope joined with the discovered
//! path. Discovered paths are rooted as a rule, and a rooted path replaces
//! what it is joined to: the destination scope then has no effect.
//!
//! A regular file that exists at the destination is emptied before the
//! bytes of the source are written to it: nothing of its old content is
//! left, whichever of the two is longer.
//!
//! Links are created without making their parent directories first: the
//! enumeration yields a directory before what is in it.

use crate::entry::class_of;
use crate::entry::classify;
use crate::entry::Collision;
use crate::entry::Destination;
use crate::entry::EntryKind;
use crate::entry::FileKind;
use crate::entry::Metadata;
use crate::entry::open_options;
use crate::entry::options_of;
use crate::entry::policy;
use crate::entry::policy_of;
use crate::path::file_name;
use crate::path::file_name_of;
use crate::path::join;
use crate::path::joined;
use crate::path::parent;
use crate::path::parent_of;
use crate::path::resolve_scope;
use crate::path::resolved;
use crate::path::root;
use crate::path::to_path;
use crate::request::Action;
use crate::request::ActionView;
use crate::request::Event;
use crate::request::EventView;
use crate::request::Failure;
use crate::request::Notice;
use crate::request::Outcome;
use crate::request::path_views;
use vstd::prelude::*;

verus! {

/// Where the engine stands: which outcome it waits for.
#[derive(Clone, Copy, Debug, PartialEq, Eq, Structural)]
pub enum Phase {
    /// Nothing was asked yet.
    Idle,
    /// The metadata of the source scope.
    RootMetadata,
    /// The enumeration of the source scope.
    Walking,
    /// The attempt to read the current path as a link.
    Probing,
    /// The metadata of the current path, which is no link.
    EntryMetadata,
    /// The report of an entry of unknown type.
    UnknownReported,
    /// The target of the current link.
    LinkTarget,
    /// The creation of the link at the destination.
    LinkCreation,
    /// The creation of the destination directory.
    DirCreation,
    /// The metadata of the source directory.
    DirMetadata,
    /// The permission bits of the destination directory.
    DirPermissions,
    /// The owner of the destination directory.
    DirOwnership,
    /// The creation of the destination's parent directories.
    FileParent,
    /// The opening of the source file.
    FileSource,
    /// The state of the destination path.
    FileDestination,
    /// The opening of the destination file.
    FileOpening,
    /// The transfer of the bytes.
    FileTransfer,
    /// The metadata of the open source file.
    FileMetadata,
    /// The owner of the destination file.
    FileOwnership,
    /// The permission bits of the destination file.
    FilePermissions,
    /// The report of a destination that is a symbolic link.
    SkipReported,
    /// The copy has ended.
    Finished,
}

/// The engine as a mathematical value.
pub struct Machine {
    /// The subtree of the source that is copied.
    pub src_scope: Seq<u8>,
    /// The path on the destination that discovered paths are joined to.
    pub dest_scope: Seq<u8>,
    /// The discovered paths, in the order in which they are dealt with.
    pub paths: Seq<Seq<u8>>,
    /// The index of the current path.
    pub next: int,
    pub phase: Phase,
    /// The destination path that the current file is written to.
    pub target: Seq<u8>,
    /// How the current file is written.
    pub policy: Collision,
    /// The source metadata that is being applied.
    pub pending: Metadata,
    /// How the copy ended, once the phase is `Finished`.
    pub outcome: Outcome,
    /// The path at which the copy was given up.
    pub failed_at: Option<Seq<u8>>,
}

impl Phase {
    /// Whether the engine is dealing with a discovered path in this phase.
    pub open spec fn within_entry(self) -> bool {
        !(self is Idle || self is RootMetadata || self is Walking || self is Finished)
    }
}

impl Machine {
    /// The machine before the first request, with its two scopes.
    pub open spec fn initial(src_scope: Seq<u8>, dest_scope: Seq<u8>) -> Machine {
        Machine {
            src_scope,
            dest_scope,
            paths: Seq::empty(),
            next: 0,
            phase: Phase::Idle,
            target: Seq::empty(),
            policy: Collision::CreateNew,
            pending: Metadata { kind: FileKind::Other, mode: 0, uid: None, gid: None },
            outcome: Outcome::Completed,
            failed_at: None,
        }
    }

    /// While a discovered path is dealt with, there is one.
    pub open spec fn wf(self) -> bool {
        self.phase.within_entry() ==> 0 <= self.next < self.paths.len()
    }

    /// The discovered path that is being dealt with.
    pub open spec fn current(self) -> Seq<u8> {
        self.paths[self.next]
    }

    /// The destination path of the current discovered path.
    pub open spec fn destination(self) -> Seq<u8> {
        joined(self.dest_scope, self.current())
    }

    /// The machine in another phase.
    pub open spec fn at(self, phase: Phase) -> Machine {
        Machine { phase, ..self }
    }

    /// The path that the engine is dealing with: the current discovered
    /// path, or the source scope while that is queried or enumerated.
    pub open spec fn culprit(self) -> Option<Seq<u8>> {
        if self.phase.within_entry() {
            Some(self.current())
        } else if self.phase is RootMetadata || self.phase is Walking {
            Some(self.src_scope)
        } else {
            None
        }
    }

    /// The copy ends in failure, at the path that the engine is dealing
    /// with.
    pub open spec fn give_up(self, failure: Failure) -> (Machine, ActionView) {
        let outcome = Outcome::GaveUp(failure);
        (
            Machine { phase: Phase::Finished, outcome, failed_at: self.culprit(), ..self },
            ActionView::Finish { outcome },
        )
    }

    /// The path at which the copy was given up: `None` while the copy is
    /// under way, and when it has ended with success.
    pub open spec fn failed_path(self) -> Option<Seq<u8>> {
        if self.phase is Finished && self.outcome is GaveUp {
            self.failed_at
        } else {
            None
        }
    }

    /// The machine takes up the discovered path of index `i`, or ends the
    /// copy where there is none.
    pub open spec fn enter(self, i: int) -> (Machine, ActionView) {
        if 0 <= i < self.paths.len() {
            (
                Machine { phase: Phase::Probing, next: i, ..self },
                ActionView::ReadLink { path: self.paths[i] },
            )
        } else {
            let outcome = Outcome::Completed;
            (
                Machine { phase: Phase::Finished, next: i, outcome, ..self },
                ActionView::Finish { outcome },
            )
        }
    }

    /// What an outcome that ends the current request without a value leads
    /// to: `then` where the request succeeded, the end of the copy otherwise.
    pub open spec fn after_done(self, event: EventView, then: (Machine, ActionView)) -> (
        Machine,
        ActionView,
    ) {
        match event {
            EventView::Done => then,
            EventView::Failed => self.give_up(Failure::Request),
            _ => self.give_up(Failure::Unexpected),
        }
    }

    /// The request that sets the owner recorded in `metadata`, or the end of
    /// the copy where the source did not tell it.
    pub open spec fn chown(self, phase: Phase, dest: Seq<u8>, metadata: Metadata) -> (
        Machine,
        ActionView,
    ) {
        match metadata.uid {
            None => self.give_up(Failure::UserId),
            Some(uid) => match metadata.gid {
                None => self.give_up(Failure::GroupId),
                Some(gid) => (
                    Machine { phase, pending: metadata, ..self },
                    ActionView::Chown { dest, uid, gid },
                ),
            },
        }
    }

    /// The orchestrator: the phases in which the set of paths is obtained and
    /// each path is classified.
    pub open spec fn orchestrate(self, event: EventView) -> (Machine, ActionView) {
        match self.phase {
            Phase::Idle => match event {
                EventView::Started => (
                    self.at(Phase::RootMetadata),
                    ActionView::SourceMetadata { path: self.src_scope },
                ),
                _ => self.give_up(Failure::Unexpected),
            },
            Phase::RootMetadata => match event {
                EventView::Metadata(metadata) => if metadata.kind == FileKind::File {
                    Machine { paths: seq![self.src_scope], ..self }.enter(0)
                } else {
                    (self.at(Phase::Walking), ActionView::Walk { root: self.src_scope })
                },
                EventView::Failed => self.give_up(Failure::Request),
                _ => self.give_up(Failure::Unexpected),
            },
            Phase::Walking => match event {
                EventView::Paths(paths) => Machine { paths, ..self }.enter(0),
                EventView::Failed => self.give_up(Failure::Request),
                _ => self.give_up(Failure::Unexpected),
            },
            Phase::Probing => match event {
                EventView::Link(_) => (
                    self.at(Phase::LinkTarget),
                    ActionView::ReadLink { path: self.current() },
                ),
                EventView::Failed => (
                    self.at(Phase::EntryMetadata),
                    ActionView::SourceMetadata { path: self.current() },
                ),
                _ => self.give_up(Failure::Unexpected),
            },
            Phase::EntryMetadata => match event {
                EventView::Metadata(metadata) => match class_of(metadata.kind) {
                    EntryKind::Directory => (
                        self.at(Phase::DirCreation),
                        ActionView::CreateDirAll { dir: self.destination() },
                    ),
                    EntryKind::File => match parent_of(self.destination()) {
                        Some(dir) => (self.at(Phase::FileParent), ActionView::CreateDirAll { dir }),
                        None => (
                            self.at(Phase::FileSource),
                            ActionView::OpenSource { path: self.current() },
                        ),
                    },
                    _ => (
                        self.at(Phase::UnknownReported),
                        ActionView::Report {
                            notice: Notice::UnknownFileType,
                            path: self.current(),
                            dest: self.destination(),
                        },
                    ),
                },
                EventView::Failed => self.give_up(Failure::Request),
                _ => self.give_up(Failure::Unexpected),
            },
            _ => self.after_done(event, self.enter(self.next + 1)),
        }
    }

    /// The symlink replicator: reads the target of the current link and
    /// creates a link with that very target at the destination path.
    pub open spec fn replicate_link(self, event: EventView) -> (Machine, ActionView) {
        match self.phase {
            Phase::LinkTarget => match event {
                EventView::Link(target) => (
                    self.at(Phase::LinkCreation),
                    ActionView::Symlink { target, link: self.destination() },
                ),
                EventView::Failed => self.give_up(Failure::Request),
                _ => self.give_up(Failure::Unexpected),
            },
            _ => self.after_done(event, self.enter(self.next + 1)),
        }
    }

    /// The directory materializer: makes the destination directory with its
    /// ancestors, then sets the permission bits and after them the owner of
    /// the source directory.
    pub open spec fn materialize_dir(self, event: EventView) -> (Machine, ActionView) {
        match self.phase {
            Phase::DirCreation => self.after_done(
                event,
                (self.at(Phase::DirMetadata), ActionView::SourceMetadata { path: self.current() }),
            ),
            Phase::DirMetadata => match event {
                EventView::Metadata(metadata) => (
                    Machine { phase: Phase::DirPermissions, pending: metadata, ..self },
                    ActionView::SetPermissions { dest: self.destination(), mode: metadata.mode },
                ),
                EventView::Failed => self.give_up(Failure::Request),
                _ => self.give_up(Failure::Unexpected),
            },
            Phase::DirPermissions => self.after_done(
                event,
                self.chown(Phase::DirOwnership, self.destination(), self.pending),
            ),
            _ => self.after_done(event, self.enter(self.next + 1)),
        }
    }

    /// What the file replicator does once it knows what is at the
    /// destination path.
    pub open spec fn collide(self, found: Destination) -> (Machine, ActionView) {
        let policy = policy_of(found);
        match policy {
            Collision::Skip => (
                self.at(Phase::SkipReported),
                ActionView::Report {
                    notice: Notice::DestinationIsSymlink,
                    path: self.current(),
                    dest: self.destination(),
                },
            ),
            Collision::WriteInside => match file_name_of(self.current()) {
                None => self.give_up(Failure::BaseName),
                Some(name) => {
                    let target = joined(self.destination(), name);
                    (
                        Machine { phase: Phase::FileOpening, target, policy, ..self },
                        ActionView::OpenDestination { dest: target, options: options_of(policy) },
                    )
                },
            },
            _ => (
                Machine { phase: Phase::FileOpening, target: self.destination(), policy, ..self },
                ActionView::OpenDestination {
                    dest: self.destination(),
                    options: options_of(policy),
                },
            ),
        }
    }

    /// The file replicator: opens the source, looks at the destination and
    /// writes according to the collision policy, then sets the owner and
    /// after it the permission bits of the source file.
    pub open spec fn replicate_file(self, event: EventView) -> (Machine, ActionView) {
        match self.phase {
            Phase::FileParent => self.after_done(
                event,
                (self.at(Phase::FileSource), ActionView::OpenSource { path: self.current() }),
            ),
            Phase::FileSource => self.after_done(
                event,
                (
                    self.at(Phase::FileDestination),
                    ActionView::DestinationMetadata { dest: self.destination() },
                ),
            ),
            Phase::FileDestination => match event {
                EventView::Metadata(metadata) => self.collide(Destination::Present(metadata.kind)),
                EventView::Failed => self.collide(Destination::Absent),
                _ => self.give_up(Failure::Unexpected),
            },
            Phase::FileOpening => self.after_done(
                event,
                if self.policy == Collision::MetadataOnly {
                    (self.at(Phase::FileMetadata), ActionView::SourceFileMetadata)
                } else {
                    (self.at(Phase::FileTransfer), ActionView::CopyStream)
                },
            ),
            Phase::FileTransfer => self.after_done(
                event,
                (self.at(Phase::FileMetadata), ActionView::SourceFileMetadata),
            ),
            Phase::FileMetadata => match event {
                EventView::Metadata(metadata) => self.chown(
                    Phase::FileOwnership,
                    self.target,
                    metadata,
                ),
                EventView::Failed => self.give_up(Failure::Request),
                _ => self.give_up(Failure::Unexpected),
            },
            Phase::FileOwnership => self.after_done(
                event,
                (
                    self.at(Phase::FilePermissions),
                    ActionView::SetPermissions { dest: self.target, mode: self.pending.mode },
                ),
            ),
            _ => self.after_done(event, self.enter(self.next + 1)),
        }
    }

    /// The machine and the request that follow on `event`.
    pub open spec fn transition(self, event: EventView) -> (Machine, ActionView) {
        match self.phase {
            Phase::Finished => (self, ActionView::Finish { outcome: self.outcome }),
            Phase::LinkTarget | Phase::LinkCreation => self.replicate_link(event),
            Phase::DirCreation | Phase::DirMetadata | Phase::DirPermissions
            | Phase::DirOwnership => self.materialize_dir(event),
            Phase::FileParent | Phase::FileSource | Phase::FileDestination | Phase::FileOpening
            | Phase::FileTransfer | Phase::FileMetadata | Phase::FileOwnership
            | Phase::FilePermissions | Phase::SkipReported => self.replicate_file(event),
            _ => self.orchestrate(event),
        }
    }
}

/// The copy engine. It is made for one copy, by one of the four `copy_`
/// functions, and driven by [`DiskDrive::step`] until it answers with
/// [`Action::Finish`].
#[derive(Debug)]
pub struct DiskDrive {
    src_scope: Vec<u8>,
    dest_scope: Vec<u8>,
    paths: Vec<Vec<u8>>,
    next: usize,
    phase: Phase,
    target: Vec<u8>,
    policy: Collision,
    pending: Metadata,
    outcome: Outcome,
    failed_at: Option<Vec<u8>>,
}

impl DiskDrive {
    /// While a discovered path is dealt with, there is one.
    #[verifier::type_invariant]
    spec fn well_formed(self) -> bool {
        self.phase.within_entry() ==> self.next < self.paths.len()
    }
}

impl View for DiskDrive {
    type V = Machine;

    closed spec fn view(&self) -> Machine {
        Machine {
            src_scope: self.src_scope@,
            dest_scope: self.dest_scope@,
            paths: path_views(self.paths@),
            next: self.next as int,
            phase: self.phase,
            target: self.target@,
            policy: self.policy,
            pending: self.pending,
            outcome: self.outcome,
            failed_at: match self.failed_at {
                Some(path) => Some(path@),
                None => None,
            },
        }
    }
}

/// Whether the outcome is a failed request.
fn is_failure(event: &Event) -> (failed: bool)
    ensures
        failed == (event@ is Failed),
{
    match event {
        Event::Failed => true,
        _ => false,
    }
}

impl DiskDrive {
    /// An engine that has asked nothing yet.
    fn new(src_scope: Vec<u8>, dest_scope: Vec<u8>) -> (drive: DiskDrive)
        ensures
            drive@ == Machine::initial(src_scope@, dest_scope@),
    {
        let drive = DiskDrive {
            src_scope,
            dest_scope,
            paths: Vec::new(),
            next: 0,
            phase: Phase::Idle,
            target: Vec::new(),
            policy: Collision::CreateNew,
            pending: Metadata { kind: FileKind::Other, mode: 0, uid: None, gid: None },
            outcome: Outcome::Completed,
            failed_at: None,
        };
        assert(drive@.paths =~= Seq::empty());
        drive
    }

    /// An engine that copies the whole source into the destination root.
    pub fn copy_between() -> (drive: DiskDrive)
        ensures
            drive@ == Machine::initial(root(), root()),
            drive@.wf(),
    {
        DiskDrive::new(resolve_scope(None), resolve_scope(None))
    }

    /// An engine that copies the source subtree `src_scope` into the
    /// destination root.
    pub fn copy_from_src(src_scope: &[u8]) -> (drive: DiskDrive)
        ensures
            drive@ == Machine::initial(resolved(Some(src_scope@)), root()),
            drive@.wf(),
    {
        DiskDrive::new(resolve_scope(Some(src_scope)), resolve_scope(None))
    }

    /// An engine that copies the whole source into `dest_scope`.
    pub fn copy_to_dest(dest_scope: &[u8]) -> (drive: DiskDrive)
        ensures
            drive@ == Machine::initial(root(), resolved(Some(dest_scope@))),
            drive@.wf(),
    {
        DiskDrive::new(resolve_scope(None), resolve_scope(Some(dest_scope)))
    }

    /// An engine that copies the source subtree `src_scope` into
    /// `dest_scope`.
    pub fn copy_from_src_to_dest(src_scope: &[u8], dest_scope: &[u8]) -> (drive: DiskDrive)
        ensures
            drive@ == Machine::initial(
                resolved(Some(src_scope@)),
                resolved(Some(dest_scope@)),
            ),
            drive@.wf(),
    {
        DiskDrive::new(resolve_scope(Some(src_scope)), resolve_scope(Some(dest_scope)))
    }

    /// The phase in which the engine stands.
    pub fn phase(&self) -> (phase: Phase)
        ensures
            phase == self@.phase,
    {
        self.phase
    }

    /// How the copy ended, once it has: `None` while it is under way.
    pub fn outcome(&self) -> (outcome: Option<Outcome>)
        ensures
            outcome == if self@.phase is Finished {
                Some(self@.outcome)
            } else {
                None
            },
    {
        match self.phase {
            Phase::Finished => Some(self.outcome),
            _ => None,
        }
    }

    /// The path at which the copy was given up: the discovered path that
    /// was being dealt with, or the source scope where its query or its
    /// enumeration failed. `None` while the copy is under way, and when it
    /// has ended with success.
    pub fn failed_path(&self) -> (path: Option<Vec<u8>>)
        ensures
            match path {
                Some(found) => self@.failed_path() == Some(found@),
                None => self@.failed_path() is None,
            },
    {
        match self.phase {
            Phase::Finished => match self.outcome {
                Outcome::GaveUp(_) => match &self.failed_at {
                    Some(found) => Some(to_path(found.as_slice())),
                    None => None,
                },
                Outcome::Completed => None,
            },
            _ => None,
        }
    }

    /// The resolved source scope.
    pub fn source_scope(&self) -> (scope: Vec<u8>)
        ensures
            scope@ == self@.src_scope,
    {
        to_path(self.src_scope.as_slice())
    }

    /// The resolved destination scope.
    pub fn destination_scope(&self) -> (scope: Vec<u8>)
        ensures
            scope@ == self@.dest_scope,
    {
        to_path(self.dest_scope.as_slice())
    }

    /// The discovered path that is being dealt with.
    fn current_path(&self) -> (path: Vec<u8>)
        requires
            0 <= self@.next < self@.paths.len(),
        ensures
            path@ == self@.current(),
    {
        to_path(self.paths[self.next].as_slice())
    }

    /// The destination path of the current discovered path.
    fn destination_path(&self) -> (dest: Vec<u8>)
        requires
            0 <= self@.next < self@.paths.len(),
        ensures
            dest@ == self@.destination(),
    {
        join(self.dest_scope.as_slice(), self.paths[self.next].as_slice())
    }

    /// Ends the copy in failure.
    fn give_up(&mut self, failure: Failure) -> (action: Action)
        ensures
            (final(self)@, action@) == old(self)@.give_up(failure),
    {
        proof {
            use_type_invariant(&*self);
        }
        let culprit = match self.phase {
            Phase::Idle | Phase::Finished => None,
            Phase::RootMetadata | Phase::Walking => Some(to_path(self.src_scope.as_slice())),
            _ => Some(self.current_path()),
        };
        let outcome = Outcome::GaveUp(failure);
        self.phase = Phase::Finished;
        self.outcome = outcome;
        self.failed_at = culprit;
        Action::Finish { outcome }
    }

    /// Ends the copy on an outcome that the current request cannot have, or
    /// that tells its failure.
    fn refuse(&mut self, failed: bool) -> (action: Action)
        ensures
            (final(self)@, action@) == old(self)@.give_up(
                if failed {
                    Failure::Request
                } else {
                    Failure::Unexpected
                },
            ),
    {
        if failed {
            self.give_up(Failure::Request)
        } else {
            self.give_up(Failure::Unexpected)
        }
    }

    /// Takes up the discovered path of index `i`, or ends the copy where
    /// there is none.
    fn enter(&mut self, i: usize) -> (action: Action)
        ensures
            (final(self)@, action@) == old(self)@.enter(i as int),
    {
        if i < self.paths.len() {
            self.next = i;
            self.phase = Phase::Probing;
            Action::ReadLink { path: self.current_path() }
        } else {
            let outcome = Outcome::Completed;
            self.phase = Phase::Finished;
            self.next = i;
            self.outcome = outcome;
            Action::Finish { outcome }
        }
    }

    /// Goes on with the discovered path after the current one.
    fn advance(&mut self) -> (action: Action)
        requires
            0 <= old(self)@.next < old(self)@.paths.len(),
        ensures
            (final(self)@, action@) == old(self)@.enter(old(self)@.next + 1),
    {
        let count = self.paths.len();
        assert(self.next < count);
        let i = self.next + 1;
        self.enter(i)
    }

    /// Asks for the owner recorded in `metadata` to be set, or ends the copy
    /// where the source did not tell it.
    fn chown(&mut self, phase: Phase, dest: Vec<u8>, metadata: Metadata) -> (action: Action)
        requires
            0 <= old(self)@.next < old(self)@.paths.len(),
        ensures
            (final(self)@, action@) == old(self)@.chown(phase, dest@, metadata),
    {
        match metadata.uid {
            None => self.give_up(Failure::UserId),
            Some(uid) => match metadata.gid {
                None => self.give_up(Failure::GroupId),
                Some(gid) => {
                    self.phase = phase;
                    self.pending = metadata;
                    Action::Chown { dest, uid, gid }
                },
            },
        }
    }

    /// The orchestrator.
    fn orchestrate(&mut self, event: Event) -> (action: Action)
        requires
            !(old(self)@.phase is Finished),
        ensures
            (final(self)@, action@) == old(self)@.orchestrate(event@),
    {
        proof {
            use_type_invariant(&*self);
        }
        let failed = is_failure(&event);
        match self.phase {
            Phase::Idle => match event {
                Event::Started => {
                    self.phase = Phase::RootMetadata;
                    Action::SourceMetadata { path: to_path(self.src_scope.as_slice()) }
                },
                _ => self.give_up(Failure::Unexpected),
            },
            Phase::RootMetadata => match event {
                Event::Metadata(metadata) => match metadata.kind {
                    FileKind::File => {
                        let mut paths: Vec<Vec<u8>> = Vec::new();
                        paths.push(to_path(self.src_scope.as_slice()));
                        assert(path_views(paths@) =~= seq![self.src_scope@]);
                        self.paths = paths;
                        self.enter(0)
                    },
                    _ => {
                        self.phase = Phase::Walking;
                        Action::Walk { root: to_path(self.src_scope.as_slice()) }
                    },
                },
                _ => self.refuse(failed),
            },
            Phase::Walking => match event {
                Event::Paths(paths) => {
                    self.paths = paths;
                    self.enter(0)
                },
                _ => self.refuse(failed),
            },
            Phase::Probing => match event {
                Event::Link(_) => {
                    self.phase = Phase::LinkTarget;
                    Action::ReadLink { path: self.current_path() }
                },
                Event::Failed => {
                    self.phase = Phase::EntryMetadata;
                    Action::SourceMetadata { path: self.current_path() }
                },
                _ => self.give_up(Failure::Unexpected),
            },
            Phase::EntryMetadata => match event {
                Event::Metadata(metadata) => match classify(metadata.kind) {
                    EntryKind::Directory => {
                        self.phase = Phase::DirCreation;
                        Action::CreateDirAll { dir: self.destination_path() }
                    },
                    EntryKind::File => {
                        let dest = self.destination_path();
                        match parent(dest.as_slice()) {
                            Some(dir) => {
                                self.phase = Phase::FileParent;
                                Action::CreateDirAll { dir }
                            },
                            None => {
                                self.phase = Phase::FileSource;
                                Action::OpenSource { path: self.current_path() }
                            },
                        }
                    },
                    _ => {
                        self.phase = Phase::UnknownReported;
                        Action::Report {
                            notice: Notice::UnknownFileType,
                            path: self.current_path(),
                            dest: self.destination_path(),
                        }
                    },
                },
                _ => self.refuse(failed),
            },
            _ => match event {
                Event::Done => self.advance(),
                _ => self.refuse(failed),
            },
        }
    }

    /// The symlink replicator.
    fn replicate_link(&mut self, event: Event) -> (action: Action)
        requires
            old(self)@.phase is LinkTarget || old(self)@.phase is LinkCreation,
        ensures
            (final(self)@, action@) == old(self)@.replicate_link(event@),
    {
        proof {
            use_type_invariant(&*self);
        }
        let failed = is_failure(&event);
        match self.phase {
            Phase::LinkTarget => match event {
                Event::Link(target) => {
                    self.phase = Phase::LinkCreation;
                    Action::Symlink { target, link: self.destination_path() }
                },
                _ => self.refuse(failed),
            },
            _ => match event {
                Event::Done => self.advance(),
                _ => self.refuse(failed),
            },
        }
    }

    /// The directory materializer.
    fn materialize_dir(&mut self, event: Event) -> (action: Action)
        requires
            old(self)@.phase is DirCreation || old(self)@.phase is DirMetadata || old(
                self,
            )@.phase is DirPermissions || old(self)@.phase is DirOwnership,
        ensures
            (final(self)@, action@) == old(self)@.materialize_dir(event@),
    {
        proof {
            use_type_invariant(&*self);
        }
        let failed = is_failure(&event);
        match self.phase {
            Phase::DirCreation => match event {
                Event::Done => {
                    self.phase = Phase::DirMetadata;
                    Action::SourceMetadata { path: self.current_path() }
                },
                _ => self.refuse(failed),
            },
            Phase::DirMetadata => match event {
                Event::Metadata(metadata) => {
                    self.phase = Phase::DirPermissions;
                    self.pending = metadata;
                    Action::SetPermissions { dest: self.destination_path(), mode: metadata.mode }
                },
                _ => self.refuse(failed),
            },
            Phase::DirPermissions => match event {
                Event::Done => {
                    let dest = self.destination_path();
                    let metadata = self.pending;
                    self.chown(Phase::DirOwnership, dest, metadata)
                },
                _ => self.refuse(failed),
            },
            _ => match event {
                Event::Done => self.advance(),
                _ => self.refuse(failed),
            },
        }
    }

    /// Decides what to do with the current file once its destination is
    /// known.
    fn collide(&mut self, found: Destination) -> (action: Action)
        requires
            old(self)@.phase is FileDestination,
        ensures
            (final(self)@, action@) == old(self)@.collide(found),
    {
        proof {
            use_type_invariant(&*self);
        }
        let chosen = policy(found);
        let dest = self.destination_path();
        match chosen {
            Collision::Skip => {
                self.phase = Phase::SkipReported;
                Action::Report {
                    notice: Notice::DestinationIsSymlink,
                    path: self.current_path(),
                    dest,
                }
            },
            Collision::WriteInside => match file_name(self.paths[self.next].as_slice()) {
                None => self.give_up(Failure::BaseName),
                Some(name) => {
                    let target = join(dest.as_slice(), name.as_slice());
                    self.phase = Phase::FileOpening;
                    self.target = to_path(target.as_slice());
                    self.policy = chosen;
                    Action::OpenDestination { dest: target, options: open_options(chosen) }
                },
            },
            _ => {
                self.phase = Phase::FileOpening;
                self.target = to_path(dest.as_slice());
                self.policy = chosen;
                Action::OpenDestination { dest, options: open_options(chosen) }
            },
        }
    }

    /// The file replicator.
    fn replicate_file(&mut self, event: Event) -> (action: Action)
        requires
            old(self)@.phase.within_entry(),
        ensures
            (final(self)@, action@) == old(self)@.replicate_file(event@),
    {
        proof {
            use_type_invariant(&*self);
        }
        let failed = is_failure(&event);
        match self.phase {
            Phase::FileParent => match event {
                Event::Done => {
                    self.phase = Phase::FileSource;
                    Action::OpenSource { path: self.current_path() }
                },
                _ => self.refuse(failed),
            },
            Phase::FileSource => match event {
                Event::Done => {
                    self.phase = Phase::FileDestination;
                    Action::DestinationMetadata { dest: self.destination_path() }
                },
                _ => self.refuse(failed),
            },
            Phase::FileDestination => match event {
                Event::Metadata(metadata) => self.collide(Destination::Present(metadata.kind)),
                Event::Failed => self.collide(Destination::Absent),
                _ => self.give_up(Failure::Unexpected),
            },
            Phase::FileOpening => match event {
                Event::Done => match self.policy {
                    Collision::MetadataOnly => {
                        self.phase = Phase::FileMetadata;
                        Action::SourceFileMetadata
                    },
                    _ => {
                        self.phase = Phase::FileTransfer;
                        Action::CopyStream
                    },
                },
                _ => self.refuse(failed),
            },
            Phase::FileTransfer => match event {
                Event::Done => {
                    self.phase = Phase::FileMetadata;
                    Action::SourceFileMetadata
                },
                _ => self.refuse(failed),
            },
            Phase::FileMetadata => match event {
                Event::Metadata(metadata) => {
                    let dest = to_path(self.target.as_slice());
                    self.chown(Phase::FileOwnership, dest, metadata)
                },
                _ => self.refuse(failed),
            },
            Phase::FileOwnership => match event {
                Event::Done => {
                    self.phase = Phase::FilePermissions;
                    Action::SetPermissions {
                        dest: to_path(self.target.as_slice()),
                        mode: self.pending.mode,
                    }
                },
                _ => self.refuse(failed),
            },
            _ => match event {
                Event::Done => self.advance(),
                _ => self.refuse(failed),
            },
        }
    }

    /// Takes the outcome of the request that the engine handed out last and
    /// answers with the next request. The first call takes
    /// [`Event::Started`]. Once the engine has answered with
    /// [`Action::Finish`], it answers every outcome with the same.
    pub fn step(&mut self, event: Event) -> (action: Action)
        ensures
            (final(self)@, action@) == old(self)@.transition(event@),
            final(self)@.wf(),
    {
        let action = match self.phase {
            Phase::Finished => Action::Finish { outcome: self.outcome },
            Phase::LinkTarget | Phase::LinkCreation => self.replicate_link(event),
            Phase::DirCreation | Phase::DirMetadata | Phase::DirPermissions
            | Phase::DirOwnership => self.materialize_dir(event),
            Phase::FileParent | Phase::FileSource | Phase::FileDestination | Phase::FileOpening
            | Phase::FileTransfer | Phase::FileMetadata | Phase::FileOwnership
            | Phase::FilePermissions | Phase::SkipReported => self.replicate_file(event),
            _ => self.orchestrate(event),
        };
        proof {
            use_type_invariant(&*self);
        }
        action
    }
}

/// Every engine that is reached from a well-formed one is well-formed.
pub proof fn transition_keeps_wf(machine: Machine, event: EventView)
    requires
        machine.wf(),
    ensures
        machine.transition(event).0.wf(),
{
}

/// The scopes of a copy never change, and the discovered paths are set
/// once: when the source scope proves to be a regular file, or when it was
/// enumerated.
pub proof fn transition_keeps_course(machine: Machine, event: EventView)
    ensures
        machine.transition(event).0.src_scope == machine.src_scope,
        machine.transition(event).0.dest_scope == machine.dest_scope,
        !(machine.phase is RootMetadata || machine.phase is Walking) ==> machine.transition(
            event,
        ).0.paths == machine.paths,
{
}

/// The engine asks to finish exactly when it enters its last phase, and it
/// tells the outcome that it keeps.
pub proof fn finish_is_announced(machine: Machine, event: EventView)
    ensures
        machine.transition(event).1 is Finish <==> machine.transition(event).0.phase is Finished,
        machine.transition(event).1 is Finish ==> machine.transition(event).1
            == (ActionView::Finish { outcome: machine.transition(event).0.outcome }),
{
}

/// An engine that gives up names the path that it was dealing with: the
/// current discovered path, or the source scope while that was queried or
/// enumerated. Before the first request there is no such path.
pub proof fn failure_names_the_path(machine: Machine, failure: Failure)
    ensures
        machine.give_up(failure).0.failed_path() == if machine.phase.within_entry() {
            Some(machine.current())
        } else if machine.phase is RootMetadata || machine.phase is Walking {
            Some(machine.src_scope)
        } else {
            None
        },
{
}

/// A finished engine stays as it is and repeats its answer.
pub proof fn finished_is_kept(machine: Machine, event: EventView)
    requires
        machine.phase is Finished,
    ensures
        machine.transition(event) == (machine, ActionView::Finish { outcome: machine.outcome }),
{
}

/// The first failed request ends the copy. Two requests may fail without
/// harm: the attempt to read a discovered path as a link, which then is
/// none, and the query of a file's destination, which then does not exist.
pub proof fn failure_ends_the_copy(machine: Machine)
    requires
        !(machine.phase is Idle || machine.phase is Finished),
    ensures
        !(machine.phase is Probing || machine.phase is FileDestination) ==> machine.transition(
            EventView::Failed,
        ) == machine.give_up(Failure::Request),
        machine.phase is Probing ==> machine.transition(EventView::Failed) == (
            machine.at(Phase::EntryMetadata),
            ActionView::SourceMetadata { path: machine.current() },
        ),
        machine.phase is FileDestination ==> machine.transition(EventView::Failed)
            == machine.collide(Destination::Absent),
{
}

} // verus!
