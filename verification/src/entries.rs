//! What the engine does to the model with one discovered path, from the
//! request that probes it to the request that probes the next.

use crate::chains::with_dirs_adds_dirs;
use crate::chains::with_dirs_makes_dir;
use crate::chains::with_parents;
use crate::engine::Machine;
use crate::engine::Phase;
use crate::entry::Destination;
use crate::entry::FileKind;
use crate::entry::options_of;
use crate::model::can_hold_dir;
use crate::model::Disk;
use crate::model::has_dir_above;
use crate::model::metadata_of;
use crate::model::Node;
use crate::model::overwritten;
use crate::model::run_in_two;
use crate::model::Session;
use crate::model::with_dirs;
use crate::model::World;
use crate::path::file_name_of;
use crate::path::joined;
use crate::path::parent_of;
use crate::request::ActionView;
use crate::request::Notice;
use crate::request::Outcome;
use vstd::prelude::*;

verus! {

/// Two machines are on the same course when they copy between the same
/// scopes and deal with the same discovered paths.
pub open spec fn same_course(a: Machine, b: Machine) -> bool {
    a.src_scope == b.src_scope && a.dest_scope == b.dest_scope && a.paths == b.paths
}

/// The session has just taken up the discovered path of index `i`: it asks
/// to read it as a link. Where there is no such path, it has finished with
/// success.
pub open spec fn entered(session: Session, i: int) -> bool {
    let machine = session.machine;
    if 0 <= i < machine.paths.len() {
        machine.phase is Probing && machine.next == i && session.request
            == (ActionView::ReadLink { path: machine.paths[i] })
    } else {
        machine.phase is Finished && machine.outcome is Completed && session.request
            == (ActionView::Finish { outcome: Outcome::Completed })
    }
}

/// Two worlds differ in their destination disks at most.
pub open spec fn same_but_dest(a: World, b: World) -> bool {
    a.source == b.source && a.listing == b.listing && a.defaults == b.defaults && a.reports
        == b.reports
}

/// What the file replicator finds at `dest`.
pub open spec fn found_at(disk: Disk, dest: Seq<u8>) -> Destination {
    if disk.contains_key(dest) {
        Destination::Present(disk[dest].kind)
    } else {
        Destination::Absent
    }
}

/// What a regular file is after `source` was written to it: a regular file
/// with the bytes, the permission bits and the owner of `source`, and
/// nothing of what it held before.
pub open spec fn written(source: Node) -> Node {
    Node {
        kind: FileKind::File,
        content: source.content,
        mode: source.mode,
        uid: source.uid,
        gid: source.gid,
    }
}

/// The directory at `dest` once it was made and given the permission bits
/// and the owner of `source`.
pub open spec fn materialized(disk: Disk, dest: Seq<u8>, source: Node) -> Node {
    Node {
        kind: FileKind::Directory,
        content: if disk.contains_key(dest) {
            disk[dest].content
        } else {
            Seq::empty()
        },
        mode: source.mode,
        uid: source.uid,
        gid: source.gid,
    }
}

/// Where the bytes of the file at `path` go when its destination is `dest`
/// on `disk`: into the entry of its base name inside `dest` where that is a
/// directory, and else to `dest` itself.
pub open spec fn file_target(disk: Disk, dest: Seq<u8>, path: Seq<u8>) -> Seq<u8> {
    if found_at(disk, dest) == Destination::Present(FileKind::Directory) {
        joined(dest, file_name_of(path).unwrap())
    } else {
        dest
    }
}

/// Whether the file at `path` can be written when its destination is `dest`
/// on `disk`: the destination is missing, a regular file, or a directory in
/// which the entry of the file's base name is missing or a regular file.
pub open spec fn file_fits(disk: Disk, dest: Seq<u8>, path: Seq<u8>) -> bool {
    match found_at(disk, dest) {
        Destination::Absent => true,
        Destination::Present(FileKind::File) => true,
        Destination::Present(FileKind::Directory) => {
            &&& file_name_of(path) is Some
            &&& disk.contains_key(file_target(disk, dest, path)) ==> disk[file_target(
                disk,
                dest,
                path,
            )].kind is File
        },
        _ => false,
    }
}

/// A copy of a regular file begins with that file as the only discovered
/// path.
pub proof fn copy_begins_with_file(src_scope: Seq<u8>, dest_scope: Seq<u8>, world: World)
    requires
        world.source.contains_key(src_scope),
        world.source[src_scope].kind is File,
    ensures
        ({
            let taken = Session::begin(src_scope, dest_scope, world).run(1);
            &&& taken.machine.src_scope == src_scope
            &&& taken.machine.dest_scope == dest_scope
            &&& taken.machine.paths == seq![src_scope]
            &&& entered(taken, 0)
            &&& taken.world == world
        }),
{
    let session = Session::begin(src_scope, dest_scope, world);
    let initial = Machine::initial(src_scope, dest_scope);
    assert(session == Session {
        machine: initial.at(Phase::RootMetadata),
        request: ActionView::SourceMetadata { path: src_scope },
        world,
    });
    let single = Machine { paths: seq![src_scope], ..initial.at(Phase::RootMetadata) };
    assert(session.advance() == Session {
        machine: single.enter(0).0,
        request: single.enter(0).1,
        world,
    }) by {
        reveal(Session::advance);
    }
    assert(session.run(1) == session.advance()) by {
        reveal_with_fuel(Session::run, 2);
    }
}

/// A copy of anything but a regular file begins with the enumeration of the
/// source scope, and the discovered paths are what it yields.
pub proof fn copy_begins_with_walk(src_scope: Seq<u8>, dest_scope: Seq<u8>, world: World)
    requires
        world.source.contains_key(src_scope),
        !(world.source[src_scope].kind is File),
    ensures
        ({
            let taken = Session::begin(src_scope, dest_scope, world).run(2);
            &&& taken.machine.src_scope == src_scope
            &&& taken.machine.dest_scope == dest_scope
            &&& taken.machine.paths == world.listing
            &&& entered(taken, 0)
            &&& taken.world == world
        }),
{
    let session = Session::begin(src_scope, dest_scope, world);
    let initial = Machine::initial(src_scope, dest_scope);
    assert(session == Session {
        machine: initial.at(Phase::RootMetadata),
        request: ActionView::SourceMetadata { path: src_scope },
        world,
    });
    let s1 = session.advance();
    assert(s1 == Session {
        machine: initial.at(Phase::Walking),
        request: ActionView::Walk { root: src_scope },
        world,
    }) by {
        reveal(Session::advance);
    }
    let listed = Machine { paths: world.listing, ..initial.at(Phase::Walking) };
    assert(s1.advance() == Session {
        machine: listed.enter(0).0,
        request: listed.enter(0).1,
        world,
    }) by {
        reveal(Session::advance);
    }
    assert(session.run(2) == s1.advance()) by {
        reveal_with_fuel(Session::run, 3);
    }
}

/// An entry that is no link is asked for its metadata next.
pub proof fn probe_finds_no_link(session: Session, i: int)
    requires
        0 <= i < session.machine.paths.len(),
        entered(session, i),
        !(session.world.source.contains_key(session.machine.paths[i])
            && session.world.source[session.machine.paths[i]].kind is Symlink),
    ensures
        session.advance() == (Session {
            machine: session.machine.at(Phase::EntryMetadata),
            request: ActionView::SourceMetadata { path: session.machine.paths[i] },
            world: session.world,
        }),
{
    reveal(Session::advance);
}

/// A link whose destination is free, beneath a directory that is there, is
/// recreated with the very target that the source link has. Nothing is made
/// above it, and nothing else changes.
pub proof fn link_is_replicated(session: Session, i: int)
    requires
        0 <= i < session.machine.paths.len(),
        entered(session, i),
        session.world.source.contains_key(session.machine.paths[i]),
        session.world.source[session.machine.paths[i]].kind is Symlink,
        !session.world.dest.contains_key(
            joined(session.machine.dest_scope, session.machine.paths[i]),
        ),
        has_dir_above(
            session.world.dest,
            joined(session.machine.dest_scope, session.machine.paths[i]),
        ),
    ensures
        ({
            let path = session.machine.paths[i];
            let dest = joined(session.machine.dest_scope, path);
            let after = session.run(3);
            &&& same_course(after.machine, session.machine)
            &&& entered(after, i + 1)
            &&& same_but_dest(after.world, session.world)
            &&& after.world.dest == session.world.dest.insert(
                dest,
                session.world.defaults.link(session.world.source[path].content),
            )
        }),
{
    let m = session.machine;
    let w = session.world;
    let path = m.paths[i];
    let dest = joined(m.dest_scope, path);
    let s1 = session.advance();
    assert(s1 == Session {
        machine: m.at(Phase::LinkTarget),
        request: ActionView::ReadLink { path },
        world: w,
    }) by {
        reveal(Session::advance);
    }
    let s2 = s1.advance();
    assert(s2 == Session {
        machine: m.at(Phase::LinkCreation),
        request: ActionView::Symlink { target: w.source[path].content, link: dest },
        world: w,
    }) by {
        reveal(Session::advance);
    }
    let s3 = s2.advance();
    assert(s3 == Session {
        machine: m.enter(i + 1).0,
        request: m.enter(i + 1).1,
        world: w.with_dest(w.dest.insert(dest, w.defaults.link(w.source[path].content))),
    }) by {
        reveal(Session::advance);
    }
    assert(session.run(3) == s3) by {
        reveal_with_fuel(Session::run, 4);
    }
}

/// An entry that is neither a link, a directory nor a regular file is
/// reported, and the engine takes up the next discovered path. Nothing
/// changes on the destination.
pub proof fn unknown_is_reported(session: Session, i: int)
    requires
        0 <= i < session.machine.paths.len(),
        entered(session, i),
        session.world.source.contains_key(session.machine.paths[i]),
        session.world.source[session.machine.paths[i]].kind is Other,
    ensures
        ({
            let path = session.machine.paths[i];
            let after = session.run(3);
            &&& same_course(after.machine, session.machine)
            &&& entered(after, i + 1)
            &&& after.world == World {
                reports: session.world.reports.push((Notice::UnknownFileType, path)),
                ..session.world
            }
        }),
{
    let m = session.machine;
    let w = session.world;
    let path = m.paths[i];
    probe_finds_no_link(session, i);
    let s1 = session.advance();
    let s2 = s1.advance();
    assert(s2 == Session {
        machine: m.at(Phase::UnknownReported),
        request: ActionView::Report {
            notice: Notice::UnknownFileType,
            path,
            dest: joined(m.dest_scope, path),
        },
        world: w,
    }) by {
        reveal(Session::advance);
    }
    let s3 = s2.advance();
    assert(s3 == Session {
        machine: m.enter(i + 1).0,
        request: m.enter(i + 1).1,
        world: World { reports: w.reports.push((Notice::UnknownFileType, path)), ..w },
    }) by {
        reveal(Session::advance);
    }
    assert(session.run(3) == s3) by {
        reveal_with_fuel(Session::run, 4);
    }
}

/// A directory is made at its destination, with the directories above it,
/// and given the permission bits and the owner of the source directory.
/// Nothing else changes.
pub proof fn dir_is_materialized(session: Session, i: int)
    requires
        0 <= i < session.machine.paths.len(),
        entered(session, i),
        session.world.source.contains_key(session.machine.paths[i]),
        session.world.source[session.machine.paths[i]].kind is Directory,
        can_hold_dir(
            session.world.dest,
            joined(session.machine.dest_scope, session.machine.paths[i]),
        ),
        joined(session.machine.dest_scope, session.machine.paths[i]).len() > 0,
    ensures
        ({
            let path = session.machine.paths[i];
            let dest = joined(session.machine.dest_scope, path);
            let after = session.run(6);
            &&& same_course(after.machine, session.machine)
            &&& entered(after, i + 1)
            &&& same_but_dest(after.world, session.world)
            &&& after.world.dest == with_dirs(
                session.world.dest,
                dest,
                session.world.defaults,
            ).insert(dest, materialized(session.world.dest, dest, session.world.source[path]))
        }),
{
    let m = session.machine;
    let w = session.world;
    let path = m.paths[i];
    let node = w.source[path];
    let dest = joined(m.dest_scope, path);
    let made = with_dirs(w.dest, dest, w.defaults);
    with_dirs_makes_dir(w.dest, dest, w.defaults);
    probe_finds_no_link(session, i);
    let s1 = session.advance();
    let s2 = s1.advance();
    assert(s2 == Session {
        machine: m.at(Phase::DirCreation),
        request: ActionView::CreateDirAll { dir: dest },
        world: w,
    }) by {
        reveal(Session::advance);
    }
    let s3 = s2.advance();
    assert(s3 == Session {
        machine: m.at(Phase::DirMetadata),
        request: ActionView::SourceMetadata { path },
        world: w.with_dest(made),
    }) by {
        reveal(Session::advance);
    }
    let s4 = s3.advance();
    let applying = Machine { phase: Phase::DirPermissions, pending: metadata_of(node), ..m };
    assert(s4 == Session {
        machine: applying,
        request: ActionView::SetPermissions { dest, mode: node.mode },
        world: w.with_dest(made),
    }) by {
        reveal(Session::advance);
    }
    let s5 = s4.advance();
    let allowed = Node { mode: node.mode, ..made[dest] };
    assert(s5 == Session {
        machine: applying.at(Phase::DirOwnership),
        request: ActionView::Chown { dest, uid: node.uid, gid: node.gid },
        world: w.with_dest(made.insert(dest, allowed)),
    }) by {
        reveal(Session::advance);
    }
    let s6 = s5.advance();
    assert(s6 == Session {
        machine: applying.enter(i + 1).0,
        request: applying.enter(i + 1).1,
        world: w.with_dest(made.insert(dest, materialized(w.dest, dest, node))),
    }) by {
        reveal(Session::advance);
        assert(Node { uid: node.uid, gid: node.gid, ..allowed } == materialized(
            w.dest,
            dest,
            node,
        ));
        assert(s5.world.dest.insert(dest, materialized(w.dest, dest, node)) == made.insert(
            dest,
            materialized(w.dest, dest, node),
        ));
    }
    assert(session.run(6) == s6) by {
        reveal_with_fuel(Session::run, 7);
    }
}

/// The replication of a regular file begins with the directories above its
/// destination and the opening of the source; then the engine asks what is
/// at the destination.
pub proof fn file_is_opened(session: Session, i: int) -> (count: nat)
    requires
        0 <= i < session.machine.paths.len(),
        entered(session, i),
        session.world.source.contains_key(session.machine.paths[i]),
        session.world.source[session.machine.paths[i]].kind is File,
        parent_of(joined(session.machine.dest_scope, session.machine.paths[i])) matches Some(dir)
            ==> can_hold_dir(session.world.dest, dir),
    ensures
        count <= 4,
        ({
            let path = session.machine.paths[i];
            let dest = joined(session.machine.dest_scope, path);
            session.run(count) == Session {
                machine: session.machine.at(Phase::FileDestination),
                request: ActionView::DestinationMetadata { dest },
                world: World {
                    dest: with_parents(session.world.dest, dest, session.world.defaults),
                    reading: Some(path),
                    ..session.world
                },
            }
        }),
{
    let m = session.machine;
    let w = session.world;
    let path = m.paths[i];
    let dest = joined(m.dest_scope, path);
    let made = with_parents(w.dest, dest, w.defaults);
    probe_finds_no_link(session, i);
    let s1 = session.advance();
    let s2 = s1.advance();
    let s3 = if parent_of(dest) is Some {
        s2.advance()
    } else {
        s2
    };
    assert(s3 == Session {
        machine: m.at(Phase::FileSource),
        request: ActionView::OpenSource { path },
        world: w.with_dest(made),
    }) by {
        reveal(Session::advance);
        assert(w.with_dest(w.dest) == w);
    }
    let s4 = s3.advance();
    assert(s4 == Session {
        machine: m.at(Phase::FileDestination),
        request: ActionView::DestinationMetadata { dest },
        world: World { dest: made, reading: Some(path), ..w },
    }) by {
        reveal(Session::advance);
    }
    if parent_of(dest) is Some {
        assert(session.run(4) == s4) by {
            reveal_with_fuel(Session::run, 5);
        }
        4
    } else {
        assert(session.run(3) == s4) by {
            reveal_with_fuel(Session::run, 4);
        }
        3
    }
}

/// What is at the destination decides how the file is written.
pub proof fn destination_decides(session: Session)
    requires
        session.machine.phase is FileDestination,
        0 <= session.machine.next < session.machine.paths.len(),
        session.request == (ActionView::DestinationMetadata {
            dest: session.machine.destination(),
        }),
    ensures
        ({
            let found = found_at(session.world.dest, session.machine.destination());
            session.advance() == Session {
                machine: session.machine.collide(found).0,
                request: session.machine.collide(found).1,
                world: session.world,
            }
        }),
{
    reveal(Session::advance);
}

/// From the opening of the destination on: the bytes of the open source file
/// go to `target`, then its owner and its permission bits, and the engine
/// takes up the next discovered path.
pub proof fn file_is_written(session: Session, path: Seq<u8>, target: Seq<u8>)
    requires
        session.machine.phase is FileOpening,
        0 <= session.machine.next < session.machine.paths.len(),
        session.machine.target == target,
        session.machine.policy is CreateNew || session.machine.policy is WriteInside
            || session.machine.policy is Overwrite,
        session.request == (ActionView::OpenDestination {
            dest: target,
            options: options_of(session.machine.policy),
        }),
        session.world.reading == Some(path),
        session.world.source.contains_key(path),
        session.world.source[path].kind is File,
        if session.world.dest.contains_key(target) {
            session.world.dest[target].kind is File && !(session.machine.policy is CreateNew)
        } else {
            !(session.machine.policy is Overwrite)
        },
    ensures
        ({
            let after = session.run(5);
            &&& same_course(after.machine, session.machine)
            &&& entered(after, session.machine.next + 1)
            &&& same_but_dest(after.world, session.world)
            &&& after.world.dest == session.world.dest.insert(
                target,
                written(session.world.source[path]),
            )
        }),
{
    let m = session.machine;
    let w = session.world;
    let node = w.source[path];
    let old = if w.dest.contains_key(target) {
        Node { content: Seq::empty(), ..w.dest[target] }
    } else {
        w.defaults.file()
    };
    let s1 = session.advance();
    let open = World { dest: w.dest.insert(target, old), writing: Some(target), ..w };
    assert(s1 == Session {
        machine: m.at(Phase::FileTransfer),
        request: ActionView::CopyStream,
        world: open,
    }) by {
        reveal(Session::advance);
    }
    let s2 = s1.advance();
    let filled = Node { content: node.content, ..old };
    assert(s2 == Session {
        machine: m.at(Phase::FileMetadata),
        request: ActionView::SourceFileMetadata,
        world: open.with_dest(w.dest.insert(target, filled)),
    }) by {
        reveal(Session::advance);
        assert(overwritten(Seq::<u8>::empty(), node.content) == node.content);
        assert(open.dest.insert(target, filled) == w.dest.insert(target, filled));
    }
    let s3 = s2.advance();
    let owning = Machine { phase: Phase::FileOwnership, pending: metadata_of(node), ..m };
    assert(s3 == Session {
        machine: owning,
        request: ActionView::Chown { dest: target, uid: node.uid, gid: node.gid },
        world: s2.world,
    }) by {
        reveal(Session::advance);
    }
    let s4 = s3.advance();
    let owned = Node { uid: node.uid, gid: node.gid, ..filled };
    assert(s4 == Session {
        machine: owning.at(Phase::FilePermissions),
        request: ActionView::SetPermissions { dest: target, mode: node.mode },
        world: open.with_dest(w.dest.insert(target, owned)),
    }) by {
        reveal(Session::advance);
        assert(s2.world.dest.insert(target, owned) == w.dest.insert(target, owned));
    }
    let s5 = s4.advance();
    assert(s5 == Session {
        machine: owning.enter(m.next + 1).0,
        request: owning.enter(m.next + 1).1,
        world: open.with_dest(w.dest.insert(target, written(node))),
    }) by {
        reveal(Session::advance);
        assert(s4.world.dest.insert(target, written(node)) == w.dest.insert(
            target,
            written(node),
        ));
        assert(Node { mode: node.mode, ..owned } == written(node));
    }
    assert(session.run(5) == s5) by {
        reveal_with_fuel(Session::run, 6);
    }
}

/// A regular file that can be written arrives at its target with the bytes,
/// the permission bits and the owner of the source, after the directories
/// above its destination were made. Nothing else changes, and the engine
/// takes up the next discovered path.
pub proof fn file_is_replicated(session: Session, i: int) -> (count: nat)
    requires
        0 <= i < session.machine.paths.len(),
        entered(session, i),
        session.world.source.contains_key(session.machine.paths[i]),
        session.world.source[session.machine.paths[i]].kind is File,
        parent_of(joined(session.machine.dest_scope, session.machine.paths[i])) matches Some(dir)
            ==> can_hold_dir(session.world.dest, dir),
        file_fits(
            with_parents(
                session.world.dest,
                joined(session.machine.dest_scope, session.machine.paths[i]),
                session.world.defaults,
            ),
            joined(session.machine.dest_scope, session.machine.paths[i]),
            session.machine.paths[i],
        ),
    ensures
        count <= 10,
        ({
            let path = session.machine.paths[i];
            let dest = joined(session.machine.dest_scope, path);
            let made = with_parents(session.world.dest, dest, session.world.defaults);
            let target = file_target(made, dest, path);
            let after = session.run(count);
            &&& same_course(after.machine, session.machine)
            &&& entered(after, i + 1)
            &&& same_but_dest(after.world, session.world)
            &&& after.world.dest == made.insert(
                target,
                written(session.world.source[path]),
            )
        }),
{
    let path = session.machine.paths[i];
    let dest = joined(session.machine.dest_scope, path);
    let made = with_parents(session.world.dest, dest, session.world.defaults);
    let target = file_target(made, dest, path);
    let first = file_is_opened(session, i);
    let asked = session.run(first);
    destination_decides(asked);
    let opening = asked.advance();
    assert(asked.run(1) == opening) by {
        reveal_with_fuel(Session::run, 2);
    }
    file_is_written(opening, path, target);
    run_in_two(session, first, 1);
    run_in_two(session, first + 1, 5);
    first + 6
}

/// A regular file whose destination is a symbolic link is passed over: the
/// engine reports it and takes up the next discovered path. Of the
/// destination, only the directories above the link may have been made.
pub proof fn file_is_skipped(session: Session, i: int) -> (count: nat)
    requires
        0 <= i < session.machine.paths.len(),
        entered(session, i),
        session.world.source.contains_key(session.machine.paths[i]),
        session.world.source[session.machine.paths[i]].kind is File,
        parent_of(joined(session.machine.dest_scope, session.machine.paths[i])) matches Some(dir)
            ==> can_hold_dir(session.world.dest, dir),
        found_at(
            session.world.dest,
            joined(session.machine.dest_scope, session.machine.paths[i]),
        ) == Destination::Present(FileKind::Symlink),
    ensures
        count <= 6,
        ({
            let path = session.machine.paths[i];
            let dest = joined(session.machine.dest_scope, path);
            let after = session.run(count);
            &&& same_course(after.machine, session.machine)
            &&& entered(after, i + 1)
            &&& after.world.source == session.world.source
            &&& after.world.listing == session.world.listing
            &&& after.world.defaults == session.world.defaults
            &&& after.world.dest == with_parents(session.world.dest, dest, session.world.defaults)
            &&& after.world.reports == session.world.reports.push(
                (Notice::DestinationIsSymlink, path),
            )
        }),
{
    let path = session.machine.paths[i];
    let dest = joined(session.machine.dest_scope, path);
    if let Some(dir) = parent_of(dest) {
        with_dirs_adds_dirs(session.world.dest, dir, session.world.defaults);
    }
    let first = file_is_opened(session, i);
    let asked = session.run(first);
    destination_decides(asked);
    let reporting = asked.advance();
    let passed = reporting.advance();
    assert(same_course(passed.machine, session.machine) && entered(passed, i + 1)
        && passed.world == World {
        reports: session.world.reports.push((Notice::DestinationIsSymlink, path)),
        ..asked.world
    }) by {
        reveal(Session::advance);
    }
    assert(asked.run(2) == passed) by {
        reveal_with_fuel(Session::run, 3);
    }
    run_in_two(session, first, 2);
    first + 2
}

} // verus!
