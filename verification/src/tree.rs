//! The copy of a directory subtree onto a destination that suits it.

use crate::chains::above_parent_is_above;
use crate::chains::can_hold_dir_means_dirs;
use crate::chains::dirs_mean_can_hold_dir;
use crate::chains::holds_dirs;
use crate::chains::holds_dirs_on_more;
use crate::chains::is_above;
use crate::chains::parents_are_above;
use crate::chains::with_dirs_adds_above;
use crate::chains::with_dirs_adds_dirs;
use crate::chains::with_dirs_holds_dirs;
use crate::chains::with_parents;
use crate::entries::copy_begins_with_walk;
use crate::entries::dir_is_materialized;
use crate::entries::entered;
use crate::entries::file_fits;
use crate::entries::file_is_replicated;
use crate::entries::file_is_skipped;
use crate::entries::file_target;
use crate::entries::found_at;
use crate::entries::link_is_replicated;
use crate::entries::materialized;
use crate::entries::same_course;
use crate::entries::unknown_is_reported;
use crate::entries::written;
use crate::entry::Destination;
use crate::entry::FileKind;
use crate::model::can_hold_dir;
use crate::model::Disk;
use crate::model::Node;
use crate::model::run_in_two;
use crate::model::run_settles;
use crate::model::Session;
use crate::model::with_dirs;
use crate::model::World;
use crate::path::file_name_extends;
use crate::path::joined;
use crate::path::parent_is_shorter;
use crate::path::parent_of;
use crate::request::Notice;
use vstd::prelude::*;

verus! {

/// The destination path of the discovered path of index `i`.
pub open spec fn dest_at(scope: Seq<u8>, paths: Seq<Seq<u8>>, i: int) -> Seq<u8> {
    joined(scope, paths[i])
}

/// The entry at `path`, if there is one.
pub open spec fn before(disk: Disk, path: Seq<u8>) -> Option<Node> {
    if disk.contains_key(path) {
        Some(disk[path])
    } else {
        None
    }
}

/// Where the discovered path of index `i` is reproduced: at its destination
/// path, or, for a regular file whose destination is a directory, at the
/// entry of the file's base name inside that directory.
pub open spec fn place_at(scope: Seq<u8>, paths: Seq<Seq<u8>>, world: World, i: int) -> Seq<u8> {
    if world.source[paths[i]].kind is File {
        file_target(world.dest, dest_at(scope, paths, i), paths[i])
    } else {
        dest_at(scope, paths, i)
    }
}

/// Whether the discovered path of index `i` is a regular file whose
/// destination is a symbolic link: such a file is not copied.
pub open spec fn skipped(scope: Seq<u8>, paths: Seq<Seq<u8>>, world: World, i: int) -> bool {
    world.source[paths[i]].kind is File && found_at(world.dest, dest_at(scope, paths, i))
        == Destination::Present(FileKind::Symlink)
}

/// What the destination holds at the place of the discovered path of index
/// `i` once that path was dealt with. A regular file is there with the
/// bytes, the permission bits and the owner of the source, unless it was
/// skipped; a directory with the permission bits and the owner of the
/// source; a link with the very target of the source. For a skipped file
/// and for an entry of unknown type, what was there is there still.
pub open spec fn expected(scope: Seq<u8>, paths: Seq<Seq<u8>>, world: World, i: int) -> Option<
    Node,
> {
    let node = world.source[paths[i]];
    let dest = dest_at(scope, paths, i);
    match node.kind {
        FileKind::File => if skipped(scope, paths, world, i) {
            before(world.dest, dest)
        } else {
            Some(written(node))
        },
        FileKind::Directory => Some(materialized(world.dest, dest, node)),
        FileKind::Symlink => Some(world.defaults.link(node.content)),
        FileKind::Other => before(world.dest, dest),
    }
}

/// Whether the discovered path of index `i` is reproduced on `disk`.
pub open spec fn replicated(
    scope: Seq<u8>,
    paths: Seq<Seq<u8>>,
    world: World,
    disk: Disk,
    i: int,
) -> bool {
    before(disk, place_at(scope, paths, world, i)) == expected(scope, paths, world, i)
}

/// Whether `disk` holds the directories that dealing with the discovered
/// path of index `i` makes: those above the destination of a regular file,
/// and a directory with those above it.
pub open spec fn settled(
    scope: Seq<u8>,
    paths: Seq<Seq<u8>>,
    world: World,
    disk: Disk,
    i: int,
) -> bool {
    let dest = dest_at(scope, paths, i);
    &&& world.source[paths[i]].kind is File ==> (parent_of(dest) matches Some(dir)
        ==> holds_dirs(disk, dir))
    &&& world.source[paths[i]].kind is Directory ==> holds_dirs(disk, dest)
}

/// Whether the link of index `i` has a directory to be created in: the
/// directory above its destination is on the destination already, or is the
/// place of a discovered path.
pub open spec fn link_has_home(scope: Seq<u8>, paths: Seq<Seq<u8>>, world: World, i: int) -> bool {
    parent_of(dest_at(scope, paths, i)) matches Some(dir) && (dir.len() == 0
        || world.dest.contains_key(dir) || exists|j: int|
        0 <= j < paths.len() && #[trigger] place_at(scope, paths, world, j) == dir)
}

/// Whether the destination suits the discovered path of index `i`. A
/// regular file can be written, or its destination is a symbolic link. A
/// directory finds its destination free or a directory. A link finds its
/// destination free and has a directory to be created in. An entry of
/// unknown type asks for nothing.
pub open spec fn entry_fits(scope: Seq<u8>, paths: Seq<Seq<u8>>, world: World, i: int) -> bool {
    let dest = dest_at(scope, paths, i);
    match world.source[paths[i]].kind {
        FileKind::File => skipped(scope, paths, world, i) || file_fits(
            world.dest,
            dest,
            paths[i],
        ),
        FileKind::Directory => world.dest.contains_key(dest) ==> world.dest[dest].kind
            is Directory,
        FileKind::Symlink => !world.dest.contains_key(dest) && link_has_home(
            scope,
            paths,
            world,
            i,
        ),
        FileKind::Other => true,
    }
}

/// The conditions under which a subtree is reproduced whole. Every
/// discovered path exists on the source, and the destination suits it. The
/// directories above each destination path can be made. No two discovered
/// paths are reproduced at the same place, and none at the destination path
/// of another. A discovered path whose place lies above the destination of
/// another comes before it, and is a directory on the source.
pub open spec fn tree_fits(scope: Seq<u8>, paths: Seq<Seq<u8>>, world: World) -> bool {
    &&& scope.len() > 0
    &&& forall|i: int| 0 <= i < paths.len() ==> world.source.contains_key(#[trigger] paths[i])
    &&& forall|i: int| 0 <= i < paths.len() ==> #[trigger] entry_fits(scope, paths, world, i)
    &&& forall|i: int|
        0 <= i < paths.len() ==> (parent_of(#[trigger] dest_at(scope, paths, i)) matches Some(
            dir,
        ) ==> can_hold_dir(world.dest, dir))
    &&& forall|i: int, j: int|
        0 <= i < paths.len() && 0 <= j < paths.len() && i != j ==> #[trigger] place_at(
            scope,
            paths,
            world,
            i,
        ) != #[trigger] place_at(scope, paths, world, j)
    &&& forall|i: int, j: int|
        0 <= i < paths.len() && 0 <= j < paths.len() && i != j ==> #[trigger] dest_at(
            scope,
            paths,
            i,
        ) != #[trigger] place_at(scope, paths, world, j)
    &&& forall|i: int, j: int|
        0 <= i < paths.len() && 0 <= j < paths.len() && #[trigger] is_above(
            place_at(scope, paths, world, i),
            dest_at(scope, paths, j),
        ) ==> i < j && world.source[paths[i]].kind is Directory
}

/// Whether `path` is the place of one of the first `k` discovered paths.
pub open spec fn replaced(
    scope: Seq<u8>,
    paths: Seq<Seq<u8>>,
    world: World,
    k: int,
    path: Seq<u8>,
) -> bool {
    exists|j: int| 0 <= j < k && #[trigger] place_at(scope, paths, world, j) == path
}

/// Whether the entry `node` at `path` is there on account of the discovered
/// path of index `j`: at its place, or as a directory made above its
/// destination.
pub open spec fn explains(
    scope: Seq<u8>,
    paths: Seq<Seq<u8>>,
    world: World,
    j: int,
    path: Seq<u8>,
    node: Node,
) -> bool {
    path == place_at(scope, paths, world, j) || (is_above(path, dest_at(scope, paths, j)) && node
        == world.defaults.directory())
}

/// What holds of the destination `disk` once the first `k` discovered paths
/// were dealt with. What the destination had is still there, and as it was
/// unless it is the place of one of those paths. What the destination has
/// gained is there on account of one of them. Each of them is reproduced,
/// with the directories above it.
pub open spec fn progress(
    scope: Seq<u8>,
    paths: Seq<Seq<u8>>,
    world: World,
    disk: Disk,
    k: int,
) -> bool {
    &&& forall|path: Seq<u8>| #[trigger]
        world.dest.contains_key(path) ==> disk.contains_key(path) && (disk[path]
            == world.dest[path] || replaced(scope, paths, world, k, path))
    &&& forall|path: Seq<u8>| #[trigger]
        disk.contains_key(path) && !world.dest.contains_key(path) ==> exists|j: int|
            0 <= j < k && #[trigger] explains(scope, paths, world, j, path, disk[path])
    &&& forall|j: int| 0 <= j < k ==> #[trigger] replicated(scope, paths, world, disk, j)
    &&& forall|j: int| 0 <= j < k ==> #[trigger] settled(scope, paths, world, disk, j)
}

/// What is reported about the discovered path of index `i`: that its type
/// is unknown, or that it is a regular file whose destination is a symbolic
/// link.
pub open spec fn notice_of(scope: Seq<u8>, paths: Seq<Seq<u8>>, world: World, i: int) -> Seq<
    (Notice, Seq<u8>),
> {
    if skipped(scope, paths, world, i) {
        seq![(Notice::DestinationIsSymlink, paths[i])]
    } else if world.source[paths[i]].kind is Other {
        seq![(Notice::UnknownFileType, paths[i])]
    } else {
        Seq::empty()
    }
}

/// What is reported about the first `k` discovered paths, in their order.
pub open spec fn notices(scope: Seq<u8>, paths: Seq<Seq<u8>>, world: World, k: int) -> Seq<
    (Notice, Seq<u8>),
>
    decreases k,
{
    if k <= 0 {
        Seq::empty()
    } else {
        notices(scope, paths, world, k - 1) + notice_of(scope, paths, world, k - 1)
    }
}

/// The place of a discovered path is its destination path, unless that is
/// a directory to begin with; and it is never shorter.
pub proof fn place_is_dest_or_inside(scope: Seq<u8>, paths: Seq<Seq<u8>>, world: World, i: int)
    requires
        tree_fits(scope, paths, world),
        0 <= i < paths.len(),
    ensures
        !world.dest.contains_key(dest_at(scope, paths, i)) ==> place_at(scope, paths, world, i)
            == dest_at(scope, paths, i),
        place_at(scope, paths, world, i) != dest_at(scope, paths, i) ==> {
            &&& world.source[paths[i]].kind is File
            &&& found_at(world.dest, dest_at(scope, paths, i)) == Destination::Present(
                FileKind::Directory,
            )
            &&& place_at(scope, paths, world, i).len() > dest_at(scope, paths, i).len()
        },
{
    assert(entry_fits(scope, paths, world, i));
    if place_at(scope, paths, world, i) != dest_at(scope, paths, i) {
        file_name_extends(dest_at(scope, paths, i), paths[i]);
    }
}

/// The destination path and the place of a discovered path that was not
/// dealt with yet are as they were at the beginning.
pub proof fn next_is_untouched(
    scope: Seq<u8>,
    paths: Seq<Seq<u8>>,
    world: World,
    disk: Disk,
    k: int,
    i: int,
)
    requires
        tree_fits(scope, paths, world),
        0 <= k <= i < paths.len(),
        progress(scope, paths, world, disk, k),
    ensures
        before(disk, dest_at(scope, paths, i)) == before(world.dest, dest_at(scope, paths, i)),
        before(disk, place_at(scope, paths, world, i)) == before(
            world.dest,
            place_at(scope, paths, world, i),
        ),
{
    let dest = dest_at(scope, paths, i);
    let place = place_at(scope, paths, world, i);
    place_is_dest_or_inside(scope, paths, world, i);
    assert forall|path: Seq<u8>| path == dest || path == place implies before(disk, path)
        == before(world.dest, path) by {
        if world.dest.contains_key(path) {
            if replaced(scope, paths, world, k, path) {
                let j = choose|j: int|
                    0 <= j < k && #[trigger] place_at(scope, paths, world, j) == path;
                assert(place_at(scope, paths, world, j) != place_at(scope, paths, world, i));
                assert(dest_at(scope, paths, i) != place_at(scope, paths, world, j));
            }
        } else if disk.contains_key(path) {
            let j = choose|j: int|
                0 <= j < k && #[trigger] explains(scope, paths, world, j, path, disk[path]);
            assert(place_at(scope, paths, world, j) != place_at(scope, paths, world, i));
            assert(dest_at(scope, paths, i) != place_at(scope, paths, world, j));
            assert(path == place);
            assert(is_above(place_at(scope, paths, world, i), dest_at(scope, paths, j)));
            assert(false);
        }
    }
}

/// The directories above the destination of any discovered path can still
/// be made, however many paths were dealt with.
pub proof fn chain_stays_clear(
    scope: Seq<u8>,
    paths: Seq<Seq<u8>>,
    world: World,
    disk: Disk,
    k: int,
    i: int,
)
    requires
        tree_fits(scope, paths, world),
        0 <= k <= paths.len(),
        0 <= i < paths.len(),
        progress(scope, paths, world, disk, k),
    ensures
        parent_of(dest_at(scope, paths, i)) matches Some(dir) ==> can_hold_dir(disk, dir),
{
    let dest = dest_at(scope, paths, i);
    if let Some(dir) = parent_of(dest) {
        assert forall|path: Seq<u8>|
            (path == dir || is_above(path, dir)) && #[trigger] disk.contains_key(
                path,
            ) implies disk[path].kind is Directory by {
            above_parent_is_above(path, dest);
            let j = if world.dest.contains_key(path) {
                if disk[path] == world.dest[path] {
                    can_hold_dir_means_dirs(world.dest, dir, path);
                    -1
                } else {
                    choose|j: int|
                        0 <= j < k && #[trigger] place_at(scope, paths, world, j) == path
                }
            } else {
                let j = choose|j: int|
                    0 <= j < k && #[trigger] explains(scope, paths, world, j, path, disk[path]);
                if path == place_at(scope, paths, world, j) {
                    j
                } else {
                    -1
                }
            };
            if j >= 0 {
                assert(is_above(place_at(scope, paths, world, j), dest_at(scope, paths, i)));
                assert(replicated(scope, paths, world, disk, j));
            }
        }
        dirs_mean_can_hold_dir(disk, dir);
    }
}

/// The destination stays on course when the next discovered path is dealt
/// with in a way that keeps what was there but for its own place, adds
/// nothing but its replica and directories above it, and reproduces it.
pub proof fn progress_extends(
    scope: Seq<u8>,
    paths: Seq<Seq<u8>>,
    world: World,
    disk: Disk,
    after: Disk,
    k: int,
)
    requires
        tree_fits(scope, paths, world),
        0 <= k < paths.len(),
        progress(scope, paths, world, disk, k),
        forall|path: Seq<u8>| #[trigger]
            disk.contains_key(path) ==> after.contains_key(path) && (path != place_at(
                scope,
                paths,
                world,
                k,
            ) ==> after[path] == disk[path]),
        forall|path: Seq<u8>| #[trigger]
            after.contains_key(path) && !disk.contains_key(path) ==> explains(
                scope,
                paths,
                world,
                k,
                path,
                after[path],
            ),
        replicated(scope, paths, world, after, k),
        settled(scope, paths, world, after, k),
    ensures
        progress(scope, paths, world, after, k + 1),
{
    let place = place_at(scope, paths, world, k);
    assert forall|path: Seq<u8>| #[trigger]
        world.dest.contains_key(path) implies after.contains_key(path) && (after[path]
        == world.dest[path] || replaced(scope, paths, world, k + 1, path)) by {
        if path == place {
            assert(place_at(scope, paths, world, k) == path);
        } else if disk[path] != world.dest[path] {
            let j = choose|j: int|
                0 <= j < k && #[trigger] place_at(scope, paths, world, j) == path;
            assert(place_at(scope, paths, world, j) == path);
        }
    }
    assert forall|path: Seq<u8>| #[trigger]
        after.contains_key(path) && !world.dest.contains_key(path) implies exists|j: int|
        0 <= j < k + 1 && #[trigger] explains(scope, paths, world, j, path, after[path]) by {
        if disk.contains_key(path) && path != place {
            let j = choose|j: int|
                0 <= j < k && #[trigger] explains(scope, paths, world, j, path, disk[path]);
            assert(explains(scope, paths, world, j, path, after[path]));
        } else {
            assert(explains(scope, paths, world, k, path, after[path]));
        }
    }
    assert forall|j: int| 0 <= j < k + 1 implies #[trigger] replicated(
        scope,
        paths,
        world,
        after,
        j,
    ) by {
        if j < k {
            let other = place_at(scope, paths, world, j);
            assert(replicated(scope, paths, world, disk, j));
            assert(other != place_at(scope, paths, world, k));
            if !disk.contains_key(other) && after.contains_key(other) {
                assert(explains(scope, paths, world, k, other, after[other]));
                assert(is_above(place_at(scope, paths, world, j), dest_at(scope, paths, k)));
            }
        }
    }
    assert forall|j: int| 0 <= j < k + 1 implies #[trigger] settled(
        scope,
        paths,
        world,
        after,
        j,
    ) by {
        if j < k {
            let dest = dest_at(scope, paths, j);
            assert(settled(scope, paths, world, disk, j));
            if world.source[paths[j]].kind is File {
                if let Some(dir) = parent_of(dest) {
                    holds_dirs_on_more(disk, after, dir);
                }
            }
            if world.source[paths[j]].kind is Directory {
                holds_dirs_on_more(disk, after, dest);
            }
        }
    }
}

/// Dealing with the next discovered path keeps the destination on course,
/// and adds what is to be reported about that path.
pub proof fn entry_keeps_progress(session: Session, world: World, k: int) -> (count: nat)
    requires
        tree_fits(session.machine.dest_scope, session.machine.paths, world),
        0 <= k < session.machine.paths.len(),
        entered(session, k),
        session.world.source == world.source,
        session.world.defaults == world.defaults,
        progress(session.machine.dest_scope, session.machine.paths, world, session.world.dest, k),
    ensures
        count <= 10,
        ({
            let after = session.run(count);
            &&& same_course(after.machine, session.machine)
            &&& entered(after, k + 1)
            &&& after.world.source == world.source
            &&& after.world.defaults == world.defaults
            &&& after.world.listing == session.world.listing
            &&& after.world.reports == session.world.reports + notice_of(
                session.machine.dest_scope,
                session.machine.paths,
                world,
                k,
            )
            &&& progress(
                session.machine.dest_scope,
                session.machine.paths,
                world,
                after.world.dest,
                k + 1,
            )
        }),
{
    let scope = session.machine.dest_scope;
    let paths = session.machine.paths;
    let disk = session.world.dest;
    let defaults = world.defaults;
    let path = paths[k];
    let dest = dest_at(scope, paths, k);
    let place = place_at(scope, paths, world, k);
    let node = world.source[path];
    let reports = session.world.reports;
    assert(entry_fits(scope, paths, world, k));
    place_is_dest_or_inside(scope, paths, world, k);
    next_is_untouched(scope, paths, world, disk, k, k);
    chain_stays_clear(scope, paths, world, disk, k, k);
    parent_is_shorter(dest);
    match node.kind {
        FileKind::File => {
            let made = with_parents(disk, dest, defaults);
            parents_are_above(disk, dest, defaults);
            assert forall|other: Seq<u8>| #[trigger]
                made.contains_key(other) && !disk.contains_key(other) implies explains(
                scope,
                paths,
                world,
                k,
                other,
                made[other],
            ) by {
                let above = parent_of(dest).unwrap();
                with_dirs_adds_above(disk, above, defaults);
                above_parent_is_above(other, dest);
            }
            if let Some(above) = parent_of(dest) {
                with_dirs_holds_dirs(disk, above, defaults);
            }
            if skipped(scope, paths, world, k) {
                let count = file_is_skipped(session, k);
                assert(reports.push((Notice::DestinationIsSymlink, path)) == reports + notice_of(
                    scope,
                    paths,
                    world,
                    k,
                ));
                progress_extends(scope, paths, world, disk, made, k);
                count
            } else {
                assert(file_target(made, dest, path) == place);
                let count = file_is_replicated(session, k);
                let after = made.insert(place, written(node));
                assert(session.run(count).world.dest == after);
                if let Some(above) = parent_of(dest) {
                    holds_dirs_on_more(made, after, above);
                }
                assert(reports == reports + notice_of(scope, paths, world, k));
                progress_extends(scope, paths, world, disk, after, k);
                count
            }
        },
        FileKind::Directory => {
            let made = with_dirs(disk, dest, defaults);
            with_dirs_adds_dirs(disk, dest, defaults);
            with_dirs_adds_above(disk, dest, defaults);
            dir_is_materialized(session, k);
            let after = made.insert(dest, materialized(world.dest, dest, node));
            assert(session.run(6).world.dest == after);
            with_dirs_holds_dirs(disk, dest, defaults);
            holds_dirs_on_more(made, after, dest);
            assert(reports == reports + notice_of(scope, paths, world, k));
            progress_extends(scope, paths, world, disk, after, k);
            6
        },
        FileKind::Symlink => {
            let dir = parent_of(dest).unwrap();
            assert(link_has_home(scope, paths, world, k));
            if dir.len() > 0 && !world.dest.contains_key(dir) {
                let j = choose|j: int|
                    0 <= j < paths.len() && #[trigger] place_at(scope, paths, world, j) == dir;
                assert(is_above(place_at(scope, paths, world, j), dest_at(scope, paths, k)));
                assert(replicated(scope, paths, world, disk, j));
            }
            link_is_replicated(session, k);
            let after = disk.insert(dest, defaults.link(node.content));
            assert(reports == reports + notice_of(scope, paths, world, k));
            progress_extends(scope, paths, world, disk, after, k);
            3
        },
        FileKind::Other => {
            unknown_is_reported(session, k);
            assert(reports.push((Notice::UnknownFileType, path)) == reports + notice_of(
                scope,
                paths,
                world,
                k,
            ));
            progress_extends(scope, paths, world, disk, disk, k);
            3
        },
    }
}

/// Dealing with the first `k` discovered paths, one after the other, keeps
/// the destination on course, and reports what is to be reported about
/// them.
pub proof fn entries_keep_progress(session: Session, world: World, k: int) -> (count: nat)
    requires
        tree_fits(session.machine.dest_scope, session.machine.paths, world),
        0 <= k <= session.machine.paths.len(),
        entered(session, 0),
        session.world.source == world.source,
        session.world.defaults == world.defaults,
        session.world.dest == world.dest,
    ensures
        count <= 10 * k,
        ({
            let after = session.run(count);
            &&& same_course(after.machine, session.machine)
            &&& entered(after, k)
            &&& after.world.source == world.source
            &&& after.world.defaults == world.defaults
            &&& after.world.listing == session.world.listing
            &&& after.world.reports == session.world.reports + notices(
                session.machine.dest_scope,
                session.machine.paths,
                world,
                k,
            )
            &&& progress(
                session.machine.dest_scope,
                session.machine.paths,
                world,
                after.world.dest,
                k,
            )
        }),
    decreases k,
{
    let scope = session.machine.dest_scope;
    let paths = session.machine.paths;
    if k == 0 {
        assert(session.world.reports == session.world.reports + notices(scope, paths, world, 0));
        0
    } else {
        let before = entries_keep_progress(session, world, k - 1);
        let more = entry_keeps_progress(session.run(before), world, k - 1);
        run_in_two(session, before, more);
        assert((session.world.reports + notices(scope, paths, world, k - 1)) + notice_of(
            scope,
            paths,
            world,
            k - 1,
        ) == session.world.reports + notices(scope, paths, world, k));
        before + more
    }
}

/// A subtree that fits the destination is reproduced whole. The copy
/// finishes with success. Each discovered path that is a regular file is at
/// its place with the bytes, the permission bits and the owner of the
/// source, unless its destination is a symbolic link; each directory is a
/// directory with the permission bits and the owner of the source; each link
/// is a link with the very target of the source. The destination of a
/// skipped file and of an entry of unknown type is as it was, and so is
/// what the destination had elsewhere. One notice is reported for each
/// skipped file and for each entry of unknown type, and no other.
pub proof fn tree_is_replicated(
    src_scope: Seq<u8>,
    dest_scope: Seq<u8>,
    world: World,
    count: nat,
)
    requires
        world.source.contains_key(src_scope),
        !(world.source[src_scope].kind is File),
        tree_fits(dest_scope, world.listing, world),
        count >= 3 + 10 * world.listing.len(),
    ensures
        ({
            let end = Session::begin(src_scope, dest_scope, world).run(count);
            &&& end.machine.phase is Finished
            &&& end.machine.outcome is Completed
            &&& end.world.source == world.source
            &&& end.world.defaults == world.defaults
            &&& end.world.listing == world.listing
            &&& end.world.reports == world.reports + notices(
                dest_scope,
                world.listing,
                world,
                world.listing.len() as int,
            )
            &&& progress(
                dest_scope,
                world.listing,
                world,
                end.world.dest,
                world.listing.len() as int,
            )
        }),
{
    let session = Session::begin(src_scope, dest_scope, world);
    copy_begins_with_walk(src_scope, dest_scope, world);
    let taken = session.run(2);
    let requests = entries_keep_progress(taken, world, world.listing.len() as int);
    run_in_two(session, 2, requests);
    run_settles(session, 2 + requests, count);
}

/// A subtree that is copied to where none of its destination paths exists
/// arrives there as it is on the source: each regular file with its content,
/// its permission bits and its owner, each directory with its permission
/// bits and its owner, each link with its target. Nothing is at the
/// destination path of an entry of unknown type. What the destination had
/// stays as it was.
pub proof fn tree_arrives(src_scope: Seq<u8>, dest_scope: Seq<u8>, world: World, count: nat)
    requires
        world.source.contains_key(src_scope),
        !(world.source[src_scope].kind is File),
        tree_fits(dest_scope, world.listing, world),
        forall|i: int|
            0 <= i < world.listing.len() ==> !world.dest.contains_key(
                #[trigger] dest_at(dest_scope, world.listing, i),
            ),
        count >= 3 + 10 * world.listing.len(),
    ensures
        ({
            let end = Session::begin(src_scope, dest_scope, world).run(count);
            &&& end.machine.phase is Finished
            &&& end.machine.outcome is Completed
            &&& forall|i: int|
                0 <= i < world.listing.len() ==> {
                    let source = world.source[world.listing[i]];
                    let found = end.world.dest[#[trigger] dest_at(dest_scope, world.listing, i)];
                    &&& source.kind is File ==> found == source
                    &&& source.kind is Directory ==> found.kind is Directory && found.mode
                        == source.mode && found.uid == source.uid && found.gid == source.gid
                    &&& source.kind is Symlink ==> found.kind is Symlink && found.content
                        == source.content
                    &&& source.kind is Other <==> !end.world.dest.contains_key(
                        dest_at(dest_scope, world.listing, i),
                    )
                }
            &&& forall|path: Seq<u8>| #[trigger]
                world.dest.contains_key(path) ==> end.world.dest.contains_key(path)
                    && end.world.dest[path] == world.dest[path]
        }),
{
    let end = Session::begin(src_scope, dest_scope, world).run(count);
    let paths = world.listing;
    tree_is_replicated(src_scope, dest_scope, world, count);
    assert forall|i: int| 0 <= i < paths.len() implies {
        let source = world.source[paths[i]];
        let found = end.world.dest[#[trigger] dest_at(dest_scope, paths, i)];
        &&& source.kind is File ==> found == source
        &&& source.kind is Directory ==> found.kind is Directory && found.mode == source.mode
            && found.uid == source.uid && found.gid == source.gid
        &&& source.kind is Symlink ==> found.kind is Symlink && found.content == source.content
        &&& source.kind is Other <==> !end.world.dest.contains_key(dest_at(dest_scope, paths, i))
    } by {
        assert(replicated(dest_scope, paths, world, end.world.dest, i));
    }
    assert forall|path: Seq<u8>| #[trigger]
        world.dest.contains_key(path) implies end.world.dest.contains_key(path)
        && end.world.dest[path] == world.dest[path] by {
        if replaced(dest_scope, paths, world, paths.len() as int, path) {
            let j = choose|j: int|
                0 <= j < paths.len() && #[trigger] place_at(dest_scope, paths, world, j) == path;
            assert(!world.dest.contains_key(dest_at(dest_scope, paths, j)));
        }
    }
}

/// Where one discovered path alone gives rise to a notice, the notices
/// about the first `k` paths are that one notice once the path is among
/// them, and none before.
pub proof fn notices_of_one(scope: Seq<u8>, paths: Seq<Seq<u8>>, world: World, u: int, k: int)
    requires
        0 <= u < paths.len(),
        0 <= k <= paths.len(),
        forall|i: int|
            0 <= i < paths.len() && i != u ==> !(world.source[#[trigger] paths[i]].kind is Other)
                && !skipped(scope, paths, world, i),
    ensures
        notices(scope, paths, world, k) == if k <= u {
            Seq::empty()
        } else {
            notice_of(scope, paths, world, u)
        },
    decreases k,
{
    if k > 0 {
        notices_of_one(scope, paths, world, u, k - 1);
        if k - 1 != u {
            assert(!(world.source[paths[k - 1]].kind is Other));
            assert(notice_of(scope, paths, world, k - 1) == Seq::<(Notice, Seq<u8>)>::empty());
        }
    }
}

/// A subtree with one entry of unknown type, and with no regular file whose
/// destination is a symbolic link, is copied with success but for that
/// entry. Exactly one notice is reported: that the type of this entry is
/// unknown. Its destination path is as it was, and every other discovered
/// path is reproduced.
pub proof fn unknown_entry_is_reported_once(
    src_scope: Seq<u8>,
    dest_scope: Seq<u8>,
    world: World,
    u: int,
    count: nat,
)
    requires
        world.source.contains_key(src_scope),
        !(world.source[src_scope].kind is File),
        tree_fits(dest_scope, world.listing, world),
        0 <= u < world.listing.len(),
        world.source[world.listing[u]].kind is Other,
        forall|i: int|
            0 <= i < world.listing.len() && i != u ==> !(world.source[
                #[trigger] world.listing[i]
            ].kind is Other) && !skipped(dest_scope, world.listing, world, i),
        count >= 3 + 10 * world.listing.len(),
    ensures
        ({
            let end = Session::begin(src_scope, dest_scope, world).run(count);
            let dest = dest_at(dest_scope, world.listing, u);
            &&& end.machine.phase is Finished
            &&& end.machine.outcome is Completed
            &&& end.world.reports == world.reports.push(
                (Notice::UnknownFileType, world.listing[u]),
            )
            &&& before(end.world.dest, dest) == before(world.dest, dest)
            &&& forall|i: int|
                0 <= i < world.listing.len() ==> #[trigger] replicated(
                    dest_scope,
                    world.listing,
                    world,
                    end.world.dest,
                    i,
                )
        }),
{
    let paths = world.listing;
    tree_is_replicated(src_scope, dest_scope, world, count);
    notices_of_one(dest_scope, paths, world, u, paths.len() as int);
    let end = Session::begin(src_scope, dest_scope, world).run(count);
    assert(replicated(dest_scope, paths, world, end.world.dest, u));
    assert(world.reports + notice_of(dest_scope, paths, world, u) == world.reports.push(
        (Notice::UnknownFileType, paths[u]),
    ));
}

} // verus!
