//! Copying a second time changes nothing.

use crate::chains::can_hold_dir_after_insert;
use crate::chains::can_hold_dir_after_with_dirs;
use crate::chains::holds_dirs_on_more;
use crate::chains::parents_are_above;
use crate::chains::with_dirs_holds_dirs;
use crate::chains::with_dirs_of_held;
use crate::chains::with_parents;
use crate::entries::copy_begins_with_walk;
use crate::entries::dir_is_materialized;
use crate::entries::entered;
use crate::entries::file_fits;
use crate::entries::file_is_replicated;
use crate::entries::file_is_skipped;
use crate::entries::file_target;
use crate::entries::found_at;
use crate::entries::same_course;
use crate::entries::unknown_is_reported;
use crate::entries::written;
use crate::entry::Destination;
use crate::entry::FileKind;
use crate::model::can_hold_dir;
use crate::model::run_in_two;
use crate::model::run_settles;
use crate::model::Session;
use crate::model::World;
use crate::path::file_name_extends;
use crate::path::joined;
use crate::path::parent_is_shorter;
use crate::path::parent_of;
use crate::single::single_file_copy;
use crate::single::symlink_destination_is_kept;
use crate::tree::chain_stays_clear;
use crate::tree::dest_at;
use crate::tree::entry_fits;
use crate::tree::place_at;
use crate::tree::place_is_dest_or_inside;
use crate::tree::progress;
use crate::tree::replaced;
use crate::tree::replicated;
use crate::tree::settled;
use crate::tree::skipped;
use crate::tree::tree_fits;
use crate::tree::tree_is_replicated;
use vstd::prelude::*;

verus! {

/// Idempotence: when the copy of a single regular file is run again from the
/// same source onto the destination that the first run left, it succeeds
/// again and leaves the destination disk as the first run left it. This
/// holds wherever the first copy succeeds: the destination may be missing,
/// a regular file, a directory that takes the file inside, or a symbolic
/// link.
pub proof fn single_file_copy_is_idempotent(
    src_scope: Seq<u8>,
    dest_scope: Seq<u8>,
    world: World,
    count: nat,
)
    requires
        world.source.contains_key(src_scope),
        world.source[src_scope].kind is File,
        parent_of(joined(dest_scope, src_scope)) matches Some(dir) ==> can_hold_dir(
            world.dest,
            dir,
        ),
        file_fits(
            with_parents(world.dest, joined(dest_scope, src_scope), world.defaults),
            joined(dest_scope, src_scope),
            src_scope,
        ) || found_at(world.dest, joined(dest_scope, src_scope)) == Destination::Present(
            FileKind::Symlink,
        ),
        count >= 12,
    ensures
        ({
            let once = Session::begin(src_scope, dest_scope, world).run(count);
            let twice = Session::begin(src_scope, dest_scope, once.world).run(count);
            &&& once.machine.outcome is Completed
            &&& twice.machine.phase is Finished
            &&& twice.machine.outcome is Completed
            &&& twice.world.dest == once.world.dest
        }),
{
    let dest = joined(dest_scope, src_scope);
    let node = world.source[src_scope];
    let made = with_parents(world.dest, dest, world.defaults);
    parent_is_shorter(dest);
    parents_are_above(world.dest, dest, world.defaults);
    if found_at(world.dest, dest) == Destination::Present(FileKind::Symlink) {
        symlink_destination_is_kept(src_scope, dest_scope, world, count);
        let once = Session::begin(src_scope, dest_scope, world).run(count);
        if let Some(dir) = parent_of(dest) {
            with_dirs_holds_dirs(world.dest, dir, world.defaults);
            can_hold_dir_after_with_dirs(world.dest, dir, world.defaults);
        }
        symlink_destination_is_kept(src_scope, dest_scope, once.world, count);
    } else {
        let target = file_target(made, dest, src_scope);
        let first = made.insert(target, written(node));
        single_file_copy(src_scope, dest_scope, world, count);
        let once = Session::begin(src_scope, dest_scope, world).run(count);
        assert(once.world.dest == first);
        if target != dest {
            file_name_extends(dest, src_scope);
        }
        if let Some(dir) = parent_of(dest) {
            with_dirs_holds_dirs(world.dest, dir, world.defaults);
            holds_dirs_on_more(made, first, dir);
            with_dirs_of_held(first, dir, world.defaults);
            can_hold_dir_after_with_dirs(world.dest, dir, world.defaults);
            can_hold_dir_after_insert(made, dir, target, written(node));
        }
        assert(with_parents(first, dest, once.world.defaults) == first);
        assert(file_target(first, dest, src_scope) == target);
        assert(file_fits(first, dest, src_scope));
        assert(first.insert(target, written(node)) == first);
        single_file_copy(src_scope, dest_scope, once.world, count);
    }
}

/// Whether none of the discovered paths is a link on the source.
pub open spec fn no_links(paths: Seq<Seq<u8>>, world: World) -> bool {
    forall|i: int| 0 <= i < paths.len() ==> !(world.source[#[trigger] paths[i]].kind is Symlink)
}

/// On a destination that a first copy of the subtree has left, dealing with
/// a discovered path again changes nothing.
pub proof fn entry_changes_nothing(session: Session, world: World, k: int) -> (count: nat)
    requires
        tree_fits(session.machine.dest_scope, session.machine.paths, world),
        no_links(session.machine.paths, world),
        0 <= k < session.machine.paths.len(),
        entered(session, k),
        session.world.source == world.source,
        session.world.defaults == world.defaults,
        progress(
            session.machine.dest_scope,
            session.machine.paths,
            world,
            session.world.dest,
            session.machine.paths.len() as int,
        ),
    ensures
        count <= 10,
        ({
            let after = session.run(count);
            &&& same_course(after.machine, session.machine)
            &&& entered(after, k + 1)
            &&& after.world.source == world.source
            &&& after.world.defaults == world.defaults
            &&& after.world.dest == session.world.dest
        }),
{
    let scope = session.machine.dest_scope;
    let paths = session.machine.paths;
    let disk = session.world.dest;
    let defaults = world.defaults;
    let path = paths[k];
    let dest = dest_at(scope, paths, k);
    let place = place_at(scope, paths, world, k);
    let node = world.source[path];
    chain_stays_clear(scope, paths, world, disk, paths.len() as int, k);
    place_is_dest_or_inside(scope, paths, world, k);
    parent_is_shorter(dest);
    assert(entry_fits(scope, paths, world, k));
    assert(replicated(scope, paths, world, disk, k));
    assert(settled(scope, paths, world, disk, k));
    match node.kind {
        FileKind::File => {
            if let Some(above) = parent_of(dest) {
                with_dirs_of_held(disk, above, defaults);
            }
            assert(with_parents(disk, dest, defaults) == disk);
            if skipped(scope, paths, world, k) {
                file_is_skipped(session, k)
            } else {
                if place != dest {
                    if replaced(scope, paths, world, paths.len() as int, dest) {
                        let j = choose|j: int|
                            0 <= j < paths.len() && #[trigger] place_at(scope, paths, world, j)
                                == dest;
                        assert(dest_at(scope, paths, k) != place_at(scope, paths, world, j));
                    }
                    assert(disk[dest] == world.dest[dest]);
                }
                assert(file_target(disk, dest, path) == place);
                let count = file_is_replicated(session, k);
                assert(disk.insert(place, disk[place]) == disk);
                count
            }
        },
        FileKind::Directory => {
            with_dirs_of_held(disk, dest, defaults);
            dir_is_materialized(session, k);
            assert(disk.insert(dest, disk[dest]) == disk);
            6
        },
        _ => {
            unknown_is_reported(session, k);
            3
        },
    }
}

/// On a destination that a first copy of the subtree has left, dealing with
/// the first `k` discovered paths again changes nothing.
pub proof fn entries_change_nothing(session: Session, world: World, k: int) -> (count: nat)
    requires
        tree_fits(session.machine.dest_scope, session.machine.paths, world),
        no_links(session.machine.paths, world),
        0 <= k <= session.machine.paths.len(),
        entered(session, 0),
        session.world.source == world.source,
        session.world.defaults == world.defaults,
        progress(
            session.machine.dest_scope,
            session.machine.paths,
            world,
            session.world.dest,
            session.machine.paths.len() as int,
        ),
    ensures
        count <= 10 * k,
        ({
            let after = session.run(count);
            &&& same_course(after.machine, session.machine)
            &&& entered(after, k)
            &&& after.world.source == world.source
            &&& after.world.defaults == world.defaults
            &&& after.world.dest == session.world.dest
        }),
    decreases k,
{
    if k == 0 {
        0
    } else {
        let before = entries_change_nothing(session, world, k - 1);
        let more = entry_changes_nothing(session.run(before), world, k - 1);
        run_in_two(session, before, more);
        before + more
    }
}

/// Idempotence: when the copy of a subtree without links is run again from
/// the same source onto the destination that the first run left, it
/// succeeds again and leaves the destination disk as the first run left it.
/// This holds for every subtree that fits its destination: a regular file
/// may find its destination missing, a regular file, a directory that takes
/// it inside, or a symbolic link.
pub proof fn tree_copy_is_idempotent(
    src_scope: Seq<u8>,
    dest_scope: Seq<u8>,
    world: World,
    count: nat,
)
    requires
        world.source.contains_key(src_scope),
        !(world.source[src_scope].kind is File),
        tree_fits(dest_scope, world.listing, world),
        no_links(world.listing, world),
        count >= 3 + 10 * world.listing.len(),
    ensures
        ({
            let once = Session::begin(src_scope, dest_scope, world).run(count);
            let twice = Session::begin(src_scope, dest_scope, once.world).run(count);
            &&& once.machine.outcome is Completed
            &&& twice.machine.phase is Finished
            &&& twice.machine.outcome is Completed
            &&& twice.world.dest == once.world.dest
        }),
{
    tree_is_replicated(src_scope, dest_scope, world, count);
    let once = Session::begin(src_scope, dest_scope, world).run(count);
    let session = Session::begin(src_scope, dest_scope, once.world);
    copy_begins_with_walk(src_scope, dest_scope, once.world);
    let taken = session.run(2);
    let requests = entries_change_nothing(taken, world, world.listing.len() as int);
    run_in_two(session, 2, requests);
    run_settles(session, 2 + requests, count);
}

} // verus!
