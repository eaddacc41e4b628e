//! The copy of a single regular file, for each state of its destination.

use crate::chains::holds_dirs;
use crate::chains::parents_are_above;
use crate::chains::with_dirs_of_held;
use crate::chains::with_parents;
use crate::entries::copy_begins_with_file;
use crate::entries::file_fits;
use crate::entries::file_is_replicated;
use crate::entries::file_is_skipped;
use crate::entries::file_target;
use crate::entries::found_at;
use crate::entries::same_but_dest;
use crate::entries::written;
use crate::entry::Destination;
use crate::entry::FileKind;
use crate::model::can_hold_dir;
use crate::model::run_in_two;
use crate::model::run_settles;
use crate::model::Session;
use crate::model::World;
use crate::path::file_name_extends;
use crate::path::file_name_of;
use crate::path::joined;
use crate::path::parent_of;
use crate::request::Notice;
use vstd::prelude::*;

verus! {

/// The copy of a single regular file that can be written. However long the
/// session is run beyond twelve requests, it has finished with success, and
/// the destination disk is what it was with the directories above the
/// destination made and the file written to its target.
pub proof fn single_file_copy(
    src_scope: Seq<u8>,
    dest_scope: Seq<u8>,
    world: World,
    count: nat,
)
    requires
        world.source.contains_key(src_scope),
        world.source[src_scope].kind is File,
        parent_of(joined(dest_scope, src_scope)) matches Some(dir) ==> can_hold_dir(
            world.dest,
            dir,
        ),
        file_fits(
            with_parents(world.dest, joined(dest_scope, src_scope), world.defaults),
            joined(dest_scope, src_scope),
            src_scope,
        ),
        count >= 12,
    ensures
        ({
            let dest = joined(dest_scope, src_scope);
            let made = with_parents(world.dest, dest, world.defaults);
            let target = file_target(made, dest, src_scope);
            let end = Session::begin(src_scope, dest_scope, world).run(count);
            &&& end.finished()
            &&& end.machine.phase is Finished
            &&& end.machine.outcome is Completed
            &&& same_but_dest(end.world, world)
            &&& end.world.dest == made.insert(
                target,
                written(world.source[src_scope]),
            )
        }),
{
    let session = Session::begin(src_scope, dest_scope, world);
    copy_begins_with_file(src_scope, dest_scope, world);
    let taken = session.run(1);
    let requests = file_is_replicated(taken, 0);
    run_in_two(session, 1, requests);
    run_settles(session, 1 + requests, count);
}

/// A single regular file that is copied to a path where nothing is arrives
/// there with the content, the permission bits and the owner of the source.
/// Every entry that the destination had stays as it was.
pub proof fn single_file_arrives(
    src_scope: Seq<u8>,
    dest_scope: Seq<u8>,
    world: World,
    count: nat,
)
    requires
        world.source.contains_key(src_scope),
        world.source[src_scope].kind is File,
        !world.dest.contains_key(joined(dest_scope, src_scope)),
        parent_of(joined(dest_scope, src_scope)) matches Some(dir) ==> can_hold_dir(
            world.dest,
            dir,
        ),
        count >= 12,
    ensures
        ({
            let dest = joined(dest_scope, src_scope);
            let end = Session::begin(src_scope, dest_scope, world).run(count);
            &&& end.machine.phase is Finished
            &&& end.machine.outcome is Completed
            &&& end.world.dest.contains_key(dest)
            &&& end.world.dest[dest] == world.source[src_scope]
            &&& forall|path: Seq<u8>| #[trigger]
                world.dest.contains_key(path) ==> end.world.dest.contains_key(path)
                    && end.world.dest[path] == world.dest[path]
        }),
{
    let dest = joined(dest_scope, src_scope);
    let node = world.source[src_scope];
    parents_are_above(world.dest, dest, world.defaults);
    single_file_copy(src_scope, dest_scope, world, count);
}

/// A single regular file whose destination is a symbolic link is not
/// copied, and the link is reported. Every entry of the destination stays
/// as it was. Where the destination holds the directories above the link,
/// as a filesystem does, the whole destination disk stays as it was;
/// otherwise those directories are all that it gains.
pub proof fn symlink_destination_is_kept(
    src_scope: Seq<u8>,
    dest_scope: Seq<u8>,
    world: World,
    count: nat,
)
    requires
        world.source.contains_key(src_scope),
        world.source[src_scope].kind is File,
        found_at(world.dest, joined(dest_scope, src_scope)) == Destination::Present(
            FileKind::Symlink,
        ),
        parent_of(joined(dest_scope, src_scope)) matches Some(dir) ==> can_hold_dir(
            world.dest,
            dir,
        ),
        count >= 8,
    ensures
        ({
            let dest = joined(dest_scope, src_scope);
            let end = Session::begin(src_scope, dest_scope, world).run(count);
            &&& end.machine.phase is Finished
            &&& end.machine.outcome is Completed
            &&& end.world.source == world.source
            &&& end.world.defaults == world.defaults
            &&& end.world.dest == with_parents(world.dest, dest, world.defaults)
            &&& forall|path: Seq<u8>| #[trigger]
                world.dest.contains_key(path) ==> end.world.dest.contains_key(path)
                    && end.world.dest[path] == world.dest[path]
            &&& end.world.reports == world.reports.push((Notice::DestinationIsSymlink, src_scope))
            &&& (parent_of(dest) matches Some(dir) ==> holds_dirs(world.dest, dir))
                ==> end.world.dest == world.dest
        }),
{
    let dest = joined(dest_scope, src_scope);
    let session = Session::begin(src_scope, dest_scope, world);
    parents_are_above(world.dest, dest, world.defaults);
    if let Some(dir) = parent_of(dest) {
        if holds_dirs(world.dest, dir) {
            with_dirs_of_held(world.dest, dir, world.defaults);
        }
    }
    copy_begins_with_file(src_scope, dest_scope, world);
    let taken = session.run(1);
    let requests = file_is_skipped(taken, 0);
    run_in_two(session, 1, requests);
    run_settles(session, 1 + requests, count);
}

/// A single regular file whose destination is a directory goes inside it,
/// as the entry of the file's base name. The directory itself, and every
/// other entry that the destination had, stays as it was.
pub proof fn single_file_goes_inside(
    src_scope: Seq<u8>,
    dest_scope: Seq<u8>,
    world: World,
    count: nat,
)
    requires
        world.source.contains_key(src_scope),
        world.source[src_scope].kind is File,
        found_at(world.dest, joined(dest_scope, src_scope)) == Destination::Present(
            FileKind::Directory,
        ),
        parent_of(joined(dest_scope, src_scope)) matches Some(dir) ==> can_hold_dir(
            world.dest,
            dir,
        ),
        file_name_of(src_scope) is Some,
        !world.dest.contains_key(
            joined(joined(dest_scope, src_scope), file_name_of(src_scope).unwrap()),
        ),
        count >= 12,
    ensures
        ({
            let dest = joined(dest_scope, src_scope);
            let inside = joined(dest, file_name_of(src_scope).unwrap());
            let end = Session::begin(src_scope, dest_scope, world).run(count);
            &&& end.machine.phase is Finished
            &&& end.machine.outcome is Completed
            &&& inside != dest
            &&& end.world.dest.contains_key(inside)
            &&& end.world.dest[inside] == world.source[src_scope]
            &&& forall|path: Seq<u8>| #[trigger]
                world.dest.contains_key(path) ==> end.world.dest.contains_key(path)
                    && end.world.dest[path] == world.dest[path]
        }),
{
    let dest = joined(dest_scope, src_scope);
    let node = world.source[src_scope];
    parents_are_above(world.dest, dest, world.defaults);
    file_name_extends(dest, src_scope);
    single_file_copy(src_scope, dest_scope, world, count);
}

/// A single regular file that is copied over a regular file replaces it:
/// the destination then has the content, the permission bits and the owner
/// of the source, and nothing of what the file held before, whichever of
/// the two is longer. Every other entry that the destination had stays as
/// it was.
pub proof fn single_file_replaces(
    src_scope: Seq<u8>,
    dest_scope: Seq<u8>,
    world: World,
    count: nat,
)
    requires
        world.source.contains_key(src_scope),
        world.source[src_scope].kind is File,
        found_at(world.dest, joined(dest_scope, src_scope)) == Destination::Present(
            FileKind::File,
        ),
        parent_of(joined(dest_scope, src_scope)) matches Some(dir) ==> can_hold_dir(
            world.dest,
            dir,
        ),
        count >= 12,
    ensures
        ({
            let dest = joined(dest_scope, src_scope);
            let end = Session::begin(src_scope, dest_scope, world).run(count);
            &&& end.machine.phase is Finished
            &&& end.machine.outcome is Completed
            &&& end.world.dest.contains_key(dest)
            &&& end.world.dest[dest] == world.source[src_scope]
            &&& forall|path: Seq<u8>| #[trigger]
                world.dest.contains_key(path) && path != dest ==> end.world.dest.contains_key(
                    path,
                ) && end.world.dest[path] == world.dest[path]
        }),
{
    let dest = joined(dest_scope, src_scope);
    parents_are_above(world.dest, dest, world.defaults);
    single_file_copy(src_scope, dest_scope, world, count);
}

} // verus!
