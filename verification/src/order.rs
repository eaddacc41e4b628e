//! The enumeration of a subtree: which lists of discovered paths are
//! reproduced whole, and that a list in the order of the bytes is one that
//! puts a directory before what is beneath it.

use crate::chains::is_above;
use crate::model::can_hold_dir;
use crate::model::Session;
use crate::model::World;
use crate::path::is_rooted;
use crate::path::parent_is_shorter;
use crate::path::parent_of;
use crate::path::tail_is_within;
use crate::path::tail_len;
use crate::path::trimmed;
use crate::path::trimmed_is_prefix;
use crate::tree::dest_at;
use crate::tree::entry_fits;
use crate::tree::place_at;
use crate::tree::tree_arrives;
use crate::tree::tree_fits;
use vstd::prelude::*;

verus! {

/// Whether `a` comes before `b` in the order of their bytes: at the first
/// byte in which they differ `a` has the smaller one, or `a` ends there and
/// `b` goes on.
pub open spec fn precedes(a: Seq<u8>, b: Seq<u8>) -> bool
    decreases a.len(),
{
    if b.len() == 0 {
        false
    } else if a.len() == 0 {
        true
    } else if a[0] != b[0] {
        a[0] < b[0]
    } else {
        precedes(a.skip(1), b.skip(1))
    }
}

/// Whether the paths ascend in the order of their bytes: each comes before
/// all that follow it.
pub open spec fn ascending(paths: Seq<Seq<u8>>) -> bool {
    forall|i: int, j: int|
        0 <= i < j < paths.len() ==> precedes(#[trigger] paths[i], #[trigger] paths[j])
}

/// Whether `a` is the beginning of `b`, and shorter.
pub open spec fn begins(a: Seq<u8>, b: Seq<u8>) -> bool {
    a.len() < b.len() && a == b.subrange(0, a.len() as int)
}

/// Of two paths, at most one comes before the other, and none before
/// itself.
pub proof fn precedes_one_way(a: Seq<u8>, b: Seq<u8>)
    ensures
        !(precedes(a, b) && precedes(b, a)),
        a == b ==> !precedes(a, b),
    decreases a.len(),
{
    if a.len() > 0 && b.len() > 0 && a[0] == b[0] {
        precedes_one_way(a.skip(1), b.skip(1));
        if a == b {
            assert(a.skip(1) == b.skip(1));
        }
    }
}

/// The beginning of a path comes before the path.
pub proof fn beginning_precedes(a: Seq<u8>, b: Seq<u8>)
    requires
        begins(a, b),
    ensures
        precedes(a, b),
    decreases a.len(),
{
    if a.len() > 0 {
        assert(a[0] == b.subrange(0, a.len() as int)[0]);
        assert(a.skip(1) == b.skip(1).subrange(0, a.len() - 1));
        beginning_precedes(a.skip(1), b.skip(1));
    }
}

/// The parent of a path is its beginning.
pub proof fn parent_begins(path: Seq<u8>)
    ensures
        parent_of(path) matches Some(above) ==> begins(above, path),
{
    let t = trimmed(path);
    trimmed_is_prefix(path);
    tail_is_within(t);
    parent_is_shorter(path);
    if tail_len(t) > 0 {
        let cut = t.subrange(0, t.len() - tail_len(t));
        trimmed_is_prefix(cut);
        let above = trimmed(cut);
        assert(above == path.subrange(0, above.len() as int));
    }
}

/// What is above a path is its beginning.
pub proof fn above_begins(above: Seq<u8>, path: Seq<u8>)
    requires
        is_above(above, path),
    ensures
        begins(above, path),
    decreases path.len(),
{
    parent_begins(path);
    let parent = parent_of(path).unwrap();
    if parent != above {
        above_begins(above, parent);
        assert(above == path.subrange(0, above.len() as int));
    }
}

/// A list in the order of the bytes is one way to put a directory before
/// what is beneath it: in an ascending list no path occurs twice, and a
/// path that is above another comes before it.
pub proof fn ascending_puts_parents_first(paths: Seq<Seq<u8>>)
    requires
        ascending(paths),
    ensures
        forall|i: int, j: int|
            0 <= i < paths.len() && 0 <= j < paths.len() && i != j ==> #[trigger] paths[i]
                != #[trigger] paths[j],
        forall|i: int, j: int|
            0 <= i < paths.len() && 0 <= j < paths.len() && #[trigger] is_above(paths[i], paths[j])
                ==> i < j,
{
    assert forall|i: int, j: int|
        0 <= i < paths.len() && 0 <= j < paths.len() && i != j implies #[trigger] paths[i]
        != #[trigger] paths[j] by {
        precedes_one_way(paths[i], paths[j]);
        precedes_one_way(paths[j], paths[i]);
    }
    assert forall|i: int, j: int|
        0 <= i < paths.len() && 0 <= j < paths.len() && #[trigger] is_above(
            paths[i],
            paths[j],
        ) implies i < j by {
        above_begins(paths[i], paths[j]);
        beginning_precedes(paths[i], paths[j]);
        precedes_one_way(paths[i], paths[j]);
    }
}

/// The conditions under which an enumerated subtree arrives whole on a
/// destination that holds none of it, said of the source and the destination
/// as they are. The discovered paths are rooted, each exists on the source,
/// and none occurs twice. A discovered path that is above another comes
/// before it and is a directory on the source. The destination holds none of
/// the discovered paths, and the directories above each of them can be made.
/// The directory above a link is on the destination or is discovered too.
pub open spec fn enumeration_fits(world: World) -> bool {
    let paths = world.listing;
    &&& forall|i: int| 0 <= i < paths.len() ==> is_rooted(#[trigger] paths[i])
    &&& forall|i: int| 0 <= i < paths.len() ==> world.source.contains_key(#[trigger] paths[i])
    &&& forall|i: int, j: int|
        0 <= i < paths.len() && 0 <= j < paths.len() && i != j ==> #[trigger] paths[i]
            != #[trigger] paths[j]
    &&& forall|i: int, j: int|
        0 <= i < paths.len() && 0 <= j < paths.len() && #[trigger] is_above(paths[i], paths[j])
            ==> i < j && world.source[paths[i]].kind is Directory
    &&& forall|i: int| 0 <= i < paths.len() ==> !world.dest.contains_key(#[trigger] paths[i])
    &&& forall|i: int|
        0 <= i < paths.len() ==> (parent_of(#[trigger] paths[i]) matches Some(dir)
            ==> can_hold_dir(world.dest, dir))
    &&& forall|i: int|
        0 <= i < paths.len() && world.source[#[trigger] paths[i]].kind is Symlink
            ==> link_is_housed(world, i)
}

/// Whether the directory above the link of index `i` is on the destination
/// or is a discovered path.
pub open spec fn link_is_housed(world: World, i: int) -> bool {
    parent_of(world.listing[i]) matches Some(dir) && (world.dest.contains_key(dir)
        || exists|j: int| 0 <= j < world.listing.len() && #[trigger] world.listing[j] == dir)
}

/// An enumeration that fits is a tree that fits, whatever the destination
/// scope: rooted paths are their own destination paths, and on a
/// destination that holds none of them each is reproduced there.
pub proof fn enumeration_is_tree(dest_scope: Seq<u8>, world: World)
    requires
        enumeration_fits(world),
        dest_scope.len() > 0,
    ensures
        tree_fits(dest_scope, world.listing, world),
        forall|i: int|
            0 <= i < world.listing.len() ==> #[trigger] dest_at(dest_scope, world.listing, i)
                == world.listing[i],
{
    let paths = world.listing;
    assert forall|i: int| 0 <= i < paths.len() implies #[trigger] dest_at(dest_scope, paths, i)
        == paths[i] && #[trigger] place_at(dest_scope, paths, world, i) == paths[i] by {
        assert(is_rooted(paths[i]));
        assert(!world.dest.contains_key(paths[i]));
    }
    assert forall|i: int| 0 <= i < paths.len() implies #[trigger] entry_fits(
        dest_scope,
        paths,
        world,
        i,
    ) by {
        assert(dest_at(dest_scope, paths, i) == paths[i]);
        assert(!world.dest.contains_key(paths[i]));
        if world.source[paths[i]].kind is Symlink {
            assert(link_is_housed(world, i));
            let dir = parent_of(paths[i]).unwrap();
            if !world.dest.contains_key(dir) {
                let j = choose|j: int| 0 <= j < paths.len() && #[trigger] paths[j] == dir;
                assert(place_at(dest_scope, paths, world, j) == dir);
            }
        }
    }
    assert forall|i: int| 0 <= i < paths.len() implies (parent_of(
        #[trigger] dest_at(dest_scope, paths, i),
    ) matches Some(dir) ==> can_hold_dir(world.dest, dir)) by {
        assert(is_rooted(paths[i]));
    }
    assert forall|i: int, j: int|
        0 <= i < paths.len() && 0 <= j < paths.len() && i != j implies #[trigger] place_at(
        dest_scope,
        paths,
        world,
        i,
    ) != #[trigger] place_at(dest_scope, paths, world, j) by {
        assert(place_at(dest_scope, paths, world, i) == paths[i]);
        assert(place_at(dest_scope, paths, world, j) == paths[j]);
    }
    assert forall|i: int, j: int|
        0 <= i < paths.len() && 0 <= j < paths.len() && i != j implies #[trigger] dest_at(
        dest_scope,
        paths,
        i,
    ) != #[trigger] place_at(dest_scope, paths, world, j) by {
        assert(dest_at(dest_scope, paths, i) == paths[i]);
        assert(place_at(dest_scope, paths, world, j) == paths[j]);
    }
    assert forall|i: int, j: int|
        0 <= i < paths.len() && 0 <= j < paths.len() && #[trigger] is_above(
            place_at(dest_scope, paths, world, i),
            dest_at(dest_scope, paths, j),
        ) implies i < j && world.source[paths[i]].kind is Directory by {
        assert(place_at(dest_scope, paths, world, i) == paths[i]);
        assert(dest_at(dest_scope, paths, j) == paths[j]);
        assert(is_above(paths[i], paths[j]));
    }
}

/// An enumerated subtree that fits arrives on the destination as it is on
/// the source. The copy finishes with success. At the path of each regular
/// file the destination has a regular file with the same content,
/// permission bits and owner; at the path of each directory a directory
/// with the same permission bits and owner; at the path of each link a link
/// with the same target; at the path of an entry of unknown type nothing.
/// What the destination had stays as it was.
pub proof fn enumerated_tree_arrives(
    src_scope: Seq<u8>,
    dest_scope: Seq<u8>,
    world: World,
    count: nat,
)
    requires
        world.source.contains_key(src_scope),
        !(world.source[src_scope].kind is File),
        dest_scope.len() > 0,
        enumeration_fits(world),
        count >= 3 + 10 * world.listing.len(),
    ensures
        ({
            let end = Session::begin(src_scope, dest_scope, world).run(count);
            &&& end.machine.phase is Finished
            &&& end.machine.outcome is Completed
            &&& forall|i: int|
                0 <= i < world.listing.len() ==> {
                    let source = world.source[#[trigger] world.listing[i]];
                    let found = end.world.dest[world.listing[i]];
                    &&& source.kind is File ==> found == source
                    &&& source.kind is Directory ==> found.kind is Directory && found.mode
                        == source.mode && found.uid == source.uid && found.gid == source.gid
                    &&& source.kind is Symlink ==> found.kind is Symlink && found.content
                        == source.content
                    &&& source.kind is Other <==> !end.world.dest.contains_key(world.listing[i])
                }
            &&& forall|path: Seq<u8>| #[trigger]
                world.dest.contains_key(path) ==> end.world.dest.contains_key(path)
                    && end.world.dest[path] == world.dest[path]
        }),
{
    let paths = world.listing;
    enumeration_is_tree(dest_scope, world);
    assert forall|i: int| 0 <= i < paths.len() implies !world.dest.contains_key(
        #[trigger] dest_at(dest_scope, paths, i),
    ) by {
        assert(!world.dest.contains_key(paths[i]));
    }
    tree_arrives(src_scope, dest_scope, world, count);
    let end = Session::begin(src_scope, dest_scope, world).run(count);
    assert forall|i: int| 0 <= i < paths.len() implies {
        let source = world.source[#[trigger] paths[i]];
        let found = end.world.dest[paths[i]];
        &&& source.kind is File ==> found == source
        &&& source.kind is Directory ==> found.kind is Directory && found.mode == source.mode
            && found.uid == source.uid && found.gid == source.gid
        &&& source.kind is Symlink ==> found.kind is Symlink && found.content == source.content
        &&& source.kind is Other <==> !end.world.dest.contains_key(paths[i])
    } by {
        assert(dest_at(dest_scope, paths, i) == paths[i]);
    }
}

} // verus!
