//! What holds of a path, the directories above it, and their creation.

use crate::model::can_hold_dir;
use crate::model::Defaults;
use crate::model::Disk;
use crate::model::Node;
use crate::model::with_dirs;
use crate::path::parent_is_shorter;
use crate::path::parent_of;
use vstd::prelude::*;

verus! {

/// Whether `dir` and each path above it, the empty path excepted, is on the
/// disk.
pub open spec fn holds_dirs(disk: Disk, dir: Seq<u8>) -> bool
    decreases dir.len(),
{
    &&& dir.len() == 0 || disk.contains_key(dir)
    &&& match parent_of(dir) {
        Some(above) => above.len() < dir.len() ==> holds_dirs(disk, above),
        None => true,
    }
}

/// Whether `above` is the parent of `path`, or the parent of its parent, and
/// so on.
pub open spec fn is_above(above: Seq<u8>, path: Seq<u8>) -> bool
    decreases path.len(),
{
    match parent_of(path) {
        Some(parent) => parent == above || (parent.len() < path.len() && is_above(above, parent)),
        None => false,
    }
}

/// The destination disk once the directories above `dest` were made.
pub open spec fn with_parents(disk: Disk, dest: Seq<u8>, defaults: Defaults) -> Disk {
    match parent_of(dest) {
        Some(dir) => with_dirs(disk, dir, defaults),
        None => disk,
    }
}

/// What is above the parent of a path, and that parent itself, is above the
/// path.
pub proof fn above_parent_is_above(above: Seq<u8>, path: Seq<u8>)
    requires
        parent_of(path) matches Some(parent) && (above == parent || is_above(above, parent)),
    ensures
        is_above(above, path),
{
    parent_is_shorter(path);
}

/// Creating directories leaves every entry that was there as it was, and
/// what it adds are directories at paths no longer than the one asked for.
pub proof fn with_dirs_adds_dirs(disk: Disk, dir: Seq<u8>, defaults: Defaults)
    ensures
        forall|path: Seq<u8>| #[trigger]
            disk.contains_key(path) ==> with_dirs(disk, dir, defaults).contains_key(path)
                && with_dirs(disk, dir, defaults)[path] == disk[path],
        forall|path: Seq<u8>| #[trigger]
            with_dirs(disk, dir, defaults).contains_key(path) && !disk.contains_key(path)
                ==> path.len() <= dir.len() && with_dirs(disk, dir, defaults)[path]
                == defaults.directory(),
    decreases dir.len(),
{
    match parent_of(dir) {
        Some(above) => {
            if above.len() < dir.len() {
                with_dirs_adds_dirs(disk, above, defaults);
            }
        },
        None => {},
    }
}

/// Once `dir` and its ancestors were created, `dir` is a directory.
pub proof fn with_dirs_makes_dir(disk: Disk, dir: Seq<u8>, defaults: Defaults)
    requires
        can_hold_dir(disk, dir),
        dir.len() > 0,
    ensures
        with_dirs(disk, dir, defaults).contains_key(dir),
        with_dirs(disk, dir, defaults)[dir].kind is Directory,
        with_dirs(disk, dir, defaults)[dir] == if disk.contains_key(dir) {
            disk[dir]
        } else {
            defaults.directory()
        },
{
    parent_is_shorter(dir);
    if let Some(above) = parent_of(dir) {
        with_dirs_adds_dirs(disk, above, defaults);
    }
}

/// What creating directories adds is `dir` or above it, and a directory as
/// the disk creates it.
pub proof fn with_dirs_adds_above(disk: Disk, dir: Seq<u8>, defaults: Defaults)
    ensures
        forall|path: Seq<u8>| #[trigger]
            with_dirs(disk, dir, defaults).contains_key(path) && !disk.contains_key(path) ==> (path
                == dir || is_above(path, dir)) && with_dirs(disk, dir, defaults)[path]
                == defaults.directory(),
    decreases dir.len(),
{
    parent_is_shorter(dir);
    if let Some(above) = parent_of(dir) {
        with_dirs_adds_above(disk, above, defaults);
    }
}

/// Making the directories above `dest` leaves every entry that was there as
/// it was, and adds nothing at `dest` or at a longer path.
pub proof fn parents_are_above(disk: Disk, dest: Seq<u8>, defaults: Defaults)
    ensures
        forall|path: Seq<u8>| #[trigger]
            disk.contains_key(path) ==> with_parents(disk, dest, defaults).contains_key(path)
                && with_parents(disk, dest, defaults)[path] == disk[path],
        forall|path: Seq<u8>| #[trigger]
            with_parents(disk, dest, defaults).contains_key(path) && !disk.contains_key(path)
                ==> path.len() < dest.len() && with_parents(disk, dest, defaults)[path]
                == defaults.directory(),
{
    parent_is_shorter(dest);
    if let Some(dir) = parent_of(dest) {
        with_dirs_adds_dirs(disk, dir, defaults);
    }
}

/// A disk that holds the directories down to `dir` still holds them when
/// entries are added.
pub proof fn holds_dirs_on_more(disk: Disk, more: Disk, dir: Seq<u8>)
    requires
        holds_dirs(disk, dir),
        forall|path: Seq<u8>| #[trigger] disk.contains_key(path) ==> more.contains_key(path),
    ensures
        holds_dirs(more, dir),
    decreases dir.len(),
{
    if let Some(above) = parent_of(dir) {
        if above.len() < dir.len() {
            holds_dirs_on_more(disk, more, above);
        }
    }
}

/// Once the directories down to `dir` were created, the disk holds them.
pub proof fn with_dirs_holds_dirs(disk: Disk, dir: Seq<u8>, defaults: Defaults)
    ensures
        holds_dirs(with_dirs(disk, dir, defaults), dir),
    decreases dir.len(),
{
    if let Some(above) = parent_of(dir) {
        if above.len() < dir.len() {
            with_dirs_holds_dirs(disk, above, defaults);
            holds_dirs_on_more(
                with_dirs(disk, above, defaults),
                with_dirs(disk, dir, defaults),
                above,
            );
        }
    }
}

/// Creating directories that the disk holds already changes nothing.
pub proof fn with_dirs_of_held(disk: Disk, dir: Seq<u8>, defaults: Defaults)
    requires
        holds_dirs(disk, dir),
    ensures
        with_dirs(disk, dir, defaults) == disk,
    decreases dir.len(),
{
    if let Some(above) = parent_of(dir) {
        if above.len() < dir.len() {
            with_dirs_of_held(disk, above, defaults);
        }
    }
}

/// Directories can still be made down to `dir` after an entry was put at a
/// longer path, or a directory anywhere.
pub proof fn can_hold_dir_after_insert(disk: Disk, dir: Seq<u8>, path: Seq<u8>, node: Node)
    requires
        can_hold_dir(disk, dir),
        path.len() > dir.len() || node.kind is Directory,
    ensures
        can_hold_dir(disk.insert(path, node), dir),
    decreases dir.len(),
{
    if let Some(above) = parent_of(dir) {
        if above.len() < dir.len() {
            can_hold_dir_after_insert(disk, above, path, node);
        }
    }
}

/// Directories can still be made down to `dir` after they were made.
pub proof fn can_hold_dir_after_with_dirs(disk: Disk, dir: Seq<u8>, defaults: Defaults)
    requires
        can_hold_dir(disk, dir),
    ensures
        can_hold_dir(with_dirs(disk, dir, defaults), dir),
    decreases dir.len(),
{
    parent_is_shorter(dir);
    if let Some(above) = parent_of(dir) {
        can_hold_dir_after_with_dirs(disk, above, defaults);
        if dir.len() > 0 && !with_dirs(disk, above, defaults).contains_key(dir) {
            can_hold_dir_after_insert(
                with_dirs(disk, above, defaults),
                above,
                dir,
                defaults.directory(),
            );
        }
    }
    if dir.len() > 0 {
        with_dirs_makes_dir(disk, dir, defaults);
    }
}

/// Where directories can be made down to `dir`, whatever is on the disk at
/// `dir` or above it is a directory.
pub proof fn can_hold_dir_means_dirs(disk: Disk, dir: Seq<u8>, path: Seq<u8>)
    requires
        can_hold_dir(disk, dir),
        path == dir || is_above(path, dir),
        disk.contains_key(path),
    ensures
        disk[path].kind is Directory,
    decreases dir.len(),
{
    parent_is_shorter(dir);
    if path != dir {
        let above = parent_of(dir).unwrap();
        can_hold_dir_means_dirs(disk, above, path);
    }
}

/// Where whatever is on the disk at `dir` or above it is a directory,
/// directories can be made down to `dir`.
pub proof fn dirs_mean_can_hold_dir(disk: Disk, dir: Seq<u8>)
    requires
        forall|path: Seq<u8>|
            (path == dir || is_above(path, dir)) && #[trigger] disk.contains_key(path)
                ==> disk[path].kind is Directory,
    ensures
        can_hold_dir(disk, dir),
    decreases dir.len(),
{
    parent_is_shorter(dir);
    if let Some(above) = parent_of(dir) {
        assert forall|path: Seq<u8>|
            (path == above || is_above(path, above)) && #[trigger] disk.contains_key(
                path,
            ) implies disk[path].kind is Directory by {
            above_parent_is_above(path, dir);
        }
        dirs_mean_can_hold_dir(disk, above);
    }
}

} // verus!
