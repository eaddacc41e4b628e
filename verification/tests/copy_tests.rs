use disk_drive::engine::DiskDrive;
use disk_drive::entry::{FileKind, Metadata, OpenOptions};
use disk_drive::path::parent;
use disk_drive::request::{Action, Event, Failure, Notice, Outcome};
use std::collections::BTreeMap;

#[derive(Clone, Debug, PartialEq, Eq)]
struct Node {
    kind: FileKind,
    content: Vec<u8>,
    mode: u32,
    uid: u32,
    gid: u32,
}

type Disk = BTreeMap<Vec<u8>, Node>;

/// Two disks in memory that answer the engine's requests.
#[derive(Clone, Debug, Default)]
struct World {
    source: Disk,
    dest: Disk,
    reading: Option<Vec<u8>>,
    writing: Option<Vec<u8>>,
    reports: Vec<(Notice, Vec<u8>)>,
    requests: Vec<Action>,
}

fn p(path: &str) -> Vec<u8> {
    path.as_bytes().to_vec()
}

fn file(content: &str, mode: u32, uid: u32, gid: u32) -> Node {
    Node { kind: FileKind::File, content: p(content), mode, uid, gid }
}

fn dir(mode: u32, uid: u32, gid: u32) -> Node {
    Node { kind: FileKind::Directory, content: Vec::new(), mode, uid, gid }
}

fn link(target: &str) -> Node {
    Node { kind: FileKind::Symlink, content: p(target), mode: 0o777, uid: 0, gid: 0 }
}

fn socket() -> Node {
    Node { kind: FileKind::Other, content: Vec::new(), mode: 0o600, uid: 0, gid: 0 }
}

fn disk(entries: &[(&str, Node)]) -> Disk {
    entries.iter().map(|(path, node)| (p(path), node.clone())).collect()
}

fn stat(disk: &Disk, path: &[u8]) -> Event {
    match disk.get(path) {
        Some(node) => Event::Metadata(Metadata {
            kind: node.kind,
            mode: node.mode,
            uid: Some(node.uid),
            gid: Some(node.gid),
        }),
        None => Event::Failed,
    }
}

fn beneath(root: &[u8], path: &[u8]) -> bool {
    let mut prefix = root.to_vec();
    if prefix.last() != Some(&b'/') {
        prefix.push(b'/');
    }
    path.len() > prefix.len() && path.starts_with(&prefix)
}

impl World {
    fn new(source: Disk, dest: Disk) -> World {
        World { source, dest, ..World::default() }
    }

    fn create_dir_all(&mut self, dir: &[u8]) -> bool {
        let mut chain = Vec::new();
        let mut at = Some(dir.to_vec());
        while let Some(path) = at {
            at = parent(&path);
            if !path.is_empty() {
                chain.push(path);
            }
        }
        if chain.iter().any(|path| {
            self.dest.get(path).map_or(false, |node| node.kind != FileKind::Directory)
        }) {
            return false;
        }
        for path in chain {
            self.dest.entry(path).or_insert(dir_default());
        }
        true
    }

    fn open(&mut self, dest: &[u8], options: OpenOptions) -> bool {
        match self.dest.get_mut(dest) {
            None => {
                if !(options.create || options.create_new) {
                    return false;
                }
                self.dest.insert(dest.to_vec(), file("", 0o600, 0, 0));
            }
            Some(node) => {
                if options.create_new
                    || node.kind == FileKind::Directory
                    || node.kind == FileKind::Symlink
                {
                    return false;
                }
                if options.truncate && node.kind == FileKind::File {
                    node.content.clear();
                }
            }
        }
        self.writing = Some(dest.to_vec());
        true
    }

    fn has_dir_above(&self, path: &[u8]) -> bool {
        match parent(path) {
            Some(dir) => {
                dir.is_empty()
                    || self.dest.get(&dir).map_or(false, |node| node.kind == FileKind::Directory)
            }
            None => false,
        }
    }

    fn copy_stream(&mut self) -> bool {
        let (Some(from), Some(to)) = (&self.reading, &self.writing) else {
            return false;
        };
        let Some(source) = self.source.get(from) else {
            return false;
        };
        let Some(target) = self.dest.get_mut(to) else {
            return false;
        };
        if source.kind != FileKind::File || target.kind != FileKind::File {
            return false;
        }
        let mut content = source.content.clone();
        if target.content.len() > content.len() {
            content.extend_from_slice(&target.content[source.content.len()..]);
        }
        target.content = content;
        true
    }

    fn perform(&mut self, action: &Action) -> Event {
        self.requests.push(action.clone());
        let done = |ok: bool| if ok { Event::Done } else { Event::Failed };
        match action {
            Action::SourceMetadata { path } => stat(&self.source, path),
            Action::Walk { root } => Event::Paths(
                self.source.keys().filter(|path| beneath(root, path)).cloned().collect(),
            ),
            Action::ReadLink { path } => match self.source.get(path) {
                Some(node) if node.kind == FileKind::Symlink => Event::Link(node.content.clone()),
                _ => Event::Failed,
            },
            Action::OpenSource { path } => match self.source.get(path) {
                Some(node) if node.kind == FileKind::File => {
                    self.reading = Some(path.clone());
                    Event::Done
                }
                _ => Event::Failed,
            },
            Action::SourceFileMetadata => match &self.reading {
                Some(path) => stat(&self.source, path),
                None => Event::Failed,
            },
            Action::CreateDirAll { dir } => done(self.create_dir_all(dir)),
            Action::DestinationMetadata { dest } => stat(&self.dest, dest),
            Action::OpenDestination { dest, options } => done(self.open(dest, *options)),
            Action::CopyStream => done(self.copy_stream()),
            Action::Chown { dest, uid, gid } => match self.dest.get_mut(dest) {
                Some(node) if node.kind != FileKind::Symlink => {
                    node.uid = *uid;
                    node.gid = *gid;
                    Event::Done
                }
                _ => Event::Failed,
            },
            Action::SetPermissions { dest, mode } => match self.dest.get_mut(dest) {
                Some(node) if node.kind != FileKind::Symlink => {
                    node.mode = *mode;
                    Event::Done
                }
                _ => Event::Failed,
            },
            Action::Symlink { target, link } => {
                if self.dest.contains_key(link) || !self.has_dir_above(link) {
                    return Event::Failed;
                }
                let node = Node {
                    kind: FileKind::Symlink,
                    content: target.clone(),
                    mode: 0o777,
                    uid: 0,
                    gid: 0,
                };
                self.dest.insert(link.clone(), node);
                Event::Done
            }
            Action::Report { notice, path, .. } => {
                self.reports.push((*notice, path.clone()));
                Event::Done
            }
            Action::Finish { .. } => Event::Done,
        }
    }

    /// Drives `engine` until it finishes.
    fn run(&mut self, mut engine: DiskDrive) -> Outcome {
        let mut event = Event::Started;
        for _ in 0..10_000 {
            let action = engine.step(event);
            if let Action::Finish { outcome } = action {
                assert_eq!(engine.outcome(), Some(outcome));
                return outcome;
            }
            event = self.perform(&action);
        }
        panic!("the engine did not finish");
    }
}

fn dir_default() -> Node {
    dir(0o700, 0, 0)
}

fn sample_source() -> Disk {
    disk(&[
        ("/", dir(0o755, 0, 0)),
        ("/a", dir(0o750, 1000, 1000)),
        ("/a/b.txt", file("hello", 0o644, 1000, 100)),
        ("/a/link", link("b.txt")),
    ])
}

#[test]
fn single_file_is_created_with_content_and_metadata() {
    let mut world = World::new(sample_source(), Disk::new());
    let outcome = world.run(DiskDrive::copy_from_src(b"/a/b.txt"));
    assert_eq!(outcome, Outcome::Completed);
    assert_eq!(world.dest[&p("/a/b.txt")], file("hello", 0o644, 1000, 100));
    assert_eq!(world.dest[&p("/a")], dir_default());
    assert_eq!(world.dest.len(), 3);
    assert!(world.reports.is_empty());
}

#[test]
fn relative_source_scope_is_rooted() {
    let mut world = World::new(sample_source(), Disk::new());
    let outcome = world.run(DiskDrive::copy_from_src(b"a/b.txt"));
    assert_eq!(outcome, Outcome::Completed);
    assert_eq!(world.dest[&p("/a/b.txt")], file("hello", 0o644, 1000, 100));
}

#[test]
fn tree_with_link_is_reproduced_on_an_empty_destination() {
    let mut world = World::new(sample_source(), Disk::new());
    let outcome = world.run(DiskDrive::copy_between());
    assert_eq!(outcome, Outcome::Completed);
    assert_eq!(world.dest[&p("/a")], dir(0o750, 1000, 1000));
    assert_eq!(world.dest[&p("/a/b.txt")], file("hello", 0o644, 1000, 100));
    assert_eq!(world.dest[&p("/a/link")].kind, FileKind::Symlink);
    assert_eq!(world.dest[&p("/a/link")].content, p("b.txt"));
    assert!(world.reports.is_empty());
}

#[test]
fn deeper_tree_is_reproduced_entry_by_entry() {
    let source = disk(&[
        ("/", dir(0o755, 0, 0)),
        ("/etc", dir(0o755, 0, 0)),
        ("/etc/passwd", file("root:x:0:0", 0o644, 0, 0)),
        ("/home", dir(0o755, 0, 0)),
        ("/home/u", dir(0o700, 1000, 1000)),
        ("/home/u/.profile", file("export A=1\n", 0o600, 1000, 1000)),
        ("/home/u/bin", dir(0o755, 1000, 1000)),
        ("/home/u/bin/run", file("#!/bin/sh\n", 0o755, 1000, 1000)),
        ("/home/u/latest", link("/home/u/bin/run")),
    ]);
    let mut world = World::new(source.clone(), disk(&[("/", dir(0o711, 5, 5))]));
    let outcome = world.run(DiskDrive::copy_between());
    assert_eq!(outcome, Outcome::Completed);
    for (path, node) in &source {
        if path == b"/" {
            assert_eq!(world.dest[path], dir(0o711, 5, 5));
        } else if node.kind == FileKind::Symlink {
            assert_eq!(world.dest[path].content, node.content);
            assert_eq!(world.dest[path].kind, FileKind::Symlink);
        } else {
            assert_eq!(&world.dest[path], node, "{:?}", String::from_utf8_lossy(path));
        }
    }
    assert_eq!(world.dest.len(), source.len());
}

#[test]
fn subtree_scope_copies_only_what_is_beneath_it() {
    let source = disk(&[
        ("/", dir(0o755, 0, 0)),
        ("/a", dir(0o750, 1, 1)),
        ("/a/x", file("x", 0o644, 1, 1)),
        ("/b", dir(0o750, 2, 2)),
        ("/b/y", file("y", 0o644, 2, 2)),
    ]);
    let mut world = World::new(source, Disk::new());
    let outcome = world.run(DiskDrive::copy_from_src(b"/a"));
    assert_eq!(outcome, Outcome::Completed);
    assert_eq!(world.dest[&p("/a/x")], file("x", 0o644, 1, 1));
    assert_eq!(world.dest[&p("/a")], dir_default());
    assert!(!world.dest.contains_key(&p("/b")));
    assert!(!world.dest.contains_key(&p("/b/y")));
}

#[test]
fn destination_scope_has_no_effect_on_rooted_paths() {
    let mut world = World::new(sample_source(), Disk::new());
    let outcome = world.run(DiskDrive::copy_from_src_to_dest(b"/a", b"/backup"));
    assert_eq!(outcome, Outcome::Completed);
    assert_eq!(world.dest[&p("/a/b.txt")], file("hello", 0o644, 1000, 100));
    assert!(!world.dest.contains_key(&p("/backup")));
    assert!(!world.dest.contains_key(&p("/backup/a/b.txt")));
}

#[test]
fn recopy_overwrites_content_and_resets_metadata() {
    let dest = disk(&[
        ("/", dir(0o755, 0, 0)),
        ("/a", dir(0o700, 0, 0)),
        ("/a/b.txt", file("old", 0o600, 1, 2)),
    ]);
    let mut world = World::new(sample_source(), dest);
    let outcome = world.run(DiskDrive::copy_from_src(b"/a/b.txt"));
    assert_eq!(outcome, Outcome::Completed);
    assert_eq!(world.dest[&p("/a/b.txt")], file("hello", 0o644, 1000, 100));
    assert_eq!(world.dest[&p("/a")], dir(0o700, 0, 0));
}

#[test]
fn overwriting_leaves_nothing_of_a_longer_file() {
    let dest = disk(&[("/a", dir(0o700, 0, 0)), ("/a/b.txt", file("0123456789", 0o600, 1, 2))]);
    let mut world = World::new(sample_source(), dest);
    let outcome = world.run(DiskDrive::copy_from_src(b"/a/b.txt"));
    assert_eq!(outcome, Outcome::Completed);
    assert_eq!(world.dest[&p("/a/b.txt")], file("hello", 0o644, 1000, 100));
    assert!(world.requests.iter().any(|request| matches!(
        request,
        Action::OpenDestination { options, .. } if options.truncate
    )));
}

#[test]
fn overwriting_a_longer_file_with_three_bytes_leaves_three_bytes() {
    let source = disk(&[("/a", dir(0o755, 0, 0)), ("/a/b.txt", file("abc", 0o644, 1000, 1000))]);
    let dest = disk(&[("/a", dir(0o755, 0, 0)), ("/a/b.txt", file("0123456789", 0o600, 0, 0))]);
    let mut world = World::new(source, dest);
    let outcome = world.run(DiskDrive::copy_from_src(b"/a/b.txt"));
    assert_eq!(outcome, Outcome::Completed);
    assert_eq!(world.dest[&p("/a/b.txt")], file("abc", 0o644, 1000, 1000));
}

#[test]
fn tree_recopy_over_longer_and_shorter_files_gives_the_source_bytes() {
    let source = disk(&[
        ("/", dir(0o755, 0, 0)),
        ("/a", dir(0o750, 1, 1)),
        ("/a/long", file("new", 0o644, 1, 1)),
        ("/a/short", file("much longer", 0o600, 2, 2)),
    ]);
    let dest = disk(&[
        ("/", dir(0o755, 0, 0)),
        ("/a", dir(0o700, 9, 9)),
        ("/a/long", file("0123456789", 0o600, 9, 9)),
        ("/a/short", file("x", 0o600, 9, 9)),
    ]);
    let mut world = World::new(source.clone(), dest);
    assert_eq!(world.run(DiskDrive::copy_between()), Outcome::Completed);
    assert_eq!(world.dest[&p("/a")], dir(0o750, 1, 1));
    assert_eq!(world.dest[&p("/a/long")], source[&p("/a/long")]);
    assert_eq!(world.dest[&p("/a/short")], source[&p("/a/short")]);
}

#[test]
fn link_is_not_created_where_the_directory_above_is_missing() {
    let source = disk(&[("/", dir(0o755, 0, 0)), ("/a/link", link("b.txt"))]);
    let mut world = World::new(source, Disk::new());
    let engine = DiskDrive::copy_between();
    let outcome = world.run(engine);
    assert_eq!(outcome, Outcome::GaveUp(Failure::Request));
    assert!(world.dest.is_empty());
}

#[test]
fn copying_a_tree_twice_changes_nothing_where_files_meet_links_and_directories() {
    let source = disk(&[
        ("/", dir(0o755, 0, 0)),
        ("/a", dir(0o750, 1, 1)),
        ("/a/into", file("inside", 0o644, 1, 1)),
        ("/a/over", file("over", 0o640, 2, 2)),
        ("/a/skip", file("skipped", 0o600, 3, 3)),
        ("/a/sock", socket()),
    ]);
    let dest = disk(&[
        ("/", dir(0o755, 0, 0)),
        ("/a", dir(0o700, 9, 9)),
        ("/a/into", dir(0o711, 8, 8)),
        ("/a/over", file("something longer", 0o600, 9, 9)),
        ("/a/skip", link("/elsewhere")),
    ]);
    let mut world = World::new(source, dest);
    assert_eq!(world.run(DiskDrive::copy_between()), Outcome::Completed);
    assert_eq!(world.dest[&p("/a/into")], dir(0o711, 8, 8));
    assert_eq!(world.dest[&p("/a/into/into")], file("inside", 0o644, 1, 1));
    assert_eq!(world.dest[&p("/a/over")], file("over", 0o640, 2, 2));
    assert_eq!(world.dest[&p("/a/skip")], link("/elsewhere"));
    assert!(!world.dest.contains_key(&p("/a/sock")));
    assert_eq!(
        world.reports,
        vec![
            (Notice::DestinationIsSymlink, p("/a/skip")),
            (Notice::UnknownFileType, p("/a/sock")),
        ]
    );
    let once = world.dest.clone();
    assert_eq!(world.run(DiskDrive::copy_between()), Outcome::Completed);
    assert_eq!(world.dest, once);
}

#[test]
fn a_failed_copy_names_the_path_it_failed_at() {
    let source = disk(&[
        ("/", dir(0o755, 0, 0)),
        ("/a", file("first", 0o644, 1, 1)),
        ("/b", dir(0o755, 1, 1)),
        ("/b/c", file("second", 0o644, 1, 1)),
    ]);
    let dest = disk(&[("/b", file("in the way", 0o600, 9, 9))]);
    let mut world = World::new(source, dest);
    let mut engine = DiskDrive::copy_between();
    let mut event = Event::Started;
    loop {
        let action = engine.step(event);
        if let Action::Finish { outcome } = action {
            assert_eq!(outcome, Outcome::GaveUp(Failure::Request));
            break;
        }
        event = world.perform(&action);
    }
    assert_eq!(engine.failed_path(), Some(p("/b")));
}

#[test]
fn copying_twice_gives_the_same_destination() {
    let mut world = World::new(sample_source(), Disk::new());
    assert_eq!(world.run(DiskDrive::copy_from_src(b"/a/b.txt")), Outcome::Completed);
    let once = world.dest.clone();
    assert_eq!(world.run(DiskDrive::copy_from_src(b"/a/b.txt")), Outcome::Completed);
    assert_eq!(world.dest, once);
}

#[test]
fn copying_a_tree_of_files_twice_gives_the_same_destination() {
    let source = disk(&[
        ("/", dir(0o755, 0, 0)),
        ("/a", dir(0o750, 1, 1)),
        ("/a/x", file("x", 0o644, 1, 1)),
        ("/a/y", file("yy", 0o600, 2, 2)),
    ]);
    let mut world = World::new(source, Disk::new());
    assert_eq!(world.run(DiskDrive::copy_between()), Outcome::Completed);
    let once = world.dest.clone();
    assert_eq!(world.run(DiskDrive::copy_between()), Outcome::Completed);
    assert_eq!(world.dest, once);
}

#[test]
fn symlink_destination_is_left_untouched_and_reported() {
    let dest = disk(&[
        ("/", dir(0o755, 0, 0)),
        ("/a", dir(0o700, 0, 0)),
        ("/a/b.txt", link("/elsewhere")),
    ]);
    let mut world = World::new(sample_source(), dest.clone());
    let outcome = world.run(DiskDrive::copy_from_src(b"/a/b.txt"));
    assert_eq!(outcome, Outcome::Completed);
    assert_eq!(world.dest, dest);
    assert_eq!(world.reports, vec![(Notice::DestinationIsSymlink, p("/a/b.txt"))]);
    assert!(!world.requests.iter().any(|request| matches!(
        request,
        Action::OpenDestination { .. }
            | Action::CopyStream
            | Action::Chown { .. }
            | Action::SetPermissions { .. }
    )));
}

#[test]
fn file_goes_inside_a_directory_destination() {
    let dest = disk(&[
        ("/", dir(0o755, 0, 0)),
        ("/a", dir(0o700, 0, 0)),
        ("/a/b.txt", dir(0o711, 3, 4)),
    ]);
    let mut world = World::new(sample_source(), dest);
    let outcome = world.run(DiskDrive::copy_from_src(b"/a/b.txt"));
    assert_eq!(outcome, Outcome::Completed);
    assert_eq!(world.dest[&p("/a/b.txt")], dir(0o711, 3, 4));
    assert_eq!(world.dest[&p("/a/b.txt/b.txt")], file("hello", 0o644, 1000, 100));
}

#[test]
fn unknown_entry_is_reported_and_the_rest_is_copied() {
    let source = disk(&[
        ("/", dir(0o755, 0, 0)),
        ("/a", dir(0o750, 1, 1)),
        ("/a/sock", socket()),
        ("/a/x", file("x", 0o644, 1, 1)),
    ]);
    let mut world = World::new(source, Disk::new());
    let outcome = world.run(DiskDrive::copy_between());
    assert_eq!(outcome, Outcome::Completed);
    assert_eq!(world.reports, vec![(Notice::UnknownFileType, p("/a/sock"))]);
    assert!(!world.dest.contains_key(&p("/a/sock")));
    assert_eq!(world.dest[&p("/a")], dir(0o750, 1, 1));
    assert_eq!(world.dest[&p("/a/x")], file("x", 0o644, 1, 1));
}

#[test]
fn missing_source_scope_ends_the_copy() {
    let mut world = World::new(sample_source(), Disk::new());
    let outcome = world.run(DiskDrive::copy_from_src(b"/nowhere"));
    assert_eq!(outcome, Outcome::GaveUp(Failure::Request));
    assert!(world.dest.is_empty());
}

#[test]
fn blocked_parent_ends_the_copy_and_keeps_what_was_copied() {
    let source = disk(&[
        ("/", dir(0o755, 0, 0)),
        ("/a", file("first", 0o644, 1, 1)),
        ("/b", dir(0o755, 1, 1)),
        ("/b/c", file("second", 0o644, 1, 1)),
    ]);
    let dest = disk(&[("/b", file("in the way", 0o600, 9, 9))]);
    let mut world = World::new(source, dest);
    let outcome = world.run(DiskDrive::copy_between());
    assert_eq!(outcome, Outcome::GaveUp(Failure::Request));
    assert_eq!(world.dest[&p("/a")], file("first", 0o644, 1, 1));
    assert_eq!(world.dest[&p("/b")], file("in the way", 0o600, 9, 9));
    assert!(!world.dest.contains_key(&p("/b/c")));
}

#[test]
fn existing_link_at_the_destination_ends_the_copy() {
    let dest = disk(&[("/a", dir(0o700, 0, 0)), ("/a/link", link("old"))]);
    let mut world = World::new(sample_source(), dest);
    let outcome = world.run(DiskDrive::copy_between());
    assert_eq!(outcome, Outcome::GaveUp(Failure::Request));
    assert_eq!(world.dest[&p("/a/link")], link("old"));
}

#[test]
fn entries_are_dealt_with_one_after_the_other() {
    let mut world = World::new(sample_source(), Disk::new());
    world.run(DiskDrive::copy_between());
    let probes: Vec<Vec<u8>> = world
        .requests
        .iter()
        .filter_map(|request| match request {
            Action::SourceMetadata { path } => Some(path.clone()),
            _ => None,
        })
        .collect();
    assert_eq!(probes, vec![p("/"), p("/a"), p("/a"), p("/a/b.txt")]);
}
