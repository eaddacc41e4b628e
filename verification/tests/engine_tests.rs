use disk_drive::engine::{DiskDrive, Phase};
use disk_drive::entry::{
    classify, file_kind, open_options, policy, Collision, Destination, EntryKind, FileKind,
    Metadata, OpenOptions,
};
use disk_drive::request::{Action, Event, Failure, Notice, Outcome};

fn p(path: &str) -> Vec<u8> {
    path.as_bytes().to_vec()
}

fn metadata(kind: FileKind) -> Metadata {
    Metadata { kind, mode: 0o644, uid: Some(1000), gid: Some(100) }
}

fn finish(failure: Failure) -> Action {
    Action::Finish { outcome: Outcome::GaveUp(failure) }
}

/// An engine that has enumerated `paths` and probes the first of them.
fn walked(paths: &[&str]) -> DiskDrive {
    let mut engine = DiskDrive::copy_between();
    engine.step(Event::Started);
    engine.step(Event::Metadata(metadata(FileKind::Directory)));
    engine.step(Event::Paths(paths.iter().map(|path| p(path)).collect()));
    engine
}

/// An engine that asks what is at the destination of the file `path`.
fn at_destination(path: &str) -> DiskDrive {
    let mut engine = walked(&[path]);
    engine.step(Event::Failed);
    engine.step(Event::Metadata(metadata(FileKind::File)));
    engine.step(Event::Done);
    let asked = engine.step(Event::Done);
    assert_eq!(asked, Action::DestinationMetadata { dest: p(path) });
    engine
}

#[test]
fn file_kind_tells_directory_then_file_then_link() {
    assert_eq!(file_kind(true, false, false), FileKind::Directory);
    assert_eq!(file_kind(false, true, false), FileKind::File);
    assert_eq!(file_kind(false, false, true), FileKind::Symlink);
    assert_eq!(file_kind(false, false, false), FileKind::Other);
    assert_eq!(file_kind(true, true, true), FileKind::Directory);
    assert_eq!(file_kind(false, true, true), FileKind::File);
}

#[test]
fn classify_follows_the_file_type() {
    assert_eq!(classify(FileKind::Directory), EntryKind::Directory);
    assert_eq!(classify(FileKind::File), EntryKind::File);
    assert_eq!(classify(FileKind::Symlink), EntryKind::Unknown);
    assert_eq!(classify(FileKind::Other), EntryKind::Unknown);
}

#[test]
fn policy_follows_the_destination() {
    assert_eq!(policy(Destination::Absent), Collision::CreateNew);
    assert_eq!(policy(Destination::Present(FileKind::Directory)), Collision::WriteInside);
    assert_eq!(policy(Destination::Present(FileKind::File)), Collision::Overwrite);
    assert_eq!(policy(Destination::Present(FileKind::Symlink)), Collision::Skip);
    assert_eq!(policy(Destination::Present(FileKind::Other)), Collision::MetadataOnly);
}

#[test]
fn open_options_follow_the_policy() {
    assert_eq!(
        open_options(Collision::CreateNew),
        OpenOptions { read: true, write: true, create: true, create_new: true, truncate: false }
    );
    assert_eq!(
        open_options(Collision::WriteInside),
        OpenOptions { read: true, write: true, create: true, create_new: false, truncate: true }
    );
    assert_eq!(
        open_options(Collision::Overwrite),
        OpenOptions { read: true, write: true, create: false, create_new: false, truncate: true }
    );
    assert_eq!(
        open_options(Collision::MetadataOnly),
        OpenOptions {
            read: true,
            write: true,
            create: false,
            create_new: false,
            truncate: false,
        }
    );
}

#[test]
fn copy_between_uses_both_roots() {
    let mut engine = DiskDrive::copy_between();
    assert_eq!(engine.source_scope(), p("/"));
    assert_eq!(engine.destination_scope(), p("/"));
    assert_eq!(engine.phase(), Phase::Idle);
    assert_eq!(engine.outcome(), None);
    assert_eq!(engine.step(Event::Started), Action::SourceMetadata { path: p("/") });
    assert_eq!(engine.phase(), Phase::RootMetadata);
}

#[test]
fn copy_from_src_resolves_the_source_scope() {
    let mut engine = DiskDrive::copy_from_src(b"a/b");
    assert_eq!(engine.source_scope(), p("/a/b"));
    assert_eq!(engine.destination_scope(), p("/"));
    assert_eq!(engine.step(Event::Started), Action::SourceMetadata { path: p("/a/b") });
}

#[test]
fn copy_to_dest_resolves_the_destination_scope() {
    let engine = DiskDrive::copy_to_dest(b"backup");
    assert_eq!(engine.source_scope(), p("/"));
    assert_eq!(engine.destination_scope(), p("/backup"));
}

#[test]
fn copy_from_src_to_dest_resolves_both_scopes() {
    let engine = DiskDrive::copy_from_src_to_dest(b"/a", b"b");
    assert_eq!(engine.source_scope(), p("/a"));
    assert_eq!(engine.destination_scope(), p("/b"));
}

#[test]
fn a_regular_file_is_its_own_path_set() {
    let mut engine = DiskDrive::copy_from_src(b"/a/b.txt");
    engine.step(Event::Started);
    let next = engine.step(Event::Metadata(metadata(FileKind::File)));
    assert_eq!(next, Action::ReadLink { path: p("/a/b.txt") });
    assert_eq!(engine.phase(), Phase::Probing);
}

#[test]
fn anything_but_a_regular_file_is_enumerated() {
    for kind in [FileKind::Directory, FileKind::Symlink, FileKind::Other] {
        let mut engine = DiskDrive::copy_from_src(b"/a");
        engine.step(Event::Started);
        let next = engine.step(Event::Metadata(metadata(kind)));
        assert_eq!(next, Action::Walk { root: p("/a") });
    }
}

#[test]
fn an_empty_enumeration_finishes_at_once() {
    let mut engine = walked(&[]);
    assert_eq!(engine.phase(), Phase::Finished);
    assert_eq!(engine.outcome(), Some(Outcome::Completed));
    assert_eq!(engine.step(Event::Done), Action::Finish { outcome: Outcome::Completed });
}

#[test]
fn a_failed_root_query_ends_the_copy() {
    let mut engine = DiskDrive::copy_between();
    engine.step(Event::Started);
    assert_eq!(engine.step(Event::Failed), finish(Failure::Request));
    assert_eq!(engine.outcome(), Some(Outcome::GaveUp(Failure::Request)));
}

#[test]
fn a_failed_enumeration_ends_the_copy() {
    let mut engine = DiskDrive::copy_between();
    engine.step(Event::Started);
    engine.step(Event::Metadata(metadata(FileKind::Directory)));
    assert_eq!(engine.step(Event::Failed), finish(Failure::Request));
}

#[test]
fn a_link_is_read_again_and_recreated() {
    let mut engine = DiskDrive::copy_to_dest(b"/dest");
    engine.step(Event::Started);
    engine.step(Event::Metadata(metadata(FileKind::Directory)));
    let probe = engine.step(Event::Paths(vec![p("a/link")]));
    assert_eq!(probe, Action::ReadLink { path: p("a/link") });
    let read = engine.step(Event::Link(p("b.txt")));
    assert_eq!(read, Action::ReadLink { path: p("a/link") });
    let create = engine.step(Event::Link(p("../other/b.txt")));
    assert_eq!(
        create,
        Action::Symlink { target: p("../other/b.txt"), link: p("/dest/a/link") }
    );
    assert_eq!(engine.step(Event::Done), Action::Finish { outcome: Outcome::Completed });
}

#[test]
fn a_directory_gets_permissions_then_owner() {
    let mut engine = walked(&["/a"]);
    assert_eq!(engine.step(Event::Failed), Action::SourceMetadata { path: p("/a") });
    let source = Metadata { kind: FileKind::Directory, mode: 0o750, uid: Some(7), gid: Some(8) };
    assert_eq!(engine.step(Event::Metadata(source)), Action::CreateDirAll { dir: p("/a") });
    assert_eq!(engine.step(Event::Done), Action::SourceMetadata { path: p("/a") });
    assert_eq!(
        engine.step(Event::Metadata(source)),
        Action::SetPermissions { dest: p("/a"), mode: 0o750 }
    );
    assert_eq!(engine.step(Event::Done), Action::Chown { dest: p("/a"), uid: 7, gid: 8 });
    assert_eq!(engine.step(Event::Done), Action::Finish { outcome: Outcome::Completed });
}

#[test]
fn a_new_file_is_created_exclusively_then_owned_then_permitted() {
    let mut engine = walked(&["/a/b.txt"]);
    assert_eq!(engine.step(Event::Failed), Action::SourceMetadata { path: p("/a/b.txt") });
    assert_eq!(
        engine.step(Event::Metadata(metadata(FileKind::File))),
        Action::CreateDirAll { dir: p("/a") }
    );
    assert_eq!(engine.step(Event::Done), Action::OpenSource { path: p("/a/b.txt") });
    assert_eq!(engine.step(Event::Done), Action::DestinationMetadata { dest: p("/a/b.txt") });
    assert_eq!(
        engine.step(Event::Failed),
        Action::OpenDestination {
            dest: p("/a/b.txt"),
            options: OpenOptions {
                read: true,
                write: true,
                create: true,
                create_new: true,
                truncate: false,
            },
        }
    );
    assert_eq!(engine.step(Event::Done), Action::CopyStream);
    assert_eq!(engine.step(Event::Done), Action::SourceFileMetadata);
    let source = Metadata { kind: FileKind::File, mode: 0o640, uid: Some(1000), gid: Some(50) };
    assert_eq!(
        engine.step(Event::Metadata(source)),
        Action::Chown { dest: p("/a/b.txt"), uid: 1000, gid: 50 }
    );
    assert_eq!(
        engine.step(Event::Done),
        Action::SetPermissions { dest: p("/a/b.txt"), mode: 0o640 }
    );
    assert_eq!(engine.step(Event::Done), Action::Finish { outcome: Outcome::Completed });
}

#[test]
fn a_file_without_a_parent_opens_the_source_at_once() {
    let mut engine = DiskDrive::copy_to_dest(b"");
    engine.step(Event::Started);
    engine.step(Event::Metadata(metadata(FileKind::Directory)));
    engine.step(Event::Paths(vec![p("/")]));
    engine.step(Event::Failed);
    assert_eq!(
        engine.step(Event::Metadata(metadata(FileKind::File))),
        Action::OpenSource { path: p("/") }
    );
}

#[test]
fn an_existing_file_is_emptied_and_written_anew() {
    let mut engine = at_destination("/a/b.txt");
    assert_eq!(
        engine.step(Event::Metadata(metadata(FileKind::File))),
        Action::OpenDestination {
            dest: p("/a/b.txt"),
            options: OpenOptions {
                read: true,
                write: true,
                create: false,
                create_new: false,
                truncate: true,
            },
        }
    );
    assert_eq!(engine.step(Event::Done), Action::CopyStream);
}

#[test]
fn a_file_goes_inside_an_existing_directory() {
    let mut engine = at_destination("/a/b.txt");
    assert_eq!(
        engine.step(Event::Metadata(metadata(FileKind::Directory))),
        Action::OpenDestination {
            dest: p("/a/b.txt/b.txt"),
            options: OpenOptions {
                read: true,
                write: true,
                create: true,
                create_new: false,
                truncate: true,
            },
        }
    );
    assert_eq!(engine.step(Event::Done), Action::CopyStream);
    assert_eq!(engine.step(Event::Done), Action::SourceFileMetadata);
    assert_eq!(
        engine.step(Event::Metadata(metadata(FileKind::File))),
        Action::Chown { dest: p("/a/b.txt/b.txt"), uid: 1000, gid: 100 }
    );
    assert_eq!(
        engine.step(Event::Done),
        Action::SetPermissions { dest: p("/a/b.txt/b.txt"), mode: 0o644 }
    );
}

#[test]
fn a_symlink_destination_is_reported_and_skipped() {
    let mut engine = at_destination("/a/b.txt");
    assert_eq!(
        engine.step(Event::Metadata(metadata(FileKind::Symlink))),
        Action::Report {
            notice: Notice::DestinationIsSymlink,
            path: p("/a/b.txt"),
            dest: p("/a/b.txt"),
        }
    );
    assert_eq!(engine.step(Event::Done), Action::Finish { outcome: Outcome::Completed });
}

#[test]
fn a_destination_of_another_type_gets_metadata_only() {
    let mut engine = at_destination("/dev/null");
    assert_eq!(
        engine.step(Event::Metadata(metadata(FileKind::Other))),
        Action::OpenDestination {
            dest: p("/dev/null"),
            options: OpenOptions {
                read: true,
                write: true,
                create: false,
                create_new: false,
                truncate: false,
            },
        }
    );
    assert_eq!(engine.step(Event::Done), Action::SourceFileMetadata);
    assert_eq!(
        engine.step(Event::Metadata(metadata(FileKind::File))),
        Action::Chown { dest: p("/dev/null"), uid: 1000, gid: 100 }
    );
}

#[test]
fn an_unknown_entry_is_reported_and_the_copy_goes_on() {
    let mut engine = walked(&["/sock", "/z"]);
    engine.step(Event::Failed);
    assert_eq!(
        engine.step(Event::Metadata(metadata(FileKind::Other))),
        Action::Report { notice: Notice::UnknownFileType, path: p("/sock"), dest: p("/sock") }
    );
    assert_eq!(engine.phase(), Phase::UnknownReported);
    assert_eq!(engine.step(Event::Done), Action::ReadLink { path: p("/z") });
}

#[test]
fn a_rooted_path_ignores_the_destination_scope() {
    let mut engine = DiskDrive::copy_to_dest(b"/backup");
    engine.step(Event::Started);
    engine.step(Event::Metadata(metadata(FileKind::Directory)));
    engine.step(Event::Paths(vec![p("/a"), p("b")]));
    engine.step(Event::Failed);
    assert_eq!(
        engine.step(Event::Metadata(metadata(FileKind::Directory))),
        Action::CreateDirAll { dir: p("/a") }
    );
    engine.step(Event::Done);
    engine.step(Event::Metadata(metadata(FileKind::Directory)));
    engine.step(Event::Done);
    assert_eq!(engine.step(Event::Done), Action::ReadLink { path: p("b") });
    engine.step(Event::Failed);
    assert_eq!(
        engine.step(Event::Metadata(metadata(FileKind::Directory))),
        Action::CreateDirAll { dir: p("/backup/b") }
    );
}

#[test]
fn a_missing_owner_ends_the_copy() {
    let mut engine = at_destination("/a/b.txt");
    engine.step(Event::Failed);
    engine.step(Event::Done);
    engine.step(Event::Done);
    let source = Metadata { kind: FileKind::File, mode: 0o644, uid: None, gid: Some(1) };
    assert_eq!(engine.step(Event::Metadata(source)), finish(Failure::UserId));

    let mut engine = walked(&["/a"]);
    engine.step(Event::Failed);
    let source = Metadata { kind: FileKind::Directory, mode: 0o755, uid: Some(1), gid: None };
    engine.step(Event::Metadata(source));
    engine.step(Event::Done);
    assert_eq!(
        engine.step(Event::Metadata(source)),
        Action::SetPermissions { dest: p("/a"), mode: 0o755 }
    );
    assert_eq!(engine.step(Event::Done), finish(Failure::GroupId));
}

#[test]
fn a_file_without_a_base_name_cannot_go_inside_a_directory() {
    let mut engine = at_destination("/a/..");
    assert_eq!(
        engine.step(Event::Metadata(metadata(FileKind::Directory))),
        finish(Failure::BaseName)
    );
}

#[test]
fn a_failed_request_ends_the_copy_in_every_later_phase() {
    let answers = [
        Event::Failed,
        Event::Metadata(metadata(FileKind::File)),
        Event::Done,
        Event::Done,
        Event::Failed,
        Event::Done,
        Event::Done,
        Event::Metadata(metadata(FileKind::File)),
        Event::Done,
    ];
    for failing in 1..answers.len() {
        if failing == 4 {
            continue;
        }
        let mut engine = walked(&["/a/b.txt", "/a/c.txt"]);
        for answer in &answers[..failing] {
            engine.step(answer.clone());
        }
        assert_eq!(engine.step(Event::Failed), finish(Failure::Request), "request {failing}");
        assert_eq!(engine.phase(), Phase::Finished);
    }
}

#[test]
fn an_outcome_that_answers_nothing_ends_the_copy() {
    let mut engine = DiskDrive::copy_between();
    assert_eq!(engine.step(Event::Done), finish(Failure::Unexpected));

    let mut engine = walked(&["/a"]);
    assert_eq!(engine.step(Event::Done), finish(Failure::Unexpected));

    let mut engine = at_destination("/a/b.txt");
    assert_eq!(engine.step(Event::Link(p("x"))), finish(Failure::Unexpected));
}

#[test]
fn a_finished_engine_stays_finished() {
    let mut engine = DiskDrive::copy_between();
    engine.step(Event::Started);
    engine.step(Event::Failed);
    for event in [Event::Started, Event::Done, Event::Failed, Event::Paths(vec![p("/a")])] {
        assert_eq!(engine.step(event), finish(Failure::Request));
        assert_eq!(engine.outcome(), Some(Outcome::GaveUp(Failure::Request)));
    }
}

#[test]
fn no_path_has_failed_while_the_copy_is_under_way_or_succeeds() {
    let mut engine = DiskDrive::copy_between();
    assert_eq!(engine.failed_path(), None);
    engine.step(Event::Started);
    assert_eq!(engine.failed_path(), None);
    engine.step(Event::Metadata(metadata(FileKind::Directory)));
    engine.step(Event::Paths(vec![]));
    assert_eq!(engine.outcome(), Some(Outcome::Completed));
    assert_eq!(engine.failed_path(), None);
}

#[test]
fn a_failure_at_the_root_names_the_source_scope() {
    let mut engine = DiskDrive::copy_from_src(b"a");
    engine.step(Event::Started);
    engine.step(Event::Failed);
    assert_eq!(engine.failed_path(), Some(p("/a")));

    let mut engine = DiskDrive::copy_from_src(b"/b");
    engine.step(Event::Started);
    engine.step(Event::Metadata(metadata(FileKind::Directory)));
    engine.step(Event::Failed);
    assert_eq!(engine.failed_path(), Some(p("/b")));
}

#[test]
fn a_failure_within_an_entry_names_the_discovered_path() {
    let mut engine = walked(&["/a", "/a/b.txt"]);
    engine.step(Event::Failed);
    engine.step(Event::Metadata(metadata(FileKind::Directory)));
    engine.step(Event::Done);
    engine.step(Event::Metadata(metadata(FileKind::Directory)));
    engine.step(Event::Done);
    engine.step(Event::Done);
    engine.step(Event::Failed);
    engine.step(Event::Metadata(metadata(FileKind::File)));
    engine.step(Event::Done);
    engine.step(Event::Done);
    engine.step(Event::Failed);
    engine.step(Event::Done);
    assert_eq!(engine.step(Event::Failed), finish(Failure::Request));
    assert_eq!(engine.failed_path(), Some(p("/a/b.txt")));
    engine.step(Event::Done);
    assert_eq!(engine.failed_path(), Some(p("/a/b.txt")));
}

#[test]
fn an_unexpected_first_outcome_names_no_path() {
    let mut engine = DiskDrive::copy_between();
    assert_eq!(engine.step(Event::Done), finish(Failure::Unexpected));
    assert_eq!(engine.failed_path(), None);
}
