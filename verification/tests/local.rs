use std::path::{Path, PathBuf};

use atomo_vfs::error::{IoFailure, IoKind};
use atomo_vfs::local::{
    file_type_from, io_result, is_hidden, ms_from, now_ms, translate_change,
    translate_notify_event, ChangeKind, FileMeta, LocalCall, LocalProvider,
};
use atomo_vfs::local_copy::{
    DirAction, DirCopy, DirReply, LocalTransfer, TransferAction, TransferReply,
};
use atomo_vfs::local_files::{
    DeleteAction, DeleteReply, LocalDelete, LocalRead, ReadAction, ReadReply,
};
use atomo_vfs::local_list::{ListAction, ListReply, LocalListing};
use atomo_vfs::local_write::{LocalWrite, WriteAction, WriteReply};
use atomo_vfs::types::{DeleteOpts, FileType, FsEvent, FsEventKind, ListOpts, WriteOpts};
use atomo_vfs::{VfsError, VfsUri};

fn uri(s: &str) -> VfsUri {
    VfsUri::parse(s).unwrap()
}

fn meta(is_dir: bool, len: u64) -> FileMeta {
    FileMeta {
        is_dir,
        is_symlink: false,
        len,
        modified: Some((2, 3_500_000)),
        created: None,
        readonly: true,
        hidden: false,
    }
}

fn failure(kind: IoKind) -> IoFailure {
    IoFailure { kind, raw_os_error: None, unix: true, message: "boom".to_string() }
}

#[test]
fn times_become_milliseconds() {
    assert_eq!(ms_from(Some((2, 3_999_999))), Some(2003));
    assert_eq!(ms_from(None), None);
    assert_eq!(now_ms(Some((1, 0))), 1000);
    assert_eq!(now_ms(None), 0);
    assert_eq!(
        ms_from(Some((u64::MAX, 999_000_000))),
        Some((u64::MAX as u128 * 1000 + 999) as u64)
    );
}

#[test]
fn types_and_hidden_entries() {
    assert_eq!(file_type_from(&meta(true, 0)), FileType::Directory);
    assert_eq!(file_type_from(&meta(false, 0)), FileType::File);
    let link = FileMeta { is_symlink: true, ..meta(true, 0) };
    assert_eq!(file_type_from(&link), FileType::Symlink);
    assert!(is_hidden(".x", None));
    assert!(!is_hidden("x", Some(&meta(false, 0))));
    assert!(is_hidden("x", Some(&FileMeta { hidden: true, ..meta(false, 0) })));
}

#[test]
fn stats_come_from_metadata() {
    let p = LocalProvider::new();
    let stat = p.stat(&uri("file:///a"), Ok(meta(false, 9))).unwrap();
    assert_eq!(stat.file_type, FileType::File);
    assert_eq!(stat.size, 9);
    assert_eq!(stat.modified_ms, Some(2003));
    assert_eq!(stat.created_ms, None);
    assert!(stat.readonly);
    assert_eq!(p.stat(&uri("file:///a"), Ok(meta(true, 9))).unwrap().size, 0);
    let gone = p.stat(&uri("file:///a"), Err(failure(IoKind::NotFound))).unwrap_err();
    assert_eq!(gone.code(), "not_found");
    assert_eq!(p.scheme(), "file");
    assert!(p.caps(false, false).case_sensitive);
    assert!(!p.caps(true, false).case_sensitive);
    assert!(!LocalProvider::default().caps(false, true).case_sensitive);
    assert!(io_result(Ok(()), &uri("file:///a")).is_ok());
    let denied = io_result(Err(failure(IoKind::PermissionDenied)), &uri("file:///a"));
    assert_eq!(denied.unwrap_err().code(), "permission_denied");
}

#[test]
fn a_listing_takes_entry_by_entry() {
    let (mut l, path, first) =
        LocalListing::begin(&uri("file:///d"), ListOpts::default()).unwrap();
    assert_eq!(path, PathBuf::from("/d"));
    assert_eq!(first, ListAction::Examine);
    assert_eq!(l.step(ListReply::Meta(Ok(meta(true, 0))), false), ListAction::Open);
    assert_eq!(l.step(ListReply::Opened(Ok(())), false), ListAction::NextEntry);
    for (name, m) in [
        ("a.png", Some(meta(false, 4))),
        (".x", Some(meta(false, 4))),
        ("odd", None),
        ("sub", Some(meta(true, 4))),
    ] {
        let named = ListReply::Entry(Ok(Some(name.to_string())));
        assert_eq!(l.step(named, false), ListAction::Describe);
        assert_eq!(l.step(ListReply::Described(m), false), ListAction::NextEntry);
    }
    let odd = ListReply::Entry(Ok(Some("a/b".to_string())));
    assert_eq!(l.step(odd, false), ListAction::NextEntry);
    assert_eq!(l.step(ListReply::Entry(Ok(None)), false), ListAction::Finish);
    let entries = l.finish().unwrap();
    let names: Vec<&str> = entries.iter().map(|e| e.name.as_str()).collect();
    assert_eq!(names, vec!["a.png", "odd", "sub"]);
    assert_eq!(entries[0].mime, Some("image/png".to_string()));
    assert_eq!(entries[0].modified_ms, Some(2003));
    assert_eq!(entries[0].uri, uri("file:///d/a.png"));
    assert_eq!(entries[1].file_type, FileType::File);
    assert_eq!(entries[1].size, 0);
    assert_eq!(entries[1].modified_ms, None);
    assert_eq!(entries[2].mime, None);
    assert_eq!(entries[2].size, 0);
}

#[test]
fn a_listing_shows_hidden_entries_on_demand() {
    let opts = ListOpts { include_hidden: true };
    let (mut l, _, _) = LocalListing::begin(&uri("file:///d"), opts).unwrap();
    l.step(ListReply::Meta(Ok(meta(true, 0))), false);
    l.step(ListReply::Opened(Ok(())), false);
    l.step(ListReply::Entry(Ok(Some(".x".to_string()))), false);
    l.step_as(ListReply::Described(None), false, Some("a/b".to_string()));
    l.step(ListReply::Entry(Ok(None)), false);
    let entries = l.finish().unwrap();
    assert!(entries[0].hidden);
    assert_eq!(entries[0].mime, Some("a/b".to_string()));
}

#[test]
fn a_listing_names_its_faults() {
    let begin = || LocalListing::begin(&uri("file:///d"), ListOpts::default()).unwrap().0;
    let mut l = begin();
    assert_eq!(l.step(ListReply::Meta(Ok(meta(false, 0))), false), ListAction::Finish);
    assert_eq!(l.finish().unwrap_err().code(), "not_a_directory");
    let mut l = begin();
    l.step(ListReply::Meta(Err(failure(IoKind::NotFound))), false);
    assert_eq!(l.finish().unwrap_err().code(), "not_found");
    let mut l = begin();
    l.step(ListReply::Meta(Ok(meta(true, 0))), false);
    l.step(ListReply::Opened(Err(failure(IoKind::PermissionDenied))), false);
    assert_eq!(l.finish().unwrap_err().code(), "permission_denied");
    let mut l = begin();
    l.step(ListReply::Meta(Ok(meta(true, 0))), false);
    assert_eq!(l.step(ListReply::Opened(Ok(())), true), ListAction::Finish);
    assert_eq!(l.finish().unwrap_err().code(), "cancelled");
    let mut l = begin();
    l.step(ListReply::Meta(Ok(meta(true, 0))), false);
    l.step(ListReply::Opened(Ok(())), false);
    l.step(ListReply::Entry(Err(failure(IoKind::Other))), false);
    assert_eq!(l.finish().unwrap_err().to_string(), "io error: boom");
    assert!(LocalListing::begin(&uri("mem://t/"), ListOpts::default()).is_err());
}

#[test]
fn a_read_seeks_to_its_range() {
    let (mut r, path, first) = LocalRead::begin(&uri("file:///f"), Some((4, 10)), false).unwrap();
    assert_eq!(path, PathBuf::from("/f"));
    assert_eq!(first, ReadAction::Examine);
    assert_eq!(r.step(ReadReply::Meta(Ok(meta(false, 99)))), ReadAction::Open);
    assert_eq!(r.step(ReadReply::Done(Ok(()))), ReadAction::Seek(4));
    assert_eq!(r.step(ReadReply::Done(Ok(()))), ReadAction::Stream(Some(6)));
    assert_eq!(r.chunk(Ok(vec![1])).unwrap(), vec![1]);
    assert_eq!(r.chunk(Err(failure(IoKind::Other))).unwrap_err().code(), "io");
    let (mut r, _, _) = LocalRead::begin(&uri("file:///f"), None, false).unwrap();
    r.step(ReadReply::Meta(Ok(meta(false, 99))));
    assert_eq!(r.step(ReadReply::Done(Ok(()))), ReadAction::Stream(None));
    let (mut r, _, _) = LocalRead::begin(&uri("file:///f"), Some((10, 4)), false).unwrap();
    r.step(ReadReply::Meta(Ok(meta(false, 99))));
    r.step(ReadReply::Done(Ok(())));
    assert_eq!(r.step(ReadReply::Done(Ok(()))), ReadAction::Stream(Some(0)));
}

#[test]
fn a_read_names_its_faults() {
    let begin = |c: bool| LocalRead::begin(&uri("file:///f"), Some((0, 1)), c);
    assert_eq!(begin(true).unwrap_err().code(), "cancelled");
    assert_eq!(LocalRead::begin(&uri("mem://t/f"), None, false).unwrap_err().code(), "invalid_uri");
    let (mut r, _, _) = begin(false).unwrap();
    assert_eq!(r.step(ReadReply::Meta(Ok(meta(true, 0)))), ReadAction::Fail);
    assert_eq!(r.failure().code(), "is_a_directory");
    let (mut r, _, _) = begin(false).unwrap();
    r.step(ReadReply::Meta(Err(failure(IoKind::NotFound))));
    assert_eq!(r.failure().code(), "not_found");
    let (mut r, _, _) = begin(false).unwrap();
    r.step(ReadReply::Meta(Ok(meta(false, 0))));
    r.step(ReadReply::Done(Ok(())));
    assert_eq!(r.step(ReadReply::Done(Err(failure(IoKind::Other)))), ReadAction::Fail);
    assert_eq!(r.failure().code(), "io");
}

#[test]
fn deletions_follow_the_metadata() {
    let opts = |recursive: bool, use_trash: bool| DeleteOpts { recursive, use_trash };
    let begin = |o: DeleteOpts| LocalDelete::begin(&uri("file:///d"), o).unwrap();
    let (mut d, path, first) = begin(opts(true, false));
    assert_eq!(path, PathBuf::from("/d"));
    assert_eq!(first, DeleteAction::Examine);
    assert_eq!(d.step(DeleteReply::Meta(Ok(meta(true, 0)))), DeleteAction::RemoveTree);
    assert_eq!(d.step(DeleteReply::Done(Ok(()))), DeleteAction::Finish);
    assert!(d.finish().is_ok());
    let (mut d, _, _) = begin(opts(false, false));
    assert_eq!(d.step(DeleteReply::Meta(Ok(meta(true, 0)))), DeleteAction::RemoveDir);
    d.step(DeleteReply::Done(Err(failure(IoKind::DirectoryNotEmpty))));
    assert_eq!(d.finish().unwrap_err().code(), "directory_not_empty");
    let (mut d, _, _) = begin(opts(false, false));
    assert_eq!(d.step(DeleteReply::Meta(Ok(meta(false, 0)))), DeleteAction::RemoveFile);
    let (mut d, _, _) = begin(opts(false, false));
    d.step(DeleteReply::Meta(Err(failure(IoKind::NotFound))));
    assert_eq!(d.finish().unwrap_err().code(), "not_found");
    let (mut d, _, first) = begin(opts(false, true));
    assert_eq!(first, DeleteAction::Trash);
    d.step(DeleteReply::Trashed(Ok(Err("full".to_string()))));
    assert_eq!(d.finish().unwrap_err().to_string(), "provider error [trash]: full");
    let (mut d, _, _) = begin(opts(false, true));
    d.step(DeleteReply::Trashed(Err("lost".to_string())));
    assert_eq!(d.finish().unwrap_err().to_string(), "io error: lost");
    let (mut d, _, _) = begin(opts(false, true));
    d.step(DeleteReply::Trashed(Ok(Ok(()))));
    assert!(d.finish().is_ok());
    assert!(LocalDelete::begin(&uri("mem://t/a"), opts(false, false)).is_err());
}

fn write_opts(overwrite: bool, create_parents: bool) -> WriteOpts {
    WriteOpts { overwrite, create_parents }
}

fn chunk(c: Option<Result<(), VfsError>>, cancelled: bool) -> WriteReply {
    WriteReply::Chunk { chunk: c, cancelled }
}

#[test]
fn a_write_replaces_its_target_last() {
    let (mut w, first) = LocalWrite::begin_with(&uri("file:///d/f"), write_opts(false, true), true, 5);
    assert!(matches!(first, WriteAction::MakeDirs(p) if p == uri("file:///d")));
    assert!(matches!(w.step(WriteReply::Done(Ok(()))), WriteAction::LookForTarget));
    match w.step(WriteReply::Target(Some(false))) {
        WriteAction::CreateTemp(name) => {
            assert_eq!(name, ".atomo-tmp-00000000-0000-0000-0000-000000000005")
        }
        other => panic!("unexpected {other:?}"),
    }
    assert!(matches!(w.step(WriteReply::Done(Ok(()))), WriteAction::NextChunk));
    assert!(matches!(w.step(chunk(Some(Ok(())), false)), WriteAction::WriteChunk));
    assert!(matches!(w.step(WriteReply::Done(Ok(()))), WriteAction::NextChunk));
    assert!(matches!(w.step(chunk(None, true)), WriteAction::Flush));
    assert!(matches!(w.step(WriteReply::Done(Ok(()))), WriteAction::Sync));
    assert!(matches!(w.step(WriteReply::Done(Ok(()))), WriteAction::ReplaceTarget));
    assert!(matches!(w.step(WriteReply::Done(Ok(()))), WriteAction::Finish));
    assert!(w.finish().is_ok());
}

#[test]
fn temporary_names_are_random() {
    let name = || match LocalWrite::begin(&uri("file:///f"), write_opts(true, false)).unwrap().3 {
        WriteAction::CreateTemp(name) => name,
        other => panic!("unexpected {other:?}"),
    };
    let (a, b) = (name(), name());
    assert_ne!(a, b);
    assert_eq!(a.len(), ".atomo-tmp-".len() + 36);
    assert_eq!(&a[25..26], "4");
}

#[test]
fn a_write_that_fails_leaves_no_temporary_file() {
    let started = || {
        let (mut w, _) = LocalWrite::begin_with(&uri("file:///f"), write_opts(true, false), true, 5);
        w.step(WriteReply::Done(Ok(())));
        w
    };
    let ended = |mut w: LocalWrite, action: WriteAction| {
        assert!(matches!(action, WriteAction::RemoveTemp));
        let last = w.step(WriteReply::Done(Err(failure(IoKind::Other))));
        assert!(matches!(last, WriteAction::Finish));
        w.finish().unwrap_err().code()
    };
    let mut w = started();
    let action = w.step(chunk(Some(Ok(())), true));
    assert_eq!(ended(w, action), "cancelled");
    let mut w = started();
    let action = w.step(chunk(Some(Err(VfsError::TooLarge { limit: 1 })), false));
    assert_eq!(ended(w, action), "too_large");
    let mut w = started();
    w.step(chunk(Some(Ok(())), false));
    let action = w.step(WriteReply::Done(Err(failure(IoKind::PermissionDenied))));
    assert_eq!(ended(w, action), "permission_denied");
    for steps in 0..3 {
        let mut w = started();
        w.step(chunk(None, false));
        for _ in 0..steps {
            w.step(WriteReply::Done(Ok(())));
        }
        let action = w.step(WriteReply::Done(Err(failure(IoKind::Other))));
        assert_eq!(ended(w, action), "io");
    }
}

#[test]
fn a_write_names_its_early_faults() {
    let begin = |s: &str, o: WriteOpts, p: bool| LocalWrite::begin_with(&uri(s), o, p, 5);
    let (mut w, _) = begin("file:///d/f", write_opts(true, true), true);
    let action = w.step(WriteReply::Done(Err(failure(IoKind::PermissionDenied))));
    assert!(matches!(action, WriteAction::Finish));
    assert_eq!(w.finish().unwrap_err().to_string(), "permission denied: file:///d");
    let (mut w, _) = begin("file:///f", write_opts(false, false), true);
    w.step(WriteReply::Target(Some(true)));
    assert_eq!(w.finish().unwrap_err().to_string(), "already exists: file:///f");
    let (mut w, _) = begin("file:///f", write_opts(false, false), true);
    assert!(matches!(w.step(WriteReply::Target(None)), WriteAction::CreateTemp(_)));
    w.step(WriteReply::Done(Err(failure(IoKind::NotFound))));
    assert_eq!(w.finish().unwrap_err().code(), "not_found");
    let (w, action) = begin("file:///", write_opts(true, true), false);
    assert!(matches!(action, WriteAction::Finish));
    assert_eq!(
        w.finish().unwrap_err().to_string(),
        "invalid uri: uri has no parent directory: file:///"
    );
    let (w, action) = begin("mem://t/f", write_opts(true, true), true);
    assert!(matches!(action, WriteAction::Finish));
    assert_eq!(w.finish().unwrap_err().code(), "invalid_uri");
}

#[test]
fn a_rename_across_devices_copies_a_file() {
    let (from, to) = (uri("file:///a"), uri("file:///b"));
    let across = || IoFailure {
        kind: IoKind::Other,
        raw_os_error: Some(18),
        unix: true,
        message: "cross".to_string(),
    };
    let (mut t, _, _, first) = LocalTransfer::rename(&from, &to, false).unwrap();
    assert_eq!(first, TransferAction::LookForTarget);
    assert_eq!(t.step(TransferReply::Target(Some(false))), TransferAction::Rename);
    assert_eq!(t.step(TransferReply::Done(Err(across()))), TransferAction::Examine);
    assert_eq!(t.step(TransferReply::Meta(Ok(meta(false, 1)))), TransferAction::CopyFile);
    assert_eq!(t.step(TransferReply::Done(Ok(()))), TransferAction::RemoveSource);
    assert_eq!(t.step(TransferReply::Done(Ok(()))), TransferAction::Finish);
    assert!(t.finish().is_ok());
    let (mut t, _, _, first) = LocalTransfer::rename(&from, &to, true).unwrap();
    assert_eq!(first, TransferAction::Rename);
    t.step(TransferReply::Done(Err(across())));
    t.step(TransferReply::Meta(Ok(meta(true, 1))));
    assert_eq!(
        t.finish().unwrap_err().to_string(),
        "io error: cross-device rename of a directory is not supported for file:///a"
    );
}

#[test]
fn a_rename_names_its_faults() {
    let (from, to) = (uri("file:///a"), uri("file:///b"));
    let (mut t, _, _, _) = LocalTransfer::rename(&from, &to, false).unwrap();
    t.step(TransferReply::Target(Some(true)));
    assert_eq!(t.finish().unwrap_err().to_string(), "already exists: file:///b");
    let (mut t, _, _, _) = LocalTransfer::rename(&from, &to, true).unwrap();
    assert_eq!(t.step(TransferReply::Done(Ok(()))), TransferAction::Finish);
    assert!(t.finish().is_ok());
    let (mut t, _, _, _) = LocalTransfer::rename(&from, &to, true).unwrap();
    t.step(TransferReply::Done(Err(failure(IoKind::NotFound))));
    assert_eq!(t.finish().unwrap_err().to_string(), "not found: file:///a");
}

#[test]
fn a_local_copy_keeps_its_source() {
    let (from, to) = (uri("file:///a"), uri("file:///b"));
    let (mut t, _, _, first) = LocalTransfer::copy_within(&from, &to, true).unwrap();
    assert_eq!(first, TransferAction::Examine);
    assert_eq!(t.step(TransferReply::Meta(Ok(meta(false, 1)))), TransferAction::CopyFile);
    assert_eq!(t.step(TransferReply::Done(Ok(()))), TransferAction::Finish);
    assert!(t.finish().is_ok());
    let (mut t, _, _, _) = LocalTransfer::copy_within(&from, &to, false).unwrap();
    assert_eq!(t.step(TransferReply::Target(None)), TransferAction::Examine);
    assert_eq!(t.step(TransferReply::Meta(Ok(meta(true, 1)))), TransferAction::CopyDirectory);
    t.step(TransferReply::Directory(Err(VfsError::Cancelled)));
    assert_eq!(t.finish().unwrap_err().code(), "cancelled");
    let (mut t, _, _, _) = LocalTransfer::copy_within(&from, &to, true).unwrap();
    t.step(TransferReply::Meta(Err(failure(IoKind::NotFound))));
    assert_eq!(t.finish().unwrap_err().to_string(), "not found: file:///a");
}

fn entry(name: Option<&'static str>, cancelled: bool) -> DirReply<&'static str> {
    DirReply::Entry { there: Ok(name), cancelled }
}

#[test]
fn a_directory_copy_visits_everything() {
    let (mut d, first) = DirCopy::begin();
    let mut asked = vec![(first, d.place().clone())];
    let replies = vec![
        DirReply::Done(Ok(())),
        DirReply::Done(Ok(())),
        entry(Some("sub"), false),
        DirReply::Class(Ok(true)),
        DirReply::Done(Ok(())),
        DirReply::Done(Ok(())),
        entry(Some("x"), false),
        DirReply::Class(Ok(false)),
        DirReply::Done(Ok(())),
        entry(None, false),
        DirReply::Done(Ok(())),
        entry(Some("f"), false),
        DirReply::Class(Ok(false)),
        DirReply::Done(Ok(())),
        entry(None, false),
        DirReply::Done(Ok(())),
    ];
    for reply in replies {
        let action = d.step(reply);
        asked.push((action, d.place().clone()));
    }
    assert_eq!(
        asked,
        vec![
            (DirAction::MakeDir, vec![]),
            (DirAction::OpenDir, vec![]),
            (DirAction::NextEntry, vec![]),
            (DirAction::Classify, vec!["sub"]),
            (DirAction::MakeDir, vec!["sub"]),
            (DirAction::OpenDir, vec!["sub"]),
            (DirAction::NextEntry, vec!["sub"]),
            (DirAction::Classify, vec!["sub", "x"]),
            (DirAction::CopyFile, vec!["sub", "x"]),
            (DirAction::NextEntry, vec!["sub"]),
            (DirAction::CloseDir, vec!["sub"]),
            (DirAction::NextEntry, vec![]),
            (DirAction::Classify, vec!["f"]),
            (DirAction::CopyFile, vec!["f"]),
            (DirAction::NextEntry, vec![]),
            (DirAction::CloseDir, vec![]),
            (DirAction::Finish, vec![]),
        ]
    );
    assert!(d.finish().is_ok());
}

#[test]
fn a_directory_copy_names_its_faults() {
    let (mut d, _) = DirCopy::<&str>::begin();
    assert_eq!(d.step(DirReply::Done(Err("no".to_string()))), DirAction::Finish);
    assert_eq!(d.finish().unwrap_err().to_string(), "io error: no");
    let opened = || {
        let (mut d, _) = DirCopy::begin();
        d.step(DirReply::Done(Ok(())));
        d.step(DirReply::Done(Ok(())));
        d
    };
    let mut d = opened();
    assert_eq!(d.step(entry(Some("x"), true)), DirAction::Finish);
    assert_eq!(d.finish().unwrap_err().code(), "cancelled");
    let mut d = opened();
    d.step(DirReply::Entry { there: Err("no".to_string()), cancelled: false });
    assert_eq!(d.finish().unwrap_err().code(), "io");
    let mut d = opened();
    d.step(entry(Some("x"), false));
    d.step(DirReply::Class(Err("no".to_string())));
    assert_eq!(d.finish().unwrap_err().code(), "io");
}

#[test]
fn notices_become_events() {
    let (a, b) = (Path::new("/a"), Path::new("/b"));
    let event = |kind: FsEventKind, s: &str| FsEvent { kind, uri: uri(s), renamed_to: None };
    let told = |kind: ChangeKind, paths: Vec<&Path>| translate_notify_event(kind, &paths);
    assert_eq!(
        told(ChangeKind::Create, vec![a, b]),
        vec![event(FsEventKind::Created, "file:///a"), event(FsEventKind::Created, "file:///b")]
    );
    assert_eq!(
        told(ChangeKind::Rename, vec![a, b]),
        vec![event(FsEventKind::Removed, "file:///a"), event(FsEventKind::Created, "file:///b")]
    );
    assert_eq!(
        told(ChangeKind::Rename, vec![a]),
        vec![event(FsEventKind::Removed, "file:///a"), event(FsEventKind::Created, "file:///a")]
    );
    assert_eq!(told(ChangeKind::Modify, vec![a]), vec![event(FsEventKind::Modified, "file:///a")]);
    assert_eq!(told(ChangeKind::Remove, vec![a]), vec![event(FsEventKind::Removed, "file:///a")]);
    assert_eq!(told(ChangeKind::Other, vec![a]), vec![]);
    let up = Path::new("/x/../y");
    assert_eq!(
        told(ChangeKind::Rename, vec![up, b]),
        vec![event(FsEventKind::Created, "file:///b")]
    );
    assert_eq!(translate_change(ChangeKind::Create, &vec![None]), vec![]);
}

#[test]
fn local_operations_name_their_paths() {
    let opts = write_opts(true, false);
    let (_, path, dir, action) = LocalWrite::begin(&uri("file:///d/f"), opts).unwrap();
    assert_eq!(path, PathBuf::from("/d/f"));
    assert_eq!(dir, Some(PathBuf::from("/d")));
    assert!(matches!(action, WriteAction::CreateTemp(_)));
    let (w, path, dir, action) = LocalWrite::begin(&uri("file:///"), opts).unwrap();
    assert_eq!(path, PathBuf::from("/"));
    assert_eq!(dir, None);
    assert!(matches!(action, WriteAction::Finish));
    assert_eq!(w.finish().unwrap_err().code(), "invalid_uri");
    let (from, to) = (uri("file:///a"), uri("file:///b/c"));
    let (_, a, b, _) = LocalTransfer::rename(&from, &to, true).unwrap();
    assert_eq!((a, b), (PathBuf::from("/a"), PathBuf::from("/b/c")));
    let (_, a, b, _) = LocalTransfer::copy_within(&from, &to, true).unwrap();
    assert_eq!((a, b), (PathBuf::from("/a"), PathBuf::from("/b/c")));
    let (call, path) = LocalCall::begin(&to).unwrap();
    assert_eq!(path, PathBuf::from("/b/c"));
    assert_eq!(call.stat(Ok(meta(false, 9))).unwrap().size, 9);
    let (call, _) = LocalCall::begin(&to).unwrap();
    let gone = call.done(Err(failure(IoKind::NotFound))).unwrap_err();
    assert_eq!(gone.to_string(), "not found: file:///b/c");
}

#[test]
fn local_operations_refuse_other_uris() {
    let (here, far, other) = (uri("file:///a"), uri("mem://t/a"), uri("mem://t/b"));
    let refusal = |s: &str| {
        format!("invalid uri: cannot convert non-file uri to a local path: {s}")
    };
    let write = LocalWrite::begin(&far, write_opts(true, false)).unwrap_err();
    assert_eq!(write.to_string(), refusal("mem://t/a"));
    let rename = LocalTransfer::rename(&far, &other, true).unwrap_err();
    assert_eq!(rename.to_string(), refusal("mem://t/a"));
    let copy = LocalTransfer::copy_within(&here, &other, true).unwrap_err();
    assert_eq!(copy.to_string(), refusal("mem://t/b"));
    assert_eq!(LocalCall::begin(&far).unwrap_err().to_string(), refusal("mem://t/a"));
}
