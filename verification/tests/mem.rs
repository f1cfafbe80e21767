use atomo_vfs::mem::{dir_entry, MemProvider};
use atomo_vfs::tree::Node;
use atomo_vfs::types::{
    CopyOpts, DeleteOpts, FileType, FsEventKind, ListOpts, WriteOpts,
};
use atomo_vfs::VfsUri;

fn uri(s: &str) -> VfsUri {
    VfsUri::parse(s).unwrap()
}

fn put(p: &mut MemProvider, s: &str, data: &[u8]) {
    let opts = WriteOpts { overwrite: true, create_parents: true };
    p.write(&uri(s), data.to_vec(), opts, 1).unwrap();
}

fn names(p: &MemProvider, s: &str, include_hidden: bool) -> Vec<String> {
    let entries = p.list(&uri(s), ListOpts { include_hidden }).unwrap();
    let mut names: Vec<String> = entries.into_iter().map(|e| e.name).collect();
    names.sort();
    names
}

fn bytes(p: &MemProvider, s: &str) -> Vec<u8> {
    p.read(&uri(s), None, false).unwrap()
}

#[test]
fn a_read_gives_back_what_a_write_wrote() {
    let mut p = MemProvider::new();
    let notice = p.write(&uri("mem://t/a"), vec![1, 2, 3], WriteOpts::default(), 42).unwrap();
    assert_eq!(notice.event.kind, FsEventKind::Created);
    assert_eq!(bytes(&p, "mem://t/a"), vec![1, 2, 3]);
    let stat = p.stat(&uri("mem://t/a")).unwrap();
    assert_eq!(stat.file_type, FileType::File);
    assert_eq!(stat.size, 3);
    assert_eq!(stat.modified_ms, Some(42));
    assert_eq!(stat.created_ms, Some(42));
    assert!(!stat.readonly);
}

#[test]
fn reads_of_a_range_are_clamped() {
    let mut p = MemProvider::new();
    put(&mut p, "mem://t/a", &[0, 1, 2, 3, 4]);
    let read = |s: u64, e: u64| p.read(&uri("mem://t/a"), Some((s, e)), false).unwrap();
    assert_eq!(read(1, 3), vec![1, 2]);
    assert_eq!(read(3, 99), vec![3, 4]);
    assert_eq!(read(9, 99), Vec::<u8>::new());
    assert_eq!(read(3, 1), Vec::<u8>::new());
    let mut joined = read(0, 2);
    joined.extend(read(2, 5));
    assert_eq!(joined, read(0, 5));
}

#[test]
fn reads_name_their_faults() {
    let mut p = MemProvider::new();
    p.mkdir(&uri("mem://t/d"), 1).unwrap();
    let code = |s: &str, c: bool| p.read(&uri(s), None, c).unwrap_err().code();
    assert_eq!(code("mem://t/d", false), "is_a_directory");
    assert_eq!(code("mem://t/x", false), "not_found");
    assert_eq!(code("mem://t/d", true), "cancelled");
}

#[test]
fn writes_name_their_faults() {
    let mut p = MemProvider::new();
    p.mkdir(&uri("mem://t/d"), 1).unwrap();
    put(&mut p, "mem://t/f", b"old");
    let mut write = |s: &str, overwrite: bool, create_parents: bool| {
        p.write(&uri(s), b"new".to_vec(), WriteOpts { overwrite, create_parents }, 2)
    };
    assert_eq!(write("mem://t/d", true, true).unwrap_err().code(), "is_a_directory");
    assert_eq!(write("mem://t/f", false, true).unwrap_err().code(), "already_exists");
    let missing = write("mem://t/q/x", true, false).unwrap_err();
    assert_eq!(missing.to_string(), "not found: mem://t/q");
    let changed = write("mem://t/f", true, false).unwrap();
    assert_eq!(changed.event.kind, FsEventKind::Modified);
    assert_eq!(bytes(&p, "mem://t/f"), b"new".to_vec());
}

#[test]
fn a_write_makes_the_directory_above_it() {
    let mut p = MemProvider::new();
    let opts = WriteOpts { overwrite: false, create_parents: true };
    p.write(&uri("mem://t/a/b/c"), vec![], opts, 7).unwrap();
    assert_eq!(p.stat(&uri("mem://t/a/b")).unwrap().file_type, FileType::Directory);
    assert_eq!(p.stat(&uri("mem://t/a")).unwrap_err().code(), "not_found");
}

#[test]
fn directories_are_made_once() {
    let mut p = MemProvider::default();
    let notice = p.mkdir(&uri("mem://t/d"), 5).unwrap();
    assert_eq!(notice.event.kind, FsEventKind::Created);
    assert_eq!(p.stat(&uri("mem://t/d")).unwrap().file_type, FileType::Directory);
    assert_eq!(p.stat(&uri("mem://t/d")).unwrap().size, 0);
    assert_eq!(p.mkdir(&uri("mem://t/d"), 6).unwrap_err().code(), "already_exists");
    assert_eq!(
        p.mkdir(&uri("mem://t/x/y"), 6).unwrap_err().to_string(),
        "not found: mem://t/x"
    );
    assert!(p.mkdir(&uri("mem://t/d/e"), 6).is_ok());
}

#[test]
fn listings_show_direct_entries_only() {
    let mut p = MemProvider::new();
    put(&mut p, "mem://t/d/a.txt", b"12");
    put(&mut p, "mem://t/d/.hidden", b"");
    put(&mut p, "mem://t/d/e/deep", b"");
    assert_eq!(names(&p, "mem://t/d", false), vec!["a.txt", "e"]);
    assert_eq!(names(&p, "mem://t/d", true), vec![".hidden", "a.txt", "e"]);
    assert_eq!(names(&p, "mem://t/", true), vec!["d"]);
    assert_eq!(names(&p, "mem://u/", true), Vec::<String>::new());
    let list = |s: &str| p.list(&uri(s), ListOpts::default());
    assert_eq!(list("mem://t/d/a.txt").unwrap_err().code(), "not_a_directory");
    assert_eq!(list("mem://t/x").unwrap_err().code(), "not_found");
    for e in list("mem://t/d").unwrap() {
        if e.name == "a.txt" {
            assert_eq!(e.mime, Some("text/plain".to_string()));
            assert_eq!(e.size, 2);
            assert_eq!(e.uri, uri("mem://t/d/a.txt"));
        } else {
            assert_eq!(e.mime, None);
            assert_eq!(e.file_type, FileType::Directory);
        }
    }
}

#[test]
fn entries_take_their_name_from_their_uri() {
    let file = Node::File { data: vec![1, 2], modified_ms: 3 };
    let e = dir_entry(&uri("mem://t/.x"), &file, Some("a/b".to_string()));
    assert_eq!(e.name, ".x");
    assert!(e.hidden);
    assert_eq!(e.mime, Some("a/b".to_string()));
    let d = dir_entry(&uri("mem://t/"), &Node::Dir { modified_ms: 3 }, Some("a/b".to_string()));
    assert_eq!(d.name, "");
    assert_eq!(d.mime, None);
}

#[test]
fn deletions_take_what_is_below() {
    let mut p = MemProvider::new();
    put(&mut p, "mem://t/d/a", b"");
    put(&mut p, "mem://t/dd", b"");
    let d = uri("mem://t/d");
    let plain = DeleteOpts::default();
    let deep = DeleteOpts { recursive: true, use_trash: false };
    assert_eq!(p.delete(&d, plain).unwrap_err().code(), "directory_not_empty");
    assert!(p.stat(&uri("mem://t/d/a")).is_ok());
    let notice = p.delete(&d, deep).unwrap();
    assert_eq!(notice.event.kind, FsEventKind::Removed);
    assert_eq!(p.stat(&d).unwrap_err().code(), "not_found");
    assert_eq!(p.stat(&uri("mem://t/d/a")).unwrap_err().code(), "not_found");
    assert!(p.stat(&uri("mem://t/dd")).is_ok());
    assert_eq!(p.delete(&d, deep).unwrap_err().code(), "not_found");
    p.mkdir(&d, 1).unwrap();
    assert!(p.delete(&d, plain).is_ok());
    assert!(p.delete(&uri("mem://t/dd"), plain).is_ok());
}

#[test]
fn renames_move_the_whole_tree() {
    let mut p = MemProvider::new();
    put(&mut p, "mem://t/a/x/y", b"1");
    put(&mut p, "mem://t/a/z", b"2");
    let notice = p.rename(&uri("mem://t/a"), &uri("mem://t/b"), false).unwrap();
    assert_eq!(notice.event.kind, FsEventKind::Renamed);
    assert_eq!(notice.event.renamed_to, Some(uri("mem://t/b")));
    assert_eq!(bytes(&p, "mem://t/b/x/y"), b"1".to_vec());
    assert_eq!(bytes(&p, "mem://t/b/z"), b"2".to_vec());
    assert!(p.stat(&uri("mem://t/a")).is_err());
    assert!(p.stat(&uri("mem://t/a/x/y")).is_err());
}

#[test]
fn renames_name_their_faults() {
    let mut p = MemProvider::new();
    put(&mut p, "mem://t/a", b"1");
    put(&mut p, "mem://t/b", b"2");
    let (a, b, x) = (uri("mem://t/a"), uri("mem://t/b"), uri("mem://t/x"));
    assert_eq!(p.rename(&x, &b, false).unwrap_err().to_string(), "not found: mem://t/x");
    assert_eq!(p.rename(&a, &b, false).unwrap_err().to_string(), "already exists: mem://t/b");
    assert_eq!(bytes(&p, "mem://t/b"), b"2".to_vec());
    p.rename(&a, &b, true).unwrap();
    assert_eq!(bytes(&p, "mem://t/b"), b"1".to_vec());
}

#[test]
fn a_segment_that_cannot_be_joined_stops_a_rename() {
    let mut p = MemProvider::new();
    p.mkdir(&uri("mem://t/a"), 1).unwrap();
    put(&mut p, "mem://t/a/b%2Fc", b"1");
    let failed = p.rename(&uri("mem://t/a"), &uri("mem://t/z"), false).unwrap_err();
    assert_eq!(failed.code(), "invalid_uri");
    assert!(p.stat(&uri("mem://t/a/b%2Fc")).is_err());
}

#[test]
fn copies_keep_the_source() {
    let mut p = MemProvider::new();
    p.mkdir(&uri("mem://t/a"), 9).unwrap();
    put(&mut p, "mem://t/a/x", b"1");
    let (a, b) = (uri("mem://t/a"), uri("mem://t/b"));
    let notice = p.copy_within(&a, &b, CopyOpts::default()).unwrap();
    assert_eq!(notice.event.kind, FsEventKind::Created);
    assert_eq!(notice.event.uri, b);
    assert_eq!(bytes(&p, "mem://t/a/x"), b"1".to_vec());
    assert_eq!(bytes(&p, "mem://t/b/x"), b"1".to_vec());
    assert_eq!(p.stat(&b).unwrap().modified_ms, Some(9));
    assert_eq!(p.copy_within(&a, &b, CopyOpts::default()).unwrap_err().code(), "already_exists");
    assert!(p.copy_within(&a, &b, CopyOpts { overwrite: true }).is_ok());
    let gone = uri("mem://t/q");
    assert_eq!(p.copy_within(&gone, &b, CopyOpts::default()).unwrap_err().code(), "not_found");
}

#[test]
fn a_copy_that_fails_changes_nothing() {
    let mut p = MemProvider::new();
    p.mkdir(&uri("mem://t/a"), 1).unwrap();
    put(&mut p, "mem://t/a/b%2Fc", b"1");
    let failed = p.copy_within(&uri("mem://t/a"), &uri("mem://t/z"), CopyOpts::default());
    assert_eq!(failed.unwrap_err().code(), "invalid_uri");
    assert!(p.stat(&uri("mem://t/z")).is_err());
    assert_eq!(bytes(&p, "mem://t/a/b%2Fc"), b"1".to_vec());
}

#[test]
fn a_directory_can_be_copied_into_itself() {
    let mut p = MemProvider::new();
    p.mkdir(&uri("mem://t/a"), 1).unwrap();
    put(&mut p, "mem://t/a/x", b"1");
    p.copy_within(&uri("mem://t/a"), &uri("mem://t/a/b"), CopyOpts::default()).unwrap();
    assert_eq!(bytes(&p, "mem://t/a/b/x"), b"1".to_vec());
    assert!(p.stat(&uri("mem://t/a/b/b")).is_err());
}

#[test]
fn watches_hear_of_their_part() {
    let mut p = MemProvider::new();
    let flat = p.watch(&uri("mem://t/d"), false);
    let deep = p.watch(&uri("mem://t/d"), true);
    assert_ne!(flat, deep);
    let mut heard = |s: &str| {
        let opts = WriteOpts { overwrite: true, create_parents: true };
        p.write(&uri(s), vec![], opts, 1).unwrap().watchers
    };
    assert_eq!(heard("mem://t/d/a"), vec![flat, deep]);
    assert_eq!(heard("mem://t/d/e/f"), vec![deep]);
    assert_eq!(heard("mem://t/x"), Vec::<u64>::new());
    p.unwatch(flat);
    let gone = p.delete(&uri("mem://t/d/a"), DeleteOpts::default()).unwrap();
    assert_eq!(gone.watchers, vec![deep]);
    p.unwatch(deep);
    assert_eq!(p.mkdir(&uri("mem://t/d/z"), 1).unwrap().watchers, Vec::<u64>::new());
}

#[test]
fn the_top_is_always_there() {
    let p = MemProvider::new();
    let stat = p.stat(&uri("mem://t/")).unwrap();
    assert_eq!(stat.file_type, FileType::Directory);
    assert_eq!(stat.modified_ms, None);
    assert_eq!(p.scheme(), "mem");
    let caps = p.caps();
    assert!(caps.copy_within && caps.watch && caps.case_sensitive && !caps.trash);
}
