use atomo_vfs::paths::PathPart;
use atomo_vfs::uri::is_drive_letter;
use atomo_vfs::{VfsError, VfsUri};

fn uri(s: &str) -> VfsUri {
    VfsUri::parse(s).unwrap()
}

#[test]
fn parse_display_round_trip() {
    let cases = ["file:///Users/x/doc.md", "mem://test/a/b", "file:///"];
    for c in cases {
        let uri = VfsUri::parse(c).unwrap();
        assert_eq!(uri.to_string(), c);
    }
}

#[test]
fn scheme_is_case_folded() {
    let uri = VfsUri::parse("FILE:///a").unwrap();
    assert_eq!(uri.scheme(), "file");
}

#[test]
fn rejects_bad_scheme() {
    assert!(VfsUri::parse("1file:///a").is_err());
    assert!(VfsUri::parse("://a").is_err());
    assert!(VfsUri::parse("fi le:///a").is_err());
}

#[test]
fn percent_encodes_special_and_unicode_segments() {
    let uri = VfsUri::parse("file:///").unwrap().join("a b#c%d").unwrap();
    assert_eq!(uri.to_string(), "file:///a%20b%23c%25d");

    let uri = VfsUri::parse("file:///").unwrap().join("café").unwrap();
    assert_eq!(uri.to_string(), "file:///caf%C3%A9");
    assert_eq!(uri.name(), Some("café"));
}

#[test]
fn rejects_dot_segments_and_empty_segments() {
    assert!(VfsUri::parse("file:///a/../b").is_err());
    assert!(VfsUri::parse("file:///a/./b").is_err());
    assert!(VfsUri::parse("file:///a//b").is_err());
}

#[test]
fn join_rejects_slash_and_dotdot() {
    let root = VfsUri::parse("file:///a").unwrap();
    assert!(root.join("b/c").is_err());
    assert!(root.join("..").is_err());
    assert!(root.join("").is_err());
}

#[test]
fn parent_at_root_is_none() {
    let root = VfsUri::parse("file:///").unwrap();
    assert!(root.parent().is_none());
    let one = VfsUri::parse("file:///a").unwrap();
    assert_eq!(one.parent().unwrap().to_string(), "file:///");
}

#[test]
fn is_ancestor_of_is_segment_wise() {
    let a_b = VfsUri::parse("file:///a/b").unwrap();
    let a_b_c = VfsUri::parse("file:///a/b/c").unwrap();
    let a_bc = VfsUri::parse("file:///a/bc").unwrap();
    assert!(a_b.is_ancestor_of(&a_b_c));
    assert!(!a_b.is_ancestor_of(&a_bc));
    assert!(!a_b.is_ancestor_of(&a_b));
}

#[test]
fn windows_drive_letter_round_trip() {
    let uri = VfsUri::parse("file:///C:/Users/x").unwrap();
    assert_eq!(uri.to_string(), "file:///C:/Users/x");
    assert_eq!(uri.segments(), vec!["C:", "Users", "x"]);
}

#[test]
fn windows_local_path_round_trip() {
    let parts = vec![
        PathPart::Disk(b'C'),
        PathPart::RootDir,
        PathPart::Normal("Users".to_string()),
        PathPart::Normal("x".to_string()),
        PathPart::Normal("doc.md".to_string()),
    ];
    let uri = VfsUri::from_path_parts(&parts).unwrap();
    assert_eq!(uri.to_string(), "file:///C:/Users/x/doc.md");
    let pieces = uri.local_pieces().unwrap();
    assert_eq!(pieces, vec!["C:\\", "Users", "x", "doc.md"]);
    let path = format!("{}{}", pieces[0], pieces[1..].join("\\"));
    assert_eq!(path, "C:\\Users\\x\\doc.md");
}

#[test]
fn verbatim_drives_lose_their_marker() {
    let parts = vec![
        PathPart::VerbatimDisk(b'D'),
        PathPart::RootDir,
        PathPart::Normal("x".to_string()),
    ];
    let uri = VfsUri::from_path_parts(&parts).unwrap();
    assert_eq!(uri.to_string(), "file:///D:/x");
    assert_eq!(uri.local_pieces().unwrap(), vec!["D:\\", "x"]);
}

#[test]
fn unix_local_path_round_trip() {
    let path = std::path::PathBuf::from("/Users/x/doc.md");
    let uri = VfsUri::from_local_path(&path).unwrap();
    assert_eq!(uri.to_string(), "file:///Users/x/doc.md");
    assert_eq!(uri.to_local_path().unwrap(), path);
}

#[test]
fn parse_names_its_faults() {
    let message = |s: &str| VfsUri::parse(s).unwrap_err().to_string();
    assert_eq!(message("no separator"), "invalid uri: missing scheme separator: no separator");
    assert_eq!(message("://a"), "invalid uri: empty scheme");
    assert_eq!(message("1file:///a"), "invalid uri: invalid scheme: 1file");
    assert_eq!(message("file:///a//b"), "invalid uri: empty path segment");
    assert_eq!(
        message("file:///a/../b"),
        "invalid uri: path traversal segment not allowed: .."
    );
    assert_eq!(
        message("file:///%FF"),
        "invalid uri: invalid percent-encoding in segment: %FF"
    );
}

#[test]
fn parse_takes_the_text_apart() {
    let u = uri("MEM+x-1://host:80/a%20b/c/");
    assert_eq!(u.scheme(), "mem+x-1");
    assert_eq!(u.authority(), "host:80");
    assert_eq!(u.segments(), vec!["a b", "c"]);
    assert_eq!(u.path(), "/a b/c");
    assert_eq!(u.to_string(), "mem+x-1://host:80/a%20b/c");
    assert_eq!(uri("mem://test").to_string(), "mem://test/");
    assert_eq!(uri("mem://test///").to_string(), "mem://test/");
}

#[test]
fn a_percent_sign_without_digits_is_kept() {
    let u = uri("mem:///100%/%zz");
    assert_eq!(u.segments(), vec!["100%", "%zz"]);
    assert_eq!(u.to_string(), "mem:///100%25/%25zz");
}

#[test]
fn decoded_dots_do_not_round_trip() {
    let u = uri("mem://t/%2E%2E");
    assert_eq!(u.segments(), vec![".."]);
    assert_eq!(u.to_string(), "mem://t/..");
    assert!(VfsUri::parse(&u.to_string()).is_err());
}

#[test]
fn every_plain_uri_reads_back() {
    for s in ["mem://t/%C3%A9/a%2Fb/~x_y-z", "file:///C:/x%25y", "a+b://q/1"] {
        let u = uri(s);
        assert_eq!(VfsUri::parse(&u.to_string()).unwrap(), u);
    }
}

#[test]
fn join_names_its_faults() {
    let root = uri("mem://t/");
    assert_eq!(
        root.join("b/c").unwrap_err().to_string(),
        "invalid uri: segment may not contain '/': b/c"
    );
    assert_eq!(root.join(".").unwrap_err().code(), "invalid_uri");
    assert_eq!(root.join("..").unwrap_err().code(), "invalid_uri");
    assert_eq!(root.join("...").unwrap().to_string(), "mem://t/...");
}

#[test]
fn join_and_parent_undo_each_other() {
    let dir = uri("mem://t/a");
    let child = dir.join("b c").unwrap();
    assert_eq!(child.parent().unwrap(), dir);
    assert_eq!(child.name(), Some("b c"));
    assert!(dir.is_ancestor_of(&child));
}

#[test]
fn with_name_replaces_the_last_segment() {
    assert_eq!(uri("mem://t/a/b").with_name("c").unwrap(), uri("mem://t/a/c"));
    assert_eq!(uri("mem://t/").with_name("c").unwrap(), uri("mem://t/c"));
    assert!(uri("mem://t/a").with_name("..").is_err());
}

#[test]
fn ancestors_share_scheme_and_authority() {
    let dir = uri("mem://t/a");
    assert!(!dir.is_ancestor_of(&uri("mem://u/a/b")));
    assert!(!dir.is_ancestor_of(&uri("file://t/a/b")));
    assert!(uri("mem://t/").is_ancestor_of(&uri("mem://t/a/b")));
    assert!(dir.same_place(&uri("mem://t/z")));
    assert!(!dir.same_place(&uri("mem://u/z")));
}

#[test]
fn local_paths_have_no_place_for_dots() {
    let up = std::path::Path::new("/a/../b");
    assert_eq!(
        VfsUri::from_local_path(up).unwrap_err().to_string(),
        "invalid uri: local path contains '..'"
    );
    let here = std::path::Path::new("/a/./b");
    assert_eq!(VfsUri::from_local_path(here).unwrap(), uri("file:///a/b"));
    let parts = vec![PathPart::OtherPrefix, PathPart::NotUnicode];
    assert_eq!(
        VfsUri::from_path_parts(&parts).unwrap_err().to_string(),
        "invalid uri: local path is not valid UTF-8"
    );
}

#[test]
fn only_file_uris_have_a_local_path() {
    assert_eq!(
        uri("mem://t/a").to_local_path().unwrap_err().to_string(),
        "invalid uri: cannot convert non-file uri to a local path: mem://t/a"
    );
    assert_eq!(
        uri("file:///").to_local_path().unwrap(),
        std::path::PathBuf::from("/")
    );
}

#[test]
fn drive_letters() {
    assert!(is_drive_letter("C:"));
    assert!(is_drive_letter("z:"));
    assert!(!is_drive_letter("C"));
    assert!(!is_drive_letter("1:"));
    assert!(!is_drive_letter("CC:"));
}

#[test]
fn relocation_keeps_the_suffix() {
    let u = uri("mem://t/a/b/c");
    assert_eq!(u.relocate(1, &uri("file:///x")).unwrap(), uri("file:///x/b/c"));
    assert_eq!(u.relocate(3, &uri("file:///x")).unwrap(), uri("file:///x"));
    assert_eq!(u.relocate(9, &uri("file:///x")).unwrap(), uri("file:///x"));
    assert!(uri("mem://t/a/b%2Fc").relocate(1, &uri("file:///x")).is_err());
}

#[test]
fn clones_are_equal() {
    let u = uri("mem://t/a");
    assert_eq!(u.clone(), u);
    assert_ne!(u, uri("mem://t/b"));
    assert!(matches!(VfsUri::parse("x"), Err(VfsError::InvalidUri(_))));
}

#[test]
fn uris_can_be_keys() {
    let mut ordered = std::collections::BTreeSet::new();
    let mut hashed = std::collections::HashSet::new();
    for s in ["mem://t/b", "mem://t/a/z", "file:///x", "mem://t/b"] {
        ordered.insert(uri(s));
        hashed.insert(uri(s));
    }
    assert_eq!(hashed.len(), 3);
    let texts: Vec<String> = ordered.iter().map(|u| u.to_string()).collect();
    assert_eq!(texts, vec!["file:///x", "mem://t/a/z", "mem://t/b"]);
}

#[test]
fn uris_are_cut_to_a_depth() {
    let u = VfsUri::parse("mem://t/a/b/c").unwrap();
    assert_eq!(u.cut(2).to_string(), "mem://t/a/b");
    assert_eq!(u.cut(0).to_string(), "mem://t/");
    assert_eq!(u.cut(3), u);
    assert_eq!(u.cut(9), u);
}

#[test]
fn local_uris_round_trip() {
    for s in ["file:///", "file:///a", "file:///home/x/a%20b/c.md", "file:///a:b/c"] {
        let u = VfsUri::parse(s).unwrap();
        let path = u.to_local_path().unwrap();
        assert_eq!(VfsUri::from_local_path(&path).unwrap(), u);
    }
    for p in ["/", "/a/b", "/a//b/./c/"] {
        let path = std::path::PathBuf::from(p);
        let u = VfsUri::from_local_path(&path).unwrap();
        assert_eq!(u.to_local_path().unwrap(), path);
    }
}
