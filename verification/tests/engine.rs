use atomo_vfs::copy::bulk_target;
use atomo_vfs::engine::{finish_mkdir, finish_rename, finish_write, VfsEngine};
use atomo_vfs::mem::MemProvider;
use atomo_vfs::ops::Tally;
use atomo_vfs::provider::{
    default_copy_within, default_watch, Action, Effect, ProviderCall, Reply, Request,
};
use atomo_vfs::types::{
    CopyOpts, DeleteOpts, DirEntry, FileType, FsEvent, FsEventKind, ListOpts, PerSourceResult, Stat,
    WriteOpts,
};
use atomo_vfs::{VfsError, VfsUri};

fn uri(s: &str) -> VfsUri {
    VfsUri::parse(s).unwrap()
}

/// Providers in memory, with the stream that is held between a read and a
/// write, and the calls that were made.
struct World {
    engine: VfsEngine<&'static str>,
    mems: Vec<MemProvider>,
    held: Vec<u8>,
    within: bool,
    calls: Vec<String>,
    told: Vec<Effect>,
}

impl World {
    fn new() -> World {
        let mut engine = VfsEngine::new();
        engine.register_provider("mem", "first");
        engine.register_provider("far", "second");
        World {
            engine,
            mems: vec![MemProvider::new(), MemProvider::new()],
            held: Vec::new(),
            within: false,
            calls: Vec::new(),
            told: Vec::new(),
        }
    }

    fn put(&mut self, s: &str, data: &[u8]) {
        let u = uri(s);
        let place = self.engine.provider_for(&u).unwrap();
        let opts = WriteOpts { overwrite: true, create_parents: true };
        self.mems[place].write(&u, data.to_vec(), opts, 1).unwrap();
    }

    fn dir(&mut self, s: &str) {
        let u = uri(s);
        let place = self.engine.provider_for(&u).unwrap();
        self.mems[place].mkdir(&u, 1).unwrap();
    }

    fn bytes(&self, s: &str) -> Option<Vec<u8>> {
        let u = uri(s);
        let place = self.engine.provider_for(&u).unwrap();
        self.mems[place].read(&u, None, false).ok()
    }

    fn there(&self, s: &str) -> bool {
        let u = uri(s);
        let place = self.engine.provider_for(&u).unwrap();
        self.mems[place].stat(&u).is_ok()
    }

    fn perform(&mut self, call: ProviderCall) -> Reply {
        let mem = &mut self.mems[call.provider];
        match call.request {
            Request::Caps => {
                let mut caps = mem.caps();
                caps.copy_within = self.within;
                Reply::Caps(caps)
            }
            Request::Stat(u) => {
                self.calls.push(format!("stat {}", u.to_string()));
                Reply::Stat(mem.stat(&u))
            }
            Request::List(u, opts) => {
                self.calls.push(format!("list {}", u.to_string()));
                let mut entries = mem.list(&u, opts);
                if let Ok(e) = &mut entries {
                    e.sort_by(|a, b| a.name.cmp(&b.name));
                }
                Reply::List(entries)
            }
            Request::Mkdir(u) => {
                self.calls.push(format!("mkdir {}", u.to_string()));
                Reply::Unit(mem.mkdir(&u, 2).map(|_| ()))
            }
            Request::Delete(u, opts) => {
                self.calls.push(format!("delete {}", u.to_string()));
                Reply::Unit(mem.delete(&u, opts).map(|_| ()))
            }
            Request::Rename { from, to, overwrite } => {
                self.calls.push(format!("rename {}", from.to_string()));
                Reply::Unit(mem.rename(&from, &to, overwrite).map(|_| ()))
            }
            Request::CopyWithin { from, to, opts } => {
                self.calls.push(format!("copy {}", from.to_string()));
                Reply::Unit(mem.copy_within(&from, &to, opts).map(|_| ()))
            }
            Request::Read(u) => {
                self.calls.push(format!("read {}", u.to_string()));
                match mem.read(&u, None, false) {
                    Ok(b) => {
                        self.held = b;
                        Reply::Unit(Ok(()))
                    }
                    Err(e) => Reply::Unit(Err(e)),
                }
            }
            Request::Write(u, opts) => {
                self.calls.push(format!("write {}", u.to_string()));
                let data = std::mem::take(&mut self.held);
                Reply::Unit(mem.write(&u, data, opts, 3).map(|_| ()))
            }
        }
    }

    fn copy(&mut self, sources: Vec<&str>, dest: &str, overwrite: bool) -> Vec<PerSourceResult> {
        let sources = sources.into_iter().map(uri).collect();
        let mut session = self.engine.copy(sources, uri(dest), CopyOpts { overwrite });
        loop {
            match session.advance(&self.engine, false) {
                Action::Call(call) => {
                    let reply = self.perform(call);
                    assert!(session.can_take(&reply));
                    self.told.extend(session.resume(reply));
                }
                Action::Again => {}
                Action::Done => return session.finish(),
            }
        }
    }

    fn move_(&mut self, sources: Vec<&str>, dest: &str, overwrite: bool) -> Vec<PerSourceResult> {
        let sources = sources.into_iter().map(uri).collect();
        let mut session = self.engine.move_(sources, uri(dest), CopyOpts { overwrite });
        loop {
            match session.advance(&self.engine, false) {
                Action::Call(call) => {
                    let reply = self.perform(call);
                    assert!(session.can_take(&reply));
                    self.told.extend(session.resume(reply));
                }
                Action::Again => {}
                Action::Done => return session.finish(),
            }
        }
    }

    fn events(&self) -> Vec<(FsEventKind, String)> {
        let mut out = Vec::new();
        for e in &self.told {
            if let Effect::Event(e) = e {
                out.push((e.kind, e.uri.to_string()));
            }
        }
        out
    }

    fn last_tally(&self) -> Tally {
        let mut last = None;
        for e in &self.told {
            if let Effect::Progress(t, _) = e {
                last = Some(*t);
            }
        }
        last.unwrap()
    }
}

fn codes(results: &[PerSourceResult]) -> Vec<(String, &'static str)> {
    results
        .iter()
        .map(|r| {
            let code = match &r.error {
                Some(e) => e.code(),
                None => "ok",
            };
            assert_eq!(r.ok, r.error.is_none());
            (r.source.to_string(), code)
        })
        .collect()
}

#[test]
fn providers_are_found_by_scheme() {
    let mut engine = VfsEngine::new();
    assert_eq!(
        engine.provider_for(&uri("mem://t/a")).unwrap_err().to_string(),
        "no provider for scheme: mem"
    );
    assert_eq!(engine.register_provider("mem", 'a'), 0);
    assert_eq!(engine.register_provider("file", 'b'), 1);
    assert_eq!(engine.provider(engine.provider_for(&uri("file:///x")).unwrap()), Some(&'b'));
    assert_eq!(engine.provider(0), Some(&'a'));
    assert_eq!(engine.register_provider("mem", 'c'), 2);
    assert_eq!(engine.provider(engine.provider_for(&uri("mem://t/a")).unwrap()), Some(&'c'));
    assert_eq!(engine.provider(0), None);
    assert_eq!(engine.provider(1), Some(&'b'));
    assert_eq!(engine.places(), 3);
    assert_eq!(engine.provider(3), None);
}

#[test]
fn a_provider_that_is_replaced_is_dropped() {
    let first = std::rc::Rc::new(());
    let mut engine = VfsEngine::new();
    engine.register_provider("mem", first.clone());
    engine.register_provider("file", std::rc::Rc::new(()));
    assert_eq!(std::rc::Rc::strong_count(&first), 2);
    engine.register_provider("mem", std::rc::Rc::new(()));
    assert_eq!(std::rc::Rc::strong_count(&first), 1);
}

#[test]
fn single_operations_name_their_call() {
    let world = World::new();
    let e = &world.engine;
    let a = uri("far://t/a");
    assert!(matches!(e.stat(&a), Ok(ProviderCall { provider: 1, request: Request::Stat(_) })));
    assert!(matches!(
        e.list(&a, ListOpts::default()),
        Ok(ProviderCall { provider: 1, request: Request::List(_, _) })
    ));
    assert!(matches!(e.mkdir(&a), Ok(ProviderCall { provider: 1, request: Request::Mkdir(_) })));
    let (look, write) = e.write_bytes(&a, WriteOpts::default()).unwrap();
    assert!(matches!(look.request, Request::Stat(_)));
    assert!(matches!(write.request, Request::Write(_, _)));
    assert!(e.rename(&a, &uri("far://t/b"), true).is_ok());
    for to in ["mem://t/b", "far://u/b"] {
        assert_eq!(
            e.rename(&a, &uri(to), true).unwrap_err().to_string(),
            "not supported: cross-provider rename"
        );
    }
    assert_eq!(e.stat(&uri("x://t/a")).unwrap_err().code(), "no_provider");
    assert_eq!(e.write_bytes(&uri("x://t/a"), WriteOpts::default()).unwrap_err().code(), "no_provider");
}

#[test]
fn single_operations_tell_their_event() {
    let a = uri("mem://t/a");
    let made = finish_mkdir(&a, Ok(())).unwrap();
    assert_eq!(made, FsEvent::of(FsEventKind::Created, &a));
    assert_eq!(finish_mkdir(&a, Err(VfsError::Cancelled)).unwrap_err().code(), "cancelled");
    assert_eq!(finish_write(&a, false, Ok(())).unwrap().kind, FsEventKind::Created);
    assert_eq!(finish_write(&a, true, Ok(())).unwrap().kind, FsEventKind::Modified);
    assert!(finish_write(&a, true, Err(VfsError::Cancelled)).is_err());
    let b = uri("mem://t/b");
    let moved = finish_rename(&a, &b, Ok(())).unwrap();
    assert_eq!(moved, FsEvent::renamed(&a, &b));
    assert!(finish_rename(&a, &b, Err(VfsError::Cancelled)).is_err());
}

#[test]
fn defaults_of_a_provider_are_not_supported() {
    assert_eq!(default_copy_within().unwrap_err().to_string(), "not supported: copyWithin");
    assert_eq!(default_watch().unwrap_err().to_string(), "not supported: watch");
}

#[test]
fn deletions_tell_every_uri_in_order() {
    let mut world = World::new();
    world.put("mem://t/a", b"1");
    world.put("mem://t/b", b"1");
    let uris = vec![uri("mem://t/a"), uri("mem://t/x"), uri("none://t/a"), uri("mem://t/b")];
    let mut session = world.engine.delete_many(uris, DeleteOpts::default());
    let mut events = Vec::new();
    let mut asked = 0;
    loop {
        let cancelled = asked == 2;
        match session.advance(&world.engine, cancelled) {
            Action::Call(call) => {
                asked += 1;
                match world.perform(call) {
                    Reply::Unit(r) => events.extend(session.resume(r)),
                    other => panic!("unexpected {other:?}"),
                }
            }
            Action::Again => {}
            Action::Done => break,
        }
    }
    let results = session.finish();
    assert_eq!(
        codes(&results),
        vec![
            ("mem://t/a".to_string(), "ok"),
            ("mem://t/x".to_string(), "not_found"),
            ("none://t/a".to_string(), "cancelled"),
            ("mem://t/b".to_string(), "cancelled"),
        ]
    );
    assert_eq!(events, vec![FsEvent::of(FsEventKind::Removed, &uri("mem://t/a"))]);
    assert!(world.there("mem://t/b"));
}

#[test]
fn a_deletion_without_provider_is_told() {
    let world = World::new();
    let mut session = world.engine.delete_many(vec![uri("none://t/a")], DeleteOpts::default());
    assert!(matches!(session.advance(&world.engine, false), Action::Again));
    assert!(matches!(session.advance(&world.engine, false), Action::Done));
    assert_eq!(codes(&session.finish()), vec![("none://t/a".to_string(), "no_provider")]);
}

#[test]
fn targets_lie_in_the_directory() {
    let dir = uri("mem://t/d");
    assert_eq!(bulk_target(&dir, &uri("far://t/a"), "x ").unwrap(), uri("mem://t/d/a"));
    assert_eq!(
        bulk_target(&uri("mem://t/a/b"), &uri("mem://t/a"), "cannot copy ").unwrap_err().to_string(),
        "invalid target: cannot copy mem://t/a into itself"
    );
    assert_eq!(
        bulk_target(&uri("mem://t/"), &uri("mem://t/a"), "cannot move ").unwrap_err().to_string(),
        "invalid target: cannot move mem://t/a into itself"
    );
    assert_eq!(bulk_target(&dir, &uri("mem://t/"), "x ").unwrap_err().code(), "invalid_uri");
}

#[test]
fn a_copy_between_providers_makes_every_entry() {
    let mut world = World::new();
    world.dir("mem://t/src");
    world.dir("mem://t/src/sub");
    world.put("mem://t/src/.h", b"123");
    world.put("mem://t/src/sub/f", b"45");
    world.dir("far://u/to");
    let results = world.copy(vec!["mem://t/src"], "far://u/to", false);
    assert_eq!(codes(&results), vec![("mem://t/src".to_string(), "ok")]);
    assert_eq!(world.bytes("far://u/to/src/.h"), Some(b"123".to_vec()));
    assert_eq!(world.bytes("far://u/to/src/sub/f"), Some(b"45".to_vec()));
    assert_eq!(world.bytes("mem://t/src/.h"), Some(b"123".to_vec()));
    assert_eq!(
        world.calls,
        vec![
            "stat mem://t/src",
            "list mem://t/src",
            "stat mem://t/src/.h",
            "stat mem://t/src/sub",
            "list mem://t/src/sub",
            "stat mem://t/src/sub/f",
            "mkdir far://u/to/src",
            "stat far://u/to/src/.h",
            "read mem://t/src/.h",
            "write far://u/to/src/.h",
            "mkdir far://u/to/src/sub",
            "stat far://u/to/src/sub/f",
            "read mem://t/src/sub/f",
            "write far://u/to/src/sub/f",
        ]
    );
    assert_eq!(
        world.events(),
        vec![
            (FsEventKind::Created, "far://u/to/src".to_string()),
            (FsEventKind::Created, "far://u/to/src/.h".to_string()),
            (FsEventKind::Created, "far://u/to/src/sub".to_string()),
            (FsEventKind::Created, "far://u/to/src/sub/f".to_string()),
        ]
    );
    let tally = world.last_tally();
    assert_eq!(
        tally,
        Tally { done_bytes: 5, total_bytes: 5, done_files: 4, total_files: 4 }
    );
}

#[test]
fn a_copy_within_a_provider_is_one_call() {
    let mut world = World::new();
    world.within = true;
    world.put("mem://t/a", b"123");
    world.dir("mem://t/d");
    let results = world.copy(vec!["mem://t/a"], "mem://t/d", false);
    assert_eq!(codes(&results), vec![("mem://t/a".to_string(), "ok")]);
    assert_eq!(world.calls, vec!["stat mem://t/a", "copy mem://t/a"]);
    assert_eq!(world.bytes("mem://t/d/a"), Some(b"123".to_vec()));
    assert!(matches!(world.told[0], Effect::Progress(_, _)));
    assert_eq!(world.events(), vec![(FsEventKind::Created, "mem://t/d/a".to_string())]);
}

#[test]
fn a_copy_without_the_fast_path_is_streamed() {
    let mut world = World::new();
    world.put("mem://t/a", b"123");
    world.dir("mem://t/d");
    world.copy(vec!["mem://t/a"], "mem://t/d", true);
    assert_eq!(
        world.calls,
        vec!["stat mem://t/a", "read mem://t/a", "write mem://t/d/a"]
    );
}

#[test]
fn an_existing_file_is_not_overwritten() {
    let mut world = World::new();
    world.put("mem://t/a", b"new");
    world.put("far://u/d/a", b"old");
    let results = world.copy(vec!["mem://t/a"], "far://u/d", false);
    assert_eq!(
        results[0].error.as_ref().unwrap().to_string(),
        "already exists: far://u/d/a"
    );
    assert_eq!(world.bytes("far://u/d/a"), Some(b"old".to_vec()));
    let results = world.copy(vec!["mem://t/a"], "far://u/d", true);
    assert!(results[0].ok);
    assert_eq!(world.bytes("far://u/d/a"), Some(b"new".to_vec()));
}

#[test]
fn an_existing_directory_is_filled() {
    let mut world = World::new();
    world.dir("mem://t/a");
    world.put("mem://t/a/x", b"1");
    world.dir("far://u/d");
    world.dir("far://u/d/a");
    let results = world.copy(vec!["mem://t/a"], "far://u/d", false);
    assert!(results[0].ok);
    assert_eq!(world.events(), vec![(FsEventKind::Created, "far://u/d/a/x".to_string())]);
}

#[test]
fn sources_that_cannot_be_planned_are_told_first() {
    let mut world = World::new();
    world.put("mem://t/a", b"1");
    world.put("mem://t/b", b"2");
    world.dir("mem://t/b2");
    let results = world.copy(
        vec!["mem://t/a", "mem://t/gone", "none://t/x", "mem://t/", "mem://t/b"],
        "far://u/d",
        false,
    );
    assert_eq!(
        codes(&results),
        vec![
            ("mem://t/gone".to_string(), "not_found"),
            ("none://t/x".to_string(), "no_provider"),
            ("mem://t/".to_string(), "invalid_uri"),
            ("mem://t/a".to_string(), "ok"),
            ("mem://t/b".to_string(), "ok"),
        ]
    );
}

#[test]
fn a_cancelled_copy_stops_before_its_next_step() {
    let mut world = World::new();
    world.dir("mem://t/d");
    world.put("mem://t/d/a", b"1");
    let mut session =
        world.engine.copy(vec![uri("mem://t/d")], uri("far://u/z"), CopyOpts::default());
    assert!(matches!(session.advance(&world.engine, true), Action::Again));
    for _ in 0..2 {
        match session.advance(&world.engine, true) {
            Action::Call(call) => {
                let reply = world.perform(call);
                session.resume(reply);
            }
            other => panic!("unexpected {other:?}"),
        }
    }
    assert!(matches!(session.advance(&world.engine, true), Action::Again));
    assert!(matches!(session.advance(&world.engine, true), Action::Done));
    assert_eq!(codes(&session.finish()), vec![("mem://t/d".to_string(), "cancelled")]);
}

#[test]
fn totals_that_do_not_fit_are_seen() {
    let engine = World::new().engine;
    let mut session =
        engine.copy(vec![uri("mem://t/a"), uri("mem://t/b")], uri("far://u/"), CopyOpts::default());
    let stat = |size: u64| Stat {
        file_type: FileType::File,
        size,
        modified_ms: None,
        created_ms: None,
        readonly: false,
        symlink_target: None,
    };
    session.advance(&engine, false);
    session.advance(&engine, false);
    assert!(session.can_take(&Reply::Stat(Ok(stat(u64::MAX)))));
    session.resume(Reply::Stat(Ok(stat(u64::MAX))));
    session.advance(&engine, false);
    session.advance(&engine, false);
    session.advance(&engine, false);
    assert!(!session.can_take(&Reply::Stat(Ok(stat(1)))));
    assert!(session.can_take(&Reply::Stat(Ok(stat(0)))));
    assert!(session.can_take(&Reply::Stat(Err(VfsError::Cancelled))));
}

#[test]
fn a_move_within_a_provider_is_a_rename() {
    let mut world = World::new();
    world.put("mem://t/a", b"1");
    world.put("mem://t/b", b"2");
    world.dir("mem://t/d");
    world.put("mem://t/d/b", b"old");
    let results = world.move_(vec!["mem://t/a", "mem://t/b", "mem://t/d"], "mem://t/d", false);
    assert_eq!(
        codes(&results),
        vec![
            ("mem://t/a".to_string(), "ok"),
            ("mem://t/b".to_string(), "already_exists"),
            ("mem://t/d".to_string(), "invalid_target"),
        ]
    );
    assert_eq!(world.calls, vec!["rename mem://t/a", "rename mem://t/b"]);
    assert_eq!(world.events(), vec![(FsEventKind::Renamed, "mem://t/a".to_string())]);
    assert_eq!(world.bytes("mem://t/d/a"), Some(b"1".to_vec()));
    assert_eq!(
        results[2].error.as_ref().unwrap().to_string(),
        "invalid target: cannot move mem://t/d into itself"
    );
}

#[test]
fn a_move_between_providers_deletes_after_the_copy() {
    let mut world = World::new();
    world.dir("mem://t/a");
    world.put("mem://t/a/x", b"1");
    world.dir("far://u/d");
    let results = world.move_(vec!["mem://t/a"], "far://u/d", false);
    assert!(results[0].ok);
    assert_eq!(world.calls.last().unwrap(), "delete mem://t/a");
    assert!(!world.there("mem://t/a"));
    assert!(!world.there("mem://t/a/x"));
    assert_eq!(world.bytes("far://u/d/a/x"), Some(b"1".to_vec()));
    let events = world.events();
    assert_eq!(events.last().unwrap(), &(FsEventKind::Renamed, "mem://t/a".to_string()));
}

#[test]
fn a_move_whose_copy_fails_keeps_its_source() {
    let mut world = World::new();
    world.put("mem://t/a", b"1");
    world.put("far://u/d/a", b"old");
    let results = world.move_(vec!["mem://t/a", "mem://t/gone"], "far://u/d", false);
    assert_eq!(
        codes(&results),
        vec![
            ("mem://t/a".to_string(), "already_exists"),
            ("mem://t/gone".to_string(), "not_found"),
        ]
    );
    assert!(world.there("mem://t/a"));
    assert!(!world.calls.iter().any(|c| c.starts_with("delete")));
}

#[test]
fn a_move_names_its_other_faults() {
    let mut world = World::new();
    let results = world.move_(vec!["none://t/a", "mem://t/"], "none://t/d", false);
    assert_eq!(
        codes(&results),
        vec![("none://t/a".to_string(), "no_provider"), ("mem://t/".to_string(), "invalid_uri")]
    );
}

#[test]
fn a_fast_path_that_is_refused_falls_back() {
    let engine = World::new().engine;
    let mut session =
        engine.copy(vec![uri("mem://t/a")], uri("mem://t/d"), CopyOpts { overwrite: true });
    let stat = Stat {
        file_type: FileType::Symlink,
        size: 1,
        modified_ms: None,
        created_ms: None,
        readonly: false,
        symlink_target: None,
    };
    let mut replies = vec![
        Reply::Stat(Ok(stat)),
        Reply::Caps(MemProvider::new().caps()),
        Reply::Unit(default_copy_within()),
        Reply::Unit(Ok(())),
        Reply::Unit(Err(VfsError::TooLarge { limit: 1 })),
    ]
    .into_iter();
    let mut asked = Vec::new();
    loop {
        match session.advance(&engine, false) {
            Action::Call(call) => {
                asked.push(format!("{:?}", call.request).split(['(', ' ']).next().unwrap().to_string());
                session.resume(replies.next().unwrap());
            }
            Action::Again => {}
            Action::Done => break,
        }
    }
    assert_eq!(asked, vec!["Stat", "Caps", "CopyWithin", "Read", "Write"]);
    assert_eq!(codes(&session.finish()), vec![("mem://t/a".to_string(), "too_large")]);
}

#[test]
fn a_walk_that_fails_is_told() {
    let engine = World::new().engine;
    let mut session =
        engine.copy(vec![uri("mem://t/a")], uri("far://u/d"), CopyOpts::default());
    let dir = Stat {
        file_type: FileType::Directory,
        size: 0,
        modified_ms: None,
        created_ms: None,
        readonly: false,
        symlink_target: None,
    };
    let mut replies = vec![
        Reply::Stat(Ok(dir)),
        Reply::List(Err::<Vec<DirEntry>, VfsError>(VfsError::PermissionDenied(uri("mem://t/a")))),
    ]
    .into_iter();
    loop {
        match session.advance(&engine, false) {
            Action::Call(_) => {
                session.resume(replies.next().unwrap());
            }
            Action::Again => {}
            Action::Done => break,
        }
    }
    assert_eq!(codes(&session.finish()), vec![("mem://t/a".to_string(), "permission_denied")]);
}
