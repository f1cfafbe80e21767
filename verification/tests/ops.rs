use atomo_vfs::ops::{refuse_cancelled, OpCtx, OpRegistry};
use atomo_vfs::watch::{WatchHandle, WatchSessions};
use atomo_vfs::{VfsError, VfsUri};
use tokio_util::sync::CancellationToken;

#[test]
fn a_started_operation_can_be_cancelled_by_its_id() {
    let mut ops = OpRegistry::new();
    let ct = ops.start(7);
    assert!(ops.contains(7));
    assert!(!ct.is_cancelled());
    assert!(ops.cancel(8).is_none());
    assert!(!ct.is_cancelled());
    assert!(ops.cancel(7).is_some());
    assert!(ct.is_cancelled());
}

#[test]
fn a_finished_operation_is_forgotten() {
    let mut ops = OpRegistry::default();
    let ct = ops.start(7);
    let other = ops.start(9);
    ops.finish(7);
    assert!(!ops.contains(7));
    assert!(ops.token(7).is_none());
    assert!(ops.cancel(7).is_none());
    assert!(!ct.is_cancelled());
    assert_eq!(ops.token(9), Some(&other));
}

#[test]
fn a_cancelled_operation_goes_no_further() {
    let ct = CancellationToken::new();
    let op = OpCtx::new(1, ct.clone());
    assert!(!op.is_cancelled());
    assert!(op.check_cancelled().is_ok());
    ct.cancel();
    assert!(op.is_cancelled());
    assert_eq!(op.check_cancelled().unwrap_err().code(), "cancelled");
    assert_eq!(refuse_cancelled(true).unwrap_err().code(), "cancelled");
    assert!(refuse_cancelled(false).is_ok());
}

#[test]
fn reports_are_throttled() {
    let mut op = OpCtx::new(5, CancellationToken::new());
    let uri = VfsUri::parse("mem://t/a").unwrap();
    assert!(op.report(99, 65535, 100000, 1, 2, None).is_none());
    let by_bytes = op.report(0, 65536, 100000, 1, 2, Some(uri.clone())).unwrap();
    assert_eq!(by_bytes.op_id, 5);
    assert_eq!(by_bytes.done_bytes, 65536);
    assert_eq!(by_bytes.total_bytes, 100000);
    assert_eq!(by_bytes.done_files, 1);
    assert_eq!(by_bytes.total_files, 2);
    assert_eq!(by_bytes.current, Some(uri));
    assert!(op.report(0, 70000, 100000, 1, 2, None).is_none());
    assert!(op.report(100, 70000, 100000, 1, 2, None).is_some());
    assert!(op.report(0, 100000, 100000, 1, 2, None).is_none());
    assert!(op.report(0, 100000, 100000, 2, 2, None).is_some());
    assert!(op.report(0, 10, 100000, 2, 2, None).is_none());
}

#[test]
fn watches_are_kept_apart() {
    let mut sessions: WatchSessions<u8> = WatchSessions::default();
    let a = sessions.watch(Ok(WatchHandle::new(1))).unwrap();
    let b = sessions.watch(Ok(WatchHandle::new(2))).unwrap();
    assert_ne!(a, b);
    assert_eq!((a >> 76) & 0xf, 4);
    assert_eq!((a >> 62) & 0x3, 2);
    sessions.unwatch(a);
    assert!(!sessions.contains(a));
    assert!(sessions.contains(b));
    sessions.keep(3, WatchHandle::new(9));
    sessions.unwatch_all();
    assert!(!sessions.contains(b));
    assert!(!sessions.contains(3));
}

#[test]
fn a_watch_that_was_not_started_is_not_kept() {
    let mut sessions: WatchSessions<u8> = WatchSessions::new();
    let a = sessions.watch(Ok(WatchHandle::new(1))).unwrap();
    let refused = sessions.watch(Err(VfsError::Cancelled));
    assert_eq!(refused.unwrap_err().code(), "cancelled");
    assert!(sessions.contains(a));
}

#[test]
fn an_id_that_is_in_use_is_not_given_out_again() {
    let mut sessions: WatchSessions<u8> = WatchSessions::new();
    assert_eq!(sessions.keep_apart(7, WatchHandle::new(1)), 7);
    assert_eq!(sessions.keep_apart(7, WatchHandle::new(2)), 8);
    assert_eq!(sessions.keep_apart(u128::MAX, WatchHandle::new(3)), u128::MAX);
    assert_eq!(sessions.keep_apart(u128::MAX, WatchHandle::new(4)), 0);
    sessions.unwatch(7);
    assert!(sessions.contains(8));
    assert!(sessions.contains(0));
}

#[test]
fn a_cancellation_reaches_one_operation_only() {
    let mut ops = OpRegistry::new();
    let first = ops.start(1);
    let second = ops.start(2);
    assert_eq!(ops.cancel(1), Some(&first));
    assert!(first.is_cancelled());
    assert!(!second.is_cancelled());
    assert!(ops.contains(1));
    let again = ops.start(1);
    assert!(!again.is_cancelled());
    ops.finish(1);
    assert!(!again.is_cancelled());
    assert!(ops.cancel(1).is_none());
    assert!(!again.is_cancelled());
}
