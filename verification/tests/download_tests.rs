use canvas::download::{DlState, Download};
use canvas::names::{hash_name, temp_name_for};

/// An interruption at any byte offset of the Writing phase leaves neither
/// the target path nor the temp file behind.
#[test]
fn download_interrupted_write_is_clean() {
    for interrupt_after in [0u64, 1, 40, 99] {
        let mut d = Download::new();
        d.start_fetch();
        d.fetch_ok(100);
        assert!(d.temp_exists);
        if interrupt_after > 0 {
            d.wrote_chunk(interrupt_after);
        }
        d.write_failed();
        assert_eq!(d.state, DlState::Failed);
        assert!(!d.target_exists);
        assert!(!d.temp_exists);
    }
}

#[test]
fn download_happy_path_commits_atomically() {
    let mut d = Download::new();
    d.start_fetch();
    assert!(!d.target_exists);
    d.fetch_ok(100);
    assert!(!d.target_exists);
    d.wrote_chunk(60);
    d.wrote_chunk(40);
    assert_eq!(d.written, 100);
    assert!(!d.target_exists);
    d.body_finished();
    d.mtime_applied(true);
    assert!(!d.target_exists);
    d.committed();
    assert_eq!(d.state, DlState::Committed);
    assert!(d.target_exists);
    assert!(!d.temp_exists);
}

#[test]
fn download_failed_fetch_touches_nothing() {
    let mut d = Download::new();
    d.start_fetch();
    d.fetch_failed();
    assert_eq!(d.state, DlState::Failed);
    assert!(!d.target_exists);
    assert!(!d.temp_exists);
}

/// A failed modification-time stamp is logged, never fatal: the download
/// still commits.
#[test]
fn download_mtime_failure_is_not_fatal() {
    let mut d = Download::new();
    d.start_fetch();
    d.fetch_ok(0);
    d.body_finished();
    d.mtime_applied(false);
    d.committed();
    assert_eq!(d.state, DlState::Committed);
    assert!(d.target_exists);
}

/// A failed rename leaves the temp file behind as crash debris and the
/// target path untouched.
#[test]
fn download_failed_rename_leaves_debris() {
    let mut d = Download::new();
    d.start_fetch();
    d.fetch_ok(10);
    d.wrote_chunk(10);
    d.body_finished();
    d.mtime_applied(true);
    d.rename_failed();
    assert_eq!(d.state, DlState::Failed);
    assert!(!d.target_exists);
    assert!(d.temp_exists);
}

#[test]
fn temp_names_are_deterministic_hashes() {
    // the folded 64-bit hash of "foo", a fixed published value
    assert_eq!(hash_name("foo"), 0xdcb27518fed9d577);
    assert_eq!(temp_name_for("foo"), format!("{}.tmp", 0xdcb27518fed9d577u64));
    assert_eq!(temp_name_for("foo"), temp_name_for("foo"));
    assert_ne!(temp_name_for("foo"), temp_name_for("bar"));
}
