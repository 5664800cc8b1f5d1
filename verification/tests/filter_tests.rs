use canvas::filter::{select_candidates, LocalProbe};
use canvas::resources::File;
use canvas::timestamp::{epoch_before, remote_timestamp};

fn file(name: &str, updated_at: &str, locked: bool) -> File {
    File {
        id: 1,
        folder_id: 2,
        display_name: name.to_string(),
        size: 10,
        url: format!("https://host/files/{name}"),
        updated_at: updated_at.to_string(),
        locked_for_user: locked,
        filepath: String::new(),
    }
}

const OLD_TIME: &str = "2020-01-01T00:00:00+00:00";
const NEW_TIME: &str = "2024-06-01T12:00:00+00:00";

fn absent() -> LocalProbe {
    LocalProbe { exists: false, mtime: None }
}

fn present_at(secs: i64) -> LocalProbe {
    LocalProbe { exists: true, mtime: Some((secs, 0)) }
}

/// Candidates `[A: absent locally, B: present with an older remote copy,
/// C: present with a newer remote copy]`, policy on: the selection is
/// exactly `{A, C}`.
#[test]
fn filter_mixed_set_selects_absent_and_newer() {
    let a = file("a.pdf", NEW_TIME, false);
    let b = file("b.pdf", OLD_TIME, false);
    let c = file("c.pdf", NEW_TIME, false);
    let local_b = present_at(remote_timestamp(NEW_TIME).unwrap().0); // local newer than remote
    let local_c = present_at(remote_timestamp(OLD_TIME).unwrap().0); // local older than remote
    let probes = vec![absent(), local_b, local_c];
    let kept = select_candidates(true, "dl", vec![a, b, c], &probes);
    let names: Vec<&str> = kept.iter().map(|f| f.display_name.as_str()).collect();
    assert_eq!(names, vec!["a.pdf", "c.pdf"]);
}

#[test]
fn filter_absent_is_always_selected() {
    let probes = vec![absent()];
    let kept = select_candidates(false, "dl", vec![file("x.txt", OLD_TIME, false)], &probes);
    assert_eq!(kept.len(), 1);
    assert_eq!(kept[0].filepath, "dl/x.txt");
}

#[test]
fn filter_present_not_newer_is_never_selected() {
    let remote_secs = remote_timestamp(OLD_TIME).unwrap().0;
    // local modification time equals the remote timestamp: not strictly older
    let probes = vec![present_at(remote_secs)];
    let kept = select_candidates(true, "dl", vec![file("x.txt", OLD_TIME, false)], &probes);
    assert!(kept.is_empty());
}

#[test]
fn filter_policy_off_never_redownloads() {
    let probes = vec![present_at(0)]; // local far older than the remote copy
    let kept = select_candidates(false, "dl", vec![file("x.txt", NEW_TIME, false)], &probes);
    assert!(kept.is_empty());
}

#[test]
fn filter_policy_on_redownloads_newer() {
    let probes = vec![present_at(0)];
    let kept = select_candidates(true, "dl", vec![file("x.txt", NEW_TIME, false)], &probes);
    assert_eq!(kept.len(), 1);
}

#[test]
fn filter_locked_is_never_selected() {
    let probes = vec![absent()];
    let kept = select_candidates(true, "dl", vec![file("x.txt", NEW_TIME, true)], &probes);
    assert!(kept.is_empty());
}

#[test]
fn filter_unparsable_timestamp_is_dropped() {
    let probes = vec![absent()];
    let kept = select_candidates(true, "dl", vec![file("x.txt", "yesterday-ish", false)], &probes);
    assert!(kept.is_empty());
}

#[test]
fn filter_unreadable_local_mtime_is_not_an_update() {
    let probes = vec![LocalProbe { exists: true, mtime: None }];
    let kept = select_candidates(true, "dl", vec![file("x.txt", NEW_TIME, false)], &probes);
    assert!(kept.is_empty());
}

/// Two candidates aliasing one target path: the first wins, the second is
/// dropped.
#[test]
fn filter_path_ties_fall_to_list_order() {
    let first = file("same.txt", OLD_TIME, false);
    let mut second = file("same.txt", NEW_TIME, false);
    second.url = "https://host/files/other".to_string();
    let probes = vec![absent(), absent()];
    let kept = select_candidates(true, "dl", vec![first, second], &probes);
    assert_eq!(kept.len(), 1);
    assert_eq!(kept[0].updated_at, OLD_TIME);
}

/// The target path is the base directory plus the sanitized display name:
/// path separators inside a name cannot escape the directory.
#[test]
fn filter_sanitizes_target_paths() {
    let probes = vec![absent()];
    let kept = select_candidates(true, "dl", vec![file("../esc/x.txt", NEW_TIME, false)], &probes);
    assert_eq!(kept.len(), 1);
    assert_eq!(kept[0].filepath, "dl/..escx.txt");
}

#[test]
fn timestamps_parse_and_compare() {
    let old = remote_timestamp(OLD_TIME).unwrap();
    let new = remote_timestamp(NEW_TIME).unwrap();
    assert_eq!(old, (1577836800, 0));
    assert!(epoch_before(old, new));
    assert!(!epoch_before(new, old));
    assert!(!epoch_before(old, old));
    assert!(epoch_before((5, 1), (5, 2)));
    assert!(remote_timestamp("not a time").is_none());
}
