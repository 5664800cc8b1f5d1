use canvas::engine::{Engine, Phase};
use canvas::resources::File;

fn candidate(name: &str) -> File {
    File {
        id: 0,
        folder_id: 0,
        display_name: name.to_string(),
        size: 0,
        url: format!("https://host/files/{name}"),
        updated_at: "2024-01-02T03:04:05+00:00".to_string(),
        locked_for_user: false,
        filepath: String::new(),
    }
}

/// Root spawns 3 discovery tasks; each spawns 2 children; each child emits
/// one candidate: quiescence fires with 9 tasks completed and 6 candidates
/// accumulated, and not a moment earlier.
#[test]
fn engine_fan_out_three_by_two() {
    let mut e = Engine::new();
    // the driver spawns the three roots before waiting
    for _ in 0..3 {
        e.spawn();
    }
    // each root spawns its two children, then completes
    for _ in 0..3 {
        e.spawn();
        e.spawn();
        e.complete();
        assert!(!e.notified);
    }
    // the six children emit one candidate each and complete
    for c in 0..6u32 {
        e.add_candidates(vec![candidate(&format!("c{c}"))]);
        e.complete();
        if c < 5 {
            assert!(!e.notified);
        }
    }
    assert!(e.notified);
    assert_eq!(e.spawned, 9);
    assert_eq!(e.completed, 9);
    assert_eq!(e.active, 0);
    assert_eq!(e.candidates.len(), 6);
}

/// The two-phase barrier: discovery quiescence freezes the accumulator,
/// the pre-increment guards the download phase against a spurious zero,
/// and the counter reads exactly zero after the second barrier.
#[test]
fn engine_two_phase_barriers() {
    let mut e = Engine::new();
    e.spawn();
    e.add_candidates(vec![candidate("a"), candidate("b")]);
    e.complete();
    assert!(e.notified);
    e.await_discovery();
    assert_eq!(e.phase, Phase::Download);
    assert_eq!(e.candidates.len(), 2);

    // pre-increment, one download task per candidate, then release
    e.spawn();
    e.spawn();
    e.complete(); // first download finishes before the second is spawned
    assert!(!e.notified); // the hold keeps the counter above zero
    e.spawn();
    e.complete();
    assert!(!e.notified);
    e.complete(); // release the hold
    assert!(e.notified);
    e.await_downloads();
    assert_eq!(e.phase, Phase::Finished);
    assert_eq!(e.active, 0);
    assert_eq!(e.spawned, e.completed);
}

/// A download phase with nothing to download still reaches the barrier.
#[test]
fn engine_empty_download_phase() {
    let mut e = Engine::new();
    e.spawn();
    e.complete();
    e.await_discovery();
    e.spawn(); // the hold
    e.complete();
    assert!(e.notified);
    e.await_downloads();
    assert_eq!(e.phase, Phase::Finished);
    assert_eq!(e.active, 0);
}

/// A failing task completes like a success: the counter comes back down.
#[test]
fn engine_failure_still_decrements() {
    let mut e = Engine::new();
    e.spawn();
    e.spawn();
    e.complete(); // this one failed; its error was logged
    assert!(!e.notified);
    e.complete();
    assert!(e.notified);
    assert_eq!(e.active, 0);
}
