//! The change filter: which remote file descriptors are worth fetching,
//! given the local filesystem state and the update policy.  Per candidate:
//! sanitize the display name into the target path; drop locked files, files
//! whose remote timestamp does not parse, and files already present locally
//! unless the policy is on and the local copy is strictly older; and never
//! let two surviving candidates share a target path — first wins.

use vstd::prelude::*;

use crate::names::{sanitized_of, target_path_for};
use crate::resources::{CandidateView, File};
use crate::timestamp::{parse_rfc3339, rfc3339_of, time_before, epoch_before};

verus! {

/// What the local filesystem says about one candidate's target path: does
/// a file exist there, and with what modification instant.  An unreadable
/// modification time is `None`.
#[derive(Clone, Copy, Debug)]
pub struct LocalProbe {
    pub exists: bool,
    pub mtime: Option<(i64, u32)>,
}

/// The target path the filter assigns: the base directory plus the
/// sanitized display name.
pub open spec fn spec_target(base: Seq<char>, display_name: Seq<char>) -> Seq<char> {
    base.push('/') + sanitized_of(display_name)
}

/// The per-candidate rule, before path deduplication: keep an unlocked
/// candidate whose remote timestamp parses, if nothing sits at its target
/// path, or — policy permitting — the local copy is strictly older.
pub open spec fn keeps(
    policy: bool,
    locked: bool,
    remote: Option<(i64, u32)>,
    probe: LocalProbe,
) -> bool {
    &&& !locked
    &&& remote is Some
    &&& (!probe.exists || (policy && probe.mtime is Some && time_before(
        probe.mtime->0,
        remote->0,
    )))
}

/// `f` with its target path assigned.
pub open spec fn with_path(f: CandidateView, p: Seq<char>) -> CandidateView {
    CandidateView {
        id: f.id,
        folder_id: f.folder_id,
        display_name: f.display_name,
        size: f.size,
        url: f.url,
        updated_at: f.updated_at,
        locked_for_user: f.locked_for_user,
        filepath: p,
    }
}

/// The views of a run of descriptors.
pub open spec fn views(s: Seq<File>) -> Seq<CandidateView> {
    s.map_values(|f: File| f@)
}

/// The filter's result: candidates in order, each kept by the
/// per-candidate rule and by its target path being first of its kind.
pub open spec fn filter_spec(
    policy: bool,
    base: Seq<char>,
    files: Seq<CandidateView>,
    probes: Seq<LocalProbe>,
    used: Set<Seq<char>>,
) -> Seq<CandidateView>
    decreases files.len(),
{
    if files.len() == 0 || probes.len() == 0 {
        Seq::empty()
    } else {
        let f = files[0];
        let p = spec_target(base, f.display_name);
        let rest = files.drop_first();
        let prest = probes.drop_first();
        if keeps(policy, f.locked_for_user, rfc3339_of(f.updated_at), probes[0]) && !used.contains(
            p,
        ) {
            seq![with_path(f, p)] + filter_spec(policy, base, rest, prest, used.insert(p))
        } else {
            filter_spec(policy, base, rest, prest, used)
        }
    }
}

/// Selects the candidates worth downloading.  `probes[i]` is the local
/// state at the target path of `files[i]`, as the driver observed it.
pub fn select_candidates(policy: bool, base: &str, files: Vec<File>, probes: &Vec<LocalProbe>) -> (r:
    Vec<File>)
    requires
        probes@.len() == files@.len(),
    ensures
        views(r@) == filter_spec(policy, base@, views(files@), probes@, Set::empty()),
{
    broadcast use vstd::set::group_set_axioms;

    let n = files.len();
    let mut r: Vec<File> = Vec::new();
    let mut used_paths: Vec<String> = Vec::new();
    let ghost mut used: Set<Seq<char>> = Set::empty();
    proof {
        assert(views(r@) =~= Seq::<CandidateView>::empty());
        assert(views(files@).skip(0) =~= views(files@));
        assert(probes@.skip(0) =~= probes@);
        assert(Seq::<CandidateView>::empty() + filter_spec(
            policy,
            base@,
            views(files@),
            probes@,
            used,
        ) =~= filter_spec(policy, base@, views(files@), probes@, used));
    }
    let mut i: usize = 0;
    while i < n
        invariant
            i <= n,
            n == files@.len(),
            probes@.len() == files@.len(),
            used.finite(),
            forall|x: Seq<char>|
                used.contains(x) == exists|j: int| 0 <= j < used_paths@.len() && used_paths@[j]@
                    == x,
            filter_spec(policy, base@, views(files@), probes@, Set::empty()) == views(r@)
                + filter_spec(
                policy,
                base@,
                views(files@).skip(i as int),
                probes@.skip(i as int),
                used,
            ),
        decreases n - i,
    {
        let f = &files[i];
        let target = target_path_for(base, f.display_name.as_str());
        let remote = parse_rfc3339(f.updated_at.as_str());
        let probe = probes[i];
        let keep_by_rule: bool = !f.locked_for_user && match remote {
            Some(rt) => match probe.mtime {
                Some(mt) => !probe.exists || (policy && epoch_before(mt, rt)),
                None => !probe.exists,
            },
            None => false,
        };
        let mut path_free = true;
        let mut j: usize = 0;
        while j < used_paths.len()
            invariant
                j <= used_paths@.len(),
                path_free == forall|k: int| 0 <= k < j ==> used_paths@[k]@ != target@,
            decreases used_paths@.len() - j,
        {
            if used_paths[j].eq(&target) {
                path_free = false;
            }
            j = j + 1;
        }
        proof {
            assert(path_free == !used.contains(target@));
            let fv = views(files@)[i as int];
            assert(fv == files@[i as int]@);
            assert(spec_target(base@, fv.display_name) == target@);
            assert(views(files@).skip(i as int)[0] == fv);
            assert(views(files@).skip(i as int).drop_first() =~= views(files@).skip(i + 1));
            assert(probes@.skip(i as int)[0] == probes@[i as int]);
            assert(probes@.skip(i as int).drop_first() =~= probes@.skip(i + 1));
            assert(keep_by_rule == keeps(
                policy,
                fv.locked_for_user,
                rfc3339_of(fv.updated_at),
                probes@[i as int],
            ));
        }
        if keep_by_rule && path_free {
            let mut kept = f.clone();
            kept.filepath = target.clone();
            proof {
                assert(kept@ == with_path(files@[i as int]@, target@));
            }
            let ghost old_paths = used_paths@;
            r.push(kept);
            used_paths.push(target);
            proof {
                let prev = used;
                used = used.insert(target@);
                assert forall|x: Seq<char>|
                    used.contains(x) == exists|j2: int|
                        0 <= j2 < used_paths@.len() && used_paths@[j2]@ == x by {
                    if used.contains(x) {
                        if x == target@ {
                            assert(used_paths@[used_paths@.len() - 1]@ == x);
                        } else {
                            assert(prev.contains(x));
                            let j2 = choose|j2: int|
                                0 <= j2 < old_paths.len() && old_paths[j2]@ == x;
                            assert(used_paths@[j2]@ == x);
                        }
                    }
                    if exists|j2: int| 0 <= j2 < used_paths@.len() && used_paths@[j2]@ == x {
                        let j2 = choose|j2: int|
                            0 <= j2 < used_paths@.len() && used_paths@[j2]@ == x;
                        if j2 == used_paths@.len() - 1 {
                            assert(x == target@);
                        } else {
                            assert(old_paths[j2]@ == x);
                            assert(prev.contains(x));
                        }
                    }
                }
                assert(views(r@) =~= views(r@.drop_last()) + seq![kept@]);
                assert(views(r@.drop_last()) + seq![kept@] + filter_spec(
                    policy,
                    base@,
                    views(files@).skip(i + 1),
                    probes@.skip(i + 1),
                    used,
                ) =~= views(r@.drop_last()) + (seq![kept@] + filter_spec(
                    policy,
                    base@,
                    views(files@).skip(i + 1),
                    probes@.skip(i + 1),
                    used,
                )));
            }
        }
        i = i + 1;
    }
    proof {
        assert(views(files@).skip(n as int) =~= Seq::<CandidateView>::empty());
        assert(views(r@) + Seq::<CandidateView>::empty() =~= views(r@));
    }
    r
}

/// Change-filter law: a candidate absent locally is always selected, as
/// long as it is unlocked and its remote timestamp parses.
pub proof fn lemma_absent_selected(
    policy: bool,
    locked: bool,
    remote: Option<(i64, u32)>,
    probe: LocalProbe,
)
    requires
        !probe.exists,
        !locked,
        remote is Some,
    ensures
        keeps(policy, locked, remote, probe),
{
}

/// Change-filter law: a candidate present locally whose remote timestamp
/// is not strictly newer than the local copy — or whose local time cannot
/// be read — is never selected.
pub proof fn lemma_stale_not_selected(
    policy: bool,
    locked: bool,
    remote: Option<(i64, u32)>,
    probe: LocalProbe,
)
    requires
        probe.exists,
        probe.mtime is Some && remote is Some ==> !time_before(probe.mtime->0, remote->0),
    ensures
        !keeps(policy, locked, remote, probe),
{
}

/// Change-filter law: a candidate present locally with a strictly newer
/// remote copy is selected exactly when the update policy is on.
pub proof fn lemma_newer_selected_iff_policy(
    policy: bool,
    remote: Option<(i64, u32)>,
    probe: LocalProbe,
)
    requires
        probe.exists,
        probe.mtime is Some,
        remote is Some,
        time_before(probe.mtime->0, remote->0),
    ensures
        keeps(policy, false, remote, probe) == policy,
{
}

/// Change-filter law: with the update policy off, a candidate present
/// locally is never selected, whatever the timestamps say.
pub proof fn lemma_policy_off_not_selected(
    locked: bool,
    remote: Option<(i64, u32)>,
    probe: LocalProbe,
)
    requires
        probe.exists,
    ensures
        !keeps(false, locked, remote, probe),
{
}

/// Change-filter law: a locked candidate is never selected, whatever the
/// timestamps say.
pub proof fn lemma_locked_not_selected(
    policy: bool,
    remote: Option<(i64, u32)>,
    probe: LocalProbe,
)
    ensures
        !keeps(policy, true, remote, probe),
{
}

/// No selected candidate's target path lies in `used`.
pub open spec fn paths_fresh(s: Seq<CandidateView>, used: Set<Seq<char>>) -> bool {
    forall|i: int| 0 <= i < s.len() ==> !used.contains((#[trigger] s[i]).filepath)
}

/// No two selected candidates share a target path.
pub open spec fn paths_distinct(s: Seq<CandidateView>) -> bool {
    forall|i: int, j: int|
        0 <= i < j < s.len() ==> (#[trigger] s[i]).filepath != (#[trigger] s[j]).filepath
}

/// Every candidate the filter selects has a target path of its own: none
/// that was already taken, and no two selected candidates alias the same
/// path — ties fall to list order, first wins.
pub proof fn lemma_unique_targets(
    policy: bool,
    base: Seq<char>,
    files: Seq<CandidateView>,
    probes: Seq<LocalProbe>,
    used: Set<Seq<char>>,
)
    ensures
        paths_fresh(filter_spec(policy, base, files, probes, used), used),
        paths_distinct(filter_spec(policy, base, files, probes, used)),
    decreases files.len(),
{
    broadcast use vstd::set::group_set_axioms;

    let out = filter_spec(policy, base, files, probes, used);
    if files.len() == 0 || probes.len() == 0 {
        assert(out.len() == 0);
    } else {
        let f = files[0];
        let p = spec_target(base, f.display_name);
        let rest = files.drop_first();
        let prest = probes.drop_first();
        if keeps(policy, f.locked_for_user, rfc3339_of(f.updated_at), probes[0]) && !used.contains(
            p,
        ) {
            lemma_unique_targets(policy, base, rest, prest, used.insert(p));
            let tail = filter_spec(policy, base, rest, prest, used.insert(p));
            assert(out == seq![with_path(f, p)] + tail);
            assert(out[0].filepath == p);
            assert forall|i: int| 0 <= i < out.len() implies !used.contains(
                (#[trigger] out[i]).filepath,
            ) by {
                if i > 0 {
                    assert(out[i] == tail[i - 1]);
                    assert(!used.insert(p).contains(tail[i - 1].filepath));
                }
            }
            assert forall|i: int, j: int| 0 <= i < j < out.len() implies (
            #[trigger] out[i]).filepath != (#[trigger] out[j]).filepath by {
                if i == 0 {
                    assert(out[j] == tail[j - 1]);
                    assert(!used.insert(p).contains(tail[j - 1].filepath));
                    assert(used.insert(p).contains(p));
                } else {
                    assert(out[i] == tail[i - 1]);
                    assert(out[j] == tail[j - 1]);
                }
            }
        } else {
            lemma_unique_targets(policy, base, rest, prest, used);
        }
    }
}

} // verus!
