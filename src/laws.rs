//! What the planned calls achieve: convergence and idempotence of a full
//! sync, and the behaviour of change notifications.
use vstd::prelude::*;
use crate::bundle::{base_name, is_bundle_name, is_bundle_path, join_path, lemma_join_injective};
use crate::engine::{
    arrival_creations,
    base_names,
    change_calls,
    departure_removals,
    missing_creations,
    stale_removals,
    sync_calls,
    Call,
    ChangeKind,
};

verus! {

/// The paths of the entries of `dir` that `names` lists.
pub open spec fn entries(dir: Seq<char>, names: Seq<Seq<char>>) -> Set<Seq<char>> {
    Set::new(|p: Seq<char>| exists|n: Seq<char>| names.contains(n) && p == join_path(dir, n))
}

/// The paths that exist after `cs` is carried out on `present`, each call
/// succeeding: a creation makes its destination exist, a removal makes its
/// path absent.
pub open spec fn perform(present: Set<Seq<char>>, cs: Seq<Call>) -> Set<Seq<char>>
    decreases cs.len(),
{
    if cs.len() == 0 {
        present
    } else {
        let s = perform(present, cs.drop_last());
        match cs.last() {
            Call::Create { dest, .. } => s.insert(dest),
            Call::Remove { path } => s.remove(path),
        }
    }
}

proof fn lemma_contains_last<A>(s: Seq<A>, x: A)
    requires
        s.len() > 0,
    ensures
        s.contains(x) <==> (s.drop_last().contains(x) || s.last() == x),
{
    if s.contains(x) && s.last() != x {
        let k = choose|k: int| 0 <= k < s.len() && s[k] == x;
        assert(s.drop_last()[k] == x);
    }
    if s.drop_last().contains(x) {
        let k = choose|k: int| 0 <= k < s.drop_last().len() && s.drop_last()[k] == x;
        assert(s[k] == x);
    }
    if s.last() == x {
        assert(s[s.len() - 1] == x);
    }
}

proof fn lemma_entries_contains(dir: Seq<char>, names: Seq<Seq<char>>, n: Seq<char>)
    ensures
        entries(dir, names).contains(join_path(dir, n)) <==> names.contains(n),
{
    if entries(dir, names).contains(join_path(dir, n)) {
        let m = choose|m: Seq<char>| names.contains(m) && join_path(dir, n) == join_path(dir, m);
        lemma_join_injective(dir, n, m);
    }
}

proof fn lemma_perform_append(present: Set<Seq<char>>, a: Seq<Call>, b: Seq<Call>)
    ensures
        perform(present, a + b) == perform(perform(present, a), b),
    decreases b.len(),
{
    if b.len() == 0 {
        assert(a + b =~= a);
    } else {
        assert((a + b).drop_last() =~= a + b.drop_last());
        lemma_perform_append(present, a, b.drop_last());
    }
}

proof fn lemma_removals_effect(
    present: Set<Seq<char>>,
    launcher_dir: Seq<char>,
    external: Seq<Seq<char>>,
    launcher: Seq<Seq<char>>,
    n: Seq<char>,
)
    ensures
        perform(present, stale_removals(launcher_dir, external, launcher)).contains(
            join_path(launcher_dir, n),
        ) <==> (present.contains(join_path(launcher_dir, n)) && !(is_bundle_name(n)
            && !external.contains(n) && launcher.contains(n))),
    decreases launcher.len(),
{
    if launcher.len() > 0 {
        let m = launcher.last();
        lemma_removals_effect(present, launcher_dir, external, launcher.drop_last(), n);
        lemma_contains_last(launcher, n);
        let prev = stale_removals(launcher_dir, external, launcher.drop_last());
        let c = Call::Remove { path: join_path(launcher_dir, m) };
        assert(prev.push(c).drop_last() =~= prev);
        if join_path(launcher_dir, m) == join_path(launcher_dir, n) {
            lemma_join_injective(launcher_dir, m, n);
        }
    }
}

proof fn lemma_creations_effect(
    present: Set<Seq<char>>,
    external_dir: Seq<char>,
    launcher_dir: Seq<char>,
    external: Seq<Seq<char>>,
    launcher: Seq<Seq<char>>,
    n: Seq<char>,
)
    ensures
        perform(present, missing_creations(external_dir, launcher_dir, external, launcher)).contains(
            join_path(launcher_dir, n),
        ) <==> (present.contains(join_path(launcher_dir, n)) || (is_bundle_name(n)
            && external.contains(n) && !launcher.contains(n))),
    decreases external.len(),
{
    if external.len() > 0 {
        let m = external.last();
        lemma_creations_effect(
            present,
            external_dir,
            launcher_dir,
            external.drop_last(),
            launcher,
            n,
        );
        lemma_contains_last(external, n);
        let prev = missing_creations(external_dir, launcher_dir, external.drop_last(), launcher);
        let c = Call::Create {
            source: join_path(external_dir, m),
            dest: join_path(launcher_dir, m),
        };
        assert(prev.push(c).drop_last() =~= prev);
        if join_path(launcher_dir, m) == join_path(launcher_dir, n) {
            lemma_join_injective(launcher_dir, m, n);
        }
    }
}

/// After a full sync whose calls all succeed, the launcher directory holds a
/// shortcut for a bundle name exactly when the external directory holds that
/// bundle; its other entries are left as they were.
pub proof fn lemma_full_sync_converges(
    external_dir: Seq<char>,
    launcher_dir: Seq<char>,
    external: Seq<Seq<char>>,
    launcher: Seq<Seq<char>>,
    n: Seq<char>,
)
    ensures
        ({
            let after = perform(
                entries(launcher_dir, launcher),
                sync_calls(external_dir, launcher_dir, external, launcher),
            );
            &&& is_bundle_name(n) ==> (after.contains(join_path(launcher_dir, n))
                <==> external.contains(n))
            &&& !is_bundle_name(n) ==> (after.contains(join_path(launcher_dir, n))
                <==> launcher.contains(n))
        }),
{
    let start = entries(launcher_dir, launcher);
    let rs = stale_removals(launcher_dir, external, launcher);
    let cs = missing_creations(external_dir, launcher_dir, external, launcher);
    lemma_perform_append(start, rs, cs);
    lemma_creations_effect(perform(start, rs), external_dir, launcher_dir, external, launcher, n);
    lemma_removals_effect(start, launcher_dir, external, launcher, n);
    lemma_entries_contains(launcher_dir, launcher, n);
}

proof fn lemma_no_stale(launcher_dir: Seq<char>, external: Seq<Seq<char>>, launcher: Seq<Seq<char>>)
    requires
        forall|n: Seq<char>| is_bundle_name(n) && launcher.contains(n) ==> external.contains(n),
    ensures
        stale_removals(launcher_dir, external, launcher) == Seq::<Call>::empty(),
    decreases launcher.len(),
{
    if launcher.len() > 0 {
        assert forall|n: Seq<char>|
            is_bundle_name(n) && launcher.drop_last().contains(n) implies external.contains(n) by {
            lemma_contains_last(launcher, n);
        }
        lemma_no_stale(launcher_dir, external, launcher.drop_last());
        lemma_contains_last(launcher, launcher.last());
    }
}

proof fn lemma_none_missing(
    external_dir: Seq<char>,
    launcher_dir: Seq<char>,
    external: Seq<Seq<char>>,
    launcher: Seq<Seq<char>>,
)
    requires
        forall|n: Seq<char>| is_bundle_name(n) && external.contains(n) ==> launcher.contains(n),
    ensures
        missing_creations(external_dir, launcher_dir, external, launcher) == Seq::<Call>::empty(),
    decreases external.len(),
{
    if external.len() > 0 {
        assert forall|n: Seq<char>|
            is_bundle_name(n) && external.drop_last().contains(n) implies launcher.contains(n) by {
            lemma_contains_last(external, n);
        }
        lemma_none_missing(external_dir, launcher_dir, external.drop_last(), launcher);
        lemma_contains_last(external, external.last());
    }
}

/// A second full sync, on the listing that the first one left behind (all of
/// its calls having succeeded), calls for nothing.
pub proof fn lemma_full_sync_idempotent(
    external_dir: Seq<char>,
    launcher_dir: Seq<char>,
    external: Seq<Seq<char>>,
    launcher: Seq<Seq<char>>,
    relisted: Seq<Seq<char>>,
)
    requires
        entries(launcher_dir, relisted) == perform(
            entries(launcher_dir, launcher),
            sync_calls(external_dir, launcher_dir, external, launcher),
        ),
    ensures
        sync_calls(external_dir, launcher_dir, external, relisted) == Seq::<Call>::empty(),
{
    assert forall|n: Seq<char>| is_bundle_name(n) implies (relisted.contains(n)
        <==> external.contains(n)) by {
        lemma_full_sync_converges(external_dir, launcher_dir, external, launcher, n);
        lemma_entries_contains(launcher_dir, relisted, n);
    }
    lemma_no_stale(launcher_dir, external, relisted);
    lemma_none_missing(external_dir, launcher_dir, external, relisted);
    assert(Seq::<Call>::empty() + Seq::<Call>::empty() =~= Seq::<Call>::empty());
}

proof fn lemma_arrivals_all_present(
    paths: Seq<Seq<char>>,
    launcher_dir: Seq<char>,
    launcher: Seq<Seq<char>>,
)
    requires
        forall|i: int|
            0 <= i < paths.len() && is_bundle_path(paths[i]) ==> launcher.contains(
                base_name(paths[i]),
            ),
    ensures
        arrival_creations(paths, launcher_dir, launcher) == Seq::<Call>::empty(),
    decreases paths.len(),
{
    if paths.len() > 0 {
        let rest = paths.drop_last();
        assert forall|i: int|
            0 <= i < rest.len() && is_bundle_path(rest[i]) implies launcher.contains(
                base_name(rest[i]),
            ) by {
            assert(rest[i] == paths[i]);
        }
        lemma_arrivals_all_present(rest, launcher_dir, launcher);
        assert(paths.last() == paths[paths.len() - 1]);
    }
}

/// A `Created` or `Modified` notification for bundles whose shortcuts are
/// already listed calls for nothing.
pub proof fn lemma_arrival_idempotent(
    kind: ChangeKind,
    paths: Seq<Seq<char>>,
    launcher_dir: Seq<char>,
    launcher: Seq<Seq<char>>,
)
    requires
        kind == ChangeKind::Created || kind == ChangeKind::Modified,
        forall|i: int|
            0 <= i < paths.len() && is_bundle_path(paths[i]) ==> launcher.contains(
                base_name(paths[i]),
            ),
    ensures
        change_calls(kind, paths, launcher_dir, launcher) == Seq::<Call>::empty(),
{
    lemma_arrivals_all_present(paths, launcher_dir, launcher);
}

/// A `Removed` notification for a bundle path removes the shortcut of that
/// name, whatever the launcher directory lists; nothing about the bundle's own
/// path is consulted.
pub proof fn lemma_departure_removes(p: Seq<char>, launcher_dir: Seq<char>, launcher: Seq<Seq<char>>)
    requires
        is_bundle_path(p),
    ensures
        change_calls(ChangeKind::Removed, seq![p], launcher_dir, launcher) == seq![
            Call::Remove { path: join_path(launcher_dir, base_name(p)) },
        ],
{
    let ps = seq![p];
    assert(ps.drop_last() =~= Seq::<Seq<char>>::empty());
    assert(ps.last() == p);
    assert(departure_removals(ps.drop_last(), launcher_dir) == Seq::<Call>::empty());
    assert(Seq::<Call>::empty().push(Call::Remove { path: join_path(launcher_dir, base_name(p)) })
        =~= seq![Call::Remove { path: join_path(launcher_dir, base_name(p)) }]);
}

/// The bundle entries of a listing, in order.
pub open spec fn bundles_only(names: Seq<Seq<char>>) -> Seq<Seq<char>> {
    names.filter(|n: Seq<char>| is_bundle_name(n))
}

/// The bundle paths of a notification, in order.
pub open spec fn bundle_paths_only(paths: Seq<Seq<char>>) -> Seq<Seq<char>> {
    paths.filter(|p: Seq<char>| is_bundle_path(p))
}

proof fn lemma_filter_contains_iff(s: Seq<Seq<char>>, pred: spec_fn(Seq<char>) -> bool, x: Seq<char>)
    ensures
        s.filter(pred).contains(x) <==> (s.contains(x) && pred(x)),
{
    broadcast use Seq::lemma_filter_pred, Seq::lemma_filter_contains, Seq::lemma_filter_contains_rev;

    if s.filter(pred).contains(x) {
        let k = choose|k: int| 0 <= k < s.filter(pred).len() && s.filter(pred)[k] == x;
        assert(pred(s.filter(pred)[k]));
    }
    if s.contains(x) && pred(x) {
        let k = choose|k: int| 0 <= k < s.len() && s[k] == x;
        assert(s.filter(pred).contains(s[k]));
    }
}

proof fn lemma_filter_step(s: Seq<Seq<char>>, pred: spec_fn(Seq<char>) -> bool)
    requires
        s.len() > 0,
    ensures
        pred(s.last()) ==> s.filter(pred) == s.drop_last().filter(pred).push(s.last()),
        !pred(s.last()) ==> s.filter(pred) == s.drop_last().filter(pred),
{
    reveal(Seq::filter);
}

proof fn lemma_removals_external_bundles(
    launcher_dir: Seq<char>,
    external: Seq<Seq<char>>,
    launcher: Seq<Seq<char>>,
)
    ensures
        stale_removals(launcher_dir, bundles_only(external), launcher) == stale_removals(
            launcher_dir,
            external,
            launcher,
        ),
    decreases launcher.len(),
{
    if launcher.len() > 0 {
        lemma_removals_external_bundles(launcher_dir, external, launcher.drop_last());
        lemma_filter_contains_iff(external, |n: Seq<char>| is_bundle_name(n), launcher.last());
    }
}

proof fn lemma_removals_launcher_bundles(
    launcher_dir: Seq<char>,
    external: Seq<Seq<char>>,
    launcher: Seq<Seq<char>>,
)
    ensures
        stale_removals(launcher_dir, external, bundles_only(launcher)) == stale_removals(
            launcher_dir,
            external,
            launcher,
        ),
    decreases launcher.len(),
{
    if launcher.len() > 0 {
        let pred = |n: Seq<char>| is_bundle_name(n);
        lemma_removals_launcher_bundles(launcher_dir, external, launcher.drop_last());
        lemma_filter_step(launcher, pred);
        lemma_filter_contains_iff(launcher.drop_last(), pred, launcher.last());
        if pred(launcher.last()) {
            let f = bundles_only(launcher);
            assert(f.drop_last() =~= bundles_only(launcher.drop_last()));
        }
    }
}

proof fn lemma_creations_launcher_bundles(
    external_dir: Seq<char>,
    launcher_dir: Seq<char>,
    external: Seq<Seq<char>>,
    launcher: Seq<Seq<char>>,
)
    ensures
        missing_creations(external_dir, launcher_dir, external, bundles_only(launcher))
            == missing_creations(external_dir, launcher_dir, external, launcher),
    decreases external.len(),
{
    if external.len() > 0 {
        lemma_creations_launcher_bundles(external_dir, launcher_dir, external.drop_last(), launcher);
        lemma_filter_contains_iff(launcher, |n: Seq<char>| is_bundle_name(n), external.last());
    }
}

proof fn lemma_creations_external_bundles(
    external_dir: Seq<char>,
    launcher_dir: Seq<char>,
    external: Seq<Seq<char>>,
    launcher: Seq<Seq<char>>,
)
    ensures
        missing_creations(external_dir, launcher_dir, bundles_only(external), launcher)
            == missing_creations(external_dir, launcher_dir, external, launcher),
    decreases external.len(),
{
    if external.len() > 0 {
        let pred = |n: Seq<char>| is_bundle_name(n);
        lemma_creations_external_bundles(external_dir, launcher_dir, external.drop_last(), launcher);
        lemma_filter_step(external, pred);
        lemma_filter_contains_iff(external.drop_last(), pred, external.last());
        if pred(external.last()) {
            let f = bundles_only(external);
            assert(f.drop_last() =~= bundles_only(external.drop_last()));
        }
    }
}

/// Entries that are not bundles have no part in a full sync: dropping them
/// from both listings leaves the calls unchanged.
pub proof fn lemma_sync_ignores_non_bundles(
    external_dir: Seq<char>,
    launcher_dir: Seq<char>,
    external: Seq<Seq<char>>,
    launcher: Seq<Seq<char>>,
)
    ensures
        sync_calls(external_dir, launcher_dir, bundles_only(external), bundles_only(launcher))
            == sync_calls(external_dir, launcher_dir, external, launcher),
{
    lemma_removals_external_bundles(launcher_dir, external, bundles_only(launcher));
    lemma_removals_launcher_bundles(launcher_dir, external, launcher);
    lemma_creations_launcher_bundles(external_dir, launcher_dir, bundles_only(external), launcher);
    lemma_creations_external_bundles(external_dir, launcher_dir, external, launcher);
}

proof fn lemma_base_names_of_bundle_paths(paths: Seq<Seq<char>>, n: Seq<char>)
    requires
        is_bundle_name(n),
    ensures
        base_names(bundle_paths_only(paths)).contains(n) <==> base_names(paths).contains(n),
{
    let pred = |p: Seq<char>| is_bundle_path(p);
    let f = bundle_paths_only(paths);
    if base_names(paths).contains(n) {
        let k = choose|k: int| 0 <= k < base_names(paths).len() && base_names(paths)[k] == n;
        lemma_filter_contains_iff(paths, pred, paths[k]);
        assert(paths.contains(paths[k]));
        let j = choose|j: int| 0 <= j < f.len() && f[j] == paths[k];
        assert(base_names(f)[j] == n);
    }
    if base_names(f).contains(n) {
        let j = choose|j: int| 0 <= j < base_names(f).len() && base_names(f)[j] == n;
        assert(f.contains(f[j]));
        lemma_filter_contains_iff(paths, pred, f[j]);
        let k = choose|k: int| 0 <= k < paths.len() && paths[k] == f[j];
        assert(base_names(paths)[k] == n);
    }
}

proof fn lemma_arrivals_ignore_non_bundles(
    paths: Seq<Seq<char>>,
    launcher_dir: Seq<char>,
    launcher: Seq<Seq<char>>,
)
    ensures
        arrival_creations(bundle_paths_only(paths), launcher_dir, launcher) == arrival_creations(
            paths,
            launcher_dir,
            launcher,
        ),
    decreases paths.len(),
{
    if paths.len() > 0 {
        let pred = |p: Seq<char>| is_bundle_path(p);
        let p = paths.last();
        lemma_arrivals_ignore_non_bundles(paths.drop_last(), launcher_dir, launcher);
        lemma_filter_step(paths, pred);
        if pred(p) {
            let f = bundle_paths_only(paths);
            assert(f.drop_last() =~= bundle_paths_only(paths.drop_last()));
            assert(f.last() == p);
            lemma_base_names_of_bundle_paths(paths.drop_last(), base_name(p));
        }
    }
}

proof fn lemma_departures_ignore_non_bundles(paths: Seq<Seq<char>>, launcher_dir: Seq<char>)
    ensures
        departure_removals(bundle_paths_only(paths), launcher_dir) == departure_removals(
            paths,
            launcher_dir,
        ),
    decreases paths.len(),
{
    if paths.len() > 0 {
        let pred = |p: Seq<char>| is_bundle_path(p);
        lemma_departures_ignore_non_bundles(paths.drop_last(), launcher_dir);
        lemma_filter_step(paths, pred);
        if pred(paths.last()) {
            let f = bundle_paths_only(paths);
            assert(f.drop_last() =~= bundle_paths_only(paths.drop_last()));
            assert(f.last() == paths.last());
        }
    }
}

/// Paths that are not bundles have no part in handling a notification:
/// dropping them leaves the calls unchanged.
pub proof fn lemma_change_ignores_non_bundles(
    kind: ChangeKind,
    paths: Seq<Seq<char>>,
    launcher_dir: Seq<char>,
    launcher: Seq<Seq<char>>,
)
    ensures
        change_calls(kind, bundle_paths_only(paths), launcher_dir, launcher) == change_calls(
            kind,
            paths,
            launcher_dir,
            launcher,
        ),
{
    lemma_arrivals_ignore_non_bundles(paths, launcher_dir, launcher);
    lemma_departures_ignore_non_bundles(paths, launcher_dir);
}

} // verus!
