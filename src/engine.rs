//! The reconciliation engine: which gateway calls bring the launcher
//! directory in step with the external directory, at startup and on each
//! change notification.
use vstd::prelude::*;
use crate::bundle::{base_name, base_name_of, is_bundle_entry, is_bundle_name, join, join_path};

verus! {

/// A call to the shortcut gateway.
#[derive(Debug)]
pub enum Action {
    /// Make a shortcut at `dest` that refers to `source`.
    Create { source: String, dest: String },
    /// Delete the shortcut at `path`; absent is fine.
    Remove { path: String },
}

/// The mathematical form of an [`Action`].
pub enum Call {
    Create { source: Seq<char>, dest: Seq<char> },
    Remove { path: Seq<char> },
}

impl View for Action {
    type V = Call;

    open spec fn view(&self) -> Call {
        match self {
            Action::Create { source, dest } => Call::Create { source: source@, dest: dest@ },
            Action::Remove { path } => Call::Remove { path: path@ },
        }
    }
}

/// What a change notification reports of its paths.
#[derive(Clone, Copy, Debug, PartialEq, Eq, Structural)]
pub enum ChangeKind {
    Created,
    Modified,
    Removed,
    Other,
}

pub open spec fn views(v: Seq<String>) -> Seq<Seq<char>> {
    v.map_values(|s: String| s@)
}

pub open spec fn calls(v: Seq<Action>) -> Seq<Call> {
    v.map_values(|a: Action| a@)
}

/// Removal pass of a full sync: one removal per bundle entry of the launcher
/// listing whose name the external listing lacks (first occurrence only).
pub open spec fn stale_removals(
    launcher_dir: Seq<char>,
    external: Seq<Seq<char>>,
    launcher: Seq<Seq<char>>,
) -> Seq<Call>
    decreases launcher.len(),
{
    if launcher.len() == 0 {
        seq![]
    } else {
        let n = launcher.last();
        let prev = stale_removals(launcher_dir, external, launcher.drop_last());
        if is_bundle_name(n) && !external.contains(n) && !launcher.drop_last().contains(n) {
            prev.push(Call::Remove { path: join_path(launcher_dir, n) })
        } else {
            prev
        }
    }
}

/// Creation pass of a full sync: one creation per bundle entry of the
/// external listing whose name the launcher listing lacks (first occurrence
/// only).
pub open spec fn missing_creations(
    external_dir: Seq<char>,
    launcher_dir: Seq<char>,
    external: Seq<Seq<char>>,
    launcher: Seq<Seq<char>>,
) -> Seq<Call>
    decreases external.len(),
{
    if external.len() == 0 {
        seq![]
    } else {
        let n = external.last();
        let prev = missing_creations(external_dir, launcher_dir, external.drop_last(), launcher);
        if is_bundle_name(n) && !launcher.contains(n) && !external.drop_last().contains(n) {
            prev.push(
                Call::Create { source: join_path(external_dir, n), dest: join_path(launcher_dir, n) },
            )
        } else {
            prev
        }
    }
}

/// The calls of a full sync: the removal pass, then the creation pass.
pub open spec fn sync_calls(
    external_dir: Seq<char>,
    launcher_dir: Seq<char>,
    external: Seq<Seq<char>>,
    launcher: Seq<Seq<char>>,
) -> Seq<Call> {
    stale_removals(launcher_dir, external, launcher) + missing_creations(
        external_dir,
        launcher_dir,
        external,
        launcher,
    )
}

pub open spec fn base_names(paths: Seq<Seq<char>>) -> Seq<Seq<char>> {
    paths.map_values(|p: Seq<char>| base_name(p))
}

/// Creations for the paths of a `Created` or `Modified` notification: one per
/// bundle path whose shortcut is neither listed nor made for an earlier path.
pub open spec fn arrival_creations(
    paths: Seq<Seq<char>>,
    launcher_dir: Seq<char>,
    launcher: Seq<Seq<char>>,
) -> Seq<Call>
    decreases paths.len(),
{
    if paths.len() == 0 {
        seq![]
    } else {
        let p = paths.last();
        let n = base_name(p);
        let prev = arrival_creations(paths.drop_last(), launcher_dir, launcher);
        if is_bundle_name(n) && !launcher.contains(n) && !base_names(paths.drop_last()).contains(n) {
            prev.push(Call::Create { source: p, dest: join_path(launcher_dir, n) })
        } else {
            prev
        }
    }
}

/// Removals for the paths of a `Removed` notification: one per bundle path,
/// whether or not its shortcut is there.
pub open spec fn departure_removals(paths: Seq<Seq<char>>, launcher_dir: Seq<char>) -> Seq<Call>
    decreases paths.len(),
{
    if paths.len() == 0 {
        seq![]
    } else {
        let n = base_name(paths.last());
        let prev = departure_removals(paths.drop_last(), launcher_dir);
        if is_bundle_name(n) {
            prev.push(Call::Remove { path: join_path(launcher_dir, n) })
        } else {
            prev
        }
    }
}

/// The calls that one change notification calls for.
pub open spec fn change_calls(
    kind: ChangeKind,
    paths: Seq<Seq<char>>,
    launcher_dir: Seq<char>,
    launcher: Seq<Seq<char>>,
) -> Seq<Call> {
    match kind {
        ChangeKind::Created | ChangeKind::Modified => arrival_creations(
            paths,
            launcher_dir,
            launcher,
        ),
        ChangeKind::Removed => departure_removals(paths, launcher_dir),
        ChangeKind::Other => seq![],
    }
}

/// Whether `n` is among the first `upto` entries of `names`.
fn listed(names: &Vec<String>, upto: usize, n: &String) -> (r: bool)
    requires
        upto <= names.len(),
    ensures
        r == views(names@).subrange(0, upto as int).contains(n@),
{
    let ghost s = views(names@).subrange(0, upto as int);
    let mut j: usize = 0;
    while j < upto
        invariant
            j <= upto <= names.len(),
            s == views(names@).subrange(0, upto as int),
            forall|k: int| 0 <= k < j ==> s[k] != n@,
        decreases upto - j,
    {
        if names[j] == *n {
            assert(s[j as int] == n@);
            return true;
        }
        j = j + 1;
    }
    proof {
        if s.contains(n@) {
            let k = choose|k: int| 0 <= k < s.len() && s[k] == n@;
            assert(s[k] != n@);
        }
    }
    false
}

proof fn lemma_calls_push(v: Seq<Action>, a: Action)
    ensures
        calls(v.push(a)) == calls(v).push(a@),
{
    assert(calls(v.push(a)) =~= calls(v).push(a@));
}

proof fn lemma_views_prefix(v: Seq<String>, i: int)
    requires
        0 <= i < v.len(),
    ensures
        views(v).subrange(0, i + 1).drop_last() == views(v).subrange(0, i),
        views(v).subrange(0, i + 1).last() == v[i]@,
{
    assert(views(v).subrange(0, i + 1).drop_last() =~= views(v).subrange(0, i));
}

/// The gateway calls of a full sync between the external directory and the
/// launcher directory, given the names that each directory lists.
pub fn plan_full_sync(
    external_dir: &str,
    launcher_dir: &str,
    external: &Vec<String>,
    launcher: &Vec<String>,
) -> (r: Vec<Action>)
    ensures
        calls(r@) == sync_calls(external_dir@, launcher_dir@, views(external@), views(launcher@)),
{
    let ghost ext = views(external@);
    let ghost lau = views(launcher@);
    assert(views(external@).subrange(0, external.len() as int) =~= ext);
    assert(views(launcher@).subrange(0, launcher.len() as int) =~= lau);
    let mut out: Vec<Action> = Vec::new();
    let mut i: usize = 0;
    assert(lau.subrange(0, 0) =~= Seq::<Seq<char>>::empty());
    while i < launcher.len()
        invariant
            i <= launcher.len(),
            ext == views(external@),
            lau == views(launcher@),
            views(external@).subrange(0, external.len() as int) == ext,
            views(launcher@).subrange(0, launcher.len() as int) == lau,
            calls(out@) == stale_removals(launcher_dir@, ext, lau.subrange(0, i as int)),
        decreases launcher.len() - i,
    {
        let name = &launcher[i];
        proof {
            lemma_views_prefix(launcher@, i as int);
        }
        if is_bundle_entry(name.as_str()) && !listed(external, external.len(), name) && !listed(
            launcher,
            i,
            name,
        ) {
            let a = Action::Remove { path: join(launcher_dir, name.as_str()) };
            proof {
                lemma_calls_push(out@, a);
            }
            out.push(a);
        }
        i = i + 1;
    }
    assert(lau.subrange(0, i as int) =~= lau);
    let ghost removals = calls(out@);
    let mut j: usize = 0;
    assert(ext.subrange(0, 0) =~= Seq::<Seq<char>>::empty());
    assert(removals + seq![] =~= removals);
    while j < external.len()
        invariant
            j <= external.len(),
            ext == views(external@),
            lau == views(launcher@),
            views(external@).subrange(0, external.len() as int) == ext,
            views(launcher@).subrange(0, launcher.len() as int) == lau,
            removals == stale_removals(launcher_dir@, ext, lau),
            calls(out@) == removals + missing_creations(
                external_dir@,
                launcher_dir@,
                ext.subrange(0, j as int),
                lau,
            ),
        decreases external.len() - j,
    {
        let name = &external[j];
        proof {
            lemma_views_prefix(external@, j as int);
        }
        if is_bundle_entry(name.as_str()) && !listed(launcher, launcher.len(), name) && !listed(
            external,
            j,
            name,
        ) {
            let a = Action::Create {
                source: join(external_dir, name.as_str()),
                dest: join(launcher_dir, name.as_str()),
            };
            proof {
                lemma_calls_push(out@, a);
                let m = missing_creations(external_dir@, launcher_dir@, ext.subrange(0, j as int), lau);
                assert(removals + m.push(a@) =~= (removals + m).push(a@));
            }
            out.push(a);
        }
        j = j + 1;
    }
    assert(ext.subrange(0, j as int) =~= ext);
    out
}

fn plan_arrivals(paths: &Vec<String>, launcher_dir: &str, launcher: &Vec<String>) -> (r: Vec<
    Action,
>)
    ensures
        calls(r@) == arrival_creations(views(paths@), launcher_dir@, views(launcher@)),
{
    let ghost ps = views(paths@);
    let ghost lau = views(launcher@);
    assert(views(launcher@).subrange(0, launcher.len() as int) =~= lau);
    let mut out: Vec<Action> = Vec::new();
    let mut names: Vec<String> = Vec::new();
    let mut i: usize = 0;
    assert(ps.subrange(0, 0) =~= Seq::<Seq<char>>::empty());
    assert(views(names@) =~= base_names(ps.subrange(0, 0)));
    while i < paths.len()
        invariant
            i <= paths.len(),
            names.len() == i,
            ps == views(paths@),
            lau == views(launcher@),
            views(launcher@).subrange(0, launcher.len() as int) == lau,
            views(names@) == base_names(ps.subrange(0, i as int)),
            calls(out@) == arrival_creations(ps.subrange(0, i as int), launcher_dir@, lau),
        decreases paths.len() - i,
    {
        let path = &paths[i];
        let name = base_name_of(path.as_str());
        proof {
            lemma_views_prefix(paths@, i as int);
            assert(views(names@).subrange(0, i as int) =~= views(names@));
        }
        if is_bundle_entry(name.as_str()) && !listed(launcher, launcher.len(), &name) && !listed(
            &names,
            i,
            &name,
        ) {
            let a = Action::Create { source: path.clone(), dest: join(launcher_dir, name.as_str()) };
            proof {
                lemma_calls_push(out@, a);
            }
            out.push(a);
        }
        let ghost before = names@;
        let ghost nm = name@;
        names.push(name);
        proof {
            assert(names@ == before.push(name));
            assert(nm == base_name(ps[i as int]));
            assert(views(names@) =~= views(before).push(nm));
            assert(ps.subrange(0, i + 1) =~= ps.subrange(0, i as int).push(ps[i as int]));
            assert(base_names(ps.subrange(0, i + 1)) =~= base_names(ps.subrange(0, i as int)).push(
                nm,
            ));
        }
        i = i + 1;
    }
    assert(ps.subrange(0, i as int) =~= ps);
    out
}

fn plan_departures(paths: &Vec<String>, launcher_dir: &str) -> (r: Vec<Action>)
    ensures
        calls(r@) == departure_removals(views(paths@), launcher_dir@),
{
    let ghost ps = views(paths@);
    let mut out: Vec<Action> = Vec::new();
    let mut i: usize = 0;
    assert(ps.subrange(0, 0) =~= Seq::<Seq<char>>::empty());
    while i < paths.len()
        invariant
            i <= paths.len(),
            ps == views(paths@),
            calls(out@) == departure_removals(ps.subrange(0, i as int), launcher_dir@),
        decreases paths.len() - i,
    {
        let name = base_name_of(paths[i].as_str());
        proof {
            lemma_views_prefix(paths@, i as int);
        }
        if is_bundle_entry(name.as_str()) {
            let a = Action::Remove { path: join(launcher_dir, name.as_str()) };
            proof {
                lemma_calls_push(out@, a);
            }
            out.push(a);
        }
        i = i + 1;
    }
    assert(ps.subrange(0, i as int) =~= ps);
    out
}

/// The gateway calls that one change notification calls for, given the
/// names that the launcher directory lists when it is handled.
pub fn plan_change(kind: ChangeKind, paths: &Vec<String>, launcher_dir: &str, launcher: &Vec<
    String,
>) -> (r: Vec<Action>)
    ensures
        calls(r@) == change_calls(kind, views(paths@), launcher_dir@, views(launcher@)),
{
    match kind {
        ChangeKind::Created | ChangeKind::Modified => plan_arrivals(paths, launcher_dir, launcher),
        ChangeKind::Removed => plan_departures(paths, launcher_dir),
        ChangeKind::Other => {
            let out: Vec<Action> = Vec::new();
            assert(calls(out@) =~= Seq::<Call>::empty());
            out
        },
    }
}

} // verus!
