use external_app_sync::batch::Batch;
use external_app_sync::engine::{plan_change, plan_full_sync, Action, ChangeKind};

fn names(v: &[&str]) -> Vec<String> {
    v.iter().map(|s| s.to_string()).collect()
}

fn is_create(a: &Action, source: &str, dest: &str) -> bool {
    match a {
        Action::Create { source: s, dest: d } => s == source && d == dest,
        Action::Remove { .. } => false,
    }
}

fn is_remove(a: &Action, path: &str) -> bool {
    match a {
        Action::Remove { path: p } => p == path,
        Action::Create { .. } => false,
    }
}

/// Applies a plan to a listing of the launcher directory, each call succeeding.
fn apply(launcher: &[String], plan: &[Action], launcher_dir: &str) -> Vec<String> {
    let prefix = format!("{}/", launcher_dir);
    let mut out: Vec<String> = launcher.to_vec();
    for a in plan {
        match a {
            Action::Create { dest, .. } => {
                let n = dest.strip_prefix(&prefix).unwrap().to_string();
                if !out.contains(&n) {
                    out.push(n);
                }
            }
            Action::Remove { path } => {
                let n = path.strip_prefix(&prefix).unwrap();
                out.retain(|x| x != n);
            }
        }
    }
    out
}

#[test]
fn full_sync_creates_missing_shortcut() {
    let plan = plan_full_sync("external", "launcher", &names(&["Foo.app"]), &names(&[]));
    assert_eq!(plan.len(), 1);
    assert!(is_create(&plan[0], "external/Foo.app", "launcher/Foo.app"));
}

#[test]
fn full_sync_removes_stale_shortcut() {
    let plan = plan_full_sync("external", "launcher", &names(&[]), &names(&["Bar.app"]));
    assert_eq!(plan.len(), 1);
    assert!(is_remove(&plan[0], "launcher/Bar.app"));
}

#[test]
fn full_sync_removes_before_creating() {
    let plan = plan_full_sync(
        "/Volumes/Ext/Apps/",
        "/Applications",
        &names(&["New.app", "Kept.app", "notes.txt"]),
        &names(&["Old.app", "Kept.app", "Safari.txt"]),
    );
    assert_eq!(plan.len(), 2);
    assert!(is_remove(&plan[0], "/Applications/Old.app"));
    assert!(is_create(&plan[1], "/Volumes/Ext/Apps/New.app", "/Applications/New.app"));
}

#[test]
fn full_sync_twice_calls_nothing_the_second_time() {
    let external = names(&["A.app", "B.app", "readme.md"]);
    let launcher = names(&["B.app", "C.app", "Mail.txt"]);
    let plan = plan_full_sync("ext", "apps", &external, &launcher);
    assert_eq!(plan.len(), 2);
    let after = apply(&launcher, &plan, "apps");
    let again = plan_full_sync("ext", "apps", &external, &after);
    assert!(again.is_empty());
}

#[test]
fn full_sync_converges_on_bundle_names() {
    let external = names(&["A.app", "B.app", "x.dmg"]);
    let launcher = names(&["C.app", "D.app", "B.app", "y.txt"]);
    let plan = plan_full_sync("ext", "apps", &external, &launcher);
    let mut after: Vec<String> = apply(&launcher, &plan, "apps")
        .into_iter()
        .filter(|n| n.ends_with(".app"))
        .collect();
    after.sort();
    assert_eq!(after, names(&["A.app", "B.app"]));
}

#[test]
fn full_sync_ignores_non_bundles() {
    let plan = plan_full_sync(
        "ext",
        "apps",
        &names(&["notes.txt", ".app", "app", "Foo.apps", "Foo.APP"]),
        &names(&["other", "Bar.app.bak"]),
    );
    assert!(plan.is_empty());
}

#[test]
fn full_sync_of_empty_listings_is_empty() {
    assert!(plan_full_sync("ext", "apps", &names(&[]), &names(&[])).is_empty());
}

#[test]
fn created_event_for_present_shortcut_calls_nothing() {
    let paths = names(&["/Volumes/Ext/Foo.app"]);
    let plan = plan_change(ChangeKind::Created, &paths, "/Applications", &names(&["Foo.app"]));
    assert!(plan.is_empty());
}

#[test]
fn created_event_creates_shortcut() {
    let paths = names(&["/Volumes/Ext/Foo.app"]);
    let plan = plan_change(ChangeKind::Created, &paths, "/Applications", &names(&["Mail.app"]));
    assert_eq!(plan.len(), 1);
    assert!(is_create(&plan[0], "/Volumes/Ext/Foo.app", "/Applications/Foo.app"));
}

#[test]
fn modified_event_is_handled_as_created() {
    let paths = names(&["/Volumes/Ext/sub/Foo.app", "/Volumes/Ext/Foo.app/Contents/Info.plist"]);
    let plan = plan_change(ChangeKind::Modified, &paths, "/Applications", &names(&[]));
    assert_eq!(plan.len(), 1);
    assert!(is_create(&plan[0], "/Volumes/Ext/sub/Foo.app", "/Applications/Foo.app"));
}

#[test]
fn created_event_with_repeated_name_creates_once() {
    let paths = names(&["/a/Foo.app", "/b/Foo.app"]);
    let plan = plan_change(ChangeKind::Created, &paths, "/Applications", &names(&[]));
    assert_eq!(plan.len(), 1);
    assert!(is_create(&plan[0], "/a/Foo.app", "/Applications/Foo.app"));
}

#[test]
fn removed_event_removes_shortcut() {
    let paths = names(&["external/Baz.app"]);
    let plan = plan_change(ChangeKind::Removed, &paths, "launcher", &names(&["Baz.app"]));
    assert_eq!(plan.len(), 1);
    assert!(is_remove(&plan[0], "launcher/Baz.app"));
    let unlisted = plan_change(ChangeKind::Removed, &paths, "launcher", &names(&[]));
    assert_eq!(unlisted.len(), 1);
    assert!(is_remove(&unlisted[0], "launcher/Baz.app"));
}

#[test]
fn other_event_calls_nothing() {
    let paths = names(&["external/Baz.app"]);
    assert!(plan_change(ChangeKind::Other, &paths, "launcher", &names(&[])).is_empty());
}

#[test]
fn events_ignore_non_bundles() {
    let paths = names(&["external/readme.txt", "external/Foo.app/Contents", "external/.app"]);
    for kind in [ChangeKind::Created, ChangeKind::Modified, ChangeKind::Removed] {
        assert!(plan_change(kind, &paths, "launcher", &names(&[])).is_empty());
    }
}

#[test]
fn batch_goes_on_after_a_failure() {
    let plan = plan_full_sync("e", "l", &names(&["A.app", "B.app", "C.app"]), &names(&[]));
    let mut batch = Batch::new(plan);
    let mut issued: Vec<String> = Vec::new();
    let mut n = 0;
    while let Some(a) = batch.current() {
        if let Action::Create { dest, .. } = a {
            issued.push(dest.clone());
        }
        batch.record(n != 0);
        n += 1;
    }
    assert!(batch.is_done());
    assert_eq!(issued, names(&["l/A.app", "l/B.app", "l/C.app"]));
    assert_eq!(batch.failures(), &vec![0usize]);
}

#[test]
fn batch_records_every_failure() {
    let plan = plan_full_sync("e", "l", &names(&[]), &names(&["A.app", "B.app"]));
    let mut batch = Batch::new(plan);
    assert!(!batch.is_done());
    batch.record(false);
    assert!(batch.current().is_some());
    batch.record(false);
    assert!(batch.current().is_none());
    assert_eq!(batch.failures(), &vec![0usize, 1]);
}

#[test]
fn empty_batch_is_done() {
    let batch = Batch::new(Vec::new());
    assert!(batch.is_done());
    assert!(batch.current().is_none());
    assert!(batch.failures().is_empty());
}

#[test]
fn events_with_trailing_separator_are_handled() {
    let paths = names(&["/Volumes/External/Baz.app/"]);
    let removed = plan_change(ChangeKind::Removed, &paths, "/Applications", &names(&[]));
    assert_eq!(removed.len(), 1);
    assert!(is_remove(&removed[0], "/Applications/Baz.app"));
    let created = plan_change(ChangeKind::Created, &paths, "/Applications", &names(&[]));
    assert_eq!(created.len(), 1);
    assert!(is_create(&created[0], "/Volumes/External/Baz.app/", "/Applications/Baz.app"));
}
