use timug::watch::{is_within, ChangeKind, FsEvent, Watcher};

fn watcher() -> Watcher {
    Watcher { deployment: "/site/public".to_string(), vcs: Some("/site/.git".to_string()) }
}

fn event(kind: ChangeKind, paths: &[&str]) -> FsEvent {
    FsEvent { kind, paths: paths.iter().map(|p| p.to_string()).collect() }
}

#[test]
fn post_change_triggers_one_rebuild() {
    let w = watcher();
    let burst = event(ChangeKind::ModifyData, &["/site/posts/hello.md", "/site/posts/hello.md~", "/site/posts/other.md"]);
    let rebuilds = [burst].iter().filter(|e| w.on_event(e)).count();
    assert_eq!(rebuilds, 1);
}

#[test]
fn deployment_change_triggers_no_rebuild() {
    let w = watcher();
    assert!(!w.on_event(&event(ChangeKind::Create, &["/site/public/2024/1/2/hello.html"])));
    assert!(!w.on_event(&event(ChangeKind::ModifyData, &["/site/public"])));
    assert!(!w.on_event(&event(ChangeKind::Remove, &["/site/.git/index"])));
}

#[test]
fn only_content_changes_count() {
    let w = watcher();
    assert!(!w.on_event(&event(ChangeKind::Access, &["/site/posts/a.md"])));
    assert!(!w.on_event(&event(ChangeKind::ModifyOther, &["/site/posts/a.md"])));
    assert!(w.on_event(&event(ChangeKind::ModifyName, &["/site/public/x", "/site/pages/a.md"])));
    assert!(w.on_event(&event(ChangeKind::Remove, &["/site/public-old/x"])));
}

#[test]
fn within_is_by_whole_components() {
    assert!(is_within("/a/b", "/a/b"));
    assert!(is_within("/a/b/c", "/a/b"));
    assert!(!is_within("/a/bc", "/a/b"));
    assert!(!is_within("/a", "/a/b"));
}

#[test]
fn deployment_folder_with_final_separator() {
    let w = Watcher { deployment: "/b/public/".to_string(), vcs: None };
    assert!(!w.on_event(&event(ChangeKind::Create, &["/b/public/a.html"])));
    assert!(!w.on_event(&event(ChangeKind::Create, &["/b/public"])));
    assert!(w.on_event(&event(ChangeKind::Create, &["/b/posts/a.md"])));
    assert!(is_within("/a/b/c", "/a/b/"));
}
