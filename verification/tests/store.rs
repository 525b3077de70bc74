use codex_monitor::lifecycle::{
    apply_settings, connect_target, display_name, main_entry, new_workspace, new_worktree,
    plan_add_worktree, plan_remove_workspace, plan_remove_worktree, session_for, worktree_root,
    LifecycleError, RemovalStep,
};
use codex_monitor::listing::{list_workspaces, text_precedes};
use codex_monitor::sessions::SessionRegistry;
use codex_monitor::store::WorkspaceStore;
use codex_monitor::workspace::{WorkspaceEntry, WorkspaceKind, WorkspaceSettings};

fn main_ws(id: &str, name: &str) -> WorkspaceEntry {
    WorkspaceEntry::main(id.to_string(), name.to_string(), format!("/repo/{}", name), None)
}

fn worktree(parent: &WorkspaceEntry, id: &str, branch: &str) -> WorkspaceEntry {
    WorkspaceEntry::worktree_of(
        parent,
        id.to_string(),
        branch,
        format!("{}/.codex-worktrees/{}", parent.path, branch),
    )
}

fn ids(store: &WorkspaceStore) -> Vec<String> {
    store.entries().iter().map(|e| e.id.clone()).collect()
}

fn family() -> WorkspaceStore {
    let mut store = WorkspaceStore::new();
    let parent = main_ws("p", "alpha");
    let other = main_ws("q", "beta");
    store.insert(parent.clone());
    store.insert(worktree(&parent, "c1", "one"));
    store.insert(other.clone());
    store.insert(worktree(&parent, "c2", "two"));
    store.insert(worktree(&other, "d1", "three"));
    store
}

#[test]
fn kind_defaults_to_main() {
    assert_eq!(WorkspaceKind::default(), WorkspaceKind::Main);
    assert!(!WorkspaceKind::Main.is_worktree());
    assert!(WorkspaceKind::Worktree.is_worktree());
    assert_eq!(WorkspaceSettings::default(), WorkspaceSettings { sidebar_collapsed: false });
}

#[test]
fn add_workspace_makes_a_main_entry_named_after_the_path() {
    let entry = new_workspace("/repo/foo".to_string(), None);
    assert_eq!(entry.name, "foo");
    assert_eq!(entry.path, "/repo/foo");
    assert_eq!(entry.kind, WorkspaceKind::Main);
    assert!(entry.parent_id.is_none());
    assert!(entry.worktree.is_none());
    assert!(entry.codex_bin.is_none());
    assert_eq!(entry.id.len(), 36);
    let again = new_workspace("/repo/foo".to_string(), Some("/bin/codex".to_string()));
    assert!(entry.id != again.id);
    assert_eq!(again.codex_bin.as_deref(), Some("/bin/codex"));

    let mut store = WorkspaceStore::new();
    store.insert(entry.clone());
    let mut sessions: SessionRegistry<u32> = SessionRegistry::new();
    sessions.insert(entry.id.clone(), 1);
    let shown = list_workspaces(&store, &sessions);
    assert_eq!(shown.len(), 1);
    assert_eq!(shown[0].id, entry.id);
    assert!(shown[0].connected);
    assert_eq!(shown[0].kind, WorkspaceKind::Main);
    assert!(shown[0].parent_id.is_none());

    let reloaded = WorkspaceStore::from_entries(store.entries().clone());
    assert_eq!(ids(&reloaded), vec![entry.id.clone()]);
}

#[test]
fn display_name_falls_back_to_workspace() {
    assert_eq!(display_name(Some("foo".to_string())), "foo");
    assert_eq!(display_name(None), "Workspace");
    assert_eq!(new_workspace("/".to_string(), None).name, "Workspace");
    assert_eq!(new_workspace("/repo/foo/".to_string(), None).name, "foo");
    let entry = main_entry("id".to_string(), "/x".to_string(), None, None);
    assert_eq!(entry.name, "Workspace");
    assert_eq!(entry.id, "id");
}

#[test]
fn add_worktree_plans_branch_directory_and_parent() {
    let mut store = WorkspaceStore::new();
    let parent = WorkspaceEntry::main(
        "p".to_string(),
        "repo".to_string(),
        "/repo".to_string(),
        Some("/opt/codex".to_string()),
    );
    store.insert(parent.clone());
    let plan = plan_add_worktree(&store, "p", "  feature/x ").unwrap();
    assert_eq!(plan.branch, "feature/x");
    assert_eq!(plan.dir_name, "feature-x");
    assert_eq!(plan.parent.id, "p");
    assert_eq!(worktree_root(&plan.parent.path), "/repo/.codex-worktrees");
    let entry = new_worktree(&plan, "/repo/.codex-worktrees/feature-x".to_string());
    assert_eq!(entry.kind, WorkspaceKind::Worktree);
    assert_eq!(entry.parent_id.as_deref(), Some("p"));
    assert_eq!(entry.worktree.as_ref().unwrap().branch, "feature/x");
    assert_eq!(entry.name, "feature/x");
    assert_eq!(entry.path, "/repo/.codex-worktrees/feature-x");
    assert_eq!(entry.codex_bin.as_deref(), Some("/opt/codex"));
    assert_eq!(entry.id.len(), 36);
}

#[test]
fn add_worktree_is_refused_in_order() {
    let store = family();
    assert_eq!(
        plan_add_worktree(&store, "missing", "   ").err(),
        Some(LifecycleError::BranchRequired)
    );
    assert_eq!(
        plan_add_worktree(&store, "missing", "b").err(),
        Some(LifecycleError::ParentNotFound)
    );
    assert_eq!(plan_add_worktree(&store, "c1", "b").err(), Some(LifecycleError::NestedWorktree));
    assert!(plan_add_worktree(&store, "p", "b").is_ok());
}

#[test]
fn removing_a_main_workspace_removes_its_worktrees() {
    let mut store = family();
    let plan = plan_remove_workspace(&store, "p").unwrap();
    assert_eq!(plan.entry.id, "p");
    let children: Vec<&str> = plan.children.iter().map(|c| c.id.as_str()).collect();
    assert_eq!(children, vec!["c1", "c2"]);
    store.remove_with_children("p");
    assert_eq!(ids(&store), vec!["q", "d1"]);
    assert_eq!(store.len(), 2);
}

#[test]
fn removing_a_worktree_leaves_parent_and_siblings() {
    let mut store = family();
    let plan = plan_remove_worktree(&store, "c1").unwrap();
    assert_eq!(plan.entry.id, "c1");
    assert_eq!(plan.parent.id, "p");
    let removed = store.remove("c1").unwrap();
    assert_eq!(removed.id, "c1");
    assert_eq!(ids(&store), vec!["p", "q", "c2", "d1"]);
    assert_eq!(store.get("c2").unwrap().parent_id.as_deref(), Some("p"));
    assert!(store.remove("c1").is_none());
}

#[test]
fn removal_is_refused_for_the_wrong_kind() {
    let mut store = family();
    assert_eq!(
        plan_remove_workspace(&store, "nope").err(),
        Some(LifecycleError::WorkspaceNotFound)
    );
    assert_eq!(plan_remove_workspace(&store, "c1").err(), Some(LifecycleError::IsWorktree));
    assert_eq!(
        plan_remove_worktree(&store, "nope").err(),
        Some(LifecycleError::WorkspaceNotFound)
    );
    assert_eq!(plan_remove_worktree(&store, "p").err(), Some(LifecycleError::NotWorktree));
    store.remove("q");
    assert_eq!(
        plan_remove_worktree(&store, "d1").err(),
        Some(LifecycleError::WorktreeParentNotFound)
    );
    let mut orphan = worktree(&main_ws("z", "z"), "o", "b");
    orphan.parent_id = None;
    store.insert(orphan);
    assert_eq!(
        plan_remove_worktree(&store, "o").err(),
        Some(LifecycleError::WorktreeParentNotFound)
    );
}

#[test]
fn error_messages_are_the_user_facing_texts() {
    let cases = [
        (LifecycleError::BranchRequired, "Branch name is required."),
        (LifecycleError::ParentNotFound, "parent workspace not found"),
        (LifecycleError::NestedWorktree, "Cannot create a worktree from another worktree."),
        (LifecycleError::WorkspaceNotFound, "workspace not found"),
        (LifecycleError::IsWorktree, "Use remove_worktree for worktree agents."),
        (LifecycleError::NotWorktree, "Not a worktree workspace."),
        (LifecycleError::WorktreeParentNotFound, "worktree parent not found"),
        (LifecycleError::NotConnected, "workspace not connected"),
    ];
    for (error, text) in cases {
        assert_eq!(error.message(), text);
    }
}

#[test]
fn insert_replaces_an_entry_with_the_same_id() {
    let mut store = family();
    let mut changed = main_ws("q", "gamma");
    changed.settings.sidebar_collapsed = true;
    store.insert(changed);
    assert_eq!(ids(&store), vec!["p", "c1", "q", "c2", "d1"]);
    assert_eq!(store.get("q").unwrap().name, "gamma");
    assert!(store.contains("q"));
    assert!(!store.contains("gamma"));
    assert_eq!(store.find("c2"), 3);
    assert_eq!(store.find("zz"), 5);
}

#[test]
fn store_round_trip_keeps_every_entry() {
    let store = family();
    let list = store.entries().clone();
    let reloaded = WorkspaceStore::from_entries(list);
    assert_eq!(ids(&reloaded), ids(&store));
    for entry in store.entries() {
        let twin = reloaded.get(&entry.id).unwrap();
        assert_eq!(twin.name, entry.name);
        assert_eq!(twin.path, entry.path);
        assert_eq!(twin.kind, entry.kind);
        assert_eq!(twin.parent_id, entry.parent_id);
        assert_eq!(twin.codex_bin, entry.codex_bin);
        assert_eq!(twin.settings, entry.settings);
        assert_eq!(
            twin.worktree.as_ref().map(|w| w.branch.clone()),
            entry.worktree.as_ref().map(|w| w.branch.clone())
        );
    }
}

#[test]
fn loading_keeps_the_later_of_two_entries_with_one_id() {
    let list = vec![main_ws("a", "first"), main_ws("b", "other"), main_ws("a", "second")];
    let store = WorkspaceStore::from_entries(list);
    assert_eq!(ids(&store), vec!["a", "b"]);
    assert_eq!(store.get("a").unwrap().name, "second");
    assert_eq!(WorkspaceStore::from_entries(Vec::new()).len(), 0);
}

#[test]
fn settings_update_changes_one_entry() {
    let mut store = family();
    let mut sessions: SessionRegistry<u32> = SessionRegistry::new();
    sessions.insert("c1".to_string(), 7);
    let info =
        apply_settings(&mut store, &sessions, "c1", WorkspaceSettings { sidebar_collapsed: true })
            .unwrap();
    assert!(info.connected);
    assert!(info.settings.sidebar_collapsed);
    assert_eq!(info.id, "c1");
    assert!(store.get("c1").unwrap().settings.sidebar_collapsed);
    assert!(!store.get("c2").unwrap().settings.sidebar_collapsed);
    let other =
        apply_settings(&mut store, &sessions, "p", WorkspaceSettings { sidebar_collapsed: true })
            .unwrap();
    assert!(!other.connected);
    assert_eq!(
        apply_settings(&mut store, &sessions, "x", WorkspaceSettings::default()).err(),
        Some(LifecycleError::WorkspaceNotFound)
    );
    assert_eq!(ids(&store), vec!["p", "c1", "q", "c2", "d1"]);
}

#[test]
fn connect_looks_the_entry_up_without_touching_the_store() {
    let store = family();
    let entry = connect_target(&store, "q").unwrap();
    assert_eq!(entry.name, "beta");
    assert_eq!(connect_target(&store, "x").err(), Some(LifecycleError::WorkspaceNotFound));
    assert_eq!(store.len(), 5);
}

#[test]
fn session_registry_tracks_connections() {
    let mut sessions: SessionRegistry<&'static str> = SessionRegistry::new();
    assert_eq!(sessions.len(), 0);
    assert!(sessions.insert("a".to_string(), "one").is_none());
    assert!(sessions.insert("b".to_string(), "two").is_none());
    assert_eq!(sessions.insert("a".to_string(), "three"), Some("one"));
    assert_eq!(sessions.len(), 2);
    assert!(sessions.contains("a"));
    assert_eq!(sessions.get("a"), Some(&"three"));
    assert_eq!(session_for(&sessions, "b").ok(), Some(&"two"));
    assert_eq!(session_for(&sessions, "c").err(), Some(LifecycleError::NotConnected));
    assert_eq!(sessions.remove("a"), Some("three"));
    assert_eq!(sessions.remove("a"), None);
    assert!(!sessions.contains("a"));
    assert_eq!(sessions.get("b"), Some(&"two"));
}

#[test]
fn listing_is_sorted_by_name_with_connection_flags() {
    let store = family();
    let mut sessions: SessionRegistry<u8> = SessionRegistry::new();
    sessions.insert("q".to_string(), 0);
    sessions.insert("c2".to_string(), 0);
    let shown = list_workspaces(&store, &sessions);
    let names: Vec<&str> = shown.iter().map(|w| w.name.as_str()).collect();
    assert_eq!(names, vec!["alpha", "beta", "one", "three", "two"]);
    let connected: Vec<bool> = shown.iter().map(|w| w.connected).collect();
    assert_eq!(connected, vec![false, true, false, false, true]);
}

#[test]
fn listing_keeps_store_order_among_equal_names() {
    let mut store = WorkspaceStore::new();
    store.insert(main_ws("1", "same"));
    store.insert(main_ws("2", "Same"));
    store.insert(main_ws("3", "same"));
    store.insert(main_ws("4", "a"));
    let sessions: SessionRegistry<u8> = SessionRegistry::new();
    let shown = list_workspaces(&store, &sessions);
    let order: Vec<&str> = shown.iter().map(|w| w.id.as_str()).collect();
    assert_eq!(order, vec!["2", "4", "1", "3"]);
}

#[test]
fn text_order_matches_std_string_order() {
    let words = ["", "a", "A", "ab", "b", "\u{e9}", "z", "aa", "a\u{1F600}", "\u{ffff}"];
    for x in words {
        for y in words {
            assert_eq!(text_precedes(x, y), x <= y, "{:?} {:?}", x, y);
        }
    }
}

fn describe(steps: &[RemovalStep]) -> Vec<String> {
    steps
        .iter()
        .map(|step| match step {
            RemovalStep::EndSession { id } => format!("end {}", id),
            RemovalStep::RemoveWorktree { path } => format!("remove {}", path),
            RemovalStep::Prune => "prune".to_string(),
            RemovalStep::ForgetFamily { id } => format!("forget family {}", id),
            RemovalStep::Forget { id } => format!("forget {}", id),
        })
        .collect()
}

#[test]
fn removing_a_main_workspace_ends_all_three_sessions_first() {
    let mut store = family();
    let mut sessions: SessionRegistry<u32> = SessionRegistry::new();
    for id in ["p", "c1", "c2", "q", "d1"] {
        sessions.insert(id.to_string(), 0);
    }
    let plan = plan_remove_workspace(&store, "p").unwrap();
    let steps = plan.steps();
    assert_eq!(
        describe(&steps),
        vec![
            "end c1",
            "remove /repo/alpha/.codex-worktrees/one",
            "end c2",
            "remove /repo/alpha/.codex-worktrees/two",
            "prune",
            "end p",
            "forget family p",
        ]
    );
    for step in steps {
        match step {
            RemovalStep::EndSession { id } => assert!(sessions.remove(&id).is_some()),
            RemovalStep::ForgetFamily { id } => store.remove_with_children(&id),
            RemovalStep::Forget { id } => assert!(store.remove(&id).is_some()),
            RemovalStep::RemoveWorktree { .. } | RemovalStep::Prune => {}
        }
    }
    assert_eq!(ids(&store), vec!["q", "d1"]);
    assert_eq!(sessions.len(), 2);
    assert!(sessions.contains("q") && sessions.contains("d1"));
    assert_eq!(
        plan_remove_workspace(&store, "p").err(),
        Some(LifecycleError::WorkspaceNotFound)
    );
}

#[test]
fn removing_a_worktree_takes_four_steps() {
    let store = family();
    let plan = plan_remove_worktree(&store, "d1").unwrap();
    assert_eq!(
        describe(&plan.steps()),
        vec!["end d1", "remove /repo/beta/.codex-worktrees/three", "prune", "forget d1"]
    );
}
