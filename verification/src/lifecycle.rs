use vstd::prelude::*;
use crate::naming::{join_path, joined, sanitize_worktree_name, sanitized};
use crate::sessions::SessionRegistry;
use crate::store::{
    apart_from, children, contains_id, entry_of, ids_distinct, lemma_filter_keeps_distinct,
    inserted, lemma_position, link_ok, linked, main_at, position, pruned, views, with_settings,
    without, WorkspaceStore,
};
use crate::text::{option_text, trim, trimmed};
use crate::workspace::{
    EntryView, WorkspaceEntry, WorkspaceInfo, WorkspaceKind, WorkspaceSettings,
};

verus! {

/// Why a lifecycle command is turned down before anything is done.
#[derive(Clone, Copy, Debug, PartialEq, Eq, Structural)]
pub enum LifecycleError {
    /// A worktree was asked for without a branch name.
    BranchRequired,
    /// The workspace that is to get a worktree is not in the store.
    ParentNotFound,
    /// The workspace that is to get a worktree is a worktree itself.
    NestedWorktree,
    /// The workspace is not in the store.
    WorkspaceNotFound,
    /// A worktree is to be removed as if it were a main workspace.
    IsWorktree,
    /// A main workspace is to be removed as if it were a worktree.
    NotWorktree,
    /// The parent of the worktree is not in the store.
    WorktreeParentNotFound,
    /// The workspace has no session.
    NotConnected,
}

impl LifecycleError {
    /// The text of an error.
    pub open spec fn text(self) -> Seq<char> {
        match self {
            LifecycleError::BranchRequired => "Branch name is required."@,
            LifecycleError::ParentNotFound => "parent workspace not found"@,
            LifecycleError::NestedWorktree => "Cannot create a worktree from another worktree."@,
            LifecycleError::WorkspaceNotFound => "workspace not found"@,
            LifecycleError::IsWorktree => "Use remove_worktree for worktree agents."@,
            LifecycleError::NotWorktree => "Not a worktree workspace."@,
            LifecycleError::WorktreeParentNotFound => "worktree parent not found"@,
            LifecycleError::NotConnected => "workspace not connected"@,
        }
    }

    /// The text that is shown for an error.
    pub fn message(&self) -> (r: String)
        ensures
            r@ == self.text(),
    {
        match self {
            LifecycleError::BranchRequired => "Branch name is required.".to_owned(),
            LifecycleError::ParentNotFound => "parent workspace not found".to_owned(),
            LifecycleError::NestedWorktree => "Cannot create a worktree from another worktree.".to_owned(),
            LifecycleError::WorkspaceNotFound => "workspace not found".to_owned(),
            LifecycleError::IsWorktree => "Use remove_worktree for worktree agents.".to_owned(),
            LifecycleError::NotWorktree => "Not a worktree workspace.".to_owned(),
            LifecycleError::WorktreeParentNotFound => "worktree parent not found".to_owned(),
            LifecycleError::NotConnected => "workspace not connected".to_owned(),
        }
    }
}

/// What is settled before a worktree is made: the parent, the branch with
/// the whitespace at its ends removed, and the directory name for it.
pub struct WorktreePlan {
    pub parent: WorkspaceEntry,
    pub branch: String,
    pub dir_name: String,
}

/// What is settled before a main workspace is removed: the workspace and
/// its worktrees, which go first.
pub struct RemovalPlan {
    pub entry: WorkspaceEntry,
    pub children: Vec<WorkspaceEntry>,
}

/// What is settled before a worktree is removed: the worktree and its parent.
pub struct WorktreeRemoval {
    pub entry: WorkspaceEntry,
    pub parent: WorkspaceEntry,
}

/// Why a worktree of `parent_id` for `branch` cannot be made, if it cannot.
pub open spec fn add_worktree_refusal(s: Seq<EntryView>, parent_id: Seq<char>, branch: Seq<char>) -> Option<
    LifecycleError,
> {
    if trimmed(branch).len() == 0 {
        Some(LifecycleError::BranchRequired)
    } else if !contains_id(s, parent_id) {
        Some(LifecycleError::ParentNotFound)
    } else if s[position(s, parent_id)].kind == WorkspaceKind::Worktree {
        Some(LifecycleError::NestedWorktree)
    } else {
        None
    }
}

/// Why the workspace `id` cannot be removed as a main workspace, if it cannot.
pub open spec fn remove_workspace_refusal(s: Seq<EntryView>, id: Seq<char>) -> Option<
    LifecycleError,
> {
    if !contains_id(s, id) {
        Some(LifecycleError::WorkspaceNotFound)
    } else if s[position(s, id)].kind == WorkspaceKind::Worktree {
        Some(LifecycleError::IsWorktree)
    } else {
        None
    }
}

/// Why the workspace `id` cannot be removed as a worktree, if it cannot.
pub open spec fn remove_worktree_refusal(s: Seq<EntryView>, id: Seq<char>) -> Option<
    LifecycleError,
> {
    if !contains_id(s, id) {
        Some(LifecycleError::WorkspaceNotFound)
    } else if s[position(s, id)].kind != WorkspaceKind::Worktree {
        Some(LifecycleError::NotWorktree)
    } else {
        match s[position(s, id)].parent_id {
            None => Some(LifecycleError::WorktreeParentNotFound),
            Some(parent) => if contains_id(s, parent) {
                None
            } else {
                Some(LifecycleError::WorktreeParentNotFound)
            },
        }
    }
}

/// Settles what a new worktree of `parent_id` for `branch` is made from.
/// A branch name of whitespace only, an unknown parent and a parent that
/// is a worktree itself are turned down, in this order.
pub fn plan_add_worktree(store: &WorkspaceStore, parent_id: &str, branch: &str) -> (r: Result<
    WorktreePlan,
    LifecycleError,
>)
    ensures
        match r {
            Ok(plan) => {
                &&& add_worktree_refusal(store@, parent_id@, branch@) is None
                &&& entry_of(store@, parent_id@) == Some(plan.parent@)
                &&& plan.branch@ == trimmed(branch@)
                &&& plan.dir_name@ == sanitized(trimmed(branch@))
            },
            Err(e) => add_worktree_refusal(store@, parent_id@, branch@) == Some(e),
        },
{
    let name = trim(branch);
    if name.as_str().unicode_len() == 0 {
        return Err(LifecycleError::BranchRequired);
    }
    match store.get(parent_id) {
        None => Err(LifecycleError::ParentNotFound),
        Some(parent) => {
            if parent.kind.is_worktree() {
                Err(LifecycleError::NestedWorktree)
            } else {
                let dir_name = sanitize_worktree_name(name.as_str());
                Ok(WorktreePlan { parent: parent.clone(), branch: name, dir_name })
            }
        },
    }
}

/// Settles what the removal of the main workspace `id` takes with it: the
/// workspace and all its worktrees. An unknown workspace and a worktree
/// are turned down.
pub fn plan_remove_workspace(store: &WorkspaceStore, id: &str) -> (r: Result<
    RemovalPlan,
    LifecycleError,
>)
    ensures
        match r {
            Ok(plan) => {
                &&& remove_workspace_refusal(store@, id@) is None
                &&& entry_of(store@, id@) == Some(plan.entry@)
                &&& views(plan.children@) == children(store@, id@)
            },
            Err(e) => remove_workspace_refusal(store@, id@) == Some(e),
        },
{
    match store.get(id) {
        None => Err(LifecycleError::WorkspaceNotFound),
        Some(entry) => {
            if entry.kind.is_worktree() {
                Err(LifecycleError::IsWorktree)
            } else {
                Ok(RemovalPlan { entry: entry.clone(), children: store.children_of(id) })
            }
        },
    }
}

/// Settles what the removal of the worktree `id` needs: the worktree and
/// its parent. An unknown workspace, a main workspace and a worktree whose
/// parent is not in the store are turned down.
pub fn plan_remove_worktree(store: &WorkspaceStore, id: &str) -> (r: Result<
    WorktreeRemoval,
    LifecycleError,
>)
    ensures
        match r {
            Ok(plan) => {
                &&& remove_worktree_refusal(store@, id@) is None
                &&& entry_of(store@, id@) == Some(plan.entry@)
                &&& plan.entry@.parent_id is Some
                &&& entry_of(store@, plan.entry@.parent_id->0) == Some(plan.parent@)
            },
            Err(e) => remove_worktree_refusal(store@, id@) == Some(e),
        },
{
    match store.get(id) {
        None => Err(LifecycleError::WorkspaceNotFound),
        Some(entry) => {
            if !entry.kind.is_worktree() {
                return Err(LifecycleError::NotWorktree);
            }
            match &entry.parent_id {
                None => Err(LifecycleError::WorktreeParentNotFound),
                Some(parent_id) => {
                    match store.get(parent_id.as_str()) {
                        None => Err(LifecycleError::WorktreeParentNotFound),
                        Some(parent) => Ok(
                            WorktreeRemoval { entry: entry.clone(), parent: parent.clone() },
                        ),
                    }
                },
            }
        },
    }
}

/// Calls `Uuid::new_v4` and writes the id out with `to_string`. The id
/// is random: nothing is claimed of it.
#[verifier::external_body]
fn fresh_id() -> (id: String) {
    uuid::Uuid::new_v4().to_string()
}

/// Calls `Path::file_name` of std on a path and hands its result back as
/// text: the last component of the path, where the path has one that is
/// a name. What counts as a component depends on the platform: nothing is
/// claimed of the result.
#[verifier::external_body]
fn final_component(path: &str) -> (name: Option<String>) {
    std::path::Path::new(path).file_name().and_then(|n| n.to_str()).map(|n| n.to_string())
}

/// The name under which a workspace is shown: the last component of its
/// path, and `Workspace` where the path has none.
pub open spec fn shown_name(component: Option<Seq<char>>) -> Seq<char> {
    match component {
        Some(name) => name,
        None => "Workspace"@,
    }
}

/// The name under which a workspace is shown.
pub fn display_name(component: Option<String>) -> (name: String)
    ensures
        name@ == shown_name(option_text(component)),
{
    match component {
        Some(name) => name,
        None => "Workspace".to_owned(),
    }
}

/// The entry of a new main workspace at `path`, whose last component is `component`.
pub fn main_entry(
    id: String,
    path: String,
    component: Option<String>,
    codex_bin: Option<String>,
) -> (entry: WorkspaceEntry)
    ensures
        entry@ == (EntryView {
            id: id@,
            name: shown_name(option_text(component)),
            path: path@,
            codex_bin: option_text(codex_bin),
            kind: WorkspaceKind::Main,
            parent_id: None,
            branch: None,
            settings: WorkspaceSettings { sidebar_collapsed: false },
        }),
        entry@.well_formed(),
{
    WorkspaceEntry::main(id, display_name(component), path, codex_bin)
}

/// The entry of a new main workspace at `path`, under a fresh id and the
/// name that the path's last component gives. It is a main workspace
/// without a parent, with the given override and the default settings.
pub fn new_workspace(path: String, codex_bin: Option<String>) -> (entry: WorkspaceEntry)
    ensures
        entry@ == (EntryView {
            id: entry@.id,
            name: entry@.name,
            path: path@,
            codex_bin: option_text(codex_bin),
            kind: WorkspaceKind::Main,
            parent_id: None,
            branch: None,
            settings: WorkspaceSettings { sidebar_collapsed: false },
        }),
        entry@.well_formed(),
{
    let component = final_component(path.as_str());
    main_entry(fresh_id(), path, component, codex_bin)
}

/// The entry of the worktree that a plan describes, rooted at `path`,
/// under a fresh id. It is named after the branch, has the plan's parent
/// as its parent and starts the agent that the parent starts.
pub fn new_worktree(plan: &WorktreePlan, path: String) -> (entry: WorkspaceEntry)
    ensures
        entry@ == (EntryView {
            id: entry@.id,
            name: plan.branch@,
            path: path@,
            codex_bin: plan.parent@.codex_bin,
            kind: WorkspaceKind::Worktree,
            parent_id: Some(plan.parent@.id),
            branch: Some(plan.branch@),
            settings: WorkspaceSettings { sidebar_collapsed: false },
        }),
        entry@.well_formed(),
{
    WorkspaceEntry::worktree_of(&plan.parent, fresh_id(), plan.branch.as_str(), path)
}

/// The hidden directory under a workspace's root that holds its worktrees.
pub fn worktree_root(parent_path: &str) -> (root: String)
    ensures
        root@ == joined(parent_path@, ".codex-worktrees"@),
{
    join_path(parent_path, ".codex-worktrees")
}

/// The entry that a connection is made for: a copy of the entry `id`. The
/// store is not touched.
pub fn connect_target(store: &WorkspaceStore, id: &str) -> (r: Result<
    WorkspaceEntry,
    LifecycleError,
>)
    ensures
        match r {
            Ok(entry) => entry_of(store@, id@) == Some(entry@),
            Err(e) => e == LifecycleError::WorkspaceNotFound && !contains_id(store@, id@),
        },
{
    match store.get(id) {
        Some(entry) => Ok(entry.clone()),
        None => Err(LifecycleError::WorkspaceNotFound),
    }
}

/// The session that a protocol command goes to.
pub fn session_for<'a, S>(sessions: &'a SessionRegistry<S>, id: &str) -> (r: Result<
    &'a S,
    LifecycleError,
>)
    requires
        sessions.wf(),
    ensures
        match r {
            Ok(session) => sessions.session_of(id@) == Some(*session),
            Err(e) => e == LifecycleError::NotConnected && !sessions.connected(id@),
        },
{
    match sessions.get(id) {
        Some(session) => Ok(session),
        None => Err(LifecycleError::NotConnected),
    }
}

/// Replaces the settings of the workspace `id` and shows the workspace as
/// it then is. Nothing else in the store changes.
pub fn apply_settings<S>(
    store: &mut WorkspaceStore,
    sessions: &SessionRegistry<S>,
    id: &str,
    settings: WorkspaceSettings,
) -> (r: Result<WorkspaceInfo, LifecycleError>)
    requires
        old(store).wf(),
    ensures
        final(store).wf(),
        final(store)@ == with_settings(old(store)@, id@, settings),
        match r {
            Ok(info) => {
                &&& contains_id(old(store)@, id@)
                &&& entry_of(final(store)@, id@) == Some(info@.entry)
                &&& info@.connected == sessions.connected(id@)
            },
            Err(e) => e == LifecycleError::WorkspaceNotFound && !contains_id(old(store)@, id@),
        },
{
    match store.update_settings(id, settings) {
        Some(entry) => Ok(entry.info(sessions.contains(id))),
        None => Err(LifecycleError::WorkspaceNotFound),
    }
}

/// One step of the removal of a workspace. The steps are taken in order.
#[derive(Debug)]
pub enum RemovalStep {
    /// Take the session of the workspace out of the registry and kill its
    /// subprocess, if the workspace has a session.
    EndSession { id: String },
    /// Have git remove the worktree at the path, by force, if the path
    /// exists. If git fails, the removal stops here with git's message.
    RemoveWorktree { path: String },
    /// Have git prune the records of worktrees that are gone. A failure is passed over.
    Prune,
    /// Erase the workspace and all its worktrees from the store and write the store out.
    ForgetFamily { id: String },
    /// Erase the one workspace from the store and write the store out.
    Forget { id: String },
}

/// The value of a step.
pub enum StepView {
    EndSession { id: Seq<char> },
    RemoveWorktree { path: Seq<char> },
    Prune,
    ForgetFamily { id: Seq<char> },
    Forget { id: Seq<char> },
}

impl View for RemovalStep {
    type V = StepView;

    open spec fn view(&self) -> StepView {
        match *self {
            RemovalStep::EndSession { id } => StepView::EndSession { id: id@ },
            RemovalStep::RemoveWorktree { path } => StepView::RemoveWorktree { path: path@ },
            RemovalStep::Prune => StepView::Prune,
            RemovalStep::ForgetFamily { id } => StepView::ForgetFamily { id: id@ },
            RemovalStep::Forget { id } => StepView::Forget { id: id@ },
        }
    }
}

/// The values of a list of steps.
pub open spec fn step_views(steps: Seq<RemovalStep>) -> Seq<StepView> {
    steps.map_values(|s: RemovalStep| s@)
}

/// The steps that take the worktrees of a workspace away: for each, in
/// order, its session ends and then its worktree is removed.
pub open spec fn child_steps(children: Seq<EntryView>) -> Seq<StepView>
    decreases children.len(),
{
    if children.len() == 0 {
        Seq::empty()
    } else {
        child_steps(children.drop_last()).push(
            StepView::EndSession { id: children.last().id },
        ).push(StepView::RemoveWorktree { path: children.last().path })
    }
}

/// The steps of the removal of a main workspace: its worktrees go first,
/// then the stale records are pruned, then its own session ends, and at
/// last the workspace and its worktrees leave the store together.
pub open spec fn workspace_removal(entry: EntryView, children: Seq<EntryView>) -> Seq<StepView> {
    child_steps(children).push(StepView::Prune).push(StepView::EndSession { id: entry.id }).push(
        StepView::ForgetFamily { id: entry.id },
    )
}

/// The steps of the removal of a worktree: its session ends, its worktree
/// is removed, the stale records are pruned, and its entry leaves the store.
pub open spec fn worktree_removal(entry: EntryView) -> Seq<StepView> {
    seq![
        StepView::EndSession { id: entry.id },
        StepView::RemoveWorktree { path: entry.path },
        StepView::Prune,
        StepView::Forget { id: entry.id },
    ]
}

impl RemovalPlan {
    /// The steps of the removal, in order.
    pub fn steps(&self) -> (steps: Vec<RemovalStep>)
        ensures
            step_views(steps@) == workspace_removal(self.entry@, views(self.children@)),
    {
        let mut steps: Vec<RemovalStep> = Vec::new();
        let mut i: usize = 0;
        let ghost all = views(self.children@);
        proof {
            assert(all.take(0) =~= Seq::<EntryView>::empty());
            assert(step_views(steps@) =~= Seq::<StepView>::empty());
        }
        while i < self.children.len()
            invariant
                i <= self.children.len(),
                all == views(self.children@),
                step_views(steps@) == child_steps(all.take(i as int)),
            decreases self.children.len() - i,
        {
            let ghost before = step_views(steps@);
            let child = &self.children[i];
            steps.push(RemovalStep::EndSession { id: child.id.clone() });
            steps.push(RemovalStep::RemoveWorktree { path: child.path.clone() });
            proof {
                assert(all.take(i + 1).drop_last() =~= all.take(i as int));
                assert(all.take(i + 1).last() == child@);
                assert(step_views(steps@) =~= before.push(
                    StepView::EndSession { id: child@.id },
                ).push(StepView::RemoveWorktree { path: child@.path }));
            }
            i += 1;
        }
        let ghost before = step_views(steps@);
        steps.push(RemovalStep::Prune);
        steps.push(RemovalStep::EndSession { id: self.entry.id.clone() });
        steps.push(RemovalStep::ForgetFamily { id: self.entry.id.clone() });
        proof {
            assert(all.take(all.len() as int) =~= all);
            assert(step_views(steps@) =~= before.push(StepView::Prune).push(
                StepView::EndSession { id: self.entry@.id },
            ).push(StepView::ForgetFamily { id: self.entry@.id }));
        }
        steps
    }
}

impl WorktreeRemoval {
    /// The steps of the removal, in order.
    pub fn steps(&self) -> (steps: Vec<RemovalStep>)
        ensures
            step_views(steps@) == worktree_removal(self.entry@),
    {
        let mut steps: Vec<RemovalStep> = Vec::new();
        steps.push(RemovalStep::EndSession { id: self.entry.id.clone() });
        steps.push(RemovalStep::RemoveWorktree { path: self.entry.path.clone() });
        steps.push(RemovalStep::Prune);
        steps.push(RemovalStep::Forget { id: self.entry.id.clone() });
        proof {
            assert(step_views(steps@) =~= worktree_removal(self.entry@));
        }
        steps
    }
}

/// The removal of a main workspace ends the session of each of its
/// worktrees and its own session, and all of that before anything leaves
/// the store: the last step, and no other, touches the store.
pub proof fn law_removal_ends_every_session(entry: EntryView, children: Seq<EntryView>, i: int)
    requires
        0 <= i < children.len(),
    ensures
        workspace_removal(entry, children).len() == 2 * children.len() + 3,
        workspace_removal(entry, children)[2 * i] == (StepView::EndSession { id: children[i].id }),
        workspace_removal(entry, children)[2 * i + 1] == (StepView::RemoveWorktree {
            path: children[i].path,
        }),
        workspace_removal(entry, children)[2 * children.len() as int + 1] == (StepView::EndSession {
            id: entry.id,
        }),
        workspace_removal(entry, children).last() == (StepView::ForgetFamily { id: entry.id }),
{
    lemma_child_steps(children, i);
}

/// The steps for the worktrees come in pairs, in the order of the worktrees.
pub proof fn lemma_child_steps(children: Seq<EntryView>, i: int)
    requires
        0 <= i < children.len(),
    ensures
        child_steps(children).len() == 2 * children.len(),
        child_steps(children)[2 * i] == (StepView::EndSession { id: children[i].id }),
        child_steps(children)[2 * i + 1] == (StepView::RemoveWorktree { path: children[i].path }),
    decreases children.len(),
{
    let head = children.drop_last();
    lemma_child_steps_len(head);
    if i < children.len() - 1 {
        lemma_child_steps(head, i);
        assert(head[i] == children[i]);
    }
}

/// There are two steps for each worktree.
pub proof fn lemma_child_steps_len(children: Seq<EntryView>)
    ensures
        child_steps(children).len() == 2 * children.len(),
    decreases children.len(),
{
    if children.len() > 0 {
        lemma_child_steps_len(children.drop_last());
    }
}

/// Whether an entry with the id `id` is in the list.
pub open spec fn has_id(s: Seq<EntryView>, id: Seq<char>) -> bool {
    exists|i: int| 0 <= i < s.len() && (#[trigger] s[i]).id == id
}

/// `contains_id` holds exactly where some entry has the id.
pub proof fn lemma_contains_is_has(s: Seq<EntryView>, id: Seq<char>)
    ensures
        contains_id(s, id) <==> has_id(s, id),
{
    lemma_position(s, id);
    if has_id(s, id) {
        let i = choose|i: int| 0 <= i < s.len() && (#[trigger] s[i]).id == id;
        if position(s, id) >= s.len() {
            assert(s[i].id != id);
        }
    } else if contains_id(s, id) {
        assert(s[position(s, id)].id == id);
    }
}

/// The entries split into the workspace `id`, its worktrees, and the rest.
pub proof fn lemma_removal_counts(s: Seq<EntryView>, id: Seq<char>)
    requires
        ids_distinct(s),
        forall|i: int| 0 <= i < s.len() && (#[trigger] s[i]).id == id ==> s[i].parent_id != Some(id),
    ensures
        s.len() == pruned(s, id).len() + children(s, id).len() + if has_id(s, id) {
            1int
        } else {
            0int
        },
    decreases s.len(),
{
    reveal(Seq::filter);
    if s.len() > 0 {
        let head = s.drop_last();
        let e = s.last();
        assert forall|i: int| 0 <= i < head.len() && (#[trigger] head[i]).id == id implies head[i].parent_id
            != Some(id) by {
            assert(head[i] == s[i]);
        }
        lemma_removal_counts(head, id);
        if has_id(head, id) {
            let i = choose|i: int| 0 <= i < head.len() && (#[trigger] head[i]).id == id;
            assert(s[i].id == id);
            assert(has_id(s, id));
            assert(s[i].id != s[s.len() - 1].id);
        }
        if e.id == id {
            assert(s[s.len() - 1].id == id);
            assert(has_id(s, id));
            assert(e.parent_id != Some(id));
        }
        if has_id(s, id) && e.id != id {
            let i = choose|i: int| 0 <= i < s.len() && (#[trigger] s[i]).id == id;
            assert(head[i].id == id);
            assert(has_id(head, id));
        }
    }
}

/// Removing a main workspace takes it and all its worktrees out of the
/// store in one step: none of them is left, every other entry stays, in
/// its place among the others, and what is gone is the workspace and as
/// many entries as it had worktrees. The parent of every worktree that
/// stays is still there.
pub proof fn law_remove_workspace(s: Seq<EntryView>, id: Seq<char>)
    requires
        ids_distinct(s),
        linked(s),
        contains_id(s, id),
        s[position(s, id)].kind == WorkspaceKind::Main,
    ensures
        !contains_id(pruned(s, id), id),
        forall|k: int|
            0 <= k < pruned(s, id).len() ==> (#[trigger] pruned(s, id)[k]).parent_id != Some(id),
        forall|i: int|
            0 <= i < s.len() && s[i].id != id && s[i].parent_id != Some(id) ==> pruned(
                s,
                id,
            ).contains(#[trigger] s[i]),
        s.len() == pruned(s, id).len() + children(s, id).len() + 1,
        ids_distinct(pruned(s, id)),
        linked(pruned(s, id)),
{
    let r = pruned(s, id);
    let p = apart_from(id);
    let at = position(s, id);
    lemma_filter_keeps_distinct(s, p);
    lemma_position(s, id);
    lemma_contains_is_has(s, id);
    lemma_contains_is_has(r, id);
    assert forall|k: int| 0 <= k < r.len() implies (#[trigger] r[k]).parent_id != Some(id) && r[k].id
        != id by {
        assert(r.contains(r[k]));
        assert(p(r[k]));
    }
    assert(link_ok(s, at));
    assert forall|i: int| 0 <= i < s.len() && (#[trigger] s[i]).id == id implies s[i].parent_id
        != Some(id) by {
        if i < at {
            assert(s[i].id != s[at].id);
        } else if i > at {
            assert(s[at].id != s[i].id);
        }
    }
    lemma_removal_counts(s, id);
    assert forall|k: int| 0 <= k < r.len() implies link_ok(r, k) by {
        assert(r.contains(r[k]));
        assert(s.contains(r[k]));
        let i = choose|i: int| 0 <= i < s.len() && s[i] == r[k];
        assert(link_ok(s, i));
        if r[k].kind == WorkspaceKind::Worktree {
            let parent = r[k].parent_id->0;
            let j = choose|j: int| main_at(s, j, parent);
            assert(link_ok(s, j));
            assert(p(s[j]));
            assert(r.contains(s[j]));
            let m = choose|m: int| 0 <= m < r.len() && r[m] == s[j];
            assert(main_at(r, m, parent));
        }
    }
}

/// Removing a worktree takes out that one entry and leaves its parent, its
/// siblings and everything else untouched and in order.
pub proof fn law_remove_worktree(s: Seq<EntryView>, id: Seq<char>)
    requires
        ids_distinct(s),
        linked(s),
        contains_id(s, id),
        s[position(s, id)].kind == WorkspaceKind::Worktree,
    ensures
        without(s, id) == s.remove(position(s, id)),
        without(s, id).len() == s.len() - 1,
        !contains_id(without(s, id), id),
        forall|i: int| 0 <= i < s.len() && s[i].id != id ==> without(s, id).contains(#[trigger] s[i]),
        ids_distinct(without(s, id)),
        linked(without(s, id)),
{
    let at = position(s, id);
    let r = s.remove(at);
    lemma_position(s, id);
    assert(without(s, id) == r);
    assert forall|i: int| 0 <= i < s.len() && s[i].id != id implies r.contains(#[trigger] s[i]) by {
        if i < at {
            assert(r[i] == s[i]);
        } else {
            assert(r[i - 1] == s[i]);
        }
    }
    assert forall|a: int, b: int| 0 <= a < b < r.len() implies r[a].id != r[b].id by {
        let sa = if a < at { a } else { a + 1 };
        let sb = if b < at { b } else { b + 1 };
        assert(r[a] == s[sa] && r[b] == s[sb]);
        assert(s[sa].id != s[sb].id);
    }
    assert forall|k: int| 0 <= k < r.len() implies (#[trigger] r[k]).id != id by {
        let sk = if k < at { k } else { k + 1 };
        assert(r[k] == s[sk]);
        if sk < at {
            assert(s[sk].id != s[at].id);
        } else {
            assert(s[at].id != s[sk].id);
        }
    }
    lemma_contains_is_has(r, id);
    assert forall|k: int| 0 <= k < r.len() implies link_ok(r, k) by {
        let sk = if k < at { k } else { k + 1 };
        assert(r[k] == s[sk]);
        assert(link_ok(s, sk));
        if r[k].kind == WorkspaceKind::Worktree {
            let parent = r[k].parent_id->0;
            let j = choose|j: int| main_at(s, j, parent);
            assert(j != at);
            let rj = if j < at { j } else { j - 1 };
            assert(r[rj] == s[j]);
            assert(main_at(r, rj, parent));
        }
    }
}

/// Adding a workspace under an id that is not in the store keeps every
/// entry that was there, in order, and puts the new one at the end. Where
/// the new entry is a main workspace, or a worktree whose parent is a main
/// workspace of the store, the parent of every worktree is still there.
pub proof fn law_add_keeps_links(s: Seq<EntryView>, e: EntryView)
    requires
        ids_distinct(s),
        linked(s),
        !contains_id(s, e.id),
        e.well_formed(),
        e.kind == WorkspaceKind::Worktree ==> contains_id(s, e.parent_id->0) && s[position(
            s,
            e.parent_id->0,
        )].kind == WorkspaceKind::Main,
    ensures
        inserted(s, e) == s.push(e),
        ids_distinct(inserted(s, e)),
        linked(inserted(s, e)),
{
    let r = s.push(e);
    lemma_position(s, e.id);
    assert forall|a: int, b: int| 0 <= a < b < r.len() implies r[a].id != r[b].id by {
        assert(r[a] == s[a]);
        if b < s.len() {
            assert(r[b] == s[b]);
            assert(s[a].id != s[b].id);
        } else {
            assert(s[a].id != e.id);
        }
    }
    assert forall|k: int| 0 <= k < r.len() implies link_ok(r, k) by {
        if k < s.len() {
            assert(r[k] == s[k]);
            assert(link_ok(s, k));
            if r[k].kind == WorkspaceKind::Worktree {
                let parent = r[k].parent_id->0;
                let j = choose|j: int| main_at(s, j, parent);
                assert(r[j] == s[j]);
                assert(main_at(r, j, parent));
            }
        } else {
            assert(r[k] == e);
            if e.kind == WorkspaceKind::Worktree {
                let parent = e.parent_id->0;
                lemma_position(s, parent);
                let j = position(s, parent);
                assert(r[j] == s[j]);
                assert(main_at(r, j, parent));
            }
        }
    }
}

} // verus!
