use vstd::prelude::*;
use crate::text::option_text;

verus! {

/// Whether a workspace is a project root of its own or a git worktree of another workspace.
#[derive(Clone, Copy, Debug, PartialEq, Eq, Structural)]
pub enum WorkspaceKind {
    Main,
    Worktree,
}

impl Default for WorkspaceKind {
    fn default() -> (r: Self)
        ensures
            r == WorkspaceKind::Main,
    {
        WorkspaceKind::Main
    }
}

impl WorkspaceKind {
    pub fn is_worktree(&self) -> (r: bool)
        ensures
            r == (*self == WorkspaceKind::Worktree),
    {
        match self {
            WorkspaceKind::Worktree => true,
            WorkspaceKind::Main => false,
        }
    }
}

/// What a worktree workspace knows of its worktree: the branch checked out in it.
#[derive(Debug)]
pub struct WorktreeInfo {
    pub branch: String,
}

/// The settings that the interface keeps for each workspace.
#[derive(Clone, Copy, Debug, PartialEq, Eq, Structural)]
pub struct WorkspaceSettings {
    pub sidebar_collapsed: bool,
}

impl Default for WorkspaceSettings {
    fn default() -> (r: Self)
        ensures
            r == (WorkspaceSettings { sidebar_collapsed: false }),
    {
        WorkspaceSettings { sidebar_collapsed: false }
    }
}

/// A workspace as it is kept in the store.
#[derive(Debug)]
pub struct WorkspaceEntry {
    pub id: String,
    pub name: String,
    pub path: String,
    pub codex_bin: Option<String>,
    pub kind: WorkspaceKind,
    pub parent_id: Option<String>,
    pub worktree: Option<WorktreeInfo>,
    pub settings: WorkspaceSettings,
}

/// A workspace as it is shown: the entry, and whether a session is connected.
#[derive(Debug)]
pub struct WorkspaceInfo {
    pub id: String,
    pub name: String,
    pub path: String,
    pub connected: bool,
    pub codex_bin: Option<String>,
    pub kind: WorkspaceKind,
    pub parent_id: Option<String>,
    pub worktree: Option<WorktreeInfo>,
    pub settings: WorkspaceSettings,
}

/// The mathematical value of a workspace entry.
pub struct EntryView {
    pub id: Seq<char>,
    pub name: Seq<char>,
    pub path: Seq<char>,
    pub codex_bin: Option<Seq<char>>,
    pub kind: WorkspaceKind,
    pub parent_id: Option<Seq<char>>,
    pub branch: Option<Seq<char>>,
    pub settings: WorkspaceSettings,
}

/// The mathematical value of a workspace as it is shown.
pub struct InfoView {
    pub entry: EntryView,
    pub connected: bool,
}

impl View for WorktreeInfo {
    type V = Seq<char>;

    open spec fn view(&self) -> Seq<char> {
        self.branch@
    }
}

impl View for WorkspaceEntry {
    type V = EntryView;

    open spec fn view(&self) -> EntryView {
        EntryView {
            id: self.id@,
            name: self.name@,
            path: self.path@,
            codex_bin: option_text(self.codex_bin),
            kind: self.kind,
            parent_id: option_text(self.parent_id),
            branch: match self.worktree {
                Some(w) => Some(w@),
                None => None,
            },
            settings: self.settings,
        }
    }
}

impl View for WorkspaceInfo {
    type V = InfoView;

    open spec fn view(&self) -> InfoView {
        InfoView {
            entry: EntryView {
                id: self.id@,
                name: self.name@,
                path: self.path@,
                codex_bin: option_text(self.codex_bin),
                kind: self.kind,
                parent_id: option_text(self.parent_id),
                branch: match self.worktree {
                    Some(w) => Some(w@),
                    None => None,
                },
                settings: self.settings,
            },
            connected: self.connected,
        }
    }
}

impl EntryView {
    /// An entry is well formed when it has a parent exactly if it is a worktree.
    pub open spec fn well_formed(self) -> bool {
        self.parent_id is Some <==> self.kind == WorkspaceKind::Worktree
    }
}

/// A copy of an optional text.
pub fn copy_opt_text(o: &Option<String>) -> (r: Option<String>)
    ensures
        option_text(r) == option_text(*o),
{
    match o {
        Some(s) => Some(s.clone()),
        None => None,
    }
}

impl Clone for WorktreeInfo {
    fn clone(&self) -> (r: Self)
        ensures
            r@ == self@,
    {
        WorktreeInfo { branch: self.branch.clone() }
    }
}

impl Clone for WorkspaceEntry {
    fn clone(&self) -> (r: Self)
        ensures
            r@ == self@,
    {
        WorkspaceEntry {
            id: self.id.clone(),
            name: self.name.clone(),
            path: self.path.clone(),
            codex_bin: copy_opt_text(&self.codex_bin),
            kind: self.kind,
            parent_id: copy_opt_text(&self.parent_id),
            worktree: match &self.worktree {
                Some(w) => Some(w.clone()),
                None => None,
            },
            settings: self.settings,
        }
    }
}

impl Clone for WorkspaceInfo {
    fn clone(&self) -> (r: Self)
        ensures
            r@ == self@,
    {
        WorkspaceInfo {
            id: self.id.clone(),
            name: self.name.clone(),
            path: self.path.clone(),
            connected: self.connected,
            codex_bin: copy_opt_text(&self.codex_bin),
            kind: self.kind,
            parent_id: copy_opt_text(&self.parent_id),
            worktree: match &self.worktree {
                Some(w) => Some(w.clone()),
                None => None,
            },
            settings: self.settings,
        }
    }
}

impl WorkspaceEntry {
    /// A main workspace at `path`, shown as `name`.
    pub fn main(id: String, name: String, path: String, codex_bin: Option<String>) -> (r: Self)
        ensures
            r@ == (EntryView {
                id: id@,
                name: name@,
                path: path@,
                codex_bin: option_text(codex_bin),
                kind: WorkspaceKind::Main,
                parent_id: None,
                branch: None,
                settings: WorkspaceSettings { sidebar_collapsed: false },
            }),
            r@.well_formed(),
    {
        WorkspaceEntry {
            id,
            name,
            path,
            codex_bin,
            kind: WorkspaceKind::Main,
            parent_id: None,
            worktree: None,
            settings: WorkspaceSettings { sidebar_collapsed: false },
        }
    }

    /// A worktree workspace of `parent` for `branch`, rooted at `path`. It is
    /// shown under the branch's name and starts the agent that its parent starts.
    pub fn worktree_of(parent: &WorkspaceEntry, id: String, branch: &str, path: String) -> (r: Self)
        ensures
            r@ == (EntryView {
                id: id@,
                name: branch@,
                path: path@,
                codex_bin: parent@.codex_bin,
                kind: WorkspaceKind::Worktree,
                parent_id: Some(parent@.id),
                branch: Some(branch@),
                settings: WorkspaceSettings { sidebar_collapsed: false },
            }),
            r@.well_formed(),
    {
        WorkspaceEntry {
            id,
            name: branch.to_owned(),
            path,
            codex_bin: copy_opt_text(&parent.codex_bin),
            kind: WorkspaceKind::Worktree,
            parent_id: Some(parent.id.clone()),
            worktree: Some(WorktreeInfo { branch: branch.to_owned() }),
            settings: WorkspaceSettings { sidebar_collapsed: false },
        }
    }

    /// The entry as it is shown, with the given connection state.
    pub fn info(&self, connected: bool) -> (r: WorkspaceInfo)
        ensures
            r@ == (InfoView { entry: self@, connected }),
    {
        WorkspaceInfo {
            id: self.id.clone(),
            name: self.name.clone(),
            path: self.path.clone(),
            connected,
            codex_bin: copy_opt_text(&self.codex_bin),
            kind: self.kind,
            parent_id: copy_opt_text(&self.parent_id),
            worktree: match &self.worktree {
                Some(w) => Some(w.clone()),
                None => None,
            },
            settings: self.settings,
        }
    }
}

} // verus!
