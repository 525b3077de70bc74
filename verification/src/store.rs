use vstd::prelude::*;
use crate::text::same_text;
use crate::workspace::{EntryView, WorkspaceEntry, WorkspaceKind, WorkspaceSettings};

verus! {

/// The values of a list of entries.
pub open spec fn views(list: Seq<WorkspaceEntry>) -> Seq<EntryView> {
    list.map_values(|e: WorkspaceEntry| e@)
}

/// No two entries have the same id.
pub open spec fn ids_distinct(s: Seq<EntryView>) -> bool {
    forall|i: int, j: int| 0 <= i < j < s.len() ==> s[i].id != s[j].id
}

/// The index of the first entry with the id `id`, and the length where there is none.
pub open spec fn position(s: Seq<EntryView>, id: Seq<char>) -> int
    decreases s.len(),
{
    if s.len() == 0 {
        0
    } else if s[0].id == id {
        0
    } else {
        1 + position(s.drop_first(), id)
    }
}

/// Whether an entry has the id `id`.
pub open spec fn contains_id(s: Seq<EntryView>, id: Seq<char>) -> bool {
    position(s, id) < s.len()
}

/// The entry with the id `id`, where there is one.
pub open spec fn entry_of(s: Seq<EntryView>, id: Seq<char>) -> Option<EntryView> {
    if contains_id(s, id) {
        Some(s[position(s, id)])
    } else {
        None
    }
}

/// The entries with `e` put in: in place of the entry that has its id, or at the end.
pub open spec fn inserted(s: Seq<EntryView>, e: EntryView) -> Seq<EntryView> {
    if contains_id(s, e.id) {
        s.update(position(s, e.id), e)
    } else {
        s.push(e)
    }
}

/// The entries without the one that has the id `id`.
pub open spec fn without(s: Seq<EntryView>, id: Seq<char>) -> Seq<EntryView> {
    if contains_id(s, id) {
        s.remove(position(s, id))
    } else {
        s
    }
}

/// The predicate that holds of the worktrees of the workspace `id`.
pub open spec fn child_of(id: Seq<char>) -> spec_fn(EntryView) -> bool {
    |e: EntryView| e.parent_id == Some(id)
}

/// The predicate that holds of every entry but the workspace `id` and its worktrees.
pub open spec fn apart_from(id: Seq<char>) -> spec_fn(EntryView) -> bool {
    |e: EntryView| e.id != id && e.parent_id != Some(id)
}

/// The worktrees of the workspace `id`, in the store's order.
pub open spec fn children(s: Seq<EntryView>, id: Seq<char>) -> Seq<EntryView> {
    s.filter(child_of(id))
}

/// The entries without the workspace `id` and without its worktrees.
pub open spec fn pruned(s: Seq<EntryView>, id: Seq<char>) -> Seq<EntryView> {
    s.filter(apart_from(id))
}

/// The entries with the settings of the workspace `id` replaced.
pub open spec fn with_settings(s: Seq<EntryView>, id: Seq<char>, settings: WorkspaceSettings) -> Seq<
    EntryView,
> {
    if contains_id(s, id) {
        s.update(position(s, id), EntryView { settings, ..s[position(s, id)] })
    } else {
        s
    }
}

/// The entries of a list put into an empty store one after the other, so
/// that of two entries with one id the later one stays.
pub open spec fn collected(list: Seq<EntryView>) -> Seq<EntryView>
    decreases list.len(),
{
    if list.len() == 0 {
        Seq::empty()
    } else {
        inserted(collected(list.drop_last()), list.last())
    }
}

/// Whether the entry at `j` is a main workspace with the id `id`.
pub open spec fn main_at(s: Seq<EntryView>, j: int, id: Seq<char>) -> bool {
    0 <= j < s.len() && s[j].id == id && s[j].kind == WorkspaceKind::Main
}

/// Whether a main workspace with the id `id` is among the entries.
pub open spec fn has_main(s: Seq<EntryView>, id: Seq<char>) -> bool {
    exists|j: int| main_at(s, j, id)
}

/// Whether the entry at `i` is well formed and, if it is a worktree, has
/// its parent among the entries as a main workspace.
pub open spec fn link_ok(s: Seq<EntryView>, i: int) -> bool {
    s[i].well_formed() && (s[i].kind == WorkspaceKind::Worktree ==> has_main(s, s[i].parent_id->0))
}

/// Every entry is well formed, and the parent of every worktree is in the
/// store and is no worktree itself.
pub open spec fn linked(s: Seq<EntryView>) -> bool {
    forall|i: int| 0 <= i < s.len() ==> link_ok(s, i)
}

/// `position` is the least index with the id, or the length.
pub proof fn lemma_position(s: Seq<EntryView>, id: Seq<char>)
    ensures
        0 <= position(s, id) <= s.len(),
        position(s, id) < s.len() ==> s[position(s, id)].id == id,
        forall|k: int| 0 <= k < position(s, id) ==> (#[trigger] s[k]).id != id,
    decreases s.len(),
{
    if s.len() > 0 && s[0].id != id {
        let rest = s.drop_first();
        lemma_position(rest, id);
        assert forall|k: int| 0 <= k < position(s, id) implies (#[trigger] s[k]).id != id by {
            if k > 0 {
                assert(s[k] == rest[k - 1]);
            }
        }
    }
}

/// An index is the position of an id when the id stands there and nowhere before.
pub proof fn lemma_position_is(s: Seq<EntryView>, id: Seq<char>, i: int)
    requires
        0 <= i <= s.len(),
        forall|k: int| 0 <= k < i ==> (#[trigger] s[k]).id != id,
        i < s.len() ==> s[i].id == id,
    ensures
        position(s, id) == i,
    decreases s.len(),
{
    if s.len() > 0 && i > 0 {
        assert(s[0].id != id);
        let rest = s.drop_first();
        assert forall|k: int| 0 <= k < i - 1 implies (#[trigger] rest[k]).id != id by {
            assert(rest[k] == s[k + 1]);
        }
        lemma_position_is(rest, id, i - 1);
    }
}

/// A list of entries with distinct ids that is written out and collected
/// again is the same list: every entry is there, as it was and where it was.
pub proof fn law_store_round_trip(s: Seq<EntryView>)
    requires
        ids_distinct(s),
    ensures
        collected(s) == s,
    decreases s.len(),
{
    if s.len() == 0 {
        assert(s =~= Seq::<EntryView>::empty());
    } else {
        let head = s.drop_last();
        assert forall|i: int, j: int| 0 <= i < j < head.len() implies head[i].id != head[j].id by {
            assert(head[i] == s[i] && head[j] == s[j]);
        }
        law_store_round_trip(head);
        lemma_position(head, s.last().id);
        if contains_id(head, s.last().id) {
            let k = position(head, s.last().id);
            assert(head[k] == s[k]);
            assert(s[k].id != s[s.len() - 1].id);
        }
        assert(head.push(s.last()) =~= s);
    }
}

/// The persisted workspaces, in order. No two of them have the same id.
pub struct WorkspaceStore {
    entries: Vec<WorkspaceEntry>,
}

impl View for WorkspaceStore {
    type V = Seq<EntryView>;

    closed spec fn view(&self) -> Seq<EntryView> {
        views(self.entries@)
    }
}

/// Whether an optional text is the text `id`.
pub fn is_text(o: &Option<String>, id: &str) -> (r: bool)
    ensures
        r == (crate::text::option_text(*o) == Some(id@)),
{
    match o {
        Some(s) => same_text(s.as_str(), id),
        None => false,
    }
}

impl WorkspaceStore {
    /// The invariant of a store: no two entries have the same id.
    pub open spec fn wf(&self) -> bool {
        ids_distinct(self@)
    }

    /// The empty store.
    pub fn new() -> (r: Self)
        ensures
            r@ == Seq::<EntryView>::empty(),
            r.wf(),
    {
        let r = WorkspaceStore { entries: Vec::new() };
        assert(r@ =~= Seq::<EntryView>::empty());
        r
    }

    /// The number of entries.
    pub fn len(&self) -> (n: usize)
        ensures
            n == self@.len(),
    {
        self.entries.len()
    }

    /// The entries in order, as they are written out.
    pub fn entries(&self) -> (list: &Vec<WorkspaceEntry>)
        ensures
            views(list@) == self@,
    {
        &self.entries
    }

    /// The index of the entry with the id `id`, and the length where there is none.
    pub fn find(&self, id: &str) -> (i: usize)
        ensures
            i == position(self@, id@),
            i <= self@.len(),
            i < self@.len() ==> self@[i as int].id == id@,
    {
        let mut i: usize = 0;
        while i < self.entries.len()
            invariant
                i <= self.entries.len(),
                forall|k: int| 0 <= k < i ==> (#[trigger] self@[k]).id != id@,
            decreases self.entries.len() - i,
        {
            if same_text(self.entries[i].id.as_str(), id) {
                proof {
                    lemma_position_is(self@, id@, i as int);
                }
                return i;
            }
            i += 1;
        }
        proof {
            lemma_position_is(self@, id@, i as int);
        }
        i
    }

    /// Whether the store has an entry with the id `id`.
    pub fn contains(&self, id: &str) -> (r: bool)
        ensures
            r == contains_id(self@, id@),
    {
        self.find(id) < self.entries.len()
    }

    /// The entry with the id `id`.
    pub fn get(&self, id: &str) -> (r: Option<&WorkspaceEntry>)
        ensures
            match r {
                Some(e) => entry_of(self@, id@) == Some(e@),
                None => entry_of(self@, id@) is None,
            },
    {
        let i = self.find(id);
        if i < self.entries.len() {
            Some(&self.entries[i])
        } else {
            None
        }
    }

    /// Puts an entry into the store: in place of the entry that has its id,
    /// or at the end.
    pub fn insert(&mut self, entry: WorkspaceEntry)
        requires
            old(self).wf(),
        ensures
            final(self)@ == inserted(old(self)@, entry@),
            final(self).wf(),
    {
        let i = self.find(entry.id.as_str());
        proof {
            lemma_position(self@, entry@.id);
        }
        let ghost before = self@;
        if i < self.entries.len() {
            self.entries[i] = entry;
            assert(self@ =~= before.update(i as int, entry@));
        } else {
            self.entries.push(entry);
            assert(self@ =~= before.push(entry@));
        }
    }

    /// Takes the entry with the id `id` out of the store.
    pub fn remove(&mut self, id: &str) -> (r: Option<WorkspaceEntry>)
        requires
            old(self).wf(),
        ensures
            final(self)@ == without(old(self)@, id@),
            final(self).wf(),
            match r {
                Some(e) => entry_of(old(self)@, id@) == Some(e@),
                None => entry_of(old(self)@, id@) is None,
            },
    {
        let i = self.find(id);
        let ghost before = self@;
        if i < self.entries.len() {
            let e = self.entries.remove(i);
            assert(self@ =~= before.remove(i as int));
            Some(e)
        } else {
            None
        }
    }

    /// Copies of the worktrees of the workspace `id`, in the store's order.
    pub fn children_of(&self, id: &str) -> (list: Vec<WorkspaceEntry>)
        ensures
            views(list@) == children(self@, id@),
    {
        let mut list: Vec<WorkspaceEntry> = Vec::new();
        let mut i: usize = 0;
        proof {
            reveal(Seq::filter);
            assert(self@.take(0) =~= Seq::<EntryView>::empty());
            assert(views(list@) =~= Seq::<EntryView>::empty());
        }
        while i < self.entries.len()
            invariant
                i <= self.entries.len(),
                views(list@) == self@.take(i as int).filter(child_of(id@)),
            decreases self.entries.len() - i,
        {
            let ghost kept = views(list@);
            proof {
                reveal(Seq::filter);
                assert(self@.take(i + 1).drop_last() =~= self@.take(i as int));
                assert(self@.take(i + 1).last() == self@[i as int]);
            }
            if is_text(&self.entries[i].parent_id, id) {
                let copy = self.entries[i].clone();
                list.push(copy);
                assert(views(list@) =~= kept.push(self@[i as int]));
            }
            i += 1;
        }
        assert(self@.take(self@.len() as int) =~= self@);
        list
    }

    /// Takes the workspace `id` and all its worktrees out of the store.
    pub fn remove_with_children(&mut self, id: &str)
        requires
            old(self).wf(),
        ensures
            final(self)@ == pruned(old(self)@, id@),
            final(self).wf(),
    {
        let mut kept: Vec<WorkspaceEntry> = Vec::new();
        let mut i: usize = 0;
        proof {
            reveal(Seq::filter);
            assert(self@.take(0) =~= Seq::<EntryView>::empty());
            assert(views(kept@) =~= Seq::<EntryView>::empty());
        }
        while i < self.entries.len()
            invariant
                i <= self.entries.len(),
                views(kept@) == self@.take(i as int).filter(apart_from(id@)),
            decreases self.entries.len() - i,
        {
            let ghost so_far = views(kept@);
            proof {
                reveal(Seq::filter);
                assert(self@.take(i + 1).drop_last() =~= self@.take(i as int));
                assert(self@.take(i + 1).last() == self@[i as int]);
            }
            let e = &self.entries[i];
            if !same_text(e.id.as_str(), id) && !is_text(&e.parent_id, id) {
                let copy = e.clone();
                kept.push(copy);
                assert(views(kept@) =~= so_far.push(self@[i as int]));
            }
            i += 1;
        }
        proof {
            assert(self@.take(self@.len() as int) =~= self@);
            lemma_filter_keeps_distinct(self@, apart_from(id@));
        }
        self.entries = kept;
    }

    /// Replaces the settings of the workspace `id` and returns a copy of the
    /// entry as it then is; nothing where the store has no such workspace.
    pub fn update_settings(&mut self, id: &str, settings: WorkspaceSettings) -> (r: Option<
        WorkspaceEntry,
    >)
        requires
            old(self).wf(),
        ensures
            final(self)@ == with_settings(old(self)@, id@, settings),
            final(self).wf(),
            match r {
                Some(e) => entry_of(final(self)@, id@) == Some(e@) && contains_id(old(self)@, id@),
                None => !contains_id(old(self)@, id@),
            },
    {
        let i = self.find(id);
        proof {
            lemma_position(self@, id@);
        }
        let ghost before = self@;
        if i < self.entries.len() {
            let mut e = self.entries[i].clone();
            e.settings = settings;
            let copy = e.clone();
            self.entries[i] = e;
            proof {
                assert(self@ =~= before.update(
                    i as int,
                    EntryView { settings, ..before[i as int] },
                ));
                lemma_position_is(self@, id@, i as int);
            }
            Some(copy)
        } else {
            None
        }
    }

    /// The store that holds the entries of a list, the later of two entries
    /// with one id in place of the earlier.
    pub fn from_entries(list: Vec<WorkspaceEntry>) -> (r: Self)
        ensures
            r@ == collected(views(list@)),
            r.wf(),
    {
        let mut store = WorkspaceStore::new();
        let mut i: usize = 0;
        proof {
            assert(views(list@).take(0) =~= Seq::<EntryView>::empty());
        }
        while i < list.len()
            invariant
                i <= list.len(),
                store.wf(),
                store@ == collected(views(list@).take(i as int)),
            decreases list.len() - i,
        {
            proof {
                assert(views(list@).take(i + 1).drop_last() =~= views(list@).take(i as int));
                assert(views(list@).take(i + 1).last() == list@[i as int]@);
            }
            store.insert(list[i].clone());
            i += 1;
        }
        assert(views(list@).take(list@.len() as int) =~= views(list@));
        store
    }
}

/// What a filter leaves of entries with distinct ids has distinct ids.
pub proof fn lemma_filter_keeps_distinct(s: Seq<EntryView>, p: spec_fn(EntryView) -> bool)
    requires
        ids_distinct(s),
    ensures
        ids_distinct(s.filter(p)),
        forall|e: EntryView| #[trigger] s.filter(p).contains(e) ==> s.contains(e) && p(e),
        forall|i: int| 0 <= i < s.len() && p(s[i]) ==> s.filter(p).contains(#[trigger] s[i]),
    decreases s.len(),
{
    reveal(Seq::filter);
    if s.len() > 0 {
        let head = s.drop_last();
        lemma_filter_keeps_distinct(head, p);
        let f = s.filter(p);
        let hf = head.filter(p);
        assert forall|e: EntryView| #[trigger] f.contains(e) implies s.contains(e) && p(e) by {
            let k = choose|k: int| 0 <= k < f.len() && f[k] == e;
            if k < hf.len() {
                assert(hf[k] == e);
                assert(hf.contains(e));
                let m = choose|m: int| 0 <= m < head.len() && head[m] == e;
                assert(s[m] == e);
            } else {
                assert(e == s.last());
                assert(s[s.len() - 1] == e);
            }
        }
        assert forall|i: int| 0 <= i < s.len() && p(s[i]) implies f.contains(#[trigger] s[i]) by {
            if i < head.len() {
                assert(head[i] == s[i]);
                assert(hf.contains(head[i]));
                let k = choose|k: int| 0 <= k < hf.len() && hf[k] == head[i];
                assert(f[k] == s[i]);
            } else {
                assert(f[f.len() - 1] == s[i]);
            }
        }
        assert forall|i: int, j: int| 0 <= i < j < f.len() implies f[i].id != f[j].id by {
            assert(hf[i] == f[i]);
            assert(hf.contains(f[i]));
            let a = choose|a: int| 0 <= a < head.len() && head[a] == f[i];
            assert(s[a] == f[i]);
            if j < hf.len() {
                assert(hf[j] == f[j]);
            } else {
                assert(f[j] == s.last());
            }
        }
    }
}

} // verus!
