use vstd::prelude::*;
use crate::sessions::SessionRegistry;
use crate::store::WorkspaceStore;
use crate::text::chars_of;
use crate::workspace::{EntryView, InfoView, WorkspaceEntry, WorkspaceInfo};

verus! {

/// Whether the text `a` stands before the text `b`, or is the same: the
/// order of the dictionary, character by character, a character before
/// another when its code point is smaller.
pub open spec fn precedes(a: Seq<char>, b: Seq<char>) -> bool
    decreases a.len(),
{
    if a.len() == 0 {
        true
    } else if b.len() == 0 {
        false
    } else if a[0] != b[0] {
        (a[0] as u32) < (b[0] as u32)
    } else {
        precedes(a.drop_first(), b.drop_first())
    }
}

/// Two different characters have different code points.
pub proof fn lemma_code_points_differ(x: char, y: char)
    requires
        x != y,
    ensures
        x as u32 != y as u32,
{
}

/// Of two texts one stands before the other.
pub proof fn lemma_precedes_total(a: Seq<char>, b: Seq<char>)
    ensures
        precedes(a, b) || precedes(b, a),
    decreases a.len(),
{
    if a.len() > 0 && b.len() > 0 {
        if a[0] == b[0] {
            lemma_precedes_total(a.drop_first(), b.drop_first());
        } else {
            lemma_code_points_differ(a[0], b[0]);
        }
    }
}

/// What stands before a text stands before everything that the text stands before.
pub proof fn lemma_precedes_transitive(a: Seq<char>, b: Seq<char>, c: Seq<char>)
    requires
        precedes(a, b),
        precedes(b, c),
    ensures
        precedes(a, c),
    decreases a.len(),
{
    if a.len() > 0 && b.len() > 0 && c.len() > 0 {
        if a[0] == b[0] && b[0] == c[0] {
            lemma_precedes_transitive(a.drop_first(), b.drop_first(), c.drop_first());
        }
    }
}

/// Whether the text `a` stands before the text `b`, or is the same.
pub fn text_precedes(a: &str, b: &str) -> (r: bool)
    ensures
        r == precedes(a@, b@),
{
    let x = chars_of(a);
    let y = chars_of(b);
    let mut i: usize = 0;
    proof {
        assert(a@.skip(0) =~= a@);
        assert(b@.skip(0) =~= b@);
    }
    while i < x.len() && i < y.len()
        invariant
            i <= x.len(),
            i <= y.len(),
            x@ == a@,
            y@ == b@,
            precedes(a@, b@) == precedes(a@.skip(i as int), b@.skip(i as int)),
        decreases x.len() - i,
    {
        proof {
            assert(a@.skip(i as int)[0] == x@[i as int]);
            assert(b@.skip(i as int)[0] == y@[i as int]);
            assert(a@.skip(i as int).drop_first() =~= a@.skip(i + 1));
            assert(b@.skip(i as int).drop_first() =~= b@.skip(i + 1));
        }
        if x[i] != y[i] {
            return (x[i] as u32) < (y[i] as u32);
        }
        i += 1;
    }
    i == x.len()
}

/// The values of a list of workspaces as they are shown.
pub open spec fn info_views(list: Seq<WorkspaceInfo>) -> Seq<InfoView> {
    list.map_values(|w: WorkspaceInfo| w@)
}

/// Where a workspace named `name` goes into a list that is in order:
/// behind every workspace whose name stands before it or is the same.
pub open spec fn slot_for(list: Seq<InfoView>, name: Seq<char>) -> int
    decreases list.len(),
{
    if list.len() == 0 {
        0
    } else if precedes(list[0].entry.name, name) {
        1 + slot_for(list.drop_first(), name)
    } else {
        0
    }
}

/// The workspaces of `list` in the order of their names, those of one
/// name in the order in which the list has them.
pub open spec fn by_name(list: Seq<InfoView>) -> Seq<InfoView>
    decreases list.len(),
{
    if list.len() == 0 {
        list
    } else {
        let before = by_name(list.drop_last());
        before.insert(slot_for(before, list.last().entry.name), list.last())
    }
}

/// Whether the names of a list are in order.
pub open spec fn in_order(list: Seq<InfoView>) -> bool {
    forall|i: int, j: int|
        0 <= i < j < list.len() ==> precedes(
            (#[trigger] list[i]).entry.name,
            (#[trigger] list[j]).entry.name,
        )
}

/// The entries as they are shown, each with its connection state.
pub open spec fn shown(s: Seq<EntryView>, connected: spec_fn(Seq<char>) -> bool) -> Seq<
    InfoView,
> {
    s.map_values(|e: EntryView| InfoView { entry: e, connected: connected(e.id) })
}

/// The slot is within the list; what stands before it has a name that
/// stands before `name`, and what stands at it has not.
pub proof fn lemma_slot_for(list: Seq<InfoView>, name: Seq<char>)
    ensures
        0 <= slot_for(list, name) <= list.len(),
        forall|k: int|
            0 <= k < slot_for(list, name) ==> precedes((#[trigger] list[k]).entry.name, name),
        slot_for(list, name) < list.len() ==> !precedes(
            list[slot_for(list, name)].entry.name,
            name,
        ),
    decreases list.len(),
{
    if list.len() > 0 && precedes(list[0].entry.name, name) {
        let rest = list.drop_first();
        lemma_slot_for(rest, name);
        assert forall|k: int| 0 <= k < slot_for(list, name) implies precedes(
            (#[trigger] list[k]).entry.name,
            name,
        ) by {
            if k > 0 {
                assert(list[k] == rest[k - 1]);
            }
        }
    }
}

/// An index is the slot when everything before it has a name that stands
/// before `name` and what stands at it has not.
pub proof fn lemma_slot_is(list: Seq<InfoView>, name: Seq<char>, k: int)
    requires
        0 <= k <= list.len(),
        forall|i: int| 0 <= i < k ==> precedes((#[trigger] list[i]).entry.name, name),
        k < list.len() ==> !precedes(list[k].entry.name, name),
    ensures
        slot_for(list, name) == k,
    decreases list.len(),
{
    if list.len() > 0 && k > 0 {
        assert(precedes(list[0].entry.name, name));
        let rest = list.drop_first();
        assert forall|i: int| 0 <= i < k - 1 implies precedes(
            (#[trigger] rest[i]).entry.name,
            name,
        ) by {
            assert(rest[i] == list[i + 1]);
        }
        lemma_slot_is(rest, name, k - 1);
    }
}

/// A list in order stays in order when a workspace is put into its slot.
pub proof fn lemma_insert_keeps_order(list: Seq<InfoView>, w: InfoView)
    requires
        in_order(list),
    ensures
        in_order(list.insert(slot_for(list, w.entry.name), w)),
{
    let name = w.entry.name;
    let k = slot_for(list, name);
    lemma_slot_for(list, name);
    let r = list.insert(k, w);
    assert forall|i: int, j: int| 0 <= i < j < r.len() implies precedes(
        (#[trigger] r[i]).entry.name,
        (#[trigger] r[j]).entry.name,
    ) by {
        if j < k {
            assert(r[i] == list[i] && r[j] == list[j]);
        } else if j == k {
            assert(r[i] == list[i]);
        } else if i == k {
            assert(r[j] == list[j - 1]);
            lemma_precedes_total(list[k].entry.name, name);
            if j - 1 > k {
                lemma_precedes_transitive(name, list[k].entry.name, list[j - 1].entry.name);
            }
        } else if i < k {
            assert(r[i] == list[i] && r[j] == list[j - 1]);
        } else {
            assert(r[i] == list[i - 1] && r[j] == list[j - 1]);
        }
    }
}

/// The list by name is in order, and it holds what the list holds, each
/// workspace as often as the list has it.
pub proof fn law_listing_is_sorted(list: Seq<InfoView>)
    ensures
        in_order(by_name(list)),
        by_name(list).len() == list.len(),
        by_name(list).to_multiset() == list.to_multiset(),
    decreases list.len(),
{
    if list.len() == 0 {
    } else {
        let head = list.drop_last();
        law_listing_is_sorted(head);
        let before = by_name(head);
        let k = slot_for(before, list.last().entry.name);
        lemma_slot_for(before, list.last().entry.name);
        lemma_insert_keeps_order(before, list.last());
        vstd::seq_lib::to_multiset_insert(before, k, list.last());
        assert(head.push(list.last()) =~= list);
        vstd::seq_lib::to_multiset_build(head, list.last());
    }
}

/// Puts a workspace into a list that is being put in order by name.
fn place(sorted: &mut Vec<WorkspaceInfo>, w: WorkspaceInfo)
    ensures
        info_views(final(sorted)@) == info_views(old(sorted)@).insert(
            slot_for(info_views(old(sorted)@), w@.entry.name),
            w@,
        ),
{
    let ghost before = info_views(sorted@);
    let mut k: usize = 0;
    while k < sorted.len() && text_precedes(sorted[k].name.as_str(), w.name.as_str())
        invariant
            k <= sorted.len(),
            info_views(sorted@) == before,
            forall|i: int| 0 <= i < k ==> precedes((#[trigger] before[i]).entry.name, w@.entry.name),
        decreases sorted.len() - k,
    {
        assert(before[k as int] == sorted@[k as int]@);
        k += 1;
    }
    proof {
        if k < sorted.len() {
            assert(before[k as int] == sorted@[k as int]@);
        }
        lemma_slot_is(before, w@.entry.name, k as int);
    }
    sorted.insert(k, w);
    assert(info_views(sorted@) =~= before.insert(k as int, w@));
}

/// The workspaces of the store as they are shown, each with `connected`
/// set exactly if it has a session, in the order of their names.
pub fn list_workspaces<S>(store: &WorkspaceStore, sessions: &SessionRegistry<S>) -> (list: Vec<
    WorkspaceInfo,
>)
    ensures
        info_views(list@) == by_name(shown(store@, |id: Seq<char>| sessions.connected(id))),
        in_order(info_views(list@)),
        list@.len() == store@.len(),
{
    let entries = store.entries();
    let ghost all = shown(store@, |id: Seq<char>| sessions.connected(id));
    let mut list: Vec<WorkspaceInfo> = Vec::new();
    let mut i: usize = 0;
    proof {
        assert(all.take(0) =~= Seq::<InfoView>::empty());
        assert(info_views(list@) =~= Seq::<InfoView>::empty());
    }
    while i < entries.len()
        invariant
            i <= entries.len(),
            crate::store::views(entries@) == store@,
            all == shown(store@, |id: Seq<char>| sessions.connected(id)),
            info_views(list@) == by_name(all.take(i as int)),
        decreases entries.len() - i,
    {
        let e: &WorkspaceEntry = &entries[i];
        let connected = sessions.contains(e.id.as_str());
        let w = e.info(connected);
        proof {
            assert(crate::store::views(entries@)[i as int] == e@);
            assert(all[i as int] == w@);
            assert(all.take(i + 1).drop_last() =~= all.take(i as int));
            assert(all.take(i + 1).last() == all[i as int]);
        }
        place(&mut list, w);
        i += 1;
    }
    proof {
        assert(all.take(all.len() as int) =~= all);
        law_listing_is_sorted(all);
    }
    list
}

} // verus!
