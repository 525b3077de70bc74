use vstd::prelude::*;
use crate::text::{same_text, texts};

verus! {

/// The index of the first occurrence of `id`, and the length where there is none.
pub open spec fn first_index(ids: Seq<Seq<char>>, id: Seq<char>) -> int
    decreases ids.len(),
{
    if ids.len() == 0 {
        0
    } else if ids[0] == id {
        0
    } else {
        1 + first_index(ids.drop_first(), id)
    }
}

/// No id occurs twice.
pub open spec fn distinct(ids: Seq<Seq<char>>) -> bool {
    forall|i: int, j: int| 0 <= i < j < ids.len() ==> ids[i] != ids[j]
}

/// `first_index` is the least index at which the id stands, or the length.
pub proof fn lemma_first_index(ids: Seq<Seq<char>>, id: Seq<char>)
    ensures
        0 <= first_index(ids, id) <= ids.len(),
        first_index(ids, id) < ids.len() ==> ids[first_index(ids, id)] == id,
        forall|k: int| 0 <= k < first_index(ids, id) ==> ids[k] != id,
        first_index(ids, id) < ids.len() <==> ids.contains(id),
    decreases ids.len(),
{
    if ids.len() > 0 && ids[0] != id {
        let rest = ids.drop_first();
        lemma_first_index(rest, id);
        assert forall|k: int| 0 <= k < first_index(ids, id) implies ids[k] != id by {
            if k > 0 {
                assert(ids[k] == rest[k - 1]);
            }
        }
        if rest.contains(id) {
            let k = choose|k: int| 0 <= k < rest.len() && rest[k] == id;
            assert(ids[k + 1] == id);
        }
        if ids.contains(id) {
            let k = choose|k: int| 0 <= k < ids.len() && ids[k] == id;
            assert(rest[k - 1] == id);
        }
    } else if ids.len() > 0 {
        assert(ids[0] == id);
    }
}

/// An index is the first index of an id that stands there and nowhere before.
pub proof fn lemma_first_index_is(ids: Seq<Seq<char>>, id: Seq<char>, i: int)
    requires
        0 <= i <= ids.len(),
        forall|k: int| 0 <= k < i ==> ids[k] != id,
        i < ids.len() ==> ids[i] == id,
    ensures
        first_index(ids, id) == i,
    decreases ids.len(),
{
    if ids.len() > 0 && i > 0 {
        assert(ids[0] != id);
        let rest = ids.drop_first();
        assert forall|k: int| 0 <= k < i - 1 implies rest[k] != id by {
            assert(rest[k] == ids[k + 1]);
        }
        lemma_first_index_is(rest, id, i - 1);
    }
}

/// The live sessions by workspace id. A workspace is connected exactly
/// while it has a session here.
pub struct SessionRegistry<S> {
    ids: Vec<String>,
    handles: Vec<S>,
}

impl<S> SessionRegistry<S> {
    /// The ids of the connected workspaces, in the order of their connection.
    pub closed spec fn ids(&self) -> Seq<Seq<char>> {
        texts(self.ids@)
    }

    /// The sessions, each at the index of its workspace's id.
    pub closed spec fn handles(&self) -> Seq<S> {
        self.handles@
    }

    /// The invariant of a registry: one session for each id, and no id twice.
    pub open spec fn wf(&self) -> bool {
        self.ids().len() == self.handles().len() && distinct(self.ids())
    }

    /// Whether the workspace `id` has a session.
    pub open spec fn connected(&self, id: Seq<char>) -> bool {
        self.ids().contains(id)
    }

    /// The session of the workspace `id`, where it has one.
    pub open spec fn session_of(&self, id: Seq<char>) -> Option<S> {
        if self.connected(id) {
            Some(self.handles()[first_index(self.ids(), id)])
        } else {
            None
        }
    }

    /// The registry without a session.
    pub fn new() -> (r: Self)
        ensures
            r.wf(),
            r.ids() == Seq::<Seq<char>>::empty(),
            r.handles() == Seq::<S>::empty(),
    {
        let r = SessionRegistry { ids: Vec::new(), handles: Vec::new() };
        assert(r.ids() =~= Seq::<Seq<char>>::empty());
        r
    }

    /// The number of sessions.
    pub fn len(&self) -> (n: usize)
        ensures
            n == self.ids().len(),
    {
        self.ids.len()
    }

    fn find(&self, id: &str) -> (i: usize)
        ensures
            i == first_index(self.ids(), id@),
            i <= self.ids().len(),
            i < self.ids().len() <==> self.connected(id@),
    {
        let mut i: usize = 0;
        while i < self.ids.len()
            invariant
                i <= self.ids.len(),
                forall|k: int| 0 <= k < i ==> self.ids()[k] != id@,
            decreases self.ids.len() - i,
        {
            if same_text(self.ids[i].as_str(), id) {
                proof {
                    assert(self.ids()[i as int] == id@);
                    lemma_first_index_is(self.ids(), id@, i as int);
                    lemma_first_index(self.ids(), id@);
                }
                return i;
            }
            i += 1;
        }
        proof {
            lemma_first_index_is(self.ids(), id@, i as int);
            lemma_first_index(self.ids(), id@);
        }
        i
    }

    /// Whether the workspace `id` has a session.
    pub fn contains(&self, id: &str) -> (r: bool)
        ensures
            r == self.connected(id@),
    {
        self.find(id) < self.ids.len()
    }

    /// The session of the workspace `id`.
    pub fn get(&self, id: &str) -> (r: Option<&S>)
        requires
            self.wf(),
        ensures
            match r {
                Some(handle) => self.session_of(id@) == Some(*handle),
                None => self.session_of(id@) is None,
            },
    {
        let i = self.find(id);
        if i < self.ids.len() {
            Some(&self.handles[i])
        } else {
            None
        }
    }

    /// Registers a session for the workspace `id` and hands back the one
    /// that it replaces, if the workspace had one.
    pub fn insert(&mut self, id: String, handle: S) -> (replaced: Option<S>)
        requires
            old(self).wf(),
        ensures
            final(self).wf(),
            final(self).connected(id@),
            final(self).session_of(id@) == Some(handle),
            replaced == old(self).session_of(id@),
            forall|other: Seq<char>|
                other != id@ ==> final(self).connected(other) == old(self).connected(other)
                    && final(self).session_of(other) == old(self).session_of(other),
    {
        let i = self.find(id.as_str());
        let ghost ids = self.ids();
        let ghost handles = self.handles();
        proof {
            lemma_first_index(ids, id@);
        }
        if i < self.ids.len() {
            let mut slot = handle;
            std::mem::swap(&mut self.handles[i], &mut slot);
            proof {
                assert(self.handles() =~= handles.update(i as int, handle));
                assert forall|other: Seq<char>| other != id@ implies self.session_of(other) == old(
                    self,
                ).session_of(other) by {
                    lemma_first_index(ids, other);
                }
            }
            Some(slot)
        } else {
            self.ids.push(id);
            self.handles.push(handle);
            proof {
                assert(self.ids() =~= ids.push(id@));
                assert(self.ids()[ids.len() as int] == id@);
                lemma_first_index_is(self.ids(), id@, ids.len() as int);
                assert forall|other: Seq<char>| other != id@ implies self.connected(other) == old(
                    self,
                ).connected(other) && self.session_of(other) == old(self).session_of(other) by {
                    lemma_first_index(ids, other);
                    lemma_first_index(self.ids(), other);
                    if ids.contains(other) {
                        let k = first_index(ids, other);
                        assert(self.ids()[k] == other);
                        lemma_first_index_is(self.ids(), other, k);
                    } else if self.ids().contains(other) {
                        let k = first_index(self.ids(), other);
                        assert(ids[k] == other);
                    }
                }
            }
            None
        }
    }

    /// Takes the session of the workspace `id` out of the registry, if it has one.
    pub fn remove(&mut self, id: &str) -> (removed: Option<S>)
        requires
            old(self).wf(),
        ensures
            final(self).wf(),
            !final(self).connected(id@),
            removed == old(self).session_of(id@),
            forall|other: Seq<char>|
                other != id@ ==> final(self).connected(other) == old(self).connected(other)
                    && final(self).session_of(other) == old(self).session_of(other),
    {
        let i = self.find(id);
        let ghost ids = self.ids();
        let ghost handles = self.handles();
        proof {
            lemma_first_index(ids, id@);
        }
        if i < self.ids.len() {
            self.ids.remove(i);
            let handle = self.handles.remove(i);
            proof {
                let now = self.ids();
                assert(now =~= ids.remove(i as int));
                assert forall|a: int, b: int| 0 <= a < b < now.len() implies now[a] != now[b] by {
                    let sa = if a < i { a } else { a + 1 };
                    let sb = if b < i { b } else { b + 1 };
                    assert(now[a] == ids[sa] && now[b] == ids[sb]);
                }
                if now.contains(id@) {
                    let k = choose|k: int| 0 <= k < now.len() && now[k] == id@;
                    let sk = if k < i { k } else { k + 1 };
                    assert(ids[sk] == id@);
                    assert(false);
                }
                assert forall|other: Seq<char>| other != id@ implies self.connected(other) == old(
                    self,
                ).connected(other) && self.session_of(other) == old(self).session_of(other) by {
                    lemma_first_index(ids, other);
                    lemma_first_index(now, other);
                    if ids.contains(other) {
                        let k = first_index(ids, other);
                        let nk = if k < i { k } else { k - 1 };
                        assert(now[nk] == other);
                        assert forall|m: int| 0 <= m < nk implies now[m] != other by {
                            let sm = if m < i { m } else { m + 1 };
                            assert(now[m] == ids[sm]);
                        }
                        lemma_first_index_is(now, other, nk);
                    } else if now.contains(other) {
                        let k = first_index(now, other);
                        let sk = if k < i { k } else { k + 1 };
                        assert(ids[sk] == other);
                    }
                }
            }
            Some(handle)
        } else {
            None
        }
    }
}

} // verus!
