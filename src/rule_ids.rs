use vstd::prelude::*;

verus! {

/// The live ids, oldest first, are strictly increasing and all below the next id.
pub open spec fn ordered_below(live: Seq<u32>, next: u32) -> bool {
    &&& forall|i: int, j: int| 0 <= i < j < live.len() ==> live[i] < live[j]
    &&& forall|i: int| 0 <= i < live.len() ==> live[i] < next
}

/// Registry of rule ids: hands out ever-growing logical ids and reports the
/// position of each live id's rule in the stylesheet, which is its rank among
/// the live ids in allocation order. Positions are never stored; they are
/// computed from the ordered sequence of live ids on demand.
pub struct MonotonicIds {
    next_id: u32,
    ids: Vec<u32>,
}

impl MonotonicIds {
    /// The live ids, in the order in which they were allocated.
    pub closed spec fn live(&self) -> Seq<u32> {
        self.ids@
    }

    /// The id that the next allocation hands out.
    pub closed spec fn next(&self) -> u32 {
        self.next_id
    }

    pub open spec fn wf(&self) -> bool {
        ordered_below(self.live(), self.next())
    }

    pub fn new() -> (r: MonotonicIds)
        ensures
            r.wf(),
            r.live() == Seq::<u32>::empty(),
            r.next() == 0,
    {
        MonotonicIds { next_id: 0, ids: Vec::new() }
    }

    /// Number of live ids, which is the number of rules in the stylesheet.
    pub fn len(&self) -> (r: usize)
        ensures
            r == self.live().len(),
    {
        self.ids.len()
    }

    /// Allocates a fresh id and the index at which its rule must be inserted:
    /// the tail of the live sequence. `None` once every `u32` id was used.
    pub fn add_new_id(&mut self) -> (r: Option<(u32, usize)>)
        requires
            old(self).wf(),
        ensures
            final(self).wf(),
            r is None <==> old(self).next() == u32::MAX,
            r is None ==> final(self).live() == old(self).live() && final(self).next() == old(self).next(),
            r matches Some((id, index)) ==> {
                &&& id == old(self).next()
                &&& index == old(self).live().len()
                &&& final(self).live() == old(self).live().push(id)
                &&& final(self).next() == id + 1
            },
    {
        if self.next_id == u32::MAX {
            return None;
        }
        let id = self.next_id;
        let index = self.ids.len();
        self.ids.push(id);
        self.next_id = id + 1;
        Some((id, index))
    }

    /// Current index of `id`'s rule, if `id` is live.
    pub fn index_of(&self, id: u32) -> (r: Option<usize>)
        requires
            self.wf(),
        ensures
            r is None <==> !self.live().contains(id),
            r matches Some(i) ==> i < self.live().len() && self.live()[i as int] == id,
    {
        let mut i: usize = 0;
        while i < self.ids.len()
            invariant
                i <= self.ids@.len(),
                forall|j: int| 0 <= j < i ==> self.ids@[j] != id,
            decreases self.ids@.len() - i,
        {
            if self.ids[i] == id {
                return Some(i);
            }
            i = i + 1;
        }
        None
    }

    /// Removes `id` from the live ids and returns the index its rule had, at
    /// which the caller deletes it. The other live ids keep their order; each
    /// one after it moves down by one. `None`, with nothing changed, if `id`
    /// is not live.
    pub fn remove_id(&mut self, id: u32) -> (r: Option<usize>)
        requires
            old(self).wf(),
        ensures
            final(self).wf(),
            final(self).next() == old(self).next(),
            r is None <==> !old(self).live().contains(id),
            r is None ==> final(self).live() == old(self).live(),
            r matches Some(i) ==> {
                &&& i < old(self).live().len()
                &&& old(self).live()[i as int] == id
                &&& final(self).live() == old(self).live().remove(i as int)
            },
    {
        match self.index_of(id) {
            None => None,
            Some(i) => {
                self.ids.remove(i);
                Some(i)
            },
        }
    }
}

/// The `i`-th live id is at least `i`: ids only grow and none repeats.
proof fn lemma_id_at_least_rank(live: Seq<u32>, next: u32, i: int)
    requires
        ordered_below(live, next),
        0 <= i < live.len(),
    ensures
        live[i] >= i,
    decreases i,
{
    if i > 0 {
        lemma_id_at_least_rank(live, next, i - 1);
        assert(live[i - 1] < live[i]);
    }
}

/// There are never more live ids than ids handed out, so every index fits in
/// a `u32`.
pub proof fn lemma_live_count_bounded(live: Seq<u32>, next: u32)
    requires
        ordered_below(live, next),
    ensures
        live.len() <= next,
{
    if live.len() > 0 {
        lemma_id_at_least_rank(live, next, live.len() - 1);
    }
}

/// The index reported for a live id is its rank among the live ids ordered by
/// allocation time: exactly the ids before it are older, those after it newer.
pub proof fn lemma_index_is_rank(ids: MonotonicIds, id: u32, index: int)
    requires
        ids.wf(),
        0 <= index < ids.live().len(),
        ids.live()[index] == id,
    ensures
        forall|j: int| 0 <= j < index ==> ids.live()[j] < id,
        forall|j: int| index < j < ids.live().len() ==> ids.live()[j] > id,
        forall|j: int| 0 <= j < ids.live().len() && ids.live()[j] == id ==> j == index,
{
}

/// Removing a live id keeps the relative order of every pair of remaining ids.
pub proof fn lemma_remove_keeps_order(before: Seq<u32>, next: u32, index: int)
    requires
        ordered_below(before, next),
        0 <= index < before.len(),
    ensures
        ordered_below(before.remove(index), next),
        forall|a: int| 0 <= a < before.remove(index).len() ==> #[trigger] before.remove(index)[a]
            == before[if a < index { a } else { a + 1 }],
{
}

/// Allocating an id and then removing it restores the live ids as they were,
/// so a scoped rule applied and then released leaves the rule count unchanged.
pub proof fn lemma_add_then_remove(before: Seq<u32>, next: u32, id: u32, index: int)
    requires
        ordered_below(before, next),
        id == next,
        0 <= index < before.push(id).len(),
        before.push(id)[index] == id,
    ensures
        before.push(id).remove(index) == before,
        before.push(id).remove(index).len() == before.len(),
{
    assert(index == before.len());
    assert(before.push(id).remove(index) =~= before);
}

} // verus!
