use vstd::prelude::*;
use vstd::string::StringExecFns;
use crate::style::{entries_with, entries_without, position_of, unique_names, PropEntry, StaticCSSProps, StyleError};

verus! {

/// Number of prefixes tried on a name or a value, the empty one included.
pub const PREFIX_COUNT: usize = 5;

/// Number of (name prefix, value prefix) combinations.
pub const COMBINATION_COUNT: usize = 25;

/// The prefixes in the order in which they are tried: none, then the vendor
/// prefixes.
pub open spec fn prefix(i: int) -> Seq<char> {
    if i == 0 {
        ""@
    } else if i == 1 {
        "-webkit-"@
    } else if i == 2 {
        "-moz-"@
    } else if i == 3 {
        "-o-"@
    } else {
        "-ms-"@
    }
}

/// The `k`-th combination tried for `name: value`: name prefixes in the outer
/// order, value prefixes in the inner one. The first one is the pair itself.
pub open spec fn candidate(name: Seq<char>, value: Seq<char>, k: int) -> (Seq<char>, Seq<char>) {
    (prefix(k / 5) + name, prefix(k % 5) + value)
}

pub fn prefix_at(i: usize) -> (r: &'static str)
    requires
        i < PREFIX_COUNT,
    ensures
        r@ == prefix(i as int),
{
    if i == 0 {
        ""
    } else if i == 1 {
        "-webkit-"
    } else if i == 2 {
        "-moz-"
    } else if i == 3 {
        "-o-"
    } else {
        "-ms-"
    }
}

/// The `k`-th combination tried for `name: value`, as strings.
pub fn candidate_at(name: &str, value: &str, k: usize) -> (r: (String, String))
    requires
        k < COMBINATION_COUNT,
    ensures
        (r.0@, r.1@) == candidate(name@, value@, k as int),
{
    let n = String::from_str(prefix_at(k / PREFIX_COUNT)).concat(name);
    let v = String::from_str(prefix_at(k % PREFIX_COUNT)).concat(value);
    (n, v)
}

/// What the search does after writing the `k`-th combination and reading the
/// property back.
#[derive(Debug, PartialEq, Eq)]
pub enum SearchStep {
    /// The property read back non-empty: stop at this combination.
    Found(usize),
    /// It read back empty: write the next combination.
    Next(usize),
    /// It read back empty and no combination is left.
    Exhausted,
}

/// The search's decision after the `k`-th write read back `back`.
pub fn search_step(k: usize, back: &String) -> (r: SearchStep)
    requires
        k < COMBINATION_COUNT,
    ensures
        back@.len() > 0 ==> r == SearchStep::Found(k),
        back@.len() == 0 && k + 1 < COMBINATION_COUNT ==> r == SearchStep::Next((k + 1) as usize),
        back@.len() == 0 && k + 1 == COMBINATION_COUNT ==> r == SearchStep::Exhausted,
{
    let empty = String::new();
    if *back != empty {
        proof {
            if back@.len() == 0 {
                assert(back@ =~= empty@);
            }
        }
        SearchStep::Found(k)
    } else {
        proof {
            assert(back@ =~= empty@);
        }
        if k + 1 < COMBINATION_COUNT {
            SearchStep::Next(k + 1)
        } else {
            SearchStep::Exhausted
        }
    }
}

/// What reading `name` back from a declaration gives: its value, or the empty
/// string where it is not set.
pub open spec fn readback(entries: Seq<PropEntry>, name: Seq<char>) -> Seq<char> {
    match position_of(entries, name) {
        Some(i) => entries[i].1,
        None => Seq::<char>::empty(),
    }
}

/// Whether the simulated engine keeps a write of `name: value`.
pub open spec fn keeps(accepted: Seq<(Seq<char>, Seq<char>)>, name: Seq<char>, value: Seq<char>) -> bool {
    accepted.contains((name, value)) && value.len() > 0
}

/// Whether, from declaration state `entries`, writing the `k`-th combination
/// leaves a non-empty value to read back.
pub open spec fn succeeds_at(
    entries: Seq<PropEntry>,
    accepted: Seq<(Seq<char>, Seq<char>)>,
    name: Seq<char>,
    value: Seq<char>,
    k: int,
) -> bool {
    let c = candidate(name, value, k);
    keeps(accepted, c.0, c.1) || readback(entries, c.0).len() > 0
}

/// The first combination, from the `k`-th on, whose write reads back
/// non-empty.
pub open spec fn first_success_from(
    entries: Seq<PropEntry>,
    accepted: Seq<(Seq<char>, Seq<char>)>,
    name: Seq<char>,
    value: Seq<char>,
    k: int,
) -> Option<int>
    decreases 25 - k,
{
    if k >= 25 || k < 0 {
        None
    } else if succeeds_at(entries, accepted, name, value, k) {
        Some(k)
    } else {
        first_success_from(entries, accepted, name, value, k + 1)
    }
}

/// Declaration state after applying `name: value` with the prefix search:
/// only the first combination that reads back is kept, and only if the engine
/// kept that write.
pub open spec fn applied(
    entries: Seq<PropEntry>,
    accepted: Seq<(Seq<char>, Seq<char>)>,
    name: Seq<char>,
    value: Seq<char>,
    important: bool,
) -> Seq<PropEntry> {
    match first_success_from(entries, accepted, name, value, 0) {
        Some(k) => {
            let c = candidate(name, value, k);
            if keeps(accepted, c.0, c.1) {
                entries_with(entries, c.0, c.1, important)
            } else {
                entries
            }
        },
        None => entries,
    }
}

/// A declaration block held in memory, with the set of `(name, value)` pairs
/// that its engine accepts: a stand-in for a browser's declaration block.
pub struct SimDeclaration {
    props: StaticCSSProps,
    accepted: Vec<(String, String)>,
}

impl SimDeclaration {
    pub closed spec fn entries(&self) -> Seq<PropEntry> {
        self.props.view()
    }

    pub closed spec fn accepted(&self) -> Seq<(Seq<char>, Seq<char>)> {
        self.accepted@.map_values(|p: (String, String)| (p.0@, p.1@))
    }

    pub open spec fn wf(&self) -> bool {
        unique_names(self.entries())
    }

    closed spec fn inv(&self) -> bool {
        self.props.wf()
    }

    pub fn new(accepted: Vec<(String, String)>) -> (r: SimDeclaration)
        ensures
            r.wf(),
            r.entries() == Seq::<PropEntry>::empty(),
            r.accepted() == accepted@.map_values(|p: (String, String)| (p.0@, p.1@)),
    {
        SimDeclaration { props: StaticCSSProps::new(), accepted }
    }

    /// Number of properties set.
    pub fn len(&self) -> (r: usize)
        ensures
            r == self.entries().len(),
    {
        self.props.len()
    }

    fn accepts(&self, name: &String, value: &String) -> (r: bool)
        ensures
            r == keeps(self.accepted(), name@, value@),
    {
        let empty = String::new();
        if *value == empty {
            return false;
        }
        assert(value@.len() > 0) by {
            if value@.len() == 0 {
                assert(value@ =~= empty@);
            }
        }
        let mut i: usize = 0;
        while i < self.accepted.len()
            invariant
                i <= self.accepted@.len(),
                value@.len() > 0,
                forall|j: int| 0 <= j < i ==> #[trigger] self.accepted()[j] != (name@, value@),
            decreases self.accepted@.len() - i,
        {
            if self.accepted[i].0 == *name && self.accepted[i].1 == *value {
                assert(self.accepted()[i as int] == (name@, value@));
                assert(self.accepted().contains((name@, value@)));
                return true;
            }
            i = i + 1;
        }
        false
    }

    /// Writes `name: value` if the engine accepts the pair and the value is
    /// not empty; otherwise leaves the block as it is.
    pub fn set_property(&mut self, name: &String, value: &String, important: bool)
        requires
            old(self).wf(),
        ensures
            final(self).wf(),
            final(self).accepted() == old(self).accepted(),
            final(self).entries() == if keeps(old(self).accepted(), name@, value@) {
                entries_with(old(self).entries(), name@, value@, important)
            } else {
                old(self).entries()
            },
    {
        if self.accepts(name, value) {
            self.props.write(name.as_str(), value.as_str(), important);
        }
    }

    /// Removes property `name`, if it is set.
    pub fn remove_property(&mut self, name: &str)
        requires
            old(self).wf(),
        ensures
            final(self).wf(),
            final(self).accepted() == old(self).accepted(),
            final(self).entries() == entries_without(old(self).entries(), name@),
    {
        let _ = self.props.remove(name);
    }

    /// The value of `name`, or the empty string where it is not set.
    pub fn property_value(&self, name: &str) -> (r: String)
        requires
            self.wf(),
        ensures
            r@ == readback(self.entries(), name@),
    {
        match self.props.value_of(name) {
            Some(v) => v,
            None => String::new(),
        }
    }
}

} // verus!

verus! {

/// Writing an entry into a block with unique names keeps the names unique.
pub proof fn lemma_entries_with_unique(entries: Seq<PropEntry>, name: Seq<char>, value: Seq<char>, important: bool)
    requires
        unique_names(entries),
    ensures
        unique_names(entries_with(entries, name, value, important)),
{
    let w = entries_with(entries, name, value, important);
    match position_of(entries, name) {
        Some(p) => {
            assert(0 <= p < entries.len() && entries[p].0 == name);
            assert forall|i: int| 0 <= i < w.len() implies (#[trigger] w[i]).0 == entries[i].0 by {}
            assert forall|i: int, j: int| 0 <= i < j < w.len() implies (#[trigger] w[i]).0 != (#[trigger] w[j]).0 by {
                assert(entries[i].0 != entries[j].0);
            }
        },
        None => {
            assert forall|i: int| 0 <= i < entries.len() implies (#[trigger] entries[i]).0 != name by {}
            assert forall|i: int, j: int| 0 <= i < j < w.len() implies (#[trigger] w[i]).0 != (#[trigger] w[j]).0 by {
                if j < entries.len() {
                    assert(entries[i].0 != entries[j].0);
                } else {
                    assert(entries[i].0 != name);
                }
            }
        },
    }
}

/// After writing `name: value` into a block with unique names, `name` reads
/// back as `value`.
pub proof fn lemma_readback_written(entries: Seq<PropEntry>, name: Seq<char>, value: Seq<char>, important: bool)
    requires
        unique_names(entries),
    ensures
        readback(entries_with(entries, name, value, important), name) == value,
{
    lemma_entries_with_unique(entries, name, value, important);
    let w = entries_with(entries, name, value, important);
    let i = match position_of(entries, name) {
        Some(p) => p,
        None => entries.len() as int,
    };
    if let Some(p) = position_of(entries, name) {
        assert(0 <= p < entries.len() && entries[p].0 == name);
    }
    assert(0 <= i < w.len() && w[i] == (name, value, important));
    let c = position_of(w, name)->Some_0;
    assert(position_of(w, name) is Some);
    assert(w[c].0 == name);
    if c != i {
        if c < i {
            assert(w[c].0 != w[i].0);
        } else {
            assert(w[i].0 != w[c].0);
        }
    }
}

/// Writing the same entry a second time changes nothing.
pub proof fn lemma_entries_with_twice(entries: Seq<PropEntry>, name: Seq<char>, value: Seq<char>, important: bool)
    requires
        unique_names(entries),
    ensures
        entries_with(entries_with(entries, name, value, important), name, value, important)
            == entries_with(entries, name, value, important),
{
    lemma_entries_with_unique(entries, name, value, important);
    let w = entries_with(entries, name, value, important);
    let i = match position_of(entries, name) {
        Some(p) => p,
        None => entries.len() as int,
    };
    if let Some(p) = position_of(entries, name) {
        assert(0 <= p < entries.len() && entries[p].0 == name);
    }
    assert(0 <= i < w.len() && w[i] == (name, value, important));
    assert(position_of(w, name) is Some);
    let c = position_of(w, name)->Some_0;
    assert(w[c].0 == name);
    if c != i {
        if c < i {
            assert(w[c].0 != w[i].0);
        } else {
            assert(w[i].0 != w[c].0);
        }
    }
    assert(w.update(i, (name, value, important)) =~= w);
}

/// The combination that the search reports reads back, and none before it
/// does: the search stops at the first working combination in prefix order.
pub proof fn lemma_first_success_is_first(
    entries: Seq<PropEntry>,
    accepted: Seq<(Seq<char>, Seq<char>)>,
    name: Seq<char>,
    value: Seq<char>,
    from: int,
)
    requires
        0 <= from,
    ensures
        first_success_from(entries, accepted, name, value, from) matches Some(k) ==> {
            &&& from <= k < 25
            &&& succeeds_at(entries, accepted, name, value, k)
            &&& forall|j: int| from <= j < k ==> !succeeds_at(entries, accepted, name, value, j)
        },
        first_success_from(entries, accepted, name, value, from) is None
            ==> forall|j: int| from <= j < 25 ==> !succeeds_at(entries, accepted, name, value, j),
    decreases 25 - from,
{
    if from < 25 && !succeeds_at(entries, accepted, name, value, from) {
        lemma_first_success_is_first(entries, accepted, name, value, from + 1);
        assert forall|j: int| from <= j < 25 && j == from implies !succeeds_at(entries, accepted, name, value, j) by {}
    }
}

impl SimDeclaration {
    /// Applies `name: value` at the given priority: writes each combination
    /// of vendor prefixes in turn, the unprefixed pair first, and stops at the
    /// first one that reads back non-empty, whose index it returns. Where none
    /// does, the property is invalid.
    pub fn apply(&mut self, name: &str, value: &str, important: bool) -> (r: Result<usize, StyleError>)
        requires
            old(self).wf(),
        ensures
            final(self).wf(),
            final(self).accepted() == old(self).accepted(),
            final(self).entries() == applied(old(self).entries(), old(self).accepted(), name@, value@, important),
            r matches Ok(k) ==> first_success_from(old(self).entries(), old(self).accepted(), name@, value@, 0) == Some(k as int),
            r is Err ==> first_success_from(old(self).entries(), old(self).accepted(), name@, value@, 0) is None,
            r matches Err(e) ==> e matches StyleError::InvalidProperty(n, v) && n@ == name@ && v@ == value@,
    {
        let mut k: usize = 0;
        loop
            invariant
                k < COMBINATION_COUNT,
                self.wf(),
                self.entries() == old(self).entries(),
                self.accepted() == old(self).accepted(),
                first_success_from(old(self).entries(), old(self).accepted(), name@, value@, 0)
                    == first_success_from(old(self).entries(), old(self).accepted(), name@, value@, k as int),
            decreases COMBINATION_COUNT - k,
        {
            let (cn, cv) = candidate_at(name, value, k);
            let ghost before = self.entries();
            self.set_property(&cn, &cv, important);
            let back = self.property_value(cn.as_str());
            proof {
                if keeps(self.accepted(), cn@, cv@) {
                    lemma_readback_written(before, cn@, cv@, important);
                }
                assert(succeeds_at(before, self.accepted(), name@, value@, k as int) <==> back@.len() > 0);
            }
            match search_step(k, &back) {
                SearchStep::Found(found) => {
                    assert(first_success_from(before, self.accepted(), name@, value@, k as int) == Some(k as int));
                    return Ok(found);
                },
                SearchStep::Next(next) => {
                    k = next;
                },
                SearchStep::Exhausted => {
                    assert(first_success_from(before, self.accepted(), name@, value@, (k + 1) as int) is None);
                    return Err(StyleError::InvalidProperty(String::from_str(name), String::from_str(value)));
                },
            }
        }
    }
}

/// Applying the same `(name, value, important)` twice leaves the block as
/// applying it once does.
pub proof fn lemma_apply_idempotent(
    entries: Seq<PropEntry>,
    accepted: Seq<(Seq<char>, Seq<char>)>,
    name: Seq<char>,
    value: Seq<char>,
    important: bool,
)
    requires
        unique_names(entries),
    ensures
        applied(applied(entries, accepted, name, value, important), accepted, name, value, important)
            == applied(entries, accepted, name, value, important),
{
    let once = applied(entries, accepted, name, value, important);
    lemma_first_success_is_first(entries, accepted, name, value, 0);
    lemma_first_success_is_first(once, accepted, name, value, 0);
    match first_success_from(entries, accepted, name, value, 0) {
        Some(k) => {
            let c = candidate(name, value, k);
            if keeps(accepted, c.0, c.1) {
                lemma_readback_written(entries, c.0, c.1, important);
                assert(succeeds_at(once, accepted, name, value, k));
                let k2 = first_success_from(once, accepted, name, value, 0)->Some_0;
                if k2 == k {
                    lemma_entries_with_twice(entries, c.0, c.1, important);
                } else {
                    assert(k2 < k);
                    assert(!succeeds_at(entries, accepted, name, value, k2));
                }
            }
        },
        None => {},
    }
}

} // verus!
