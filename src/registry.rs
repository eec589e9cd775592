use vstd::prelude::*;

use crate::group_id::GroupId;

verus! {

/// `s` with `id` appended, unless it is already there.
pub open spec fn with_group(s: Seq<Seq<u8>>, id: Seq<u8>) -> Seq<Seq<u8>> {
    if s.contains(id) {
        s
    } else {
        s.push(id)
    }
}

/// `s` with every entry equal to `id` taken out, the others kept in order.
pub open spec fn without_group(s: Seq<Seq<u8>>, id: Seq<u8>) -> Seq<Seq<u8>>
    decreases s.len(),
{
    if s.len() == 0 {
        s
    } else if s.last() == id {
        without_group(s.drop_last(), id)
    } else {
        without_group(s.drop_last(), id).push(s.last())
    }
}

/// Number of entries of `s` equal to `id`.
pub open spec fn occurrences(s: Seq<Seq<u8>>, id: Seq<u8>) -> nat
    decreases s.len(),
{
    if s.len() == 0 {
        0
    } else {
        occurrences(s.drop_last(), id) + if s.last() == id {
            1nat
        } else {
            0nat
        }
    }
}

/// The groups active on this node, in the order they were added.
pub struct GroupRegistry {
    groups: Vec<GroupId>,
}

impl View for GroupRegistry {
    type V = Seq<Seq<u8>>;

    closed spec fn view(&self) -> Seq<Seq<u8>> {
        Seq::new(self.groups@.len(), |i: int| self.groups@[i]@)
    }
}

impl GroupRegistry {
    /// An empty registry.
    pub fn new() -> (r: GroupRegistry)
        ensures
            r@ == Seq::<Seq<u8>>::empty(),
    {
        let r = GroupRegistry { groups: Vec::new() };
        assert(r@ =~= Seq::<Seq<u8>>::empty());
        r
    }

    /// A registry holding the given identifiers, in order.
    pub fn from_groups(groups: Vec<GroupId>) -> (r: GroupRegistry)
        ensures
            r@ == Seq::new(groups@.len(), |i: int| groups@[i]@),
    {
        GroupRegistry { groups }
    }

    pub fn len(&self) -> (r: usize)
        ensures
            r == self@.len(),
    {
        self.groups.len()
    }

    pub fn get(&self, i: usize) -> (r: GroupId)
        requires
            i < self@.len(),
        ensures
            r@ == self@[i as int],
    {
        self.groups[i]
    }

    /// Whether `id` is active on this node.
    pub fn contains(&self, id: &GroupId) -> (r: bool)
        ensures
            r == self@.contains(id@),
    {
        let mut i: usize = 0;
        while i < self.groups.len()
            invariant
                i <= self@.len(),
                forall|j: int| 0 <= j < i ==> self@[j] != id@,
            decreases self@.len() - i,
        {
            if self.groups[i].equals(id) {
                assert(self@[i as int] == id@);
                return true;
            }
            i = i + 1;
        }
        false
    }

    /// The default group: the first entry, if any.
    pub fn default_group(&self) -> (r: Option<GroupId>)
        ensures
            r is None <==> self@.len() == 0,
            r matches Some(g) ==> g@ == self@[0],
    {
        if self.groups.len() == 0 {
            None
        } else {
            Some(self.groups[0])
        }
    }

    /// Adds `id` unless it is already present.
    pub fn add(&mut self, id: GroupId)
        ensures
            final(self)@ == with_group(old(self)@, id@),
    {
        if !self.contains(&id) {
            self.groups.push(id);
            assert(self@ =~= old(self)@.push(id@));
        }
    }

    /// Removes every entry equal to `id`, keeping the others in order.
    pub fn remove(&mut self, id: &GroupId)
        ensures
            final(self)@ == without_group(old(self)@, id@),
    {
        let ghost s = self@;
        let mut kept: Vec<GroupId> = Vec::new();
        let mut i: usize = 0;
        while i < self.groups.len()
            invariant
                i <= s.len(),
                s == self@,
                Seq::new(kept@.len(), |k: int| kept@[k]@) == without_group(s.subrange(0, i as int), id@),
            decreases s.len() - i,
        {
            let g = self.groups[i];
            assert(s.subrange(0, i + 1).drop_last() =~= s.subrange(0, i as int));
            if !g.equals(id) {
                let ghost before = Seq::new(kept@.len(), |k: int| kept@[k]@);
                kept.push(g);
                assert(Seq::new(kept@.len(), |k: int| kept@[k]@) =~= before.push(g@));
            }
            i = i + 1;
        }
        assert(s.subrange(0, s.len() as int) =~= s);
        self.groups = kept;
    }
}

/// Adding an identifier twice leaves the registry as adding it once, and a registry
/// that held it at most once holds it exactly once afterwards.
pub proof fn lemma_add_idempotent(s: Seq<Seq<u8>>, id: Seq<u8>)
    requires
        occurrences(s, id) <= 1,
    ensures
        with_group(with_group(s, id), id) == with_group(s, id),
        occurrences(with_group(with_group(s, id), id), id) == 1,
{
    lemma_occurrences_contains(s, id);
    if !s.contains(id) {
        assert(s.push(id).drop_last() =~= s);
        assert(s.push(id).contains(id)) by {
            assert(s.push(id)[s.len() as int] == id);
        }
    }
}

/// Removing an identifier takes out all of its occurrences, duplicates included,
/// and keeps every other entry.
pub proof fn lemma_remove_all(s: Seq<Seq<u8>>, id: Seq<u8>)
    ensures
        !without_group(s, id).contains(id),
        occurrences(without_group(s, id), id) == 0,
        forall|x: Seq<u8>| x != id ==> occurrences(#[trigger] without_group(s, id), x) == occurrences(s, x),
    decreases s.len(),
{
    if s.len() > 0 {
        lemma_remove_all(s.drop_last(), id);
        let r = without_group(s.drop_last(), id);
        if s.last() != id {
            assert(r.push(s.last()).drop_last() =~= r);
        }
        assert forall|x: Seq<u8>| x != id implies occurrences(#[trigger] without_group(s, id), x)
            == occurrences(s, x) by {
            assert(occurrences(r, x) == occurrences(s.drop_last(), x));
        }
    }
    lemma_occurrences_contains(without_group(s, id), id);
}

/// An entry occurs in a sequence exactly when it is counted there.
pub proof fn lemma_occurrences_contains(s: Seq<Seq<u8>>, id: Seq<u8>)
    ensures
        s.contains(id) <==> occurrences(s, id) > 0,
    decreases s.len(),
{
    if s.len() > 0 {
        lemma_occurrences_contains(s.drop_last(), id);
        if s.drop_last().contains(id) {
            let k = choose|k: int| 0 <= k < s.drop_last().len() && s.drop_last()[k] == id;
            assert(s[k] == id);
        }
        if s.contains(id) && s.last() != id {
            let k = choose|k: int| 0 <= k < s.len() && s[k] == id;
            assert(k < s.len() - 1);
            assert(s.drop_last()[k] == id);
        }
        if s.last() == id {
            assert(s[s.len() - 1] == id);
        }
    }
}

} // verus!
