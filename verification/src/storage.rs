use vstd::prelude::*;

use crate::credential::AttributeSet;
use crate::identity::Identifier;

verus! {

use vstd::map::*;

/// The map an entry sequence denotes: later entries win, so inserting from
/// the back makes the first occurrence of a key the binding one is
/// irrelevant under uniqueness.
pub open spec fn entries_map(s: Seq<(Identifier, AttributeSet)>) -> Map<Identifier, AttributeSet>
    decreases s.len(),
{
    if s.len() == 0 {
        Map::empty()
    } else {
        entries_map(s.drop_last()).insert(s.last().0, s.last().1)
    }
}

proof fn lemma_entries_map_domain(s: Seq<(Identifier, AttributeSet)>, identifier: Identifier)
    ensures
        entries_map(s).contains_key(identifier) <==> exists|j: int|
            0 <= j < s.len() && (#[trigger] s[j]).0 == identifier,
    decreases s.len(),
{
    if s.len() > 0 {
        lemma_entries_map_domain(s.drop_last(), identifier);
        if s.last().0 != identifier {
            if entries_map(s).contains_key(identifier) {
                let j = choose|j: int|
                    0 <= j < s.drop_last().len() && (#[trigger] s.drop_last()[j]).0 == identifier;
                assert(s[j].0 == identifier);
            }
            if exists|j: int| 0 <= j < s.len() && (#[trigger] s[j]).0 == identifier {
                let j = choose|j: int| 0 <= j < s.len() && (#[trigger] s[j]).0 == identifier;
                assert(s.drop_last()[j].0 == identifier);
            }
        } else {
            assert(s[s.len() - 1].0 == identifier);
        }
    }
}

proof fn lemma_entries_map_index(
    s: Seq<(Identifier, AttributeSet)>,
    i: int,
    identifier: Identifier,
)
    requires
        forall|j: int, k: int| 0 <= j < k < s.len() ==> (#[trigger] s[j]).0 != (#[trigger] s[k]).0,
        0 <= i < s.len(),
        s[i].0 == identifier,
    ensures
        entries_map(s).contains_key(identifier),
        entries_map(s)[identifier] == s[i].1,
    decreases s.len(),
{
    if i == s.len() - 1 {
    } else {
        assert(s.drop_last()[i] == s[i]);
        lemma_entries_map_index(s.drop_last(), i, identifier);
        assert(s.last().0 != identifier);
    }
}

proof fn lemma_entries_map_update(
    s: Seq<(Identifier, AttributeSet)>,
    i: int,
    identifier: Identifier,
    value: AttributeSet,
)
    requires
        forall|j: int, k: int| 0 <= j < k < s.len() ==> (#[trigger] s[j]).0 != (#[trigger] s[k]).0,
        0 <= i < s.len(),
        s[i].0 == identifier,
    ensures
        entries_map(s.update(i, (identifier, value))) == entries_map(s).insert(identifier, value),
    decreases s.len(),
{
    let u = s.update(i, (identifier, value));
    if i == s.len() - 1 {
        assert(u.drop_last() =~= s.drop_last());
        assert(u.last() == (identifier, value));
        assert(entries_map(s.drop_last()).insert(s.last().0, s.last().1).insert(identifier, value)
            =~= entries_map(s.drop_last()).insert(identifier, value));
    } else {
        assert(u.drop_last() =~= s.drop_last().update(i, (identifier, value)));
        assert(u.last() == s.last());
        assert(s.drop_last()[i] == s[i]);
        lemma_entries_map_update(s.drop_last(), i, identifier, value);
        assert(s.last().0 != identifier);
        assert(entries_map(s.drop_last()).insert(identifier, value).insert(s.last().0, s.last().1)
            =~= entries_map(s.drop_last()).insert(s.last().0, s.last().1).insert(
            identifier,
            value,
        ));
    }
}

/// An identifier-keyed store of verified attribute sets. Writes are
/// last-write-wins per identifier. One store instance is the single
/// synchronization boundary between the worker that writes it and the
/// access-control gates that read it; callers that share it across tasks
/// must wrap it in one exclusive-access boundary.
pub struct AttributeStorage {
    pub entries: Vec<(Identifier, AttributeSet)>,
}

impl View for AttributeStorage {
    type V = Map<Identifier, AttributeSet>;

    open spec fn view(&self) -> Map<Identifier, AttributeSet> {
        entries_map(self.entries@)
    }
}

impl AttributeStorage {
    /// Well-formedness: one entry per identifier.
    pub open spec fn wf(self) -> bool {
        forall|j: int, k: int|
            0 <= j < k < self.entries@.len() ==> (#[trigger] self.entries@[j]).0
                != (#[trigger] self.entries@[k]).0
    }

    pub fn new() -> (r: AttributeStorage)
        ensures
            r.wf(),
            r@ == Map::<Identifier, AttributeSet>::empty(),
    {
        AttributeStorage { entries: Vec::new() }
    }

    /// Reads the attribute set most recently written for `identifier`, if
    /// any. This is the read capability consulted by access control.
    pub fn get_attributes(&self, identifier: &Identifier) -> (r: Option<&AttributeSet>)
        requires
            self.wf(),
        ensures
            match r {
                Some(a) => self@.contains_key(*identifier) && *a == self@[*identifier],
                None => !self@.contains_key(*identifier),
            },
    {
        let n = self.entries.len();
        let mut i: usize = 0;
        while i < n
            invariant
                n == self.entries@.len(),
                0 <= i <= n,
                self.wf(),
                forall|j: int| 0 <= j < i ==> (#[trigger] self.entries@[j]).0 != *identifier,
            decreases n - i,
        {
            if self.entries[i].0.value == identifier.value {
                proof {
                    lemma_entries_map_index(self.entries@, i as int, *identifier);
                }
                return Some(&self.entries[i].1);
            }
            i += 1;
        }
        proof {
            lemma_entries_map_domain(self.entries@, *identifier);
        }
        None
    }

    /// Writes the attribute set for `identifier`, replacing any earlier
    /// one: the store afterwards maps `identifier` to exactly
    /// `attribute_set` and every other identifier to what it had before.
    /// This is the write capability used by the credential exchange worker.
    pub fn put_attributes(&mut self, identifier: &Identifier, attribute_set: AttributeSet)
        requires
            old(self).wf(),
        ensures
            final(self).wf(),
            final(self)@ == old(self)@.insert(*identifier, attribute_set),
    {
        let n = self.entries.len();
        let mut i: usize = 0;
        while i < n
            invariant
                n == self.entries@.len(),
                0 <= i <= n,
                *self == *old(self),
                self.wf(),
                forall|j: int| 0 <= j < i ==> (#[trigger] self.entries@[j]).0 != *identifier,
            decreases n - i,
        {
            if self.entries[i].0.value == identifier.value {
                proof {
                    lemma_entries_map_update(
                        self.entries@,
                        i as int,
                        *identifier,
                        attribute_set,
                    );
                }
                self.entries[i] = (*identifier, attribute_set);
                proof {
                    assert forall|j: int, k: int|
                        0 <= j < k < self.entries@.len() implies (#[trigger] self.entries@[j]).0
                        != (#[trigger] self.entries@[k]).0 by {
                        assert(old(self).entries@[j].0 != old(self).entries@[k].0);
                    }
                }
                return ;
            }
            i += 1;
        }
        proof {
            lemma_entries_map_domain(self.entries@, *identifier);
        }
        self.entries.push((*identifier, attribute_set));
        proof {
            assert(self.entries@.drop_last() =~= old(self).entries@);
            assert forall|j: int, k: int|
                0 <= j < k < self.entries@.len() implies (#[trigger] self.entries@[j]).0
                != (#[trigger] self.entries@[k]).0 by {
                if k < self.entries@.len() - 1 {
                    assert(old(self).entries@[j].0 != old(self).entries@[k].0);
                } else {
                    assert(self.entries@[j] == old(self).entries@[j]);
                }
            }
        }
    }
}

/// Law: attribute writes are last-write-wins per identifier. Writing
/// `first` and then `second` for one identifier leaves the store exactly
/// as if only `second` had been written, and a read then returns `second`.
pub proof fn lemma_last_write_wins(
    m: Map<Identifier, AttributeSet>,
    identifier: Identifier,
    first: AttributeSet,
    second: AttributeSet,
)
    ensures
        m.insert(identifier, first).insert(identifier, second) == m.insert(identifier, second),
        m.insert(identifier, second)[identifier] == second,
{
    assert(m.insert(identifier, first).insert(identifier, second) =~= m.insert(
        identifier,
        second,
    ));
}

} // verus!
