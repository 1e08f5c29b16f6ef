//! The PUBLISH packets the monitor sent and the server has not acknowledged
//! yet, by packet identifier.

use vstd::prelude::*;

use crate::mqtt::packets::publish::{Publish, PublishView};

verus! {

/// The map a list of entries stands for: a later entry overrides an earlier
/// one with the same identifier.
pub open spec fn pending_map(s: Seq<(Option<u16>, Publish)>) -> Map<Option<u16>, PublishView>
    decreases s.len(),
{
    if s.len() == 0 {
        Map::empty()
    } else {
        pending_map(s.drop_last()).insert(s.last().0, s.last().1@)
    }
}

/// No identifier occurs twice.
pub open spec fn identifiers_unique(s: Seq<(Option<u16>, Publish)>) -> bool {
    forall|i: int, j: int| 0 <= i < j < s.len() ==> s[i].0 != s[j].0
}

proof fn lemma_pending_entry(s: Seq<(Option<u16>, Publish)>, i: int)
    requires
        identifiers_unique(s),
        0 <= i < s.len(),
    ensures
        pending_map(s).contains_key(s[i].0),
        pending_map(s)[s[i].0] == s[i].1@,
    decreases s.len(),
{
    if i < s.len() - 1 {
        lemma_pending_entry(s.drop_last(), i);
        assert(s.drop_last()[i] == s[i]);
    }
}

proof fn lemma_pending_absent(s: Seq<(Option<u16>, Publish)>, k: Option<u16>)
    requires
        forall|i: int| 0 <= i < s.len() ==> s[i].0 != k,
    ensures
        !pending_map(s).contains_key(k),
    decreases s.len(),
{
    if s.len() > 0 {
        lemma_pending_absent(s.drop_last(), k);
    }
}

proof fn lemma_pending_update(s: Seq<(Option<u16>, Publish)>, i: int, e: (Option<u16>, Publish))
    requires
        identifiers_unique(s),
        0 <= i < s.len(),
        e.0 == s[i].0,
    ensures
        pending_map(s.update(i, e)) == pending_map(s).insert(e.0, e.1@),
        identifiers_unique(s.update(i, e)),
    decreases s.len(),
{
    let t = s.update(i, e);
    if i == s.len() - 1 {
        assert(t.drop_last() =~= s.drop_last());
        assert(pending_map(t) =~= pending_map(s).insert(e.0, e.1@));
    } else {
        lemma_pending_update(s.drop_last(), i, e);
        assert(t.drop_last() =~= s.drop_last().update(i, e));
        assert(pending_map(t) =~= pending_map(s).insert(e.0, e.1@));
    }
}

proof fn lemma_pending_remove(s: Seq<(Option<u16>, Publish)>, i: int)
    requires
        identifiers_unique(s),
        0 <= i < s.len(),
    ensures
        pending_map(s.remove(i)) == pending_map(s).remove(s[i].0),
        identifiers_unique(s.remove(i)),
    decreases s.len(),
{
    let t = s.remove(i);
    let k = s[i].0;
    if i == s.len() - 1 {
        assert(t =~= s.drop_last());
        assert forall|j: int| 0 <= j < t.len() implies t[j].0 != k by {
            assert(t[j] == s[j]);
        }
        lemma_pending_absent(t, k);
        assert(pending_map(t) =~= pending_map(s).remove(k));
    } else {
        lemma_pending_remove(s.drop_last(), i);
        assert(t.drop_last() =~= s.drop_last().remove(i));
        assert(t.last() == s.last());
        assert(pending_map(t) =~= pending_map(s).remove(k));
    }
}

/// Sent PUBLISH packets by packet identifier.
pub struct UnacknowledgedPublishes {
    entries: Vec<(Option<u16>, Publish)>,
}

impl View for UnacknowledgedPublishes {
    type V = Map<Option<u16>, PublishView>;

    closed spec fn view(&self) -> Map<Option<u16>, PublishView> {
        pending_map(self.entries@)
    }
}

/// Whether two packet identifiers are the same.
fn same_identifier(a: Option<u16>, b: Option<u16>) -> (r: bool)
    ensures
        r == (a == b),
{
    match (a, b) {
        (Some(x), Some(y)) => x == y,
        (None, None) => true,
        _ => false,
    }
}

impl UnacknowledgedPublishes {
    #[verifier::type_invariant]
    spec fn inv(self) -> bool {
        identifiers_unique(self.entries@)
    }

    pub fn new() -> (u: UnacknowledgedPublishes)
        ensures
            u@ == Map::<Option<u16>, PublishView>::empty(),
    {
        UnacknowledgedPublishes { entries: Vec::new() }
    }

    fn find(&self, id: Option<u16>) -> (res: Option<usize>)
        ensures
            match res {
                Some(i) => i < self.entries@.len() && self.entries@[i as int].0 == id,
                None => forall|j: int| 0 <= j < self.entries@.len() ==> self.entries@[j].0 != id,
            },
    {
        let mut i: usize = 0;
        while i < self.entries.len()
            invariant
                i <= self.entries@.len(),
                forall|j: int| 0 <= j < i ==> self.entries@[j].0 != id,
            decreases self.entries.len() - i,
        {
            if same_identifier(self.entries[i].0, id) {
                return Some(i);
            }
            i = i + 1;
        }
        None
    }

    /// Whether a packet with this identifier waits for its acknowledgement.
    pub fn contains(&self, id: Option<u16>) -> (b: bool)
        ensures
            b == self@.contains_key(id),
    {
        proof { use_type_invariant(self); }
        match self.find(id) {
            Some(i) => {
                proof { lemma_pending_entry(self.entries@, i as int); }
                true
            },
            None => {
                proof { lemma_pending_absent(self.entries@, id); }
                false
            },
        }
    }

    /// Records a sent packet under its identifier, replacing any packet
    /// recorded under the same one.
    pub fn insert(&mut self, id: Option<u16>, publish: Publish)
        ensures
            final(self)@ == old(self)@.insert(id, publish@),
    {
        proof { use_type_invariant(&*self); }
        match self.find(id) {
            Some(i) => {
                proof { lemma_pending_update(self.entries@, i as int, (id, publish)); }
                let mut entries: Vec<(Option<u16>, Publish)> = Vec::new();
                std::mem::swap(&mut entries, &mut self.entries);
                entries.set(i, (id, publish));
                self.entries = entries;
            },
            None => {
                let mut entries: Vec<(Option<u16>, Publish)> = Vec::new();
                std::mem::swap(&mut entries, &mut self.entries);
                entries.push((id, publish));
                assert(entries@.drop_last() =~= old(self).entries@);
                assert forall|a: int, b: int| 0 <= a < b < entries@.len() implies entries@[a].0 != entries@[b].0 by {
                    assert(entries@[a] == old(self).entries@[a]);
                    if b < entries@.len() - 1 {
                        assert(entries@[b] == old(self).entries@[b]);
                    }
                }
                self.entries = entries;
            },
        }
    }

    /// Takes the packet with this identifier out, if one was recorded.
    pub fn remove(&mut self, id: Option<u16>) -> (res: Option<Publish>)
        ensures
            final(self)@ == old(self)@.remove(id),
            match res {
                Some(p) => old(self)@.contains_key(id) && p@ == old(self)@[id],
                None => !old(self)@.contains_key(id),
            },
    {
        proof { use_type_invariant(&*self); }
        match self.find(id) {
            Some(i) => {
                proof {
                    lemma_pending_entry(self.entries@, i as int);
                    lemma_pending_remove(self.entries@, i as int);
                }
                let mut entries: Vec<(Option<u16>, Publish)> = Vec::new();
                std::mem::swap(&mut entries, &mut self.entries);
                let (_k, p) = entries.remove(i);
                self.entries = entries;
                Some(p)
            },
            None => {
                proof {
                    lemma_pending_absent(self.entries@, id);
                    assert(old(self)@.remove(id) =~= old(self)@);
                }
                None
            },
        }
    }
}

} // verus!
