//! Small association stores kept as ordered key/value vectors.

use vstd::prelude::*;

use crate::graph::NodeId;

verus! {

/// First value bound to `id`, if any.
pub open spec fn assoc(s: Seq<(NodeId, u64)>, id: NodeId) -> Option<u64>
    decreases s.len(),
{
    if s.len() == 0 {
        None
    } else if s[0].0 == id {
        Some(s[0].1)
    } else {
        assoc(s.drop_first(), id)
    }
}

pub proof fn lemma_assoc_skip(s: Seq<(NodeId, u64)>, id: NodeId, i: int)
    requires
        0 <= i < s.len(),
    ensures
        assoc(s.skip(i), id) == if s[i].0 == id {
            Some(s[i].1)
        } else {
            assoc(s.skip(i + 1), id)
        },
{
    assert(s.skip(i).len() > 0);
    assert(s.skip(i)[0] == s[i]);
    assert(s.skip(i).drop_first() =~= s.skip(i + 1));
}

/// The store with `id` bound to `v`: an existing binding is overwritten in
/// place, otherwise the binding is appended.
pub open spec fn assoc_set(s: Seq<(NodeId, u64)>, id: NodeId, v: u64) -> Seq<(NodeId, u64)>
    decreases s.len(),
{
    if s.len() == 0 {
        seq![(id, v)]
    } else if s[0].0 == id {
        s.update(0, (id, v))
    } else {
        seq![s[0]] + assoc_set(s.drop_first(), id, v)
    }
}

/// Look a value up in the store.
pub fn store_get(s: &Vec<(NodeId, u64)>, id: NodeId) -> (r: Option<u64>)
    ensures
        r == assoc(s@, id),
{
    let mut i: usize = 0;
    proof {
        assert(s@.skip(0) =~= s@);
    }
    while i < s.len()
        invariant
            0 <= i <= s@.len(),
            assoc(s@, id) == assoc(s@.skip(i as int), id),
        decreases s@.len() - i,
    {
        proof {
            lemma_assoc_skip(s@, id, i as int);
        }
        if s[i].0.0 == id.0 {
            return Some(s[i].1);
        }
        i += 1;
    }
    proof {
        assert(s@.skip(s@.len() as int) =~= Seq::<(NodeId, u64)>::empty());
    }
    None
}

/// Bind `id` to `v` in the store.
pub fn store_set(s: &mut Vec<(NodeId, u64)>, id: NodeId, v: u64)
    ensures
        final(s)@ == assoc_set(old(s)@, id, v),
{
    let ghost orig = s@;
    let mut i: usize = 0;
    proof {
        assert(orig.take(0) =~= Seq::<(NodeId, u64)>::empty());
        assert(orig.skip(0) =~= orig);
        assert(assoc_set_from(orig, id, v, 0) =~= assoc_set(orig, id, v));
    }
    while i < s.len()
        invariant
            0 <= i <= s@.len(),
            s@ == orig,
            old(s)@ == orig,
            forall|j: int| 0 <= j < i ==> (#[trigger] orig[j]).0 != id,
            assoc_set(orig, id, v) == assoc_set_from(orig, id, v, i as int),
        decreases s@.len() - i,
    {
        if s[i].0.0 == id.0 {
            proof {
                lemma_assoc_set_take(orig, id, v, i as int);
            }
            s.set(i, (id, v));
            proof {
                assert(s@ =~= orig.take(i as int) + orig.skip(i as int).update(0, (id, v)));
            }
            return ;
        }
        proof {
            lemma_assoc_set_skip(orig, id, v, i as int);
        }
        i += 1;
    }
    s.push((id, v));
    proof {
        let n = orig.len() as int;
        assert(orig.skip(n) =~= Seq::<(NodeId, u64)>::empty());
        assert(assoc_set(orig.skip(n), id, v) =~= seq![(id, v)]);
        assert(orig.take(n) =~= orig);
        assert(s@ =~= assoc_set_from(orig, id, v, n));
    }
}

/// What `assoc_set` does past a prefix of unmatched keys.
pub open spec fn assoc_set_from(s: Seq<(NodeId, u64)>, id: NodeId, v: u64, i: int) -> Seq<
    (NodeId, u64),
> {
    s.take(i) + assoc_set(s.skip(i), id, v)
}

pub proof fn lemma_assoc_set_skip(s: Seq<(NodeId, u64)>, id: NodeId, v: u64, i: int)
    requires
        0 <= i < s.len(),
        s[i].0 != id,
    ensures
        assoc_set_from(s, id, v, i) == assoc_set_from(s, id, v, i + 1),
{
    assert(s.skip(i).len() > 0);
    assert(s.skip(i)[0] == s[i]);
    assert(s.skip(i).drop_first() =~= s.skip(i + 1));
    assert(assoc_set(s.skip(i), id, v) == seq![s[i]] + assoc_set(s.skip(i + 1), id, v));
    assert(s.take(i) + (seq![s[i]] + assoc_set(s.skip(i + 1), id, v)) =~= s.take(i + 1)
        + assoc_set(s.skip(i + 1), id, v));
}

pub proof fn lemma_assoc_set_take(s: Seq<(NodeId, u64)>, id: NodeId, v: u64, i: int)
    requires
        0 <= i < s.len(),
        s[i].0 == id,
    ensures
        assoc_set_from(s, id, v, i) == s.take(i) + s.skip(i).update(0, (id, v)),
{
    assert(s.skip(i).len() > 0);
    assert(s.skip(i)[0] == s[i]);
}

} // verus!
