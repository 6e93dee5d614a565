//! Facts about the order of identities.

use vstd::prelude::*;
use vstd::std_specs::btree::increasing_seq;
use vstd::std_specs::cmp::OrdSpec;
use crate::voice::Identity;

verus! {

/// Whether `s` is in strictly increasing order.
pub open spec fn strictly_increasing(s: Seq<Identity>) -> bool {
    forall|i: int, j: int| 0 <= i < j < s.len() ==> s[i] < s[j]
}

/// A sequence that the ordering of identities says is increasing is
/// strictly increasing.
pub proof fn lemma_increasing_keys(s: Seq<&Identity>)
    requires
        increasing_seq(s),
    ensures
        strictly_increasing(s.unref()),
{
    assert(vstd::laws_cmp::obeys_cmp::<&Identity>());
    vstd::std_specs::btree::axiom_increasing_seq_meaning(s);
    assert forall|i: int, j: int| 0 <= i < j < s.len() implies s.unref()[i] < s.unref()[j] by {
        let x: &Identity = s[i];
        let y: &Identity = s[j];
        assert((&x).cmp_spec(&&y) is Less);
        assert(s[i] == &s.unref()[i]);
        assert(s[j] == &s.unref()[j]);
    }
}

} // verus!
