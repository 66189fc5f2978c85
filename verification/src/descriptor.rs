use vstd::prelude::*;
use vstd::relations::sorted_by;
use vstd::multiset::Multiset;
use vstd::seq_lib::lemma_sorted_unique;
use crate::errors::Error;
use crate::keys::{ChildKeySet, key_ok, keys_ok, ok_shape};
use crate::order::{lex_leq, lex_leq_fn, lex_leq_exec, lemma_lex_leq_total, lemma_lex_leq_total_ordering, lemma_lex_leq_transitive};

verus! {

/// The spending threshold of the multisig policy: any two keys authorize.
pub const THRESHOLD: usize = 2;

/// The number of cosigner keys in the policy.
pub const KEY_COUNT: usize = 3;

/// The canonical ordering of a child key listing: the keys sorted in the
/// lexicographic order of their encodings. All cosigners reach the same
/// descriptor from the same keys, however each lists them locally.
pub open spec fn spec_sorted_keys(children: Seq<Seq<u8>>) -> Seq<Seq<u8>> {
    children.sort_by(lex_leq_fn())
}

/// A 2-of-3 multisig spending policy over three sorted child keys, wrapped
/// as a witness script inside a legacy script-hash envelope (nested segwit).
/// Immutable once built; `build` is the only constructor, so the keys are
/// always sorted and of the right shape.
pub struct Descriptor {
    keys: Vec<Vec<u8>>,
}

impl View for Descriptor {
    type V = Seq<Seq<u8>>;

    closed spec fn view(&self) -> Seq<Seq<u8>> {
        self.keys.deep_view()
    }
}

impl Descriptor {
    /// Validity: exactly three 33-byte keys, in sorted order.
    pub open spec fn wf(&self) -> bool {
        ok_shape(self@) && sorted_by(self@, lex_leq_fn())
    }

    /// The sorted key encodings.
    pub fn keys(&self) -> (r: &Vec<Vec<u8>>)
        ensures
            r.deep_view() == self@,
    {
        &self.keys
    }
}

/// The multiset of a three-element sequence, as a chain of inserts.
proof fn lemma_triple_multiset(x: Seq<u8>, y: Seq<u8>, z: Seq<u8>)
    ensures
        seq![x, y, z].to_multiset() =~= Multiset::<Seq<u8>>::empty().insert(x).insert(y).insert(
            z,
        ),
{
    broadcast use vstd::seq_lib::group_to_multiset_ensures;
    broadcast use vstd::multiset::group_multiset_axioms;

    let e = Seq::<Seq<u8>>::empty();
    assert(e.to_multiset() =~= Multiset::<Seq<u8>>::empty()) by {
        e.to_multiset_ensures();
        assert(e.to_multiset().len() == 0);
    }
    assert(seq![x, y, z] =~= e.push(x).push(y).push(z));
    assert(e.push(x).to_multiset() =~= e.to_multiset().insert(x));
    assert(e.push(x).push(y).to_multiset() =~= e.push(x).to_multiset().insert(y));
    assert(e.push(x).push(y).push(z).to_multiset() =~= e.push(x).push(y).to_multiset().insert(z));
}

/// Rearranging three elements does not change their multiset.
proof fn lemma_triple_multiset_perm(x: Seq<u8>, y: Seq<u8>, z: Seq<u8>)
    ensures
        seq![x, z, y].to_multiset() =~= seq![x, y, z].to_multiset(),
        seq![y, x, z].to_multiset() =~= seq![x, y, z].to_multiset(),
        seq![y, z, x].to_multiset() =~= seq![x, y, z].to_multiset(),
        seq![z, x, y].to_multiset() =~= seq![x, y, z].to_multiset(),
        seq![z, y, x].to_multiset() =~= seq![x, y, z].to_multiset(),
{
    broadcast use vstd::multiset::group_multiset_axioms;

    lemma_triple_multiset(x, y, z);
    lemma_triple_multiset(x, z, y);
    lemma_triple_multiset(y, x, z);
    lemma_triple_multiset(y, z, x);
    lemma_triple_multiset(z, x, y);
    lemma_triple_multiset(z, y, x);
}

/// Builds a three-element vector of byte vectors.
fn vec3(x: Vec<u8>, y: Vec<u8>, z: Vec<u8>) -> (r: Vec<Vec<u8>>)
    ensures
        r.deep_view() == seq![x@, y@, z@],
{
    let ghost xs = x@;
    let ghost ys = y@;
    let ghost zs = z@;
    let mut r: Vec<Vec<u8>> = Vec::new();
    r.push(x);
    r.push(y);
    r.push(z);
    proof {
        assert(r.deep_view() =~~= seq![xs, ys, zs]);
    }
    r
}

/// A three-element sequence with pairwise ordered elements is sorted.
proof fn lemma_sorted3(x: Seq<u8>, y: Seq<u8>, z: Seq<u8>)
    requires
        lex_leq(x, y),
        lex_leq(y, z),
        lex_leq(x, z),
    ensures
        sorted_by(seq![x, y, z], lex_leq_fn()),
{
    let leq = lex_leq_fn();
    let s = seq![x, y, z];
    assert forall|i: int, j: int| 0 <= i < j < s.len() implies #[trigger] leq(s[i], s[j]) by {
        if i == 0 && j == 1 {
            assert(leq(x, y));
        } else if i == 0 && j == 2 {
            assert(leq(x, z));
        } else {
            assert(leq(y, z));
        }
    }
}

/// Sorts three byte vectors in the lexicographic order of their contents.
fn sort3(a: Vec<u8>, b: Vec<u8>, c: Vec<u8>) -> (r: Vec<Vec<u8>>)
    ensures
        r.deep_view() == spec_sorted_keys(seq![a@, b@, c@]),
{
    let ghost a_s = a@;
    let ghost b_s = b@;
    let ghost c_s = c@;
    let ghost s = seq![a_s, b_s, c_s];
    let ab = lex_leq_exec(&a, &b);
    let ac = lex_leq_exec(&a, &c);
    let bc = lex_leq_exec(&b, &c);
    proof {
        lemma_lex_leq_total_ordering();
        lemma_triple_multiset_perm(a_s, b_s, c_s);
        lemma_lex_leq_total(a_s, b_s);
        lemma_lex_leq_total(a_s, c_s);
        lemma_lex_leq_total(b_s, c_s);
    }
    let r = if ab {
        if bc {
            proof {
                lemma_lex_leq_transitive(a_s, b_s, c_s);
                lemma_sorted3(a_s, b_s, c_s);
            }
            vec3(a, b, c)
        } else if ac {
            proof {
                lemma_sorted3(a_s, c_s, b_s);
            }
            vec3(a, c, b)
        } else {
            proof {
                lemma_sorted3(c_s, a_s, b_s);
            }
            vec3(c, a, b)
        }
    } else {
        if ac {
            proof {
                lemma_lex_leq_transitive(b_s, a_s, c_s);
                lemma_sorted3(b_s, a_s, c_s);
            }
            vec3(b, a, c)
        } else if bc {
            proof {
                lemma_sorted3(b_s, c_s, a_s);
            }
            vec3(b, c, a)
        } else {
            proof {
                lemma_sorted3(c_s, b_s, a_s);
            }
            vec3(c, b, a)
        }
    };
    proof {
        let leq = lex_leq_fn();
        assert(sorted_by(r.deep_view(), leq));
        assert(r.deep_view().to_multiset() == s.to_multiset());
        s.lemma_sort_by_ensures(leq);
        lemma_sorted_unique(r.deep_view(), s.sort_by(leq), leq);
    }
    r
}

/// The canonical ordering keeps the shape of a valid key listing and is
/// sorted.
pub proof fn lemma_sorted_keys_shape(children: Seq<Seq<u8>>)
    requires
        ok_shape(children),
    ensures
        ok_shape(spec_sorted_keys(children)),
        sorted_by(spec_sorted_keys(children), lex_leq_fn()),
{
    broadcast use vstd::seq_lib::group_to_multiset_ensures;

    lemma_lex_leq_total_ordering();
    children.lemma_sort_by_ensures(lex_leq_fn());
    let s = children.sort_by(lex_leq_fn());
    assert(children.to_multiset() =~= s.to_multiset());
    assert(s.to_multiset().len() == s.len());
    assert(children.to_multiset().len() == children.len());
    assert(s.len() == 3);
    assert forall|i: int| 0 <= i < 3 implies (#[trigger] s[i]).len() == 33 by {
        assert(s.contains(s[i]));
        assert(s.to_multiset().count(s[i]) > 0);
        assert(children.to_multiset().count(s[i]) > 0);
        assert(children.contains(s[i]));
        let j = choose|j: int| 0 <= j < children.len() && children[j] == s[i];
        assert(children[j].len() == 33);
    }
}

/// The canonical ordering keeps the decodability of every key: the sorted
/// listing holds the same keys.
pub proof fn lemma_sorted_keys_ok(children: Seq<Seq<u8>>)
    requires
        keys_ok(children),
    ensures
        keys_ok(spec_sorted_keys(children)),
{
    broadcast use vstd::seq_lib::group_to_multiset_ensures;

    lemma_lex_leq_total_ordering();
    children.lemma_sort_by_ensures(lex_leq_fn());
    let s = children.sort_by(lex_leq_fn());
    assert forall|i: int| 0 <= i < s.len() implies key_ok(#[trigger] s[i]) by {
        assert(s.contains(s[i]));
        assert(s.to_multiset().count(s[i]) > 0);
        assert(children.to_multiset().count(s[i]) > 0);
        assert(children.contains(s[i]));
        let j = choose|j: int| 0 <= j < children.len() && children[j] == s[i];
        assert(key_ok(children[j]));
    }
}

/// Sorting canonicalizes the key order: two listings of the same three keys,
/// in whatever order, yield the same canonical key sequence, hence the same
/// descriptor.
pub proof fn lemma_sorted_keys_order_independent(s1: Seq<Seq<u8>>, s2: Seq<Seq<u8>>)
    requires
        s1.to_multiset() == s2.to_multiset(),
    ensures
        spec_sorted_keys(s1) == spec_sorted_keys(s2),
{
    lemma_lex_leq_total_ordering();
    s1.lemma_sort_by_ensures(lex_leq_fn());
    s2.lemma_sort_by_ensures(lex_leq_fn());
    lemma_sorted_unique(s1.sort_by(lex_leq_fn()), s2.sort_by(lex_leq_fn()), lex_leq_fn());
}

/// Builds the 2-of-3 descriptor from a derived child key set: the keys are
/// sorted into canonical order and embedded under the fixed threshold.
/// Fails, with `Error::Descriptor`, exactly when the key listing does not
/// consist of three 33-byte keys; the threshold bound is checked at the same
/// boundary.
pub fn build(children: ChildKeySet) -> (r: Result<Descriptor, Error>)
    ensures
        r.is_ok() == ok_shape(children@),
        r matches Ok(d) ==> d@ == spec_sorted_keys(children@) && d.wf(),
        r matches Err(e) ==> e is Descriptor,
{
    let ghost cv = children@;
    let mut ks = children.into_keys();
    if ks.len() != KEY_COUNT || THRESHOLD > ks.len() {
        return Err(Error::Descriptor("the policy needs exactly three keys".to_owned()));
    }
    proof {
        assert forall|i: int| 0 <= i < 3 implies #[trigger] cv[i] == ks@[i]@ by {
            assert(cv[i] =~= ks@[i]@);
        }
        assert(cv[0] == ks@[0]@ && cv[1] == ks@[1]@ && cv[2] == ks@[2]@);
    }
    if ks[0].len() != 33 || ks[1].len() != 33 || ks[2].len() != 33 {
        return Err(Error::Descriptor("every key must be 33 bytes".to_owned()));
    }
    let c2 = ks.pop().unwrap();
    let c1 = ks.pop().unwrap();
    let c0 = ks.pop().unwrap();
    proof {
        assert(cv =~= seq![c0@, c1@, c2@]);
    }
    let sorted = sort3(c0, c1, c2);
    proof {
        lemma_sorted_keys_shape(cv);
    }
    Ok(Descriptor { keys: sorted })
}

} // verus!
