use vstd::prelude::*;
use crate::errors::Error;
use crate::hexstr::is_lower_hex_char;
use crate::keys::{
    Branch, DerivationPath, MasterKey, all_derivable, encodings, keys_ok, spec_child_keys,
    xpub_ok,
};
use crate::descriptor::{
    build, lemma_sorted_keys_ok, lemma_sorted_keys_order_independent, spec_sorted_keys,
};
use crate::encode::{
    address_of, spec_script_hash_id, to_address, to_script_hash_id,
};

verus! {

/// How many derivation indices the driver walks: indices 0 up to, not
/// including, this bound. A fixed configuration constant, not an adaptive
/// signal.
pub const DERIVATION_COUNT: u32 = 100;

/// The canonical (sorted) child keys derived for the given master key
/// encodings and path.
pub open spec fn spec_descriptor_keys(xpubs: Seq<Seq<char>>, path: DerivationPath) -> Seq<
    Seq<u8>,
> {
    spec_sorted_keys(spec_child_keys(xpubs, path))
}

/// The mainnet address derived for the given master key encodings and path.
pub open spec fn spec_address(xpubs: Seq<Seq<char>>, path: DerivationPath) -> Seq<char> {
    address_of(spec_descriptor_keys(xpubs, path))
}

/// The script-hash identifier derived for the given master key encodings
/// and path.
pub open spec fn spec_script_hash(xpubs: Seq<Seq<char>>, path: DerivationPath) -> Seq<char> {
    spec_script_hash_id(spec_descriptor_keys(xpubs, path))
}

/// One derived output pair: the address and its script-hash identifier.
pub struct Derived {
    pub address: String,
    pub script_hash_id: String,
}

impl Derived {
    /// What the pair must hold for the given master keys and path.
    pub open spec fn matches(&self, xpubs: Seq<Seq<char>>, path: DerivationPath) -> bool {
        &&& self.address@ == spec_address(xpubs, path)
        &&& self.script_hash_id@ == spec_script_hash(xpubs, path)
        &&& self.script_hash_id@.len() == 64
        &&& forall|i: int|
            0 <= i < self.script_hash_id@.len() ==> is_lower_hex_char(
                #[trigger] self.script_hash_id@[i],
            )
    }
}

/// Runs the three stages — derive, build, encode — for one path. Pure and
/// deterministic: on success both outputs are functions of the master key
/// encodings and the path alone, which is the determinism law for the
/// pipeline. Succeeds exactly when every key is derivable for the path: the
/// builder always accepts what the deriver produced, and the encoders
/// always accept what the builder produced, so the only failure is a failed
/// derivation step — propagated, never recovered.
pub fn derive_one(master_keys: &Vec<MasterKey>, path: DerivationPath) -> (r: Result<
    Derived,
    Error,
>)
    requires
        master_keys@.len() == 3,
        forall|i: int| 0 <= i < 3 ==> (#[trigger] master_keys@[i]).wf(),
        path.wf(),
    ensures
        r.is_ok() == all_derivable(encodings(master_keys@), path.branch.spec_code(), path.index),
        r matches Ok(d) ==> d.matches(encodings(master_keys@), path),
        r matches Err(e) ==> e is Derivation,
{
    let children = match crate::keys::derive(master_keys, path) {
        Ok(cs) => cs,
        Err(e) => {
            return Err(e);
        },
    };
    let ghost cv = children@;
    let desc = match build(children) {
        Ok(d) => d,
        Err(e) => {
            return Err(e);
        },
    };
    proof {
        lemma_sorted_keys_ok(cv);
    }
    let address = match to_address(&desc) {
        Ok(a) => a,
        Err(e) => {
            return Err(e);
        },
    };
    let script_hash_id = match to_script_hash_id(&desc) {
        Ok(h) => h,
        Err(e) => {
            return Err(e);
        },
    };
    Ok(Derived { address, script_hash_id })
}

/// The four outputs of one derivation index: the receiving pair and the
/// change pair.
pub struct IndexReport {
    pub index: u32,
    pub receive: Derived,
    pub change: Derived,
}

impl IndexReport {
    /// What a report must hold for the given master keys and its index.
    pub open spec fn matches(&self, xpubs: Seq<Seq<char>>) -> bool {
        &&& self.receive.matches(
            xpubs,
            DerivationPath { branch: Branch::Receive, index: self.index },
        )
        &&& self.change.matches(
            xpubs,
            DerivationPath { branch: Branch::Change, index: self.index },
        )
    }
}

/// Whether every key of a listing is derivable for both branches of one
/// index.
pub open spec fn report_derivable(xpubs: Seq<Seq<char>>, index: u32) -> bool {
    &&& all_derivable(xpubs, Branch::Receive.spec_code(), index)
    &&& all_derivable(xpubs, Branch::Change.spec_code(), index)
}

/// Derives the receiving and the change pair for one index. Succeeds
/// exactly when every key is derivable for both branches of the index.
pub fn derive_report(master_keys: &Vec<MasterKey>, index: u32) -> (r: Result<IndexReport, Error>)
    requires
        master_keys@.len() == 3,
        forall|i: int| 0 <= i < 3 ==> (#[trigger] master_keys@[i]).wf(),
        index < 0x8000_0000,
    ensures
        r.is_ok() == report_derivable(encodings(master_keys@), index),
        r matches Ok(rep) ==> rep.index == index && rep.matches(encodings(master_keys@)),
        r matches Err(e) ==> e is Derivation,
{
    let receive = match derive_one(master_keys, DerivationPath::new(Branch::Receive, index)) {
        Ok(d) => d,
        Err(e) => {
            return Err(e);
        },
    };
    let change = match derive_one(master_keys, DerivationPath::new(Branch::Change, index)) {
        Ok(d) => d,
        Err(e) => {
            return Err(e);
        },
    };
    Ok(IndexReport { index, receive, change })
}

/// Parses the three master key strings and derives the full report list,
/// one report per index below `DERIVATION_COUNT`. Succeeds exactly when
/// all three strings are valid extended public keys and every index is
/// derivable on both branches. Aborts on the first failure: an invalid
/// master key string is reported as `Error::KeyParse` before any
/// derivation begins, so a caller that prints only on success prints no
/// partial output; a failed derivation step is reported as
/// `Error::Derivation`, never skipped.
pub fn run(xpubs: &Vec<String>) -> (r: Result<Vec<IndexReport>, Error>)
    requires
        xpubs@.len() == 3,
    ensures
        r.is_ok() == ((forall|i: int| 0 <= i < 3 ==> xpub_ok(#[trigger] xpubs.deep_view()[i]))
            && (forall|k: u32|
            k < DERIVATION_COUNT ==> #[trigger] report_derivable(xpubs.deep_view(), k))),
        r matches Ok(reports) ==> {
            &&& reports@.len() == DERIVATION_COUNT as int
            &&& forall|i: int|
                0 <= i < reports@.len() ==> (#[trigger] reports@[i]).index == i
                    && reports@[i].matches(xpubs.deep_view())
        },
        (exists|i: int|
            0 <= i < 3 && !xpub_ok(#[trigger] xpubs.deep_view()[i])) ==> (r matches Err(e)
            && e is KeyParse),
        r matches Err(e) ==> e is KeyParse || e is Derivation,
{
    let mut keys: Vec<MasterKey> = Vec::new();
    let mut i: usize = 0;
    while i < 3
        invariant
            xpubs@.len() == 3,
            i <= 3,
            keys@.len() == i,
            forall|j: int|
                0 <= j < i ==> (#[trigger] keys@[j]).wf() && keys@[j].encoding()
                    == xpubs.deep_view()[j],
            forall|j: int| 0 <= j < i ==> xpub_ok(#[trigger] xpubs.deep_view()[j]),
        decreases 3 - i,
    {
        proof {
            assert(xpubs.deep_view()[i as int] == xpubs@[i as int]@);
        }
        match MasterKey::parse(xpubs[i].clone()) {
            Ok(k) => keys.push(k),
            Err(e) => {
                return Err(e);
            },
        }
        i = i + 1;
    }
    proof {
        assert(encodings(keys@) =~= xpubs.deep_view());
    }
    let mut reports: Vec<IndexReport> = Vec::new();
    let mut index: u32 = 0;
    while index < DERIVATION_COUNT
        invariant
            keys@.len() == 3,
            forall|j: int| 0 <= j < 3 ==> (#[trigger] keys@[j]).wf(),
            encodings(keys@) == xpubs.deep_view(),
            forall|j: int| 0 <= j < 3 ==> xpub_ok(#[trigger] xpubs.deep_view()[j]),
            index <= DERIVATION_COUNT,
            reports@.len() == index as int,
            forall|j: int|
                0 <= j < reports@.len() ==> (#[trigger] reports@[j]).index == j
                    && reports@[j].matches(xpubs.deep_view()),
            forall|k: u32| k < index ==> #[trigger] report_derivable(xpubs.deep_view(), k),
        decreases DERIVATION_COUNT - index,
    {
        match derive_report(&keys, index) {
            Ok(rep) => reports.push(rep),
            Err(e) => {
                return Err(e);
            },
        }
        index = index + 1;
    }
    Ok(reports)
}

/// The multiset of a mapped sequence depends only on the multiset of the
/// input sequence.
proof fn lemma_map_values_multiset<A, B>(s1: Seq<A>, s2: Seq<A>, f: spec_fn(A) -> B)
    requires
        s1.to_multiset() == s2.to_multiset(),
    ensures
        s1.map_values(f).to_multiset() == s2.map_values(f).to_multiset(),
    decreases s1.len(),
{
    broadcast use vstd::seq_lib::group_to_multiset_ensures;
    broadcast use vstd::multiset::group_multiset_axioms;

    if s1.len() == 0 {
        assert(s1.to_multiset().len() == 0);
        assert(s2.to_multiset().len() == s2.len());
        assert(s1 =~= s2);
    } else {
        let x = s1[0];
        assert(s1.contains(x));
        assert(s1.to_multiset().count(x) > 0);
        assert(s2.to_multiset().count(x) > 0);
        assert(s2.contains(x));
        let j = choose|j: int| 0 <= j < s2.len() && s2[j] == x;
        assert(s1.remove(0).to_multiset() =~= s1.to_multiset().remove(x));
        assert(s2.remove(j).to_multiset() =~= s2.to_multiset().remove(x));
        lemma_map_values_multiset(s1.remove(0), s2.remove(j), f);
        assert(s1.remove(0).map_values(f) =~= s1.map_values(f).remove(0));
        assert(s2.remove(j).map_values(f) =~= s2.map_values(f).remove(j));
        let m1 = s1.map_values(f).to_multiset();
        let m2 = s2.map_values(f).to_multiset();
        assert(s1.map_values(f)[0] == f(x));
        assert(s2.map_values(f)[j] == f(x));
        assert(s1.map_values(f).remove(0).to_multiset() =~= m1.remove(f(x)));
        assert(s2.map_values(f).remove(j).to_multiset() =~= m2.remove(f(x)));
        assert(m1.remove(f(x)) =~= m2.remove(f(x)));
        assert(s1.map_values(f).contains(f(x)));
        assert(m1.count(f(x)) > 0);
        assert(s2.map_values(f).contains(f(x)));
        assert(m2.count(f(x)) > 0);
        assert(m1 =~= m2) by {
            assert forall|e: B| m1.count(e) == m2.count(e) by {
                if e == f(x) {
                    assert(m1.remove(f(x)).count(e) == m1.count(e) - 1);
                    assert(m2.remove(f(x)).count(e) == m2.count(e) - 1);
                    assert(m1.remove(f(x)).count(e) == m2.remove(f(x)).count(e));
                } else {
                    assert(m1.remove(f(x)).count(e) == m1.count(e));
                    assert(m2.remove(f(x)).count(e) == m2.count(e));
                    assert(m1.remove(f(x)).count(e) == m2.remove(f(x)).count(e));
                }
            }
        }
    }
}

/// Law: the pipeline is deterministic. Whatever is derived twice from the
/// same master key encodings and the same path is byte-identical, address
/// and identifier alike.
pub proof fn lemma_pipeline_deterministic(
    xpubs: Seq<Seq<char>>,
    path: DerivationPath,
    d1: Derived,
    d2: Derived,
)
    requires
        d1.matches(xpubs, path),
        d2.matches(xpubs, path),
    ensures
        d1.address@ == d2.address@,
        d1.script_hash_id@ == d2.script_hash_id@,
{
}

/// Law: listing the three master keys in another order changes neither the
/// derived address nor the identifier — sorting canonicalizes the key
/// order.
pub proof fn lemma_master_key_order_irrelevant(
    x1: Seq<Seq<char>>,
    x2: Seq<Seq<char>>,
    path: DerivationPath,
)
    requires
        x1.to_multiset() == x2.to_multiset(),
    ensures
        spec_address(x1, path) == spec_address(x2, path),
        spec_script_hash(x1, path) == spec_script_hash(x2, path),
{
    let f = |s: Seq<char>| crate::keys::child_key_of(s, path.branch.spec_code(), path.index);
    assert(spec_child_keys(x1, path) =~= x1.map_values(f));
    assert(spec_child_keys(x2, path) =~= x2.map_values(f));
    lemma_map_values_multiset(x1, x2, f);
    lemma_sorted_keys_order_independent(spec_child_keys(x1, path), spec_child_keys(x2, path));
}

} // verus!
