use vstd::prelude::*;
use crate::errors::Error;

verus! {

/// Whether a string is a valid serialized extended public key, i.e. whether
/// `bitcoin::bip32::ExtendedPubKey::from_str` accepts it. Parsing is a
/// deterministic check of the base58check encoding, so this is a function of
/// the string alone.
pub uninterp spec fn xpub_ok(s: Seq<char>) -> bool;

/// The depth byte of the extended public key that `s` encodes: how many
/// derivation steps below its master key it already sits. Part of the
/// serialization, so a function of the string alone.
pub uninterp spec fn xpub_depth(s: Seq<char>) -> u8;

/// The 33-byte compressed encoding of the public key obtained from the
/// extended public key that `s` encodes by two non-hardened derivation
/// steps, first `branch`, then `index`. BIP32 public derivation is a
/// deterministic function of the serialized parent key and the path.
pub uninterp spec fn child_key_of(s: Seq<char>, branch: u32, index: u32) -> Seq<u8>;

/// Whether those two derivation steps succeed: they fail only when an
/// HMAC-derived tweak leaves the curve's key space, which is determined by
/// the serialized parent key and the path.
pub uninterp spec fn child_ok(s: Seq<char>, branch: u32, index: u32) -> bool;

/// Whether a byte string is a public key encoding that
/// `bitcoin::PublicKey::from_slice` accepts.
pub uninterp spec fn key_ok(k: Seq<u8>) -> bool;

/// Relies on `bitcoin::bip32::ExtendedPubKey::from_str`: whether parsing
/// succeeds, and the depth byte of the decoded key, are deterministic
/// functions of the string.
#[verifier::external_body]
fn parse_xpub_raw(s: &str) -> (r: Result<u8, String>)
    ensures
        r.is_ok() == xpub_ok(s@),
        r matches Ok(d) ==> d == xpub_depth(s@),
{
    match <bitcoin::bip32::ExtendedPubKey as std::str::FromStr>::from_str(s) {
        Ok(k) => Ok(k.depth),
        Err(e) => Err(e.to_string()),
    }
}

/// Relies on `bitcoin::bip32::ExtendedPubKey::derive_pub` (BIP32
/// non-hardened public child derivation): whether the two steps succeed,
/// and which key they produce, are deterministic functions of the
/// serialized parent key and the path, and `to_pub().to_bytes()` is the
/// child's 33-byte compressed SEC encoding, which
/// `bitcoin::PublicKey::from_slice` accepts back. The parent is recovered
/// from its string with `ExtendedPubKey::from_str` first. Each step
/// increments the depth byte, so a parent deeper than 253 is excluded by
/// the precondition: on it the second increment would overflow.
#[verifier::external_body]
fn derive_child_raw(s: &str, branch: u32, index: u32) -> (r: Result<Vec<u8>, String>)
    requires
        xpub_ok(s@),
        xpub_depth(s@) <= 253,
        branch < 0x8000_0000,
        index < 0x8000_0000,
    ensures
        r.is_ok() == child_ok(s@, branch, index),
        r matches Ok(v) ==> v@ == child_key_of(s@, branch, index) && v@.len() == 33 && key_ok(
            v@,
        ),
{
    let xpub = match <bitcoin::bip32::ExtendedPubKey as std::str::FromStr>::from_str(s) {
        Ok(k) => k,
        Err(e) => return Err(e.to_string()),
    };
    let secp = secp256k1::Secp256k1::verification_only();
    let path = [
        bitcoin::bip32::ChildNumber::Normal { index: branch },
        bitcoin::bip32::ChildNumber::Normal { index },
    ];
    match xpub.derive_pub(&secp, &path) {
        Ok(child) => Ok(child.to_pub().to_bytes()),
        Err(e) => Err(e.to_string()),
    }
}

/// Whether the two derivation steps for `(branch, index)` are possible for
/// the extended public key that `s` encodes: the key sits shallow enough
/// for two more levels, and neither step leaves the curve's key space.
pub open spec fn derivable(s: Seq<char>, branch: u32, index: u32) -> bool {
    xpub_depth(s) <= 253 && child_ok(s, branch, index)
}

/// One master extended public key, held in its serialized string form
/// together with its depth byte. The only constructor is `parse`, so every
/// value of this type holds a string that decodes to a valid extended
/// public key and the depth that the string encodes.
#[derive(Debug)]
pub struct MasterKey {
    xpub: String,
    depth: u8,
}

impl MasterKey {
    /// The serialized form of the key.
    pub closed spec fn encoding(&self) -> Seq<char> {
        self.xpub@
    }

    /// Validity: the held string decodes to an extended public key, and the
    /// held depth is the one the string encodes.
    pub closed spec fn wf(&self) -> bool {
        xpub_ok(self.xpub@) && self.depth == xpub_depth(self.xpub@)
    }

    /// Parses a serialized extended public key. Returns `Error::KeyParse` if
    /// and only if the string is not a valid extended public key.
    pub fn parse(s: String) -> (r: Result<MasterKey, Error>)
        ensures
            r.is_ok() == xpub_ok(s@),
            r matches Ok(k) ==> k.wf() && k.encoding() == s@,
            r matches Err(e) ==> e is KeyParse,
    {
        match parse_xpub_raw(s.as_str()) {
            Ok(d) => Ok(MasterKey { xpub: s, depth: d }),
            Err(m) => Err(Error::KeyParse(m)),
        }
    }

    /// Derives the child public key for `(branch, index)`: two non-hardened
    /// steps, branch first. Succeeds exactly when the key is derivable for
    /// that path; a failed step — a key too deep for two more levels, or a
    /// step that leaves the key space — is reported, never suppressed.
    pub fn derive_child(&self, branch: u32, index: u32) -> (r: Result<Vec<u8>, Error>)
        requires
            self.wf(),
            branch < 0x8000_0000,
            index < 0x8000_0000,
        ensures
            r.is_ok() == derivable(self.encoding(), branch, index),
            r matches Ok(v) ==> v@ == child_key_of(self.encoding(), branch, index) && v@.len()
                == 33 && key_ok(v@),
            r matches Err(e) ==> e is Derivation,
    {
        if self.depth > 253 {
            return Err(
                Error::Derivation("the key is too deep for two more derivation steps".to_owned()),
            );
        }
        match derive_child_raw(self.xpub.as_str(), branch, index) {
            Ok(v) => Ok(v),
            Err(m) => Err(Error::Derivation(m)),
        }
    }
}

/// The derivation branch. Receiving addresses sit on child index 0, change
/// addresses on child index 1.
#[derive(Clone, Copy, PartialEq, Eq, Structural)]
pub enum Branch {
    Receive,
    Change,
}

impl Branch {
    /// The BIP32 child index of the branch: receive = 0, change = 1.
    pub open spec fn spec_code(self) -> u32 {
        match self {
            Branch::Receive => 0,
            Branch::Change => 1,
        }
    }

    /// Returns the child index of the branch.
    pub fn code(self) -> (r: u32)
        ensures
            r == self.spec_code(),
    {
        match self {
            Branch::Receive => 0,
            Branch::Change => 1,
        }
    }
}

/// A two-level derivation path, applied branch first, then index. Both
/// components must be non-hardened child indices (top bit clear): the branch
/// codes are below two by construction, and `wf` demands it of the index.
#[derive(Clone, Copy)]
pub struct DerivationPath {
    pub branch: Branch,
    pub index: u32,
}

impl DerivationPath {
    /// Validity: the index is a non-hardened child index.
    pub open spec fn wf(self) -> bool {
        self.index < 0x8000_0000
    }

    /// Builds a path. Supplying a hardened index is a programming error,
    /// ruled out by the precondition, not a runtime input.
    pub fn new(branch: Branch, index: u32) -> (r: DerivationPath)
        requires
            index < 0x8000_0000,
        ensures
            r.branch == branch,
            r.index == index,
            r.wf(),
    {
        DerivationPath { branch, index }
    }
}

/// The serialized forms of a list of master keys, in order.
pub open spec fn encodings(ks: Seq<MasterKey>) -> Seq<Seq<char>> {
    ks.map_values(|k: MasterKey| k.encoding())
}

/// The child keys obtained by applying one path to each of a list of
/// extended public keys, in order.
pub open spec fn spec_child_keys(xpubs: Seq<Seq<char>>, path: DerivationPath) -> Seq<Seq<u8>> {
    xpubs.map_values(|s: Seq<char>| child_key_of(s, path.branch.spec_code(), path.index))
}

/// Whether every key of a listing is derivable for `(branch, index)`.
pub open spec fn all_derivable(xpubs: Seq<Seq<char>>, branch: u32, index: u32) -> bool {
    forall|j: int| 0 <= j < xpubs.len() ==> derivable(#[trigger] xpubs[j], branch, index)
}

/// The derived child public keys, one per master key, in the master keys'
/// order.
pub struct ChildKeySet {
    keys: Vec<Vec<u8>>,
}

/// Shape of a valid child key set: exactly three keys of 33 bytes each.
pub open spec fn ok_shape(s: Seq<Seq<u8>>) -> bool {
    s.len() == 3 && forall|i: int| 0 <= i < 3 ==> #[trigger] s[i].len() == 33
}

/// Whether every key of a listing is a decodable public key encoding.
pub open spec fn keys_ok(s: Seq<Seq<u8>>) -> bool {
    forall|i: int| 0 <= i < s.len() ==> key_ok(#[trigger] s[i])
}

impl View for ChildKeySet {
    type V = Seq<Seq<u8>>;

    closed spec fn view(&self) -> Seq<Seq<u8>> {
        self.keys.deep_view()
    }
}

impl ChildKeySet {
    /// Wraps a key listing. The shape is not constrained here: `build`
    /// checks it at its own boundary and rejects a wrong count or width.
    pub fn new(keys: Vec<Vec<u8>>) -> (r: ChildKeySet)
        ensures
            r@ == keys.deep_view(),
    {
        ChildKeySet { keys }
    }

    /// The keys, as byte vectors in derivation order.
    pub fn keys(&self) -> (r: &Vec<Vec<u8>>)
        ensures
            r.deep_view() == self@,
    {
        &self.keys
    }

    /// Takes the keys out of the set.
    pub fn into_keys(self) -> (r: Vec<Vec<u8>>)
        ensures
            r.deep_view() == self@,
    {
        self.keys
    }
}

/// Applies the same derivation path to each of the three master keys
/// independently. The output order mirrors the input order. Succeeds
/// exactly when every key is derivable for the path; a failed derivation
/// step fails the whole call, and no key is silently skipped.
pub fn derive(master_keys: &Vec<MasterKey>, path: DerivationPath) -> (r: Result<
    ChildKeySet,
    Error,
>)
    requires
        master_keys@.len() == 3,
        forall|i: int| 0 <= i < 3 ==> (#[trigger] master_keys@[i]).wf(),
        path.wf(),
    ensures
        r.is_ok() == all_derivable(encodings(master_keys@), path.branch.spec_code(), path.index),
        r matches Ok(cs) ==> cs@ == spec_child_keys(encodings(master_keys@), path) && ok_shape(
            cs@,
        ) && keys_ok(cs@),
        r matches Err(e) ==> e is Derivation,
{
    let mut keys: Vec<Vec<u8>> = Vec::new();
    let mut i: usize = 0;
    while i < master_keys.len()
        invariant
            master_keys@.len() == 3,
            forall|j: int| 0 <= j < 3 ==> (#[trigger] master_keys@[j]).wf(),
            path.wf(),
            i <= 3,
            keys@.len() == i,
            forall|j: int|
                0 <= j < i ==> #[trigger] keys.deep_view()[j] == child_key_of(
                    master_keys@[j].encoding(),
                    path.branch.spec_code(),
                    path.index,
                ) && keys.deep_view()[j].len() == 33 && key_ok(keys.deep_view()[j]),
            forall|j: int|
                0 <= j < i ==> derivable(
                    #[trigger] master_keys@[j].encoding(),
                    path.branch.spec_code(),
                    path.index,
                ),
        decreases master_keys@.len() - i,
    {
        match master_keys[i].derive_child(path.branch.code(), path.index) {
            Ok(v) => {
                let ghost old_dv = keys.deep_view();
                let ghost vv = v@;
                keys.push(v);
                proof {
                    assert(keys.deep_view() =~~= old_dv.push(vv));
                }
            },
            Err(e) => {
                proof {
                    assert(!derivable(
                        encodings(master_keys@)[i as int],
                        path.branch.spec_code(),
                        path.index,
                    ));
                }
                return Err(e);
            },
        }
        i = i + 1;
    }
    proof {
        assert(keys.deep_view() =~~= spec_child_keys(encodings(master_keys@), path));
        assert(forall|j: int|
            0 <= j < 3 ==> derivable(
                #[trigger] encodings(master_keys@)[j],
                path.branch.spec_code(),
                path.index,
            ));
    }
    Ok(ChildKeySet { keys })
}

} // verus!
