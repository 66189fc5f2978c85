use vstd::prelude::*;
use sha2::Digest;
use crate::errors::Error;
use crate::descriptor::Descriptor;
use crate::hexstr::{hex_of, to_hex, is_lower_hex_char, lemma_hex_of_len, lemma_hex_of_chars};
use crate::keys::{keys_ok, ok_shape};

verus! {

/// The mainnet address string of the legacy-wrapped witness multisig
/// descriptor (2-of-3, sorted keys) over the given key encodings.
/// Descriptor construction and address encoding are deterministic, so the
/// address is a function of the key encodings alone.
pub uninterp spec fn address_of(keys: Seq<Seq<u8>>) -> Seq<char>;

/// The canonical byte encoding of the same descriptor's locking script.
pub uninterp spec fn script_of(keys: Seq<Seq<u8>>) -> Seq<u8>;

/// The 32-byte SHA-256 digest of a byte sequence.
pub uninterp spec fn sha256_of(data: Seq<u8>) -> Seq<u8>;

/// The script-hash identifier of a descriptor's keys: the SHA-256 digest of
/// the locking script, byte-reversed, rendered as lowercase hex.
pub open spec fn spec_script_hash_id(keys: Seq<Seq<u8>>) -> Seq<char> {
    hex_of(sha256_of(script_of(keys)).reverse())
}

/// Whether the descriptor encoder accepts a key listing: every key decodes
/// and the policy passes the script-context checks, all deterministic in
/// the key bytes. One condition serves address and script alike, since the
/// two encoders share their construction and their failure paths.
pub uninterp spec fn encode_ok(keys: Seq<Seq<u8>>) -> bool;

/// Relies on `miniscript::descriptor::Sh::new_wsh_sortedmulti` and
/// `Sh::address`: rebuilding the sh(wsh(sortedmulti(2, keys))) descriptor
/// from the same key encodings and encoding its mainnet address is
/// deterministic. The keys are decoded with `bitcoin::PublicKey::from_slice`;
/// three decodable 33-byte (hence compressed) keys pass every construction
/// check of the 2-of-3 witness-script policy, and `Sh::address` is total,
/// so on such keys the call succeeds. The address is the mainnet base58check
/// script-hash encoding: 34 characters beginning with '3'.
#[verifier::external_body]
fn address_raw(keys: &Vec<Vec<u8>>) -> (r: Result<String, String>)
    ensures
        r.is_ok() == encode_ok(keys.deep_view()),
        ok_shape(keys.deep_view()) && keys_ok(keys.deep_view()) ==> r.is_ok(),
        r matches Ok(a) ==> a@ == address_of(keys.deep_view()) && a@.len() == 34 && a@[0] == '3',
{
    let mut pks: Vec<bitcoin::PublicKey> = Vec::new();
    for k in keys.iter() {
        match bitcoin::PublicKey::from_slice(k) {
            Ok(pk) => pks.push(pk),
            Err(e) => return Err(e.to_string()),
        }
    }
    match miniscript::descriptor::Sh::new_wsh_sortedmulti(2, pks) {
        Ok(sh) => Ok(sh.address(bitcoin::Network::Bitcoin).to_string()),
        Err(e) => Err(e.to_string()),
    }
}

/// Relies on `miniscript::descriptor::Sh::new_wsh_sortedmulti` and
/// `Sh::script_pubkey`: the canonical locking-script bytes of the rebuilt
/// descriptor are a deterministic function of the key encodings. The keys
/// are decoded with `bitcoin::PublicKey::from_slice`; construction succeeds
/// on three decodable 33-byte keys exactly as for the address, and
/// `Sh::script_pubkey` is total.
#[verifier::external_body]
fn script_raw(keys: &Vec<Vec<u8>>) -> (r: Result<Vec<u8>, String>)
    ensures
        r.is_ok() == encode_ok(keys.deep_view()),
        ok_shape(keys.deep_view()) && keys_ok(keys.deep_view()) ==> r.is_ok(),
        r matches Ok(v) ==> v@ == script_of(keys.deep_view()),
{
    let mut pks: Vec<bitcoin::PublicKey> = Vec::new();
    for k in keys.iter() {
        match bitcoin::PublicKey::from_slice(k) {
            Ok(pk) => pks.push(pk),
            Err(e) => return Err(e.to_string()),
        }
    }
    match miniscript::descriptor::Sh::new_wsh_sortedmulti(2, pks) {
        Ok(sh) => Ok(sh.script_pubkey().to_bytes()),
        Err(e) => Err(e.to_string()),
    }
}

/// Relies on `sha2::Sha256::digest`: the digest is 32 bytes and a function
/// of the input bytes alone.
#[verifier::external_body]
fn sha256_raw(data: &Vec<u8>) -> (r: Vec<u8>)
    ensures
        r@ == sha256_of(data@),
        r@.len() == 32,
{
    sha2::Sha256::digest(data.as_slice()).to_vec()
}

/// Returns the bytes of a vector in reverse order: the endianness transform
/// applied to the script digest.
pub fn reversed(v: &Vec<u8>) -> (r: Vec<u8>)
    ensures
        r@ == v@.reverse(),
{
    let n = v.len();
    let mut r: Vec<u8> = Vec::new();
    let mut i: usize = 0;
    while i < n
        invariant
            n == v@.len(),
            i <= n,
            r@.len() == i,
            forall|j: int| 0 <= j < i ==> r@[j] == v@[n - 1 - j],
        decreases n - i,
    {
        r.push(v[n - 1 - i]);
        i = i + 1;
    }
    proof {
        assert(r@ =~= v@.reverse());
    }
    r
}

/// Reversing a byte sequence twice gives the sequence back: the endianness
/// transform of the script-hash identifier is a round trip.
pub proof fn lemma_reverse_involutive(s: Seq<u8>)
    ensures
        s.reverse().reverse() == s,
{
    assert(s.reverse().reverse() =~= s);
}

/// Encodes the descriptor as its mainnet address: 34 base58check characters
/// beginning with '3'. Deterministic: the returned address is a function of
/// the descriptor's sorted keys. Succeeds exactly when the script encoder
/// accepts the keys, and always when every key decodes — which holds of
/// every descriptor built from derived keys, so for those the failure path
/// is unreachable.
pub fn to_address(desc: &Descriptor) -> (r: Result<String, Error>)
    requires
        desc.wf(),
    ensures
        r.is_ok() == encode_ok(desc@),
        keys_ok(desc@) ==> r.is_ok(),
        r matches Ok(a) ==> a@ == address_of(desc@) && a@.len() == 34 && a@[0] == '3',
        r matches Err(e) ==> e is Descriptor,
{
    match address_raw(desc.keys()) {
        Ok(a) => Ok(a),
        Err(m) => Err(Error::Descriptor(m)),
    }
}

/// Computes the Electrum-style script-hash identifier of the descriptor:
/// SHA-256 of the locking script, bytes reversed (the consuming protocol
/// indexes by the little-endian rendering), as exactly 64 lowercase hex
/// characters. Succeeds exactly when the script encoder accepts the keys,
/// and always when every key decodes — which holds of every descriptor
/// built from derived keys, so for those a value is always returned.
pub fn to_script_hash_id(desc: &Descriptor) -> (r: Result<String, Error>)
    requires
        desc.wf(),
    ensures
        r.is_ok() == encode_ok(desc@),
        keys_ok(desc@) ==> r.is_ok(),
        r matches Ok(h) ==> h@ == spec_script_hash_id(desc@) && h@.len() == 64 && (forall|i: int|
            0 <= i < h@.len() ==> is_lower_hex_char(#[trigger] h@[i])),
        r matches Err(e) ==> e is Descriptor,
{
    let script = match script_raw(desc.keys()) {
        Ok(v) => v,
        Err(m) => {
            return Err(Error::Descriptor(m));
        },
    };
    let digest = sha256_raw(&script);
    let le_digest = reversed(&digest);
    let hex = to_hex(&le_digest);
    proof {
        lemma_hex_of_len(le_digest@);
        lemma_hex_of_chars(le_digest@);
    }
    Ok(hex)
}

} // verus!
