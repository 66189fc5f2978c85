use multisig_derive::errors::Error;
use multisig_derive::keys::{Branch, ChildKeySet, DerivationPath, MasterKey};
use multisig_derive::pipeline::{derive_one, derive_report, run};

// The three master extended public keys of the standard BIP32 test vectors.
const XPUB_1: &str = "xpub661MyMwAqRbcFtXgS5sYJABqqG9YLmC4Q1Rdap9gSE8NqtwybGhePY2gZ29ESFjqJoCu1Rupje8YtGqsefD265TMg7usUDFdp6W1EGMcet8";
const XPUB_2: &str = "xpub661MyMwAqRbcFW31YEwpkMuc5THy2PSt5bDMsktWQcFF8syAmRUapSCGu8ED9W6oDMSgv6Zz8idoc4a6mr8BDzTJY47LJhkJ8UB7WEGuduB";
const XPUB_3: &str = "xpub661MyMwAqRbcEZVB4dScxMAdx6d4nFc9nvyvH3v4gJL378CSRZiYmhRoP7mBy6gSPSCYk6SzXPTf3ND1cZAceL7SfJ1Z3GC8vBgp2epUt13";

fn master_keys_in(order: [&str; 3]) -> Vec<MasterKey> {
    let mut keys = Vec::new();
    for s in order.iter() {
        keys.push(MasterKey::parse(s.to_string()).expect("valid xpub"));
    }
    keys
}

fn master_keys() -> Vec<MasterKey> {
    master_keys_in([XPUB_1, XPUB_2, XPUB_3])
}

#[test]
fn fixed_vector_index0_receive() {
    let keys = master_keys();
    let d = derive_one(&keys, DerivationPath::new(Branch::Receive, 0)).expect("derivation");
    assert_eq!(d.address, "3MoznmLaMxfm8WPSshVV1og3sJCTQacS6d");
    assert_eq!(
        d.script_hash_id,
        "511ec14b81bb30fdab9fca19a08954bc95f7ad96f779576798df820b57761ec3"
    );
}

#[test]
fn address_is_mainnet_p2sh_shaped() {
    let keys = master_keys();
    for index in 0..3u32 {
        let rep = derive_report(&keys, index).expect("derivation");
        for addr in [&rep.receive.address, &rep.change.address] {
            assert_eq!(addr.len(), 34);
            assert!(addr.starts_with('3'));
        }
    }
}

#[test]
fn too_deep_xpub_fails_derivation_not_parse() {
    // A valid extended public key whose depth byte says it already sits 255
    // levels deep: two more non-hardened steps are impossible.
    let mut data = bitcoin::base58::decode_check(XPUB_1).expect("decodable vector");
    data[4] = 255;
    let deep = bitcoin::base58::encode_check(&data);
    let key = MasterKey::parse(deep).expect("still a valid encoding");
    let r = key.derive_child(0, 0);
    assert!(matches!(r, Err(Error::Derivation(_))));
}

#[test]
fn index_changes_outputs() {
    let keys = master_keys();
    let d0 = derive_one(&keys, DerivationPath::new(Branch::Receive, 0)).expect("derivation");
    let d1 = derive_one(&keys, DerivationPath::new(Branch::Receive, 1)).expect("derivation");
    assert_ne!(d0.address, d1.address);
    assert_ne!(d0.script_hash_id, d1.script_hash_id);
}

#[test]
fn receive_and_change_differ() {
    let keys = master_keys();
    for index in 0..5u32 {
        let rep = derive_report(&keys, index).expect("derivation");
        assert_ne!(rep.receive.address, rep.change.address);
        assert_ne!(rep.receive.script_hash_id, rep.change.script_hash_id);
    }
}

#[test]
fn derivation_is_deterministic() {
    let keys = master_keys();
    let path = DerivationPath::new(Branch::Change, 7);
    let d1 = derive_one(&keys, path).expect("derivation");
    let d2 = derive_one(&keys, path).expect("derivation");
    assert_eq!(d1.address, d2.address);
    assert_eq!(d1.script_hash_id, d2.script_hash_id);
}

#[test]
fn master_key_order_is_irrelevant() {
    let orders = [
        [XPUB_1, XPUB_2, XPUB_3],
        [XPUB_2, XPUB_1, XPUB_3],
        [XPUB_3, XPUB_1, XPUB_2],
        [XPUB_3, XPUB_2, XPUB_1],
    ];
    let reference = derive_one(
        &master_keys(),
        DerivationPath::new(Branch::Receive, 0),
    )
    .expect("derivation");
    for order in orders.iter() {
        let keys = master_keys_in(*order);
        let d = derive_one(&keys, DerivationPath::new(Branch::Receive, 0)).expect("derivation");
        assert_eq!(d.address, reference.address);
        assert_eq!(d.script_hash_id, reference.script_hash_id);
    }
}

#[test]
fn script_hash_id_is_64_lower_hex() {
    let keys = master_keys();
    for index in 0..3u32 {
        let rep = derive_report(&keys, index).expect("derivation");
        for id in [&rep.receive.script_hash_id, &rep.change.script_hash_id] {
            assert_eq!(id.len(), 64);
            assert!(id.chars().all(|c| c.is_ascii_hexdigit() && !c.is_ascii_uppercase()));
        }
    }
}

#[test]
fn malformed_xpub_aborts_before_output() {
    let xpubs = vec![
        "not an extended public key".to_string(),
        XPUB_2.to_string(),
        XPUB_3.to_string(),
    ];
    let r = run(&xpubs);
    assert!(matches!(r, Err(Error::KeyParse(_))));
}

#[test]
fn malformed_second_xpub_aborts() {
    let xpubs = vec![
        XPUB_1.to_string(),
        "xpub661MyMwAqRbcBadBadBadBadBadBadBadBadBadBadBadBadBadBadBadBadBadBadBadBadBadBadBadBadBadBadBadBadBadBadBadBad".to_string(),
        XPUB_3.to_string(),
    ];
    let r = run(&xpubs);
    assert!(matches!(r, Err(Error::KeyParse(_))));
}

#[test]
fn build_rejects_wrong_key_count() {
    let two_keys = ChildKeySet::new(vec![vec![2u8; 33], vec![3u8; 33]]);
    let r = multisig_derive::descriptor::build(two_keys);
    assert!(matches!(r, Err(Error::Descriptor(_))));
}

#[test]
fn build_rejects_short_key() {
    let keys = ChildKeySet::new(vec![vec![2u8; 33], vec![3u8; 33], vec![2u8; 32]]);
    let r = multisig_derive::descriptor::build(keys);
    assert!(matches!(r, Err(Error::Descriptor(_))));
}

#[test]
fn run_produces_hundred_reports() {
    let xpubs = vec![XPUB_1.to_string(), XPUB_2.to_string(), XPUB_3.to_string()];
    let reports = run(&xpubs).expect("run");
    assert_eq!(reports.len(), 100);
    for (i, rep) in reports.iter().enumerate() {
        assert_eq!(rep.index as usize, i);
        assert_eq!(rep.receive.script_hash_id.len(), 64);
        assert_eq!(rep.change.script_hash_id.len(), 64);
    }
}
