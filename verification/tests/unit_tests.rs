use multisig_derive::encode::reversed;
use multisig_derive::errors::Error;
use multisig_derive::hexstr::to_hex;
use multisig_derive::keys::{Branch, MasterKey};

#[test]
fn hex_rendering_exact() {
    assert_eq!(to_hex(&vec![]), "");
    assert_eq!(to_hex(&vec![0x00]), "00");
    assert_eq!(to_hex(&vec![0x0f, 0xa0, 0xff, 0x1a]), "0fa0ff1a");
}

#[test]
fn reversed_reverses() {
    assert_eq!(reversed(&vec![1u8, 2, 3, 4]), vec![4u8, 3, 2, 1]);
    assert_eq!(reversed(&vec![]), Vec::<u8>::new());
}

#[test]
fn reversed_round_trip() {
    let digest: Vec<u8> = (0u8..32).collect();
    assert_eq!(reversed(&reversed(&digest)), digest);
}

#[test]
fn branch_codes() {
    assert_eq!(Branch::Receive.code(), 0);
    assert_eq!(Branch::Change.code(), 1);
}

#[test]
fn parse_error_describes_itself() {
    let e = MasterKey::parse("garbage".to_string()).unwrap_err();
    match e {
        Error::KeyParse(_) => {
            assert!(!e.describe().is_empty());
        },
        _ => panic!("wrong error kind"),
    }
}
