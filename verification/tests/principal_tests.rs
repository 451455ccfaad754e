use canister_fleet::principal::{Principal, MAX_PRINCIPAL_LEN};
use canister_fleet::test_constants::{
    get_mock_canister_id_root, get_mock_user_alice_canister_id, get_mock_user_alice_principal_id,
    get_mock_user_bob_principal_id, get_mock_user_dan_canister_id, get_mock_user_lucy_principal_id,
};

#[test]
fn test_ingress_principal_id_equality_from_different_sources() {
    assert_eq!("2vxsx-fae".to_string(), Principal::anonymous().to_text());
    assert_eq!(
        Principal::from_text("2vxsx-fae").unwrap().as_slice(),
        Principal::anonymous().as_slice()
    );
}

#[test]
fn management_canister_text_round_trips() {
    let p = Principal::from_text("aaaaa-aa").unwrap();
    assert_eq!(p.as_slice(), &[] as &[u8]);
    assert_eq!(Principal::management_canister().to_text(), "aaaaa-aa");
}

#[test]
fn governance_and_ledger_ids_decode_to_their_bytes() {
    let gov = Principal::from_text("rrkah-fqaaa-aaaaa-aaaaq-cai").unwrap();
    assert_eq!(gov.as_slice(), &[0, 0, 0, 0, 0, 0, 0, 1, 1, 1]);
    let ledger = Principal::from_text("ryjl3-tyaaa-aaaaa-aaaba-cai").unwrap();
    assert_eq!(ledger.as_slice(), &[0, 0, 0, 0, 0, 0, 0, 2, 1, 1]);
    assert_eq!(gov.to_text(), "rrkah-fqaaa-aaaaa-aaaaq-cai");
}

#[test]
fn upper_case_text_parses_to_the_same_principal() {
    let p = Principal::from_text("2VXSX-FAE").unwrap();
    assert_eq!(p.as_slice(), &[4]);
}

#[test]
fn bad_texts_give_the_codec_errors() {
    assert_eq!(
        Principal::from_text("not a principal!").unwrap_err(),
        "Text must be in valid Base32 encoding."
    );
    assert_eq!(Principal::from_text("").unwrap_err(), "Text is too short.");
    // A wrong check sequence.
    assert_eq!(
        Principal::from_text("2vxsx-fbe").unwrap_err(),
        "CRC32 check sequence doesn't match with calculated from Principal bytes."
    );
}

#[test]
fn from_text_then_to_text_gives_the_lower_case_text() {
    for t in ["74zq4-iqaaa-aaaam-ab53a-cai", "6wcax-haaaa-aaaaq-aaava-cai", "rimrc-piaaa-aaaao-aaljq-cai"] {
        assert_eq!(Principal::from_text(t).unwrap().to_text(), t);
    }
}

#[test]
fn slices_longer_than_the_maximum_are_refused() {
    let bytes = [7u8; 30];
    assert!(Principal::try_from_slice(&bytes).is_none());
    let ok = Principal::try_from_slice(&bytes[..MAX_PRINCIPAL_LEN]).unwrap();
    assert_eq!(ok.len(), 29);
    assert_eq!(Principal::from_slice(&[1, 2, 3]).as_slice(), &[1, 2, 3]);
}

#[test]
fn principal_order_is_by_length_then_bytes() {
    let short = Principal::from_slice(&[9]);
    let long = Principal::from_slice(&[1, 0]);
    assert!(short.less_than(&long));
    assert!(!long.less_than(&short));
    let a = Principal::from_slice(&[1, 2]);
    let b = Principal::from_slice(&[1, 3]);
    assert!(a.less_than(&b));
    assert!(!a.less_than(&a));
    assert!(a.same_as(&a.duplicate()));
    assert!(!a.same_as(&b));
}

#[test]
fn mock_users_are_self_authenticating() {
    let alice = get_mock_user_alice_principal_id();
    let bob = get_mock_user_bob_principal_id();
    assert_eq!(alice.len(), 29);
    assert_eq!(alice.as_slice()[28], 2);
    assert!(!alice.same_as(&bob));
    assert_eq!(alice.as_slice(), Principal::self_authenticating(&[1]).as_slice());
    assert_eq!(get_mock_user_lucy_principal_id().as_slice(), Principal::self_authenticating(&[6]).as_slice());
}

#[test]
fn mock_canister_ids_are_native_usize_bytes() {
    assert_eq!(get_mock_canister_id_root().as_slice(), &2usize.to_ne_bytes());
    assert_eq!(get_mock_user_alice_canister_id().as_slice(), &8usize.to_ne_bytes());
    assert_eq!(get_mock_user_dan_canister_id().as_slice(), &11usize.to_ne_bytes());
}
