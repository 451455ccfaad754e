//! Fixed principals that integration setups use for mock users and mock
//! canisters.
use vstd::prelude::*;
use crate::principal::{Principal, spec_self_authenticating};

verus! {

/// The `width` low bytes of `n`, least significant first.
pub open spec fn le_bytes(n: nat, width: nat) -> Seq<u8>
    decreases width,
{
    if width == 0 {
        Seq::empty()
    } else {
        seq![(n % 256) as u8] + le_bytes(n / 256, (width - 1) as nat)
    }
}

proof fn lemma_le_bytes_len(n: nat, width: nat)
    ensures
        le_bytes(n, width).len() == width,
    decreases width,
{
    if width > 0 {
        lemma_le_bytes_len(n / 256, (width - 1) as nat);
    }
}

/// The bytes of a `usize` in the machine's byte order: little-endian or
/// big-endian, as wide as a `usize`.
pub open spec fn native_bytes(n: usize) -> Set<Seq<u8>> {
    set![
        le_bytes(n as nat, (usize::BITS / 8) as nat),
        le_bytes(n as nat, (usize::BITS / 8) as nat).reverse(),
    ]
}

/// Calls `usize::to_ne_bytes`, documented to give the value's bytes in the
/// target's native byte order; the contract claims one of the two orders, as
/// wide as a `usize`.
#[verifier::external_body]
fn usize_native_bytes(n: usize) -> (r: Vec<u8>)
    ensures
        native_bytes(n).contains(r@),
{
    n.to_ne_bytes().to_vec()
}

/// The canister id made of the native bytes of `n`.
fn mock_canister_id(n: usize) -> (r: Principal)
    ensures
        native_bytes(n).contains(r@),
{
    let bytes = usize_native_bytes(n);
    proof {
        lemma_le_bytes_len(n as nat, (usize::BITS / 8) as nat);
        assert(usize::BITS == 32 || usize::BITS == 64);
    }
    Principal::from_slice(bytes.as_slice())
}

/// Mock user Alice: the self-authenticating principal of the key `[1]`.
pub fn get_mock_user_alice_principal_id() -> (r: Principal)
    ensures
        r@ == spec_self_authenticating(seq![1u8]),
{
    let key: [u8; 1] = [1u8];
    assert(key@ =~= seq![1u8]);
    Principal::self_authenticating(&key)
}

/// Mock user Bob: the self-authenticating principal of the key `[2]`.
pub fn get_mock_user_bob_principal_id() -> (r: Principal)
    ensures
        r@ == spec_self_authenticating(seq![2u8]),
{
    let key: [u8; 1] = [2u8];
    assert(key@ =~= seq![2u8]);
    Principal::self_authenticating(&key)
}

/// Mock user Charlie: the self-authenticating principal of the key `[3]`.
pub fn get_mock_user_charlie_principal_id() -> (r: Principal)
    ensures
        r@ == spec_self_authenticating(seq![3u8]),
{
    let key: [u8; 1] = [3u8];
    assert(key@ =~= seq![3u8]);
    Principal::self_authenticating(&key)
}

/// Mock user Dan: the self-authenticating principal of the key `[4]`.
pub fn get_mock_user_dan_principal_id() -> (r: Principal)
    ensures
        r@ == spec_self_authenticating(seq![4u8]),
{
    let key: [u8; 1] = [4u8];
    assert(key@ =~= seq![4u8]);
    Principal::self_authenticating(&key)
}

/// Mock user Tom: the self-authenticating principal of the key `[5]`.
pub fn get_mock_user_tom_principal_id() -> (r: Principal)
    ensures
        r@ == spec_self_authenticating(seq![5u8]),
{
    let key: [u8; 1] = [5u8];
    assert(key@ =~= seq![5u8]);
    Principal::self_authenticating(&key)
}

/// Mock user Lucy: the self-authenticating principal of the key `[6]`.
pub fn get_mock_user_lucy_principal_id() -> (r: Principal)
    ensures
        r@ == spec_self_authenticating(seq![6u8]),
{
    let key: [u8; 1] = [6u8];
    assert(key@ =~= seq![6u8]);
    Principal::self_authenticating(&key)
}

/// The mock root canister: the native bytes of 2.
pub fn get_mock_canister_id_root() -> (r: Principal)
    ensures
        native_bytes(2).contains(r@),
{
    mock_canister_id(2)
}

/// The mock topic cache canister: the native bytes of 4.
pub fn get_mock_canister_id_topic_cache() -> (r: Principal)
    ensures
        native_bytes(4).contains(r@),
{
    mock_canister_id(4)
}

/// The mock configuration canister: the native bytes of 6.
pub fn get_mock_canister_id_configuration() -> (r: Principal)
    ensures
        native_bytes(6).contains(r@),
{
    mock_canister_id(6)
}

/// The mock data backup canister: the native bytes of 7.
pub fn get_mock_canister_id_data_backup() -> (r: Principal)
    ensures
        native_bytes(7).contains(r@),
{
    mock_canister_id(7)
}

/// Alice's mock individual canister: the native bytes of 8.
pub fn get_mock_user_alice_canister_id() -> (r: Principal)
    ensures
        native_bytes(8).contains(r@),
{
    mock_canister_id(8)
}

/// Bob's mock individual canister: the native bytes of 9.
pub fn get_mock_user_bob_canister_id() -> (r: Principal)
    ensures
        native_bytes(9).contains(r@),
{
    mock_canister_id(9)
}

/// Charlie's mock individual canister: the native bytes of 10.
pub fn get_mock_user_charlie_canister_id() -> (r: Principal)
    ensures
        native_bytes(10).contains(r@),
{
    mock_canister_id(10)
}

/// Dan's mock individual canister: the native bytes of 11.
pub fn get_mock_user_dan_canister_id() -> (r: Principal)
    ensures
        native_bytes(11).contains(r@),
{
    mock_canister_id(11)
}

} // verus!
