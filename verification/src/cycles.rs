//! Returning a canister's cycle balance to the platform orchestrator.
use vstd::prelude::*;
use crate::controllers::PLATFORM_ORCHESTRATOR_ID;
use crate::principal::{Principal, spec_principal_from_text};

verus! {

/// What `return_cycle_balance_to_platform_orchestrator` does after reading
/// the balance: finish at once, or deposit `amount` cycles into `to`.
pub enum CycleReturnStart {
    Done(Result<u128, String>),
    Deposit { to: Principal, amount: u128 },
}

/// The cycles to send back: everything above `reserve`, nothing when the
/// balance does not exceed it.
pub open spec fn returnable_cycles(balance: u128, reserve: u128) -> u128 {
    if balance <= reserve {
        0
    } else {
        (balance - reserve) as u128
    }
}

/// The cycles above `reserve` (0 where the balance does not exceed it).
pub fn cycles_to_return(balance: u128, reserve: u128) -> (r: u128)
    ensures
        r == returnable_cycles(balance, reserve),
{
    if balance <= reserve {
        0
    } else {
        balance - reserve
    }
}

/// The first decision of a cycle return: with a balance at or below the
/// reserve it answers `Ok(0)`; otherwise it deposits the excess into the
/// platform orchestrator, or answers the parse error of the orchestrator's id.
pub fn begin_cycle_return(balance: u128, reserve: u128) -> (r: CycleReturnStart)
    ensures
        balance <= reserve ==> r == CycleReturnStart::Done(Ok(0)),
        balance > reserve && spec_principal_from_text(PLATFORM_ORCHESTRATOR_ID@) is Ok ==> (r matches CycleReturnStart::Deposit { to, amount }
            && amount == balance - reserve
            && Ok::<Seq<u8>, Seq<char>>(to@) == spec_principal_from_text(PLATFORM_ORCHESTRATOR_ID@)),
        balance > reserve && spec_principal_from_text(PLATFORM_ORCHESTRATOR_ID@) is Err ==> (r matches CycleReturnStart::Done(Err(e))
            && Err::<Seq<u8>, Seq<char>>(e@) == spec_principal_from_text(PLATFORM_ORCHESTRATOR_ID@)),
{
    if balance <= reserve {
        return CycleReturnStart::Done(Ok(0));
    }
    let amount = balance - reserve;
    match Principal::from_text(PLATFORM_ORCHESTRATOR_ID) {
        Ok(to) => CycleReturnStart::Deposit { to, amount },
        Err(e) => CycleReturnStart::Done(Err(e)),
    }
}

/// The answer once the deposit returned: the amount sent, or the rejection
/// message of the deposit call.
pub fn finish_cycle_return(amount: u128, deposit: Result<(), String>) -> (r: Result<u128, String>)
    ensures
        deposit is Ok ==> r == Ok::<u128, String>(amount),
        deposit matches Err(m) ==> (r matches Err(e) && e@ == m@),
{
    match deposit {
        Ok(()) => Ok(amount),
        Err(m) => Err(m),
    }
}

/// A cycle return leaves exactly the reserve behind when it sends anything,
/// and sends nothing when the balance does not exceed the reserve.
pub proof fn law_reserve_is_kept(balance: u128, reserve: u128)
    ensures
        returnable_cycles(balance, reserve) > 0 ==> balance - returnable_cycles(balance, reserve) == reserve,
        balance <= reserve ==> returnable_cycles(balance, reserve) == 0,
        returnable_cycles(balance, reserve) <= balance,
{
}

/// The value of base-2^64 digits, least significant first.
pub open spec fn digits_value64(d: Seq<u64>) -> nat
    decreases d.len(),
{
    if d.len() == 0 {
        0
    } else {
        d[0] as nat + 0x1_0000_0000_0000_0000 * digits_value64(d.drop_first())
    }
}


proof fn lemma_high_zero_digits(d: Seq<u64>)
    requires
        forall|i: int| 2 <= i < d.len() ==> d[i] == 0,
    ensures
        digits_value64(d) == (if d.len() == 0 { 0 } else if d.len() == 1 { d[0] as nat } else {
            d[0] as nat + 0x1_0000_0000_0000_0000 * (d[1] as nat) }),
    decreases d.len(),
{
    if d.len() > 2 {
        let t = d.drop_first();
        let u = t.drop_first();
        assert forall|i: int| 0 <= i < u.len() implies u[i] == 0 by {
            assert(u[i] == d[i + 2]);
        }
        lemma_trailing_zero_digits(u);
        assert(digits_value64(t) == t[0] as nat + 0x1_0000_0000_0000_0000 * digits_value64(u));
        assert(t[0] == d[1]);
        assert(digits_value64(t) == d[1] as nat);
        assert(digits_value64(d) == d[0] as nat + 0x1_0000_0000_0000_0000 * digits_value64(t));
        assert(digits_value64(d) == d[0] as nat + 0x1_0000_0000_0000_0000 * (d[1] as nat));
    } else if d.len() == 2 {
        let t = d.drop_first();
        assert(t.drop_first() =~= Seq::<u64>::empty());
        assert(t[0] == d[1]);
        assert(digits_value64(t) == t[0] as nat + 0x1_0000_0000_0000_0000 * digits_value64(t.drop_first()));
        assert(digits_value64(t) == d[1] as nat);
        assert(digits_value64(d) == d[0] as nat + 0x1_0000_0000_0000_0000 * digits_value64(t));
        assert(digits_value64(d) == d[0] as nat + 0x1_0000_0000_0000_0000 * (d[1] as nat));
    } else if d.len() == 1 {
        assert(d.drop_first() =~= Seq::<u64>::empty());
        assert(digits_value64(d.drop_first()) == 0);
        assert(digits_value64(d) == d[0] as nat + 0x1_0000_0000_0000_0000 * digits_value64(d.drop_first()));
        assert(digits_value64(d) == d[0] as nat);
    } else {
        assert(digits_value64(d) == 0);
    }
}


proof fn lemma_trailing_zero_digits(d: Seq<u64>)
    requires
        forall|i: int| 0 <= i < d.len() ==> d[i] == 0,
    ensures
        digits_value64(d) == 0,
    decreases d.len(),
{
    if d.len() > 0 {
        lemma_trailing_zero_digits(d.drop_first());
    }
}


proof fn lemma_digit_at_least(d: Seq<u64>, k: int)
    requires
        0 <= k < d.len(),
        d[k] != 0,
    ensures
        digits_value64(d) >= pow64(k as nat),
    decreases k,
{
    if k > 0 {
        lemma_digit_at_least(d.drop_first(), k - 1);
        assert(pow64(k as nat) == 0x1_0000_0000_0000_0000 * pow64((k - 1) as nat));
    }
}


/// 2^(64 k).
pub open spec fn pow64(k: nat) -> nat
    decreases k,
{
    if k == 0 { 1 } else { 0x1_0000_0000_0000_0000 * pow64((k - 1) as nat) }
}


proof fn lemma_pow64_grows(k: nat)
    requires
        k >= 2,
    ensures
        pow64(k) > u128::MAX,
    decreases k,
{
    if k > 2 {
        lemma_pow64_grows((k - 1) as nat);
    } else {
        assert(pow64(2) == 0x1_0000_0000_0000_0000 * pow64(1));
        assert(pow64(1) == 0x1_0000_0000_0000_0000 * pow64(0));
    }
}


/// The `u128` of a natural number given as base-2^64 digits (least
/// significant first), or the error `num-bigint` reports when it does not
/// fit (`u128::try_from` on a `BigUint`).
pub fn nat_to_u128(digits: &Vec<u64>) -> (r: Result<u128, String>)
    ensures
        r is Ok <==> digits_value64(digits@) <= u128::MAX,
        r matches Ok(v) ==> v == digits_value64(digits@),
        r matches Err(e) ==> e@ == "out of range conversion regarding big integer attempted"@,
{
    let n = digits.len();
    let mut k: usize = 2;
    let mut high_zero = true;
    while k < n
        invariant
            n == digits@.len(),
            2 <= k,
            high_zero ==> forall|i: int| 2 <= i < k ==> digits@[i] == 0,
            !high_zero ==> exists|i: int| 2 <= i < n && digits@[i] != 0,
        decreases n - k,
    {
        if digits[k] != 0 {
            assert(digits@[k as int] != 0);
            high_zero = false;
        }
        k = k + 1;
    }
    if high_zero {
        proof {
            lemma_high_zero_digits(digits@);
        }
        if n == 0 {
            Ok(0)
        } else if n == 1 {
            Ok(digits[0] as u128)
        } else {
            let lo = digits[0] as u128;
            let hi = digits[1] as u128;
            assert(hi * 0x1_0000_0000_0000_0000 + lo <= u128::MAX) by (nonlinear_arith)
                requires hi <= u64::MAX, lo <= u64::MAX;
            Ok(hi * 0x1_0000_0000_0000_0000 + lo)
        }
    } else {
        proof {
            let i = choose|i: int| 2 <= i < n && digits@[i] != 0;
            lemma_digit_at_least(digits@, i);
            lemma_pow64_grows(i as nat);
        }
        Err("out of range conversion regarding big integer attempted".to_string())
    }
}

} // verus!
