//! Decisions of the cycle harvest runner: reading management-canister
//! errors, the reserve left behind on the final cycle return, top-ups,
//! the final controller check and parent recovery.
use vstd::prelude::*;
use crate::controllers::{ids, list_contains, is_orchestrator_only};
use crate::principal::{Principal, spec_principal_text};
use crate::registry::PrincipalSet;
use crate::cycles::{digits_value64, nat_to_u128};
use crate::text::{text_has, text_contains, to_lowercase, spec_to_lowercase};

verus! {

/// Balance (cycles) a canister needs after uninstall to be reinstalled.
pub const MIN_REINSTALL_BALANCE: u128 = 1_000_000_000_000;
/// Cycles deposited when a canister is below `MIN_REINSTALL_BALANCE`.
pub const TOP_UP_AMOUNT: u128 = 500_000_000_000;
/// Cycles deposited before a harvest so an exhausted canister can be reached.
pub const PRE_HARVEST_DEPOSIT: u128 = 100_000_000_000;
/// The reserve tried first on the final cycle return.
pub const FIRST_RESERVE: u128 = 50_000_000_000;
/// How much the reserve grows after an out-of-cycles failure.
pub const RESERVE_STEP: u128 = 10_000_000_000;
/// The largest reserve tried.
pub const MAX_RESERVE: u128 = 100_000_000_000;
/// How deep parent recovery may go.
pub const MAX_PARENT_RECOVERY_DEPTH: usize = 5;
/// Text forms longer than this belong to users, not canisters.
pub const CANISTER_TEXT_MAX: usize = 30;

/// `s` contains one of `needles`.
pub open spec fn contains_any(s: Seq<char>, needles: Seq<Seq<char>>) -> bool {
    exists|i: int| 0 <= i < needles.len() && text_contains(s, #[trigger] needles[i])
}

/// The error says only controllers may do this: the orchestrator is then
/// the canister's sole controller.
pub open spec fn is_controller_only_error_spec(s: Seq<char>) -> bool {
    ||| text_contains(s, "Only the controllers of the canister"@)
    ||| text_contains(s, "can control it"@)
    ||| text_contains(s, "IC0512"@)
    ||| text_contains(s, "add the current caller as a controller"@)
}

/// Whether a management-canister error is the "only the controllers" rejection.
pub fn is_controller_only_error(s: &str) -> (r: bool)
    ensures
        r == is_controller_only_error_spec(s@),
{
    text_has(s, "Only the controllers of the canister")
        || text_has(s, "can control it")
        || text_has(s, "IC0512")
        || text_has(s, "add the current caller as a controller")
}

/// The error is about controllers or ownership: parent recovery is worth a try.
pub open spec fn is_controller_ownership_error_spec(s: Seq<char>) -> bool {
    ||| text_contains(s, "Only the controllers of the canister"@)
    ||| text_contains(s, "can control it"@)
    ||| text_contains(s, "IC0512"@)
    ||| text_contains(s, "add the current caller as a controller"@)
    ||| text_contains(s, "add_our_identity_as_controller failed"@)
    ||| text_contains(s, "not a controller"@)
    ||| (text_contains(s, "controller"@) && text_contains(s, "failed"@))
}

/// Whether a harvest error is about controllers or ownership.
pub fn is_controller_ownership_error(s: &str) -> (r: bool)
    ensures
        r == is_controller_ownership_error_spec(s@),
{
    text_has(s, "Only the controllers of the canister")
        || text_has(s, "can control it")
        || text_has(s, "IC0512")
        || text_has(s, "add the current caller as a controller")
        || text_has(s, "add_our_identity_as_controller failed")
        || text_has(s, "not a controller")
        || text_has(s, "controller") && text_has(s, "failed")
}

/// The (lower-cased) error says the canister ran out of cycles.
pub open spec fn is_out_of_cycles_error_spec(s: Seq<char>) -> bool {
    let l = spec_to_lowercase(s);
    ||| text_contains(l, "out of cycles"@)
    ||| text_contains(l, "ic0504"@)
    ||| (text_contains(l, "cycles"@) && text_contains(l, "out"@))
    ||| text_contains(l, "couldn't send message"@)
}

/// Whether an error of the cycle return means the canister ran out of cycles.
pub fn is_out_of_cycles_error(s: &str) -> (r: bool)
    ensures
        r == is_out_of_cycles_error_spec(s@),
{
    let l = to_lowercase(s);
    let l = l.as_str();
    text_has(l, "out of cycles")
        || text_has(l, "ic0504")
        || (text_has(l, "cycles") && text_has(l, "out"))
        || text_has(l, "couldn't send message")
}

/// The error says the canister does not exist.
pub open spec fn is_not_found_error_spec(s: Seq<char>) -> bool {
    ||| text_contains(s, "canister_not_found"@)
    ||| text_contains(s, "Canister not found"@)
    ||| text_contains(s, "not exist"@)
}

/// Whether a management-canister error says the canister does not exist.
pub fn is_not_found_error(s: &str) -> (r: bool)
    ensures
        r == is_not_found_error_spec(s@),
{
    text_has(s, "canister_not_found") || text_has(s, "Canister not found") || text_has(s, "not exist")
}

/// A principal whose text form is longer than a canister's belongs to a
/// user, and cannot be harvested.
pub fn is_user_principal(p: &Principal) -> (r: bool)
    ensures
        r == (spec_principal_text(p@).len() > CANISTER_TEXT_MAX),
{
    let t = p.to_text();
    t.as_str().unicode_len() > CANISTER_TEXT_MAX
}

/// What became of one attempt to return cycles.
#[derive(Clone, Copy, PartialEq, Eq, Debug, Structural)]
pub enum ReturnAttempt {
    /// The canister sent this many cycles.
    Transferred(u128),
    /// The call or the canister reported an out-of-cycles error.
    OutOfCycles,
    /// Any other failure.
    Failed,
}

/// What to do after an attempt.
#[derive(PartialEq, Eq, Structural)]
pub enum ReserveDecision {
    /// Stop with this many cycles transferred.
    Stop(u128),
    /// Try again, leaving this reserve.
    Retry(u128),
}

/// After an attempt with `reserve` left behind: stop with the amount on
/// success, stop with nothing on another failure, and after an
/// out-of-cycles failure retry with a reserve larger by `RESERVE_STEP`,
/// unless that passes `MAX_RESERVE`, in which case stop with nothing.
pub open spec fn reserve_decision(reserve: u128, attempt: ReturnAttempt) -> ReserveDecision {
    match attempt {
        ReturnAttempt::Transferred(n) => ReserveDecision::Stop(n),
        ReturnAttempt::Failed => ReserveDecision::Stop(0),
        ReturnAttempt::OutOfCycles => if reserve + RESERVE_STEP <= MAX_RESERVE {
            ReserveDecision::Retry((reserve + RESERVE_STEP) as u128)
        } else {
            ReserveDecision::Stop(0)
        },
    }
}

/// The next step of the reserve loop.
pub fn next_reserve(reserve: u128, attempt: ReturnAttempt) -> (r: ReserveDecision)
    requires
        reserve <= MAX_RESERVE,
    ensures
        r == reserve_decision(reserve, attempt),
{
    match attempt {
        ReturnAttempt::Transferred(n) => ReserveDecision::Stop(n),
        ReturnAttempt::Failed => ReserveDecision::Stop(0),
        ReturnAttempt::OutOfCycles => {
            let next = reserve + RESERVE_STEP;
            if next <= MAX_RESERVE {
                ReserveDecision::Retry(next)
            } else {
                ReserveDecision::Stop(0)
            }
        },
    }
}

/// Every retry raises the reserve by `RESERVE_STEP` and stays within
/// `MAX_RESERVE`, so starting from `FIRST_RESERVE` there are at most six
/// attempts; cycles count as transferred only after a successful attempt.
pub proof fn law_reserve_retries_bounded(reserve: u128, attempt: ReturnAttempt)
    requires
        reserve <= MAX_RESERVE,
    ensures
        reserve_decision(reserve, attempt) matches ReserveDecision::Retry(next)
            ==> next == reserve + RESERVE_STEP && next <= MAX_RESERVE,
        reserve_decision(reserve, attempt) matches ReserveDecision::Stop(n)
            ==> (n > 0 ==> (attempt matches ReturnAttempt::Transferred(m) && m == n)),
{
}

/// The deposit a canister needs before it can be reinstalled: `TOP_UP_AMOUNT`
/// when its balance is below `MIN_REINSTALL_BALANCE`, else none.
pub fn top_up_needed(balance_after_uninstall: u128) -> (r: Option<u128>)
    ensures
        balance_after_uninstall < MIN_REINSTALL_BALANCE ==> r == Some(TOP_UP_AMOUNT),
        balance_after_uninstall >= MIN_REINSTALL_BALANCE ==> r is None,
{
    if balance_after_uninstall < MIN_REINSTALL_BALANCE {
        Some(TOP_UP_AMOUNT)
    } else {
        None
    }
}

/// What the check after `add_our_identity_as_controller` concludes.
pub enum ControllerCheck {
    /// The actions identity is among the controllers.
    Confirmed,
    /// The canister was reported as not found; the check is skipped.
    Skipped,
    /// The controllers lack the actions identity: the harvest stops.
    Missing,
    /// The status query failed otherwise: the harvest stops with this error.
    Failed(String),
}

/// Judges the status query made right after adding the actions identity.
pub fn check_added_controller(reply: Result<Vec<Principal>, String>, actions: &Principal) -> (r: ControllerCheck)
    ensures
        reply matches Ok(c) ==> (r is Confirmed <==> ids(c@).contains(actions@)),
        reply matches Ok(c) ==> (r is Missing <==> !ids(c@).contains(actions@)),
        reply matches Err(e) ==> (is_not_found_error_spec(e@) ==> r is Skipped),
        reply matches Err(e) ==> (!is_not_found_error_spec(e@) ==> (r matches ControllerCheck::Failed(m) && m@ == e@)),
{
    match reply {
        Ok(controllers) => {
            if list_contains(&controllers, actions) {
                ControllerCheck::Confirmed
            } else {
                ControllerCheck::Missing
            }
        },
        Err(e) => {
            if is_not_found_error(e.as_str()) {
                ControllerCheck::Skipped
            } else {
                ControllerCheck::Failed(e)
            }
        },
    }
}

/// A harvested canister must end with the platform orchestrator as its only
/// controller.
pub fn harvest_completed(controllers: &Vec<Principal>, po: &Principal) -> (r: bool)
    ensures
        r == (ids(controllers@) == seq![po@]),
{
    is_orchestrator_only(controllers, po)
}

/// The parents worth trying in parent recovery: the canister controllers
/// (not users) not yet visited in this recovery chain, in their order.
pub open spec fn recovery_candidate(p: Seq<u8>, visited: Set<Seq<u8>>) -> bool {
    spec_principal_text(p).len() <= CANISTER_TEXT_MAX && !visited.contains(p)
}

/// Keeps the controllers that are canisters and not yet visited.
pub fn recovery_candidates(controllers: &Vec<Principal>, visited: &PrincipalSet) -> (r: Vec<Principal>)
    ensures
        ids(r@) == ids(controllers@).filter(|p: Seq<u8>| recovery_candidate(p, visited@)),
{
    let ghost pred = |p: Seq<u8>| recovery_candidate(p, visited@);
    let mut out: Vec<Principal> = Vec::new();
    let mut i: usize = 0;
    while i < controllers.len()
        invariant
            i <= controllers@.len(),
            pred == (|p: Seq<u8>| recovery_candidate(p, visited@)),
            ids(out@) == ids(controllers@).take(i as int).filter(pred),
        decreases controllers@.len() - i,
    {
        let c = &controllers[i];
        let keep = !is_user_principal(c) && !visited.contains(c);
        proof {
            let s = ids(controllers@);
            assert(s.take(i + 1).drop_last() =~= s.take(i as int));
            reveal_with_fuel(Seq::filter, 1);
        }
        if keep {
            let d = c.duplicate();
            proof {
                assert(ids(out@.push(d)) =~= ids(out@).push(d@));
            }
            out.push(d);
        }
        i = i + 1;
    }
    assert(ids(controllers@).take(i as int) =~= ids(controllers@));
    out
}

/// Whether parent recovery may go one level deeper.
pub fn recovery_depth_allowed(depth: usize) -> (r: bool)
    ensures
        r == (depth < MAX_PARENT_RECOVERY_DEPTH),
{
    depth < MAX_PARENT_RECOVERY_DEPTH
}

/// How parent recovery opens on a canister at recovery depth `depth`.
pub enum RecoveryOpening {
    /// The depth limit is reached: recovery gives up on this canister.
    DepthLimit,
    /// The canister reports no controllers at all.
    NoControllers,
    /// The actions identity already controls it: harvest it directly.
    HarvestDirectly,
    /// Every controller is a user or was visited in this chain.
    NoUnvisitedParents,
    /// Try these parents, in this order.
    TryParents(Vec<Principal>),
}

/// The parents of a canister whose controllers are `controllers`: those
/// that are canisters and not yet visited in this recovery chain.
pub open spec fn parents_to_try(controllers: Seq<Seq<u8>>, visited: Set<Seq<u8>>) -> Seq<Seq<u8>> {
    controllers.filter(|p: Seq<u8>| recovery_candidate(p, visited))
}

/// Opens parent recovery on a canister: give up past the depth limit or
/// when it has no controllers, harvest it directly when the actions identity
/// controls it, else try its unvisited canister parents (none left is a
/// failure of its own).
pub fn open_recovery(depth: usize, controllers: &Vec<Principal>, actions: &Principal, visited: &PrincipalSet) -> (r: RecoveryOpening)
    ensures
        depth >= MAX_PARENT_RECOVERY_DEPTH ==> r is DepthLimit,
        depth < MAX_PARENT_RECOVERY_DEPTH && controllers@.len() == 0 ==> r is NoControllers,
        depth < MAX_PARENT_RECOVERY_DEPTH && controllers@.len() > 0 && ids(controllers@).contains(actions@)
            ==> r is HarvestDirectly,
        depth < MAX_PARENT_RECOVERY_DEPTH && controllers@.len() > 0 && !ids(controllers@).contains(actions@)
            ==> (if parents_to_try(ids(controllers@), visited@).len() == 0 {
                r is NoUnvisitedParents
            } else {
                r matches RecoveryOpening::TryParents(ps) && ids(ps@) == parents_to_try(ids(controllers@), visited@)
            }),
{
    if !recovery_depth_allowed(depth) {
        return RecoveryOpening::DepthLimit;
    }
    if controllers.len() == 0 {
        return RecoveryOpening::NoControllers;
    }
    if list_contains(controllers, actions) {
        return RecoveryOpening::HarvestDirectly;
    }
    let parents = recovery_candidates(controllers, visited);
    if parents.len() == 0 {
        RecoveryOpening::NoUnvisitedParents
    } else {
        RecoveryOpening::TryParents(parents)
    }
}

/// What a failed harvest of a parent leads to.
#[derive(Clone, Copy, PartialEq, Eq, Debug, Structural)]
pub enum ParentFailure {
    /// Recover the parent through its own parents, one level deeper.
    RecurseAt(usize),
    /// Note the failure and go on with the next parent.
    MoveOn,
}

/// After the harvest of a parent failed with `reason` at depth `depth`:
/// a controller or ownership failure sends recovery one level up the chain
/// of parents, any other failure moves on to the next parent.
pub fn after_parent_failure(reason: &str, depth: usize) -> (r: ParentFailure)
    requires
        depth < MAX_PARENT_RECOVERY_DEPTH,
    ensures
        is_controller_ownership_error_spec(reason@) ==> r == ParentFailure::RecurseAt((depth + 1) as usize),
        !is_controller_ownership_error_spec(reason@) ==> r == ParentFailure::MoveOn,
{
    if is_controller_ownership_error(reason) {
        ParentFailure::RecurseAt(depth + 1)
    } else {
        ParentFailure::MoveOn
    }
}

/// The parents recovery tries are controllers of the canister, are
/// canisters rather than users, were not visited before in the chain, and
/// come in the order the controllers were listed.
pub proof fn law_parents_tried(controllers: Seq<Seq<u8>>, visited: Set<Seq<u8>>)
    ensures
        forall|p: Seq<u8>| #[trigger] parents_to_try(controllers, visited).contains(p) ==> {
            &&& controllers.contains(p)
            &&& !visited.contains(p)
            &&& spec_principal_text(p).len() <= CANISTER_TEXT_MAX
        },
        parents_to_try(controllers, visited).len() <= controllers.len(),
{
    let pred = |p: Seq<u8>| recovery_candidate(p, visited);
    let tried = controllers.filter(pred);
    controllers.lemma_filter_len(pred);
    assert forall|p: Seq<u8>| #[trigger] tried.contains(p) implies {
        &&& controllers.contains(p)
        &&& !visited.contains(p)
        &&& spec_principal_text(p).len() <= CANISTER_TEXT_MAX
    } by {
        controllers.lemma_filter_contains_rev(pred, p);
        let i = choose|i: int| 0 <= i < tried.len() && tried[i] == p;
        controllers.lemma_filter_pred(pred, i);
    }
}

/// Folding the digits in the order given with `(acc << 64) | digit` on a
/// `u128` (the low half of `acc` moves up, the digit fills the low half):
/// what the harvest runner falls back to for a count that does not fit in
/// 128 bits.
pub open spec fn shifted_fold(d: Seq<u64>) -> nat
    decreases d.len(),
{
    if d.len() == 0 {
        0
    } else {
        (shifted_fold(d.drop_last()) % 0x1_0000_0000_0000_0000) * 0x1_0000_0000_0000_0000 + d.last() as nat
    }
}

/// A cycle count read from a status reply, given as its base-2^64 digits
/// (least significant first): the value where it fits in a `u128`, else the
/// digits folded as the runner folds them.
pub fn cycles_from_digits(digits: &Vec<u64>) -> (r: u128)
    ensures
        digits_value64(digits@) <= u128::MAX ==> r == digits_value64(digits@),
        digits_value64(digits@) > u128::MAX ==> r == shifted_fold(digits@),
{
    if let Ok(v) = nat_to_u128(digits) {
        return v;
    }
    let n = digits.len();
    let mut acc: u128 = 0;
    let mut j: usize = 0;
    while j < n
        invariant
            n == digits@.len(),
            j <= n,
            acc as nat == shifted_fold(digits@.take(j as int)),
        decreases n - j,
    {
        proof {
            let t = digits@.take(j + 1);
            assert(t.drop_last() =~= digits@.take(j as int));
            assert(t.last() == digits@[j as int]);
        }
        let d = digits[j] as u128;
        let next = (acc << 64u32) | d;
        proof {
            lemma_shift_or(acc, d);
        }
        acc = next;
        j = j + 1;
    }
    assert(digits@.take(n as int) =~= digits@);
    acc
}

proof fn lemma_shift_or(acc: u128, d: u128)
    requires
        d <= u64::MAX,
    ensures
        ((acc << 64u32) | d) == (acc % 0x1_0000_0000_0000_0000u128) * 0x1_0000_0000_0000_0000u128 + d,
{
    assert(((acc << 64u32) | d) == (acc % 0x1_0000_0000_0000_0000u128) * 0x1_0000_0000_0000_0000u128 + d) by (bit_vector)
        requires d <= 0xffff_ffff_ffff_ffffu128;
}

} // verus!
