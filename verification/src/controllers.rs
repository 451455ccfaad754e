//! Controller lists and caller authorization.
use vstd::prelude::*;
use crate::principal::{Principal, spec_principal_from_text};

verus! {

/// The principal of the platform orchestrator canister.
pub const PLATFORM_ORCHESTRATOR_ID: &'static str = "74zq4-iqaaa-aaaam-ab53a-cai";

/// The principal of the actions identity that runs the fleet tooling.
pub const ACTIONS_PRINCIPAL_ID: &'static str = "zg7n3-345by-nqf6o-3moz4-iwxql-l6gko-jqdz2-56juu-ja332-unymr-fqe";

/// The only caller the orchestrator's bulk cycle-reclaiming endpoints accept:
/// the actions identity.
pub const AUTHORIZED_CALLER_ID: &'static str = "zg7n3-345by-nqf6o-3moz4-iwxql-l6gko-jqdz2-56juu-ja332-unymr-fqe";

/// The principal of the IC management canister.
pub const MANAGEMENT_CANISTER_ID: &'static str = "aaaaa-aa";

/// The principal of the SNS governance canister.
pub const SNS_GOVERNANCE_CANISTER_ID: &'static str = "6wcax-haaaa-aaaaq-aaava-cai";

/// The byte strings of a list of principals.
pub open spec fn ids(s: Seq<Principal>) -> Seq<Seq<u8>> {
    s.map_values(|p: Principal| p@)
}

/// `s` with `p` appended unless it already holds it.
pub open spec fn with_controller(s: Seq<Seq<u8>>, p: Seq<u8>) -> Seq<Seq<u8>> {
    if s.contains(p) {
        s
    } else {
        s.push(p)
    }
}

/// The controllers after `add_controllers`: the current ones, then the
/// platform orchestrator and the actions identity where they were missing.
pub open spec fn merged_controllers(current: Seq<Seq<u8>>, po: Seq<u8>, actions: Seq<u8>) -> Seq<Seq<u8>> {
    with_controller(with_controller(current, po), actions)
}

/// No principal occurs twice in `s`.
pub open spec fn no_duplicates(s: Seq<Seq<u8>>) -> bool {
    forall|i: int, j: int| 0 <= i < j < s.len() ==> #[trigger] s[i] != #[trigger] s[j]
}

/// Whether `list` holds `p`.
pub fn list_contains(list: &Vec<Principal>, p: &Principal) -> (r: bool)
    ensures
        r == ids(list@).contains(p@),
{
    let mut i: usize = 0;
    while i < list.len()
        invariant
            i <= list@.len(),
            forall|j: int| 0 <= j < i ==> list@[j]@ != p@,
        decreases list@.len() - i,
    {
        if list[i].same_as(p) {
            assert(ids(list@)[i as int] == p@);
            return true;
        }
        i = i + 1;
    }
    proof {
        if ids(list@).contains(p@) {
            let k = choose|k: int| 0 <= k < ids(list@).len() && ids(list@)[k] == p@;
            assert(list@[k]@ == p@);
        }
    }
    false
}

/// Appends `p` to `list` unless it is already there.
pub fn push_if_absent(list: &mut Vec<Principal>, p: Principal)
    ensures
        ids(final(list)@) == with_controller(ids(old(list)@), p@),
{
    let present = list_contains(list, &p);
    if !present {
        list.push(p);
        assert(ids(list@) =~= ids(old(list)@).push(p@));
    }
}

/// The controller list that `add_controllers` writes: `current`, then `po`
/// and `actions` where they were not yet present.
pub fn merge_controllers(current: Vec<Principal>, po: &Principal, actions: &Principal) -> (r: Vec<Principal>)
    ensures
        ids(r@) == merged_controllers(ids(current@), po@, actions@),
{
    let mut list = current;
    push_if_absent(&mut list, po.duplicate());
    push_if_absent(&mut list, actions.duplicate());
    list
}

/// The controllers `[po, actions]` that `add_our_identity_as_controller` sets.
pub fn harvest_controllers(po: &Principal, actions: &Principal) -> (r: Vec<Principal>)
    ensures
        ids(r@) == seq![po@, actions@],
{
    let mut v: Vec<Principal> = Vec::new();
    v.push(po.duplicate());
    v.push(actions.duplicate());
    assert(ids(v@) =~= seq![po@, actions@]);
    v
}

/// The controllers `[po]` that a decommissioned or harvested canister keeps.
pub fn orchestrator_only(po: &Principal) -> (r: Vec<Principal>)
    ensures
        ids(r@) == seq![po@],
{
    let mut v: Vec<Principal> = Vec::new();
    v.push(po.duplicate());
    assert(ids(v@) =~= seq![po@]);
    v
}

/// The controllers `[own_id, platform_orchestrator]` that a subnet
/// orchestrator sets on a canister it hands over.
pub fn subnet_handover_controllers(own_id: &Principal, platform_orchestrator: &Principal) -> (r: Vec<Principal>)
    ensures
        ids(r@) == seq![own_id@, platform_orchestrator@],
{
    harvest_controllers(own_id, platform_orchestrator)
}

/// Whether a controller list is exactly `[po]`, the state a harvest must end in.
pub fn is_orchestrator_only(controllers: &Vec<Principal>, po: &Principal) -> (r: bool)
    ensures
        r == (ids(controllers@) == seq![po@]),
{
    if controllers.len() != 1 {
        proof {
            if ids(controllers@) == seq![po@] {
                assert(ids(controllers@).len() == 1);
            }
        }
        return false;
    }
    let same = controllers[0].same_as(po);
    proof {
        if same {
            assert(ids(controllers@) =~= seq![po@]);
        } else {
            assert(ids(controllers@)[0] != seq![po@][0]);
        }
    }
    same
}

/// The error every guarded endpoint answers an unauthorized caller with.
pub fn unauthorized() -> (r: String)
    ensures
        r@ == "Unauthorized"@,
{
    "Unauthorized".to_string()
}

/// Lets `caller` through only if it is the principal whose text form is
/// `authorized`; a text that does not parse gives the parse error.
pub fn authorize_caller(caller: &Principal, authorized: &str) -> (r: Result<(), String>)
    ensures
        spec_principal_from_text(authorized@) matches Err(m) ==> (r matches Err(e) && e@ == m),
        spec_principal_from_text(authorized@) is Ok ==> (r is Ok <==> spec_principal_from_text(authorized@)->Ok_0 == caller@),
        spec_principal_from_text(authorized@) is Ok && r is Err ==> r->Err_0@ == "Unauthorized"@,
{
    let allowed = Principal::from_text(authorized)?;
    if caller.same_as(&allowed) {
        Ok(())
    } else {
        Err(unauthorized())
    }
}

/// The error of `add_controllers` when the target's status cannot be read.
pub fn status_query_error(reason: &str) -> (r: String)
    ensures
        r@ == "Failed to get canister status: "@ + reason@,
{
    "Failed to get canister status: ".to_string().concat(reason)
}

/// The error of `add_controllers` when the target's controllers cannot be
/// written.
pub fn settings_update_error(reason: &str) -> (r: String)
    ensures
        r@ == "Failed to update canister settings: "@ + reason@,
{
    "Failed to update canister settings: ".to_string().concat(reason)
}

/// Maps the answer of a controller check on the caller (the guard of the
/// orchestrator's admin endpoints) to the guard's result.
pub fn controller_guard(caller_is_controller: bool) -> (r: Result<(), String>)
    ensures
        r is Ok <==> caller_is_controller,
        r matches Err(e) ==> e@ == "Unauthorized"@,
{
    if caller_is_controller {
        Ok(())
    } else {
        Err(unauthorized())
    }
}

/// Appending a principal that is already present changes nothing, so adding
/// the same controllers a second time leaves the list as it is.
pub proof fn law_merge_idempotent(current: Seq<Seq<u8>>, po: Seq<u8>, actions: Seq<u8>)
    ensures
        merged_controllers(merged_controllers(current, po, actions), po, actions)
            == merged_controllers(current, po, actions),
{
    let m = merged_controllers(current, po, actions);
    lemma_merge_contains(current, po, actions);
}

/// After `add_controllers` the list holds the orchestrator, the actions
/// identity and every controller that was there before, in the same order
/// at the front.
pub proof fn law_merge_keeps_and_adds(current: Seq<Seq<u8>>, po: Seq<u8>, actions: Seq<u8>)
    ensures
        merged_controllers(current, po, actions).contains(po),
        merged_controllers(current, po, actions).contains(actions),
        merged_controllers(current, po, actions).len() >= current.len(),
        merged_controllers(current, po, actions).len() <= current.len() + 2,
        merged_controllers(current, po, actions).take(current.len() as int) == current,
{
    lemma_merge_contains(current, po, actions);
    let a = with_controller(current, po);
    assert(a.take(current.len() as int) =~= current);
    let b = with_controller(a, actions);
    assert(b.take(current.len() as int) =~= current);
}

/// A list without repeated principals stays without them after the merge.
pub proof fn law_merge_no_duplicates(current: Seq<Seq<u8>>, po: Seq<u8>, actions: Seq<u8>)
    requires
        no_duplicates(current),
    ensures
        no_duplicates(merged_controllers(current, po, actions)),
{
    lemma_with_controller_no_duplicates(current, po);
    lemma_with_controller_no_duplicates(with_controller(current, po), actions);
}

proof fn lemma_with_controller_no_duplicates(s: Seq<Seq<u8>>, p: Seq<u8>)
    requires
        no_duplicates(s),
    ensures
        no_duplicates(with_controller(s, p)),
{
    if !s.contains(p) {
        let t = s.push(p);
        assert forall|i: int, j: int| 0 <= i < j < t.len() implies #[trigger] t[i] != #[trigger] t[j] by {
            if j == s.len() {
                assert(t[i] == s[i]);
            } else {
                assert(t[i] == s[i] && t[j] == s[j]);
            }
        }
    }
}

proof fn lemma_merge_contains(current: Seq<Seq<u8>>, po: Seq<u8>, actions: Seq<u8>)
    ensures
        with_controller(current, po).contains(po),
        merged_controllers(current, po, actions).contains(po),
        merged_controllers(current, po, actions).contains(actions),
{
    let a = with_controller(current, po);
    if !current.contains(po) {
        assert(a[a.len() - 1] == po);
    }
    let b = with_controller(a, actions);
    if !a.contains(actions) {
        assert(b[b.len() - 1] == actions);
        let k = choose|k: int| 0 <= k < a.len() && a[k] == po;
        assert(b[k] == po);
    }
}

} // verus!
