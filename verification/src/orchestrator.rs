//! The platform orchestrator's state and the decisions of its endpoints.
use vstd::prelude::*;
use crate::controllers::{AUTHORIZED_CALLER_ID, authorize_caller, controller_guard, ids};
use crate::principal::{Principal, spec_principal_from_text, strictly_sorted};
use crate::registry::{PrincipalSet, sorted_form, page_of, law_pages_of_set};
use crate::text::{chars_of, decimal, decimal_chars, string_of};

verus! {

/// The first subnet orchestrator registered at install time.
pub const FIRST_SUBNET_ORCHESTRATOR_ID: &'static str = "rimrc-piaaa-aaaao-aaljq-cai";
/// The post cache orchestrator of the first subnet.
pub const FIRST_POST_CACHE_ID: &'static str = "y6yjf-jyaaa-aaaal-qbd6q-cai";
/// The second subnet orchestrator registered at install time.
pub const SECOND_SUBNET_ORCHESTRATOR_ID: &'static str = "znhy2-2qaaa-aaaag-acofq-cai";
/// The post cache orchestrator of the second subnet.
pub const SECOND_POST_CACHE_ID: &'static str = "zyajx-3yaaa-aaaag-acoga-cai";

/// The largest number of backup canisters asked of each subnet orchestrator
/// in one call.
pub const MAX_BACKUP_CANISTERS_PER_SUBNET: u64 = 100_000;

/// How many calls to subnet orchestrators run at once.
pub const COLLECT_CONCURRENCY: usize = 10;

/// How many canisters are decommissioned at once in a bulk run.
pub const DECOMMISSION_CONCURRENCY: usize = 5;

/// The platform orchestrator's state.
pub struct OrchestratorState {
    pub version: String,
    pub subnet_orchestrators: PrincipalSet,
    pub subnet_orchestrators_with_capacity: PrincipalSet,
    pub post_cache_orchestrators: PrincipalSet,
    pub controlled_canisters: PrincipalSet,
}

/// The run status of a canister, as the platform orchestrator reports it.
#[derive(Clone, Copy, PartialEq, Eq, Debug, Structural)]
pub enum CanisterRunningStatus {
    Running,
    Stopping,
    Stopped,
}

/// The run status of a canister, as the management canister reports it.
#[derive(Clone, Copy, PartialEq, Eq, Debug, Structural)]
pub enum ManagementCanisterStatus {
    Running,
    Stopping,
    Stopped,
}

/// What `get_controllers_and_cycle_balance` reports of a canister.
pub struct ControlledCanisterDetails {
    pub controllers: Vec<Principal>,
    pub cycle_balance: u128,
    pub reserved_cycles: u128,
    pub status: CanisterRunningStatus,
}

/// The bulk decommission status; decommissioning keeps no state, so it is
/// always empty.
pub struct DecommissionStatus {
    pub canisters_remaining: PrincipalSet,
    pub completed_count: u64,
    pub failed_canisters: Vec<(Principal, String)>,
}

/// The empty decommission status that `get_decommission_status` answers.
pub fn get_decommission_status() -> (r: DecommissionStatus)
    ensures
        r.canisters_remaining@ == Set::<Seq<u8>>::empty(),
        r.completed_count == 0,
        r.failed_canisters@.len() == 0,
{
    DecommissionStatus { canisters_remaining: PrincipalSet::new(), completed_count: 0, failed_canisters: Vec::new() }
}

/// The version the orchestrator reports.
pub fn get_version() -> (r: String)
    ensures
        r@ == "v21"@,
{
    "v21".to_string()
}

/// The same run status, as the orchestrator reports it.
pub open spec fn reported_status(status: ManagementCanisterStatus) -> CanisterRunningStatus {
    match status {
        ManagementCanisterStatus::Running => CanisterRunningStatus::Running,
        ManagementCanisterStatus::Stopping => CanisterRunningStatus::Stopping,
        ManagementCanisterStatus::Stopped => CanisterRunningStatus::Stopped,
    }
}

/// The management canister's status as the orchestrator reports it.
pub fn running_status_of(status: ManagementCanisterStatus) -> (r: CanisterRunningStatus)
    ensures
        r == reported_status(status),
{
    match status {
        ManagementCanisterStatus::Running => CanisterRunningStatus::Running,
        ManagementCanisterStatus::Stopping => CanisterRunningStatus::Stopping,
        ManagementCanisterStatus::Stopped => CanisterRunningStatus::Stopped,
    }
}

/// The details of a canister from its decoded status: the cycle balance and
/// the reserved cycles come converted to `u128`, or with the conversion's
/// error, which is answered (the balance's first).
pub fn controlled_canister_details(
    controllers: Vec<Principal>,
    cycles: Result<u128, String>,
    reserved: Result<u128, String>,
    status: ManagementCanisterStatus,
) -> (r: Result<ControlledCanisterDetails, String>)
    ensures
        cycles matches Err(m) ==> (r matches Err(e) && e@ == m@),
        cycles is Ok ==> (reserved matches Err(m) ==> (r matches Err(e) && e@ == m@)),
        cycles matches Ok(c) ==> (reserved matches Ok(v) ==> (r matches Ok(d)
            && ids(d.controllers@) == ids(controllers@)
            && d.cycle_balance == c
            && d.reserved_cycles == v
            && d.status == reported_status(status))),
{
    let cycle_balance = cycles?;
    let reserved_cycles = reserved?;
    Ok(ControlledCanisterDetails { controllers, cycle_balance, reserved_cycles, status: running_status_of(status) })
}

/// The message of a rejected call: the rejection code's number, `": "`,
/// and the rejection message.
pub fn rejection_message(code: u8, message: &str) -> (r: String)
    ensures
        r@ == decimal(code as nat) + ": "@ + message@,
{
    let mut v = decimal_chars(code as u64);
    let sep = chars_of(": ");
    let m = chars_of(message);
    let ghost head = v@;
    let mut i: usize = 0;
    while i < sep.len()
        invariant
            i <= sep@.len(),
            v@ == head + sep@.take(i as int),
        decreases sep@.len() - i,
    {
        v.push(sep[i]);
        i = i + 1;
        assert(v@ =~= head + sep@.take(i as int));
    }
    assert(sep@.take(i as int) =~= sep@);
    let ghost mid = v@;
    let mut j: usize = 0;
    while j < m.len()
        invariant
            j <= m@.len(),
            v@ == mid + m@.take(j as int),
        decreases m@.len() - j,
    {
        v.push(m[j]);
        j = j + 1;
        assert(v@ =~= mid + m@.take(j as int));
    }
    assert(m@.take(j as int) =~= m@);
    string_of(&v)
}

/// The message of a `canister_status` reply that does not decode.
pub fn decode_failure_message(error: &str) -> (r: String)
    ensures
        r@ == "failed to decode canister_status reply from mgmt: "@ + error@,
{
    let prefix = "failed to decode canister_status reply from mgmt: ".to_string();
    prefix.concat(error)
}

impl OrchestratorState {
    /// The state right after install: the given version and the two subnets
    /// (their orchestrators, also counted as having capacity left, and
    /// their post cache orchestrators); an id that does not parse gives its
    /// parse error.
    pub fn init(version: String) -> (r: Result<OrchestratorState, String>)
        ensures
            r matches Ok(s) ==> s.version@ == version@
                && s.subnet_orchestrators@ == set![
                    spec_principal_from_text(FIRST_SUBNET_ORCHESTRATOR_ID@)->Ok_0,
                    spec_principal_from_text(SECOND_SUBNET_ORCHESTRATOR_ID@)->Ok_0,
                ]
                && s.subnet_orchestrators_with_capacity@ == s.subnet_orchestrators@
                && s.post_cache_orchestrators@ == set![
                    spec_principal_from_text(FIRST_POST_CACHE_ID@)->Ok_0,
                    spec_principal_from_text(SECOND_POST_CACHE_ID@)->Ok_0,
                ]
                && s.controlled_canisters@ == Set::<Seq<u8>>::empty(),
            r is Ok <==> (spec_principal_from_text(FIRST_SUBNET_ORCHESTRATOR_ID@) is Ok
                && spec_principal_from_text(FIRST_POST_CACHE_ID@) is Ok
                && spec_principal_from_text(SECOND_SUBNET_ORCHESTRATOR_ID@) is Ok
                && spec_principal_from_text(SECOND_POST_CACHE_ID@) is Ok),
    {
        let so1 = Principal::from_text(FIRST_SUBNET_ORCHESTRATOR_ID)?;
        let pc1 = Principal::from_text(FIRST_POST_CACHE_ID)?;
        let so2 = Principal::from_text(SECOND_SUBNET_ORCHESTRATOR_ID)?;
        let pc2 = Principal::from_text(SECOND_POST_CACHE_ID)?;
        let mut subnet_orchestrators = PrincipalSet::new();
        let mut with_capacity = PrincipalSet::new();
        let mut post_caches = PrincipalSet::new();
        subnet_orchestrators.insert(so1.duplicate());
        with_capacity.insert(so1);
        post_caches.insert(pc1);
        subnet_orchestrators.insert(so2.duplicate());
        with_capacity.insert(so2);
        post_caches.insert(pc2);
        assert(subnet_orchestrators@ =~= with_capacity@);
        Ok(OrchestratorState {
            version,
            subnet_orchestrators,
            subnet_orchestrators_with_capacity: with_capacity,
            post_cache_orchestrators: post_caches,
            controlled_canisters: PrincipalSet::new(),
        })
    }

    /// Whether `canister_id` is among the controlled canisters.
    pub fn is_controlled_canister(&self, canister_id: &Principal) -> (r: bool)
        ensures
            r == self.controlled_canisters@.contains(canister_id@),
    {
        self.controlled_canisters.contains(canister_id)
    }

    /// The controlled canisters in principal order, skipping `start` of them
    /// and taking at most `limit`.
    pub fn get_controlled_canisters(&self, start: u64, limit: u64) -> (r: Vec<Principal>)
        ensures
            ids(r@) == page_of(sorted_form(self.controlled_canisters@), start as int, limit as int),
            strictly_sorted(sorted_form(self.controlled_canisters@)),
            sorted_form(self.controlled_canisters@).to_set() == self.controlled_canisters@,
            sorted_form(self.controlled_canisters@).len() == self.controlled_canisters@.len(),
    {
        self.controlled_canisters.page(start, limit)
    }

    /// The number of controlled canisters.
    pub fn get_controlled_canisters_count(&self) -> (r: u64)
        ensures
            r == self.controlled_canisters@.len(),
            self.controlled_canisters@.finite(),
    {
        self.controlled_canisters.count()
    }

    /// The registered subnet orchestrators, each once, to be asked for
    /// their canisters (in the set's iteration order).
    pub fn subnet_orchestrator_targets(&self) -> (r: Vec<Principal>)
        ensures
            ids(r@).to_set() == self.subnet_orchestrators@,
            ids(r@).no_duplicates(),
    {
        self.subnet_orchestrators.members()
    }

    /// Takes one subnet orchestrator's answer into the controlled canisters
    /// and counts its canisters into `fetched`.
    pub fn record_fetched(&mut self, fetched: &mut u64, canisters: Vec<Principal>)
        requires
            *old(fetched) + canisters@.len() <= u64::MAX,
        ensures
            *final(fetched) == *old(fetched) + canisters@.len(),
            final(self).controlled_canisters@ == old(self).controlled_canisters@.union(ids(canisters@).to_set()),
            final(self).subnet_orchestrators@ == old(self).subnet_orchestrators@,
            final(self).subnet_orchestrators_with_capacity@ == old(self).subnet_orchestrators_with_capacity@,
            final(self).post_cache_orchestrators@ == old(self).post_cache_orchestrators@,
            final(self).version@ == old(self).version@,
    {
        let n = canisters.len() as u64;
        *fetched = *fetched + n;
        self.controlled_canisters.extend(canisters);
    }
}

/// With no update between the calls, the pages that
/// `get_controlled_canisters` hands out fit together: the page of `k` from 0
/// followed by the page of `m` from `k` is the page of `k + m` from 0, and
/// the page of `get_controlled_canisters_count()` from 0 holds every
/// controlled canister, once, and nothing else.
pub proof fn law_controlled_canister_pages(state: OrchestratorState, k: int, m: int)
    requires
        0 <= k,
        0 <= m,
    ensures
        page_of(sorted_form(state.controlled_canisters@), 0, k)
            + page_of(sorted_form(state.controlled_canisters@), k, m)
            == page_of(sorted_form(state.controlled_canisters@), 0, k + m),
        page_of(sorted_form(state.controlled_canisters@), 0, state.controlled_canisters@.len() as int).len()
            == state.controlled_canisters@.len(),
        forall|c: Seq<u8>|
            page_of(sorted_form(state.controlled_canisters@), 0, state.controlled_canisters@.len() as int).contains(c)
                <==> state.controlled_canisters@.contains(c),
        page_of(sorted_form(state.controlled_canisters@), 0, state.controlled_canisters@.len() as int).no_duplicates(),
{
    let s = state.controlled_canisters@;
    state.controlled_canisters.lemma_finite();
    law_pages_of_set(s, 0, k, m);
    let whole = page_of(sorted_form(s), 0, s.len() as int);
    assert forall|c: Seq<u8>| whole.contains(c) <==> s.contains(c) by {
        if whole.contains(c) {
            assert(whole.to_set().contains(c));
        }
        if s.contains(c) {
            assert(whole.to_set().contains(c));
        }
    }
}

/// The guard of `collect_backup_canisters`: only the actions identity.
pub fn collect_backup_guard(caller: &Principal) -> (r: Result<(), String>)
    ensures
        spec_principal_from_text(AUTHORIZED_CALLER_ID@) matches Ok(a) ==> (r is Ok <==> a == caller@),
        spec_principal_from_text(AUTHORIZED_CALLER_ID@) is Ok ==> (r is Err ==> r->Err_0@ == "Unauthorized"@),
        spec_principal_from_text(AUTHORIZED_CALLER_ID@) matches Err(m) ==> (r matches Err(e) && e@ == m),
{
    authorize_caller(caller, AUTHORIZED_CALLER_ID)
}

/// The guard of the orchestrator's controller-only endpoints
/// (`collect_controlled_canisters`,
/// `start_reclaiming_cycles_from_subnet_orchestrator_canister`,
/// `provision_subnet_orchestrator_canister`).
pub fn controller_only_guard(caller_is_controller: bool) -> (r: Result<(), String>)
    ensures
        r is Ok <==> caller_is_controller,
        r matches Err(e) ==> e@ == "Unauthorized"@,
{
    controller_guard(caller_is_controller)
}

/// What `start_reclaiming_cycles_from_subnet_orchestrator_canister` answers
/// once it has notified every subnet orchestrator.
pub fn reclaim_started() -> (r: String)
    ensures
        r@ == "Success"@,
{
    "Success".to_string()
}

/// What `decommission_all_controlled_canisters` answers once the bulk run
/// is spawned.
pub fn bulk_decommission_started() -> (r: String)
    ensures
        r@ == "Started"@,
{
    "Started".to_string()
}

} // verus!
