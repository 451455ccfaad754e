//! A subnet orchestrator's (user index) signup bookkeeping: which user owns
//! which individual canister, and the pools of available and backup
//! canisters that signups draw from.
use vstd::prelude::*;
use crate::controllers::ids;
use crate::principal::Principal;
use crate::registry::PrincipalSet;

verus! {

/// A user and the individual canister it owns.
pub struct UserEntry {
    pub user: Principal,
    pub canister: Principal,
}

/// The users of a list of entries.
pub open spec fn users_of(entries: Seq<UserEntry>) -> Seq<Seq<u8>> {
    entries.map_values(|e: UserEntry| e.user@)
}

/// Users and the individual canisters they own.
pub struct UserCanisterMap {
    entries: Vec<UserEntry>,
}

impl View for UserCanisterMap {
    type V = Map<Seq<u8>, Seq<u8>>;

    closed spec fn view(&self) -> Map<Seq<u8>, Seq<u8>> {
        Map::new(
            |u: Seq<u8>| users_of(self.entries@).contains(u),
            |u: Seq<u8>| self.entries@[users_of(self.entries@).index_of(u)].canister@,
        )
    }
}

impl UserCanisterMap {
    #[verifier::type_invariant]
    spec fn well_formed(self) -> bool {
        users_of(self.entries@).no_duplicates()
    }

    /// The empty map.
    pub fn new() -> (r: UserCanisterMap)
        ensures
            r@ == Map::<Seq<u8>, Seq<u8>>::empty(),
    {
        let r = UserCanisterMap { entries: Vec::new() };
        assert(r@ =~= Map::<Seq<u8>, Seq<u8>>::empty());
        r
    }

    fn position(&self, user: &Principal) -> (r: Option<usize>)
        ensures
            r matches Some(i) ==> i < self.entries@.len() && self.entries@[i as int].user@ == user@
                && users_of(self.entries@).contains(user@)
                && users_of(self.entries@).index_of(user@) == i,
            r is None ==> !users_of(self.entries@).contains(user@),
    {
        proof {
            use_type_invariant(self);
        }
        let mut i: usize = 0;
        while i < self.entries.len()
            invariant
                i <= self.entries@.len(),
                users_of(self.entries@).no_duplicates(),
                forall|j: int| 0 <= j < i ==> self.entries@[j].user@ != user@,
            decreases self.entries@.len() - i,
        {
            if self.entries[i].user.same_as(user) {
                proof {
                    let s = users_of(self.entries@);
                    assert(s[i as int] == user@);
                    assert(s.contains(user@));
                    let k = s.index_of(user@);
                    assert(s[k] == user@);
                    assert(k == i);
                }
                return Some(i);
            }
            i = i + 1;
        }
        proof {
            if users_of(self.entries@).contains(user@) {
                let k = choose|k: int| 0 <= k < users_of(self.entries@).len() && users_of(self.entries@)[k] == user@;
                assert(self.entries@[k].user@ == user@);
            }
        }
        None
    }

    /// The canister of `user`, if it has one.
    pub fn get(&self, user: &Principal) -> (r: Option<Principal>)
        ensures
            r is Some <==> self@.contains_key(user@),
            r matches Some(c) ==> c@ == self@[user@],
    {
        match self.position(user) {
            Some(i) => Some(self.entries[i].canister.duplicate()),
            None => None,
        }
    }

    /// The number of users.
    pub fn len(&self) -> (r: usize)
        ensures
            r == self@.len(),
    {
        proof {
            use_type_invariant(self);
            users_of(self.entries@).unique_seq_to_set();
            assert(self@.dom() =~= users_of(self.entries@).to_set());
        }
        self.entries.len()
    }

    /// Records that `user` owns `canister` (replacing an earlier canister).
    pub fn insert(&mut self, user: Principal, canister: Principal)
        ensures
            final(self)@ == old(self)@.insert(user@, canister@),
    {
        proof {
            use_type_invariant(&*self);
        }
        let ghost old_entries = self.entries@;
        let ghost old_users = users_of(self.entries@);
        let ghost uv = user@;
        let ghost cv = canister@;
        let pos = self.position(&user);
        let mut entries: Vec<UserEntry> = Vec::new();
        std::mem::swap(&mut entries, &mut self.entries);
        match pos {
            Some(i) => {
                entries.set(i, UserEntry { user, canister });
                proof {
                    assert(users_of(entries@) =~= old_users);
                }
                self.entries = entries;
                proof {
                    assert forall|u: Seq<u8>| #[trigger] self@.contains_key(u) implies self@[u] == old(self)@.insert(uv, cv)[u] by {
                        let k = old_users.index_of(u);
                        assert(old_users.contains(u));
                        assert(old_users[k] == u);
                        if u == uv {
                            assert(k == i);
                        } else {
                            assert(k != i);
                        }
                    }
                    assert(self@ =~= old(self)@.insert(uv, cv));
                }
            },
            None => {
                entries.push(UserEntry { user, canister });
                proof {
                    let nu = users_of(entries@);
                    assert(nu =~= old_users.push(uv));
                    assert forall|a: int, b: int| 0 <= a < nu.len() && 0 <= b < nu.len() && a != b implies nu[a] != nu[b] by {
                        if a < old_users.len() && b < old_users.len() {
                            assert(nu[a] == old_users[a] && nu[b] == old_users[b]);
                        } else if a < old_users.len() {
                            assert(nu[a] == old_users[a]);
                        } else if b < old_users.len() {
                            assert(nu[b] == old_users[b]);
                        }
                    }
                }
                self.entries = entries;
                proof {
                    let nu = users_of(self.entries@);
                    assert forall|u: Seq<u8>| #[trigger] self@.contains_key(u) <==> old(self)@.insert(uv, cv).contains_key(u) by {
                        if nu.contains(u) {
                            let k = choose|k: int| 0 <= k < nu.len() && nu[k] == u;
                            if k < old_users.len() {
                                assert(old_users[k] == u);
                            }
                        }
                        if old_users.contains(u) {
                            let k = choose|k: int| 0 <= k < old_users.len() && old_users[k] == u;
                            assert(nu[k] == u);
                        }
                        if u == uv {
                            assert(nu[old_users.len() as int] == uv);
                        }
                    }
                    assert forall|u: Seq<u8>| #[trigger] self@.contains_key(u) implies self@[u] == old(self)@.insert(uv, cv)[u] by {
                        let k = nu.index_of(u);
                        assert(nu[k] == u);
                        if u == uv {
                            assert(nu[old_users.len() as int] == uv);
                            assert(k == old_users.len());
                        } else {
                            let k0 = old_users.index_of(u);
                            assert(old_users.contains(u));
                            assert(old_users[k0] == u);
                            assert(nu[k0] == u);
                            assert(k == k0);
                        }
                    }
                    assert(self@ =~= old(self)@.insert(uv, cv));
                }
            },
        }
    }
}

/// The capacity and provisioning settings of a subnet.
#[derive(Clone, Copy)]
pub struct ProvisioningLimits {
    /// The most individual canisters a subnet holds.
    pub max_capacity: u64,
    /// Below this many users, more available canisters are prepared.
    pub available_threshold: u64,
    /// How many available canisters are prepared at once.
    pub available_batch: u64,
    /// Below this many backup canisters, more are created.
    pub backup_threshold: u64,
    /// How many backup canisters are created at once.
    pub backup_batch: u64,
}

/// A subnet orchestrator's signup state.
pub struct UserIndexState {
    pub signups_open: bool,
    pub users: UserCanisterMap,
    pub available_canisters: PrincipalSet,
    pub backup_canister_pool: PrincipalSet,
    /// The platform orchestrator, where it is known.
    pub platform_orchestrator: Option<Principal>,
}

/// Who is told that the subnet is full: the known platform orchestrator,
/// else the anonymous principal.
pub open spec fn maxed_out_target(platform_orchestrator: Option<Principal>) -> Seq<u8> {
    match platform_orchestrator {
        Some(po) => po@,
        None => seq![4u8],
    }
}

/// How many available canisters to prepare from the backup pool: a batch
/// (at most the pool's size) while the subnet has fewer users than the
/// threshold.
pub open spec fn available_provision(users: nat, backup: nat, limits: ProvisioningLimits) -> Option<u64> {
    if users < limits.available_threshold {
        Some(if limits.available_batch < backup { limits.available_batch } else { backup as u64 })
    } else {
        None
    }
}

/// How many backup canisters to create: a batch (at most what is left of
/// the capacity) while the subnet is below capacity and the pool below its
/// threshold.
pub open spec fn backup_provision(total: nat, backup: nat, limits: ProvisioningLimits) -> Option<u64> {
    if total < limits.max_capacity && backup < limits.backup_threshold {
        Some(if limits.backup_batch < limits.max_capacity - total { limits.backup_batch } else { (limits.max_capacity - total) as u64 })
    } else {
        None
    }
}

/// What a signup does once it has an answer.
pub struct SignupFinish {
    /// The answer: the user's new canister, or why there is none.
    pub response: Result<Principal, String>,
    /// Tell this platform orchestrator that the subnet is full.
    pub notify_maxed_out: Option<Principal>,
    /// Prepare this many available canisters from the backup pool.
    pub provision_available: Option<u64>,
    /// Create this many backup canisters.
    pub provision_backup: Option<u64>,
}

/// The next step of a signup.
pub enum SignupAction {
    /// Answer at once, with no follow-up work.
    Reply(Result<Principal, String>),
    /// Call `update_profile_owner` with the user on `canister`.
    SetOwner { canister: Principal },
    /// Call `update_session_type` (anonymous session) on `canister`.
    SetSessionType { canister: Principal },
    /// Answer, then do the follow-up work.
    Finish(SignupFinish),
}

/// The error of a signup on a subnet with signups closed.
pub open spec fn signups_closed_message() -> Seq<char> {
    "Signups closed on this subnet"@
}

/// The error of a signup when no available canister is left.
pub open spec fn not_available_message() -> Seq<char> {
    "Not Available"@
}

impl UserIndexState {
    /// A state with no users and empty pools.
    pub fn new(signups_open: bool, platform_orchestrator: Option<Principal>) -> (r: UserIndexState)
        ensures
            r.signups_open == signups_open,
            r.users@ == Map::<Seq<u8>, Seq<u8>>::empty(),
            r.available_canisters@ == Set::<Seq<u8>>::empty(),
            r.backup_canister_pool@ == Set::<Seq<u8>>::empty(),
            r.platform_orchestrator == platform_orchestrator,
    {
        UserIndexState {
            signups_open,
            users: UserCanisterMap::new(),
            available_canisters: PrincipalSet::new(),
            backup_canister_pool: PrincipalSet::new(),
            platform_orchestrator,
        }
    }

    /// The follow-up work once a signup has its answer: tell the platform
    /// orchestrator (or the anonymous principal where none is known) that the
    /// subnet is full when the signup failed with more users than the
    /// capacity, and top up the available and backup pools.
    pub fn wrap_up(&self, response: Result<Principal, String>, limits: ProvisioningLimits) -> (r: SignupFinish)
        ensures
            r.response == response,
            r.notify_maxed_out is Some <==> (response is Err && self.users@.len() > limits.max_capacity),
            r.notify_maxed_out matches Some(p) ==> p@ == maxed_out_target(self.platform_orchestrator),
            r.provision_available == available_provision(self.users@.len(), self.backup_canister_pool@.len(), limits),
            r.provision_backup == backup_provision(
                self.users@.len() + self.available_canisters@.len() + self.backup_canister_pool@.len(),
                self.backup_canister_pool@.len(),
                limits,
            ),
    {
        let users = self.users.len() as u64;
        let available = self.available_canisters.count();
        let backup = self.backup_canister_pool.count();
        let total: u128 = users as u128 + available as u128 + backup as u128;
        let notify_maxed_out = if response.is_err() && users > limits.max_capacity {
            match &self.platform_orchestrator {
                Some(po) => Some(po.duplicate()),
                None => Some(Principal::anonymous()),
            }
        } else {
            None
        };
        let provision_available = if users < limits.available_threshold {
            Some(if limits.available_batch < backup { limits.available_batch } else { backup })
        } else {
            None
        };
        let provision_backup = if total < limits.max_capacity as u128 && backup < limits.backup_threshold {
            let room = limits.max_capacity - total as u64;
            Some(if limits.backup_batch < room { limits.backup_batch } else { room })
        } else {
            None
        };
        SignupFinish { response, notify_maxed_out, provision_available, provision_backup }
    }

    /// The start of `new_user_signup`: refuse while signups are closed,
    /// answer the canister a known user already owns, or take an available
    /// canister and have its owner set; without one, finish with
    /// `"Not Available"`.
    pub fn begin_signup(&mut self, user: &Principal, limits: ProvisioningLimits) -> (r: SignupAction)
        ensures
            !old(self).signups_open ==> (r matches SignupAction::Reply(Err(e)) && e@ == signups_closed_message()),
            old(self).signups_open && old(self).users@.contains_key(user@) ==> (r matches SignupAction::Reply(Ok(c))
                && c@ == old(self).users@[user@]),
            old(self).signups_open && !old(self).users@.contains_key(user@) && old(self).available_canisters@.len() > 0
                ==> (r matches SignupAction::SetOwner { canister }
                    && old(self).available_canisters@.contains(canister@)
                    && final(self).available_canisters@ == old(self).available_canisters@.remove(canister@)),
            old(self).signups_open && !old(self).users@.contains_key(user@) && old(self).available_canisters@.len() == 0
                ==> (r matches SignupAction::Finish(f) && f.response matches Err(e) && e@ == not_available_message()
                    && f.provision_available == available_provision(old(self).users@.len(), old(self).backup_canister_pool@.len(), limits)
                    && f.provision_backup == backup_provision(
                        old(self).users@.len() + old(self).backup_canister_pool@.len(),
                        old(self).backup_canister_pool@.len(),
                        limits,
                    )
                    && (f.notify_maxed_out is Some <==> old(self).users@.len() > limits.max_capacity)
                    && (f.notify_maxed_out matches Some(p) ==> p@ == maxed_out_target(old(self).platform_orchestrator))),
            !(r is SetOwner) ==> final(self).available_canisters@ == old(self).available_canisters@,
            final(self).users@ == old(self).users@,
            final(self).backup_canister_pool@ == old(self).backup_canister_pool@,
            final(self).signups_open == old(self).signups_open,
            final(self).platform_orchestrator == old(self).platform_orchestrator,
    {
        if !self.signups_open {
            return SignupAction::Reply(Err("Signups closed on this subnet".to_string()));
        }
        if let Some(c) = self.users.get(user) {
            return SignupAction::Reply(Ok(c));
        }
        match self.available_canisters.pop_first() {
            Some(canister) => SignupAction::SetOwner { canister },
            None => SignupAction::Finish(self.wrap_up(Err("Not Available".to_string()), limits)),
        }
    }

    /// After `update_profile_owner` on `canister`: a rejection is answered at
    /// once; otherwise the user now owns the canister and its session type is
    /// set next.
    pub fn owner_set(&mut self, user: &Principal, canister: Principal, reply: Result<(), String>) -> (r: SignupAction)
        ensures
            reply matches Err(m) ==> (r matches SignupAction::Reply(Err(e)) && e@ == m@),
            reply matches Err(_) ==> final(self).users@ == old(self).users@,
            reply is Ok ==> (r matches SignupAction::SetSessionType { canister: c } && c@ == canister@),
            reply is Ok ==> final(self).users@ == old(self).users@.insert(user@, canister@),
            final(self).available_canisters@ == old(self).available_canisters@,
            final(self).backup_canister_pool@ == old(self).backup_canister_pool@,
            final(self).signups_open == old(self).signups_open,
            final(self).platform_orchestrator == old(self).platform_orchestrator,
    {
        match reply {
            Err(m) => SignupAction::Reply(Err(m)),
            Ok(()) => {
                self.users.insert(user.duplicate(), canister.duplicate());
                SignupAction::SetSessionType { canister }
            },
        }
    }

    /// After `update_session_type` on `canister`: a rejection is answered at
    /// once; otherwise the signup finishes with the canister.
    pub fn session_set(&self, canister: Principal, reply: Result<(), String>, limits: ProvisioningLimits) -> (r: SignupAction)
        ensures
            reply matches Err(m) ==> (r matches SignupAction::Reply(Err(e)) && e@ == m@),
            reply is Ok ==> (r matches SignupAction::Finish(f) && f.response matches Ok(c) && c@ == canister@
                && f.notify_maxed_out is None
                && f.provision_available == available_provision(self.users@.len(), self.backup_canister_pool@.len(), limits)
                && f.provision_backup == backup_provision(
                    self.users@.len() + self.available_canisters@.len() + self.backup_canister_pool@.len(),
                    self.backup_canister_pool@.len(),
                    limits,
                )),
    {
        match reply {
            Err(m) => SignupAction::Reply(Err(m)),
            Ok(()) => SignupAction::Finish(self.wrap_up(Ok(canister), limits)),
        }
    }
}

/// A reward a new or referring user's canister is notified of.
pub enum RewardNotice {
    /// `get_rewarded_for_signing_up` on the new user's canister.
    SigningUp { canister: Principal },
    /// `get_rewarded_for_referral` with the referrer and the new user, on
    /// `canister`.
    Referral { canister: Principal, referrer: Principal, referee: Principal },
}

/// What `get_requester_principals_canister_id_create_if_not_exists_and_optionally_allow_referrer`
/// does first.
pub enum RequesterAction {
    /// Trap with this message.
    Trap(String),
    /// Answer the caller's existing canister.
    Existing(Principal),
    /// Run a signup for the caller.
    SignUp,
}

/// The trap message for an anonymous caller.
pub open spec fn anonymous_caller_message() -> Seq<char> {
    "Anonymous principal is not allowed to call this method"@
}

impl UserIndexState {
    /// The first decision for a requesting caller: the anonymous principal
    /// traps, a known user gets its canister, anyone else is signed up.
    pub fn requester_action(&self, caller: &Principal) -> (r: RequesterAction)
        ensures
            caller@ == seq![4u8] ==> (r matches RequesterAction::Trap(m) && m@ == anonymous_caller_message()),
            caller@ != seq![4u8] && self.users@.contains_key(caller@) ==> (r matches RequesterAction::Existing(c)
                && c@ == self.users@[caller@]),
            caller@ != seq![4u8] && !self.users@.contains_key(caller@) ==> r is SignUp,
    {
        let anonymous = Principal::anonymous();
        if caller.same_as(&anonymous) {
            return RequesterAction::Trap("Anonymous principal is not allowed to call this method".to_string());
        }
        match self.users.get(caller) {
            Some(c) => RequesterAction::Existing(c),
            None => RequesterAction::SignUp,
        }
    }

    /// The rewards to notify once `caller` signed up with canister `created`:
    /// the sign-up reward, then, where the referrer owns a canister, the
    /// referral reward on the referrer's canister and on the new one.
    pub fn signup_rewards(&self, caller: &Principal, referrer: Option<Principal>, created: &Principal) -> (r: Vec<RewardNotice>)
        ensures
            r@.len() == if referrer is Some && self.users@.contains_key(referrer->0@) { 3nat } else { 1nat },
            r@[0] matches RewardNotice::SigningUp { canister } && canister@ == created@,
            referrer is Some && self.users@.contains_key(referrer->0@) ==> (r@[1] matches RewardNotice::Referral { canister, referrer: a, referee: b }
                    && canister@ == self.users@[referrer->0@] && a@ == referrer->0@ && b@ == caller@),
            referrer is Some && self.users@.contains_key(referrer->0@) ==> (r@[2] matches RewardNotice::Referral { canister, referrer: a, referee: b }
                    && canister@ == created@ && a@ == referrer->0@ && b@ == caller@),
    {
        let mut out: Vec<RewardNotice> = Vec::new();
        out.push(RewardNotice::SigningUp { canister: created.duplicate() });
        if let Some(p) = referrer {
            if let Some(rc) = self.users.get(&p) {
                out.push(RewardNotice::Referral { canister: rc, referrer: p.duplicate(), referee: caller.duplicate() });
                out.push(RewardNotice::Referral { canister: created.duplicate(), referrer: p, referee: caller.duplicate() });
            }
        }
        out
    }

    /// The backup canisters that `provision_new_available_canisters` installs
    /// the individual user wasm on: `count` distinct canisters of the pool,
    /// which must hold that many.
    pub fn backup_candidates(&self, count: u64) -> (r: Vec<Principal>)
        requires
            count <= self.backup_canister_pool@.len(),
        ensures
            r@.len() == count,
            ids(r@).no_duplicates(),
            forall|i: int| 0 <= i < r@.len() ==> self.backup_canister_pool@.contains(#[trigger] r@[i]@),
    {
        let pool_size = self.backup_canister_pool.len();
        assert(count <= pool_size);
        self.backup_canister_pool.sample(count)
    }

    /// A backup canister got the individual user wasm: it moves from the
    /// backup pool to the available canisters.
    pub fn backup_became_available(&mut self, canister: Principal)
        ensures
            final(self).available_canisters@ == old(self).available_canisters@.insert(canister@),
            final(self).backup_canister_pool@ == old(self).backup_canister_pool@.remove(canister@),
            final(self).users@ == old(self).users@,
            final(self).signups_open == old(self).signups_open,
            final(self).platform_orchestrator == old(self).platform_orchestrator,
    {
        self.backup_canister_pool.remove(&canister);
        self.available_canisters.insert(canister);
    }

    /// A new empty canister joins the backup pool.
    pub fn backup_created(&mut self, canister: Principal)
        ensures
            final(self).backup_canister_pool@ == old(self).backup_canister_pool@.insert(canister@),
            final(self).available_canisters@ == old(self).available_canisters@,
            final(self).users@ == old(self).users@,
            final(self).signups_open == old(self).signups_open,
            final(self).platform_orchestrator == old(self).platform_orchestrator,
    {
        self.backup_canister_pool.insert(canister);
    }

    /// Preparing available canisters stops once there are `count` of them.
    pub fn enough_available(&self, count: u64) -> (r: bool)
        ensures
            r == (self.available_canisters@.len() >= count),
    {
        self.available_canisters.count() >= count
    }

    /// Creating backup canisters stops once the pool holds more than `count`.
    pub fn enough_backup(&self, count: u64) -> (r: bool)
        ensures
            r == (self.backup_canister_pool@.len() > count),
    {
        self.backup_canister_pool.count() > count
    }

    /// Up to `limit` canisters of the backup pool (`get_backup_canister_sample`).
    pub fn get_backup_canister_sample(&self, limit: u64) -> (r: Vec<Principal>)
        ensures
            r@.len() == if (limit as usize) < self.backup_canister_pool@.len() { (limit as usize) as nat } else { self.backup_canister_pool@.len() },
            ids(r@).no_duplicates(),
            forall|i: int| 0 <= i < r@.len() ==> self.backup_canister_pool@.contains(#[trigger] r@[i]@),
    {
        self.backup_canister_pool.sample(limit)
    }
}

/// What a subnet orchestrator does about its own cycles.
pub enum CyclesCheck {
    /// The balance is at or above the threshold: nothing to do.
    Enough,
    /// Ask this platform orchestrator to recharge the subnet orchestrator.
    Request(Principal),
    /// The balance is low but no platform orchestrator is known.
    Failed(String),
}

/// The error when a recharge is due and no platform orchestrator is known.
pub open spec fn orchestrator_unknown_message() -> Seq<char> {
    "Platform orchestrator canister id not found"@
}

/// Whether to ask for a recharge: only below `threshold` cycles.
pub fn check_cycles(balance: u128, threshold: u128, platform_orchestrator: &Option<Principal>) -> (r: CyclesCheck)
    ensures
        balance >= threshold ==> r is Enough,
        balance < threshold && platform_orchestrator is None ==> (r matches CyclesCheck::Failed(m) && m@ == orchestrator_unknown_message()),
        balance < threshold ==> (platform_orchestrator matches Some(po) ==> (r matches CyclesCheck::Request(p) && p@ == po@)),
{
    if balance < threshold {
        match platform_orchestrator {
            Some(po) => CyclesCheck::Request(po.duplicate()),
            None => CyclesCheck::Failed("Platform orchestrator canister id not found".to_string()),
        }
    } else {
        CyclesCheck::Enough
    }
}

/// The answer of a recharge request: the rejection message of the call, or
/// what the platform orchestrator answered.
pub fn recharge_result(reply: Result<Result<(), String>, String>) -> (r: Result<(), String>)
    ensures
        reply matches Err(m) ==> (r matches Err(e) && e@ == m@),
        reply matches Ok(Ok(())) ==> r is Ok,
        reply matches Ok(Err(m)) ==> (r matches Err(e) && e@ == m@),
{
    match reply {
        Err(m) => Err(m),
        Ok(inner) => inner,
    }
}

/// What `get_individual_canister_details` reports.
pub struct IndividualCanisterDetails {
    pub controllers: Vec<Principal>,
    pub cycle_balance: u128,
}

/// The details of an individual canister from its status: the balance comes
/// converted to `u128` or with the conversion's error, which is answered.
pub fn individual_canister_details(controllers: Vec<Principal>, cycles: Result<u128, String>) -> (r: Result<IndividualCanisterDetails, String>)
    ensures
        cycles matches Err(m) ==> (r matches Err(e) && e@ == m@),
        cycles matches Ok(c) ==> (r matches Ok(d) && ids(d.controllers@) == ids(controllers@) && d.cycle_balance == c),
{
    let cycle_balance = cycles?;
    Ok(IndividualCanisterDetails { controllers, cycle_balance })
}

/// Preparing available canisters never asks for more than the backup pool
/// holds, so taking them from the pool cannot run out.
pub proof fn law_available_provision_within_pool(users: nat, backup: nat, limits: ProvisioningLimits)
    ensures
        available_provision(users, backup, limits) matches Some(n) ==> n <= backup,
{
}

/// While the subnet has fewer users than `available_threshold`, a signup
/// prepares a batch of available canisters: `available_batch` of them, or
/// the whole backup pool where it holds fewer; never more than either. At or
/// past the threshold it prepares none.
pub proof fn law_available_provision_is_a_capped_batch(users: nat, backup: nat, limits: ProvisioningLimits)
    requires
        backup <= u64::MAX,
    ensures
        users < limits.available_threshold ==> (available_provision(users, backup, limits) matches Some(n) && {
            &&& n <= limits.available_batch
            &&& n <= backup
            &&& (n == limits.available_batch || n == backup)
        }),
        users >= limits.available_threshold ==> available_provision(users, backup, limits) is None,
{
}

/// A signup creates backup canisters only while the subnet is below its
/// capacity and the backup pool below `backup_threshold`: a pool at or past
/// its threshold, or a full subnet, gets none. When it does create them, it
/// creates `backup_batch`, or as many as the capacity still allows where
/// that is fewer.
pub proof fn law_backup_provision_only_below_thresholds(total: nat, backup: nat, limits: ProvisioningLimits)
    ensures
        backup >= limits.backup_threshold ==> backup_provision(total, backup, limits) is None,
        total >= limits.max_capacity ==> backup_provision(total, backup, limits) is None,
        total < limits.max_capacity && backup < limits.backup_threshold
            ==> (backup_provision(total, backup, limits) matches Some(n) && {
                &&& n <= limits.backup_batch
                &&& total + n <= limits.max_capacity
                &&& (n == limits.backup_batch || total + n == limits.max_capacity)
            }),
{
}

/// Creating backup canisters never takes the subnet past its capacity.
pub proof fn law_backup_provision_within_capacity(total: nat, backup: nat, limits: ProvisioningLimits)
    ensures
        backup_provision(total, backup, limits) matches Some(n) ==> total + n <= limits.max_capacity,
        total >= limits.max_capacity ==> backup_provision(total, backup, limits) is None,
{
}

/// No canister is at once owned by a user, available, and in the backup
/// pool: the three groups are apart.
pub open spec fn pools_apart(users: Map<Seq<u8>, Seq<u8>>, available: Set<Seq<u8>>, backup: Set<Seq<u8>>) -> bool {
    &&& forall|u: Seq<u8>| #[trigger] users.contains_key(u) ==> !available.contains(users[u]) && !backup.contains(users[u])
    &&& forall|c: Seq<u8>| #[trigger] available.contains(c) ==> !backup.contains(c)
}

/// A signup takes its canister out of the available ones and gives it to
/// the new user, so no canister is ever owned and available at once, and
/// none goes to two users.
pub proof fn law_signup_keeps_pools_apart(
    users: Map<Seq<u8>, Seq<u8>>,
    available: Set<Seq<u8>>,
    backup: Set<Seq<u8>>,
    user: Seq<u8>,
    canister: Seq<u8>,
)
    requires
        pools_apart(users, available, backup),
        available.contains(canister),
        !users.contains_key(user),
    ensures
        pools_apart(users.insert(user, canister), available.remove(canister), backup),
        forall|u: Seq<u8>| #[trigger] users.contains_key(u) ==> users[u] != canister,
{
    let nu = users.insert(user, canister);
    let na = available.remove(canister);
    assert forall|u: Seq<u8>| #[trigger] nu.contains_key(u) implies !na.contains(nu[u]) && !backup.contains(nu[u]) by {
        if u != user {
            assert(users.contains_key(u));
        }
    }
}

/// Preparing a backup canister moves it to the available ones, which keeps
/// the groups apart and the two pools' total size unchanged.
pub proof fn law_provisioning_keeps_pools_apart(
    users: Map<Seq<u8>, Seq<u8>>,
    available: Set<Seq<u8>>,
    backup: Set<Seq<u8>>,
    canister: Seq<u8>,
)
    requires
        pools_apart(users, available, backup),
        available.finite(),
        backup.finite(),
        backup.contains(canister),
    ensures
        pools_apart(users, available.insert(canister), backup.remove(canister)),
        available.insert(canister).len() + backup.remove(canister).len() == available.len() + backup.len(),
{
}

/// A newly created canister, owned by no one and in no pool, can join the
/// backup pool without breaking the separation.
pub proof fn law_backup_creation_keeps_pools_apart(
    users: Map<Seq<u8>, Seq<u8>>,
    available: Set<Seq<u8>>,
    backup: Set<Seq<u8>>,
    canister: Seq<u8>,
)
    requires
        pools_apart(users, available, backup),
        !available.contains(canister),
        forall|u: Seq<u8>| #[trigger] users.contains_key(u) ==> users[u] != canister,
    ensures
        pools_apart(users, available, backup.insert(canister)),
{
}

} // verus!
