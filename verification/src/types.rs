//! Shared types of the canisters: errors, init arguments, upgrade reports
//! and the cycles minting canister's error.
use vstd::prelude::*;
use crate::principal::Principal;

verus! {

/// Why a page of a user's posts cannot be served.
#[derive(PartialEq, Eq, Debug, Structural)]
pub enum GetPostsOfUserProfileError {
    InvalidBoundsPassed,
    ReachedEndOfItemsList,
    ExceededMaxNumberOfItemsAllowedInOneRequest,
}

/// Why a page of followers or followees cannot be served.
#[derive(PartialEq, Eq, Debug, Structural)]
pub enum GetFollowerOrFollowingError {
    InvalidBoundsPassed,
    ReachedEndOfItemsList,
    ExceededMaxNumberOfItemsAllowedInOneRequest,
}

/// Why a follower page request was refused.
#[derive(PartialEq, Eq, Debug, Structural)]
pub enum GetFollowerOrFollowingPageError {
    Unauthenticated,
    Unauthorized,
}

/// Why a bet on the post being viewed was refused.
#[derive(PartialEq, Eq, Debug, Structural)]
pub enum BetOnCurrentlyViewingPostError {
    BettingClosed,
    InsufficientBalance,
    Unauthorized,
    UserAlreadyParticipatedInThisPost,
    UserNotLoggedIn,
    UserPrincipalNotSet,
    PostCreatorCanisterCallFailed,
}

/// Why following another profile failed.
#[derive(PartialEq, Eq, Debug, Structural)]
pub enum FollowAnotherUserProfileError {
    Unauthenticated,
    Unauthorized,
    UsersICanFollowListIsFull,
    UserITriedToFollowCrossCanisterCallFailed,
    UserITriedToFollowHasTheirFollowersListFull,
}

/// The outcome of upgrading the canisters of one subnet to a version.
pub struct UpgradeStatus {
    pub version: String,
    pub successful_upgrades: u64,
    pub failed_upgrades: u64,
}

impl UpgradeStatus {
    /// No upgrades yet, for no version.
    pub fn new() -> (r: UpgradeStatus)
        ensures
            r.version@ == Seq::<char>::empty(),
            r.successful_upgrades == 0,
            r.failed_upgrades == 0,
    {
        UpgradeStatus { version: String::new(), successful_upgrades: 0, failed_upgrades: 0 }
    }
}

/// Per-subnet upgrade outcomes.
pub struct SubnetUpgradeReport {
    pub subnet_wise_report: Vec<(Principal, UpgradeStatus)>,
}

/// Why the cycles minting canister did not create a canister.
#[derive(PartialEq, Eq, Debug)]
pub enum CmcCreateCanisterError {
    Refunded { refund_amount: u128, create_error: String },
    RefundFailed { create_error: String, refund_error: String },
}

/// The roles of well-known principals that canisters are told about.
#[derive(Clone, Copy, PartialEq, Eq, Debug, Structural)]
pub enum KnownPrincipalType {
    CanisterIdPlatformOrchestrator,
    CanisterIdUserIndex,
    CanisterIdPostCache,
}

/// The principal each role is known by, for the roles a canister was told of.
pub struct KnownPrincipalMap {
    platform_orchestrator: Option<Principal>,
    user_index: Option<Principal>,
    post_cache: Option<Principal>,
}

/// The view of one role's slot.
pub open spec fn slot_view(slot: Option<Principal>) -> Option<Seq<u8>> {
    match slot {
        Some(p) => Some(p@),
        None => None,
    }
}

impl KnownPrincipalMap {
    /// The slot of a role.
    pub closed spec fn slot(self, role: KnownPrincipalType) -> Option<Seq<u8>> {
        match role {
            KnownPrincipalType::CanisterIdPlatformOrchestrator => slot_view(self.platform_orchestrator),
            KnownPrincipalType::CanisterIdUserIndex => slot_view(self.user_index),
            KnownPrincipalType::CanisterIdPostCache => slot_view(self.post_cache),
        }
    }
}

impl View for KnownPrincipalMap {
    type V = Map<KnownPrincipalType, Seq<u8>>;

    open spec fn view(&self) -> Map<KnownPrincipalType, Seq<u8>> {
        Map::new(|k: KnownPrincipalType| self.slot(k) is Some, |k: KnownPrincipalType| self.slot(k)->Some_0)
    }
}

impl KnownPrincipalMap {
    /// No role known.
    pub fn new() -> (r: KnownPrincipalMap)
        ensures
            r@ == Map::<KnownPrincipalType, Seq<u8>>::empty(),
    {
        let r = KnownPrincipalMap { platform_orchestrator: None, user_index: None, post_cache: None };
        assert(r@ =~= Map::<KnownPrincipalType, Seq<u8>>::empty());
        r
    }

    /// Records `principal` as the one known for `role`, replacing an earlier one.
    pub fn insert(&mut self, role: KnownPrincipalType, principal: Principal)
        ensures
            final(self)@ == old(self)@.insert(role, principal@),
    {
        let ghost pv = principal@;
        match role {
            KnownPrincipalType::CanisterIdPlatformOrchestrator => self.platform_orchestrator = Some(principal),
            KnownPrincipalType::CanisterIdUserIndex => self.user_index = Some(principal),
            KnownPrincipalType::CanisterIdPostCache => self.post_cache = Some(principal),
        }
        assert(self@ =~= old(self)@.insert(role, pv));
    }

    /// The principal known for `role`, if any.
    pub fn get(&self, role: KnownPrincipalType) -> (r: Option<Principal>)
        ensures
            r is Some <==> self@.contains_key(role),
            r matches Some(p) ==> p@ == self@[role],
    {
        let slot = match role {
            KnownPrincipalType::CanisterIdPlatformOrchestrator => &self.platform_orchestrator,
            KnownPrincipalType::CanisterIdUserIndex => &self.user_index,
            KnownPrincipalType::CanisterIdPostCache => &self.post_cache,
        };
        match slot {
            Some(p) => Some(p.duplicate()),
            None => None,
        }
    }

    /// A copy of the map.
    pub fn duplicate(&self) -> (r: KnownPrincipalMap)
        ensures
            r@ == self@,
    {
        let r = KnownPrincipalMap {
            platform_orchestrator: match &self.platform_orchestrator { Some(p) => Some(p.duplicate()), None => None },
            user_index: match &self.user_index { Some(p) => Some(p.duplicate()), None => None },
            post_cache: match &self.post_cache { Some(p) => Some(p.duplicate()), None => None },
        };
        assert(r@ =~= self@);
        r
    }
}

/// The post cache canister's state; it starts out knowing no principal.
pub struct CanisterData {
    pub known_principal_ids: KnownPrincipalMap,
}

impl Default for CanisterData {
    fn default() -> (r: CanisterData)
        ensures
            r.known_principal_ids@ == Map::<KnownPrincipalType, Seq<u8>>::empty(),
    {
        CanisterData { known_principal_ids: KnownPrincipalMap::new() }
    }
}

/// The install arguments of an individual user canister.
pub struct IndividualUserTemplateInitArgs {
    pub known_principal_ids: Option<KnownPrincipalMap>,
    pub profile_owner: Option<Principal>,
    pub upgrade_version_number: Option<u64>,
}

impl IndividualUserTemplateInitArgs {
    /// The arguments for a canister owned by `profile_owner`: no known
    /// principals yet, and upgrade version 0.
    pub fn new(profile_owner: Principal) -> (r: IndividualUserTemplateInitArgs)
        ensures
            r.known_principal_ids matches Some(m) && m@ == Map::<KnownPrincipalType, Seq<u8>>::empty(),
            r.profile_owner matches Some(p) && p@ == profile_owner@,
            r.upgrade_version_number == Some(0u64),
    {
        IndividualUserTemplateInitArgs {
            known_principal_ids: Some(KnownPrincipalMap::new()),
            profile_owner: Some(profile_owner),
            upgrade_version_number: Some(0),
        }
    }
}

} // verus!
