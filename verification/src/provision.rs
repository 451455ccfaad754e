//! Provisioning a new subnet: the platform orchestrator creates a subnet
//! orchestrator canister and a post cache canister on the subnet, then
//! installs both, telling each who the three of them are.
use vstd::prelude::*;
use crate::controllers::ids;
use crate::principal::Principal;
use crate::types::{KnownPrincipalMap, KnownPrincipalType};

verus! {

/// The cycles that come with each canister the run creates.
#[derive(Clone, Copy)]
pub struct ProvisionConfig {
    /// Sent along with the creation of the subnet orchestrator canister.
    pub orchestrator_cycles: u128,
    /// Sent along with the creation of the post cache canister.
    pub post_cache_cycles: u128,
}

/// Where a provisioning run stands.
pub enum ProvisionStep {
    AwaitOrchestratorCanister,
    AwaitPostCacheCanister { orchestrator: Principal },
    AwaitOrchestratorInstall { orchestrator: Principal, post_cache: Principal },
    AwaitPostCacheInstall { orchestrator: Principal },
    Finished,
}

/// A call the run asks its driver to make.
pub enum ProvisionRequest {
    /// `create_canister` on the cycles minting canister, on `subnet`, with
    /// these controllers and `cycles` attached.
    CreateCanister { subnet: Principal, controllers: Vec<Principal>, cycles: u64 },
    /// `install_code` in install mode of the subnet orchestrator wasm, whose
    /// init argument carries these known principals.
    InstallSubnetOrchestrator { canister: Principal, known_principal_ids: KnownPrincipalMap },
    /// `install_code` in install mode of the post cache wasm, whose init
    /// argument carries these known principals.
    InstallPostCache { canister: Principal, known_principal_ids: KnownPrincipalMap },
}

/// What came back from the last call.
pub enum ProvisionReply {
    /// The created canister, or why no canister was created (a rejected call
    /// or the minting canister's error).
    Created(Result<Principal, String>),
    /// The install went through, or why it did not.
    Installed(Result<(), String>),
}

/// The next thing the driver does.
pub enum ProvisionAction {
    Call(ProvisionRequest),
    /// Answer the caller.
    Finish(Result<Principal, String>),
    /// Abort the call with this message; nothing of the run is answered.
    Trap(String),
}

/// A provisioning run of the platform orchestrator `own_id` on `subnet`.
pub struct Provisioning {
    pub step: ProvisionStep,
    pub own_id: Principal,
    pub subnet: Principal,
    pub config: ProvisionConfig,
}

/// The known principals both new canisters are installed with.
pub open spec fn provisioned_known_principals(own_id: Seq<u8>, orchestrator: Seq<u8>, post_cache: Seq<u8>) -> Map<KnownPrincipalType, Seq<u8>> {
    map![
        KnownPrincipalType::CanisterIdPlatformOrchestrator => own_id,
        KnownPrincipalType::CanisterIdUserIndex => orchestrator,
        KnownPrincipalType::CanisterIdPostCache => post_cache,
    ]
}

/// A creation request on `subnet`, controlled by `own_id` alone, with `cycles` attached.
pub open spec fn is_creation(req: ProvisionRequest, subnet: Seq<u8>, own_id: Seq<u8>, cycles: u128) -> bool {
    req matches ProvisionRequest::CreateCanister { subnet: s, controllers, cycles: c }
        && s@ == subnet && ids(controllers@) == seq![own_id] && c == cycles as u64
}

/// The reply fits the call the run is waiting for.
pub open spec fn provision_reply_fits(step: ProvisionStep, reply: ProvisionReply) -> bool {
    match step {
        ProvisionStep::AwaitOrchestratorCanister => reply is Created,
        ProvisionStep::AwaitPostCacheCanister { .. } => reply is Created,
        ProvisionStep::AwaitOrchestratorInstall { .. } => reply is Installed,
        ProvisionStep::AwaitPostCacheInstall { .. } => reply is Installed,
        ProvisionStep::Finished => false,
    }
}

fn creation(subnet: &Principal, own_id: &Principal, cycles: u128) -> (r: ProvisionRequest)
    ensures
        is_creation(r, subnet@, own_id@, cycles),
{
    let mut controllers: Vec<Principal> = Vec::new();
    controllers.push(own_id.duplicate());
    assert(ids(controllers@) =~= seq![own_id@]);
    #[verifier::truncate]
    let c = cycles as u64;
    ProvisionRequest::CreateCanister { subnet: subnet.duplicate(), controllers, cycles: c }
}

fn known_principals(own_id: &Principal, orchestrator: &Principal, post_cache: &Principal) -> (r: KnownPrincipalMap)
    ensures
        r@ == provisioned_known_principals(own_id@, orchestrator@, post_cache@),
{
    let mut m = KnownPrincipalMap::new();
    m.insert(KnownPrincipalType::CanisterIdPlatformOrchestrator, own_id.duplicate());
    m.insert(KnownPrincipalType::CanisterIdUserIndex, orchestrator.duplicate());
    m.insert(KnownPrincipalType::CanisterIdPostCache, post_cache.duplicate());
    assert(m@ =~= provisioned_known_principals(own_id@, orchestrator@, post_cache@));
    m
}

impl Provisioning {
    /// Starts a run for `provision_subnet_orchestrator_canister`. A caller
    /// that is not a controller of the orchestrator is answered
    /// `Err("Unauthorized")`; otherwise the first call creates the subnet
    /// orchestrator canister.
    pub fn start(caller_is_controller: bool, own_id: Principal, subnet: Principal, config: ProvisionConfig) -> (r: (Provisioning, ProvisionAction))
        ensures
            r.0.own_id@ == own_id@,
            r.0.subnet@ == subnet@,
            r.0.config == config,
            !caller_is_controller ==> r.0.step is Finished,
            !caller_is_controller ==> (r.1 matches ProvisionAction::Finish(res) && (res matches Err(e) && e@ == "Unauthorized"@)),
            caller_is_controller ==> r.0.step is AwaitOrchestratorCanister,
            caller_is_controller ==> (r.1 matches ProvisionAction::Call(q)
                && is_creation(q, subnet@, own_id@, config.orchestrator_cycles)),
    {
        if !caller_is_controller {
            let run = Provisioning { step: ProvisionStep::Finished, own_id, subnet, config };
            return (run, ProvisionAction::Finish(Err("Unauthorized".to_string())));
        }
        let q = creation(&subnet, &own_id, config.orchestrator_cycles);
        (Provisioning { step: ProvisionStep::AwaitOrchestratorCanister, own_id, subnet, config }, ProvisionAction::Call(q))
    }

    /// Takes the reply to the last call and gives the next action: the post
    /// cache canister is created after the subnet orchestrator canister, the
    /// subnet orchestrator is installed before the post cache, and the run
    /// answers the subnet orchestrator's id. Any failure aborts the call
    /// with its message.
    pub fn advance(&mut self, reply: ProvisionReply) -> (r: ProvisionAction)
        requires
            provision_reply_fits(old(self).step, reply),
        ensures
            final(self).own_id@ == old(self).own_id@,
            final(self).subnet@ == old(self).subnet@,
            final(self).config == old(self).config,
            reply matches ProvisionReply::Created(Err(m)) ==> (r matches ProvisionAction::Trap(t) && t@ == m@),
            reply matches ProvisionReply::Installed(Err(m)) ==> (r matches ProvisionAction::Trap(t) && t@ == m@),
            (reply matches ProvisionReply::Created(Err(_)) || reply matches ProvisionReply::Installed(Err(_)))
                ==> final(self).step is Finished,
            old(self).step is AwaitOrchestratorCanister ==> (reply matches ProvisionReply::Created(Ok(o)) ==> (
                (final(self).step matches ProvisionStep::AwaitPostCacheCanister { orchestrator } && orchestrator@ == o@)
                && (r matches ProvisionAction::Call(q)
                    && is_creation(q, old(self).subnet@, old(self).own_id@, old(self).config.post_cache_cycles)))),
            old(self).step matches ProvisionStep::AwaitPostCacheCanister { orchestrator: o } ==> (
                reply matches ProvisionReply::Created(Ok(p)) ==> (
                (final(self).step matches ProvisionStep::AwaitOrchestratorInstall { orchestrator, post_cache }
                    && orchestrator@ == o@ && post_cache@ == p@)
                && (r matches ProvisionAction::Call(ProvisionRequest::InstallSubnetOrchestrator { canister, known_principal_ids })
                    && canister@ == o@
                    && known_principal_ids@ == provisioned_known_principals(old(self).own_id@, o@, p@)))),
            old(self).step matches ProvisionStep::AwaitOrchestratorInstall { orchestrator: o, post_cache: p } ==> (
                reply matches ProvisionReply::Installed(Ok(_)) ==> (
                (final(self).step matches ProvisionStep::AwaitPostCacheInstall { orchestrator } && orchestrator@ == o@)
                && (r matches ProvisionAction::Call(ProvisionRequest::InstallPostCache { canister, known_principal_ids })
                    && canister@ == p@
                    && known_principal_ids@ == provisioned_known_principals(old(self).own_id@, o@, p@)))),
            old(self).step matches ProvisionStep::AwaitPostCacheInstall { orchestrator: o } ==> (
                reply matches ProvisionReply::Installed(Ok(_)) ==> (final(self).step is Finished
                && (r matches ProvisionAction::Finish(res) && (res matches Ok(id) && id@ == o@)))),
    {
        let mut step = ProvisionStep::Finished;
        std::mem::swap(&mut step, &mut self.step);
        match reply {
            ProvisionReply::Created(Err(m)) => ProvisionAction::Trap(m),
            ProvisionReply::Installed(Err(m)) => ProvisionAction::Trap(m),
            ProvisionReply::Created(Ok(created)) => match step {
                ProvisionStep::AwaitOrchestratorCanister => {
                    let q = creation(&self.subnet, &self.own_id, self.config.post_cache_cycles);
                    self.step = ProvisionStep::AwaitPostCacheCanister { orchestrator: created };
                    ProvisionAction::Call(q)
                },
                ProvisionStep::AwaitPostCacheCanister { orchestrator } => {
                    let known = known_principals(&self.own_id, &orchestrator, &created);
                    let canister = orchestrator.duplicate();
                    self.step = ProvisionStep::AwaitOrchestratorInstall { orchestrator, post_cache: created };
                    ProvisionAction::Call(ProvisionRequest::InstallSubnetOrchestrator { canister, known_principal_ids: known })
                },
                _ => ProvisionAction::Trap("unexpected reply".to_string()),
            },
            ProvisionReply::Installed(Ok(())) => match step {
                ProvisionStep::AwaitOrchestratorInstall { orchestrator, post_cache } => {
                    let known = known_principals(&self.own_id, &orchestrator, &post_cache);
                    self.step = ProvisionStep::AwaitPostCacheInstall { orchestrator };
                    ProvisionAction::Call(ProvisionRequest::InstallPostCache { canister: post_cache, known_principal_ids: known })
                },
                ProvisionStep::AwaitPostCacheInstall { orchestrator } => ProvisionAction::Finish(Ok(orchestrator)),
                _ => ProvisionAction::Trap("unexpected reply".to_string()),
            },
        }
    }
}

} // verus!
