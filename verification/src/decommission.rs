//! Decommissioning a controlled canister: recover its cycles (twice where
//! uninstalling released reserved cycles), then leave the platform
//! orchestrator as its only controller.
use vstd::prelude::*;
use crate::controllers::{PLATFORM_ORCHESTRATOR_ID, AUTHORIZED_CALLER_ID, ids, orchestrator_only, authorize_caller};
use crate::principal::{Principal, spec_principal_from_text};

verus! {

/// The cycles a decommissioned canister keeps when it returns its balance.
pub const DECOMMISSION_RESERVE: u128 = 100_000_000;

/// Where a decommission run stands.
#[derive(Clone, Copy, PartialEq, Eq, Structural)]
pub enum DecommissionStep {
    AwaitStatus,
    AwaitFirstReturn { reserved: u128 },
    AwaitFirstUninstall { reserved: u128 },
    AwaitInstall,
    AwaitSecondReturn,
    AwaitSecondUninstall,
    AwaitControllers,
    Finished,
}

/// A call the run asks its driver to make on the canister.
#[derive(Clone, Copy, PartialEq, Eq, Structural)]
pub enum DecommissionRequest {
    /// `canister_status` on the management canister.
    QueryStatus,
    /// `return_cycle_balance_to_platform_orchestrator` on the canister
    /// itself, leaving `reserve` cycles behind.
    ReturnCycles { reserve: u128 },
    /// `uninstall_code`.
    Uninstall,
    /// `install_code` in install mode with the individual user wasm the run holds.
    InstallWasm,
    /// `update_settings` with the platform orchestrator as the only controller.
    SetControllersToPo,
}

/// What came back from the last call, without its payload.
#[derive(Clone, Copy, PartialEq, Eq, Structural)]
pub enum CallOutcome {
    Status { installed: bool, reserved: Option<u128> },
    Succeeded,
    Failed,
}

/// What came back from the last call.
pub enum CallReply {
    /// The canister status: whether a module is installed, and its reserved
    /// cycles where they fit in a `u128`.
    Status { installed: bool, reserved: Option<u128> },
    Succeeded,
    Failed(String),
}

/// The next thing the driver does.
pub enum DecommissionAction {
    Call(DecommissionRequest),
    Finish(Result<(), String>),
}

/// A decommission run; `has_wasm` tells whether it holds a wasm to reinstall.
pub struct Decommission {
    pub step: DecommissionStep,
    pub has_wasm: bool,
}

pub open spec fn outcome_of(reply: CallReply) -> CallOutcome {
    match reply {
        CallReply::Status { installed, reserved } => CallOutcome::Status { installed, reserved },
        CallReply::Succeeded => CallOutcome::Succeeded,
        CallReply::Failed(_) => CallOutcome::Failed,
    }
}

/// The reply fits the call the run is waiting for: the status query is
/// answered with a status or fails, every other call succeeds or fails.
pub open spec fn reply_fits(step: DecommissionStep, outcome: CallOutcome) -> bool {
    &&& step != DecommissionStep::Finished
    &&& (outcome is Status ==> step == DecommissionStep::AwaitStatus)
    &&& (step == DecommissionStep::AwaitStatus ==> !(outcome is Succeeded))
}

/// After an uninstall: reinstall for a second pass when reserved cycles were
/// released and a wasm is at hand, else go on to the controllers.
pub open spec fn after_first_uninstall(reserved: u128, has_wasm: bool) -> (DecommissionStep, Option<DecommissionRequest>) {
    if reserved > 0 && has_wasm {
        (DecommissionStep::AwaitInstall, Some(DecommissionRequest::InstallWasm))
    } else {
        (DecommissionStep::AwaitControllers, Some(DecommissionRequest::SetControllersToPo))
    }
}

/// One step of the run: the next step, and the next call (`None` when the
/// run finishes).
pub open spec fn decommission_next(step: DecommissionStep, has_wasm: bool, outcome: CallOutcome) -> (DecommissionStep, Option<DecommissionRequest>) {
    match step {
        DecommissionStep::AwaitStatus => match outcome {
            CallOutcome::Status { installed, reserved } => if installed {
                (
                    DecommissionStep::AwaitFirstReturn { reserved: match reserved { Some(r) => r, None => 0 } },
                    Some(DecommissionRequest::ReturnCycles { reserve: DECOMMISSION_RESERVE }),
                )
            } else {
                (DecommissionStep::AwaitControllers, Some(DecommissionRequest::SetControllersToPo))
            },
            _ => (DecommissionStep::Finished, None),
        },
        DecommissionStep::AwaitFirstReturn { reserved } => (
            DecommissionStep::AwaitFirstUninstall { reserved },
            Some(DecommissionRequest::Uninstall),
        ),
        DecommissionStep::AwaitFirstUninstall { reserved } => if outcome is Failed {
            (DecommissionStep::Finished, None)
        } else {
            after_first_uninstall(reserved, has_wasm)
        },
        DecommissionStep::AwaitInstall => if outcome is Failed {
            (DecommissionStep::Finished, None)
        } else {
            (DecommissionStep::AwaitSecondReturn, Some(DecommissionRequest::ReturnCycles { reserve: DECOMMISSION_RESERVE }))
        },
        DecommissionStep::AwaitSecondReturn => (
            DecommissionStep::AwaitSecondUninstall,
            Some(DecommissionRequest::Uninstall),
        ),
        DecommissionStep::AwaitSecondUninstall => if outcome is Failed {
            (DecommissionStep::Finished, None)
        } else {
            (DecommissionStep::AwaitControllers, Some(DecommissionRequest::SetControllersToPo))
        },
        DecommissionStep::AwaitControllers => (DecommissionStep::Finished, None),
        DecommissionStep::Finished => (DecommissionStep::Finished, None),
    }
}

/// How many calls at most are still to come from a step.
pub open spec fn calls_left(step: DecommissionStep) -> nat {
    match step {
        DecommissionStep::AwaitStatus => 7,
        DecommissionStep::AwaitFirstReturn { .. } => 6,
        DecommissionStep::AwaitFirstUninstall { .. } => 5,
        DecommissionStep::AwaitInstall => 4,
        DecommissionStep::AwaitSecondReturn => 3,
        DecommissionStep::AwaitSecondUninstall => 2,
        DecommissionStep::AwaitControllers => 1,
        DecommissionStep::Finished => 0,
    }
}

impl Decommission {
    /// Starts a run; its first call is the status query.
    pub fn start(has_wasm: bool) -> (r: (Decommission, DecommissionRequest))
        ensures
            r.0.step == DecommissionStep::AwaitStatus,
            r.0.has_wasm == has_wasm,
            r.1 == DecommissionRequest::QueryStatus,
    {
        (Decommission { step: DecommissionStep::AwaitStatus, has_wasm }, DecommissionRequest::QueryStatus)
    }

    /// Takes the reply to the last call and gives the next action. The run
    /// finishes with `Ok(())` once the controllers were set, and with the
    /// failure's message where the status query, an uninstall, the install
    /// or the controller update failed; a failed cycle return is passed over.
    pub fn advance(&mut self, reply: CallReply) -> (r: DecommissionAction)
        requires
            reply_fits(old(self).step, outcome_of(reply)),
        ensures
            final(self).has_wasm == old(self).has_wasm,
            final(self).step == decommission_next(old(self).step, old(self).has_wasm, outcome_of(reply)).0,
            decommission_next(old(self).step, old(self).has_wasm, outcome_of(reply)).1 matches Some(q)
                ==> r == DecommissionAction::Call(q),
            decommission_next(old(self).step, old(self).has_wasm, outcome_of(reply)).1 is None
                ==> (r matches DecommissionAction::Finish(res) && match reply {
                    CallReply::Failed(m) => res matches Err(e) && e@ == m@,
                    _ => res is Ok,
                }),
    {
        let step = self.step;
        match reply {
            CallReply::Status { installed, reserved } => {
                if installed {
                    let reserved = match reserved {
                        Some(r) => r,
                        None => 0,
                    };
                    self.step = DecommissionStep::AwaitFirstReturn { reserved };
                    DecommissionAction::Call(DecommissionRequest::ReturnCycles { reserve: DECOMMISSION_RESERVE })
                } else {
                    self.step = DecommissionStep::AwaitControllers;
                    DecommissionAction::Call(DecommissionRequest::SetControllersToPo)
                }
            },
            CallReply::Succeeded => match step {
                DecommissionStep::AwaitFirstReturn { reserved } => {
                    self.step = DecommissionStep::AwaitFirstUninstall { reserved };
                    DecommissionAction::Call(DecommissionRequest::Uninstall)
                },
                DecommissionStep::AwaitFirstUninstall { reserved } => {
                    if reserved > 0 && self.has_wasm {
                        self.step = DecommissionStep::AwaitInstall;
                        DecommissionAction::Call(DecommissionRequest::InstallWasm)
                    } else {
                        self.step = DecommissionStep::AwaitControllers;
                        DecommissionAction::Call(DecommissionRequest::SetControllersToPo)
                    }
                },
                DecommissionStep::AwaitInstall => {
                    self.step = DecommissionStep::AwaitSecondReturn;
                    DecommissionAction::Call(DecommissionRequest::ReturnCycles { reserve: DECOMMISSION_RESERVE })
                },
                DecommissionStep::AwaitSecondReturn => {
                    self.step = DecommissionStep::AwaitSecondUninstall;
                    DecommissionAction::Call(DecommissionRequest::Uninstall)
                },
                DecommissionStep::AwaitSecondUninstall => {
                    self.step = DecommissionStep::AwaitControllers;
                    DecommissionAction::Call(DecommissionRequest::SetControllersToPo)
                },
                _ => {
                    self.step = DecommissionStep::Finished;
                    DecommissionAction::Finish(Ok(()))
                },
            },
            CallReply::Failed(m) => match step {
                DecommissionStep::AwaitFirstReturn { reserved } => {
                    self.step = DecommissionStep::AwaitFirstUninstall { reserved };
                    DecommissionAction::Call(DecommissionRequest::Uninstall)
                },
                DecommissionStep::AwaitSecondReturn => {
                    self.step = DecommissionStep::AwaitSecondUninstall;
                    DecommissionAction::Call(DecommissionRequest::Uninstall)
                },
                _ => {
                    self.step = DecommissionStep::Finished;
                    DecommissionAction::Finish(Err(m))
                },
            },
        }
    }
}

/// The controllers a decommissioned canister is left with: the platform
/// orchestrator alone, or the parse error of its id.
pub fn decommission_controllers() -> (r: Result<Vec<Principal>, String>)
    ensures
        spec_principal_from_text(PLATFORM_ORCHESTRATOR_ID@) matches Ok(po) ==> (r matches Ok(v) && ids(v@) == seq![po]),
        spec_principal_from_text(PLATFORM_ORCHESTRATOR_ID@) matches Err(m) ==> (r matches Err(e) && e@ == m),
{
    let po = Principal::from_text(PLATFORM_ORCHESTRATOR_ID)?;
    Ok(orchestrator_only(&po))
}

/// The guard of `decommission_individual_canister` and
/// `decommission_all_controlled_canisters`: only the actions identity may
/// call them. Bulk decommissioning answers `"Started"` once it is let through.
pub fn decommission_guard(caller: &Principal) -> (r: Result<(), String>)
    ensures
        spec_principal_from_text(AUTHORIZED_CALLER_ID@) matches Ok(a) ==> (r is Ok <==> a == caller@),
        spec_principal_from_text(AUTHORIZED_CALLER_ID@) is Ok ==> (r is Err ==> r->Err_0@ == "Unauthorized"@),
        spec_principal_from_text(AUTHORIZED_CALLER_ID@) matches Err(m) ==> (r matches Err(e) && e@ == m),
{
    authorize_caller(caller, AUTHORIZED_CALLER_ID)
}

/// The calls a run makes when every call succeeds, from `step` on, given the
/// status the canister reports.
pub open spec fn success_calls(step: DecommissionStep, has_wasm: bool, installed: bool, reserved: Option<u128>) -> Seq<DecommissionRequest>
    decreases calls_left(step),
{
    let outcome = if step == DecommissionStep::AwaitStatus {
        CallOutcome::Status { installed, reserved }
    } else {
        CallOutcome::Succeeded
    };
    let (next, call) = decommission_next(step, has_wasm, outcome);
    match call {
        Some(q) => if calls_left(next) < calls_left(step) {
            seq![q] + success_calls(next, has_wasm, installed, reserved)
        } else {
            seq![q]
        },
        None => Seq::empty(),
    }
}

/// Every step of a run brings it closer to its end: it finishes after at
/// most seven calls.
pub proof fn law_decommission_progresses(step: DecommissionStep, has_wasm: bool, outcome: CallOutcome)
    requires
        reply_fits(step, outcome),
    ensures
        calls_left(decommission_next(step, has_wasm, outcome).0) < calls_left(step),
        decommission_next(step, has_wasm, outcome).1 is None
            ==> decommission_next(step, has_wasm, outcome).0 == DecommissionStep::Finished,
{
}

/// A run ends in success only right after the controllers were set to the
/// platform orchestrator alone.
pub proof fn law_success_only_after_controllers(step: DecommissionStep, has_wasm: bool, outcome: CallOutcome)
    requires
        reply_fits(step, outcome),
        decommission_next(step, has_wasm, outcome).1 is None,
        outcome != CallOutcome::Failed,
    ensures
        step == DecommissionStep::AwaitControllers,
{
}

/// A failed cycle return does not stop the run: it goes on as after a
/// successful one.
pub proof fn law_return_failures_ignored(reserved: u128, has_wasm: bool)
    ensures
        decommission_next(DecommissionStep::AwaitFirstReturn { reserved }, has_wasm, CallOutcome::Failed)
            == decommission_next(DecommissionStep::AwaitFirstReturn { reserved }, has_wasm, CallOutcome::Succeeded),
        decommission_next(DecommissionStep::AwaitSecondReturn, has_wasm, CallOutcome::Failed)
            == decommission_next(DecommissionStep::AwaitSecondReturn, has_wasm, CallOutcome::Succeeded),
{
}

/// The failures of the status query, an uninstall, the install or the
/// controller update end the run.
pub proof fn law_fatal_failures(step: DecommissionStep, has_wasm: bool)
    requires
        step == DecommissionStep::AwaitStatus || step is AwaitFirstUninstall || step == DecommissionStep::AwaitInstall
            || step == DecommissionStep::AwaitSecondUninstall || step == DecommissionStep::AwaitControllers,
    ensures
        decommission_next(step, has_wasm, CallOutcome::Failed) == (DecommissionStep::Finished, None::<DecommissionRequest>),
{
}

/// The wasm is reinstalled only right after the first uninstall, only when
/// reserved cycles were reported and only when a wasm is at hand.
pub proof fn law_reinstall_guard(step: DecommissionStep, has_wasm: bool, outcome: CallOutcome)
    requires
        decommission_next(step, has_wasm, outcome).1 == Some(DecommissionRequest::InstallWasm),
    ensures
        step matches DecommissionStep::AwaitFirstUninstall { reserved } && reserved > 0,
        has_wasm,
{
}

/// When every call succeeds: a canister with a module gets a cycle return
/// and an uninstall, then (with reserved cycles and a wasm at hand) a
/// reinstall, a second cycle return and a second uninstall, and last the
/// controller update; a canister without a module gets the controller
/// update alone.
pub proof fn law_success_calls(has_wasm: bool, installed: bool, reserved: Option<u128>)
    ensures
        success_calls(DecommissionStep::AwaitStatus, has_wasm, installed, reserved) == if !installed {
            seq![DecommissionRequest::SetControllersToPo]
        } else if has_wasm && (match reserved { Some(r) => r, None => 0 }) > 0 {
            seq![
                DecommissionRequest::ReturnCycles { reserve: DECOMMISSION_RESERVE },
                DecommissionRequest::Uninstall,
                DecommissionRequest::InstallWasm,
                DecommissionRequest::ReturnCycles { reserve: DECOMMISSION_RESERVE },
                DecommissionRequest::Uninstall,
                DecommissionRequest::SetControllersToPo,
            ]
        } else {
            seq![
                DecommissionRequest::ReturnCycles { reserve: DECOMMISSION_RESERVE },
                DecommissionRequest::Uninstall,
                DecommissionRequest::SetControllersToPo,
            ]
        },
{
    reveal_with_fuel(success_calls, 8);
    let r: u128 = match reserved { Some(r) => r, None => 0 };
    let s1 = DecommissionStep::AwaitFirstReturn { reserved: r };
    let s2 = DecommissionStep::AwaitFirstUninstall { reserved: r };
    assert(success_calls(DecommissionStep::AwaitControllers, has_wasm, installed, reserved) =~= Seq::<DecommissionRequest>::empty());
    assert(success_calls(DecommissionStep::AwaitSecondUninstall, has_wasm, installed, reserved) =~= seq![DecommissionRequest::SetControllersToPo]);
    if installed {
        if has_wasm && r > 0 {
            assert(success_calls(s2, has_wasm, installed, reserved) =~= seq![
                DecommissionRequest::InstallWasm,
                DecommissionRequest::ReturnCycles { reserve: DECOMMISSION_RESERVE },
                DecommissionRequest::Uninstall,
                DecommissionRequest::SetControllersToPo,
            ]);
        } else {
            assert(success_calls(s2, has_wasm, installed, reserved) =~= seq![DecommissionRequest::SetControllersToPo]);
        }
        assert(success_calls(s1, has_wasm, installed, reserved) =~= seq![DecommissionRequest::Uninstall] + success_calls(s2, has_wasm, installed, reserved));
    }
}

} // verus!
