//! One canister's cycle harvest as a sequence of calls: gain control through
//! the platform orchestrator, empty the canister, top it up if it is too
//! poor to be reinstalled, install the harvest wasm, let it send its cycles
//! back (leaving a growing reserve while it runs short), empty it again and
//! leave the platform orchestrator as its only controller.
use vstd::prelude::*;
use crate::controllers::{ids, list_contains};
use crate::harvest::{
    harvest_completed, is_controller_only_error, is_controller_only_error_spec, is_not_found_error,
    is_not_found_error_spec, next_reserve, top_up_needed, reserve_decision, ReserveDecision, ReturnAttempt, FIRST_RESERVE, MAX_RESERVE, MIN_REINSTALL_BALANCE,
    RESERVE_STEP, TOP_UP_AMOUNT,
};
use crate::principal::Principal;

verus! {

/// Where a harvest run stands: which call it waits for.
#[derive(Clone, Copy, PartialEq, Eq, Debug, Structural)]
pub enum HarvestStep {
    /// The first status query of the management canister.
    AwaitStatus,
    /// Adding the actions identity after the status query was refused to
    /// everyone but the controllers.
    AwaitRecoveryAdd,
    /// The status query once more, after that recovery.
    AwaitStatusRetry,
    /// Adding the actions identity as a controller.
    AwaitAdd,
    /// The status query that checks the add.
    AwaitVerify,
    /// Uninstalling the module the canister had.
    AwaitUninstall,
    /// The status query that follows that uninstall.
    AwaitUninstallProbe,
    /// The platform orchestrator's report of the balance after uninstall.
    AwaitDetails,
    /// The top-up deposit.
    AwaitTopUp,
    /// The uninstall right before the install.
    AwaitCleanUninstall,
    /// Installing the harvest wasm.
    AwaitInstall,
    /// The status query after the install.
    AwaitInstallStatus,
    /// Starting the stopped canister.
    AwaitStart,
    /// The cycle return that leaves `reserve` cycles behind.
    AwaitReturn { reserve: u128 },
    /// The final uninstall.
    AwaitFinalUninstall,
    /// Setting the platform orchestrator as the only controller.
    AwaitFinalControllers,
    /// The platform orchestrator's final report.
    AwaitFinalDetails,
    Finished,
}

/// A call the run asks its driver to make.
#[derive(Clone, Copy, PartialEq, Eq, Debug, Structural)]
pub enum HarvestRequest {
    /// `canister_status` on the management canister.
    QueryStatus,
    /// `add_our_identity_as_controller` on the platform orchestrator.
    AddOurIdentity,
    /// `uninstall_code` on the management canister.
    Uninstall,
    /// `get_controllers_and_cycle_balance` on the platform orchestrator.
    QueryDetails,
    /// `deposit_cycles_to_canister` on the platform orchestrator.
    TopUp { amount: u128 },
    /// `install_code` in reinstall mode with the harvest wasm.
    InstallHarvestWasm,
    /// `start_canister` on the management canister.
    StartCanister,
    /// `return_cycle_balance_to_platform_orchestrator` on the canister,
    /// leaving `reserve` cycles behind.
    ReturnCycles { reserve: u128 },
    /// `update_settings` with the platform orchestrator as the only controller.
    SetControllersToPo,
}

/// What came back from the last call.
pub enum HarvestReply {
    /// A management-canister status: whether a module is installed, whether
    /// the canister is stopped, its balance, its reserved cycles and its
    /// controllers.
    Status { installed: bool, stopped: bool, balance: u128, reserved: u128, controllers: Vec<Principal> },
    /// The platform orchestrator's report: balance and controllers.
    Details { balance: u128, controllers: Vec<Principal> },
    /// How a cycle return went.
    Returned(ReturnAttempt),
    Succeeded,
    Failed(String),
}

/// What the run reads of a reply: its numbers, and of each list of
/// controllers and each error only what decides the next step.
#[derive(Clone, Copy, PartialEq, Eq, Structural)]
pub enum HarvestOutcome {
    Status { installed: bool, stopped: bool, balance: u128, reserved: u128, lists_actions: bool },
    Details { balance: u128, po_only: bool },
    Returned(ReturnAttempt),
    Succeeded,
    Failed { controller_only: bool, not_found: bool },
}

/// Which part of the run failed.
#[derive(Clone, Copy, PartialEq, Eq, Debug, Structural)]
pub enum HarvestStage {
    EarlyStatus,
    RecoveryAdd,
    StatusRetry,
    AddController,
    VerifyStatus,
    ControllerMissing,
    Details,
    TopUp,
    Install,
    InstallStatus,
    Start,
    FinalUninstall,
    UpdateSettings,
    FinalDetails,
    NotHarvested,
}

/// Why a run stopped: the stage, and the error that came back (empty where
/// the run itself refused to go on).
pub struct HarvestFailure {
    pub stage: HarvestStage,
    pub detail: String,
}

/// What a run found and did: the balance and reserved cycles before, the
/// module it found, the balance after the uninstall, the top-up and the
/// cycles sent back.
#[derive(Clone, Copy, PartialEq, Eq, Debug, Structural)]
pub struct HarvestRecord {
    pub pre_balance: u128,
    pub pre_reserved: u128,
    pub installed: bool,
    pub post_uninstall: u128,
    pub topped_up: u128,
    pub transferred: u128,
}

/// The next thing the driver does.
pub enum HarvestAction {
    Call(HarvestRequest),
    Done(HarvestRecord),
    Fail(HarvestFailure),
}

/// Where one step leads: the next step and its call, the end of a
/// harvested canister, or a stop at a stage.
#[derive(Clone, Copy, PartialEq, Eq, Structural)]
pub enum HarvestMove {
    Go(HarvestStep, HarvestRequest),
    Complete,
    Stop(HarvestStage),
}

/// A harvest run on one canister, driven with the actions identity `actions`
/// for the platform orchestrator `po`.
pub struct Harvest {
    pub step: HarvestStep,
    pub record: HarvestRecord,
    pub actions: Principal,
    pub po: Principal,
}

/// What the run reads of `reply`.
pub open spec fn outcome_of(reply: HarvestReply, actions: Seq<u8>, po: Seq<u8>) -> HarvestOutcome {
    match reply {
        HarvestReply::Status { installed, stopped, balance, reserved, controllers } => HarvestOutcome::Status {
            installed,
            stopped,
            balance,
            reserved,
            lists_actions: ids(controllers@).contains(actions),
        },
        HarvestReply::Details { balance, controllers } => HarvestOutcome::Details {
            balance,
            po_only: ids(controllers@) == seq![po],
        },
        HarvestReply::Returned(a) => HarvestOutcome::Returned(a),
        HarvestReply::Succeeded => HarvestOutcome::Succeeded,
        HarvestReply::Failed(e) => HarvestOutcome::Failed {
            controller_only: is_controller_only_error_spec(e@),
            not_found: is_not_found_error_spec(e@),
        },
    }
}

/// The error text a reply carries (empty for the others).
pub open spec fn reply_error(reply: HarvestReply) -> Seq<char> {
    match reply {
        HarvestReply::Failed(e) => e@,
        _ => Seq::empty(),
    }
}

/// The status queries of the run.
pub open spec fn awaits_status(step: HarvestStep) -> bool {
    ||| step == HarvestStep::AwaitStatus
    ||| step == HarvestStep::AwaitStatusRetry
    ||| step == HarvestStep::AwaitVerify
    ||| step == HarvestStep::AwaitUninstallProbe
    ||| step == HarvestStep::AwaitInstallStatus
}

/// The reply fits the call the run waits for: a status query is answered
/// with a status, a report query with a report, a cycle return with how it
/// went, and every other call succeeds; each but the cycle return may fail.
pub open spec fn reply_fits(step: HarvestStep, outcome: HarvestOutcome) -> bool {
    if step == HarvestStep::Finished {
        false
    } else if awaits_status(step) {
        outcome is Status || outcome is Failed
    } else if step == HarvestStep::AwaitDetails || step == HarvestStep::AwaitFinalDetails {
        outcome is Details || outcome is Failed
    } else if step is AwaitReturn {
        outcome is Returned
    } else {
        outcome is Succeeded || outcome is Failed
    }
}

/// The reserve of a pending cycle return lies between the first reserve
/// and the largest.
pub open spec fn step_ok(step: HarvestStep) -> bool {
    step matches HarvestStep::AwaitReturn { reserve } ==> FIRST_RESERVE <= reserve <= MAX_RESERVE
}

/// After the add was checked: uninstall the module the canister had, else
/// go straight to the balance report.
pub open spec fn after_verify(installed: bool) -> HarvestMove {
    if installed {
        HarvestMove::Go(HarvestStep::AwaitUninstall, HarvestRequest::Uninstall)
    } else {
        HarvestMove::Go(HarvestStep::AwaitDetails, HarvestRequest::QueryDetails)
    }
}

/// The first cycle return, leaving `FIRST_RESERVE` behind.
pub open spec fn first_return() -> HarvestMove {
    HarvestMove::Go(HarvestStep::AwaitReturn { reserve: FIRST_RESERVE }, HarvestRequest::ReturnCycles { reserve: FIRST_RESERVE })
}

/// One step of the run, given whether the canister had a module.
pub open spec fn harvest_next(step: HarvestStep, installed: bool, outcome: HarvestOutcome) -> HarvestMove {
    match step {
        HarvestStep::AwaitStatus => match outcome {
            HarvestOutcome::Status { .. } => HarvestMove::Go(HarvestStep::AwaitAdd, HarvestRequest::AddOurIdentity),
            HarvestOutcome::Failed { controller_only, .. } => if controller_only {
                HarvestMove::Go(HarvestStep::AwaitRecoveryAdd, HarvestRequest::AddOurIdentity)
            } else {
                HarvestMove::Stop(HarvestStage::EarlyStatus)
            },
            _ => HarvestMove::Stop(HarvestStage::EarlyStatus),
        },
        HarvestStep::AwaitRecoveryAdd => if outcome is Succeeded {
            HarvestMove::Go(HarvestStep::AwaitStatusRetry, HarvestRequest::QueryStatus)
        } else {
            HarvestMove::Stop(HarvestStage::RecoveryAdd)
        },
        HarvestStep::AwaitStatusRetry => if outcome is Status {
            HarvestMove::Go(HarvestStep::AwaitAdd, HarvestRequest::AddOurIdentity)
        } else {
            HarvestMove::Stop(HarvestStage::StatusRetry)
        },
        HarvestStep::AwaitAdd => if outcome is Succeeded {
            HarvestMove::Go(HarvestStep::AwaitVerify, HarvestRequest::QueryStatus)
        } else {
            HarvestMove::Stop(HarvestStage::AddController)
        },
        HarvestStep::AwaitVerify => match outcome {
            HarvestOutcome::Status { lists_actions, .. } => if lists_actions {
                after_verify(installed)
            } else {
                HarvestMove::Stop(HarvestStage::ControllerMissing)
            },
            HarvestOutcome::Failed { not_found, .. } => if not_found {
                after_verify(installed)
            } else {
                HarvestMove::Stop(HarvestStage::VerifyStatus)
            },
            _ => HarvestMove::Stop(HarvestStage::VerifyStatus),
        },
        HarvestStep::AwaitUninstall => HarvestMove::Go(HarvestStep::AwaitUninstallProbe, HarvestRequest::QueryStatus),
        HarvestStep::AwaitUninstallProbe => HarvestMove::Go(HarvestStep::AwaitDetails, HarvestRequest::QueryDetails),
        HarvestStep::AwaitDetails => match outcome {
            HarvestOutcome::Details { balance, .. } => if balance < MIN_REINSTALL_BALANCE {
                HarvestMove::Go(HarvestStep::AwaitTopUp, HarvestRequest::TopUp { amount: TOP_UP_AMOUNT })
            } else {
                HarvestMove::Go(HarvestStep::AwaitCleanUninstall, HarvestRequest::Uninstall)
            },
            _ => HarvestMove::Stop(HarvestStage::Details),
        },
        HarvestStep::AwaitTopUp => if outcome is Succeeded {
            HarvestMove::Go(HarvestStep::AwaitCleanUninstall, HarvestRequest::Uninstall)
        } else {
            HarvestMove::Stop(HarvestStage::TopUp)
        },
        HarvestStep::AwaitCleanUninstall => HarvestMove::Go(HarvestStep::AwaitInstall, HarvestRequest::InstallHarvestWasm),
        HarvestStep::AwaitInstall => if outcome is Succeeded {
            HarvestMove::Go(HarvestStep::AwaitInstallStatus, HarvestRequest::QueryStatus)
        } else {
            HarvestMove::Stop(HarvestStage::Install)
        },
        HarvestStep::AwaitInstallStatus => match outcome {
            HarvestOutcome::Status { stopped, .. } => if stopped {
                HarvestMove::Go(HarvestStep::AwaitStart, HarvestRequest::StartCanister)
            } else {
                first_return()
            },
            _ => HarvestMove::Stop(HarvestStage::InstallStatus),
        },
        HarvestStep::AwaitStart => if outcome is Succeeded {
            first_return()
        } else {
            HarvestMove::Stop(HarvestStage::Start)
        },
        HarvestStep::AwaitReturn { reserve } => match outcome {
            HarvestOutcome::Returned(a) => match reserve_decision(reserve, a) {
                ReserveDecision::Retry(next) => HarvestMove::Go(
                    HarvestStep::AwaitReturn { reserve: next },
                    HarvestRequest::ReturnCycles { reserve: next },
                ),
                ReserveDecision::Stop(_) => HarvestMove::Go(HarvestStep::AwaitFinalUninstall, HarvestRequest::Uninstall),
            },
            _ => HarvestMove::Go(HarvestStep::AwaitFinalUninstall, HarvestRequest::Uninstall),
        },
        HarvestStep::AwaitFinalUninstall => if outcome is Succeeded {
            HarvestMove::Go(HarvestStep::AwaitFinalControllers, HarvestRequest::SetControllersToPo)
        } else {
            HarvestMove::Stop(HarvestStage::FinalUninstall)
        },
        HarvestStep::AwaitFinalControllers => if outcome is Succeeded {
            HarvestMove::Go(HarvestStep::AwaitFinalDetails, HarvestRequest::QueryDetails)
        } else {
            HarvestMove::Stop(HarvestStage::UpdateSettings)
        },
        HarvestStep::AwaitFinalDetails => match outcome {
            HarvestOutcome::Details { po_only, .. } => if po_only {
                HarvestMove::Complete
            } else {
                HarvestMove::Stop(HarvestStage::NotHarvested)
            },
            _ => HarvestMove::Stop(HarvestStage::FinalDetails),
        },
        HarvestStep::Finished => HarvestMove::Stop(HarvestStage::FinalDetails),
    }
}

/// What the run writes down from a reply: the balance, reserved cycles
/// and module from the first status it gets, the balance after uninstall
/// from the first report, the top-up once it went through, and the cycles
/// sent back once the cycle returns stop.
pub open spec fn record_after(rec: HarvestRecord, step: HarvestStep, outcome: HarvestOutcome) -> HarvestRecord {
    match step {
        HarvestStep::AwaitStatus | HarvestStep::AwaitStatusRetry => match outcome {
            HarvestOutcome::Status { installed, balance, reserved, .. } => HarvestRecord {
                pre_balance: balance,
                pre_reserved: reserved,
                installed,
                ..rec
            },
            _ => rec,
        },
        HarvestStep::AwaitDetails => match outcome {
            HarvestOutcome::Details { balance, .. } => HarvestRecord { post_uninstall: balance, ..rec },
            _ => rec,
        },
        HarvestStep::AwaitTopUp => if outcome is Succeeded {
            HarvestRecord { topped_up: TOP_UP_AMOUNT, ..rec }
        } else {
            rec
        },
        HarvestStep::AwaitReturn { reserve } => match outcome {
            HarvestOutcome::Returned(a) => match reserve_decision(reserve, a) {
                ReserveDecision::Stop(n) => HarvestRecord { transferred: n, ..rec },
                _ => rec,
            },
            _ => rec,
        },
        _ => rec,
    }
}

/// How many calls at most are still to come from a step.
pub open spec fn calls_left(step: HarvestStep) -> nat {
    match step {
        HarvestStep::AwaitStatus => 30,
        HarvestStep::AwaitRecoveryAdd => 29,
        HarvestStep::AwaitStatusRetry => 28,
        HarvestStep::AwaitAdd => 27,
        HarvestStep::AwaitVerify => 26,
        HarvestStep::AwaitUninstall => 25,
        HarvestStep::AwaitUninstallProbe => 24,
        HarvestStep::AwaitDetails => 23,
        HarvestStep::AwaitTopUp => 22,
        HarvestStep::AwaitCleanUninstall => 21,
        HarvestStep::AwaitInstall => 20,
        HarvestStep::AwaitInstallStatus => 19,
        HarvestStep::AwaitStart => 18,
        HarvestStep::AwaitReturn { reserve } => if reserve <= MAX_RESERVE {
            (4 + (MAX_RESERVE - reserve) / (RESERVE_STEP as int)) as nat
        } else {
            4
        },
        HarvestStep::AwaitFinalUninstall => 3,
        HarvestStep::AwaitFinalControllers => 2,
        HarvestStep::AwaitFinalDetails => 1,
        HarvestStep::Finished => 0,
    }
}

/// Reads a reply as the run sees it.
fn read_reply(reply: &HarvestReply, actions: &Principal, po: &Principal) -> (r: HarvestOutcome)
    ensures
        r == outcome_of(*reply, actions@, po@),
{
    match reply {
        HarvestReply::Status { installed, stopped, balance, reserved, controllers } => HarvestOutcome::Status {
            installed: *installed,
            stopped: *stopped,
            balance: *balance,
            reserved: *reserved,
            lists_actions: list_contains(controllers, actions),
        },
        HarvestReply::Details { balance, controllers } => HarvestOutcome::Details {
            balance: *balance,
            po_only: harvest_completed(controllers, po),
        },
        HarvestReply::Returned(a) => HarvestOutcome::Returned(*a),
        HarvestReply::Succeeded => HarvestOutcome::Succeeded,
        HarvestReply::Failed(e) => HarvestOutcome::Failed {
            controller_only: is_controller_only_error(e.as_str()),
            not_found: is_not_found_error(e.as_str()),
        },
    }
}

fn verified_next(installed: bool) -> (r: HarvestMove)
    ensures
        r == after_verify(installed),
{
    if installed {
        HarvestMove::Go(HarvestStep::AwaitUninstall, HarvestRequest::Uninstall)
    } else {
        HarvestMove::Go(HarvestStep::AwaitDetails, HarvestRequest::QueryDetails)
    }
}

/// The move of one step.
fn next_move(step: HarvestStep, installed: bool, outcome: HarvestOutcome) -> (r: HarvestMove)
    requires
        step_ok(step),
    ensures
        r == harvest_next(step, installed, outcome),
{
    let first = HarvestMove::Go(
        HarvestStep::AwaitReturn { reserve: FIRST_RESERVE },
        HarvestRequest::ReturnCycles { reserve: FIRST_RESERVE },
    );
    match step {
        HarvestStep::AwaitStatus => match outcome {
            HarvestOutcome::Status { .. } => HarvestMove::Go(HarvestStep::AwaitAdd, HarvestRequest::AddOurIdentity),
            HarvestOutcome::Failed { controller_only, .. } => if controller_only {
                HarvestMove::Go(HarvestStep::AwaitRecoveryAdd, HarvestRequest::AddOurIdentity)
            } else {
                HarvestMove::Stop(HarvestStage::EarlyStatus)
            },
            _ => HarvestMove::Stop(HarvestStage::EarlyStatus),
        },
        HarvestStep::AwaitRecoveryAdd => match outcome {
            HarvestOutcome::Succeeded => HarvestMove::Go(HarvestStep::AwaitStatusRetry, HarvestRequest::QueryStatus),
            _ => HarvestMove::Stop(HarvestStage::RecoveryAdd),
        },
        HarvestStep::AwaitStatusRetry => match outcome {
            HarvestOutcome::Status { .. } => HarvestMove::Go(HarvestStep::AwaitAdd, HarvestRequest::AddOurIdentity),
            _ => HarvestMove::Stop(HarvestStage::StatusRetry),
        },
        HarvestStep::AwaitAdd => match outcome {
            HarvestOutcome::Succeeded => HarvestMove::Go(HarvestStep::AwaitVerify, HarvestRequest::QueryStatus),
            _ => HarvestMove::Stop(HarvestStage::AddController),
        },
        HarvestStep::AwaitVerify => match outcome {
            HarvestOutcome::Status { lists_actions, .. } => if lists_actions {
                verified_next(installed)
            } else {
                HarvestMove::Stop(HarvestStage::ControllerMissing)
            },
            HarvestOutcome::Failed { not_found, .. } => if not_found {
                verified_next(installed)
            } else {
                HarvestMove::Stop(HarvestStage::VerifyStatus)
            },
            _ => HarvestMove::Stop(HarvestStage::VerifyStatus),
        },
        HarvestStep::AwaitUninstall => HarvestMove::Go(HarvestStep::AwaitUninstallProbe, HarvestRequest::QueryStatus),
        HarvestStep::AwaitUninstallProbe => HarvestMove::Go(HarvestStep::AwaitDetails, HarvestRequest::QueryDetails),
        HarvestStep::AwaitDetails => match outcome {
            HarvestOutcome::Details { balance, .. } => match top_up_needed(balance) {
                Some(amount) => HarvestMove::Go(HarvestStep::AwaitTopUp, HarvestRequest::TopUp { amount }),
                None => HarvestMove::Go(HarvestStep::AwaitCleanUninstall, HarvestRequest::Uninstall),
            },
            _ => HarvestMove::Stop(HarvestStage::Details),
        },
        HarvestStep::AwaitTopUp => match outcome {
            HarvestOutcome::Succeeded => HarvestMove::Go(HarvestStep::AwaitCleanUninstall, HarvestRequest::Uninstall),
            _ => HarvestMove::Stop(HarvestStage::TopUp),
        },
        HarvestStep::AwaitCleanUninstall => HarvestMove::Go(HarvestStep::AwaitInstall, HarvestRequest::InstallHarvestWasm),
        HarvestStep::AwaitInstall => match outcome {
            HarvestOutcome::Succeeded => HarvestMove::Go(HarvestStep::AwaitInstallStatus, HarvestRequest::QueryStatus),
            _ => HarvestMove::Stop(HarvestStage::Install),
        },
        HarvestStep::AwaitInstallStatus => match outcome {
            HarvestOutcome::Status { stopped, .. } => if stopped {
                HarvestMove::Go(HarvestStep::AwaitStart, HarvestRequest::StartCanister)
            } else {
                first
            },
            _ => HarvestMove::Stop(HarvestStage::InstallStatus),
        },
        HarvestStep::AwaitStart => match outcome {
            HarvestOutcome::Succeeded => first,
            _ => HarvestMove::Stop(HarvestStage::Start),
        },
        HarvestStep::AwaitReturn { reserve } => match outcome {
            HarvestOutcome::Returned(a) => match next_reserve(reserve, a) {
                ReserveDecision::Retry(next) => HarvestMove::Go(
                    HarvestStep::AwaitReturn { reserve: next },
                    HarvestRequest::ReturnCycles { reserve: next },
                ),
                ReserveDecision::Stop(_) => HarvestMove::Go(HarvestStep::AwaitFinalUninstall, HarvestRequest::Uninstall),
            },
            _ => HarvestMove::Go(HarvestStep::AwaitFinalUninstall, HarvestRequest::Uninstall),
        },
        HarvestStep::AwaitFinalUninstall => match outcome {
            HarvestOutcome::Succeeded => HarvestMove::Go(HarvestStep::AwaitFinalControllers, HarvestRequest::SetControllersToPo),
            _ => HarvestMove::Stop(HarvestStage::FinalUninstall),
        },
        HarvestStep::AwaitFinalControllers => match outcome {
            HarvestOutcome::Succeeded => HarvestMove::Go(HarvestStep::AwaitFinalDetails, HarvestRequest::QueryDetails),
            _ => HarvestMove::Stop(HarvestStage::UpdateSettings),
        },
        HarvestStep::AwaitFinalDetails => match outcome {
            HarvestOutcome::Details { po_only, .. } => if po_only {
                HarvestMove::Complete
            } else {
                HarvestMove::Stop(HarvestStage::NotHarvested)
            },
            _ => HarvestMove::Stop(HarvestStage::FinalDetails),
        },
        HarvestStep::Finished => HarvestMove::Stop(HarvestStage::FinalDetails),
    }
}

/// The record after one step.
fn next_record(rec: HarvestRecord, step: HarvestStep, outcome: HarvestOutcome) -> (r: HarvestRecord)
    requires
        step_ok(step),
    ensures
        r == record_after(rec, step, outcome),
{
    match step {
        HarvestStep::AwaitStatus | HarvestStep::AwaitStatusRetry => match outcome {
            HarvestOutcome::Status { installed, balance, reserved, .. } => HarvestRecord {
                pre_balance: balance,
                pre_reserved: reserved,
                installed,
                ..rec
            },
            _ => rec,
        },
        HarvestStep::AwaitDetails => match outcome {
            HarvestOutcome::Details { balance, .. } => HarvestRecord { post_uninstall: balance, ..rec },
            _ => rec,
        },
        HarvestStep::AwaitTopUp => match outcome {
            HarvestOutcome::Succeeded => HarvestRecord { topped_up: TOP_UP_AMOUNT, ..rec },
            _ => rec,
        },
        HarvestStep::AwaitReturn { reserve } => match outcome {
            HarvestOutcome::Returned(a) => match next_reserve(reserve, a) {
                ReserveDecision::Stop(n) => HarvestRecord { transferred: n, ..rec },
                _ => rec,
            },
            _ => rec,
        },
        _ => rec,
    }
}

impl Harvest {
    /// Starts a run on a canister; its first call is the status query.
    pub fn start(actions: Principal, po: Principal) -> (r: (Harvest, HarvestRequest))
        ensures
            r.0.step == HarvestStep::AwaitStatus,
            r.0.actions@ == actions@,
            r.0.po@ == po@,
            r.0.record == (HarvestRecord {
                pre_balance: 0,
                pre_reserved: 0,
                installed: false,
                post_uninstall: 0,
                topped_up: 0,
                transferred: 0,
            }),
            r.1 == HarvestRequest::QueryStatus,
    {
        let record = HarvestRecord {
            pre_balance: 0,
            pre_reserved: 0,
            installed: false,
            post_uninstall: 0,
            topped_up: 0,
            transferred: 0,
        };
        (Harvest { step: HarvestStep::AwaitStatus, record, actions, po }, HarvestRequest::QueryStatus)
    }

    /// Whether the run's pending cycle return is within the reserve bounds.
    pub open spec fn wf(&self) -> bool {
        step_ok(self.step)
    }

    /// Takes the reply to the last call and gives the next action: the next
    /// call, the record of a canister left with the platform orchestrator as
    /// its only controller, or the stage where the run stopped with the error
    /// that came back.
    pub fn advance(&mut self, reply: HarvestReply) -> (r: HarvestAction)
        requires
            old(self).wf(),
            reply_fits(old(self).step, outcome_of(reply, old(self).actions@, old(self).po@)),
        ensures
            final(self).wf(),
            final(self).actions@ == old(self).actions@,
            final(self).po@ == old(self).po@,
            final(self).record == record_after(
                old(self).record,
                old(self).step,
                outcome_of(reply, old(self).actions@, old(self).po@),
            ),
            match harvest_next(old(self).step, old(self).record.installed, outcome_of(reply, old(self).actions@, old(self).po@)) {
                HarvestMove::Go(s, q) => final(self).step == s && (r matches HarvestAction::Call(c) && c == q),
                HarvestMove::Complete => final(self).step == HarvestStep::Finished
                    && (r matches HarvestAction::Done(d) && d == final(self).record),
                HarvestMove::Stop(stage) => final(self).step == HarvestStep::Finished
                    && (r matches HarvestAction::Fail(f) && f.stage == stage && f.detail@ == reply_error(reply)),
            },
    {
        let outcome = read_reply(&reply, &self.actions, &self.po);
        let step = self.step;
        let mv = next_move(step, self.record.installed, outcome);
        self.record = next_record(self.record, step, outcome);
        match mv {
            HarvestMove::Go(s, q) => {
                proof {
                    law_steps_stay_ok(step, self.record.installed, outcome);
                }
                self.step = s;
                HarvestAction::Call(q)
            },
            HarvestMove::Complete => {
                self.step = HarvestStep::Finished;
                HarvestAction::Done(self.record)
            },
            HarvestMove::Stop(stage) => {
                self.step = HarvestStep::Finished;
                let detail = match reply {
                    HarvestReply::Failed(e) => e,
                    _ => String::new(),
                };
                HarvestAction::Fail(HarvestFailure { stage, detail })
            },
        }
    }
}

/// Every step keeps the reserve of a pending cycle return within its
/// bounds.
pub proof fn law_steps_stay_ok(step: HarvestStep, installed: bool, outcome: HarvestOutcome)
    requires
        step_ok(step),
    ensures
        harvest_next(step, installed, outcome) matches HarvestMove::Go(s, _) ==> step_ok(s),
{
}

/// Every step brings the run closer to its end: `calls_left`, thirty at
/// the start, falls with each call, the retried cycle returns included.
pub proof fn law_harvest_progresses(step: HarvestStep, installed: bool, outcome: HarvestOutcome)
    requires
        step_ok(step),
        reply_fits(step, outcome),
    ensures
        harvest_next(step, installed, outcome) matches HarvestMove::Go(s, _) ==> calls_left(s) < calls_left(step),
{
    if let HarvestStep::AwaitReturn { reserve } = step {
        if let HarvestOutcome::Returned(a) = outcome {
            if let ReserveDecision::Retry(next) = reserve_decision(reserve, a) {
                assert((MAX_RESERVE - next) / (RESERVE_STEP as int) == (MAX_RESERVE - reserve) / (RESERVE_STEP as int) - 1);
            }
        }
    }
}

/// A run completes only on a final report that lists the platform
/// orchestrator as the canister's only controller.
pub proof fn law_complete_only_with_po_alone(step: HarvestStep, installed: bool, reply: HarvestReply, actions: Seq<u8>, po: Seq<u8>)
    requires
        harvest_next(step, installed, outcome_of(reply, actions, po)) == HarvestMove::Complete,
    ensures
        step == HarvestStep::AwaitFinalDetails,
        reply matches HarvestReply::Details { controllers, .. } && ids(controllers@) == seq![po],
{
}

/// Cycles are asked back only once the harvest wasm is installed and the
/// canister runs: right after the status that follows the install, after a
/// start, or as the retry of a return that ran out of cycles, with a reserve
/// larger by `RESERVE_STEP`. The harvest wasm is installed only right after
/// the canister was emptied, and the post-install status follows only a
/// successful install.
pub proof fn law_cycles_returned_only_after_install(step: HarvestStep, installed: bool, outcome: HarvestOutcome)
    ensures
        harvest_next(step, installed, outcome) matches HarvestMove::Go(_, HarvestRequest::ReturnCycles { reserve }) ==> {
            ||| step == HarvestStep::AwaitInstallStatus && (outcome matches HarvestOutcome::Status { stopped, .. } && !stopped)
                && reserve == FIRST_RESERVE
            ||| step == HarvestStep::AwaitStart && outcome is Succeeded && reserve == FIRST_RESERVE
            ||| (step matches HarvestStep::AwaitReturn { reserve: r } && outcome == HarvestOutcome::Returned(ReturnAttempt::OutOfCycles)
                && reserve == r + RESERVE_STEP)
        },
        harvest_next(step, installed, outcome) matches HarvestMove::Go(_, HarvestRequest::InstallHarvestWasm)
            ==> step == HarvestStep::AwaitCleanUninstall,
        harvest_next(step, installed, outcome) matches HarvestMove::Go(HarvestStep::AwaitInstallStatus, _)
            ==> step == HarvestStep::AwaitInstall && outcome is Succeeded,
{
}

/// A top-up is asked for only when the report after the uninstall shows a
/// balance below `MIN_REINSTALL_BALANCE`, and it is always `TOP_UP_AMOUNT`.
pub proof fn law_top_up_only_when_poor(step: HarvestStep, installed: bool, outcome: HarvestOutcome)
    ensures
        harvest_next(step, installed, outcome) matches HarvestMove::Go(_, HarvestRequest::TopUp { amount }) ==> {
            &&& step == HarvestStep::AwaitDetails
            &&& outcome matches HarvestOutcome::Details { balance, .. } && balance < MIN_REINSTALL_BALANCE
            &&& amount == TOP_UP_AMOUNT
        },
{
}

/// The module a canister had is uninstalled (before the balance report)
/// only when the first status showed one and the add of the actions
/// identity was confirmed or the canister was reported missing.
pub proof fn law_first_uninstall_only_of_a_module(step: HarvestStep, installed: bool, outcome: HarvestOutcome)
    ensures
        harvest_next(step, installed, outcome) matches HarvestMove::Go(HarvestStep::AwaitUninstall, _) ==> {
            &&& step == HarvestStep::AwaitVerify
            &&& installed
            &&& (outcome matches HarvestOutcome::Status { lists_actions, .. } && lists_actions)
                || (outcome matches HarvestOutcome::Failed { not_found, .. } && not_found)
        },
{
}

/// Recovery through the platform orchestrator happens once: a first status
/// refused to all but the controllers leads to adding the actions identity
/// and asking again; any other failure of the first status, or a failure of
/// the second, stops the run.
pub proof fn law_recovery_once(installed: bool, controller_only: bool, not_found: bool)
    ensures
        harvest_next(HarvestStep::AwaitStatus, installed, HarvestOutcome::Failed { controller_only, not_found })
            == if controller_only {
                HarvestMove::Go(HarvestStep::AwaitRecoveryAdd, HarvestRequest::AddOurIdentity)
            } else {
                HarvestMove::Stop(HarvestStage::EarlyStatus)
            },
        harvest_next(HarvestStep::AwaitStatusRetry, installed, HarvestOutcome::Failed { controller_only, not_found })
            == HarvestMove::Stop(HarvestStage::StatusRetry),
{
}

/// The first uninstall, the status that follows it and the uninstall right
/// before the install may fail without stopping the run.
pub proof fn law_ignored_failures(installed: bool, controller_only: bool, not_found: bool, status: HarvestOutcome)
    requires
        status is Status,
    ensures
        harvest_next(HarvestStep::AwaitUninstall, installed, HarvestOutcome::Failed { controller_only, not_found })
            == harvest_next(HarvestStep::AwaitUninstall, installed, HarvestOutcome::Succeeded),
        harvest_next(HarvestStep::AwaitUninstallProbe, installed, HarvestOutcome::Failed { controller_only, not_found })
            == harvest_next(HarvestStep::AwaitUninstallProbe, installed, status),
        harvest_next(HarvestStep::AwaitCleanUninstall, installed, HarvestOutcome::Failed { controller_only, not_found })
            == harvest_next(HarvestStep::AwaitCleanUninstall, installed, HarvestOutcome::Succeeded),
{
}

/// The record keeps what the run reads: the first status it gets, whether
/// from the first query or from the retry after recovery, sets the balance,
/// reserved cycles and module flag; the report after the uninstall sets the
/// balance after uninstall; a top-up that went through sets the top-up; a
/// cycle return that stops with `n` sets the cycles sent back. Any other
/// step leaves the record as it was.
pub proof fn law_record_keeps_what_the_run_reads(rec: HarvestRecord, step: HarvestStep, outcome: HarvestOutcome)
    ensures
        (step == HarvestStep::AwaitStatus || step == HarvestStep::AwaitStatusRetry)
            ==> (outcome matches HarvestOutcome::Status { installed, balance, reserved, .. } ==> {
                let r = record_after(rec, step, outcome);
                &&& r.pre_balance == balance
                &&& r.pre_reserved == reserved
                &&& r.installed == installed
                &&& r.post_uninstall == rec.post_uninstall
                &&& r.topped_up == rec.topped_up
                &&& r.transferred == rec.transferred
            }),
        step == HarvestStep::AwaitDetails ==> (outcome matches HarvestOutcome::Details { balance, .. }
            ==> record_after(rec, step, outcome) == (HarvestRecord { post_uninstall: balance, ..rec })),
        step == HarvestStep::AwaitTopUp && outcome is Succeeded
            ==> record_after(rec, step, outcome) == (HarvestRecord { topped_up: TOP_UP_AMOUNT, ..rec }),
        step == HarvestStep::AwaitTopUp && outcome is Failed ==> record_after(rec, step, outcome) == rec,
        (step matches HarvestStep::AwaitReturn { reserve } && outcome matches HarvestOutcome::Returned(a) && {
            ||| a matches ReturnAttempt::Transferred(n)
            ||| a == ReturnAttempt::Failed
            ||| reserve + RESERVE_STEP > MAX_RESERVE
        }) ==> record_after(rec, step, outcome).transferred == match outcome {
            HarvestOutcome::Returned(ReturnAttempt::Transferred(n)) => n,
            _ => 0u128,
        },
        (step matches HarvestStep::AwaitReturn { reserve } && outcome == HarvestOutcome::Returned(ReturnAttempt::OutOfCycles)
            && reserve + RESERVE_STEP <= MAX_RESERVE) ==> record_after(rec, step, outcome) == rec,
        !(step == HarvestStep::AwaitStatus || step == HarvestStep::AwaitStatusRetry || step == HarvestStep::AwaitDetails
            || step == HarvestStep::AwaitTopUp || step is AwaitReturn) ==> record_after(rec, step, outcome) == rec,
{
}

/// A run recovered through the platform orchestrator reads the canister as
/// a run that was let in at once: after the retried status, the record holds
/// that status's balance, reserved cycles and module flag, and a module it
/// reports is uninstalled (then looked at again) right after the add is
/// checked.
pub proof fn law_recovered_run_reads_the_retried_status(
    rec: HarvestRecord,
    installed: bool,
    stopped: bool,
    balance: u128,
    reserved: u128,
    lists_actions: bool,
)
    ensures
        ({
            let status = HarvestOutcome::Status { installed, stopped, balance, reserved, lists_actions };
            let r = record_after(rec, HarvestStep::AwaitStatusRetry, status);
            &&& r.pre_balance == balance
            &&& r.pre_reserved == reserved
            &&& r.installed == installed
            &&& harvest_next(HarvestStep::AwaitStatusRetry, rec.installed, status)
                == HarvestMove::Go(HarvestStep::AwaitAdd, HarvestRequest::AddOurIdentity)
            &&& harvest_next(HarvestStep::AwaitVerify, r.installed, HarvestOutcome::Status {
                installed,
                stopped,
                balance,
                reserved,
                lists_actions: true,
            }) == if installed {
                HarvestMove::Go(HarvestStep::AwaitUninstall, HarvestRequest::Uninstall)
            } else {
                HarvestMove::Go(HarvestStep::AwaitDetails, HarvestRequest::QueryDetails)
            }
        }),
{
}

/// The reply every call gets on a run where everything goes well: the
/// canister reports `installed` and `stopped` and a balance of `balance`,
/// lists the actions identity and in the end the platform orchestrator
/// alone, and the first cycle return sends `sent`.
pub open spec fn smooth_outcome(step: HarvestStep, installed: bool, stopped: bool, balance: u128, sent: u128) -> HarvestOutcome {
    if awaits_status(step) {
        HarvestOutcome::Status { installed, stopped, balance, reserved: 0, lists_actions: true }
    } else if step == HarvestStep::AwaitDetails || step == HarvestStep::AwaitFinalDetails {
        HarvestOutcome::Details { balance, po_only: true }
    } else if step is AwaitReturn {
        HarvestOutcome::Returned(ReturnAttempt::Transferred(sent))
    } else {
        HarvestOutcome::Succeeded
    }
}

/// The calls a run makes from `step` on when everything goes well.
#[verifier::opaque]
pub open spec fn smooth_calls(step: HarvestStep, installed: bool, stopped: bool, balance: u128, sent: u128) -> Seq<HarvestRequest>
    decreases calls_left(step),
{
    match harvest_next(step, installed, smooth_outcome(step, installed, stopped, balance, sent)) {
        HarvestMove::Go(s, q) => if calls_left(s) < calls_left(step) {
            seq![q] + smooth_calls(s, installed, stopped, balance, sent)
        } else {
            seq![q]
        },
        _ => Seq::empty(),
    }
}

/// One smooth step: its call, then the calls from the step it leads to.
proof fn lemma_smooth_unfold(step: HarvestStep, installed: bool, stopped: bool, balance: u128, sent: u128)
    requires
        step_ok(step),
        step != HarvestStep::Finished,
    ensures
        harvest_next(step, installed, smooth_outcome(step, installed, stopped, balance, sent)) matches HarvestMove::Go(s, q)
            ==> smooth_calls(step, installed, stopped, balance, sent) == seq![q] + smooth_calls(s, installed, stopped, balance, sent),
        harvest_next(step, installed, smooth_outcome(step, installed, stopped, balance, sent)) is Go
            || smooth_calls(step, installed, stopped, balance, sent) == Seq::<HarvestRequest>::empty(),
{
    reveal_with_fuel(smooth_calls, 1);
    law_harvest_progresses(step, installed, smooth_outcome(step, installed, stopped, balance, sent));
}

/// The smooth calls from the status after the install on.
proof fn lemma_smooth_from_install_status(installed: bool, stopped: bool, balance: u128, sent: u128)
    ensures
        smooth_calls(HarvestStep::AwaitInstallStatus, installed, stopped, balance, sent)
            == (if stopped { seq![HarvestRequest::StartCanister] } else { Seq::empty() })
                + seq![
                    HarvestRequest::ReturnCycles { reserve: FIRST_RESERVE },
                    HarvestRequest::Uninstall,
                    HarvestRequest::SetControllersToPo,
                    HarvestRequest::QueryDetails,
                ],
{
    let (i, st, b, n) = (installed, stopped, balance, sent);
    lemma_smooth_unfold(HarvestStep::AwaitFinalDetails, i, st, b, n);
    lemma_smooth_unfold(HarvestStep::AwaitFinalControllers, i, st, b, n);
    lemma_smooth_unfold(HarvestStep::AwaitFinalUninstall, i, st, b, n);
    let ret = HarvestStep::AwaitReturn { reserve: FIRST_RESERVE };
    lemma_smooth_unfold(ret, i, st, b, n);
    assert(smooth_calls(ret, i, st, b, n)
        =~= seq![HarvestRequest::Uninstall, HarvestRequest::SetControllersToPo, HarvestRequest::QueryDetails]);
    lemma_smooth_unfold(HarvestStep::AwaitStart, i, st, b, n);
    lemma_smooth_unfold(HarvestStep::AwaitInstallStatus, i, st, b, n);
    assert(smooth_calls(HarvestStep::AwaitStart, i, st, b, n) =~= seq![
        HarvestRequest::ReturnCycles { reserve: FIRST_RESERVE },
        HarvestRequest::Uninstall,
        HarvestRequest::SetControllersToPo,
        HarvestRequest::QueryDetails,
    ]);
    assert(smooth_calls(HarvestStep::AwaitInstallStatus, i, st, b, n) =~= (if st {
        seq![HarvestRequest::StartCanister]
    } else {
        Seq::empty()
    }) + seq![
        HarvestRequest::ReturnCycles { reserve: FIRST_RESERVE },
        HarvestRequest::Uninstall,
        HarvestRequest::SetControllersToPo,
        HarvestRequest::QueryDetails,
    ]);
}

/// The smooth calls from the balance report on.
proof fn lemma_smooth_from_details(installed: bool, stopped: bool, balance: u128, sent: u128)
    ensures
        smooth_calls(HarvestStep::AwaitDetails, installed, stopped, balance, sent)
            == (if balance < MIN_REINSTALL_BALANCE {
                seq![HarvestRequest::TopUp { amount: TOP_UP_AMOUNT }]
            } else {
                Seq::empty()
            })
                + seq![HarvestRequest::Uninstall, HarvestRequest::InstallHarvestWasm, HarvestRequest::QueryStatus]
                + smooth_calls(HarvestStep::AwaitInstallStatus, installed, stopped, balance, sent),
{
    let (i, st, b, n) = (installed, stopped, balance, sent);
    lemma_smooth_unfold(HarvestStep::AwaitInstall, i, st, b, n);
    lemma_smooth_unfold(HarvestStep::AwaitCleanUninstall, i, st, b, n);
    lemma_smooth_unfold(HarvestStep::AwaitTopUp, i, st, b, n);
    lemma_smooth_unfold(HarvestStep::AwaitDetails, i, st, b, n);
    let rest = smooth_calls(HarvestStep::AwaitInstallStatus, i, st, b, n);
    let from_top = seq![HarvestRequest::Uninstall, HarvestRequest::InstallHarvestWasm, HarvestRequest::QueryStatus] + rest;
    assert(smooth_calls(HarvestStep::AwaitTopUp, i, st, b, n) =~= from_top);
    assert(smooth_calls(HarvestStep::AwaitDetails, i, st, b, n) =~= (if b < MIN_REINSTALL_BALANCE {
        seq![HarvestRequest::TopUp { amount: TOP_UP_AMOUNT }]
    } else {
        Seq::empty()
    }) + from_top);
}

/// When everything goes well, a run adds the actions identity and checks
/// it, uninstalls the module it found and looks again, reads the balance,
/// tops up a canister too poor to be reinstalled, empties it, installs the
/// harvest wasm, starts it if it is stopped, asks the cycles back once, empties
/// it again, sets the platform orchestrator as the only controller and
/// reads the final report.
pub proof fn law_smooth_run(installed: bool, stopped: bool, balance: u128, sent: u128)
    ensures
        smooth_calls(HarvestStep::AwaitStatus, installed, stopped, balance, sent)
            == seq![HarvestRequest::AddOurIdentity, HarvestRequest::QueryStatus]
                + (if installed { seq![HarvestRequest::Uninstall, HarvestRequest::QueryStatus] } else { Seq::empty() })
                + seq![HarvestRequest::QueryDetails]
                + (if balance < MIN_REINSTALL_BALANCE {
                    seq![HarvestRequest::TopUp { amount: TOP_UP_AMOUNT }]
                } else {
                    Seq::empty()
                })
                + seq![HarvestRequest::Uninstall, HarvestRequest::InstallHarvestWasm, HarvestRequest::QueryStatus]
                + (if stopped { seq![HarvestRequest::StartCanister] } else { Seq::empty() })
                + seq![
                    HarvestRequest::ReturnCycles { reserve: FIRST_RESERVE },
                    HarvestRequest::Uninstall,
                    HarvestRequest::SetControllersToPo,
                    HarvestRequest::QueryDetails,
                ],
{
    lemma_smooth_from_install_status(installed, stopped, balance, sent);
    lemma_smooth_from_details(installed, stopped, balance, sent);
    let (i, st, b, n) = (installed, stopped, balance, sent);
    lemma_smooth_unfold(HarvestStep::AwaitUninstallProbe, i, st, b, n);
    lemma_smooth_unfold(HarvestStep::AwaitUninstall, i, st, b, n);
    lemma_smooth_unfold(HarvestStep::AwaitVerify, i, st, b, n);
    lemma_smooth_unfold(HarvestStep::AwaitAdd, i, st, b, n);
    lemma_smooth_unfold(HarvestStep::AwaitStatus, i, st, b, n);
    let from_probe = seq![HarvestRequest::QueryDetails] + smooth_calls(HarvestStep::AwaitDetails, i, st, b, n);
    let from_verify = (if i { seq![HarvestRequest::Uninstall, HarvestRequest::QueryStatus] } else { Seq::empty() }) + from_probe;
    assert(smooth_calls(HarvestStep::AwaitVerify, i, st, b, n) =~= from_verify);
    assert(smooth_calls(HarvestStep::AwaitStatus, i, st, b, n) =~= seq![HarvestRequest::AddOurIdentity, HarvestRequest::QueryStatus] + from_verify);
}

} // verus!
