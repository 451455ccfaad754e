use canister_fleet::harvest::{ReturnAttempt, FIRST_RESERVE, MAX_RESERVE, MIN_REINSTALL_BALANCE, RESERVE_STEP, TOP_UP_AMOUNT};
use canister_fleet::harvest_run::{Harvest, HarvestAction, HarvestReply, HarvestRequest, HarvestStage, HarvestStep};
use canister_fleet::principal::Principal;

fn p(bytes: &[u8]) -> Principal {
    Principal::from_slice(bytes)
}

fn actions() -> Principal {
    p(&[7, 7])
}

fn po() -> Principal {
    p(&[1, 1])
}

fn status(installed: bool, stopped: bool, balance: u128, controllers: Vec<Principal>) -> HarvestReply {
    HarvestReply::Status { installed, stopped, balance, reserved: 5, controllers }
}

fn call(action: HarvestAction) -> HarvestRequest {
    match action {
        HarvestAction::Call(q) => q,
        HarvestAction::Done(_) => panic!("run finished early"),
        HarvestAction::Fail(f) => panic!("run failed at {:?}: {}", f.stage, f.detail),
    }
}

fn stage(action: HarvestAction) -> (HarvestStage, String) {
    match action {
        HarvestAction::Fail(f) => (f.stage, f.detail),
        _ => panic!("run did not fail"),
    }
}

/// Drives a run in which everything goes well and answers the calls made
/// and the record handed back.
fn smooth(installed: bool, stopped: bool, balance: u128, sent: u128) -> (Vec<HarvestRequest>, (u128, u128, bool, u128, u128, u128)) {
    let (mut run, first) = Harvest::start(actions(), po());
    assert!(first == HarvestRequest::QueryStatus);
    let mut calls = Vec::new();
    let mut pending = first;
    loop {
        let reply = match pending {
            HarvestRequest::QueryStatus => status(installed, stopped, balance, vec![actions(), po()]),
            HarvestRequest::QueryDetails => HarvestReply::Details { balance, controllers: vec![po()] },
            HarvestRequest::ReturnCycles { .. } => HarvestReply::Returned(ReturnAttempt::Transferred(sent)),
            _ => HarvestReply::Succeeded,
        };
        match run.advance(reply) {
            HarvestAction::Call(q) => {
                calls.push(q);
                pending = q;
            }
            HarvestAction::Done(r) => {
                assert!(run.step == HarvestStep::Finished);
                return (calls, (r.pre_balance, r.pre_reserved, r.installed, r.post_uninstall, r.topped_up, r.transferred));
            }
            HarvestAction::Fail(f) => panic!("smooth run failed at {:?}", f.stage),
        }
    }
}

#[test]
fn smooth_harvest_of_a_poor_stopped_canister_with_a_module() {
    let (calls, record) = smooth(true, true, 10, 42);
    assert_eq!(
        calls,
        vec![
            HarvestRequest::AddOurIdentity,
            HarvestRequest::QueryStatus,
            HarvestRequest::Uninstall,
            HarvestRequest::QueryStatus,
            HarvestRequest::QueryDetails,
            HarvestRequest::TopUp { amount: TOP_UP_AMOUNT },
            HarvestRequest::Uninstall,
            HarvestRequest::InstallHarvestWasm,
            HarvestRequest::QueryStatus,
            HarvestRequest::StartCanister,
            HarvestRequest::ReturnCycles { reserve: FIRST_RESERVE },
            HarvestRequest::Uninstall,
            HarvestRequest::SetControllersToPo,
            HarvestRequest::QueryDetails,
        ]
    );
    assert_eq!(record, (10, 5, true, 10, TOP_UP_AMOUNT, 42));
}

#[test]
fn smooth_harvest_of_a_rich_running_empty_canister() {
    let (calls, record) = smooth(false, false, MIN_REINSTALL_BALANCE, 9);
    assert_eq!(
        calls,
        vec![
            HarvestRequest::AddOurIdentity,
            HarvestRequest::QueryStatus,
            HarvestRequest::QueryDetails,
            HarvestRequest::Uninstall,
            HarvestRequest::InstallHarvestWasm,
            HarvestRequest::QueryStatus,
            HarvestRequest::ReturnCycles { reserve: FIRST_RESERVE },
            HarvestRequest::Uninstall,
            HarvestRequest::SetControllersToPo,
            HarvestRequest::QueryDetails,
        ]
    );
    assert_eq!(record, (MIN_REINSTALL_BALANCE, 5, false, MIN_REINSTALL_BALANCE, 0, 9));
}

#[test]
fn controller_only_status_is_recovered_once() {
    let (mut run, _) = Harvest::start(actions(), po());
    let refused = "IC0512: Only the controllers of the canister can control it".to_string();
    assert!(call(run.advance(HarvestReply::Failed(refused.clone()))) == HarvestRequest::AddOurIdentity);
    assert!(run.step == HarvestStep::AwaitRecoveryAdd);
    assert!(call(run.advance(HarvestReply::Succeeded)) == HarvestRequest::QueryStatus);
    let (s, d) = stage(run.advance(HarvestReply::Failed(refused.clone())));
    assert_eq!(s, HarvestStage::StatusRetry);
    assert_eq!(d, refused);
}

#[test]
fn other_early_status_failures_stop_the_run() {
    let (mut run, _) = Harvest::start(actions(), po());
    let (s, d) = stage(run.advance(HarvestReply::Failed("IC0503: trapped".to_string())));
    assert_eq!(s, HarvestStage::EarlyStatus);
    assert_eq!(d, "IC0503: trapped");
    assert!(run.step == HarvestStep::Finished);
}

#[test]
fn the_add_must_show_in_the_controllers() {
    let (mut run, _) = Harvest::start(actions(), po());
    call(run.advance(status(true, false, 1, vec![po()])));
    call(run.advance(HarvestReply::Succeeded));
    let (s, d) = stage(run.advance(status(true, false, 1, vec![po()])));
    assert_eq!(s, HarvestStage::ControllerMissing);
    assert_eq!(d, "");
}

#[test]
fn a_missing_canister_skips_the_check() {
    let (mut run, _) = Harvest::start(actions(), po());
    call(run.advance(status(false, false, 1, vec![po()])));
    call(run.advance(HarvestReply::Succeeded));
    let next = call(run.advance(HarvestReply::Failed("canister_not_found".to_string())));
    assert!(next == HarvestRequest::QueryDetails);
    let (mut run, _) = Harvest::start(actions(), po());
    call(run.advance(status(false, false, 1, vec![po()])));
    call(run.advance(HarvestReply::Succeeded));
    let (s, _) = stage(run.advance(HarvestReply::Failed("IC0503".to_string())));
    assert_eq!(s, HarvestStage::VerifyStatus);
}

/// Brings a fresh run to its first cycle return.
fn at_first_return() -> Harvest {
    let (mut run, _) = Harvest::start(actions(), po());
    call(run.advance(status(false, false, MIN_REINSTALL_BALANCE, vec![actions()])));
    call(run.advance(HarvestReply::Succeeded));
    call(run.advance(status(false, false, MIN_REINSTALL_BALANCE, vec![actions()])));
    call(run.advance(HarvestReply::Details { balance: MIN_REINSTALL_BALANCE, controllers: vec![actions()] }));
    call(run.advance(HarvestReply::Failed("no module".to_string())));
    call(run.advance(HarvestReply::Succeeded));
    let q = call(run.advance(status(true, false, 1, vec![actions()])));
    assert!(q == HarvestRequest::ReturnCycles { reserve: FIRST_RESERVE });
    run
}

#[test]
fn the_reserve_grows_while_cycles_run_out() {
    let mut run = at_first_return();
    let mut reserve = FIRST_RESERVE;
    while reserve + RESERVE_STEP <= MAX_RESERVE {
        let q = call(run.advance(HarvestReply::Returned(ReturnAttempt::OutOfCycles)));
        reserve += RESERVE_STEP;
        assert!(q == HarvestRequest::ReturnCycles { reserve });
    }
    assert_eq!(reserve, MAX_RESERVE);
    let q = call(run.advance(HarvestReply::Returned(ReturnAttempt::OutOfCycles)));
    assert!(q == HarvestRequest::Uninstall);
    assert_eq!(run.record.transferred, 0);
}

#[test]
fn a_failed_return_goes_on_to_the_final_uninstall() {
    let mut run = at_first_return();
    let q = call(run.advance(HarvestReply::Returned(ReturnAttempt::Failed)));
    assert!(q == HarvestRequest::Uninstall);
    let (s, d) = stage(run.advance(HarvestReply::Failed("busy".to_string())));
    assert_eq!(s, HarvestStage::FinalUninstall);
    assert_eq!(d, "busy");
}

#[test]
fn a_canister_left_with_other_controllers_is_not_harvested() {
    let mut run = at_first_return();
    call(run.advance(HarvestReply::Returned(ReturnAttempt::Transferred(3))));
    call(run.advance(HarvestReply::Succeeded));
    call(run.advance(HarvestReply::Succeeded));
    let (s, _) = stage(run.advance(HarvestReply::Details { balance: 0, controllers: vec![po(), actions()] }));
    assert_eq!(s, HarvestStage::NotHarvested);
    assert_eq!(run.record.transferred, 3);
}
