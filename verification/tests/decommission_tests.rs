use canister_fleet::controllers::{AUTHORIZED_CALLER_ID, PLATFORM_ORCHESTRATOR_ID};
use canister_fleet::decommission::{
    decommission_controllers, DECOMMISSION_RESERVE, decommission_guard, CallReply, Decommission, DecommissionAction,
    DecommissionRequest, DecommissionStep,
};
use canister_fleet::principal::Principal;
use canister_fleet::provision::{ProvisionAction, ProvisionConfig, ProvisionReply, ProvisionRequest, ProvisionStep, Provisioning};
use canister_fleet::types::{CanisterData, KnownPrincipalMap, KnownPrincipalType};

fn call(a: DecommissionAction) -> DecommissionRequest {
    match a {
        DecommissionAction::Call(q) => q,
        DecommissionAction::Finish(_) => panic!("expected a call"),
    }
}

fn finished(a: DecommissionAction) -> Result<(), String> {
    match a {
        DecommissionAction::Finish(r) => r,
        DecommissionAction::Call(_) => panic!("expected the end"),
    }
}

#[test]
fn full_decommission_with_reserved_cycles_reinstalls_and_returns_twice() {
    let (mut run, first) = Decommission::start(true);
    assert!(first == DecommissionRequest::QueryStatus);
    let q = call(run.advance(CallReply::Status { installed: true, reserved: Some(50) }));
    assert!(q == DecommissionRequest::ReturnCycles { reserve: DECOMMISSION_RESERVE });
    assert!(call(run.advance(CallReply::Succeeded)) == DecommissionRequest::Uninstall);
    assert!(call(run.advance(CallReply::Succeeded)) == DecommissionRequest::InstallWasm);
    assert!(call(run.advance(CallReply::Succeeded)) == DecommissionRequest::ReturnCycles { reserve: DECOMMISSION_RESERVE });
    assert!(call(run.advance(CallReply::Succeeded)) == DecommissionRequest::Uninstall);
    assert!(call(run.advance(CallReply::Succeeded)) == DecommissionRequest::SetControllersToPo);
    assert_eq!(finished(run.advance(CallReply::Succeeded)), Ok(()));
    assert!(run.step == DecommissionStep::Finished);
}

#[test]
fn no_reserved_cycles_or_no_wasm_skips_the_second_pass() {
    let (mut run, _) = Decommission::start(true);
    call(run.advance(CallReply::Status { installed: true, reserved: Some(0) }));
    call(run.advance(CallReply::Succeeded));
    assert!(call(run.advance(CallReply::Succeeded)) == DecommissionRequest::SetControllersToPo);

    let (mut run, _) = Decommission::start(false);
    call(run.advance(CallReply::Status { installed: true, reserved: Some(7) }));
    call(run.advance(CallReply::Succeeded));
    assert!(call(run.advance(CallReply::Succeeded)) == DecommissionRequest::SetControllersToPo);
}

#[test]
fn an_empty_canister_only_gets_its_controllers_set() {
    let (mut run, _) = Decommission::start(true);
    let q = call(run.advance(CallReply::Status { installed: false, reserved: None }));
    assert!(q == DecommissionRequest::SetControllersToPo);
    assert_eq!(finished(run.advance(CallReply::Succeeded)), Ok(()));
}

#[test]
fn failed_cycle_returns_are_passed_over() {
    let (mut run, _) = Decommission::start(true);
    call(run.advance(CallReply::Status { installed: true, reserved: None }));
    let q = call(run.advance(CallReply::Failed("out of cycles".to_string())));
    assert!(q == DecommissionRequest::Uninstall);
}

#[test]
fn other_failures_end_the_run_with_their_message() {
    let (mut run, _) = Decommission::start(true);
    assert_eq!(finished(run.advance(CallReply::Failed("status failed".to_string()))), Err("status failed".to_string()));

    let (mut run, _) = Decommission::start(true);
    call(run.advance(CallReply::Status { installed: true, reserved: Some(1) }));
    call(run.advance(CallReply::Succeeded));
    assert_eq!(finished(run.advance(CallReply::Failed("uninstall".to_string()))), Err("uninstall".to_string()));

    let (mut run, _) = Decommission::start(true);
    call(run.advance(CallReply::Status { installed: false, reserved: None }));
    assert_eq!(finished(run.advance(CallReply::Failed("settings".to_string()))), Err("settings".to_string()));
}

#[test]
fn decommissioned_canisters_keep_the_orchestrator_alone() {
    let list = decommission_controllers().ok().unwrap();
    assert_eq!(list.len(), 1);
    assert_eq!(list[0].to_text(), PLATFORM_ORCHESTRATOR_ID);
    let actions = Principal::from_text(AUTHORIZED_CALLER_ID).unwrap();
    assert_eq!(decommission_guard(&actions), Ok(()));
    assert_eq!(decommission_guard(&Principal::anonymous()), Err("Unauthorized".to_string()));
}

fn p(b: &[u8]) -> Principal {
    Principal::from_slice(b)
}

#[test]
fn provisioning_creates_then_installs_both_canisters() {
    let config = ProvisionConfig { orchestrator_cycles: 3_000, post_cache_cycles: 1_000 };
    let (mut run, first) = Provisioning::start(true, p(&[9]), p(&[7]), config);
    match first {
        ProvisionAction::Call(ProvisionRequest::CreateCanister { subnet, controllers, cycles }) => {
            assert_eq!(subnet.as_slice(), &[7]);
            assert_eq!(controllers.len(), 1);
            assert_eq!(controllers[0].as_slice(), &[9]);
            assert_eq!(cycles, 3_000);
        }
        _ => panic!("expected the orchestrator's creation"),
    }
    match run.advance(ProvisionReply::Created(Ok(p(&[1])))) {
        ProvisionAction::Call(ProvisionRequest::CreateCanister { cycles, .. }) => assert_eq!(cycles, 1_000),
        _ => panic!("expected the post cache's creation"),
    }
    match run.advance(ProvisionReply::Created(Ok(p(&[2])))) {
        ProvisionAction::Call(ProvisionRequest::InstallSubnetOrchestrator { canister, known_principal_ids }) => {
            assert_eq!(canister.as_slice(), &[1]);
            assert_eq!(known_principal_ids.get(KnownPrincipalType::CanisterIdPlatformOrchestrator).unwrap().as_slice(), &[9]);
            assert_eq!(known_principal_ids.get(KnownPrincipalType::CanisterIdUserIndex).unwrap().as_slice(), &[1]);
            assert_eq!(known_principal_ids.get(KnownPrincipalType::CanisterIdPostCache).unwrap().as_slice(), &[2]);
        }
        _ => panic!("expected the orchestrator's install"),
    }
    match run.advance(ProvisionReply::Installed(Ok(()))) {
        ProvisionAction::Call(ProvisionRequest::InstallPostCache { canister, known_principal_ids }) => {
            assert_eq!(canister.as_slice(), &[2]);
            assert_eq!(known_principal_ids.get(KnownPrincipalType::CanisterIdUserIndex).unwrap().as_slice(), &[1]);
        }
        _ => panic!("expected the post cache's install"),
    }
    match run.advance(ProvisionReply::Installed(Ok(()))) {
        ProvisionAction::Finish(Ok(id)) => assert_eq!(id.as_slice(), &[1]),
        _ => panic!("expected the orchestrator's id"),
    }
    assert!(matches!(run.step, ProvisionStep::Finished));
}

#[test]
fn provisioning_refuses_non_controllers_and_traps_on_failures() {
    let config = ProvisionConfig { orchestrator_cycles: 1, post_cache_cycles: 1 };
    let (_, first) = Provisioning::start(false, p(&[9]), p(&[7]), config);
    assert!(matches!(first, ProvisionAction::Finish(Err(ref e)) if e == "Unauthorized"));
    let (mut run, _) = Provisioning::start(true, p(&[9]), p(&[7]), config);
    match run.advance(ProvisionReply::Created(Err("out of cycles".to_string()))) {
        ProvisionAction::Trap(m) => assert_eq!(m, "out of cycles"),
        _ => panic!("expected a trap"),
    }
}

#[test]
fn provisioning_sends_the_low_bits_of_a_large_cycle_amount() {
    let config = ProvisionConfig { orchestrator_cycles: (1u128 << 64) + 5, post_cache_cycles: 0 };
    let (_, first) = Provisioning::start(true, p(&[9]), p(&[7]), config);
    match first {
        ProvisionAction::Call(ProvisionRequest::CreateCanister { cycles, .. }) => assert_eq!(cycles, 5),
        _ => panic!("expected a creation"),
    }
}

#[test]
fn known_principal_map_replaces_entries() {
    let mut m = KnownPrincipalMap::new();
    assert!(m.get(KnownPrincipalType::CanisterIdPostCache).is_none());
    m.insert(KnownPrincipalType::CanisterIdPostCache, p(&[1]));
    m.insert(KnownPrincipalType::CanisterIdPostCache, p(&[2]));
    assert_eq!(m.get(KnownPrincipalType::CanisterIdPostCache).unwrap().as_slice(), &[2]);
    assert!(m.get(KnownPrincipalType::CanisterIdUserIndex).is_none());
    let copy = m.duplicate();
    assert_eq!(copy.get(KnownPrincipalType::CanisterIdPostCache).unwrap().as_slice(), &[2]);
    let data = CanisterData::default();
    assert!(data.known_principal_ids.get(KnownPrincipalType::CanisterIdPlatformOrchestrator).is_none());
}

#[test]
fn a_failed_status_query_ends_the_run_with_its_message() {
    let (mut run, _) = Decommission::start(false);
    assert_eq!(finished(run.advance(CallReply::Failed("IC0301: not found".to_string()))), Err("IC0301: not found".to_string()));
    assert!(run.step == DecommissionStep::Finished);
}

#[test]
fn cycle_returns_leave_the_decommission_reserve() {
    assert_eq!(DECOMMISSION_RESERVE, 100_000_000);
    let (mut run, _) = Decommission::start(true);
    match call(run.advance(CallReply::Status { installed: true, reserved: Some(1) })) {
        DecommissionRequest::ReturnCycles { reserve } => assert_eq!(reserve, 100_000_000),
        _ => panic!("expected a cycle return"),
    }
}
