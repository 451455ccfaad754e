use canister_fleet::controllers::{
    authorize_caller, controller_guard, harvest_controllers, is_orchestrator_only, list_contains,
    merge_controllers, orchestrator_only, push_if_absent, subnet_handover_controllers, unauthorized,
    ACTIONS_PRINCIPAL_ID, AUTHORIZED_CALLER_ID, PLATFORM_ORCHESTRATOR_ID, SNS_GOVERNANCE_CANISTER_ID,
};
use canister_fleet::cycles::{begin_cycle_return, cycles_to_return, finish_cycle_return, nat_to_u128, CycleReturnStart};
use canister_fleet::principal::Principal;
use canister_fleet::upgrade::validate_install_code;

fn p(bytes: &[u8]) -> Principal {
    Principal::from_slice(bytes)
}

fn texts(list: &[Principal]) -> Vec<Vec<u8>> {
    list.iter().map(|x| x.as_slice().to_vec()).collect()
}

#[test]
fn merge_adds_missing_controllers_in_order() {
    let current = vec![p(&[1]), p(&[2])];
    let merged = merge_controllers(current, &p(&[3]), &p(&[4]));
    assert_eq!(texts(&merged), vec![vec![1], vec![2], vec![3], vec![4]]);
}

#[test]
fn merge_keeps_present_controllers_once() {
    let current = vec![p(&[3]), p(&[1])];
    let merged = merge_controllers(current, &p(&[3]), &p(&[1]));
    assert_eq!(texts(&merged), vec![vec![3], vec![1]]);
}

#[test]
fn merging_twice_changes_nothing() {
    let once = merge_controllers(vec![p(&[9])], &p(&[3]), &p(&[4]));
    let twice = merge_controllers(once.iter().map(|x| x.duplicate()).collect(), &p(&[3]), &p(&[4]));
    assert_eq!(texts(&once), texts(&twice));
}

#[test]
fn push_if_absent_appends_only_new() {
    let mut list = vec![p(&[1])];
    push_if_absent(&mut list, p(&[1]));
    assert_eq!(list.len(), 1);
    push_if_absent(&mut list, p(&[2]));
    assert_eq!(texts(&list), vec![vec![1], vec![2]]);
    assert!(list_contains(&list, &p(&[2])));
    assert!(!list_contains(&list, &p(&[3])));
}

#[test]
fn fixed_controller_lists() {
    assert_eq!(texts(&harvest_controllers(&p(&[1]), &p(&[2]))), vec![vec![1], vec![2]]);
    assert_eq!(texts(&orchestrator_only(&p(&[1]))), vec![vec![1]]);
    assert_eq!(texts(&subnet_handover_controllers(&p(&[5]), &p(&[6]))), vec![vec![5], vec![6]]);
}

#[test]
fn orchestrator_only_means_exactly_one_controller() {
    let po = p(&[7]);
    assert!(is_orchestrator_only(&vec![p(&[7])], &po));
    assert!(!is_orchestrator_only(&vec![p(&[7]), p(&[8])], &po));
    assert!(!is_orchestrator_only(&vec![], &po));
    assert!(!is_orchestrator_only(&vec![p(&[8])], &po));
}

#[test]
fn caller_authorization() {
    let actions = Principal::from_text(ACTIONS_PRINCIPAL_ID).unwrap();
    assert_eq!(authorize_caller(&actions, AUTHORIZED_CALLER_ID), Ok(()));
    assert_eq!(authorize_caller(&p(&[1]), AUTHORIZED_CALLER_ID), Err("Unauthorized".to_string()));
    assert_eq!(
        authorize_caller(&p(&[1]), "bad!"),
        Err("Text must be in valid Base32 encoding.".to_string())
    );
    assert_eq!(unauthorized(), "Unauthorized");
    assert_eq!(controller_guard(true), Ok(()));
    assert_eq!(controller_guard(false), Err("Unauthorized".to_string()));
}

#[test]
fn cycles_above_the_reserve_are_returned() {
    assert_eq!(cycles_to_return(1_000, 300), 700);
    assert_eq!(cycles_to_return(300, 300), 0);
    assert_eq!(cycles_to_return(100, 300), 0);
    match begin_cycle_return(100, 300) {
        CycleReturnStart::Done(r) => assert_eq!(r, Ok(0)),
        _ => panic!("expected no deposit"),
    }
    match begin_cycle_return(5_000, 1_000) {
        CycleReturnStart::Deposit { to, amount } => {
            assert_eq!(amount, 4_000);
            assert_eq!(to.to_text(), PLATFORM_ORCHESTRATOR_ID);
        }
        _ => panic!("expected a deposit"),
    }
    assert_eq!(finish_cycle_return(4_000, Ok(())), Ok(4_000));
    assert_eq!(finish_cycle_return(4_000, Err("rejected".to_string())), Err("rejected".to_string()));
}

#[test]
fn install_code_validator_accepts_only_governance() {
    let governance = Principal::from_text(SNS_GOVERNANCE_CANISTER_ID).unwrap();
    assert_eq!(validate_install_code(&governance, &vec![1, 2, 3]), Ok("Success".to_string()));
    assert_eq!(
        validate_install_code(&p(&[1]), &vec![]),
        Err("Only callable by SNS governance".to_string())
    );
}

#[test]
fn natural_numbers_convert_when_they_fit() {
    assert_eq!(nat_to_u128(&vec![]), Ok(0));
    assert_eq!(nat_to_u128(&vec![9]), Ok(9));
    assert_eq!(nat_to_u128(&vec![0, 1]), Ok(1u128 << 64));
    assert_eq!(nat_to_u128(&vec![u64::MAX, u64::MAX, 0]), Ok(u128::MAX));
    assert_eq!(
        nat_to_u128(&vec![0, 0, 1]),
        Err("out of range conversion regarding big integer attempted".to_string())
    );
}
