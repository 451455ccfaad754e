use canister_fleet::harvest::{
    check_added_controller, harvest_completed, is_controller_only_error, is_controller_ownership_error,
    is_not_found_error, is_out_of_cycles_error, is_user_principal, next_reserve, recovery_candidates,
    recovery_depth_allowed, top_up_needed, cycles_from_digits, open_recovery, after_parent_failure, ControllerCheck,
    ParentFailure, RecoveryOpening, ReserveDecision, ReturnAttempt, FIRST_RESERVE, MAX_PARENT_RECOVERY_DEPTH,
    MAX_RESERVE, MIN_REINSTALL_BALANCE, RESERVE_STEP, TOP_UP_AMOUNT,
};
use canister_fleet::principal::Principal;
use canister_fleet::registry::PrincipalSet;

fn p(bytes: &[u8]) -> Principal {
    Principal::from_slice(bytes)
}

#[test]
fn controller_only_rejections_are_recognised() {
    assert!(is_controller_only_error(
        "IC0512: Only the controllers of the canister rrkah-fqaaa-aaaaa-aaaaq-cai can control it."
    ));
    assert!(is_controller_only_error("please add the current caller as a controller"));
    assert!(!is_controller_only_error("IC0503: canister trapped"));
}

#[test]
fn ownership_errors_include_failed_controller_steps() {
    assert!(is_controller_ownership_error("add_our_identity_as_controller failed: boom"));
    assert!(is_controller_ownership_error("principal is not a controller"));
    assert!(is_controller_ownership_error("setting controller xyz failed"));
    assert!(!is_controller_ownership_error("controller list read"));
    assert!(!is_controller_ownership_error("network failed"));
}

#[test]
fn out_of_cycles_errors_ignore_case() {
    assert!(is_out_of_cycles_error("Canister is OUT OF CYCLES"));
    assert!(is_out_of_cycles_error("IC0504: insufficient"));
    assert!(is_out_of_cycles_error("ran out: not enough cycles"));
    assert!(is_out_of_cycles_error("Couldn't send message"));
    assert!(!is_out_of_cycles_error("canister trapped"));
}

#[test]
fn not_found_errors() {
    assert!(is_not_found_error("Canister not found"));
    assert!(is_not_found_error("IC0301: canister_not_found"));
    assert!(is_not_found_error("canister does not exist"));
    assert!(!is_not_found_error("Canister trapped"));
}

#[test]
fn user_principals_have_long_text() {
    let user = Principal::self_authenticating(&[1]);
    assert!(is_user_principal(&user));
    let canister = Principal::from_text("rrkah-fqaaa-aaaaa-aaaaq-cai").unwrap();
    assert!(!is_user_principal(&canister));
}

#[test]
fn the_reserve_grows_until_its_maximum() {
    assert!(next_reserve(FIRST_RESERVE, ReturnAttempt::Transferred(42)) == ReserveDecision::Stop(42));
    assert!(next_reserve(FIRST_RESERVE, ReturnAttempt::Failed) == ReserveDecision::Stop(0));
    assert!(next_reserve(FIRST_RESERVE, ReturnAttempt::OutOfCycles) == ReserveDecision::Retry(FIRST_RESERVE + RESERVE_STEP));
    assert!(next_reserve(MAX_RESERVE - RESERVE_STEP, ReturnAttempt::OutOfCycles) == ReserveDecision::Retry(MAX_RESERVE));
    assert!(next_reserve(MAX_RESERVE, ReturnAttempt::OutOfCycles) == ReserveDecision::Stop(0));
}

#[test]
fn retries_from_the_first_reserve_are_bounded() {
    let mut reserve = FIRST_RESERVE;
    let mut attempts = 1;
    loop {
        match next_reserve(reserve, ReturnAttempt::OutOfCycles) {
            ReserveDecision::Retry(r) => {
                reserve = r;
                attempts += 1;
            }
            ReserveDecision::Stop(n) => {
                assert_eq!(n, 0);
                break;
            }
        }
    }
    assert_eq!(attempts, 6);
    assert_eq!(reserve, MAX_RESERVE);
}

#[test]
fn top_up_below_the_reinstall_minimum() {
    assert_eq!(top_up_needed(MIN_REINSTALL_BALANCE - 1), Some(TOP_UP_AMOUNT));
    assert_eq!(top_up_needed(MIN_REINSTALL_BALANCE), None);
}

#[test]
fn added_controller_checks() {
    let actions = p(&[8]);
    assert!(matches!(check_added_controller(Ok(vec![p(&[1]), p(&[8])]), &actions), ControllerCheck::Confirmed));
    assert!(matches!(check_added_controller(Ok(vec![p(&[1])]), &actions), ControllerCheck::Missing));
    assert!(matches!(check_added_controller(Err("Canister not found".to_string()), &actions), ControllerCheck::Skipped));
    match check_added_controller(Err("trap".to_string()), &actions) {
        ControllerCheck::Failed(m) => assert_eq!(m, "trap"),
        _ => panic!("expected a failure"),
    }
}

#[test]
fn harvest_ends_with_the_orchestrator_alone() {
    assert!(harvest_completed(&vec![p(&[1])], &p(&[1])));
    assert!(!harvest_completed(&vec![p(&[1]), p(&[2])], &p(&[1])));
}

#[test]
fn recovery_skips_users_and_visited_parents() {
    let user = Principal::self_authenticating(&[3]);
    let a = Principal::from_text("rrkah-fqaaa-aaaaa-aaaaq-cai").unwrap();
    let b = Principal::from_text("ryjl3-tyaaa-aaaaa-aaaba-cai").unwrap();
    let mut visited = PrincipalSet::new();
    visited.insert(a.duplicate());
    let found = recovery_candidates(&vec![user, a, b.duplicate()], &visited);
    assert_eq!(found.len(), 1);
    assert!(found[0].same_as(&b));
    assert!(recovery_depth_allowed(0));
    assert!(recovery_depth_allowed(4));
    assert!(!recovery_depth_allowed(5));
}

#[test]
fn cycle_counts_from_their_digits() {
    assert_eq!(cycles_from_digits(&vec![]), 0);
    assert_eq!(cycles_from_digits(&vec![5]), 5);
    assert_eq!(cycles_from_digits(&vec![1, 1]), (1u128 << 64) + 1);
    assert_eq!(cycles_from_digits(&vec![7, 0, 0]), 7);
    assert_eq!(cycles_from_digits(&vec![u64::MAX, u64::MAX]), u128::MAX);
    // Past 128 bits the digits are folded in the order given.
    assert_eq!(cycles_from_digits(&vec![1, 2, 3]), (2u128 << 64) + 3);
}

#[test]
fn recovery_opens_in_the_order_of_its_checks() {
    let actions = p(&[7]);
    let user = p(&[9; 29]);
    let mut visited = PrincipalSet::new();
    visited.insert(p(&[2]));
    let controllers = vec![p(&[1]), p(&[2]), user.duplicate(), p(&[3])];
    assert!(matches!(open_recovery(MAX_PARENT_RECOVERY_DEPTH, &controllers, &actions, &visited), RecoveryOpening::DepthLimit));
    assert!(matches!(open_recovery(0, &vec![], &actions, &visited), RecoveryOpening::NoControllers));
    let with_actions = vec![p(&[1]), actions.duplicate()];
    assert!(matches!(open_recovery(1, &with_actions, &actions, &visited), RecoveryOpening::HarvestDirectly));
    assert!(matches!(open_recovery(1, &vec![p(&[2]), user], &actions, &visited), RecoveryOpening::NoUnvisitedParents));
    match open_recovery(4, &controllers, &actions, &visited) {
        RecoveryOpening::TryParents(ps) => {
            let got: Vec<Vec<u8>> = ps.iter().map(|x| x.as_slice().to_vec()).collect();
            assert_eq!(got, vec![vec![1], vec![3]]);
        }
        _ => panic!("parents expected"),
    }
}

#[test]
fn ownership_failures_recover_one_level_up() {
    assert_eq!(after_parent_failure("add_our_identity_as_controller failed: denied", 2), ParentFailure::RecurseAt(3));
    assert_eq!(after_parent_failure("install_code failed: trapped", 2), ParentFailure::MoveOn);
}
