use canister_fleet::principal::Principal;
use canister_fleet::types::IndividualUserTemplateInitArgs;
use canister_fleet::types::UpgradeStatus;
use canister_fleet::user_index::{
    check_cycles, individual_canister_details, recharge_result, CyclesCheck, ProvisioningLimits, RequesterAction,
    RewardNotice, SignupAction, UserCanisterMap, UserIndexState,
};

fn p(bytes: &[u8]) -> Principal {
    Principal::from_slice(bytes)
}

fn limits() -> ProvisioningLimits {
    ProvisioningLimits { max_capacity: 10, available_threshold: 5, available_batch: 2, backup_threshold: 3, backup_batch: 4 }
}

#[test]
fn user_map_replaces_a_users_canister() {
    let mut m = UserCanisterMap::new();
    m.insert(p(&[1]), p(&[10]));
    m.insert(p(&[2]), p(&[20]));
    m.insert(p(&[1]), p(&[11]));
    assert_eq!(m.len(), 2);
    assert_eq!(m.get(&p(&[1])).unwrap().as_slice(), &[11]);
    assert!(m.get(&p(&[3])).is_none());
}

#[test]
fn signup_takes_an_available_canister_and_records_the_owner() {
    let mut st = UserIndexState::new(true, Some(p(&[99])));
    st.available_canisters.insert(p(&[50]));
    st.backup_canister_pool.insert(p(&[60]));
    let user = p(&[1]);
    let canister = match st.begin_signup(&user, limits()) {
        SignupAction::SetOwner { canister } => canister,
        _ => panic!("expected the owner to be set"),
    };
    assert_eq!(canister.as_slice(), &[50]);
    assert_eq!(st.available_canisters.len(), 0);
    let canister = match st.owner_set(&user, canister, Ok(())) {
        SignupAction::SetSessionType { canister } => canister,
        _ => panic!("expected the session type to be set"),
    };
    assert_eq!(st.users.get(&user).unwrap().as_slice(), &[50]);
    match st.session_set(canister, Ok(()), limits()) {
        SignupAction::Finish(f) => {
            assert_eq!(f.response.unwrap().as_slice(), &[50]);
            assert!(f.notify_maxed_out.is_none());
            // One user, below the threshold of five: a batch of at most the
            // one backup canister.
            assert_eq!(f.provision_available, Some(1));
            // Two canisters in all, one backup below the threshold of three:
            // a batch of four.
            assert_eq!(f.provision_backup, Some(4));
        }
        _ => panic!("expected the signup to finish"),
    }
    match st.begin_signup(&user, limits()) {
        SignupAction::Reply(Ok(c)) => assert_eq!(c.as_slice(), &[50]),
        _ => panic!("expected the existing canister"),
    }
}

#[test]
fn signups_closed_and_nothing_available() {
    let mut closed = UserIndexState::new(false, None);
    match closed.begin_signup(&p(&[1]), limits()) {
        SignupAction::Reply(Err(e)) => assert_eq!(e, "Signups closed on this subnet"),
        _ => panic!("expected a refusal"),
    }
    let mut empty = UserIndexState::new(true, None);
    match empty.begin_signup(&p(&[1]), limits()) {
        SignupAction::Finish(f) => {
            assert_eq!(f.response.err().unwrap(), "Not Available");
            assert!(f.notify_maxed_out.is_none());
            assert_eq!(f.provision_available, Some(0));
            assert_eq!(f.provision_backup, Some(4));
        }
        _ => panic!("expected the signup to finish"),
    }
}

#[test]
fn a_full_subnet_tells_the_orchestrator() {
    let mut st = UserIndexState::new(true, None);
    let small = ProvisioningLimits { max_capacity: 1, available_threshold: 0, available_batch: 2, backup_threshold: 0, backup_batch: 1 };
    st.users.insert(p(&[1]), p(&[11]));
    st.users.insert(p(&[2]), p(&[12]));
    match st.begin_signup(&p(&[3]), small) {
        SignupAction::Finish(f) => {
            assert_eq!(f.notify_maxed_out.unwrap().as_slice(), &[4]);
            assert_eq!(f.provision_available, None);
            assert_eq!(f.provision_backup, None);
        }
        _ => panic!("expected the signup to finish"),
    }
}

#[test]
fn failed_owner_update_is_answered() {
    let mut st = UserIndexState::new(true, None);
    match st.owner_set(&p(&[1]), p(&[2]), Err("rejected".to_string())) {
        SignupAction::Reply(Err(e)) => assert_eq!(e, "rejected"),
        _ => panic!("expected the rejection"),
    }
    assert!(st.users.get(&p(&[1])).is_none());
}

#[test]
fn requesters_and_rewards() {
    let mut st = UserIndexState::new(true, None);
    st.users.insert(p(&[1]), p(&[11]));
    assert!(matches!(st.requester_action(&Principal::anonymous()), RequesterAction::Trap(ref m) if m == "Anonymous principal is not allowed to call this method"));
    assert!(matches!(st.requester_action(&p(&[1])), RequesterAction::Existing(ref c) if c.as_slice() == [11]));
    assert!(matches!(st.requester_action(&p(&[2])), RequesterAction::SignUp));
    let rewards = st.signup_rewards(&p(&[2]), Some(p(&[1])), &p(&[12]));
    assert_eq!(rewards.len(), 3);
    assert!(matches!(&rewards[0], RewardNotice::SigningUp { canister } if canister.as_slice() == [12]));
    assert!(matches!(&rewards[1], RewardNotice::Referral { canister, referrer, referee }
        if canister.as_slice() == [11] && referrer.as_slice() == [1] && referee.as_slice() == [2]));
    assert!(matches!(&rewards[2], RewardNotice::Referral { canister, .. } if canister.as_slice() == [12]));
    assert_eq!(st.signup_rewards(&p(&[2]), Some(p(&[7])), &p(&[12])).len(), 1);
    assert_eq!(st.signup_rewards(&p(&[2]), None, &p(&[12])).len(), 1);
}

#[test]
fn backup_pool_moves() {
    let mut st = UserIndexState::new(true, None);
    st.backup_created(p(&[1]));
    st.backup_created(p(&[2]));
    assert!(st.enough_backup(1));
    assert!(!st.enough_backup(2));
    let picked = st.backup_candidates(1);
    assert_eq!(picked.len(), 1);
    st.backup_became_available(picked[0].duplicate());
    assert_eq!(st.backup_canister_pool.len(), 1);
    assert!(st.available_canisters.contains(&picked[0]));
    assert!(st.enough_available(1));
    assert!(!st.enough_available(2));
    assert_eq!(st.get_backup_canister_sample(5).len(), 1);
    assert_eq!(st.get_backup_canister_sample(0).len(), 0);
}

#[test]
fn cycles_checks_and_recharges() {
    assert!(matches!(check_cycles(100, 50, &None), CyclesCheck::Enough));
    assert!(matches!(check_cycles(10, 50, &Some(p(&[9]))), CyclesCheck::Request(ref po) if po.as_slice() == [9]));
    assert!(matches!(check_cycles(10, 50, &None), CyclesCheck::Failed(ref m) if m == "Platform orchestrator canister id not found"));
    assert_eq!(recharge_result(Ok(Ok(()))), Ok(()));
    assert_eq!(recharge_result(Ok(Err("no".to_string()))), Err("no".to_string()));
    assert_eq!(recharge_result(Err("rejected".to_string())), Err("rejected".to_string()));
    let d = individual_canister_details(vec![p(&[1])], Ok(77)).ok().unwrap();
    assert_eq!(d.cycle_balance, 77);
    assert_eq!(individual_canister_details(vec![], Err("overflow".to_string())).err().unwrap(), "overflow");
}

#[test]
fn init_args_and_upgrade_status() {
    let args = IndividualUserTemplateInitArgs::new(p(&[5]));
    assert_eq!(args.profile_owner.unwrap().as_slice(), &[5]);
    assert_eq!(args.upgrade_version_number, Some(0));
    let known = args.known_principal_ids.unwrap();
    assert!(known.get(canister_fleet::types::KnownPrincipalType::CanisterIdUserIndex).is_none());
    let s = UpgradeStatus::new();
    assert_eq!(s.version, "");
    assert_eq!(s.successful_upgrades, 0);
    assert_eq!(s.failed_upgrades, 0);
}

#[test]
fn a_full_subnet_tells_the_known_orchestrator() {
    let mut st = UserIndexState::new(true, Some(p(&[77])));
    let small = ProvisioningLimits { max_capacity: 0, available_threshold: 0, available_batch: 0, backup_threshold: 0, backup_batch: 0 };
    st.users.insert(p(&[1]), p(&[11]));
    match st.begin_signup(&p(&[3]), small) {
        SignupAction::Finish(f) => assert_eq!(f.notify_maxed_out.unwrap().as_slice(), &[77]),
        _ => panic!("expected the signup to finish"),
    }
}
