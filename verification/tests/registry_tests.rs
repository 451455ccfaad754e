use canister_fleet::orchestrator::{
    bulk_decommission_started, collect_backup_guard, controlled_canister_details, controller_only_guard,
    decode_failure_message, get_decommission_status, get_version, reclaim_started, rejection_message,
    running_status_of, CanisterRunningStatus, ManagementCanisterStatus, OrchestratorState,
    FIRST_POST_CACHE_ID, FIRST_SUBNET_ORCHESTRATOR_ID, SECOND_SUBNET_ORCHESTRATOR_ID,
};
use canister_fleet::controllers::AUTHORIZED_CALLER_ID;
use canister_fleet::principal::Principal;
use canister_fleet::registry::PrincipalSet;

fn p(bytes: &[u8]) -> Principal {
    Principal::from_slice(bytes)
}

fn bytes(list: &[Principal]) -> Vec<Vec<u8>> {
    list.iter().map(|x| x.as_slice().to_vec()).collect()
}

fn set_of(items: &[&[u8]]) -> PrincipalSet {
    let mut s = PrincipalSet::new();
    for b in items {
        s.insert(p(b));
    }
    s
}

#[test]
fn insert_and_remove_report_membership_changes() {
    let mut s = PrincipalSet::new();
    assert!(s.insert(p(&[1])));
    assert!(!s.insert(p(&[1])));
    assert!(s.insert(p(&[2])));
    assert_eq!(s.len(), 2);
    assert_eq!(s.count(), 2);
    assert!(s.contains(&p(&[2])));
    assert!(s.remove(&p(&[1])));
    assert!(!s.remove(&p(&[1])));
    assert!(!s.contains(&p(&[1])));
    assert_eq!(s.len(), 1);
}

#[test]
fn extend_adds_each_principal_once() {
    let mut s = set_of(&[&[1]]);
    s.extend(vec![p(&[2]), p(&[1]), p(&[2]), p(&[3])]);
    assert_eq!(s.len(), 3);
    let mut m = bytes(&s.members());
    m.sort();
    assert_eq!(m, vec![vec![1], vec![2], vec![3]]);
}

#[test]
fn pop_first_takes_the_oldest_member() {
    let mut s = set_of(&[&[5], &[1], &[3]]);
    let first = s.pop_first().unwrap();
    assert_eq!(first.as_slice(), &[5]);
    assert_eq!(s.len(), 2);
    let mut empty = PrincipalSet::new();
    assert!(empty.pop_first().is_none());
}

#[test]
fn sorted_orders_by_length_then_bytes() {
    let s = set_of(&[&[2, 0], &[9], &[1, 5], &[1, 4], &[0]]);
    assert_eq!(bytes(&s.sorted()), vec![vec![0], vec![9], vec![1, 4], vec![1, 5], vec![2, 0]]);
}

#[test]
fn pages_cover_the_sorted_members() {
    let s = set_of(&[&[4], &[2], &[5], &[1], &[3]]);
    assert_eq!(bytes(&s.page(0, 2)), vec![vec![1], vec![2]]);
    assert_eq!(bytes(&s.page(2, 2)), vec![vec![3], vec![4]]);
    assert_eq!(bytes(&s.page(4, 2)), vec![vec![5]]);
    assert_eq!(bytes(&s.page(9, 2)), Vec::<Vec<u8>>::new());
    assert_eq!(bytes(&s.page(1, 0)), Vec::<Vec<u8>>::new());
    let mut all = bytes(&s.page(0, 2));
    all.extend(bytes(&s.page(2, 3)));
    assert_eq!(all, bytes(&s.page(0, 5)));
}

#[test]
fn sample_takes_at_most_the_limit() {
    let s = set_of(&[&[1], &[2], &[3]]);
    let two = s.sample(2);
    assert_eq!(two.len(), 2);
    assert!(!two[0].same_as(&two[1]));
    assert!(two.iter().all(|x| s.contains(x)));
    assert_eq!(s.sample(10).len(), 3);
}

#[test]
fn orchestrator_starts_with_its_two_subnets() {
    let st = OrchestratorState::init("v1".to_string()).ok().unwrap();
    assert_eq!(st.version, "v1");
    assert_eq!(st.subnet_orchestrators.len(), 2);
    assert!(st.subnet_orchestrators.contains(&Principal::from_text(FIRST_SUBNET_ORCHESTRATOR_ID).unwrap()));
    assert!(st.subnet_orchestrators_with_capacity.contains(&Principal::from_text(SECOND_SUBNET_ORCHESTRATOR_ID).unwrap()));
    assert!(st.post_cache_orchestrators.contains(&Principal::from_text(FIRST_POST_CACHE_ID).unwrap()));
    assert_eq!(st.get_controlled_canisters_count(), 0);
    assert_eq!(st.subnet_orchestrator_targets().len(), 2);
}

#[test]
fn fetched_canisters_become_controlled() {
    let mut st = OrchestratorState::init("v1".to_string()).ok().unwrap();
    let mut fetched: u64 = 0;
    st.record_fetched(&mut fetched, vec![p(&[3]), p(&[1])]);
    st.record_fetched(&mut fetched, vec![p(&[1]), p(&[2])]);
    assert_eq!(fetched, 4);
    assert_eq!(st.get_controlled_canisters_count(), 3);
    assert!(st.is_controlled_canister(&p(&[2])));
    assert!(!st.is_controlled_canister(&p(&[9])));
    assert_eq!(bytes(&st.get_controlled_canisters(1, 5)), vec![vec![2], vec![3]]);
}

#[test]
fn orchestrator_answers() {
    assert_eq!(get_version(), "v21");
    assert_eq!(reclaim_started(), "Success");
    assert_eq!(bulk_decommission_started(), "Started");
    let status = get_decommission_status();
    assert_eq!(status.completed_count, 0);
    assert_eq!(status.canisters_remaining.len(), 0);
    assert!(status.failed_canisters.is_empty());
    assert_eq!(rejection_message(4, "canister trapped"), "4: canister trapped");
    assert_eq!(decode_failure_message("bad"), "failed to decode canister_status reply from mgmt: bad");
    assert_eq!(controller_only_guard(false), Err("Unauthorized".to_string()));
    let actions = Principal::from_text(AUTHORIZED_CALLER_ID).unwrap();
    assert_eq!(collect_backup_guard(&actions), Ok(()));
    assert_eq!(collect_backup_guard(&p(&[1])), Err("Unauthorized".to_string()));
}

#[test]
fn canister_details_carry_the_converted_numbers() {
    let d = controlled_canister_details(vec![p(&[1])], Ok(500), Ok(20), ManagementCanisterStatus::Stopping)
        .ok()
        .unwrap();
    assert_eq!(d.cycle_balance, 500);
    assert_eq!(d.reserved_cycles, 20);
    assert_eq!(d.status, CanisterRunningStatus::Stopping);
    assert_eq!(bytes(&d.controllers), vec![vec![1]]);
    let e = controlled_canister_details(vec![], Err("too big".to_string()), Err("other".to_string()), ManagementCanisterStatus::Running);
    assert_eq!(e.err().unwrap(), "too big");
    let e = controlled_canister_details(vec![], Ok(1), Err("other".to_string()), ManagementCanisterStatus::Running);
    assert_eq!(e.err().unwrap(), "other");
    assert_eq!(running_status_of(ManagementCanisterStatus::Stopped), CanisterRunningStatus::Stopped);
}

#[test]
fn pages_take_start_and_limit_as_whole_numbers() {
    let s = set_of(&[&[1], &[2], &[3]]);
    assert!(s.page(u64::MAX, 5).is_empty());
    assert!(s.page(1u64 << 32, 5).is_empty());
    assert_eq!(bytes(&s.page(1, u64::MAX)), vec![vec![2], vec![3]]);
}

#[test]
fn controlled_canister_pages_fit_together() {
    let mut st = OrchestratorState::init("v1".to_string()).ok().unwrap();
    let mut fetched: u64 = 0;
    st.record_fetched(&mut fetched, vec![p(&[5]), p(&[2]), p(&[9]), p(&[1])]);
    let mut joined = bytes(&st.get_controlled_canisters(0, 2));
    joined.extend(bytes(&st.get_controlled_canisters(2, 3)));
    assert_eq!(joined, bytes(&st.get_controlled_canisters(0, 5)));
    let count = st.get_controlled_canisters_count();
    let whole = st.get_controlled_canisters(0, count);
    assert_eq!(whole.len() as u64, count);
    for c in &whole {
        assert!(st.is_controlled_canister(c));
    }
    assert_eq!(bytes(&whole), vec![vec![1], vec![2], vec![5], vec![9]]);
    assert!(st.get_controlled_canisters(1u64 << 32, 1).is_empty());
}
