use canister_fleet::snapshot::{
    controller_rows, fetch_step, progress_percent, resume_offset, total_pages, work_offsets, CanisterRecord,
    FetchOutcome, FetchStep, PageCollector, CHECKPOINT_EVERY_N_PAGES, PAGE_SIZE,
};

#[test]
fn fetch_backs_off_on_rate_limits_and_server_errors() {
    assert!(fetch_step(0, FetchOutcome::Answered(200)) == FetchStep::DecodePage);
    assert!(fetch_step(0, FetchOutcome::Answered(429)) == FetchStep::SleepAndRetry(5));
    assert!(fetch_step(1, FetchOutcome::Answered(503)) == FetchStep::SleepAndRetry(10));
    assert!(fetch_step(3, FetchOutcome::Answered(429)) == FetchStep::SleepAndRetry(40));
    assert!(fetch_step(4, FetchOutcome::Answered(429)) == FetchStep::GiveUpAfter(80));
    assert!(fetch_step(0, FetchOutcome::Answered(404)) == FetchStep::SkipPage);
    assert!(fetch_step(2, FetchOutcome::NetworkError) == FetchStep::SleepAndRetry(5));
    assert!(fetch_step(4, FetchOutcome::NetworkError) == FetchStep::GiveUpAfter(5));
}

#[test]
fn pages_and_offsets() {
    assert_eq!(total_pages(0), 0);
    assert_eq!(total_pages(1), 1);
    assert_eq!(total_pages(100), 1);
    assert_eq!(total_pages(101), 2);
    assert_eq!(resume_offset(-1), None);
    assert_eq!(resume_offset(0), Some(PAGE_SIZE));
    assert_eq!(resume_offset(300), Some(400));
    assert_eq!(work_offsets(100, 3), vec![100, 200]);
    assert_eq!(work_offsets(300, 3), Vec::<usize>::new());
    assert_eq!(work_offsets(0, 2), vec![0, 100]);
    assert_eq!(progress_percent(3, 10), 30);
    assert_eq!(progress_percent(3, 0), 300);
}

fn record(id: &str, controllers: Option<Vec<&str>>) -> CanisterRecord {
    CanisterRecord {
        canister_id: id.to_string(),
        id: None,
        controllers: controllers.map(|cs| cs.into_iter().map(|c| c.to_string()).collect()),
        subnet_id: None,
        module_hash: None,
        name: None,
        language: None,
        canister_type: None,
        updated_at: None,
    }
}

#[test]
fn controller_rows_pair_each_canister_with_its_controllers() {
    let rows = controller_rows(&vec![
        record("a", Some(vec!["x", "y"])),
        record("b", None),
        record("c", Some(vec!["z"])),
    ]);
    let want: Vec<(String, String)> = vec![
        ("a".into(), "x".into()),
        ("a".into(), "y".into()),
        ("c".into(), "z".into()),
    ];
    assert_eq!(rows, want);
}

#[test]
fn collector_commits_in_offset_order_every_batch() {
    let mut c: PageCollector<u32> = PageCollector::new(PAGE_SIZE);
    let mut commit = None;
    for k in 0..CHECKPOINT_EVERY_N_PAGES {
        let offset = (CHECKPOINT_EVERY_N_PAGES - k) * PAGE_SIZE;
        let got = c.receive(offset, vec![offset as u32, offset as u32 + 1]);
        if k + 1 < CHECKPOINT_EVERY_N_PAGES {
            assert!(got.is_none());
        } else {
            commit = got;
        }
    }
    let commit = commit.unwrap();
    assert_eq!(commit.committed_pages, CHECKPOINT_EVERY_N_PAGES);
    assert_eq!(commit.checkpoint, CHECKPOINT_EVERY_N_PAGES * PAGE_SIZE);
    let mut expected = Vec::new();
    for k in 1..=CHECKPOINT_EVERY_N_PAGES {
        let o = (k * PAGE_SIZE) as u32;
        expected.push(o);
        expected.push(o + 1);
    }
    assert_eq!(commit.records, expected);
    assert!(c.pending.is_empty());
    assert!(c.flush().is_none());
    assert!(c.receive(1_200, vec![9]).is_none());
    assert!(c.receive(1_100, vec![8]).is_none());
    let last = c.flush().unwrap();
    assert_eq!(last.records, vec![8, 9]);
    assert_eq!(last.checkpoint, 1_200);
    assert_eq!(last.committed_pages, CHECKPOINT_EVERY_N_PAGES + 2);
}

#[test]
fn checkpoint_stops_below_a_missing_page_and_never_falls() {
    // A resumed run from offset 100: pages arrive as 1100, then 100..900,
    // and page 1000 only after the first commit.
    let mut c: PageCollector<u32> = PageCollector::new(PAGE_SIZE);
    assert_eq!(c.checkpoint, 0);
    let mut order = vec![1_100usize];
    order.extend((1..=9).map(|k| k * PAGE_SIZE));
    let mut first_commit = None;
    for o in order {
        if let Some(commit) = c.receive(o, vec![o as u32]) {
            first_commit = Some(commit);
        }
    }
    let first_commit = first_commit.unwrap();
    assert_eq!(first_commit.checkpoint, 900);
    assert!(c.receive(1_000, vec![1_000]).is_none());
    let last = c.flush().unwrap();
    assert_eq!(last.checkpoint, 1_100);
    assert!(last.checkpoint >= first_commit.checkpoint);
}

#[test]
fn an_empty_run_keeps_its_checkpoint() {
    let mut c: PageCollector<u32> = PageCollector::new(700);
    assert_eq!(c.checkpoint, 600);
    assert!(c.flush().is_none());
    assert_eq!(c.checkpoint, 600);
}
