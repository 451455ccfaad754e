//! The IC canister snapshot: paging through the dashboard API with retries,
//! resuming from a checkpoint, and committing pages in batches.
use vstd::prelude::*;

verus! {

/// Largest page the dashboard API accepts.
pub const PAGE_SIZE: usize = 100;
/// How many pages are fetched at once.
pub const NUM_WORKERS: usize = 16;
/// Pages received between two commits.
pub const CHECKPOINT_EVERY_N_PAGES: usize = 10;
/// First back-off delay, in seconds; it doubles with each attempt.
pub const RETRY_SLEEP_SECS: u64 = 5;
/// Attempts per page.
pub const MAX_RETRIES: usize = 5;

/// One canister as the dashboard API lists it.
pub struct CanisterRecord {
    pub canister_id: String,
    /// The dashboard's row number (not the principal).
    pub id: Option<i64>,
    pub controllers: Option<Vec<String>>,
    pub subnet_id: Option<String>,
    pub module_hash: Option<String>,
    pub name: Option<String>,
    pub language: Option<String>,
    pub canister_type: Option<String>,
    pub updated_at: Option<String>,
}

/// The metadata row of one canister in the snapshot database.
pub struct CanisterInfo {
    pub canister_id: String,
    pub api_id: Option<i64>,
    pub subnet_id: Option<String>,
    pub module_hash: Option<String>,
    pub language: Option<String>,
    pub updated_at: Option<String>,
}

/// What came of one request for a page.
pub enum FetchOutcome {
    /// The server answered with this HTTP status code.
    Answered(u16),
    /// The request failed before any answer.
    NetworkError,
}

/// What the fetcher does next.
#[derive(PartialEq, Eq, Structural)]
pub enum FetchStep {
    /// Decode the answer as the page.
    DecodePage,
    /// Sleep this many seconds, then try again.
    SleepAndRetry(u64),
    /// Give up on this page and treat it as empty.
    SkipPage,
    /// Sleep this many seconds, then give up: fail with the last network
    /// error (the runner has none to report when only rate limits and server
    /// errors were seen, and then it panics).
    GiveUpAfter(u64),
}

/// HTTP 2xx.
pub open spec fn is_success(status: u16) -> bool {
    200 <= status <= 299
}

/// HTTP 5xx.
pub open spec fn is_server_error(status: u16) -> bool {
    500 <= status <= 599
}

/// `base` raised to `e`.
pub open spec fn pow(base: nat, e: nat) -> nat
    decreases e,
{
    if e == 0 { 1 } else { base * pow(base, (e - 1) as nat) }
}

/// After a failed attempt: sleep `secs`, then try again, or give up once
/// `MAX_RETRIES` attempts were made.
pub open spec fn back_off(attempt: nat, secs: u64) -> FetchStep {
    if attempt + 1 < MAX_RETRIES {
        FetchStep::SleepAndRetry(secs)
    } else {
        FetchStep::GiveUpAfter(secs)
    }
}

/// The decision after attempt number `attempt` (from 0): decode a success;
/// back off `RETRY_SLEEP_SECS * 2^attempt` seconds after a rate limit (429)
/// or a server error; skip the page on any other status; wait
/// `RETRY_SLEEP_SECS` after a network error; give up after `MAX_RETRIES`
/// attempts (still sleeping after the last one).
pub open spec fn fetch_decision(attempt: nat, outcome: FetchOutcome) -> FetchStep {
    match outcome {
        FetchOutcome::Answered(status) => if is_success(status) {
            FetchStep::DecodePage
        } else if status == 429 || is_server_error(status) {
            back_off(attempt, (RETRY_SLEEP_SECS * pow(2, attempt)) as u64)
        } else {
            FetchStep::SkipPage
        },
        FetchOutcome::NetworkError => back_off(attempt, RETRY_SLEEP_SECS),
    }
}

/// The next step of fetching a page after attempt `attempt`.
pub fn fetch_step(attempt: usize, outcome: FetchOutcome) -> (r: FetchStep)
    requires
        attempt < MAX_RETRIES,
    ensures
        r == fetch_decision(attempt as nat, outcome),
{
    match outcome {
        FetchOutcome::Answered(status) => {
            if 200 <= status && status <= 299 {
                FetchStep::DecodePage
            } else if status == 429 || (500 <= status && status <= 599) {
                {
                    let mut factor: u64 = 1;
                    let mut k: usize = 0;
                    while k < attempt
                        invariant
                            k <= attempt < MAX_RETRIES,
                            factor == pow(2, k as nat),
                            factor <= 16,
                        decreases attempt - k,
                    {
                        proof {
                            reveal_with_fuel(pow, 5);
                            assert(pow(2, (k + 1) as nat) == 2 * pow(2, k as nat));
                            if k == 0 { assert(factor == 1); } else if k == 1 { assert(factor == 2); }
                            else if k == 2 { assert(factor == 4); } else { assert(factor == 8); }
                        }
                        factor = factor * 2;
                        k = k + 1;
                    }
                    let secs = RETRY_SLEEP_SECS * factor;
                    if attempt + 1 < MAX_RETRIES {
                        FetchStep::SleepAndRetry(secs)
                    } else {
                        FetchStep::GiveUpAfter(secs)
                    }
                }
            } else {
                FetchStep::SkipPage
            }
        },
        FetchOutcome::NetworkError => {
            if attempt + 1 < MAX_RETRIES {
                FetchStep::SleepAndRetry(RETRY_SLEEP_SECS)
            } else {
                FetchStep::GiveUpAfter(RETRY_SLEEP_SECS)
            }
        },
    }
}

/// A page is asked for at most `MAX_RETRIES` times, and the back-off after
/// a rate limit or a server error doubles with each attempt, the last one
/// included.
pub proof fn law_fetch_backoff(attempt: nat, status: u16)
    requires
        attempt + 1 < MAX_RETRIES,
        status == 429 || is_server_error(status),
    ensures
        fetch_decision(attempt, FetchOutcome::Answered(status)) == FetchStep::SleepAndRetry((RETRY_SLEEP_SECS * pow(2, attempt)) as u64),
        fetch_decision((MAX_RETRIES - 1) as nat, FetchOutcome::Answered(status))
            == FetchStep::GiveUpAfter((RETRY_SLEEP_SECS * pow(2, (MAX_RETRIES - 1) as nat)) as u64),
        fetch_decision((MAX_RETRIES - 1) as nat, FetchOutcome::NetworkError) == FetchStep::GiveUpAfter(RETRY_SLEEP_SECS),
{
}

/// The number of pages that hold `total` canisters (rounded up).
pub open spec fn page_count(total: nat) -> nat {
    ((total + PAGE_SIZE - 1) as nat) / (PAGE_SIZE as nat)
}

/// The number of pages for `total_canisters` (the API's count, taken as a
/// `usize`).
pub fn total_pages(total_canisters: u64) -> (r: usize)
    requires
        (total_canisters as usize) + PAGE_SIZE <= usize::MAX,
    ensures
        r == page_count((total_canisters as usize) as nat),
{
    let total = total_canisters as usize;
    (total + PAGE_SIZE - 1) / PAGE_SIZE
}

/// Where to resume from a checkpoint: the page after the last committed one,
/// or `None` when nothing was committed yet (the first page is then
/// committed from the count request, and the run starts at the second).
pub fn resume_offset(checkpoint: i64) -> (r: Option<usize>)
    requires
        checkpoint >= 0 ==> (checkpoint as usize) + PAGE_SIZE <= usize::MAX,
    ensures
        checkpoint >= 0 ==> r == Some(((checkpoint as usize) + PAGE_SIZE) as usize),
        checkpoint < 0 ==> r is None,
{
    if checkpoint >= 0 {
        Some(checkpoint as usize + PAGE_SIZE)
    } else {
        None
    }
}

/// The offsets still to fetch: from `start` up to the end of the last page,
/// one page apart.
pub open spec fn work_offsets_spec(start: nat, pages: nat) -> Seq<nat>
    decreases if start < pages * PAGE_SIZE { pages * PAGE_SIZE - start } else { 0 },
{
    if start < pages * PAGE_SIZE {
        seq![start] + work_offsets_spec((start + PAGE_SIZE) as nat, pages)
    } else {
        Seq::empty()
    }
}

/// The offsets still to fetch (none when `start` is past the last page).
pub fn work_offsets(start: usize, pages: usize) -> (r: Vec<usize>)
    requires
        pages * PAGE_SIZE + PAGE_SIZE <= usize::MAX,
    ensures
        r@.map_values(|o: usize| o as nat) == work_offsets_spec(start as nat, pages as nat),
{
    let end = pages * PAGE_SIZE;
    let mut out: Vec<usize> = Vec::new();
    let mut o = start;
    let ghost prefix: Seq<nat> = Seq::empty();
    while o < end
        invariant
            end == pages * PAGE_SIZE,
            end + PAGE_SIZE <= usize::MAX,
            out@.map_values(|x: usize| x as nat) + work_offsets_spec(o as nat, pages as nat)
                == work_offsets_spec(start as nat, pages as nat),
        decreases end + PAGE_SIZE - o,
    {
        proof {
            let a = out@.map_values(|x: usize| x as nat);
            assert(out@.push(o).map_values(|x: usize| x as nat) =~= a.push(o as nat));
            assert(work_offsets_spec(o as nat, pages as nat) == seq![o as nat] + work_offsets_spec((o + PAGE_SIZE) as nat, pages as nat));
            assert(a.push(o as nat) + work_offsets_spec((o + PAGE_SIZE) as nat, pages as nat)
                =~= a + (seq![o as nat] + work_offsets_spec((o + PAGE_SIZE) as nat, pages as nat)));
        }
        out.push(o);
        o = o + PAGE_SIZE;
    }
    proof {
        assert(work_offsets_spec(o as nat, pages as nat) == Seq::<nat>::empty());
        assert(out@.map_values(|x: usize| x as nat) + Seq::<nat>::empty() =~= out@.map_values(|x: usize| x as nat));
    }
    out
}

proof fn lemma_work_offsets_range(start: nat, pages: nat)
    ensures
        forall|k: int| 0 <= k < work_offsets_spec(start, pages).len() ==>
            #[trigger] work_offsets_spec(start, pages)[k] == start + k * PAGE_SIZE
            && work_offsets_spec(start, pages)[k] < pages * PAGE_SIZE,
    decreases if start < pages * PAGE_SIZE { pages * PAGE_SIZE - start } else { 0 },
{
    if start < pages * PAGE_SIZE {
        let next = (start + PAGE_SIZE) as nat;
        lemma_work_offsets_range(next, pages);
        let w = work_offsets_spec(start, pages);
        let rest = work_offsets_spec(next, pages);
        assert(w == seq![start] + rest);
        assert forall|k: int| 0 <= k < w.len() implies #[trigger] w[k] == start + k * PAGE_SIZE && w[k] < pages * PAGE_SIZE by {
            if k > 0 {
                assert(w[k] == rest[k - 1]);
            }
        }
    }
}

proof fn lemma_work_offsets_complete(start: nat, pages: nat, o: nat)
    requires
        start <= o < pages * PAGE_SIZE,
        (o - start) % (PAGE_SIZE as int) == 0,
    ensures
        work_offsets_spec(start, pages).contains(o),
    decreases o - start,
{
    let w = work_offsets_spec(start, pages);
    let next = (start + PAGE_SIZE) as nat;
    let rest = work_offsets_spec(next, pages);
    assert(w == seq![start] + rest);
    if o == start {
        assert(w[0] == o);
    } else {
        assert(o >= next);
        lemma_work_offsets_complete(next, pages, o);
        let k = choose|k: int| 0 <= k < rest.len() && rest[k] == o;
        assert(w[k + 1] == o);
    }
}

/// A resumed run fetches only pages after the checkpoint, each once, and
/// every page after it up to the last; past the last page it fetches
/// nothing.
pub proof fn law_resume_skips_committed(checkpoint: nat, pages: nat)
    ensures
        forall|k: int| 0 <= k < work_offsets_spec((checkpoint + PAGE_SIZE) as nat, pages).len() ==>
            checkpoint < #[trigger] work_offsets_spec((checkpoint + PAGE_SIZE) as nat, pages)[k] < pages * PAGE_SIZE,
        work_offsets_spec((checkpoint + PAGE_SIZE) as nat, pages).no_duplicates(),
        forall|o: nat| checkpoint < o < pages * PAGE_SIZE && (o - checkpoint) % (PAGE_SIZE as int) == 0
            ==> #[trigger] work_offsets_spec((checkpoint + PAGE_SIZE) as nat, pages).contains(o),
        checkpoint + PAGE_SIZE >= pages * PAGE_SIZE ==> work_offsets_spec((checkpoint + PAGE_SIZE) as nat, pages).len() == 0,
{
    let start = (checkpoint + PAGE_SIZE) as nat;
    lemma_work_offsets_range(start, pages);
    let w = work_offsets_spec(start, pages);
    assert forall|i: int, j: int| 0 <= i < w.len() && 0 <= j < w.len() && i != j implies w[i] != w[j] by {
        assert(w[i] == start + i * PAGE_SIZE);
        assert(w[j] == start + j * PAGE_SIZE);
    }
    assert forall|o: nat| checkpoint < o < pages * PAGE_SIZE && (o - checkpoint) % (PAGE_SIZE as int) == 0
        implies #[trigger] w.contains(o) by {
        assert(o >= start);
        lemma_work_offsets_complete(start, pages, o);
    }
}

/// A resumed run loses no page: with a sound checkpoint, every page of the
/// run is either committed (at or below the checkpoint) or fetched again
/// when the run resumes after the checkpoint.
pub proof fn law_resumed_run_loses_no_page(first: nat, checkpoint: int, committed: Set<int>, pages: nat)
    requires
        first >= PAGE_SIZE,
        (first as int) % (PAGE_SIZE as int) == 0,
        checkpoint_sound(first as int, checkpoint, committed),
    ensures
        forall|o: nat| first <= o < pages * PAGE_SIZE && (o as int) % (PAGE_SIZE as int) == 0
            ==> (o <= checkpoint && #[trigger] committed.contains(o as int))
                || work_offsets_spec((checkpoint + PAGE_SIZE) as nat, pages).contains(o),
{
    assert(checkpoint >= 0);
    law_resume_skips_committed(checkpoint as nat, pages);
    assert forall|o: nat| first <= o < pages * PAGE_SIZE && (o as int) % (PAGE_SIZE as int) == 0
        implies (o <= checkpoint && #[trigger] committed.contains(o as int))
            || work_offsets_spec((checkpoint + PAGE_SIZE) as nat, pages).contains(o) by {
        if o <= checkpoint {
            assert((o - first) % (PAGE_SIZE as int) == 0);
            assert(committed.contains(o as int));
        } else {
            assert((o - checkpoint) % (PAGE_SIZE as int) == 0);
        }
    }
}

/// A run that committed every page of its range, and nothing past it, ends
/// with the checkpoint at the last page.
pub proof fn law_full_run_reaches_last(first: nat, checkpoint: int, committed: Set<int>, pages: nat)
    requires
        first >= PAGE_SIZE,
        (first as int) % (PAGE_SIZE as int) == 0,
        first <= pages * PAGE_SIZE,
        checkpoint_sound(first as int, checkpoint, committed),
        forall|o: int| first <= o < pages * PAGE_SIZE && o % (PAGE_SIZE as int) == 0 ==> #[trigger] committed.contains(o),
        forall|o: int| #[trigger] committed.contains(o) ==> o < pages * PAGE_SIZE,
    ensures
        checkpoint == pages * PAGE_SIZE - PAGE_SIZE,
{
    assert(checkpoint % (PAGE_SIZE as int) == 0);
    if checkpoint + PAGE_SIZE < pages * PAGE_SIZE {
        assert(committed.contains(checkpoint + PAGE_SIZE));
    }
    if checkpoint >= first {
        assert(committed.contains(checkpoint));
    }
}

/// The rows a batch of records adds to the controllers table: one
/// `(canister, controller)` pair per listed controller, record by record.
pub open spec fn controller_rows_spec(records: Seq<(Seq<char>, Seq<Seq<char>>)>) -> Seq<(Seq<char>, Seq<char>)>
    decreases records.len(),
{
    if records.len() == 0 {
        Seq::empty()
    } else {
        controller_rows_spec(records.drop_last())
            + records.last().1.map_values(|c: Seq<char>| (records.last().0, c))
    }
}

/// A record's canister id with its controllers (none when it lists none).
pub open spec fn record_controllers(r: CanisterRecord) -> (Seq<char>, Seq<Seq<char>>) {
    (r.canister_id@, match r.controllers {
        Some(cs) => cs@.map_values(|c: String| c@),
        None => Seq::empty(),
    })
}

/// The controller rows of a batch of records.
pub fn controller_rows(records: &Vec<CanisterRecord>) -> (r: Vec<(String, String)>)
    ensures
        r@.map_values(|p: (String, String)| (p.0@, p.1@))
            == controller_rows_spec(records@.map_values(|x: CanisterRecord| record_controllers(x))),
{
    let ghost view = |p: (String, String)| (p.0@, p.1@);
    let ghost recs = records@.map_values(|x: CanisterRecord| record_controllers(x));
    let mut out: Vec<(String, String)> = Vec::new();
    let mut i: usize = 0;
    while i < records.len()
        invariant
            i <= records@.len(),
            recs == records@.map_values(|x: CanisterRecord| record_controllers(x)),
            out@.map_values(|p: (String, String)| (p.0@, p.1@)) == controller_rows_spec(recs.take(i as int)),
        decreases records@.len() - i,
    {
        let rec = &records[i];
        let ghost before = out@.map_values(|p: (String, String)| (p.0@, p.1@));
        let ghost cs = recs[i as int].1;
        match &rec.controllers {
            Some(controllers) => {
                let mut j: usize = 0;
                while j < controllers.len()
                    invariant
                        j <= controllers@.len(),
                        cs == controllers@.map_values(|c: String| c@),
                        out@.map_values(|p: (String, String)| (p.0@, p.1@))
                            == before + cs.take(j as int).map_values(|c: Seq<char>| (rec.canister_id@, c)),
                    decreases controllers@.len() - j,
                {
                    let row = (rec.canister_id.clone(), controllers[j].clone());
                    proof {
                        assert(out@.push(row).map_values(|p: (String, String)| (p.0@, p.1@))
                            =~= out@.map_values(|p: (String, String)| (p.0@, p.1@)).push((row.0@, row.1@)));
                        assert(cs.take(j + 1).map_values(|c: Seq<char>| (rec.canister_id@, c))
                            =~= cs.take(j as int).map_values(|c: Seq<char>| (rec.canister_id@, c)).push((rec.canister_id@, cs[j as int])));
                    }
                    out.push(row);
                    j = j + 1;
                }
                proof {
                    assert(cs.take(j as int) =~= cs);
                }
            },
            None => {
                assert(cs =~= Seq::<Seq<char>>::empty());
                assert(before + cs.map_values(|c: Seq<char>| (rec.canister_id@, c)) =~= before);
            },
        }
        proof {
            assert(recs.take(i + 1).drop_last() =~= recs.take(i as int));
            assert(recs.take(i + 1).last() == recs[i as int]);
        }
        i = i + 1;
    }
    assert(recs.take(i as int) =~= recs);
    out
}

/// `s` with `x` placed after every entry whose offset is not above its own
/// (a stable insertion).
pub open spec fn insert_by_offset<R>(s: Seq<(usize, Seq<R>)>, x: (usize, Seq<R>)) -> Seq<(usize, Seq<R>)>
    decreases s.len(),
{
    if s.len() == 0 || s.last().0 <= x.0 {
        s.push(x)
    } else {
        insert_by_offset(s.drop_last(), x).push(s.last())
    }
}

/// `s` sorted by offset, entries with equal offsets in their order
/// (`sort_by_key` on the offset, which is stable).
pub open spec fn sort_by_offset<R>(s: Seq<(usize, Seq<R>)>) -> Seq<(usize, Seq<R>)>
    decreases s.len(),
{
    if s.len() == 0 {
        s
    } else {
        insert_by_offset(sort_by_offset(s.drop_last()), s.last())
    }
}

/// The record batches of `s` one after another.
pub open spec fn concat_batches<R>(s: Seq<(usize, Seq<R>)>) -> Seq<R>
    decreases s.len(),
{
    if s.len() == 0 {
        Seq::empty()
    } else {
        concat_batches(s.drop_last()) + s.last().1
    }
}

/// Offsets never decrease along `s`.
pub open spec fn offsets_sorted<R>(s: Seq<(usize, Seq<R>)>) -> bool {
    forall|i: int, j: int| 0 <= i < j < s.len() ==> #[trigger] s[i].0 <= #[trigger] s[j].0
}

/// The pending pages as offsets with their records.
pub open spec fn pending_view<R>(p: Seq<(usize, Vec<R>)>) -> Seq<(usize, Seq<R>)> {
    p.map_values(|e: (usize, Vec<R>)| (e.0, e.1@))
}

proof fn lemma_insert_at<R>(s: Seq<(usize, Seq<R>)>, x: (usize, Seq<R>), k: int)
    requires
        0 <= k <= s.len(),
        forall|j: int| k <= j < s.len() ==> #[trigger] s[j].0 > x.0,
        k > 0 ==> s[k - 1].0 <= x.0,
    ensures
        insert_by_offset(s, x) == s.insert(k, x),
    decreases s.len(),
{
    if s.len() == 0 {
        assert(s.push(x) =~= s.insert(k, x));
    } else if s.last().0 <= x.0 {
        assert(k == s.len());
        assert(s.push(x) =~= s.insert(k, x));
    } else {
        assert(k < s.len());
        let t = s.drop_last();
        assert forall|j: int| k <= j < t.len() implies #[trigger] t[j].0 > x.0 by {
            assert(t[j] == s[j]);
        }
        if k > 0 {
            assert(t[k - 1] == s[k - 1]);
        }
        lemma_insert_at(t, x, k);
        assert(t.insert(k, x).push(s.last()) =~= s.insert(k, x));
    }
}

proof fn lemma_insert_keeps_sorted<R>(s: Seq<(usize, Seq<R>)>, x: (usize, Seq<R>))
    requires
        offsets_sorted(s),
    ensures
        offsets_sorted(insert_by_offset(s, x)),
        insert_by_offset(s, x).len() == s.len() + 1,
        insert_by_offset(s, x).contains(x),
        forall|e: (usize, Seq<R>)| s.contains(e) ==> insert_by_offset(s, x).contains(e),
        forall|e: (usize, Seq<R>)| insert_by_offset(s, x).contains(e) ==> e == x || s.contains(e),
    decreases s.len(),
{
    let r = insert_by_offset(s, x);
    if s.len() == 0 || s.last().0 <= x.0 {
        assert(r == s.push(x));
        assert(r[s.len() as int] == x);
        assert forall|e: (usize, Seq<R>)| s.contains(e) implies r.contains(e) by {
            let k = choose|k: int| 0 <= k < s.len() && s[k] == e;
            assert(r[k] == e);
        }
        assert forall|e: (usize, Seq<R>)| r.contains(e) implies e == x || s.contains(e) by {
            let k = choose|k: int| 0 <= k < r.len() && r[k] == e;
            if k < s.len() {
                assert(s[k] == e);
            }
        }
    } else {
        let t = s.drop_last();
        assert forall|i: int, j: int| 0 <= i < j < t.len() implies #[trigger] t[i].0 <= #[trigger] t[j].0 by {
            assert(t[i] == s[i] && t[j] == s[j]);
        }
        lemma_insert_keeps_sorted(t, x);
        let u = insert_by_offset(t, x);
        assert(r == u.push(s.last()));
        assert forall|i: int, j: int| 0 <= i < j < r.len() implies #[trigger] r[i].0 <= #[trigger] r[j].0 by {
            if j == r.len() - 1 {
                assert(r[i] == u[i]);
                assert(u.contains(u[i]));
                if u[i] == x {
                } else {
                    assert(t.contains(u[i]));
                    let k = choose|k: int| 0 <= k < t.len() && t[k] == u[i];
                    assert(s[k] == t[k]);
                }
            } else {
                assert(r[i] == u[i] && r[j] == u[j]);
            }
        }
        assert(r[r.len() - 1] == s.last());
        assert(u.contains(x));
        let kx = choose|k: int| 0 <= k < u.len() && u[k] == x;
        assert(r[kx] == x);
        assert forall|e: (usize, Seq<R>)| s.contains(e) implies r.contains(e) by {
            let k = choose|k: int| 0 <= k < s.len() && s[k] == e;
            if k == s.len() - 1 {
                assert(r[r.len() - 1] == e);
            } else {
                assert(t[k] == e);
                assert(t.contains(e));
                assert(u.contains(e));
                let m = choose|m: int| 0 <= m < u.len() && u[m] == e;
                assert(r[m] == e);
            }
        }
        assert forall|e: (usize, Seq<R>)| r.contains(e) implies e == x || s.contains(e) by {
            let k = choose|k: int| 0 <= k < r.len() && r[k] == e;
            if k == r.len() - 1 {
                assert(s[s.len() - 1] == e);
            } else {
                assert(u[k] == e);
                assert(u.contains(e));
                if e != x {
                    assert(t.contains(e));
                    let m = choose|m: int| 0 <= m < t.len() && t[m] == e;
                    assert(s[m] == e);
                }
            }
        }
    }
}

/// Sorting pages by offset keeps every page, puts the offsets in order, and
/// so ends with the largest offset: a commit writes its records in offset
/// order.
pub proof fn law_sort_by_offset<R>(s: Seq<(usize, Seq<R>)>)
    ensures
        offsets_sorted(sort_by_offset(s)),
        sort_by_offset(s).len() == s.len(),
        forall|e: (usize, Seq<R>)| s.contains(e) <==> sort_by_offset(s).contains(e),
        s.len() > 0 ==> forall|i: int| 0 <= i < s.len() ==> s[i].0 <= #[trigger] sort_by_offset(s).last().0,
    decreases s.len(),
{
    if s.len() > 0 {
        let t = s.drop_last();
        law_sort_by_offset(t);
        lemma_insert_keeps_sorted(sort_by_offset(t), s.last());
        let r = sort_by_offset(s);
        assert forall|e: (usize, Seq<R>)| s.contains(e) <==> r.contains(e) by {
            if s.contains(e) {
                let k = choose|k: int| 0 <= k < s.len() && s[k] == e;
                if k < s.len() - 1 {
                    assert(t[k] == e);
                    assert(t.contains(e));
                }
            }
            if r.contains(e) && e != s.last() {
                assert(sort_by_offset(t).contains(e));
                assert(t.contains(e));
                let k = choose|k: int| 0 <= k < t.len() && t[k] == e;
                assert(s[k] == e);
            }
            if e == s.last() {
                assert(s[s.len() - 1] == e);
            }
        }
        assert forall|i: int| 0 <= i < s.len() implies s[i].0 <= #[trigger] r.last().0 by {
            assert(s.contains(s[i]));
            assert(r.contains(s[i]));
            let k = choose|k: int| 0 <= k < r.len() && r[k] == s[i];
            if k < r.len() - 1 {
                assert(r[k].0 <= r[r.len() - 1].0);
            }
        }
    }
}

/// What a commit writes: the records of the committed pages in offset
/// order, the checkpoint (the highest offset up to which every page of the
/// run is committed), and how many pages are committed so far.
pub struct Commit<R> {
    pub records: Vec<R>,
    pub checkpoint: usize,
    pub committed_pages: usize,
}

/// `ck` is a sound checkpoint of a run that began at offset `first` and has
/// committed the offsets `committed`: it lies on the run's page grid (one
/// page before `first` while nothing is committed), every page of the run up
/// to it is committed, and the page after it is not.
pub open spec fn checkpoint_sound(first: int, ck: int, committed: Set<int>) -> bool {
    &&& first - PAGE_SIZE <= ck
    &&& (ck - first) % (PAGE_SIZE as int) == 0
    &&& forall|o: int| first <= o <= ck && (o - first) % (PAGE_SIZE as int) == 0 ==> #[trigger] committed.contains(o)
    &&& !committed.contains(ck + PAGE_SIZE)
}

/// The offsets of a list of pages.
pub open spec fn offsets_of<R>(pages: Seq<(usize, Seq<R>)>) -> Set<int> {
    Set::new(|o: int| exists|i: int| 0 <= i < pages.len() && pages[i].0 as int == o)
}

/// The offsets of a list.
pub open spec fn offset_set(s: Seq<usize>) -> Set<int> {
    Set::new(|o: int| exists|i: int| 0 <= i < s.len() && s[i] as int == o)
}

/// The collector of fetched pages of a run that began at offset `first`:
/// it commits every `CHECKPOINT_EVERY_N_PAGES` pages, and the rest when the
/// workers are done, and keeps the checkpoint at the highest offset up to
/// which every page of the run is committed.
pub struct PageCollector<R> {
    pub pending: Vec<(usize, Vec<R>)>,
    pub since_checkpoint: usize,
    pub committed_pages: usize,
    /// The first offset of the run; the pages before it were committed
    /// earlier.
    pub first: usize,
    /// The highest offset up to which every page of the run is committed.
    pub checkpoint: usize,
    /// Offsets committed above the checkpoint.
    pub above: Vec<usize>,
    /// Every offset committed in this run.
    pub committed: Ghost<Set<int>>,
}

/// The records a commit of `pending` pages writes: the pages' records in
/// offset order.
pub open spec fn committed_records<R>(pending: Seq<(usize, Seq<R>)>) -> Seq<R> {
    concat_batches(sort_by_offset(pending))
}

fn contains_offset(v: &Vec<usize>, x: usize) -> (r: bool)
    ensures
        r == v@.contains(x),
{
    let mut i: usize = 0;
    while i < v.len()
        invariant
            i <= v@.len(),
            forall|k: int| 0 <= k < i ==> v@[k] != x,
        decreases v@.len() - i,
    {
        if v[i] == x {
            assert(v@[i as int] == x);
            return true;
        }
        i = i + 1;
    }
    false
}

impl<R> PageCollector<R> {
    /// The collector is consistent: one pending page per page received since
    /// the last commit, fewer than a batch of them, and a sound checkpoint.
    pub open spec fn wf(&self) -> bool {
        &&& self.pending@.len() == self.since_checkpoint
        &&& self.since_checkpoint < CHECKPOINT_EVERY_N_PAGES
        &&& self.first >= PAGE_SIZE
        &&& checkpoint_sound(self.first as int, self.checkpoint as int, self.committed@)
        &&& forall|o: int| #[trigger] self.committed@.contains(o) ==> 0 <= o <= usize::MAX
        &&& forall|o: int| #[trigger] self.committed@.contains(o) && o > self.checkpoint ==> self.above@.contains(o as usize)
        &&& forall|i: int| 0 <= i < self.above@.len() ==> self.committed@.contains(#[trigger] self.above@[i] as int)
    }

    /// An empty collector for a run that fetches from offset `first` on (the
    /// pages before it are committed already).
    pub fn new(first: usize) -> (r: PageCollector<R>)
        requires
            first >= PAGE_SIZE,
        ensures
            r.wf(),
            r.pending@.len() == 0,
            r.since_checkpoint == 0,
            r.committed_pages == 0,
            r.first == first,
            r.checkpoint == first - PAGE_SIZE,
            r.committed@ == Set::<int>::empty(),
    {
        PageCollector {
            pending: Vec::new(),
            since_checkpoint: 0,
            committed_pages: 0,
            first,
            checkpoint: first - PAGE_SIZE,
            above: Vec::new(),
            committed: Ghost(Set::empty()),
        }
    }

    /// Records the offsets of a commit and moves the checkpoint up over the
    /// pages now committed without a gap.
    fn record_committed(&mut self, offsets: &Vec<usize>)
        requires
            old(self).first >= PAGE_SIZE,
            checkpoint_sound(old(self).first as int, old(self).checkpoint as int, old(self).committed@),
            forall|o: int| #[trigger] old(self).committed@.contains(o) ==> 0 <= o <= usize::MAX,
            forall|o: int| #[trigger] old(self).committed@.contains(o) && o > old(self).checkpoint ==> old(self).above@.contains(o as usize),
            forall|i: int| 0 <= i < old(self).above@.len() ==> old(self).committed@.contains(#[trigger] old(self).above@[i] as int),
        ensures
            final(self).committed@ == old(self).committed@.union(offset_set(offsets@)),
            final(self).checkpoint >= old(self).checkpoint,
            checkpoint_sound(final(self).first as int, final(self).checkpoint as int, final(self).committed@),
            forall|o: int| #[trigger] final(self).committed@.contains(o) ==> 0 <= o <= usize::MAX,
            forall|o: int| #[trigger] final(self).committed@.contains(o) && o > final(self).checkpoint ==> final(self).above@.contains(o as usize),
            forall|i: int| 0 <= i < final(self).above@.len() ==> final(self).committed@.contains(#[trigger] final(self).above@[i] as int),
            final(self).first == old(self).first,
            final(self).pending@ == old(self).pending@,
            final(self).since_checkpoint == old(self).since_checkpoint,
            final(self).committed_pages == old(self).committed_pages,
    {
        let ghost old_set = self.committed@;
        let ghost new_set = old_set.union(offset_set(offsets@));
        let ghost ck0 = self.checkpoint;
        let mut i: usize = 0;
        while i < offsets.len()
            invariant
                i <= offsets@.len(),
                self.checkpoint == ck0,
                self.committed@ == old_set,
                new_set == old_set.union(offset_set(offsets@)),
                forall|o: int| #[trigger] old_set.contains(o) && o > ck0 ==> self.above@.contains(o as usize),
                forall|k: int| 0 <= k < i && offsets@[k] > ck0 ==> self.above@.contains(#[trigger] offsets@[k]),
                forall|k: int| 0 <= k < self.above@.len() ==> new_set.contains(#[trigger] self.above@[k] as int),
                self.first == old(self).first,
                self.pending@ == old(self).pending@,
                self.since_checkpoint == old(self).since_checkpoint,
                self.committed_pages == old(self).committed_pages,
            decreases offsets@.len() - i,
        {
            let o = offsets[i];
            if o > self.checkpoint {
                proof {
                    assert(offset_set(offsets@).contains(o as int)) by {
                        assert(offsets@[i as int] as int == o as int);
                    }
                }
                let ghost before = self.above@;
                self.above.push(o);
                proof {
                    assert forall|k: int| 0 <= k < self.above@.len() implies new_set.contains(#[trigger] self.above@[k] as int) by {
                        if k < before.len() {
                            assert(self.above@[k] == before[k]);
                        }
                    }
                    assert forall|x: int| #[trigger] old_set.contains(x) && x > ck0 implies self.above@.contains(x as usize) by {
                        assert(before.contains(x as usize));
                        let j = choose|j: int| 0 <= j < before.len() && before[j] == x as usize;
                        assert(self.above@[j] == x as usize);
                    }
                    assert forall|k: int| 0 <= k < i + 1 && offsets@[k] > ck0 implies self.above@.contains(#[trigger] offsets@[k]) by {
                        if k < i {
                            let j = choose|j: int| 0 <= j < before.len() && before[j] == offsets@[k];
                            assert(self.above@[j] == offsets@[k]);
                        } else {
                            assert(self.above@[before.len() as int] == o);
                        }
                    }
                }
            }
            i = i + 1;
        }
        self.committed = Ghost(new_set);
        proof {
            assert forall|x: int| #[trigger] new_set.contains(x) implies 0 <= x <= usize::MAX by {
                if !old_set.contains(x) {
                    let k = choose|k: int| 0 <= k < offsets@.len() && offsets@[k] as int == x;
                }
            }
            assert forall|x: int| #[trigger] new_set.contains(x) && x > ck0 implies self.above@.contains(x as usize) by {
                if !old_set.contains(x) {
                    let k = choose|k: int| 0 <= k < offsets@.len() && offsets@[k] as int == x;
                    assert(self.above@.contains(offsets@[k]));
                }
            }
        }
        let mut advancing = true;
        while advancing
            invariant
                self.committed@ == new_set,
                self.first == old(self).first,
                self.first >= PAGE_SIZE,
                self.checkpoint >= ck0,
                self.first - PAGE_SIZE <= self.checkpoint,
                (self.checkpoint - self.first) % (PAGE_SIZE as int) == 0,
                forall|o: int| self.first <= o <= self.checkpoint && (o - self.first) % (PAGE_SIZE as int) == 0
                    ==> #[trigger] new_set.contains(o),
                !advancing ==> !new_set.contains(self.checkpoint + PAGE_SIZE),
                forall|x: int| #[trigger] new_set.contains(x) ==> 0 <= x <= usize::MAX,
                forall|x: int| #[trigger] new_set.contains(x) && x > self.checkpoint ==> self.above@.contains(x as usize),
                forall|k: int| 0 <= k < self.above@.len() ==> new_set.contains(#[trigger] self.above@[k] as int),
                self.pending@ == old(self).pending@,
                self.since_checkpoint == old(self).since_checkpoint,
                self.committed_pages == old(self).committed_pages,
            decreases usize::MAX - self.checkpoint + (if advancing { 1int } else { 0int }),
        {
            match self.checkpoint.checked_add(PAGE_SIZE) {
                None => {
                    advancing = false;
                },
                Some(next) => {
                    if contains_offset(&self.above, next) {
                        let ghost ck = self.checkpoint;
                        proof {
                            let j = choose|j: int| 0 <= j < self.above@.len() && self.above@[j] == next;
                            assert(new_set.contains(self.above@[j] as int));
                            assert forall|o: int| self.first <= o <= next && (o - self.first) % (PAGE_SIZE as int) == 0
                                implies #[trigger] new_set.contains(o) by {
                                if o > ck {
                                    assert(o == next);
                                }
                            }
                        }
                        self.checkpoint = next;
                    } else {
                        advancing = false;
                    }
                },
            }
        }
    }

    fn take_commit(&mut self) -> (r: Vec<R>)
        requires
            old(self).pending@.len() > 0,
        ensures
            r@ == committed_records(pending_view(old(self).pending@)),
            final(self).pending@.len() == 0,
            final(self).since_checkpoint == old(self).since_checkpoint,
            final(self).committed_pages == old(self).committed_pages,
            final(self).first == old(self).first,
            final(self).checkpoint == old(self).checkpoint,
            final(self).above@ == old(self).above@,
            final(self).committed@ == old(self).committed@,
    {
        let ghost input = pending_view(self.pending@);
        let mut pending: Vec<(usize, Vec<R>)> = Vec::new();
        std::mem::swap(&mut pending, &mut self.pending);
        let mut sorted: Vec<(usize, Vec<R>)> = Vec::new();
        let mut taken: usize = 0;
        let total = pending.len();
        while pending.len() > 0
            invariant
                taken + pending@.len() == total,
                total == input.len(),
                pending_view(pending@) == input.skip(taken as int),
                pending_view(sorted@) == sort_by_offset(input.take(taken as int)),
            decreases pending@.len(),
        {
            let ghost old_pending = pending@;
            let x = pending.remove(0);
            let ghost xv = (x.0, x.1@);
            proof {
                assert(pending_view(old_pending)[0] == xv);
                assert(input.skip(taken as int)[0] == xv);
                assert forall|j: int| 0 <= j < pending@.len() implies #[trigger] pending_view(pending@)[j] == input.skip(taken + 1)[j] by {
                    assert(pending@[j] == old_pending[j + 1]);
                    assert(pending_view(old_pending)[j + 1] == input.skip(taken as int)[j + 1]);
                }
                assert(pending_view(pending@) =~= input.skip(taken + 1));
                assert(input.take(taken + 1).drop_last() =~= input.take(taken as int));
                assert(input.take(taken + 1).last() == xv);
            }
            let mut k = sorted.len();
            while k > 0 && sorted[k - 1].0 > x.0
                invariant
                    k <= sorted@.len(),
                    forall|j: int| k <= j < sorted@.len() ==> #[trigger] sorted@[j].0 > x.0,
                decreases k,
            {
                k = k - 1;
            }
            proof {
                let sv = pending_view(sorted@);
                assert forall|j: int| k <= j < sv.len() implies #[trigger] sv[j].0 > xv.0 by {
                    assert(sv[j].0 == sorted@[j].0);
                }
                if k > 0 {
                    assert(sv[k - 1].0 == sorted@[k - 1].0);
                }
                lemma_insert_at(sv, xv, k as int);
                assert(pending_view(sorted@.insert(k as int, x)) =~= sv.insert(k as int, xv));
            }
            sorted.insert(k, x);
            taken = taken + 1;
        }
        proof {
            assert(input.take(taken as int) =~= input);
            law_sort_by_offset(input);
        }
        let ghost sv = pending_view(sorted@);
        let n_sorted = sorted.len();
        let mut records: Vec<R> = Vec::new();
        let mut used: usize = 0;
        while sorted.len() > 0
            invariant
                used + sorted@.len() == sv.len(),
                sv.len() == n_sorted,
                pending_view(sorted@) == sv.skip(used as int),
                records@ == concat_batches(sv.take(used as int)),
            decreases sorted@.len(),
        {
            let ghost old_sorted = sorted@;
            let (_o, mut batch) = sorted.remove(0);
            proof {
                assert(pending_view(old_sorted)[0].1 == batch@);
                assert(sv.skip(used as int)[0].1 == batch@);
                assert forall|j: int| 0 <= j < sorted@.len() implies #[trigger] pending_view(sorted@)[j] == sv.skip(used + 1)[j] by {
                    assert(sorted@[j] == old_sorted[j + 1]);
                    assert(pending_view(old_sorted)[j + 1] == sv.skip(used as int)[j + 1]);
                }
                assert(pending_view(sorted@) =~= sv.skip(used + 1));
                assert(sv.take(used + 1).drop_last() =~= sv.take(used as int));
                assert(sv.take(used + 1).last() == sv[used as int]);
            }
            records.append(&mut batch);
            used = used + 1;
        }
        proof {
            assert(sv.take(used as int) =~= sv);
        }
        records
    }

    fn page_offsets(&self) -> (r: Vec<usize>)
        ensures
            offset_set(r@) == offsets_of(pending_view(self.pending@)),
    {
        let mut out: Vec<usize> = Vec::new();
        let mut i: usize = 0;
        while i < self.pending.len()
            invariant
                i <= self.pending@.len(),
                out@.len() == i,
                forall|k: int| 0 <= k < i ==> out@[k] == #[trigger] self.pending@[k].0,
            decreases self.pending@.len() - i,
        {
            out.push(self.pending[i].0);
            i = i + 1;
        }
        proof {
            let pv = pending_view(self.pending@);
            assert forall|o: int| offset_set(out@).contains(o) <==> offsets_of(pv).contains(o) by {
                if offset_set(out@).contains(o) {
                    let k = choose|k: int| 0 <= k < out@.len() && out@[k] as int == o;
                    assert(pv[k].0 == self.pending@[k].0);
                }
                if offsets_of(pv).contains(o) {
                    let k = choose|k: int| 0 <= k < pv.len() && pv[k].0 as int == o;
                    assert(pv[k].0 == self.pending@[k].0);
                    assert(out@[k] == self.pending@[k].0);
                }
            }
            assert(offset_set(out@) =~= offsets_of(pv));
        }
        out
    }

    /// Takes a fetched page. Every `CHECKPOINT_EVERY_N_PAGES` pages it hands
    /// back the commit of the pending pages and empties them; the checkpoint
    /// then moves up over the pages committed without a gap, and never falls.
    pub fn receive(&mut self, offset: usize, records: Vec<R>) -> (r: Option<Commit<R>>)
        requires
            old(self).wf(),
            old(self).committed_pages + CHECKPOINT_EVERY_N_PAGES <= usize::MAX,
        ensures
            final(self).wf(),
            final(self).first == old(self).first,
            final(self).checkpoint >= old(self).checkpoint,
            old(self).since_checkpoint + 1 < CHECKPOINT_EVERY_N_PAGES ==> r is None
                && pending_view(final(self).pending@) == pending_view(old(self).pending@).push((offset, records@))
                && final(self).since_checkpoint == old(self).since_checkpoint + 1
                && final(self).committed_pages == old(self).committed_pages
                && final(self).checkpoint == old(self).checkpoint
                && final(self).committed@ == old(self).committed@,
            old(self).since_checkpoint + 1 == CHECKPOINT_EVERY_N_PAGES ==> (r matches Some(c)
                && c.records@ == committed_records(pending_view(old(self).pending@).push((offset, records@)))
                && c.checkpoint == final(self).checkpoint
                && final(self).committed@ == old(self).committed@.union(
                    offsets_of(pending_view(old(self).pending@).push((offset, records@))))
                && c.committed_pages == final(self).committed_pages
                && final(self).committed_pages == old(self).committed_pages + CHECKPOINT_EVERY_N_PAGES
                && final(self).since_checkpoint == 0
                && final(self).pending@.len() == 0),
    {
        let ghost before = pending_view(self.pending@);
        let ghost rv = records@;
        self.pending.push((offset, records));
        proof {
            assert(pending_view(self.pending@) =~= before.push((offset, rv)));
        }
        self.since_checkpoint = self.since_checkpoint + 1;
        if self.since_checkpoint >= CHECKPOINT_EVERY_N_PAGES {
            let offsets = self.page_offsets();
            let records = self.take_commit();
            self.record_committed(&offsets);
            self.committed_pages = self.committed_pages + self.since_checkpoint;
            self.since_checkpoint = 0;
            Some(Commit { records, checkpoint: self.checkpoint, committed_pages: self.committed_pages })
        } else {
            None
        }
    }

    /// Commits what is still pending once the workers are done (nothing when
    /// no page is pending); the checkpoint moves as on any commit.
    pub fn flush(&mut self) -> (r: Option<Commit<R>>)
        requires
            old(self).wf(),
            old(self).committed_pages + old(self).since_checkpoint <= usize::MAX,
        ensures
            final(self).first == old(self).first,
            final(self).checkpoint >= old(self).checkpoint,
            final(self).pending@.len() == 0,
            checkpoint_sound(final(self).first as int, final(self).checkpoint as int, final(self).committed@),
            old(self).pending@.len() == 0 ==> r is None && final(self).committed@ == old(self).committed@
                && final(self).checkpoint == old(self).checkpoint,
            old(self).pending@.len() > 0 ==> (r matches Some(c)
                && c.records@ == committed_records(pending_view(old(self).pending@))
                && c.checkpoint == final(self).checkpoint
                && final(self).committed@ == old(self).committed@.union(offsets_of(pending_view(old(self).pending@)))
                && c.committed_pages == old(self).committed_pages + old(self).since_checkpoint),
    {
        if self.pending.len() == 0 {
            return None;
        }
        let offsets = self.page_offsets();
        let records = self.take_commit();
        self.record_committed(&offsets);
        self.committed_pages = self.committed_pages + self.since_checkpoint;
        Some(Commit { records, checkpoint: self.checkpoint, committed_pages: self.committed_pages })
    }
}

/// The progress shown after a commit, in percent of the remaining pages.
pub fn progress_percent(committed: usize, remaining: usize) -> (r: usize)
    requires
        committed * 100 <= usize::MAX,
    ensures
        r == (committed * 100) / (if remaining > 1 { remaining as int } else { 1int }),
{
    let denominator = if remaining > 1 { remaining } else { 1 };
    committed * 100 / denominator
}

} // verus!
