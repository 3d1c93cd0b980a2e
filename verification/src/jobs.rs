use vstd::prelude::*;

verus! {

use vstd::multiset::Multiset;

/// One mirroring job as the worker sees it: where to fetch from, where to
/// push to, optional private-key material for each side, and its schedule.
/// Timestamps are seconds since the epoch; `last_run_at` is `None` for a job
/// that has never completed successfully.
pub struct MirrorJob {
    pub id: String,
    pub source_url: String,
    pub source_key: Option<String>,
    pub target_url: String,
    pub target_key: Option<String>,
    pub period_seconds: u32,
    pub last_run_at: Option<u64>,
    pub enabled: bool,
}

/// When the job last completed, with "never" counting as the epoch.
pub open spec fn last_run_or_epoch(j: MirrorJob) -> int {
    match j.last_run_at {
        Option::None => 0,
        Option::Some(t) => t as int,
    }
}

/// The time part of eligibility: a job that never ran is due at once;
/// otherwise its period must have elapsed since the last successful run,
/// with elapsing exactly counting as due.
pub open spec fn spec_time_due(j: MirrorJob, now: u64) -> bool {
    match j.last_run_at {
        Option::None => true,
        Option::Some(t) => now - t >= j.period_seconds,
    }
}

/// A job is eligible to run when it is enabled and its period has elapsed.
pub open spec fn spec_due(j: MirrorJob, now: u64) -> bool {
    j.enabled && spec_time_due(j, now)
}

/// How far past its last completion a job is, in seconds; a job that never
/// ran counts from the epoch, so it is the most overdue of all.
pub open spec fn spec_overdue(j: MirrorJob, now: u64) -> int {
    now - last_run_or_epoch(j)
}

impl MirrorJob {
    /// Whether this job is eligible to run at `now`.
    pub fn is_due_at(&self, now: u64) -> (r: bool)
        ensures
            r == spec_due(*self, now),
    {
        if !self.enabled {
            false
        } else {
            match self.last_run_at {
                Option::None => true,
                Option::Some(t) => t <= now && now - t >= self.period_seconds as u64,
            }
        }
    }

    /// Seconds by which this job is overdue at `now`; meaningful only for
    /// jobs whose period has elapsed, which is all the selector sorts.
    pub fn overdue_at(&self, now: u64) -> (r: u64)
        requires
            spec_time_due(*self, now),
        ensures
            r == spec_overdue(*self, now),
    {
        match self.last_run_at {
            Option::None => now,
            Option::Some(t) => now - t,
        }
    }
}

/// The due jobs of a batch, in the order they arrived.
pub open spec fn due_of(jobs: Seq<MirrorJob>, now: u64) -> Seq<MirrorJob> {
    jobs.filter(|j: MirrorJob| spec_due(j, now))
}

/// Most overdue first: overdue amounts never increase along the sequence.
pub open spec fn sorted_most_overdue_first(r: Seq<MirrorJob>, now: u64) -> bool {
    forall|i: int, k: int|
        0 <= i <= k < r.len() ==> spec_overdue(#[trigger] r[i], now) >= spec_overdue(
            #[trigger] r[k],
            now,
        )
}

pub open spec fn spec_min(a: int, b: int) -> int {
    if a <= b {
        a
    } else {
        b
    }
}

/// What the selector returns for a batch: exactly `min(number due, limit)`
/// jobs, drawn from the due jobs of the input, most overdue first; and when
/// the cap bites, nothing left out is more overdue than anything kept.
pub open spec fn is_selection(jobs: Seq<MirrorJob>, now: u64, limit: int, r: Seq<MirrorJob>) -> bool {
    let due = due_of(jobs, now);
    &&& r.len() == spec_min(due.len() as int, limit)
    &&& sorted_most_overdue_first(r, now)
    &&& forall|j: MirrorJob| #[trigger] r.to_multiset().count(j) <= due.to_multiset().count(j)
    &&& forall|j: MirrorJob, i: int|
        #![trigger r.to_multiset().count(j), r[i]]
        due.to_multiset().count(j) > r.to_multiset().count(j) && 0 <= i < r.len()
            ==> spec_overdue(j, now) <= spec_overdue(r[i], now)
}

proof fn lemma_insert_to_multiset(s: Seq<MirrorJob>, pos: int, e: MirrorJob)
    requires
        0 <= pos <= s.len(),
    ensures
        s.insert(pos, e).to_multiset() =~= s.to_multiset().insert(e),
{
    broadcast use vstd::seq_lib::group_to_multiset_ensures;

    let left = s.subrange(0, pos);
    let right = s.subrange(pos, s.len() as int);
    assert(s.insert(pos, e) =~= left + (seq![e] + right));
    assert(s =~= left + right);
    vstd::seq_lib::lemma_multiset_commutative(left, seq![e] + right);
    vstd::seq_lib::lemma_multiset_commutative(seq![e], right);
    vstd::seq_lib::lemma_multiset_commutative(left, right);
    assert(seq![e] =~= Seq::<MirrorJob>::empty().push(e));
    assert(seq![e].to_multiset() =~= Multiset::<MirrorJob>::empty().insert(e));
}

/// Places a due job into a batch that is already ordered most overdue first,
/// keeping the order.
fn insert_sorted(sorted: &mut Vec<MirrorJob>, j: MirrorJob, now: u64)
    requires
        sorted_most_overdue_first(old(sorted)@, now),
        spec_due(j, now),
        forall|k: int| 0 <= k < old(sorted)@.len() ==> spec_due(#[trigger] old(sorted)@[k], now),
    ensures
        final(sorted)@.to_multiset() == old(sorted)@.to_multiset().insert(j),
        final(sorted)@.len() == old(sorted)@.len() + 1,
        sorted_most_overdue_first(final(sorted)@, now),
        forall|k: int| 0 <= k < final(sorted)@.len() ==> spec_due(#[trigger] final(sorted)@[k], now),
{
    let oj = j.overdue_at(now);
    let mut idx: usize = 0;
    while idx < sorted.len()
        invariant
            idx <= sorted@.len(),
            *sorted == *old(sorted),
            spec_time_due(j, now),
            oj == spec_overdue(j, now),
            forall|k: int| 0 <= k < sorted@.len() ==> spec_due(#[trigger] sorted@[k], now),
            forall|k: int| 0 <= k < idx ==> spec_overdue(#[trigger] sorted@[k], now) >= oj,
        ensures
            idx <= sorted@.len(),
            *sorted == *old(sorted),
            forall|k: int| 0 <= k < idx ==> spec_overdue(#[trigger] sorted@[k], now) >= oj,
            idx < sorted@.len() ==> spec_overdue(sorted@[idx as int], now) < oj,
        decreases sorted@.len() - idx,
    {
        let o = sorted[idx].overdue_at(now);
        if o >= oj {
            idx += 1;
        } else {
            break;
        }
    }
    proof {
        lemma_insert_to_multiset(sorted@, idx as int, j);
        sorted@.insert_ensures(idx as int, j);
    }
    sorted.insert(idx, j);
    proof {
        assert forall|i: int, k: int| 0 <= i <= k < sorted@.len() implies spec_overdue(
            #[trigger] sorted@[i],
            now,
        ) >= spec_overdue(#[trigger] sorted@[k], now) by {
            let s0 = old(sorted)@;
            if i < idx && k < idx {
            } else if i < idx && k == idx {
            } else if i == idx && k > idx {
                assert(sorted@[k] == s0[k - 1]);
                assert(spec_overdue(s0[idx as int], now) < oj);
            } else if i == idx && k == idx {
            } else if i < idx && k > idx {
                assert(sorted@[k] == s0[k - 1]);
            } else {
                assert(sorted@[i] == s0[i - 1]);
                assert(sorted@[k] == s0[k - 1]);
            }
        }
    }
}

/// Chooses the jobs to run this cycle: the due jobs of the batch, most
/// overdue first, capped at `limit`. An empty result means nothing is due.
pub fn select_due_jobs(jobs: Vec<MirrorJob>, now: u64, limit: usize) -> (r: Vec<MirrorJob>)
    ensures
        is_selection(jobs@, now, limit as int, r@),
{
    broadcast use vstd::seq_lib::group_to_multiset_ensures;

    let ghost all = jobs@;
    let mut rest = jobs;
    let mut sorted: Vec<MirrorJob> = Vec::new();
    let ghost mut p: int = 0;
    proof {
        reveal(Seq::filter);
        assert(all.take(0) =~= Seq::<MirrorJob>::empty());
    }
    while rest.len() > 0
        invariant
            0 <= p <= all.len(),
            rest@ == all.skip(p),
            sorted@.to_multiset() == due_of(all.take(p), now).to_multiset(),
            sorted@.len() == due_of(all.take(p), now).len(),
            sorted_most_overdue_first(sorted@, now),
            forall|k: int| 0 <= k < sorted@.len() ==> spec_due(#[trigger] sorted@[k], now),
        decreases rest@.len(),
    {
        broadcast use vstd::seq_lib::group_to_multiset_ensures;

        let ghost prev_due = due_of(all.take(p), now);
        let j = rest.remove(0);
        proof {
            reveal(Seq::filter);
            assert(j == all[p]);
            assert(rest@ =~= all.skip(p + 1));
            let step = all.take(p + 1);
            assert(step.drop_last() =~= all.take(p));
            assert(step.last() == all[p]);
            assert(due_of(step, now) == if spec_due(step.last(), now) {
                due_of(step.drop_last(), now).push(step.last())
            } else {
                due_of(step.drop_last(), now)
            });
            assert(due_of(all.take(p + 1), now) == if spec_due(j, now) {
                prev_due.push(j)
            } else {
                prev_due
            });
        }
        if j.is_due_at(now) {
            insert_sorted(&mut sorted, j, now);
            proof {
                assert(due_of(all.take(p + 1), now).to_multiset() =~= prev_due.to_multiset().insert(
                    j,
                ));
            }
        }
        proof {
            p = p + 1;
        }
    }
    proof {
        assert(all.take(p) =~= all);
    }
    let ghost due = due_of(all, now);
    let mut r = sorted;
    if r.len() > limit {
        r.truncate(limit);
    }
    proof {
        let full = sorted@;
        let kept = r@;
        let cut = kept.len() as int;
        assert(kept =~= full.subrange(0, cut));
        let dropped = full.subrange(cut, full.len() as int);
        assert(full =~= kept + dropped);
        vstd::seq_lib::lemma_multiset_commutative(kept, dropped);
        assert(full.to_multiset() == due.to_multiset());
        assert forall|x: MirrorJob| #[trigger] kept.to_multiset().count(x) <= due.to_multiset().count(
            x,
        ) by {
            assert(due.to_multiset().count(x) == kept.to_multiset().count(x)
                + dropped.to_multiset().count(x));
        }
        assert forall|x: MirrorJob, i: int|
            due.to_multiset().count(x) > #[trigger] kept.to_multiset().count(x) && 0 <= i
                < kept.len() implies spec_overdue(x, now) <= spec_overdue(#[trigger] kept[i], now) by {
            assert(dropped.to_multiset().count(x) > 0);
            assert(dropped.contains(x));
            let m = choose|m: int| 0 <= m < dropped.len() && dropped[m] == x;
            assert(full[cut + m] == x);
            assert(kept[i] == full[i]);
            assert(spec_overdue(full[i], now) >= spec_overdue(full[cut + m], now));
        }
    }
    r
}

/// Whatever its timestamps, a disabled job never appears in a selection:
/// everything selected is due, and due jobs are enabled.
pub proof fn lemma_selection_excludes_disabled(
    jobs: Seq<MirrorJob>,
    now: u64,
    limit: int,
    r: Seq<MirrorJob>,
    k: int,
)
    requires
        is_selection(jobs, now, limit, r),
        0 <= k < r.len(),
    ensures
        spec_due(r[k], now),
        r[k].enabled,
{
    broadcast use vstd::seq_lib::group_to_multiset_ensures;

    let due = due_of(jobs, now);
    assert(r.contains(r[k]));
    assert(r.to_multiset().count(r[k]) > 0);
    assert(due.to_multiset().count(r[k]) >= r.to_multiset().count(r[k]));
    assert(due.contains(r[k]));
    let i = choose|i: int| 0 <= i < due.len() && due[i] == r[k];
    assert(spec_due(due[i], now)) by {
        broadcast use vstd::seq_lib::group_filter_ensures;

    }
}

/// A due job is left out of a selection only because the cap bit: the
/// selection is then full, there were more due jobs than it could hold,
/// and every kept job is at least as overdue as the one left out. So a job
/// that never ran, which is the most overdue kind of all, is kept whenever
/// fewer than `limit` due jobs reach its overdue amount.
pub proof fn lemma_excluded_only_when_full(
    jobs: Seq<MirrorJob>,
    now: u64,
    limit: int,
    r: Seq<MirrorJob>,
    j: MirrorJob,
)
    requires
        is_selection(jobs, now, limit, r),
        due_of(jobs, now).to_multiset().count(j) > r.to_multiset().count(j),
    ensures
        r.len() == limit,
        due_of(jobs, now).len() > limit,
        forall|i: int|
            0 <= i < r.len() ==> spec_overdue(#[trigger] r[i], now) >= spec_overdue(j, now),
{
    broadcast use vstd::seq_lib::group_to_multiset_ensures;
    broadcast use vstd::multiset::group_multiset_axioms;

    let due = due_of(jobs, now);
    let dm = due.to_multiset();
    let rm = r.to_multiset();
    assert(rm.subset_of(dm));
    let d = dm.sub(rm);
    assert(d.count(j) > 0);
    assert(d.len() == dm.len() - rm.len());
    assert(d.count(j) <= d.len());
    assert(due.len() > r.len());
    assert forall|i: int| 0 <= i < r.len() implies spec_overdue(#[trigger] r[i], now)
        >= spec_overdue(j, now) by {
        assert(dm.count(j) > r.to_multiset().count(j));
    }
}

/// With N jobs due and a cap of L, a selection holds exactly min(N, L)
/// jobs, ordered most overdue first.
pub proof fn lemma_selection_count_and_order(
    jobs: Seq<MirrorJob>,
    now: u64,
    limit: int,
    r: Seq<MirrorJob>,
)
    requires
        is_selection(jobs, now, limit, r),
    ensures
        r.len() == spec_min(due_of(jobs, now).len() as int, limit),
        sorted_most_overdue_first(r, now),
{
}

/// A disabled job is never due, whatever its timestamps.
pub proof fn lemma_disabled_never_due(j: MirrorJob, now: u64)
    ensures
        !j.enabled ==> !spec_due(j, now),
{
}

/// A job that has never run is immediately due.
pub proof fn lemma_never_run_immediately_due(j: MirrorJob, now: u64)
    ensures
        j.last_run_at is None ==> spec_time_due(j, now),
        j.last_run_at is None && j.enabled ==> spec_due(j, now),
{
}

/// For a job that has run before, due-ness holds exactly when the elapsed
/// time reaches the period; reaching it exactly counts as due.
pub proof fn lemma_due_boundary(j: MirrorJob, now: u64, t: u64)
    requires
        j.last_run_at == Option::Some(t),
    ensures
        spec_time_due(j, now) <==> now - t >= j.period_seconds,
        now - t == j.period_seconds ==> spec_time_due(j, now),
{
}

} // verus!
