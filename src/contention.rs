//! Runs of several threads through the primitives, in any interleaving.
//! Each thread's program is a sequence of steps of the primitives; a schedule
//! says which thread takes its next step, and a thread told to wait simply
//! stays where it is until it is scheduled again.
use vstd::prelude::*;

use crate::mutex::{Mutex, MutexGuard};
use crate::once::{InitStep, SyncOnceCell};
use crate::sys::ThreadHandle;

verus! {

/// How many entries of `s` are `true`.
pub open spec fn count_true(s: Seq<bool>) -> nat
    decreases s.len(),
{
    if s.len() == 0 {
        0
    } else {
        count_true(s.drop_last()) + if s.last() { 1nat } else { 0nat }
    }
}

/// Setting one entry to `true` adds one to the count if it was `false`.
proof fn lemma_count_true_set(s: Seq<bool>, i: int)
    requires
        0 <= i < s.len(),
    ensures
        count_true(s.update(i, true)) == count_true(s) + if s[i] { 0nat } else { 1nat },
    decreases s.len(),
{
    let t = s.update(i, true);
    if i == s.len() - 1 {
        assert(t.drop_last() =~= s.drop_last());
    } else {
        assert(t.drop_last() =~= s.drop_last().update(i, true));
        lemma_count_true_set(s.drop_last(), i);
    }
}

/// A sequence with an entry `false` counts less than its length.
proof fn lemma_count_true_below(s: Seq<bool>, i: int)
    requires
        0 <= i < s.len(),
        !s[i],
    ensures
        count_true(s) < s.len(),
    decreases s.len(),
{
    if i < s.len() - 1 {
        lemma_count_true_below(s.drop_last(), i);
    } else {
        lemma_count_true_le(s.drop_last());
    }
}

/// A sequence with an entry `true` counts at least one.
proof fn lemma_count_true_pos(s: Seq<bool>, i: int)
    requires
        0 <= i < s.len(),
        s[i],
    ensures
        count_true(s) >= 1,
    decreases s.len(),
{
    if i < s.len() - 1 {
        lemma_count_true_pos(s.drop_last(), i);
    }
}

/// A sequence counts at most its length.
proof fn lemma_count_true_le(s: Seq<bool>)
    ensures
        count_true(s) <= s.len(),
    decreases s.len(),
{
    if s.len() > 0 {
        lemma_count_true_le(s.drop_last());
    }
}

/// A sequence with every entry `true` counts its whole length.
proof fn lemma_count_true_all(s: Seq<bool>)
    requires
        forall|i: int| 0 <= i < s.len() ==> s[i],
    ensures
        count_true(s) == s.len(),
    decreases s.len(),
{
    if s.len() > 0 {
        lemma_count_true_all(s.drop_last());
    }
}

/// No entry is `true` in a sequence of `false`.
proof fn lemma_count_true_none(n: nat)
    ensures
        count_true(Seq::new(n, |i: int| false)) == 0,
    decreases n,
{
    if n > 0 {
        assert(Seq::new(n, |i: int| false).drop_last() =~= Seq::new((n - 1) as nat, |i: int| false));
        lemma_count_true_none((n - 1) as nat);
    }
}

/// Where a thread stands after `step` steps of a schedule that runs threads
/// one after another, `width` steps each.
pub open spec fn sequential_pc(i: int, step: int, width: int) -> int {
    if width * i + width <= step {
        width
    } else if width * i <= step {
        step - width * i
    } else {
        0
    }
}

/// The outcome of a run of threads incrementing a counter under a mutex.
pub struct CounterRun {
    /// The counter's final value.
    pub counter: usize,
    /// For each thread, whether it has written its increment back.
    pub incremented: Vec<bool>,
    /// For each thread, whether it went through its whole program.
    pub finished: Vec<bool>,
}

/// Runs `n` threads (tokens `0` to `n - 1`), each of which locks one shared
/// mutex, reads the counter it guards, writes back the value read plus one
/// as a separate step, and unlocks. `schedule` names the thread that takes
/// each next step; entries that name no thread are skipped. Whatever the
/// interleaving, no increment is lost: the counter equals the number of
/// threads that have written back, so it equals `n` once all threads went
/// through their program. Scheduled one after another, four steps each,
/// every thread goes through its program.
pub fn count_under_lock(n: usize, schedule: &Vec<usize>) -> (r: CounterRun)
    ensures
        r.incremented@.len() == n,
        r.finished@.len() == n,
        forall|i: int| 0 <= i < n && r.finished@[i] ==> r.incremented@[i],
        r.counter == count_true(r.incremented@),
        (forall|i: int| 0 <= i < n ==> r.finished@[i]) ==> r.counter == n,
        schedule@ == Seq::new(4 * n as nat, |j: int| (j / 4) as usize) ==> forall|i: int|
            0 <= i < n ==> r.finished@[i],
{
    let ghost one_by_one = schedule@ == Seq::new(4 * n as nat, |j: int| (j / 4) as usize);
    let mut m: Mutex<usize> = Mutex::new(0);
    let mut held: Option<MutexGuard> = None;
    // Per thread: 0 wants the lock, 1 holds it, 2 has read the counter,
    // 3 has written it back, 4 has unlocked.
    let mut pc: Vec<u8> = Vec::new();
    let mut read: Vec<usize> = Vec::new();
    let mut incremented: Vec<bool> = Vec::new();
    let mut finished: Vec<bool> = Vec::new();
    let mut k: usize = 0;
    while k < n
        invariant
            k <= n,
            pc@ == Seq::new(k as nat, |i: int| 0u8),
            read@.len() == k,
            incremented@ == Seq::new(k as nat, |i: int| false),
            finished@ == Seq::new(k as nat, |i: int| false),
        decreases n - k,
    {
        pc.push(0);
        read.push(0);
        incremented.push(false);
        finished.push(false);
        k = k + 1;
        proof {
            assert(pc@ =~= Seq::new(k as nat, |i: int| 0u8));
            assert(incremented@ =~= Seq::new(k as nat, |i: int| false));
            assert(finished@ =~= Seq::new(k as nat, |i: int| false));
        }
    }
    proof {
        lemma_count_true_none(n as nat);
    }
    let mut step: usize = 0;
    while step < schedule.len()
        invariant
            pc@.len() == n,
            read@.len() == n,
            incremented@.len() == n,
            finished@.len() == n,
            !m.is_poisoned(),
            forall|i: int| 0 <= i < n ==> pc@[i] <= 4,
            forall|i: int| 0 <= i < n ==> (finished@[i] <==> pc@[i] == 4),
            forall|i: int| 0 <= i < n ==> (incremented@[i] <==> pc@[i] >= 3),
            forall|i: int|
                0 <= i < n ==> (1 <= #[trigger] pc@[i] <= 3 <==> m.owner() == Some(ThreadHandle { token: i as usize })),
            m.owner() is Some ==> m.owner()->0.token < n,
            match held {
                Some(g) => m.owner() == Some(g.holder()),
                None => m.owner() is None,
            },
            forall|i: int| 0 <= i < n && pc@[i] == 2 ==> read@[i] == m.value(),
            m.value() == count_true(incremented@),
            one_by_one ==> schedule@ == Seq::new(4 * n as nat, |j: int| (j / 4) as usize),
            one_by_one ==> forall|i: int| 0 <= i < n ==> #[trigger] pc@[i] == sequential_pc(i, step as int, 4),
        decreases schedule.len() - step,
    {
        proof {
            if one_by_one {
                assert(schedule@[step as int] == (step / 4) as usize);
                let q = step / 4;
                assert forall|i: int| 0 <= i < n && i != q implies #[trigger] pc@[i] == 0 || pc@[i] == 4 by {
                    assert(pc@[i] == sequential_pc(i, step as int, 4));
                }
                assert(pc@[q as int] == sequential_pc(q as int, step as int, 4));
                if m.owner() is Some {
                    let h = m.owner()->0.token as int;
                    assert(1 <= pc@[h] <= 3);
                    assert(pc@[h] == sequential_pc(h, step as int, 4));
                }
            }
        }
        let ghost pc_before = pc@;
        let t = schedule[step];
        step = step + 1;
        if t < n {
            let me = ThreadHandle { token: t };
            let p = pc[t];
            if p == 0 {
                if let Some(res) = m.lock(me) {
                    let g = match res {
                        Ok(g) => g,
                        Err(e) => e.into_inner(),
                    };
                    held = Some(g);
                    pc.set(t, 1);
                }
            } else if p == 1 {
                if let Some(g) = &held {
                    read.set(t, *g.deref(&m));
                }
                pc.set(t, 2);
            } else if p == 2 {
                proof {
                    lemma_count_true_below(incremented@, t as int);
                    lemma_count_true_set(incremented@, t as int);
                }
                if let Some(g) = &held {
                    *g.deref_mut(&mut m) = read[t] + 1;
                }
                pc.set(t, 3);
                incremented.set(t, true);
            } else if p == 3 {
                if let Some(g) = held.take() {
                    g.drop(&mut m, false);
                }
                pc.set(t, 4);
                finished.set(t, true);
            }
        }
        proof {
            if one_by_one {
                let q = (step - 1) / 4;
                assert(pc@[q as int] == pc_before[q as int] + 1);
                assert forall|i: int| 0 <= i < n implies #[trigger] pc@[i] == sequential_pc(i, step as int, 4) by {
                    assert(pc_before[i] == sequential_pc(i, step - 1, 4));
                    if i != q {
                        assert(pc@[i] == pc_before[i]);
                    }
                }
            }
        }
    }
    proof {
        if one_by_one {
            assert forall|i: int| 0 <= i < n implies finished@[i] by {
                assert(pc@[i] == sequential_pc(i, step as int, 4));
            }
        }
    }
    let counter = *m.get_mut();
    let r = CounterRun { counter, incremented, finished };
    proof {
        if forall|i: int| 0 <= i < n ==> r.finished@[i] {
            assert forall|i: int| 0 <= i < n implies r.incremented@[i] by {
                assert(r.finished@[i]);
            }
            lemma_count_true_all(r.incremented@);
        }
    }
    r
}

/// The outcome of a race of threads to initialize one cell.
pub struct InitRun {
    /// The cell's final value.
    pub value: Option<u64>,
    /// For each thread, whether an initializer of its own completed and
    /// stored its value.
    pub initialized: Vec<bool>,
    /// For each thread, the value it got back, if its request completed.
    pub observed: Vec<Option<u64>>,
}

/// Runs `values.len()` threads (tokens `0` to `n - 1`) that each ask one
/// shared cell for its value, supplying an initializer that yields
/// `values[i]`. The first initializer that thread `i` runs fails if
/// `fail_first[i]`, and the thread then asks again with one that succeeds.
/// `schedule` names the thread that takes each next step; entries that name
/// no thread are skipped. Whatever the interleaving, at most one initializer
/// ever completes, the cell holds the value it produced, and every thread
/// whose request completed got that same value.
/// A thread scheduled for the first two steps, whose first initializer
/// succeeds, is the one whose value the cell holds.
pub fn race_to_init(values: &Vec<u64>, fail_first: &Vec<bool>, schedule: &Vec<usize>) -> (r: InitRun)
    requires
        fail_first.len() == values.len(),
    ensures
        r.initialized@.len() == values.len(),
        r.observed@.len() == values.len(),
        count_true(r.initialized@) <= 1,
        r.value is Some <==> count_true(r.initialized@) == 1,
        forall|i: int| 0 <= i < values.len() && r.initialized@[i] ==> r.value == Some(values@[i]),
        forall|i: int| 0 <= i < values.len() && r.observed@[i] is Some ==> r.observed@[i] == r.value,
        schedule@.len() >= 2 && schedule@[0] == schedule@[1] && schedule@[0] < values.len()
            && !fail_first@[schedule@[0] as int] ==> r.value == Some(values@[schedule@[0] as int]),
{
    let ghost first_wins = schedule@.len() >= 2 && schedule@[0] == schedule@[1] && schedule@[0] < values.len()
        && !fail_first@[schedule@[0] as int];
    let ghost w: usize = if schedule@.len() > 0 { schedule@[0] } else { 0 };
    let n = values.len();
    let mut cell: SyncOnceCell<u64> = SyncOnceCell::new();
    // Per thread: 0 asks for the value, 1 runs its initializer, 2 is done.
    let mut pc: Vec<u8> = Vec::new();
    let mut failed: Vec<bool> = Vec::new();
    let mut initialized: Vec<bool> = Vec::new();
    let mut observed: Vec<Option<u64>> = Vec::new();
    let mut k: usize = 0;
    while k < n
        invariant
            k <= n,
            n == values.len(),
            pc@ == Seq::new(k as nat, |i: int| 0u8),
            failed@ == Seq::new(k as nat, |i: int| false),
            initialized@ == Seq::new(k as nat, |i: int| false),
            observed@ == Seq::new(k as nat, |i: int| None::<u64>),
        decreases n - k,
    {
        pc.push(0);
        failed.push(false);
        initialized.push(false);
        observed.push(None);
        k = k + 1;
        proof {
            assert(pc@ =~= Seq::new(k as nat, |i: int| 0u8));
            assert(initialized@ =~= Seq::new(k as nat, |i: int| false));
            assert(failed@ =~= Seq::new(k as nat, |i: int| false));
            assert(observed@ =~= Seq::new(k as nat, |i: int| None::<u64>));
        }
    }
    proof {
        lemma_count_true_none(n as nat);
    }
    let mut step: usize = 0;
    while step < schedule.len()
        invariant
            n == values.len(),
            n == fail_first.len(),
            pc@.len() == n,
            failed@.len() == n,
            initialized@.len() == n,
            observed@.len() == n,
            cell.wf(),
            forall|i: int|
                0 <= i < n ==> (#[trigger] pc@[i] == 1 <==> cell.claimant() == Some(ThreadHandle { token: i as usize })),
            cell.claimant() is Some ==> cell.claimant()->0.token < n,
            forall|i: int| 0 <= i < n && initialized@[i] ==> cell.value() == Some(values@[i]),
            cell.value() is None ==> count_true(initialized@) == 0,
            cell.value() is Some ==> count_true(initialized@) == 1,
            forall|i: int| 0 <= i < n && observed@[i] is Some ==> observed@[i] == cell.value(),
            step <= schedule.len(),
            first_wins ==> schedule@.len() >= 2 && schedule@[0] == w && schedule@[1] == w && w < n
                && !fail_first@[w as int],
            first_wins && step == 0 ==> cell.value() is None && cell.claimant() is None && !failed@[w as int]
                && pc@[w as int] == 0,
            first_wins && step == 1 ==> cell.claimant() == Some(ThreadHandle { token: w }) && !failed@[w as int],
            first_wins && step >= 2 ==> cell.value() == Some(values@[w as int]),
        decreases schedule.len() - step,
    {
        let t = schedule[step];
        step = step + 1;
        if t < n {
            let me = ThreadHandle { token: t };
            let p = pc[t];
            if p == 0 {
                let s = cell.begin_init(me);
                if s == InitStep::Ready {
                    if let Some(v) = cell.get() {
                        observed.set(t, Some(*v));
                    }
                    pc.set(t, 2);
                } else if s == InitStep::Claimed {
                    pc.set(t, 1);
                }
            } else if p == 1 {
                if fail_first[t] && !failed[t] {
                    cell.abandon(me);
                    failed.set(t, true);
                    pc.set(t, 0);
                } else {
                    let v = values[t];
                    proof {
                        if initialized@[t as int] {
                            lemma_count_true_pos(initialized@, t as int);
                        }
                        lemma_count_true_set(initialized@, t as int);
                    }
                    cell.commit(me, v);
                    initialized.set(t, true);
                    observed.set(t, Some(v));
                    pc.set(t, 2);
                }
            }
        }
    }
    InitRun { value: cell.into_inner(), initialized, observed }
}

/// Whether a holder among the first `k` acquisitions in `order` failed.
pub open spec fn failed_before(fails: Seq<bool>, order: Seq<usize>, k: int) -> bool {
    exists|j: int| 0 <= j < k && #[trigger] fails[order[j] as int]
}

/// The outcome of a run of threads that may fail while holding a mutex.
pub struct PoisonRun {
    /// The threads in the order in which they acquired the lock.
    pub order: Vec<usize>,
    /// For each acquisition, in that order, whether the lock came back
    /// poisoned.
    pub poisoned_seen: Vec<bool>,
    /// Whether the mutex is poisoned at the end.
    pub poisoned: bool,
}

/// Runs `fails.len()` threads (tokens `0` to `n - 1`), each of which locks one
/// shared mutex and then releases it, failing while holding it if
/// `fails[i]`. `schedule` names the thread that takes each next step;
/// entries that name no thread are skipped. Whatever the interleaving, an
/// acquisition comes back poisoned exactly when an earlier holder failed:
/// poison, once set, is seen by every later acquisition.
/// Scheduled one after another, two steps each, every thread acquires the
/// lock once, in the order of their tokens.
pub fn lock_with_failures(fails: &Vec<bool>, schedule: &Vec<usize>) -> (r: PoisonRun)
    ensures
        r.poisoned_seen@.len() == r.order@.len(),
        forall|k: int| 0 <= k < r.order@.len() ==> r.order@[k] < fails.len(),
        forall|k: int|
            0 <= k < r.order@.len() ==> r.poisoned_seen@[k] == failed_before(fails@, r.order@, k),
        r.poisoned ==> failed_before(fails@, r.order@, r.order@.len() as int),
        schedule@ == Seq::new(2 * fails.len() as nat, |j: int| (j / 2) as usize) ==> r.order@ == Seq::new(
            fails.len() as nat,
            |k: int| k as usize,
        ),
{
    let ghost one_by_one = schedule@ == Seq::new(2 * fails.len() as nat, |j: int| (j / 2) as usize);
    let n = fails.len();
    let mut m: Mutex<()> = Mutex::new(());
    let mut held: Option<MutexGuard> = None;
    // Per thread: 0 wants the lock, 1 holds it, 2 has released it.
    let mut pc: Vec<u8> = Vec::new();
    let mut k: usize = 0;
    while k < n
        invariant
            k <= n,
            pc@ == Seq::new(k as nat, |i: int| 0u8),
        decreases n - k,
    {
        pc.push(0);
        k = k + 1;
        proof {
            assert(pc@ =~= Seq::new(k as nat, |i: int| 0u8));
        }
    }
    let mut order: Vec<usize> = Vec::new();
    let mut seen: Vec<bool> = Vec::new();
    let mut step: usize = 0;
    while step < schedule.len()
        invariant
            n == fails.len(),
            pc@.len() == n,
            seen@.len() == order@.len(),
            forall|j: int| 0 <= j < order@.len() ==> order@[j] < n,
            forall|i: int|
                0 <= i < n ==> (#[trigger] pc@[i] == 1 <==> m.owner() == Some(ThreadHandle { token: i as usize })),
            m.owner() is Some ==> order@.len() > 0 && m.owner() == Some(ThreadHandle { token: order@.last() }),
            match held {
                Some(g) => m.owner() == Some(g.holder()),
                None => m.owner() is None,
            },
            forall|j: int| 0 <= j < seen@.len() ==> seen@[j] == failed_before(fails@, order@, j),
            m.is_poisoned() == failed_before(
                fails@,
                order@,
                if m.owner() is Some { order@.len() - 1 } else { order@.len() as int },
            ),
            one_by_one ==> schedule@ == Seq::new(2 * n as nat, |j: int| (j / 2) as usize),
            one_by_one ==> forall|i: int| 0 <= i < n ==> #[trigger] pc@[i] == sequential_pc(i, step as int, 2),
            one_by_one ==> order@ == Seq::new(((step + 1) / 2) as nat, |k: int| k as usize),
            step <= schedule.len(),
        decreases schedule.len() - step,
    {
        proof {
            if one_by_one {
                assert(schedule@[step as int] == (step / 2) as usize);
                let q = step / 2;
                assert(pc@[q as int] == sequential_pc(q as int, step as int, 2));
                if m.owner() is Some {
                    let h = m.owner()->0.token as int;
                    assert(pc@[h] == 1);
                    assert(pc@[h] == sequential_pc(h, step as int, 2));
                }
            }
        }
        let ghost pc_before = pc@;
        let ghost order_before = order@;
        let t = schedule[step];
        step = step + 1;
        if t < n {
            let me = ThreadHandle { token: t };
            let p = pc[t];
            if p == 0 {
                let ghost old_order = order@;
                if let Some(res) = m.lock(me) {
                    let (g, was_poisoned) = match res {
                        Ok(g) => (g, false),
                        Err(e) => (e.into_inner(), true),
                    };
                    held = Some(g);
                    order.push(t);
                    seen.push(was_poisoned);
                    pc.set(t, 1);
                    proof {
                        assert forall|j: int| 0 <= j <= old_order.len() implies
                            failed_before(fails@, order@, j) == failed_before(fails@, old_order, j) by {
                            if failed_before(fails@, old_order, j) {
                                let w = choose|w: int| 0 <= w < j && #[trigger] fails@[old_order[w] as int];
                                assert(fails@[order@[w] as int]);
                            }
                            if failed_before(fails@, order@, j) {
                                let w = choose|w: int| 0 <= w < j && #[trigger] fails@[order@[w] as int];
                                assert(fails@[old_order[w] as int]);
                            }
                        }
                    }
                }
            } else if p == 1 {
                let failing = fails[t];
                if let Some(g) = held.take() {
                    g.drop(&mut m, failing);
                }
                pc.set(t, 2);
                proof {
                    let last = order@.len() - 1;
                    if failing {
                        assert(fails@[order@[last] as int]);
                    }
                    if failed_before(fails@, order@, order@.len() as int) && !failed_before(fails@, order@, last) {
                        let w = choose|w: int| 0 <= w < order@.len() && #[trigger] fails@[order@[w] as int];
                        assert(w == last);
                    }
                }
            }
        }
        proof {
            if one_by_one {
                let q = (step - 1) / 2;
                assert(pc@[q as int] == pc_before[q as int] + 1);
                assert forall|i: int| 0 <= i < n implies #[trigger] pc@[i] == sequential_pc(i, step as int, 2) by {
                    assert(pc_before[i] == sequential_pc(i, step - 1, 2));
                    if i != q {
                        assert(pc@[i] == pc_before[i]);
                    }
                }
                if pc_before[q as int] == 0 {
                    assert(order@ =~= order_before.push(q as usize));
                }
                assert(order@ =~= Seq::new(((step + 1) / 2) as nat, |k: int| k as usize));
            }
        }
    }
    let poisoned = m.poisoned();
    proof {
        if one_by_one {
            assert((2 * n + 1) / 2 == n);
            assert(order@ =~= Seq::new(n as nat, |k: int| k as usize));
        }
        if poisoned && m.owner() is Some {
            let w = choose|w: int| 0 <= w < order@.len() - 1 && #[trigger] fails@[order@[w] as int];
            assert(0 <= w < order@.len());
        }
    }
    PoisonRun { order, poisoned_seen: seen, poisoned }
}

} // verus!
