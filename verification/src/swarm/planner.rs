//! Execution plans: tasks grouped into waves, each wave holding the tasks
//! whose dependencies ran in earlier waves, highest priority first.
use vstd::prelude::*;
use crate::base::types::strs;
use crate::swarm::{fresh_task, lemma_task_views_push, task_views, AgentTask, TaskView};
use crate::text::{decimal, decimal_chars, extend, chars_of, str_eq, string_of};

verus! {

/// Whether `x` is one of the strings of `list`.
pub fn listed(list: &[String], x: &str) -> (b: bool)
    ensures
        b == strs(list@).contains(x@),
{
    let mut i: usize = 0;
    while i < list.len()
        invariant
            i <= list.len(),
            forall|k: int| 0 <= k < i ==> strs(list@)[k] != x@,
        decreases list.len() - i,
    {
        if str_eq(list[i].as_str(), x) {
            assert(strs(list@)[i as int] == x@);
            return true;
        }
        i = i + 1;
    }
    false
}

/// Every dependency of `t` is in `done`.
pub open spec fn deps_met(t: TaskView, done: Seq<Seq<char>>) -> bool {
    forall|j: int| 0 <= j < t.depends_on.len() ==> done.contains(#[trigger] t.depends_on[j])
}

/// The tasks of `rem` whose dependencies are all in `done`, in order.
pub open spec fn ready(rem: Seq<TaskView>, done: Seq<Seq<char>>) -> Seq<TaskView>
    decreases rem.len(),
{
    if rem.len() == 0 {
        Seq::empty()
    } else if deps_met(rem.last(), done) {
        ready(rem.drop_last(), done).push(rem.last())
    } else {
        ready(rem.drop_last(), done)
    }
}

/// The tasks of `rem` whose id is not in `done`, in order.
pub open spec fn not_done(rem: Seq<TaskView>, done: Seq<Seq<char>>) -> Seq<TaskView>
    decreases rem.len(),
{
    if rem.len() == 0 {
        Seq::empty()
    } else if done.contains(rem.last().id) {
        not_done(rem.drop_last(), done)
    } else {
        not_done(rem.drop_last(), done).push(rem.last())
    }
}

/// The ids of `s`, in order.
pub open spec fn task_ids(s: Seq<TaskView>) -> Seq<Seq<char>> {
    s.map_values(|t: TaskView| t.id)
}

/// The tasks of `s` with priority `p`, in order.
pub open spec fn pri_bucket(s: Seq<TaskView>, p: u8) -> Seq<TaskView>
    decreases s.len(),
{
    if s.len() == 0 {
        Seq::empty()
    } else if s.last().priority == p {
        pri_bucket(s.drop_last(), p).push(s.last())
    } else {
        pri_bucket(s.drop_last(), p)
    }
}

/// The tasks of `s` with the `k` highest priorities (255 down to
/// `256 - k`), priority by priority, each priority in the order of `s`.
pub open spec fn top_buckets(s: Seq<TaskView>, k: nat) -> Seq<TaskView>
    decreases k,
{
    if k == 0 {
        Seq::empty()
    } else {
        top_buckets(s, (k - 1) as nat) + pri_bucket(s, (256 - k) as u8)
    }
}

/// `s` stably sorted by priority, highest first.
pub open spec fn by_priority(s: Seq<TaskView>) -> Seq<TaskView> {
    top_buckets(s, 256)
}

pub proof fn lemma_not_done_len(rem: Seq<TaskView>, done: Seq<Seq<char>>)
    ensures
        not_done(rem, done).len() <= rem.len(),
        (exists|i: int| 0 <= i < rem.len() && done.contains(#[trigger] rem[i].id)) ==> not_done(
            rem,
            done,
        ).len() < rem.len(),
    decreases rem.len(),
{
    if rem.len() > 0 {
        lemma_not_done_len(rem.drop_last(), done);
        if exists|i: int| 0 <= i < rem.len() && done.contains(#[trigger] rem[i].id) {
            let i = choose|i: int| 0 <= i < rem.len() && done.contains(#[trigger] rem[i].id);
            if i < rem.len() - 1 {
                assert(rem.drop_last()[i] == rem[i]);
            }
        }
    }
}

pub proof fn lemma_ready_members(rem: Seq<TaskView>, done: Seq<Seq<char>>)
    ensures
        ready(rem, done).len() <= rem.len(),
        forall|i: int|
            0 <= i < ready(rem, done).len() ==> rem.contains(#[trigger] ready(rem, done)[i])
                && deps_met(ready(rem, done)[i], done),
    decreases rem.len(),
{
    if rem.len() > 0 {
        lemma_ready_members(rem.drop_last(), done);
        let r = ready(rem, done);
        let p = ready(rem.drop_last(), done);
        assert forall|i: int| 0 <= i < r.len() implies rem.contains(#[trigger] r[i]) && deps_met(
            r[i],
            done,
        ) by {
            if i < p.len() {
                assert(r[i] == p[i]);
                let j = choose|j: int| 0 <= j < rem.drop_last().len() && rem.drop_last()[j] == p[i];
                assert(rem[j] == p[i]);
            } else {
                assert(r[i] == rem[rem.len() - 1]);
            }
        }
    }
}

/// Once the ready tasks have run, fewer tasks remain.
pub proof fn lemma_round_shrinks(rem: Seq<TaskView>, done: Seq<Seq<char>>)
    requires
        ready(rem, done).len() > 0,
    ensures
        not_done(rem, done + task_ids(ready(rem, done))).len() < rem.len(),
{
    let w = ready(rem, done);
    lemma_ready_members(rem, done);
    assert(rem.contains(w[0]));
    let i = choose|i: int| 0 <= i < rem.len() && rem[i] == w[0];
    let d2 = done + task_ids(w);
    assert(d2[done.len() as int] == w[0].id);
    assert(d2.contains(rem[i].id));
    lemma_not_done_len(rem, d2);
}

/// The waves for the tasks `rem`, once the tasks with ids in `done` have
/// run: the tasks whose dependencies have all run form the next wave,
/// sorted by priority, highest first; their ids join `done`, every task
/// with one of those ids leaves `rem`, and so on until no task is ready.
pub open spec fn plan_from(rem: Seq<TaskView>, done: Seq<Seq<char>>) -> Seq<Seq<TaskView>>
    decreases rem.len(),
{
    let wave = ready(rem, done);
    if rem.len() == 0 || wave.len() == 0 {
        Seq::empty()
    } else {
        let done2 = done + task_ids(wave);
        proof {
            lemma_round_shrinks(rem, done);
        }
        seq![by_priority(wave)] + plan_from(not_done(rem, done2), done2)
    }
}

/// The execution plan of `tasks`.
pub open spec fn execution_plan(tasks: Seq<TaskView>) -> Seq<Seq<TaskView>> {
    plan_from(tasks, Seq::empty())
}

pub proof fn lemma_bucket_contains(s: Seq<TaskView>, p: u8, x: TaskView)
    ensures
        pri_bucket(s, p).contains(x) <==> (s.contains(x) && x.priority == p),
        forall|i: int| 0 <= i < pri_bucket(s, p).len() ==> #[trigger] pri_bucket(s, p)[i].priority == p,
    decreases s.len(),
{
    if s.len() > 0 {
        lemma_bucket_contains(s.drop_last(), p, x);
        let b = pri_bucket(s, p);
        let b0 = pri_bucket(s.drop_last(), p);
        if s.contains(x) && x.priority == p {
            let i = choose|i: int| 0 <= i < s.len() && s[i] == x;
            if i < s.len() - 1 {
                assert(s.drop_last()[i] == x);
                let j = choose|j: int| 0 <= j < b0.len() && b0[j] == x;
                if s.last().priority == p {
                    assert(b[j] == x);
                }
            } else {
                assert(b[b.len() - 1] == x);
            }
        }
        if b.contains(x) {
            let j = choose|j: int| 0 <= j < b.len() && b[j] == x;
            if j < b0.len() {
                assert(b0[j] == x);
                let i = choose|i: int| 0 <= i < s.drop_last().len() && s.drop_last()[i] == x;
                assert(s[i] == x);
            } else {
                assert(s[s.len() - 1] == x);
            }
        }
    }
}

pub proof fn lemma_top_buckets(s: Seq<TaskView>, k: nat, x: TaskView)
    requires
        k <= 256,
    ensures
        top_buckets(s, k).contains(x) <==> (s.contains(x) && x.priority >= 256 - k),
        forall|i: int| 0 <= i < top_buckets(s, k).len() ==> #[trigger] top_buckets(s, k)[i].priority >= 256 - k,
        forall|a: int, b: int|
            0 <= a < b < top_buckets(s, k).len() ==> #[trigger] top_buckets(s, k)[a].priority
                >= #[trigger] top_buckets(s, k)[b].priority,
    decreases k,
{
    if k > 0 {
        let p = (256 - k) as u8;
        lemma_top_buckets(s, (k - 1) as nat, x);
        lemma_bucket_contains(s, p, x);
        let t0 = top_buckets(s, (k - 1) as nat);
        let b = pri_bucket(s, p);
        let t = top_buckets(s, k);
        assert(t == t0 + b);
        assert forall|i: int| 0 <= i < t.len() implies #[trigger] t[i].priority >= 256 - k by {
            if i < t0.len() {
                assert(t[i] == t0[i]);
            } else {
                assert(t[i] == b[i - t0.len()]);
            }
        }
        assert forall|a: int, c: int| 0 <= a < c < t.len() implies #[trigger] t[a].priority
            >= #[trigger] t[c].priority by {
            if c < t0.len() {
                assert(t[a] == t0[a]);
                assert(t[c] == t0[c]);
            } else if a < t0.len() {
                assert(t[a] == t0[a]);
                assert(t[c] == b[c - t0.len()]);
            } else {
                assert(t[a] == b[a - t0.len()]);
                assert(t[c] == b[c - t0.len()]);
            }
        }
        if t.contains(x) {
            let j = choose|j: int| 0 <= j < t.len() && t[j] == x;
            if j < t0.len() {
                assert(t0[j] == x);
            } else {
                assert(b[j - t0.len()] == x);
            }
        }
        if s.contains(x) && x.priority >= 256 - k {
            if x.priority == p {
                let j = choose|j: int| 0 <= j < b.len() && b[j] == x;
                assert(t[t0.len() + j] == x);
            } else {
                let j = choose|j: int| 0 <= j < t0.len() && t0[j] == x;
                assert(t[j] == x);
            }
        }
    }
}

pub proof fn lemma_not_done_members(rem: Seq<TaskView>, done: Seq<Seq<char>>)
    ensures
        forall|i: int| 0 <= i < not_done(rem, done).len() ==> rem.contains(#[trigger] not_done(rem, done)[i]),
    decreases rem.len(),
{
    if rem.len() > 0 {
        lemma_not_done_members(rem.drop_last(), done);
        let r = not_done(rem, done);
        let p = not_done(rem.drop_last(), done);
        assert forall|i: int| 0 <= i < r.len() implies rem.contains(#[trigger] r[i]) by {
            if i < p.len() {
                assert(r[i] == p[i]);
                let j = choose|j: int| 0 <= j < rem.drop_last().len() && rem.drop_last()[j] == p[i];
                assert(rem[j] == p[i]);
            } else {
                assert(r[i] == rem[rem.len() - 1]);
            }
        }
    }
}

/// A dependency `d` has run before wave `k` of `plan`: it is the id of a
/// task of an earlier wave.
pub open spec fn ran_before(plan: Seq<Seq<TaskView>>, k: int, d: Seq<char>) -> bool {
    exists|k2: int, i2: int| 0 <= k2 < k && 0 <= i2 < plan[k2].len() && #[trigger] plan[k2][i2].id == d
}

pub proof fn lemma_plan_from_laws(rem: Seq<TaskView>, done: Seq<Seq<char>>)
    ensures
        forall|k: int, i: int, j: int|
            0 <= k < plan_from(rem, done).len() && 0 <= i < plan_from(rem, done)[k].len() && 0 <= j
                < plan_from(rem, done)[k][i].depends_on.len() ==> done.contains(
                #[trigger] plan_from(rem, done)[k][i].depends_on[j],
            ) || ran_before(plan_from(rem, done), k, plan_from(rem, done)[k][i].depends_on[j]),
        forall|k: int, i: int|
            0 <= k < plan_from(rem, done).len() && 0 <= i < plan_from(rem, done)[k].len()
                ==> rem.contains(#[trigger] plan_from(rem, done)[k][i]),
        forall|k: int, a: int, b: int|
            0 <= k < plan_from(rem, done).len() && 0 <= a < b < plan_from(rem, done)[k].len()
                ==> #[trigger] plan_from(rem, done)[k][a].priority >= #[trigger] plan_from(
                rem,
                done,
            )[k][b].priority,
    decreases rem.len(),
{
    let w = ready(rem, done);
    if rem.len() > 0 && w.len() > 0 {
        let done2 = done + task_ids(w);
        let rem2 = not_done(rem, done2);
        lemma_round_shrinks(rem, done);
        lemma_plan_from_laws(rem2, done2);
        lemma_ready_members(rem, done);
        lemma_not_done_members(rem, done2);
        let plan = plan_from(rem, done);
        let plan2 = plan_from(rem2, done2);
        let sw = by_priority(w);
        assert(plan == seq![sw] + plan2);
        assert forall|k: int, i: int, j: int|
            0 <= k < plan.len() && 0 <= i < plan[k].len() && 0 <= j < plan[k][i].depends_on.len()
                implies done.contains(#[trigger] plan[k][i].depends_on[j]) || ran_before(
            plan,
            k,
            plan[k][i].depends_on[j],
        ) by {
            let d = plan[k][i].depends_on[j];
            if k == 0 {
                let x = sw[i];
                lemma_top_buckets(w, 256, x);
                assert(sw.contains(x));
                let m = choose|m: int| 0 <= m < w.len() && w[m] == x;
                assert(deps_met(w[m], done));
                assert(done.contains(x.depends_on[j]));
            } else {
                assert(plan[k] == plan2[k - 1]);
                if done2.contains(d) {
                    let n = choose|n: int| 0 <= n < done2.len() && done2[n] == d;
                    if n >= done.len() {
                        let m = n - done.len();
                        assert(task_ids(w)[m] == d);
                        let x = w[m];
                        assert(w.contains(x));
                        lemma_top_buckets(w, 256, x);
                        let i2 = choose|i2: int| 0 <= i2 < sw.len() && sw[i2] == x;
                        assert(plan[0][i2].id == d);
                    } else {
                        assert(done[n] == d);
                    }
                } else {
                    assert(ran_before(plan2, k - 1, d));
                    let (k2, i2) = choose|k2: int, i2: int|
                        0 <= k2 < k - 1 && 0 <= i2 < plan2[k2].len() && #[trigger] plan2[k2][i2].id == d;
                    assert(plan[k2 + 1] == plan2[k2]);
                    assert(plan[k2 + 1][i2].id == d);
                }
            }
        }
        assert forall|k: int, i: int| 0 <= k < plan.len() && 0 <= i < plan[k].len() implies rem.contains(
            #[trigger] plan[k][i],
        ) by {
            if k == 0 {
                let x = sw[i];
                lemma_top_buckets(w, 256, x);
                assert(sw.contains(x));
                let m = choose|m: int| 0 <= m < w.len() && w[m] == x;
            } else {
                assert(plan[k] == plan2[k - 1]);
                assert(rem2.contains(plan2[k - 1][i]));
                let m = choose|m: int| 0 <= m < rem2.len() && rem2[m] == plan2[k - 1][i];
            }
        }
        assert forall|k: int, a: int, b: int|
            0 <= k < plan.len() && 0 <= a < b < plan[k].len() implies #[trigger] plan[k][a].priority
            >= #[trigger] plan[k][b].priority by {
            if k == 0 {
                lemma_top_buckets(w, 256, sw[a]);
            } else {
                assert(plan[k] == plan2[k - 1]);
            }
        }
    }
}

/// In the execution plan, every dependency of a task in a wave is the id
/// of a task in an earlier wave: tasks run only after what they wait for.
pub proof fn law_plan_respects_dependencies(tasks: Seq<TaskView>, k: int, i: int, j: int)
    requires
        0 <= k < execution_plan(tasks).len(),
        0 <= i < execution_plan(tasks)[k].len(),
        0 <= j < execution_plan(tasks)[k][i].depends_on.len(),
    ensures
        ran_before(execution_plan(tasks), k, execution_plan(tasks)[k][i].depends_on[j]),
{
    lemma_plan_from_laws(tasks, Seq::empty());
    assert(!Seq::<Seq<char>>::empty().contains(execution_plan(tasks)[k][i].depends_on[j]));
}

/// Each wave of the execution plan runs its tasks highest priority first.
pub proof fn law_waves_by_priority(tasks: Seq<TaskView>, k: int, a: int, b: int)
    requires
        0 <= k < execution_plan(tasks).len(),
        0 <= a < b < execution_plan(tasks)[k].len(),
    ensures
        execution_plan(tasks)[k][a].priority >= execution_plan(tasks)[k][b].priority,
{
    lemma_plan_from_laws(tasks, Seq::empty());
}

/// Every task of the execution plan is one of the tasks given.
pub proof fn law_plan_tasks_are_given(tasks: Seq<TaskView>, k: int, i: int)
    requires
        0 <= k < execution_plan(tasks).len(),
        0 <= i < execution_plan(tasks)[k].len(),
    ensures
        tasks.contains(execution_plan(tasks)[k][i]),
{
    lemma_plan_from_laws(tasks, Seq::empty());
}

/// The ids of the tasks of a plan, wave by wave.
pub open spec fn planned_ids(plan: Seq<Seq<TaskView>>) -> Seq<Seq<char>>
    decreases plan.len(),
{
    if plan.len() == 0 {
        Seq::empty()
    } else {
        task_ids(plan[0]) + planned_ids(plan.skip(1))
    }
}

pub proof fn lemma_ready_complete(rem: Seq<TaskView>, done: Seq<Seq<char>>, t: TaskView)
    requires
        rem.contains(t),
        deps_met(t, done),
    ensures
        ready(rem, done).contains(t),
    decreases rem.len(),
{
    let r = ready(rem, done);
    if rem.last() == t {
        assert(r[r.len() - 1] == t);
    } else {
        let i = choose|i: int| 0 <= i < rem.len() && rem[i] == t;
        assert(rem.drop_last()[i] == t);
        lemma_ready_complete(rem.drop_last(), done, t);
        let p = ready(rem.drop_last(), done);
        let j = choose|j: int| 0 <= j < p.len() && p[j] == t;
        assert(r[j] == t);
    }
}

pub proof fn lemma_not_done_keeps(rem: Seq<TaskView>, done: Seq<Seq<char>>, t: TaskView)
    requires
        rem.contains(t),
        !done.contains(t.id),
    ensures
        not_done(rem, done).contains(t),
    decreases rem.len(),
{
    let r = not_done(rem, done);
    if rem.last() == t {
        assert(r[r.len() - 1] == t);
    } else {
        let i = choose|i: int| 0 <= i < rem.len() && rem[i] == t;
        assert(rem.drop_last()[i] == t);
        lemma_not_done_keeps(rem.drop_last(), done, t);
        let p = not_done(rem.drop_last(), done);
        let j = choose|j: int| 0 <= j < p.len() && p[j] == t;
        assert(r[j] == t);
    }
}

/// The ids of a wave are those of its priority order.
pub proof fn lemma_sorted_ids(w: Seq<TaskView>, x: Seq<char>)
    ensures
        task_ids(by_priority(w)).contains(x) <==> task_ids(w).contains(x),
{
    let sw = by_priority(w);
    if task_ids(sw).contains(x) {
        let j = choose|j: int| 0 <= j < task_ids(sw).len() && task_ids(sw)[j] == x;
        lemma_top_buckets(w, 256, sw[j]);
        assert(sw.contains(sw[j]));
        let i = choose|i: int| 0 <= i < w.len() && w[i] == sw[j];
        assert(task_ids(w)[i] == x);
    }
    if task_ids(w).contains(x) {
        let i = choose|i: int| 0 <= i < task_ids(w).len() && task_ids(w)[i] == x;
        lemma_top_buckets(w, 256, w[i]);
        assert(w.contains(w[i]));
        let j = choose|j: int| 0 <= j < sw.len() && sw[j] == w[i];
        assert(task_ids(sw)[j] == x);
    }
}

pub proof fn lemma_plan_from_complete(rem: Seq<TaskView>, done: Seq<Seq<char>>, t: TaskView)
    requires
        rem.contains(t),
    ensures
        ({
            let d = done + planned_ids(plan_from(rem, done));
            d.contains(t.id) || exists|j: int|
                0 <= j < t.depends_on.len() && !d.contains(#[trigger] t.depends_on[j])
        }),
    decreases rem.len(),
{
    let w = ready(rem, done);
    let plan = plan_from(rem, done);
    let d = done + planned_ids(plan);
    if w.len() == 0 {
        assert(plan.len() == 0);
        assert(d =~= done);
        if !deps_met(t, done) {
            let j = choose|j: int| 0 <= j < t.depends_on.len() && !done.contains(#[trigger] t.depends_on[j]);
        } else {
            lemma_ready_complete(rem, done, t);
        }
    } else {
        let done2 = done + task_ids(w);
        let rem2 = not_done(rem, done2);
        let plan2 = plan_from(rem2, done2);
        let sw = by_priority(w);
        lemma_round_shrinks(rem, done);
        assert(plan == seq![sw] + plan2);
        assert(plan[0] == sw);
        assert(plan.skip(1) =~= plan2);
        assert(planned_ids(plan) == task_ids(sw) + planned_ids(plan2));
        let d2 = done2 + planned_ids(plan2);
        assert forall|x: Seq<char>| d2.contains(x) <==> d.contains(x) by {
            lemma_sorted_ids(w, x);
            if d2.contains(x) {
                let n = choose|n: int| 0 <= n < d2.len() && d2[n] == x;
                if n < done.len() {
                    assert(d[n] == x);
                } else if n < done2.len() {
                    assert(task_ids(w)[n - done.len()] == x);
                    assert(task_ids(w).contains(x));
                    let q = choose|q: int| 0 <= q < task_ids(sw).len() && task_ids(sw)[q] == x;
                    assert(d[done.len() + q] == x);
                } else {
                    assert(d[n - done2.len() + done.len() + task_ids(sw).len()] == x);
                }
            }
            if d.contains(x) {
                let n = choose|n: int| 0 <= n < d.len() && d[n] == x;
                if n < done.len() {
                    assert(d2[n] == x);
                } else if n < done.len() + task_ids(sw).len() {
                    assert(task_ids(sw)[n - done.len()] == x);
                    assert(task_ids(sw).contains(x));
                    let q = choose|q: int| 0 <= q < task_ids(w).len() && task_ids(w)[q] == x;
                    assert(d2[done.len() + q] == x);
                } else {
                    assert(d2[n - done.len() - task_ids(sw).len() + done2.len()] == x);
                }
            }
        }
        if done2.contains(t.id) {
            let n = choose|n: int| 0 <= n < done2.len() && done2[n] == t.id;
            assert(d2[n] == t.id);
        } else {
            lemma_not_done_keeps(rem, done2, t);
            lemma_plan_from_complete(rem2, done2, t);
            if !d2.contains(t.id) {
                let j = choose|j: int| 0 <= j < t.depends_on.len() && !d2.contains(#[trigger] t.depends_on[j]);
                assert(!d.contains(t.depends_on[j]));
            }
        }
    }
}

/// No task is forgotten: every task given is planned (a task with its id
/// runs), unless one of its dependencies never runs.
pub proof fn law_unplanned_tasks_wait_on_missing(tasks: Seq<TaskView>, t: TaskView)
    requires
        tasks.contains(t),
    ensures
        planned_ids(execution_plan(tasks)).contains(t.id) || exists|j: int|
            0 <= j < t.depends_on.len() && !planned_ids(execution_plan(tasks)).contains(
                #[trigger] t.depends_on[j],
            ),
{
    lemma_plan_from_complete(tasks, Seq::empty(), t);
    assert(Seq::<Seq<char>>::empty() + planned_ids(execution_plan(tasks)) =~= planned_ids(
        execution_plan(tasks),
    ));
}

/// The contents of a sequence of waves.
pub open spec fn wave_views(w: Seq<Vec<AgentTask>>) -> Seq<Seq<TaskView>> {
    w.map_values(|v: Vec<AgentTask>| task_views(v@))
}

/// Whether every dependency of `t` is one of `done`.
fn deps_done(t: &AgentTask, done: &Vec<String>) -> (b: bool)
    ensures
        b == deps_met(t@, strs(done@)),
{
    let mut j: usize = 0;
    while j < t.depends_on.len()
        invariant
            j <= t.depends_on.len(),
            forall|k: int| 0 <= k < j ==> strs(done@).contains(#[trigger] strs(t.depends_on@)[k]),
        decreases t.depends_on.len() - j,
    {
        if !listed(done.as_slice(), t.depends_on[j].as_str()) {
            assert(!strs(done@).contains(t@.depends_on[j as int]));
            return false;
        }
        j = j + 1;
    }
    true
}

/// `s` stably sorted by priority, highest first.
pub fn sort_by_priority(s: &Vec<AgentTask>) -> (r: Vec<AgentTask>)
    ensures
        task_views(r@) == by_priority(task_views(s@)),
{
    let ghost c = task_views(s@);
    let mut out: Vec<AgentTask> = Vec::new();
    let mut k: u32 = 0;
    assert(task_views(out@) =~= top_buckets(c, 0));
    while k < 256
        invariant
            k <= 256,
            c == task_views(s@),
            task_views(out@) == top_buckets(c, k as nat),
        decreases 256 - k,
    {
        let p: u8 = (255 - k) as u8;
        let ghost before = task_views(out@);
        let mut i: usize = 0;
        assert(c.take(0) =~= Seq::<TaskView>::empty());
        assert(before + pri_bucket(c.take(0), p) =~= before);
        while i < s.len()
            invariant
                i <= s.len(),
                c == task_views(s@),
                task_views(out@) == before + pri_bucket(c.take(i as int), p),
            decreases s.len() - i,
        {
            assert(c.take(i + 1).drop_last() =~= c.take(i as int));
            assert(c.take(i + 1).last() == s@[i as int]@);
            if s[i].priority == p {
                let t = s[i].duplicate();
                proof {
                    lemma_task_views_push(out@, t);
                }
                out.push(t);
                assert(task_views(out@) =~= before + pri_bucket(c.take(i + 1), p));
            }
            i = i + 1;
        }
        assert(c.take(s.len() as int) =~= c);
        assert((256 - (k + 1)) as u8 == p);
        k = k + 1;
    }
    out
}

/// Tasks grouped into waves: each wave holds the tasks whose dependencies
/// all ran in earlier waves, highest priority first (ties keep their
/// order). Tasks whose dependencies never run are left out.
pub fn build_execution_plan(tasks: &[AgentTask]) -> (waves: Vec<Vec<AgentTask>>)
    ensures
        wave_views(waves@) == execution_plan(task_views(tasks@)),
{
    let ghost all = task_views(tasks@);
    let mut waves: Vec<Vec<AgentTask>> = Vec::new();
    let mut done: Vec<String> = Vec::new();
    let mut remaining: Vec<AgentTask> = Vec::new();
    let mut i: usize = 0;
    while i < tasks.len()
        invariant
            i <= tasks.len(),
            task_views(remaining@) == task_views(tasks@).take(i as int),
        decreases tasks.len() - i,
    {
        let t = tasks[i].duplicate();
        proof {
            lemma_task_views_push(remaining@, t);
        }
        remaining.push(t);
        assert(task_views(remaining@) =~= task_views(tasks@).take(i + 1));
        i = i + 1;
    }
    assert(task_views(tasks@).take(tasks.len() as int) =~= all);
    assert(wave_views(waves@) =~= Seq::<Seq<TaskView>>::empty());
    assert(strs(done@) =~= Seq::<Seq<char>>::empty());
    while remaining.len() > 0
        invariant_except_break
            all == task_views(tasks@),
            execution_plan(all) == wave_views(waves@) + plan_from(
                task_views(remaining@),
                strs(done@),
            ),
        ensures
            wave_views(waves@) == execution_plan(all),
        decreases remaining.len(),
    {
        let ghost rem = task_views(remaining@);
        let ghost d = strs(done@);
        // the tasks that can run now
        let mut wave: Vec<AgentTask> = Vec::new();
        let mut j: usize = 0;
        assert(rem.take(0) =~= Seq::<TaskView>::empty());
        while j < remaining.len()
            invariant
                j <= remaining.len(),
                rem == task_views(remaining@),
                d == strs(done@),
                task_views(wave@) == ready(rem.take(j as int), d),
            decreases remaining.len() - j,
        {
            assert(rem.take(j + 1).drop_last() =~= rem.take(j as int));
            assert(rem.take(j + 1).last() == remaining@[j as int]@);
            if deps_done(&remaining[j], &done) {
                let t = remaining[j].duplicate();
                proof {
                    lemma_task_views_push(wave@, t);
                }
                wave.push(t);
                assert(task_views(wave@) =~= ready(rem.take(j + 1), d));
            }
            j = j + 1;
        }
        assert(rem.take(remaining.len() as int) =~= rem);
        if wave.len() == 0 {
            assert(wave_views(waves@) + Seq::<Seq<TaskView>>::empty() =~= wave_views(waves@));
            break;
        }
        // their ids join the done list
        let ghost w = task_views(wave@);
        let mut j: usize = 0;
        assert(d + task_ids(w.take(0)) =~= d);
        while j < wave.len()
            invariant
                j <= wave.len(),
                w == task_views(wave@),
                strs(done@) == d + task_ids(w.take(j as int)),
            decreases wave.len() - j,
        {
            let id = wave[j].id.clone();
            let ghost old_done = done@;
            done.push(id);
            assert(strs(done@) =~= strs(old_done).push(id@));
            assert(task_ids(w.take(j + 1)) =~= task_ids(w.take(j as int)).push(w[j as int].id));
            assert(strs(done@) =~= d + task_ids(w.take(j + 1)));
            j = j + 1;
        }
        assert(w.take(wave.len() as int) =~= w);
        let ghost d2 = strs(done@);
        // the tasks not yet run stay
        let mut kept: Vec<AgentTask> = Vec::new();
        let mut j: usize = 0;
        assert(rem.take(0) =~= Seq::<TaskView>::empty());
        while j < remaining.len()
            invariant
                j <= remaining.len(),
                rem == task_views(remaining@),
                d2 == strs(done@),
                task_views(kept@) == not_done(rem.take(j as int), d2),
            decreases remaining.len() - j,
        {
            assert(rem.take(j + 1).drop_last() =~= rem.take(j as int));
            assert(rem.take(j + 1).last() == remaining@[j as int]@);
            if !listed(done.as_slice(), remaining[j].id.as_str()) {
                let t = remaining[j].duplicate();
                proof {
                    lemma_task_views_push(kept@, t);
                }
                kept.push(t);
                assert(task_views(kept@) =~= not_done(rem.take(j + 1), d2));
            }
            j = j + 1;
        }
        assert(rem.take(remaining.len() as int) =~= rem);
        let sorted = sort_by_priority(&wave);
        let ghost before = wave_views(waves@);
        waves.push(sorted);
        assert(wave_views(waves@) =~= before.push(by_priority(w)));
        proof {
            lemma_round_shrinks(rem, d);
            assert(plan_from(rem, d) == seq![by_priority(w)] + plan_from(not_done(rem, d2), d2));
            assert(before + plan_from(rem, d) =~= before.push(by_priority(w)) + plan_from(
                not_done(rem, d2),
                d2,
            ));
        }
        remaining = kept;
    }
    waves
}


/// The tasks a scan can plan, in planning order: tool, task name and
/// priority. Pattern analysis comes first, then static analysers, then
/// dynamic testers, then leak scanners.
pub open spec fn scan_catalog() -> Seq<(Seq<char>, Seq<char>, u8)> {
    seq![
        ("semgrep"@, "Pattern Analysis"@, 10u8),
        ("slither"@, "Static: slither"@, 8u8),
        ("aderyn"@, "Static: aderyn"@, 8u8),
        ("mythril"@, "Static: mythril"@, 8u8),
        ("solhint"@, "Static: solhint"@, 8u8),
        ("clippy"@, "Static: clippy"@, 8u8),
        ("cargo-audit"@, "Static: cargo-audit"@, 8u8),
        ("echidna"@, "Dynamic: echidna"@, 6u8),
        ("manticore"@, "Dynamic: manticore"@, 6u8),
        ("halmos"@, "Dynamic: halmos"@, 6u8),
        ("nuclei"@, "Dynamic: nuclei"@, 6u8),
        ("nikto"@, "Dynamic: nikto"@, 6u8),
        ("ffuf"@, "Dynamic: ffuf"@, 6u8),
        ("gobuster"@, "Dynamic: gobuster"@, 6u8),
        ("sqlmap"@, "Dynamic: sqlmap"@, 6u8),
        ("trufflehog"@, "Leak scan: trufflehog"@, 5u8),
        ("gitleaks"@, "Leak scan: gitleaks"@, 5u8),
    ]
}

/// The id of the `n`-th task planned: `task-n`.
pub open spec fn task_id(n: nat) -> Seq<char> {
    "task-"@ + decimal(n)
}

/// The tasks planned from the catalog entries `cat` for the available
/// `tools`, once `n` tasks are planned: one per entry whose tool is
/// available, numbered on from `n + 1`.
pub open spec fn scan_tasks_from(
    tools: Seq<Seq<char>>,
    cat: Seq<(Seq<char>, Seq<char>, u8)>,
    n: nat,
) -> Seq<TaskView>
    decreases cat.len(),
{
    if cat.len() == 0 {
        Seq::empty()
    } else if tools.contains(cat[0].0) {
        seq![fresh_task(task_id(n + 1), cat[0].1, cat[0].0, cat[0].2)] + scan_tasks_from(
            tools,
            cat.skip(1),
            n + 1,
        )
    } else {
        scan_tasks_from(tools, cat.skip(1), n)
    }
}

/// The tasks of a scan with the available `tools`.
pub open spec fn scan_tasks(tools: Seq<Seq<char>>) -> Seq<TaskView> {
    scan_tasks_from(tools, scan_catalog(), 0)
}

/// The catalog entries as plain sequences.
pub open spec fn catalog_views(v: Seq<(&str, &str, u8)>) -> Seq<(Seq<char>, Seq<char>, u8)> {
    v.map_values(|e: (&str, &str, u8)| (e.0@, e.1@, e.2))
}

/// The scan catalog.
fn catalog() -> (v: Vec<(&'static str, &'static str, u8)>)
    ensures
        catalog_views(v@) == scan_catalog(),
{
    let v = vec![
        ("semgrep", "Pattern Analysis", 10u8),
        ("slither", "Static: slither", 8u8),
        ("aderyn", "Static: aderyn", 8u8),
        ("mythril", "Static: mythril", 8u8),
        ("solhint", "Static: solhint", 8u8),
        ("clippy", "Static: clippy", 8u8),
        ("cargo-audit", "Static: cargo-audit", 8u8),
        ("echidna", "Dynamic: echidna", 6u8),
        ("manticore", "Dynamic: manticore", 6u8),
        ("halmos", "Dynamic: halmos", 6u8),
        ("nuclei", "Dynamic: nuclei", 6u8),
        ("nikto", "Dynamic: nikto", 6u8),
        ("ffuf", "Dynamic: ffuf", 6u8),
        ("gobuster", "Dynamic: gobuster", 6u8),
        ("sqlmap", "Dynamic: sqlmap", 6u8),
        ("trufflehog", "Leak scan: trufflehog", 5u8),
        ("gitleaks", "Leak scan: gitleaks", 5u8),
    ];
    assert(catalog_views(v@) =~= scan_catalog());
    v
}

/// The tasks of a scan: one for each catalog tool that is among `tools`,
/// numbered `task-1`, `task-2`, ... in catalog order. The target and domain
/// do not change the plan.
pub fn build_scan_tasks(tools: &[String], _target: &str, _domain: &str) -> (r: Vec<AgentTask>)
    ensures
        task_views(r@) == scan_tasks(strs(tools@)),
{
    let cat = catalog();
    let ghost cv = catalog_views(cat@);
    let ghost ts = strs(tools@);
    let mut tasks: Vec<AgentTask> = Vec::new();
    let mut counter: u64 = 0;
    let mut i: usize = 0;
    assert(cv.skip(0) =~= cv);
    assert(task_views(tasks@) + scan_tasks_from(ts, cv.skip(0), 0) =~= scan_tasks(ts));
    while i < cat.len()
        invariant
            i <= cat.len(),
            cat.len() == 17,
            cv == catalog_views(cat@),
            ts == strs(tools@),
            counter <= i,
            task_views(tasks@) + scan_tasks_from(ts, cv.skip(i as int), counter as nat) == scan_tasks(
                ts,
            ),
        decreases cat.len() - i,
    {
        let (tool, name, priority) = cat[i];
        let ghost rest = cv.skip(i as int);
        assert(rest[0] == (tool@, name@, priority));
        assert(rest.skip(1) =~= cv.skip(i + 1));
        if listed(tools, tool) {
            counter = counter + 1;
            let mut id: Vec<char> = chars_of("task-");
            let digits = decimal_chars(counter);
            extend(&mut id, &digits);
            let id_s = string_of(&id);
            let t = AgentTask::new(id_s.as_str(), name, tool, priority);
            let ghost before = task_views(tasks@);
            proof {
                lemma_task_views_push(tasks@, t);
            }
            tasks.push(t);
            assert(before.push(t@) + scan_tasks_from(ts, cv.skip(i + 1), counter as nat) =~= before
                + scan_tasks_from(ts, rest, (counter - 1) as nat));
        }
        i = i + 1;
    }
    assert(cv.skip(17) =~= Seq::<(Seq<char>, Seq<char>, u8)>::empty());
    assert(task_views(tasks@) + Seq::<TaskView>::empty() =~= task_views(tasks@));
    tasks
}



/// The static analysers a scan can plan for.
pub open spec fn static_analysers() -> Seq<Seq<char>> {
    seq!["slither"@, "aderyn"@, "mythril"@, "solhint"@, "clippy"@, "cargo-audit"@]
}

/// The dynamic testers a scan can plan for.
pub open spec fn dynamic_testers() -> Seq<Seq<char>> {
    seq!["echidna"@, "manticore"@, "halmos"@, "nuclei"@, "nikto"@, "ffuf"@, "gobuster"@, "sqlmap"@]
}

/// The leak scanners a scan can plan for.
pub open spec fn leak_scanners() -> Seq<Seq<char>> {
    seq!["trufflehog"@, "gitleaks"@]
}

/// Planning from catalog entries: the first task is for the first entry
/// when its tool is available, and the rest come from the other entries.
proof fn lemma_scan_tasks_from_step(tools: Seq<Seq<char>>, cat: Seq<(Seq<char>, Seq<char>, u8)>, n: nat)
    requires
        cat.len() > 0,
    ensures
        tools.contains(cat[0].0) ==> scan_tasks_from(tools, cat, n) == seq![
            fresh_task(task_id(n + 1), cat[0].1, cat[0].0, cat[0].2),
        ] + scan_tasks_from(tools, cat.skip(1), n + 1),
        !tools.contains(cat[0].0) ==> scan_tasks_from(tools, cat, n) == scan_tasks_from(
            tools,
            cat.skip(1),
            n,
        ),
{
}

/// Every task planned from catalog entries is for an available tool of one
/// of the entries.
pub proof fn lemma_scan_tasks_from_sound(tools: Seq<Seq<char>>, cat: Seq<(Seq<char>, Seq<char>, u8)>, n: nat)
    ensures
        forall|i: int|
            0 <= i < scan_tasks_from(tools, cat, n).len() ==> exists|k: int|
                0 <= k < cat.len() && (#[trigger] scan_tasks_from(tools, cat, n)[i]).tool == cat[k].0
                    && tools.contains(cat[k].0),
    decreases cat.len(),
{
    if cat.len() > 0 {
        let c1 = cat.skip(1);
        let here = tools.contains(cat[0].0);
        let m: nat = if here { n + 1 } else { n };
        lemma_scan_tasks_from_sound(tools, c1, m);
        lemma_scan_tasks_from_step(tools, cat, n);
        let rest = scan_tasks_from(tools, c1, m);
        let r = scan_tasks_from(tools, cat, n);
        let off: int = if here { 1 } else { 0 };
        assert forall|i: int| 0 <= i < r.len() implies exists|k: int|
            0 <= k < cat.len() && (#[trigger] r[i]).tool == cat[k].0 && tools.contains(cat[k].0) by {
            if i < off {
                assert(r[i].tool == cat[0].0);
            } else {
                assert(r[i] == rest[i - off]);
                let k = choose|k: int| 0 <= k < c1.len() && (#[trigger] rest[i - off]).tool == c1[k].0
                    && tools.contains(c1[k].0);
                assert(c1[k] == cat[k + 1]);
            }
        }
    }
}

/// Every catalog entry whose tool is available gets a task with the
/// entry's tool, name and priority.
pub proof fn lemma_scan_tasks_from_covers(tools: Seq<Seq<char>>, cat: Seq<(Seq<char>, Seq<char>, u8)>, n: nat)
    ensures
        forall|k: int|
            0 <= k < cat.len() && tools.contains(#[trigger] cat[k].0) ==> exists|i: int|
                0 <= i < scan_tasks_from(tools, cat, n).len() && scan_tasks_from(tools, cat, n)[i].tool
                    == cat[k].0 && scan_tasks_from(tools, cat, n)[i].name == cat[k].1 && scan_tasks_from(
                    tools,
                    cat,
                    n,
                )[i].priority == cat[k].2,
    decreases cat.len(),
{
    if cat.len() > 0 {
        let c1 = cat.skip(1);
        let here = tools.contains(cat[0].0);
        let m: nat = if here { n + 1 } else { n };
        lemma_scan_tasks_from_covers(tools, c1, m);
        lemma_scan_tasks_from_step(tools, cat, n);
        let rest = scan_tasks_from(tools, c1, m);
        let r = scan_tasks_from(tools, cat, n);
        let off: int = if here { 1 } else { 0 };
        assert forall|k: int| 0 <= k < cat.len() && tools.contains(#[trigger] cat[k].0) implies exists|i: int|
            0 <= i < r.len() && r[i].tool == cat[k].0 && r[i].name == cat[k].1 && r[i].priority == cat[k].2 by {
            if k == 0 {
                assert(r[0].tool == cat[0].0);
            } else {
                assert(c1[k - 1] == cat[k]);
                let i = choose|i: int| 0 <= i < rest.len() && rest[i].tool == c1[k - 1].0 && rest[i].name
                    == c1[k - 1].1 && rest[i].priority == c1[k - 1].2;
                assert(r[i + off] == rest[i]);
            }
        }
    }
}

/// Where the catalog names each tool once, no tool gets two tasks.
pub proof fn lemma_scan_tasks_from_unique(tools: Seq<Seq<char>>, cat: Seq<(Seq<char>, Seq<char>, u8)>, n: nat)
    requires
        forall|a: int, b: int| 0 <= a < b < cat.len() ==> #[trigger] cat[a].0 != #[trigger] cat[b].0,
    ensures
        forall|i: int, j: int|
            0 <= i < j < scan_tasks_from(tools, cat, n).len() ==> #[trigger] scan_tasks_from(
                tools,
                cat,
                n,
            )[i].tool != #[trigger] scan_tasks_from(tools, cat, n)[j].tool,
    decreases cat.len(),
{
    if cat.len() > 0 {
        let c1 = cat.skip(1);
        let here = tools.contains(cat[0].0);
        let m: nat = if here { n + 1 } else { n };
        assert forall|a: int, b: int| 0 <= a < b < c1.len() implies #[trigger] c1[a].0 != #[trigger] c1[b].0 by {
            assert(c1[a] == cat[a + 1]);
            assert(c1[b] == cat[b + 1]);
        }
        lemma_scan_tasks_from_unique(tools, c1, m);
        lemma_scan_tasks_from_sound(tools, c1, m);
        lemma_scan_tasks_from_step(tools, cat, n);
        let rest = scan_tasks_from(tools, c1, m);
        let r = scan_tasks_from(tools, cat, n);
        let off: int = if here { 1 } else { 0 };
        assert forall|i: int, j: int| 0 <= i < j < r.len() implies #[trigger] r[i].tool != #[trigger] r[j].tool by {
            assert(r[j] == rest[j - off]);
            if i < off {
                let k = choose|k: int| 0 <= k < c1.len() && (#[trigger] rest[j - off]).tool == c1[k].0
                    && tools.contains(c1[k].0);
                assert(c1[k] == cat[k + 1]);
                assert(cat[0].0 != cat[k + 1].0);
            } else {
                assert(r[i] == rest[i - off]);
            }
        }
    }
}

/// The catalog names each tool once.
pub proof fn lemma_scan_catalog_tools_distinct()
    ensures
        forall|a: int, b: int|
            0 <= a < b < scan_catalog().len() ==> #[trigger] scan_catalog()[a].0 != #[trigger] scan_catalog()[b].0,
{
    let c = scan_catalog();
    reveal_strlit("semgrep");
    assert(c[0].0 == "semgrep"@ && c[0].0[0] == 's' && c[0].0[1] == 'e');
    reveal_strlit("slither");
    assert(c[1].0 == "slither"@ && c[1].0[0] == 's' && c[1].0[1] == 'l');
    reveal_strlit("aderyn");
    assert(c[2].0 == "aderyn"@ && c[2].0[0] == 'a' && c[2].0[1] == 'd');
    reveal_strlit("mythril");
    assert(c[3].0 == "mythril"@ && c[3].0[0] == 'm' && c[3].0[1] == 'y');
    reveal_strlit("solhint");
    assert(c[4].0 == "solhint"@ && c[4].0[0] == 's' && c[4].0[1] == 'o');
    reveal_strlit("clippy");
    assert(c[5].0 == "clippy"@ && c[5].0[0] == 'c' && c[5].0[1] == 'l');
    reveal_strlit("cargo-audit");
    assert(c[6].0 == "cargo-audit"@ && c[6].0[0] == 'c' && c[6].0[1] == 'a');
    reveal_strlit("echidna");
    assert(c[7].0 == "echidna"@ && c[7].0[0] == 'e' && c[7].0[1] == 'c');
    reveal_strlit("manticore");
    assert(c[8].0 == "manticore"@ && c[8].0[0] == 'm' && c[8].0[1] == 'a');
    reveal_strlit("halmos");
    assert(c[9].0 == "halmos"@ && c[9].0[0] == 'h' && c[9].0[1] == 'a');
    reveal_strlit("nuclei");
    assert(c[10].0 == "nuclei"@ && c[10].0[0] == 'n' && c[10].0[1] == 'u');
    reveal_strlit("nikto");
    assert(c[11].0 == "nikto"@ && c[11].0[0] == 'n' && c[11].0[1] == 'i');
    reveal_strlit("ffuf");
    assert(c[12].0 == "ffuf"@ && c[12].0[0] == 'f' && c[12].0[1] == 'f');
    reveal_strlit("gobuster");
    assert(c[13].0 == "gobuster"@ && c[13].0[0] == 'g' && c[13].0[1] == 'o');
    reveal_strlit("sqlmap");
    assert(c[14].0 == "sqlmap"@ && c[14].0[0] == 's' && c[14].0[1] == 'q');
    reveal_strlit("trufflehog");
    assert(c[15].0 == "trufflehog"@ && c[15].0[0] == 't' && c[15].0[1] == 'r');
    reveal_strlit("gitleaks");
    assert(c[16].0 == "gitleaks"@ && c[16].0[0] == 'g' && c[16].0[1] == 'i');
}

/// Each available tool of `static_analysers()` gets a task named "Static: " and its name,
/// at priority 8.
pub proof fn lemma_scan_tasks_static_analysers(tools: Seq<Seq<char>>)
    ensures
        forall|t: Seq<char>|
            #[trigger] static_analysers().contains(t) && tools.contains(t) ==> exists|i: int|
                0 <= i < scan_tasks(tools).len() && scan_tasks(tools)[i].tool == t && scan_tasks(tools)[i].name
                    == "Static: "@ + t && scan_tasks(tools)[i].priority == 8u8,
{
    let c = scan_catalog();
    lemma_scan_tasks_from_covers(tools, c, 0);
    reveal_strlit("Static: ");
    reveal_strlit("slither");
    reveal_strlit("Static: slither");
    reveal_strlit("aderyn");
    reveal_strlit("Static: aderyn");
    reveal_strlit("mythril");
    reveal_strlit("Static: mythril");
    reveal_strlit("solhint");
    reveal_strlit("Static: solhint");
    reveal_strlit("clippy");
    reveal_strlit("Static: clippy");
    reveal_strlit("cargo-audit");
    reveal_strlit("Static: cargo-audit");
    assert forall|t: Seq<char>| #[trigger] static_analysers().contains(t) && tools.contains(t) implies exists|i: int|
        0 <= i < scan_tasks(tools).len() && scan_tasks(tools)[i].tool == t && scan_tasks(tools)[i].name
            == "Static: "@ + t && scan_tasks(tools)[i].priority == 8u8 by {
        let g = static_analysers();
        let m = choose|m: int| 0 <= m < g.len() && g[m] == t;
        if m == 0 {
            assert(c[1].0 == t);
            assert(c[1].1 =~= "Static: "@ + t);
            assert(c[1].2 == 8u8);
            assert(tools.contains(c[1].0));
            let i = choose|i: int|
                0 <= i < scan_tasks_from(tools, c, 0).len() && scan_tasks_from(tools, c, 0)[i].tool == c[1].0
                    && scan_tasks_from(tools, c, 0)[i].name == c[1].1 && scan_tasks_from(tools, c, 0)[i].priority
                    == c[1].2;
            assert(scan_tasks(tools)[i].tool == t);
        }
        if m == 1 {
            assert(c[2].0 == t);
            assert(c[2].1 =~= "Static: "@ + t);
            assert(c[2].2 == 8u8);
            assert(tools.contains(c[2].0));
            let i = choose|i: int|
                0 <= i < scan_tasks_from(tools, c, 0).len() && scan_tasks_from(tools, c, 0)[i].tool == c[2].0
                    && scan_tasks_from(tools, c, 0)[i].name == c[2].1 && scan_tasks_from(tools, c, 0)[i].priority
                    == c[2].2;
            assert(scan_tasks(tools)[i].tool == t);
        }
        if m == 2 {
            assert(c[3].0 == t);
            assert(c[3].1 =~= "Static: "@ + t);
            assert(c[3].2 == 8u8);
            assert(tools.contains(c[3].0));
            let i = choose|i: int|
                0 <= i < scan_tasks_from(tools, c, 0).len() && scan_tasks_from(tools, c, 0)[i].tool == c[3].0
                    && scan_tasks_from(tools, c, 0)[i].name == c[3].1 && scan_tasks_from(tools, c, 0)[i].priority
                    == c[3].2;
            assert(scan_tasks(tools)[i].tool == t);
        }
        if m == 3 {
            assert(c[4].0 == t);
            assert(c[4].1 =~= "Static: "@ + t);
            assert(c[4].2 == 8u8);
            assert(tools.contains(c[4].0));
            let i = choose|i: int|
                0 <= i < scan_tasks_from(tools, c, 0).len() && scan_tasks_from(tools, c, 0)[i].tool == c[4].0
                    && scan_tasks_from(tools, c, 0)[i].name == c[4].1 && scan_tasks_from(tools, c, 0)[i].priority
                    == c[4].2;
            assert(scan_tasks(tools)[i].tool == t);
        }
        if m == 4 {
            assert(c[5].0 == t);
            assert(c[5].1 =~= "Static: "@ + t);
            assert(c[5].2 == 8u8);
            assert(tools.contains(c[5].0));
            let i = choose|i: int|
                0 <= i < scan_tasks_from(tools, c, 0).len() && scan_tasks_from(tools, c, 0)[i].tool == c[5].0
                    && scan_tasks_from(tools, c, 0)[i].name == c[5].1 && scan_tasks_from(tools, c, 0)[i].priority
                    == c[5].2;
            assert(scan_tasks(tools)[i].tool == t);
        }
        if m == 5 {
            assert(c[6].0 == t);
            assert(c[6].1 =~= "Static: "@ + t);
            assert(c[6].2 == 8u8);
            assert(tools.contains(c[6].0));
            let i = choose|i: int|
                0 <= i < scan_tasks_from(tools, c, 0).len() && scan_tasks_from(tools, c, 0)[i].tool == c[6].0
                    && scan_tasks_from(tools, c, 0)[i].name == c[6].1 && scan_tasks_from(tools, c, 0)[i].priority
                    == c[6].2;
            assert(scan_tasks(tools)[i].tool == t);
        }
    }
}

/// Each available tool of `dynamic_testers()` gets a task named "Dynamic: " and its name,
/// at priority 6.
pub proof fn lemma_scan_tasks_dynamic_testers(tools: Seq<Seq<char>>)
    ensures
        forall|t: Seq<char>|
            #[trigger] dynamic_testers().contains(t) && tools.contains(t) ==> exists|i: int|
                0 <= i < scan_tasks(tools).len() && scan_tasks(tools)[i].tool == t && scan_tasks(tools)[i].name
                    == "Dynamic: "@ + t && scan_tasks(tools)[i].priority == 6u8,
{
    let c = scan_catalog();
    lemma_scan_tasks_from_covers(tools, c, 0);
    reveal_strlit("Dynamic: ");
    reveal_strlit("echidna");
    reveal_strlit("Dynamic: echidna");
    reveal_strlit("manticore");
    reveal_strlit("Dynamic: manticore");
    reveal_strlit("halmos");
    reveal_strlit("Dynamic: halmos");
    reveal_strlit("nuclei");
    reveal_strlit("Dynamic: nuclei");
    reveal_strlit("nikto");
    reveal_strlit("Dynamic: nikto");
    reveal_strlit("ffuf");
    reveal_strlit("Dynamic: ffuf");
    reveal_strlit("gobuster");
    reveal_strlit("Dynamic: gobuster");
    reveal_strlit("sqlmap");
    reveal_strlit("Dynamic: sqlmap");
    assert forall|t: Seq<char>| #[trigger] dynamic_testers().contains(t) && tools.contains(t) implies exists|i: int|
        0 <= i < scan_tasks(tools).len() && scan_tasks(tools)[i].tool == t && scan_tasks(tools)[i].name
            == "Dynamic: "@ + t && scan_tasks(tools)[i].priority == 6u8 by {
        let g = dynamic_testers();
        let m = choose|m: int| 0 <= m < g.len() && g[m] == t;
        if m == 0 {
            assert(c[7].0 == t);
            assert(c[7].1 =~= "Dynamic: "@ + t);
            assert(c[7].2 == 6u8);
            assert(tools.contains(c[7].0));
            let i = choose|i: int|
                0 <= i < scan_tasks_from(tools, c, 0).len() && scan_tasks_from(tools, c, 0)[i].tool == c[7].0
                    && scan_tasks_from(tools, c, 0)[i].name == c[7].1 && scan_tasks_from(tools, c, 0)[i].priority
                    == c[7].2;
            assert(scan_tasks(tools)[i].tool == t);
        }
        if m == 1 {
            assert(c[8].0 == t);
            assert(c[8].1 =~= "Dynamic: "@ + t);
            assert(c[8].2 == 6u8);
            assert(tools.contains(c[8].0));
            let i = choose|i: int|
                0 <= i < scan_tasks_from(tools, c, 0).len() && scan_tasks_from(tools, c, 0)[i].tool == c[8].0
                    && scan_tasks_from(tools, c, 0)[i].name == c[8].1 && scan_tasks_from(tools, c, 0)[i].priority
                    == c[8].2;
            assert(scan_tasks(tools)[i].tool == t);
        }
        if m == 2 {
            assert(c[9].0 == t);
            assert(c[9].1 =~= "Dynamic: "@ + t);
            assert(c[9].2 == 6u8);
            assert(tools.contains(c[9].0));
            let i = choose|i: int|
                0 <= i < scan_tasks_from(tools, c, 0).len() && scan_tasks_from(tools, c, 0)[i].tool == c[9].0
                    && scan_tasks_from(tools, c, 0)[i].name == c[9].1 && scan_tasks_from(tools, c, 0)[i].priority
                    == c[9].2;
            assert(scan_tasks(tools)[i].tool == t);
        }
        if m == 3 {
            assert(c[10].0 == t);
            assert(c[10].1 =~= "Dynamic: "@ + t);
            assert(c[10].2 == 6u8);
            assert(tools.contains(c[10].0));
            let i = choose|i: int|
                0 <= i < scan_tasks_from(tools, c, 0).len() && scan_tasks_from(tools, c, 0)[i].tool == c[10].0
                    && scan_tasks_from(tools, c, 0)[i].name == c[10].1 && scan_tasks_from(tools, c, 0)[i].priority
                    == c[10].2;
            assert(scan_tasks(tools)[i].tool == t);
        }
        if m == 4 {
            assert(c[11].0 == t);
            assert(c[11].1 =~= "Dynamic: "@ + t);
            assert(c[11].2 == 6u8);
            assert(tools.contains(c[11].0));
            let i = choose|i: int|
                0 <= i < scan_tasks_from(tools, c, 0).len() && scan_tasks_from(tools, c, 0)[i].tool == c[11].0
                    && scan_tasks_from(tools, c, 0)[i].name == c[11].1 && scan_tasks_from(tools, c, 0)[i].priority
                    == c[11].2;
            assert(scan_tasks(tools)[i].tool == t);
        }
        if m == 5 {
            assert(c[12].0 == t);
            assert(c[12].1 =~= "Dynamic: "@ + t);
            assert(c[12].2 == 6u8);
            assert(tools.contains(c[12].0));
            let i = choose|i: int|
                0 <= i < scan_tasks_from(tools, c, 0).len() && scan_tasks_from(tools, c, 0)[i].tool == c[12].0
                    && scan_tasks_from(tools, c, 0)[i].name == c[12].1 && scan_tasks_from(tools, c, 0)[i].priority
                    == c[12].2;
            assert(scan_tasks(tools)[i].tool == t);
        }
        if m == 6 {
            assert(c[13].0 == t);
            assert(c[13].1 =~= "Dynamic: "@ + t);
            assert(c[13].2 == 6u8);
            assert(tools.contains(c[13].0));
            let i = choose|i: int|
                0 <= i < scan_tasks_from(tools, c, 0).len() && scan_tasks_from(tools, c, 0)[i].tool == c[13].0
                    && scan_tasks_from(tools, c, 0)[i].name == c[13].1 && scan_tasks_from(tools, c, 0)[i].priority
                    == c[13].2;
            assert(scan_tasks(tools)[i].tool == t);
        }
        if m == 7 {
            assert(c[14].0 == t);
            assert(c[14].1 =~= "Dynamic: "@ + t);
            assert(c[14].2 == 6u8);
            assert(tools.contains(c[14].0));
            let i = choose|i: int|
                0 <= i < scan_tasks_from(tools, c, 0).len() && scan_tasks_from(tools, c, 0)[i].tool == c[14].0
                    && scan_tasks_from(tools, c, 0)[i].name == c[14].1 && scan_tasks_from(tools, c, 0)[i].priority
                    == c[14].2;
            assert(scan_tasks(tools)[i].tool == t);
        }
    }
}

/// Each available tool of `leak_scanners()` gets a task named "Leak scan: " and its name,
/// at priority 5.
pub proof fn lemma_scan_tasks_leak_scanners(tools: Seq<Seq<char>>)
    ensures
        forall|t: Seq<char>|
            #[trigger] leak_scanners().contains(t) && tools.contains(t) ==> exists|i: int|
                0 <= i < scan_tasks(tools).len() && scan_tasks(tools)[i].tool == t && scan_tasks(tools)[i].name
                    == "Leak scan: "@ + t && scan_tasks(tools)[i].priority == 5u8,
{
    let c = scan_catalog();
    lemma_scan_tasks_from_covers(tools, c, 0);
    reveal_strlit("Leak scan: ");
    reveal_strlit("trufflehog");
    reveal_strlit("Leak scan: trufflehog");
    reveal_strlit("gitleaks");
    reveal_strlit("Leak scan: gitleaks");
    assert forall|t: Seq<char>| #[trigger] leak_scanners().contains(t) && tools.contains(t) implies exists|i: int|
        0 <= i < scan_tasks(tools).len() && scan_tasks(tools)[i].tool == t && scan_tasks(tools)[i].name
            == "Leak scan: "@ + t && scan_tasks(tools)[i].priority == 5u8 by {
        let g = leak_scanners();
        let m = choose|m: int| 0 <= m < g.len() && g[m] == t;
        if m == 0 {
            assert(c[15].0 == t);
            assert(c[15].1 =~= "Leak scan: "@ + t);
            assert(c[15].2 == 5u8);
            assert(tools.contains(c[15].0));
            let i = choose|i: int|
                0 <= i < scan_tasks_from(tools, c, 0).len() && scan_tasks_from(tools, c, 0)[i].tool == c[15].0
                    && scan_tasks_from(tools, c, 0)[i].name == c[15].1 && scan_tasks_from(tools, c, 0)[i].priority
                    == c[15].2;
            assert(scan_tasks(tools)[i].tool == t);
        }
        if m == 1 {
            assert(c[16].0 == t);
            assert(c[16].1 =~= "Leak scan: "@ + t);
            assert(c[16].2 == 5u8);
            assert(tools.contains(c[16].0));
            let i = choose|i: int|
                0 <= i < scan_tasks_from(tools, c, 0).len() && scan_tasks_from(tools, c, 0)[i].tool == c[16].0
                    && scan_tasks_from(tools, c, 0)[i].name == c[16].1 && scan_tasks_from(tools, c, 0)[i].priority
                    == c[16].2;
            assert(scan_tasks(tools)[i].tool == t);
        }
    }
}

/// A scan plans one task for each catalog tool that is available and no
/// other: no tool gets two tasks, every task is for an available tool,
/// semgrep gets "Pattern Analysis" at priority 10, an available static
/// analyser `t` gets "Static: t" at priority 8, a dynamic tester
/// "Dynamic: t" at priority 6, and a leak scanner "Leak scan: t" at
/// priority 5.
pub proof fn law_scan_tasks_one_per_available_tool(tools: Seq<Seq<char>>)
    ensures
        forall|i: int, j: int|
            0 <= i < j < scan_tasks(tools).len() ==> #[trigger] scan_tasks(tools)[i].tool
                != #[trigger] scan_tasks(tools)[j].tool,
        forall|i: int| 0 <= i < scan_tasks(tools).len() ==> tools.contains(#[trigger] scan_tasks(tools)[i].tool),
        tools.contains("semgrep"@) ==> exists|i: int|
            0 <= i < scan_tasks(tools).len() && scan_tasks(tools)[i].tool == "semgrep"@ && scan_tasks(
                tools,
            )[i].name == "Pattern Analysis"@ && scan_tasks(tools)[i].priority == 10u8,
        forall|t: Seq<char>|
            #[trigger] static_analysers().contains(t) && tools.contains(t) ==> exists|i: int|
                0 <= i < scan_tasks(tools).len() && scan_tasks(tools)[i].tool == t && scan_tasks(tools)[i].name
                    == "Static: "@ + t && scan_tasks(tools)[i].priority == 8u8,
        forall|t: Seq<char>|
            #[trigger] dynamic_testers().contains(t) && tools.contains(t) ==> exists|i: int|
                0 <= i < scan_tasks(tools).len() && scan_tasks(tools)[i].tool == t && scan_tasks(tools)[i].name
                    == "Dynamic: "@ + t && scan_tasks(tools)[i].priority == 6u8,
        forall|t: Seq<char>|
            #[trigger] leak_scanners().contains(t) && tools.contains(t) ==> exists|i: int|
                0 <= i < scan_tasks(tools).len() && scan_tasks(tools)[i].tool == t && scan_tasks(tools)[i].name
                    == "Leak scan: "@ + t && scan_tasks(tools)[i].priority == 5u8,
{
    let c = scan_catalog();
    let r = scan_tasks(tools);
    lemma_scan_catalog_tools_distinct();
    lemma_scan_tasks_from_unique(tools, c, 0);
    lemma_scan_tasks_from_sound(tools, c, 0);
    lemma_scan_tasks_from_covers(tools, c, 0);
    assert forall|i: int| 0 <= i < r.len() implies tools.contains(#[trigger] r[i].tool) by {
        let k = choose|k: int| 0 <= k < c.len() && (#[trigger] r[i]).tool == c[k].0 && tools.contains(c[k].0);
    }
    reveal_strlit("semgrep");
    reveal_strlit("Pattern Analysis");
    assert(c[0].0 == "semgrep"@);
    lemma_scan_tasks_static_analysers(tools);
    lemma_scan_tasks_dynamic_testers(tools);
    lemma_scan_tasks_leak_scanners(tools);
}

} // verus!
