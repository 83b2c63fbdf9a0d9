//! The queen coordinator: it keeps the swarm's tasks and memory, plans the
//! waves, and decides, step by step, how a run proceeds. Running the tasks
//! themselves is left to the caller, which reports back after each step.
use vstd::prelude::*;
use crate::swarm::circuit_breaker::{after_open_check, after_success, fresh_breaker, BreakerView, CircuitBreakerPool};
use crate::swarm::planner::{build_execution_plan, execution_plan, wave_views};
use crate::swarm::{lemma_task_views_push, task_views, AgentStatus, AgentTask, SwarmConfig, SwarmState, TaskView};
use crate::text::{chars_of, decimal, decimal_chars, extend, extend_str, string_from, string_of, str_eq};

verus! {

/// The memory's entries as plain sequences.
pub open spec fn mem_views(m: Seq<(String, String)>) -> Seq<(Seq<char>, Seq<char>)> {
    m.map_values(|e: (String, String)| (e.0@, e.1@))
}

/// The last position of key `k` in the memory `s`, or -1.
pub open spec fn key_index(s: Seq<(Seq<char>, Seq<char>)>, k: Seq<char>) -> int
    decreases s.len(),
{
    if s.len() == 0 {
        -1
    } else if s.last().0 == k {
        s.len() - 1
    } else {
        key_index(s.drop_last(), k)
    }
}

/// The value stored under `k`, if any.
pub open spec fn mem_lookup(s: Seq<(Seq<char>, Seq<char>)>, k: Seq<char>) -> Option<Seq<char>> {
    let i = key_index(s, k);
    if i >= 0 {
        Some(s[i].1)
    } else {
        None
    }
}

/// The memory after storing `v` under `k`: the entry of `k` is replaced,
/// or a new entry is added at the end.
pub open spec fn mem_write(s: Seq<(Seq<char>, Seq<char>)>, k: Seq<char>, v: Seq<char>) -> Seq<
    (Seq<char>, Seq<char>),
> {
    let i = key_index(s, k);
    if i >= 0 {
        s.update(i, (k, v))
    } else {
        s.push((k, v))
    }
}

pub proof fn lemma_key_index(s: Seq<(Seq<char>, Seq<char>)>, k: Seq<char>)
    ensures
        -1 <= key_index(s, k) < s.len(),
        key_index(s, k) >= 0 ==> s[key_index(s, k)].0 == k,
        forall|j: int| key_index(s, k) < j < s.len() ==> #[trigger] s[j].0 != k,
    decreases s.len(),
{
    if s.len() > 0 {
        lemma_key_index(s.drop_last(), k);
        assert forall|j: int| key_index(s, k) < j < s.len() implies #[trigger] s[j].0 != k by {
            if j < s.len() - 1 {
                assert(s.drop_last()[j] == s[j]);
            }
        }
    }
}

pub proof fn lemma_key_index_is(s: Seq<(Seq<char>, Seq<char>)>, k: Seq<char>, i: int)
    requires
        -1 <= i < s.len(),
        i >= 0 ==> s[i].0 == k,
        forall|j: int| i < j < s.len() ==> #[trigger] s[j].0 != k,
    ensures
        key_index(s, k) == i,
    decreases s.len(),
{
    if s.len() > 0 && i < s.len() - 1 {
        assert(s[s.len() - 1].0 != k);
        assert forall|j: int| i < j < s.drop_last().len() implies #[trigger] s.drop_last()[j].0 != k by {
            assert(s[j].0 != k);
        }
        lemma_key_index_is(s.drop_last(), k, i);
    }
}

/// What is stored is what is read back, and storing under one key leaves
/// every other key as it was.
pub proof fn law_memory_read_after_write(
    s: Seq<(Seq<char>, Seq<char>)>,
    k: Seq<char>,
    v: Seq<char>,
    other: Seq<char>,
)
    ensures
        mem_lookup(mem_write(s, k, v), k) == Some(v),
        other != k ==> mem_lookup(mem_write(s, k, v), other) == mem_lookup(s, other),
{
    lemma_key_index(s, k);
    lemma_key_index(s, other);
    let t = mem_write(s, k, v);
    let i = key_index(s, k);
    if i >= 0 {
        lemma_key_index_is(t, k, i);
        if other != k {
            lemma_key_index_is(t, other, key_index(s, other));
        }
    } else {
        lemma_key_index_is(t, k, s.len() as int);
        if other != k {
            lemma_key_index_is(t, other, key_index(s, other));
        }
    }
}

/// The last position of the task with id `id` in `s`, or -1.
pub open spec fn id_index(s: Seq<TaskView>, id: Seq<char>) -> int
    decreases s.len(),
{
    if s.len() == 0 {
        -1
    } else if s.last().id == id {
        s.len() - 1
    } else {
        id_index(s.drop_last(), id)
    }
}

pub proof fn lemma_id_index(s: Seq<TaskView>, id: Seq<char>)
    ensures
        -1 <= id_index(s, id) < s.len(),
        id_index(s, id) >= 0 ==> s[id_index(s, id)].id == id,
        forall|j: int| id_index(s, id) < j < s.len() ==> #[trigger] s[j].id != id,
    decreases s.len(),
{
    if s.len() > 0 {
        lemma_id_index(s.drop_last(), id);
        assert forall|j: int| id_index(s, id) < j < s.len() implies #[trigger] s[j].id != id by {
            if j < s.len() - 1 {
                assert(s.drop_last()[j] == s[j]);
            }
        }
    }
}

pub proof fn lemma_id_index_is(s: Seq<TaskView>, id: Seq<char>, i: int)
    requires
        -1 <= i < s.len(),
        i >= 0 ==> s[i].id == id,
        forall|j: int| i < j < s.len() ==> #[trigger] s[j].id != id,
    ensures
        id_index(s, id) == i,
    decreases s.len(),
{
    if s.len() > 0 && i < s.len() - 1 {
        assert(s[s.len() - 1].id != id);
        assert forall|j: int| i < j < s.drop_last().len() implies #[trigger] s.drop_last()[j].id != id by {
            assert(s[j].id != id);
        }
        lemma_id_index_is(s.drop_last(), id, i);
    }
}

/// The tasks after registering `t`: it replaces the task with its id, or
/// is added at the end.
pub open spec fn task_insert(s: Seq<TaskView>, t: TaskView) -> Seq<TaskView> {
    let i = id_index(s, t.id);
    if i >= 0 {
        s.update(i, t)
    } else {
        s.push(t)
    }
}

/// No two tasks of `s` share an id.
pub open spec fn ids_unique(s: Seq<TaskView>) -> bool {
    forall|i: int, j: int| 0 <= i < j < s.len() ==> #[trigger] s[i].id != #[trigger] s[j].id
}

/// Registering a task keeps ids unique, and afterwards the task is the one
/// registered under its id.
pub proof fn law_register_keeps_ids_unique(s: Seq<TaskView>, t: TaskView)
    requires
        ids_unique(s),
    ensures
        ids_unique(task_insert(s, t)),
        id_index(task_insert(s, t), t.id) >= 0,
        task_insert(s, t)[id_index(task_insert(s, t), t.id)] == t,
{
    lemma_id_index(s, t.id);
    let r = task_insert(s, t);
    let i = id_index(s, t.id);
    if i >= 0 {
        assert forall|a: int, b: int| 0 <= a < b < r.len() implies #[trigger] r[a].id != #[trigger] r[b].id by {
            assert(r[a].id == s[a].id && r[b].id == s[b].id);
        }
        lemma_id_index_is(r, t.id, i);
    } else {
        assert forall|j: int| 0 <= j < s.len() implies s[j].id != t.id by {
            assert(id_index(s, t.id) < j);
        }
        assert forall|a: int, b: int| 0 <= a < b < r.len() implies #[trigger] r[a].id != #[trigger] r[b].id by {
            if b < s.len() {
                assert(r[a] == s[a] && r[b] == s[b]);
            } else {
                assert(r[a] == s[a]);
            }
        }
        lemma_id_index_is(r, t.id, s.len() as int);
    }
}

/// The number of tasks of `s` with status `st`.
pub open spec fn count_status(s: Seq<TaskView>, st: AgentStatus) -> nat
    decreases s.len(),
{
    if s.len() == 0 {
        0
    } else {
        count_status(s.drop_last(), st) + if s.last().status == st {
            1nat
        } else {
            0nat
        }
    }
}

/// The memory key of a task's status: `task:<id>:status`.
pub open spec fn status_key(id: Seq<char>) -> Seq<char> {
    "task:"@ + id + ":status"@
}

/// The memory after marking every task of `wave`, in order, with status `v`.
pub open spec fn mark_all(m: Seq<(Seq<char>, Seq<char>)>, wave: Seq<TaskView>, v: Seq<char>) -> Seq<
    (Seq<char>, Seq<char>),
>
    decreases wave.len(),
{
    if wave.len() == 0 {
        m
    } else {
        mem_write(mark_all(m, wave.drop_last(), v), status_key(wave.last().id), v)
    }
}

/// Coordinates a swarm run. Its log messages collect in an outbox that the
/// caller drains.
pub struct QueenCoordinator {
    swarm: SwarmState,
    config: SwarmConfig,
    breakers: CircuitBreakerPool,
    messages: Vec<String>,
}

/// Where the last position of a key in a memory is, found from the end.
fn find_entry(m: &Vec<(String, String)>, k: &str) -> (r: Option<usize>)
    ensures
        match r {
            Some(i) => i < m.len() && key_index(mem_views(m@), k@) == i as int,
            None => key_index(mem_views(m@), k@) == -1,
        },
{
    let ghost s = mem_views(m@);
    let mut j: usize = m.len();
    while j > 0
        invariant
            j <= m.len(),
            s == mem_views(m@),
            forall|t: int| j <= t < s.len() ==> #[trigger] s[t].0 != k@,
        decreases j,
    {
        if str_eq(m[j - 1].0.as_str(), k) {
            proof {
                lemma_key_index_is(s, k@, j - 1);
            }
            return Some(j - 1);
        }
        j = j - 1;
    }
    proof {
        lemma_key_index_is(s, k@, -1);
    }
    None
}

/// Where the last task with id `id` is, found from the end.
fn find_task(ts: &Vec<AgentTask>, id: &str) -> (r: Option<usize>)
    ensures
        match r {
            Some(i) => i < ts.len() && id_index(task_views(ts@), id@) == i as int,
            None => id_index(task_views(ts@), id@) == -1,
        },
{
    let ghost s = task_views(ts@);
    let mut j: usize = ts.len();
    while j > 0
        invariant
            j <= ts.len(),
            s == task_views(ts@),
            forall|t: int| j <= t < s.len() ==> #[trigger] s[t].id != id@,
        decreases j,
    {
        if str_eq(ts[j - 1].id.as_str(), id) {
            proof {
                lemma_id_index_is(s, id@, j - 1);
            }
            return Some(j - 1);
        }
        j = j - 1;
    }
    proof {
        lemma_id_index_is(s, id@, -1);
    }
    None
}

/// The memory key of a task's status.
fn status_key_exec(id: &str) -> (r: String)
    ensures
        r@ == status_key(id@),
{
    let mut v = chars_of("task:");
    extend_str(&mut v, id);
    extend_str(&mut v, ":status");
    string_of(&v)
}

/// `prefix`, the number `n` in decimal, then `suffix`.
fn numbered(prefix: &str, n: usize, suffix: &str) -> (r: String)
    ensures
        r@ == prefix@ + decimal(n as nat) + suffix@,
{
    let mut v = chars_of(prefix);
    let d = decimal_chars(n as u64);
    extend(&mut v, &d);
    extend_str(&mut v, suffix);
    string_of(&v)
}

impl QueenCoordinator {
    /// Well-formed: the breaker pool holds each name once.
    pub closed spec fn wf(&self) -> bool {
        self.breakers.wf()
    }

    /// The swarm's id.
    pub closed spec fn swarm_id(&self) -> Seq<char> {
        self.swarm.id@
    }

    /// The registered tasks, each id once, in the order first registered.
    pub closed spec fn tasks(&self) -> Seq<TaskView> {
        task_views(self.swarm.tasks@)
    }

    /// The memory's entries.
    pub closed spec fn memory(&self) -> Seq<(Seq<char>, Seq<char>)> {
        mem_views(self.swarm.memory@)
    }

    /// Whether a run is in progress.
    pub closed spec fn is_running(&self) -> bool {
        self.swarm.running
    }

    /// The log messages not yet taken.
    pub closed spec fn messages(&self) -> Seq<Seq<char>> {
        self.messages@.map_values(|m: String| m@)
    }

    /// The limits of the run.
    pub closed spec fn config(&self) -> SwarmConfig {
        self.config
    }

    /// The breaker that guards the waves of a run.
    pub closed spec fn swarm_breaker(&self) -> BreakerView {
        self.breakers.breaker("swarm"@)
    }

    /// A coordinator for the swarm `id`: no tasks, empty memory, not
    /// running.
    pub fn new(id: &str, config: SwarmConfig) -> (r: QueenCoordinator)
        ensures
            r.wf(),
            r.swarm_id() == id@,
            r.tasks().len() == 0,
            r.memory().len() == 0,
            !r.is_running(),
            r.messages().len() == 0,
            r.config() == config,
            r.swarm_breaker() == fresh_breaker(3, 30),
    {
        let r = QueenCoordinator {
            swarm: SwarmState {
                id: string_from(id),
                tasks: Vec::new(),
                memory: Vec::new(),
                running: false,
            },
            config,
            breakers: CircuitBreakerPool::new(),
            messages: Vec::new(),
        };
        assert(r.messages() =~= Seq::<Seq<char>>::empty());
        r
    }

    /// Records a log message.
    pub fn log(&mut self, msg: &str)
        ensures
            final(self).messages() == old(self).messages().push(msg@),
            final(self).tasks() == old(self).tasks(),
            final(self).memory() == old(self).memory(),
            final(self).is_running() == old(self).is_running(),
            final(self).config() == old(self).config(),
            final(self).swarm_id() == old(self).swarm_id(),
            final(self).swarm_breaker() == old(self).swarm_breaker(),
            final(self).wf() == old(self).wf(),
    {
        let ghost before = self.messages@;
        self.messages.push(string_from(msg));
        assert(self.messages@.map_values(|m: String| m@) =~= before.map_values(|m: String| m@).push(msg@));
    }

    /// Hands out the log messages recorded so far, oldest first, and
    /// forgets them.
    pub fn take_messages(&mut self) -> (r: Vec<String>)
        ensures
            r@.map_values(|m: String| m@) == old(self).messages(),
            final(self).messages().len() == 0,
            final(self).tasks() == old(self).tasks(),
            final(self).memory() == old(self).memory(),
            final(self).is_running() == old(self).is_running(),
            final(self).config() == old(self).config(),
            final(self).swarm_id() == old(self).swarm_id(),
            final(self).swarm_breaker() == old(self).swarm_breaker(),
            final(self).wf() == old(self).wf(),
    {
        let mut out: Vec<String> = Vec::new();
        std::mem::swap(&mut out, &mut self.messages);
        assert(self.messages() =~= Seq::<Seq<char>>::empty());
        out
    }

    /// Stores `value` under `key` in the swarm's memory.
    pub fn mem_store(&mut self, key: &str, value: &str)
        ensures
            final(self).memory() == mem_write(old(self).memory(), key@, value@),
            final(self).messages() == old(self).messages(),
            final(self).tasks() == old(self).tasks(),
            final(self).is_running() == old(self).is_running(),
            final(self).config() == old(self).config(),
            final(self).swarm_id() == old(self).swarm_id(),
            final(self).swarm_breaker() == old(self).swarm_breaker(),
            final(self).wf() == old(self).wf(),
    {
        let ghost before = mem_views(self.swarm.memory@);
        let entry = (string_from(key), string_from(value));
        match find_entry(&self.swarm.memory, key) {
            Some(i) => {
                self.swarm.memory.set(i, entry);
                assert(mem_views(self.swarm.memory@) =~= before.update(i as int, (key@, value@)));
            },
            None => {
                self.swarm.memory.push(entry);
                assert(mem_views(self.swarm.memory@) =~= before.push((key@, value@)));
            },
        }
    }

    /// The value stored under `key`, if any.
    pub fn mem_get(&self, key: &str) -> (r: Option<&String>)
        ensures
            match r {
                Some(v) => mem_lookup(self.memory(), key@) == Some(v@),
                None => mem_lookup(self.memory(), key@) is None,
            },
    {
        match find_entry(&self.swarm.memory, key) {
            Some(i) => Some(&self.swarm.memory[i].1),
            None => None,
        }
    }

    /// Registers `task`, replacing a task with the same id, and marks it
    /// `registered` in memory.
    pub fn register_task(&mut self, task: AgentTask)
        ensures
            final(self).tasks() == task_insert(old(self).tasks(), task@),
            final(self).memory() == mem_write(old(self).memory(), status_key(task@.id), "registered"@),
            final(self).messages() == old(self).messages().push("Registered task: "@ + task@.id),
            final(self).is_running() == old(self).is_running(),
            final(self).config() == old(self).config(),
            final(self).swarm_id() == old(self).swarm_id(),
            final(self).swarm_breaker() == old(self).swarm_breaker(),
            final(self).wf() == old(self).wf(),
    {
        let id = task.id.clone();
        let ghost before = task_views(self.swarm.tasks@);
        let ghost tv = task@;
        match find_task(&self.swarm.tasks, id.as_str()) {
            Some(i) => {
                self.swarm.tasks.set(i, task);
                assert(task_views(self.swarm.tasks@) =~= before.update(i as int, tv));
            },
            None => {
                proof {
                    lemma_task_views_push(self.swarm.tasks@, task);
                }
                self.swarm.tasks.push(task);
            },
        }
        let key = status_key_exec(id.as_str());
        self.mem_store(key.as_str(), "registered");
        let mut msg = chars_of("Registered task: ");
        extend_str(&mut msg, id.as_str());
        let msg = string_of(&msg);
        self.log(msg.as_str());
    }

    /// The execution plan of the registered tasks; logs how many waves it
    /// has.
    pub fn build_plan(&mut self) -> (waves: Vec<Vec<AgentTask>>)
        ensures
            wave_views(waves@) == execution_plan(old(self).tasks()),
            final(self).messages() == old(self).messages().push(
                "Execution plan: "@ + decimal(waves@.len()) + " wave(s)"@,
            ),
            final(self).tasks() == old(self).tasks(),
            final(self).memory() == old(self).memory(),
            final(self).is_running() == old(self).is_running(),
            final(self).config() == old(self).config(),
            final(self).swarm_id() == old(self).swarm_id(),
            final(self).swarm_breaker() == old(self).swarm_breaker(),
            final(self).wf() == old(self).wf(),
    {
        let waves = build_execution_plan(self.swarm.tasks.as_slice());
        let msg = numbered("Execution plan: ", waves.len(), " wave(s)");
        self.log(msg.as_str());
        waves
    }

    /// Stops the run: not running, memory says `stopped`.
    pub fn stop(&mut self)
        ensures
            !final(self).is_running(),
            final(self).memory() == mem_write(old(self).memory(), "swarm:status"@, "stopped"@),
            final(self).tasks() == old(self).tasks(),
            final(self).messages() == old(self).messages(),
            final(self).config() == old(self).config(),
            final(self).swarm_id() == old(self).swarm_id(),
            final(self).swarm_breaker() == old(self).swarm_breaker(),
            final(self).wf() == old(self).wf(),
    {
        self.swarm.running = false;
        self.mem_store("swarm:status", "stopped");
    }

    /// How many tasks are done, how many failed, and how many are idle or
    /// running.
    pub fn get_summary(&self) -> (r: (usize, usize, usize))
        ensures
            r.0 == count_status(self.tasks(), AgentStatus::Done),
            r.1 == count_status(self.tasks(), AgentStatus::Failed),
            r.2 == count_status(self.tasks(), AgentStatus::Idle) + count_status(
                self.tasks(),
                AgentStatus::Running,
            ),
    {
        let ghost s = self.tasks();
        let mut done: usize = 0;
        let mut failed: usize = 0;
        let mut pending: usize = 0;
        let mut i: usize = 0;
        assert(s.take(0) =~= Seq::<TaskView>::empty());
        while i < self.swarm.tasks.len()
            invariant
                i <= self.swarm.tasks.len(),
                s == task_views(self.swarm.tasks@),
                done == count_status(s.take(i as int), AgentStatus::Done),
                failed == count_status(s.take(i as int), AgentStatus::Failed),
                pending == count_status(s.take(i as int), AgentStatus::Idle) + count_status(
                    s.take(i as int),
                    AgentStatus::Running,
                ),
                done + failed + pending <= i,
            decreases self.swarm.tasks.len() - i,
        {
            assert(s.take(i + 1).drop_last() =~= s.take(i as int));
            assert(s.take(i + 1).last() == self.swarm.tasks@[i as int]@);
            match self.swarm.tasks[i].status {
                AgentStatus::Done => {
                    done = done + 1;
                },
                AgentStatus::Failed => {
                    failed = failed + 1;
                },
                _ => {
                    pending = pending + 1;
                },
            }
            i = i + 1;
        }
        assert(s.take(s.len() as int) =~= s);
        (done, failed, pending)
    }

    /// The start of a run: running, memory says `running`, the start is
    /// logged, and the plan is built (and logged) for the caller to run
    /// wave by wave.
    pub fn start_orchestration(&mut self) -> (waves: Vec<Vec<AgentTask>>)
        ensures
            final(self).is_running(),
            wave_views(waves@) == execution_plan(old(self).tasks()),
            final(self).memory() == mem_write(old(self).memory(), "swarm:status"@, "running"@),
            final(self).messages() == old(self).messages().push("Queen initializing swarm"@).push(
                "Execution plan: "@ + decimal(waves@.len()) + " wave(s)"@,
            ),
            final(self).tasks() == old(self).tasks(),
            final(self).config() == old(self).config(),
            final(self).swarm_id() == old(self).swarm_id(),
            final(self).swarm_breaker() == old(self).swarm_breaker(),
            final(self).wf() == old(self).wf(),
    {
        self.swarm.running = true;
        self.mem_store("swarm:status", "running");
        self.log("Queen initializing swarm");
        self.build_plan()
    }

    /// Whether the next wave, of `wave_len` tasks, may run: not when the run
    /// has stopped, nor when the swarm breaker refuses (which is logged);
    /// otherwise the wave is logged. `expired` says whether the breaker's
    /// cool-down has passed.
    pub fn check_wave_with(&mut self, wave_len: usize, expired: bool) -> (go: bool)
        requires
            old(self).wf(),
        ensures
            final(self).wf(),
            !old(self).is_running() ==> !go && final(self).messages() == old(self).messages()
                && final(self).swarm_breaker() == old(self).swarm_breaker(),
            old(self).is_running() ==> {
                let (open, b) = after_open_check(old(self).swarm_breaker(), expired);
                &&& go == !open
                &&& final(self).swarm_breaker() == b
                &&& final(self).messages() == old(self).messages().push(
                    if open {
                        "Circuit breaker OPEN - stopping"@
                    } else {
                        "Running wave of "@ + decimal(wave_len as nat) + " tasks"@
                    },
                )
            },
            final(self).tasks() == old(self).tasks(),
            final(self).memory() == old(self).memory(),
            final(self).is_running() == old(self).is_running(),
            final(self).config() == old(self).config(),
            final(self).swarm_id() == old(self).swarm_id(),
    {
        if !self.swarm.running {
            return false;
        }
        let open = {
            let breaker = self.breakers.get("swarm");
            breaker.check_open(expired)
        };
        if open {
            self.log("Circuit breaker OPEN - stopping");
            return false;
        }
        let msg = numbered("Running wave of ", wave_len, " tasks");
        self.log(msg.as_str());
        true
    }

    /// Whether the next wave, of `wave_len` tasks, may run, reading the
    /// swarm breaker's cool-down from the clock; otherwise as
    /// `check_wave_with`.
    pub fn check_wave(&mut self, wave_len: usize) -> (go: bool)
        requires
            old(self).wf(),
        ensures
            final(self).wf(),
            !old(self).is_running() ==> !go && final(self).messages() == old(self).messages()
                && final(self).swarm_breaker() == old(self).swarm_breaker(),
            old(self).is_running() ==> exists|expired: bool|
                {
                    let (open, b) = #[trigger] after_open_check(old(self).swarm_breaker(), expired);
                    &&& go == !open
                    &&& final(self).swarm_breaker() == b
                    &&& final(self).messages() == old(self).messages().push(
                        if open {
                            "Circuit breaker OPEN - stopping"@
                        } else {
                            "Running wave of "@ + decimal(wave_len as nat) + " tasks"@
                        },
                    )
                },
            final(self).tasks() == old(self).tasks(),
            final(self).memory() == old(self).memory(),
            final(self).is_running() == old(self).is_running(),
            final(self).config() == old(self).config(),
            final(self).swarm_id() == old(self).swarm_id(),
    {
        if !self.swarm.running {
            return false;
        }
        let expired = {
            let breaker = self.breakers.get("swarm");
            breaker.cool_down_passed()
        };
        self.check_wave_with(wave_len, expired)
    }

    /// Whether, with `in_flight` tasks of the wave still running, the
    /// caller must wait for one of them before starting the next.
    pub fn must_wait(&self, in_flight: usize) -> (r: bool)
        ensures
            r == (in_flight > 0 && in_flight >= self.config().max_parallel),
    {
        in_flight > 0 && in_flight >= self.config.max_parallel
    }

    /// Records that `task` was started: memory says `running` for it.
    pub fn task_started(&mut self, task: &AgentTask)
        ensures
            final(self).memory() == mem_write(old(self).memory(), status_key(task@.id), "running"@),
            final(self).messages() == old(self).messages(),
            final(self).tasks() == old(self).tasks(),
            final(self).is_running() == old(self).is_running(),
            final(self).config() == old(self).config(),
            final(self).swarm_id() == old(self).swarm_id(),
            final(self).swarm_breaker() == old(self).swarm_breaker(),
            final(self).wf() == old(self).wf(),
    {
        let key = status_key_exec(task.id.as_str());
        self.mem_store(key.as_str(), "running");
    }

    /// Records that a wave has finished: memory says `done` for each of its
    /// tasks, and the swarm breaker records a success.
    pub fn finish_wave(&mut self, wave: &Vec<AgentTask>)
        requires
            old(self).wf(),
        ensures
            final(self).wf(),
            final(self).memory() == mark_all(old(self).memory(), task_views(wave@), "done"@),
            final(self).swarm_breaker() == after_success(old(self).swarm_breaker()),
            final(self).messages() == old(self).messages(),
            final(self).tasks() == old(self).tasks(),
            final(self).is_running() == old(self).is_running(),
            final(self).config() == old(self).config(),
            final(self).swarm_id() == old(self).swarm_id(),
    {
        let ghost w = task_views(wave@);
        let ghost m0 = self.memory();
        let mut i: usize = 0;
        assert(w.take(0) =~= Seq::<TaskView>::empty());
        while i < wave.len()
            invariant
                i <= wave.len(),
                w == task_views(wave@),
                self.memory() == mark_all(m0, w.take(i as int), "done"@),
                self.messages() == old(self).messages(),
                self.tasks() == old(self).tasks(),
                self.is_running() == old(self).is_running(),
                self.config() == old(self).config(),
                self.swarm_id() == old(self).swarm_id(),
                self.swarm_breaker() == old(self).swarm_breaker(),
                self.wf(),
            decreases wave.len() - i,
        {
            assert(w.take(i + 1).drop_last() =~= w.take(i as int));
            assert(w.take(i + 1).last() == wave@[i as int]@);
            let key = status_key_exec(wave[i].id.as_str());
            self.mem_store(key.as_str(), "done");
            i = i + 1;
        }
        assert(w.take(wave.len() as int) =~= w);
        let breaker = self.breakers.get("swarm");
        breaker.record_success();
    }

    /// The end of a run: not running, memory says `complete`, logged.
    pub fn finish_orchestration(&mut self)
        ensures
            !final(self).is_running(),
            final(self).memory() == mem_write(old(self).memory(), "swarm:status"@, "complete"@),
            final(self).messages() == old(self).messages().push("Orchestration complete"@),
            final(self).tasks() == old(self).tasks(),
            final(self).config() == old(self).config(),
            final(self).swarm_id() == old(self).swarm_id(),
            final(self).swarm_breaker() == old(self).swarm_breaker(),
            final(self).wf() == old(self).wf(),
    {
        self.swarm.running = false;
        self.mem_store("swarm:status", "complete");
        self.log("Orchestration complete");
    }
}

/// The three counts of a summary add up to the number of tasks: every task
/// is done, failed, or pending.
pub proof fn law_summary_counts_every_task(s: Seq<TaskView>)
    ensures
        count_status(s, AgentStatus::Done) + count_status(s, AgentStatus::Failed) + count_status(
            s,
            AgentStatus::Idle,
        ) + count_status(s, AgentStatus::Running) == s.len(),
    decreases s.len(),
{
    if s.len() > 0 {
        law_summary_counts_every_task(s.drop_last());
    }
}

} // verus!
