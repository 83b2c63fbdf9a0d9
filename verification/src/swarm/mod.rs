//! Task orchestration: agent tasks, their execution plan in dependency
//! waves, circuit breakers, and the coordinator that drives them.
use vstd::prelude::*;
use crate::base::types::{copy_opt, copy_strings, opt_str, strs};
use crate::text::string_from;

pub mod circuit_breaker;
pub mod coordinator;
pub mod planner;

verus! {

/// Where a task stands.
#[derive(Debug, Clone, Copy, PartialEq, Eq, Structural)]
pub enum AgentStatus {
    Idle,
    Running,
    Done,
    Failed,
}

/// One unit of work for a tool, with the ids of the tasks it waits for.
#[derive(Debug, Clone)]
pub struct AgentTask {
    pub id: String,
    pub name: String,
    pub tool: String,
    pub priority: u8,
    pub status: AgentStatus,
    pub started_at: Option<u64>,
    pub ended_at: Option<u64>,
    pub output: Vec<String>,
    pub error: Option<String>,
    pub depends_on: Vec<String>,
}

/// The content of a task, with texts as character sequences.
#[verifier::ext_equal]
pub struct TaskView {
    pub id: Seq<char>,
    pub name: Seq<char>,
    pub tool: Seq<char>,
    pub priority: u8,
    pub status: AgentStatus,
    pub started_at: Option<u64>,
    pub ended_at: Option<u64>,
    pub output: Seq<Seq<char>>,
    pub error: Option<Seq<char>>,
    pub depends_on: Seq<Seq<char>>,
}

impl View for AgentTask {
    type V = TaskView;

    open spec fn view(&self) -> TaskView {
        TaskView {
            id: self.id@,
            name: self.name@,
            tool: self.tool@,
            priority: self.priority,
            status: self.status,
            started_at: self.started_at,
            ended_at: self.ended_at,
            output: strs(self.output@),
            error: opt_str(self.error),
            depends_on: strs(self.depends_on@),
        }
    }
}

/// The contents of a sequence of tasks.
pub open spec fn task_views(s: Seq<AgentTask>) -> Seq<TaskView> {
    s.map_values(|t: AgentTask| t@)
}

pub proof fn lemma_task_views_push(s: Seq<AgentTask>, t: AgentTask)
    ensures
        task_views(s.push(t)) == task_views(s).push(t@),
{
    assert(task_views(s.push(t)) =~= task_views(s).push(t@));
}

/// A new idle task with no output and no dependencies.
pub open spec fn fresh_task(id: Seq<char>, name: Seq<char>, tool: Seq<char>, priority: u8) -> TaskView {
    TaskView {
        id,
        name,
        tool,
        priority,
        status: AgentStatus::Idle,
        started_at: None,
        ended_at: None,
        output: Seq::empty(),
        error: None,
        depends_on: Seq::empty(),
    }
}

impl AgentTask {
    /// A new idle task.
    pub fn new(id: &str, name: &str, tool: &str, priority: u8) -> (r: AgentTask)
        ensures
            r@ == fresh_task(id@, name@, tool@, priority),
    {
        let r = AgentTask {
            id: string_from(id),
            name: string_from(name),
            tool: string_from(tool),
            priority,
            status: AgentStatus::Idle,
            started_at: None,
            ended_at: None,
            output: Vec::new(),
            error: None,
            depends_on: Vec::new(),
        };
        assert(strs(r.output@) =~= Seq::<Seq<char>>::empty());
        assert(strs(r.depends_on@) =~= Seq::<Seq<char>>::empty());
        r
    }

    /// The same agent task, now also waiting for `dep`.
    pub fn with_dep(self, dep: &str) -> (r: AgentTask)
        ensures
            r@ == (TaskView { depends_on: self@.depends_on.push(dep@), ..self@ }),
    {
        let mut t = self;
        let ghost before = t.depends_on@;
        t.depends_on.push(string_from(dep));
        assert(strs(t.depends_on@) =~= strs(before).push(dep@));
        t
    }

    /// A field-by-field copy of an agent task.
    pub fn duplicate(&self) -> (r: AgentTask)
        ensures
            r@ == self@,
    {
        AgentTask {
            id: self.id.clone(),
            name: self.name.clone(),
            tool: self.tool.clone(),
            priority: self.priority,
            status: self.status,
            started_at: self.started_at,
            ended_at: self.ended_at,
            output: copy_strings(&self.output),
            error: copy_opt(&self.error),
            depends_on: copy_strings(&self.depends_on),
        }
    }
}

/// How agents are arranged.
#[derive(Debug, Clone, Copy, PartialEq, Eq, Structural)]
pub enum SwarmTopology {
    Hierarchical,
    Mesh,
    Star,
}

/// Limits for a swarm run.
#[derive(Debug, Clone, Copy)]
pub struct SwarmConfig {
    pub max_parallel: usize,
    pub retry_limit: u32,
    pub timeout_ms: u64,
    pub topology: SwarmTopology,
}

impl Default for SwarmConfig {
    /// Four tasks at a time, two retries, five minutes, hierarchical.
    fn default() -> (r: SwarmConfig)
        ensures
            r.max_parallel == 4,
            r.retry_limit == 2,
            r.timeout_ms == 300_000,
            r.topology == SwarmTopology::Hierarchical,
    {
        SwarmConfig {
            max_parallel: 4,
            retry_limit: 2,
            timeout_ms: 300_000,
            topology: SwarmTopology::Hierarchical,
        }
    }
}

/// The state of a swarm: its tasks, each id at most once, and a key-value
/// memory, each key at most once.
#[derive(Debug, Clone)]
pub struct SwarmState {
    pub id: String,
    pub tasks: Vec<AgentTask>,
    pub memory: Vec<(String, String)>,
    pub running: bool,
}

} // verus!
