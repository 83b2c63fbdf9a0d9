use torot_lib::swarm::circuit_breaker::{CircuitBreaker, CircuitBreakerPool};
use torot_lib::swarm::coordinator::QueenCoordinator;
use torot_lib::swarm::planner::{build_execution_plan, build_scan_tasks};
use torot_lib::swarm::{AgentStatus, AgentTask, SwarmConfig, SwarmTopology};

#[test]
fn breaker_opens_after_threshold_failures() {
    let mut b = CircuitBreaker::new(3, 30);
    assert!(b.is_closed());
    b.record_failure();
    b.record_failure();
    assert!(b.is_closed());
    assert!(!b.is_open());
    b.record_failure();
    assert!(!b.is_closed());
    assert_eq!(b.failure_count(), 3);
    assert!(b.is_open());
}

#[test]
fn breaker_success_resets() {
    let mut b = CircuitBreaker::new(1, 30);
    b.record_failure();
    assert!(b.is_open());
    b.record_success();
    assert!(b.is_closed());
    assert_eq!(b.failure_count(), 0);
    assert!(!b.is_open());
}

#[test]
fn breaker_half_opens_after_cool_down() {
    let mut b = CircuitBreaker::new(1, 0);
    b.record_failure();
    assert!(b.check_open(false));
    assert!(!b.check_open(true));
    assert!(!b.is_closed());
    assert!(!b.check_open(true));
}

#[test]
fn pool_keeps_one_breaker_per_name() {
    let mut pool = CircuitBreakerPool::new();
    pool.get("a").record_failure();
    pool.get("a").record_failure();
    pool.get("b").record_failure();
    assert_eq!(pool.get("a").failure_count(), 2);
    assert_eq!(pool.get("b").failure_count(), 1);
    assert_eq!(pool.get("c").failure_count(), 0);
}

#[test]
fn plan_respects_dependencies_and_priority() {
    let a = AgentTask::new("a", "A", "semgrep", 1);
    let b = AgentTask::new("b", "B", "nuclei", 9).with_dep("a");
    let c = AgentTask::new("c", "C", "nmap", 5);
    let d = AgentTask::new("d", "D", "ffuf", 7).with_dep("b").with_dep("c");
    let e = AgentTask::new("e", "E", "x", 3).with_dep("missing");
    let plan = build_execution_plan(&vec![a, b, c, d, e]);
    let ids: Vec<Vec<String>> = plan.iter().map(|w| w.iter().map(|t| t.id.clone()).collect()).collect();
    assert_eq!(ids, vec![vec!["c".to_string(), "a".to_string()], vec!["b".to_string()], vec!["d".to_string()]]);
}

#[test]
fn plan_keeps_order_of_equal_priorities() {
    let tasks = vec![
        AgentTask::new("x", "X", "t", 4),
        AgentTask::new("y", "Y", "t", 4),
        AgentTask::new("z", "Z", "t", 8),
    ];
    let plan = build_execution_plan(&tasks);
    assert_eq!(plan.len(), 1);
    let ids: Vec<&str> = plan[0].iter().map(|t| t.id.as_str()).collect();
    assert_eq!(ids, vec!["z", "x", "y"]);
}

#[test]
fn scan_tasks_follow_catalog_order_and_number_from_one() {
    let tools = vec!["gitleaks".to_string(), "nuclei".to_string(), "semgrep".to_string(), "other".to_string()];
    let tasks = build_scan_tasks(&tools, "t", "d");
    let got: Vec<(String, String, String, u8)> =
        tasks.iter().map(|t| (t.id.clone(), t.name.clone(), t.tool.clone(), t.priority)).collect();
    assert_eq!(
        got,
        vec![
            ("task-1".to_string(), "Pattern Analysis".to_string(), "semgrep".to_string(), 10),
            ("task-2".to_string(), "Dynamic: nuclei".to_string(), "nuclei".to_string(), 6),
            ("task-3".to_string(), "Leak scan: gitleaks".to_string(), "gitleaks".to_string(), 5),
        ]
    );
    assert!(tasks.iter().all(|t| t.status == AgentStatus::Idle && t.depends_on.is_empty()));
}

#[test]
fn default_swarm_config() {
    let c = SwarmConfig::default();
    assert_eq!(c.max_parallel, 4);
    assert_eq!(c.retry_limit, 2);
    assert_eq!(c.timeout_ms, 300_000);
    assert_eq!(c.topology, SwarmTopology::Hierarchical);
}

#[test]
fn coordinator_memory_reads_back_what_was_stored() {
    let mut q = QueenCoordinator::new("swarm-1", SwarmConfig::default());
    assert!(q.mem_get("k").is_none());
    q.mem_store("k", "v1");
    q.mem_store("other", "x");
    q.mem_store("k", "v2");
    assert_eq!(q.mem_get("k").unwrap(), "v2");
    assert_eq!(q.mem_get("other").unwrap(), "x");
}

#[test]
fn coordinator_registers_and_plans() {
    let mut q = QueenCoordinator::new("swarm-1", SwarmConfig::default());
    q.register_task(AgentTask::new("t1", "one", "nmap", 2));
    q.register_task(AgentTask::new("t2", "two", "nuclei", 5).with_dep("t1"));
    q.register_task(AgentTask::new("t1", "one again", "nmap", 3));
    assert_eq!(q.mem_get("task:t1:status").unwrap(), "registered");
    let msgs = q.take_messages();
    assert_eq!(msgs, vec!["Registered task: t1", "Registered task: t2", "Registered task: t1"]);
    let plan = q.build_plan();
    assert_eq!(plan.len(), 2);
    assert_eq!(plan[0][0].name, "one again");
    assert_eq!(q.take_messages(), vec!["Execution plan: 2 wave(s)"]);
    assert_eq!(q.get_summary(), (0, 0, 2));
}

#[test]
fn coordinator_run_steps() {
    let mut q = QueenCoordinator::new("s", SwarmConfig::default());
    q.register_task(AgentTask::new("a", "A", "nmap", 1));
    q.take_messages();
    assert!(!q.check_wave(1));
    let plan = q.start_orchestration();
    assert_eq!(q.mem_get("swarm:status").unwrap(), "running");
    assert!(q.check_wave(plan[0].len()));
    assert!(!q.must_wait(0));
    assert!(q.must_wait(4));
    assert!(!q.must_wait(3));
    q.task_started(&plan[0][0]);
    assert_eq!(q.mem_get("task:a:status").unwrap(), "running");
    q.finish_wave(&plan[0]);
    assert_eq!(q.mem_get("task:a:status").unwrap(), "done");
    q.finish_orchestration();
    assert_eq!(q.mem_get("swarm:status").unwrap(), "complete");
    assert_eq!(
        q.take_messages(),
        vec!["Queen initializing swarm", "Execution plan: 1 wave(s)", "Running wave of 1 tasks", "Orchestration complete"]
    );
    q.stop();
    assert_eq!(q.mem_get("swarm:status").unwrap(), "stopped");
}

#[test]
fn registering_twice_keeps_one_task_per_id() {
    let mut q = QueenCoordinator::new("s", SwarmConfig::default());
    q.register_task(AgentTask::new("a", "first", "nmap", 1));
    q.register_task(AgentTask::new("b", "other", "nmap", 1));
    q.register_task(AgentTask::new("a", "second", "nmap", 1));
    let plan = q.build_plan();
    let names: Vec<String> = plan.iter().flatten().map(|t| t.name.clone()).collect();
    assert_eq!(names, vec!["second".to_string(), "other".to_string()]);
}
