use rust_ananicy::cgroup::{CgroupController, CgroupRegistry, CgroupVersion};
use rust_ananicy::process::{
    io_class, ionice_args, oom_score_adj_write, sched_policy, scan_and_apply_rules,
    scheduler_args, Directive, ProcessInfo, SchedPolicy,
};
use rust_ananicy::rules::{load_all_rules, Rule, Type};

fn rule(name: Option<&str>) -> Rule {
    Rule {
        name: name.map(String::from),
        type_ref: None,
        nice: None,
        ioclass: None,
        ionice: None,
        sched: None,
        rtprio: None,
        oom_score_adj: None,
        cgroup: None,
        cmdlines: None,
    }
}

fn process(pid: i32, comm: &str, args: &[&str]) -> ProcessInfo {
    ProcessInfo::new(pid, String::from(comm), None, args.iter().map(|a| a.to_string()).collect(), 0)
}

fn with_patterns(pats: &[&str]) -> Rule {
    let mut r = rule(None);
    r.cmdlines = Some(pats.iter().map(|p| p.to_string()).collect());
    r
}

#[test]
fn patterns_need_every_one() {
    let r = with_patterns(&["a", "b"]);
    assert!(process(1, "p", &["xa", "by"]).matches_rule(&r));
    assert!(process(1, "p", &["ab"]).matches_rule(&r));
    assert!(!process(1, "p", &["xa", "y"]).matches_rule(&r));
    assert!(!process(1, "p", &["x", "by"]).matches_rule(&r));
    assert!(!process(1, "p", &[]).matches_rule(&r));
}

#[test]
fn name_matches_comm_or_exe() {
    let r = rule(Some("worker"));
    assert!(process(1, "worker", &[]).matches_rule(&r));
    assert!(!process(1, "other", &[]).matches_rule(&r));
    let by_exe = ProcessInfo::new(2, String::from("wrk"), Some(String::from("worker")), Vec::new(), 0);
    assert!(by_exe.matches_rule(&r));
}

#[test]
fn rule_without_conditions_matches_all() {
    assert!(process(9, "anything", &["x"]).matches_rule(&rule(None)));
}

#[test]
fn first_match_is_stable() {
    let rules = vec![rule(Some("a")), with_patterns(&["--bg"]), rule(Some("worker"))];
    let p = process(3, "worker", &["worker", "--bg"]);
    let first = p.first_matching_rule(&rules);
    assert_eq!(first, Some(1));
    for _ in 0..5 {
        assert_eq!(p.first_matching_rule(&rules), first);
    }
    assert_eq!(process(3, "zzz", &[]).first_matching_rule(&rules), None);
}

#[test]
fn type_defaults_end_to_end() {
    let types = vec![Type {
        name: String::from("bg"),
        nice: Some(15),
        ioclass: None,
        ionice: None,
        sched: None,
        rtprio: None,
        oom_score_adj: Some(500),
        cgroup: None,
    }];
    let mut r = rule(Some("worker"));
    r.type_ref = Some(String::from("bg"));
    let rules = load_all_rules(&types, vec![r]);
    let procs = vec![process(77, "worker", &[])];
    let plan = scan_and_apply_rules(&procs, &rules, &CgroupRegistry::new());
    assert_eq!(plan.len(), 1);
    assert_eq!(plan[0].pid, 77);
    assert_eq!(plan[0].directives, vec![Directive::Nice(15), Directive::OomScoreAdj(500)]);
}

#[test]
fn catch_all_rule_masks_later_rules() {
    let mut a = rule(None);
    a.nice = Some(1);
    let mut b = rule(Some("worker"));
    b.nice = Some(19);
    let rules = vec![a, b];
    let plan = scan_and_apply_rules(&vec![process(5, "worker", &[])], &rules, &CgroupRegistry::new());
    assert_eq!(plan.len(), 1);
    assert_eq!(plan[0].rule, 0);
    assert_eq!(plan[0].directives, vec![Directive::Nice(1)]);
}

#[test]
fn unknown_cgroup_is_not_attached() {
    let mut r = rule(None);
    r.cgroup = Some(String::from("ghost"));
    let mut reg = CgroupRegistry::new();
    reg.insert(CgroupController::with_cpu_count(String::from("real"), 50, CgroupVersion::V2, &String::from("/cg"), 2));
    let p = process(8, "x", &[]);
    assert!(p.apply_rule(&r, &reg).is_empty());
    r.cgroup = Some(String::from("real"));
    assert_eq!(p.apply_rule(&r, &reg), vec![Directive::Attach(0)]);
}

#[test]
fn directives_in_fixed_order() {
    let mut r = rule(None);
    r.cgroup = Some(String::from("real"));
    r.oom_score_adj = Some(-100);
    r.sched = Some(String::from("rr"));
    r.rtprio = Some(10);
    r.ionice = Some(4);
    r.nice = Some(-3);
    let mut reg = CgroupRegistry::new();
    reg.insert(CgroupController::with_cpu_count(String::from("real"), 50, CgroupVersion::V1, &String::from("/cg"), 2));
    assert_eq!(
        process(1, "x", &[]).apply_rule(&r, &reg),
        vec![
            Directive::Nice(-3),
            Directive::IoPriority { class: None, level: Some(4) },
            Directive::Scheduler { policy: SchedPolicy::RoundRobin, rtprio: Some(10) },
            Directive::OomScoreAdj(-100),
            Directive::Attach(0),
        ]
    );
}

#[test]
fn rtprio_only_for_realtime_policies() {
    let mut r = rule(None);
    r.sched = Some(String::from("batch"));
    r.rtprio = Some(10);
    assert_eq!(
        process(1, "x", &[]).apply_rule(&r, &CgroupRegistry::new()),
        vec![Directive::Scheduler { policy: SchedPolicy::Batch, rtprio: None }]
    );
}

#[test]
fn unmatched_processes_are_skipped() {
    let rules = vec![rule(Some("only"))];
    let procs = vec![process(1, "a", &[]), process(2, "only", &[]), process(3, "b", &[])];
    let plan = scan_and_apply_rules(&procs, &rules, &CgroupRegistry::new());
    assert_eq!(plan.len(), 1);
    assert_eq!(plan[0].pid, 2);
    assert!(plan[0].directives.is_empty());
}

#[test]
fn io_class_numbers() {
    assert_eq!(io_class("realtime"), 1);
    assert_eq!(io_class("best-effort"), 2);
    assert_eq!(io_class("none"), 2);
    assert_eq!(io_class("idle"), 3);
    assert_eq!(io_class("bogus"), 2);
}

#[test]
fn policies() {
    assert_eq!(sched_policy("rr"), SchedPolicy::RoundRobin);
    assert_eq!(sched_policy("fifo"), SchedPolicy::Fifo);
    assert_eq!(sched_policy("batch"), SchedPolicy::Batch);
    assert_eq!(sched_policy("iso"), SchedPolicy::Iso);
    assert_eq!(sched_policy("idle"), SchedPolicy::Idle);
    assert_eq!(sched_policy("other"), SchedPolicy::Normal);
    assert_eq!(sched_policy("normal"), SchedPolicy::Normal);
    assert_eq!(sched_policy("weird"), SchedPolicy::Normal);
}

#[test]
fn ionice_command_line() {
    assert_eq!(ionice_args(42, Some(3), Some(7)), vec!["-p", "42", "-c", "3", "-n", "7"]);
    assert_eq!(ionice_args(42, None, None), vec!["-p", "42"]);
    assert_eq!(ionice_args(7, Some(2), None), vec!["-p", "7", "-c", "2"]);
}

#[test]
fn scheduler_command_line() {
    assert_eq!(scheduler_args(42, SchedPolicy::Fifo, Some(50)), vec!["-F", "-p", "50", "42"]);
    assert_eq!(scheduler_args(42, SchedPolicy::Idle, None), vec!["-D", "42"]);
    assert_eq!(scheduler_args(1, SchedPolicy::Normal, None), vec!["-N", "1"]);
}

#[test]
fn oom_write() {
    let w = oom_score_adj_write(123, -500);
    assert_eq!(w.path, "/proc/123/oom_score_adj");
    assert_eq!(w.contents, "-500");
}

#[test]
fn snapshot_getters() {
    let p = ProcessInfo::new(10, String::from("sh"), None, Vec::new(), -4);
    assert_eq!(p.pid(), 10);
    assert_eq!(p.name(), "sh");
    assert_eq!(p.nice(), -4);
}
