use rust_ananicy::process::{scan_and_apply_rules, ProcessInfo};
use rust_ananicy::rules::Rule;
use rust_ananicy::cgroup::{
    base_for, cpu_switch_needed_for, cpu_switch_needed_in, detect_cgroup_version,
    line_second_field, v1_base_dir, v2_delegated_base, CgroupController, CgroupRegistry, CgroupVersion,
};

fn controller(name: &str, quota: u32, version: CgroupVersion, cpus: u64) -> CgroupController {
    CgroupController::with_cpu_count(String::from(name), quota, version, &String::from("/cg"), cpus)
}

fn writes(c: &CgroupController) -> Vec<(String, String)> {
    c.setup_writes().into_iter().map(|w| (w.path, w.contents)).collect()
}

#[test]
fn quota_arithmetic_half_of_four_cpus() {
    let c = controller("bg", 50, CgroupVersion::V1, 4);
    assert_eq!(c.quota_us(), 200000);
    assert_eq!(c.cpu_shares(), 512);
    assert_eq!(c.weight(), 5000);
    assert_eq!(c.cpu_max(), "200000 100000");
    assert_eq!(c.cpu_quota(), 50);
    assert_eq!(c.name(), "bg");
    assert_eq!(c.path(), "/cg/bg");
}

#[test]
fn v1_setup_writes() {
    let c = controller("bg", 50, CgroupVersion::V1, 4);
    assert_eq!(
        writes(&c),
        vec![
            (String::from("/cg/bg/cpu.cfs_period_us"), String::from("100000")),
            (String::from("/cg/bg/cpu.cfs_quota_us"), String::from("200000")),
            (String::from("/cg/bg/cpu.shares"), String::from("512")),
        ]
    );
}

#[test]
fn v2_setup_writes() {
    let c = controller("bg", 50, CgroupVersion::V2, 4);
    assert_eq!(
        writes(&c),
        vec![
            (String::from("/cg/bg/cpu.max"), String::from("200000 100000")),
            (String::from("/cg/bg/cpu.weight"), String::from("5000")),
        ]
    );
}

#[test]
fn unlimited_quota() {
    let c = controller("all", 100, CgroupVersion::V2, 4);
    assert_eq!(c.cpu_max(), "max 100000");
    assert_eq!(c.quota_us(), 400000);
    assert_eq!(c.weight(), 10000);
    let big = controller("big", 250, CgroupVersion::V1, 2);
    assert_eq!(big.quota_us(), 500000);
    assert_eq!(big.cpu_shares(), 2560);
    assert_eq!(big.weight(), 10000);
}

#[test]
fn zero_quota_weight_floor() {
    let c = controller("none", 0, CgroupVersion::V2, 8);
    assert_eq!(c.weight(), 1);
    assert_eq!(c.quota_us(), 0);
    assert_eq!(c.cpu_max(), "0 100000");
}

#[test]
fn attach_files() {
    let v1 = controller("bg", 10, CgroupVersion::V1, 1).attach_write(4242);
    assert_eq!((v1.path.as_str(), v1.contents.as_str()), ("/cg/bg/tasks", "4242"));
    let v2 = controller("bg", 10, CgroupVersion::V2, 1).attach_write(17);
    assert_eq!((v2.path.as_str(), v2.contents.as_str()), ("/cg/bg/cgroup.procs", "17"));
}

#[test]
fn controller_new_uses_host_cpus() {
    let c = CgroupController::new(String::from("x"), 50, CgroupVersion::V1, &String::from("/b")).unwrap();
    assert!(c.quota_us() >= 50000);
    assert_eq!(c.quota_us() % 50000, 0);
    assert_eq!(c.path(), "/b/x");
}

#[test]
fn version_detection() {
    assert_eq!(detect_cgroup_version(true), CgroupVersion::V2);
    assert_eq!(detect_cgroup_version(false), CgroupVersion::V1);
}

#[test]
fn registry_last_wins() {
    let mut reg = CgroupRegistry::new();
    reg.insert(controller("a", 10, CgroupVersion::V1, 1));
    reg.insert(controller("b", 20, CgroupVersion::V1, 1));
    reg.insert(controller("a", 30, CgroupVersion::V1, 1));
    assert_eq!(reg.len(), 2);
    let i = reg.lookup("a").unwrap();
    assert_eq!(reg.get(i).cpu_quota(), 30);
    assert_eq!(reg.lookup("ghost"), None);
}

#[test]
fn second_field_of_membership_line() {
    assert_eq!(line_second_field("0::/system.slice/x.service").as_deref(), Some("/system.slice/x.service"));
    assert_eq!(line_second_field("1:name=systemd:/a").as_deref(), None);
    assert_eq!(line_second_field("a::b::c").as_deref(), Some("b"));
    assert_eq!(line_second_field("0::").as_deref(), Some(""));
}

#[test]
fn base_from_group_path() {
    assert_eq!(base_for("/system.slice/x.service").as_deref(), Some("/sys/fs/cgroup/system.slice/x.service"));
    assert_eq!(base_for("//a").as_deref(), Some("/sys/fs/cgroup/a"));
    assert_eq!(base_for("/").as_deref(), Some("/sys/fs/cgroup/"));
    assert_eq!(base_for("relative"), None);
    assert_eq!(base_for(""), None);
}

#[test]
fn delegated_base_from_record() {
    assert_eq!(v2_delegated_base("0::/user.slice/u.service\n"), "/sys/fs/cgroup/user.slice/u.service");
    assert_eq!(
        v2_delegated_base("12:cpu,cpuacct:/x\n0::  /system.slice/d.service  \n"),
        "/sys/fs/cgroup/system.slice/d.service"
    );
    assert_eq!(v2_delegated_base(""), "/sys/fs/cgroup");
    assert_eq!(v2_delegated_base("garbage\n0::relative\n"), "/sys/fs/cgroup");
}

#[test]
fn cpu_switch_decision() {
    assert!(cpu_switch_needed_in("cpuset cpu io memory", "memory io"));
    assert!(!cpu_switch_needed_in("cpuset cpu io", "cpu io"));
    assert!(!cpu_switch_needed_in("cpuset cpu io", "+cpu"));
    assert!(!cpu_switch_needed_in("cpuset io memory", ""));
    let avail = vec![String::from("cpu")];
    assert!(cpu_switch_needed_for(&avail, &Vec::new()));
    assert!(!cpu_switch_needed_for(&Vec::new(), &Vec::new()));
}

#[test]
fn legacy_base() {
    assert_eq!(v1_base_dir(), "/sys/fs/cgroup/cpu");
}

#[test]
fn checked_cpu_count_overflow() {
    let base = String::from("/cg");
    let ok = CgroupController::with_checked_cpu_count(String::from("z"), 0, CgroupVersion::V1, &base, u64::MAX);
    assert_eq!(ok.unwrap().quota_us(), 0);
    let big = CgroupController::with_checked_cpu_count(String::from("b"), 50, CgroupVersion::V1, &base, 1 << 42);
    assert!(big.is_err());
    let fine = CgroupController::with_checked_cpu_count(String::from("f"), 50, CgroupVersion::V2, &base, 4).unwrap();
    assert_eq!(fine.quota_us(), 200000);
    assert_eq!(fine.cpu_max(), "200000 100000");
    let edge = 0xffff_ffff_ffff_ffffu64 / (100000u64 * 50);
    assert!(CgroupController::with_checked_cpu_count(String::from("e"), 50, CgroupVersion::V1, &base, edge).is_ok());
    assert!(CgroupController::with_checked_cpu_count(String::from("e"), 50, CgroupVersion::V1, &base, edge + 1).is_err());
}

#[test]
fn scan_with_other_processes_keeps_choice() {
    let catch_all = Rule {
        name: None, type_ref: None, nice: Some(1), ioclass: None, ionice: None, sched: None,
        rtprio: None, oom_score_adj: None, cgroup: None, cmdlines: None,
    };
    let worker = Rule { name: Some(String::from("worker")), nice: Some(19), ..catch_all_clone(&catch_all) };
    let rules = vec![catch_all, worker];
    let procs = vec![
        ProcessInfo::new(1, String::from("a"), None, Vec::new(), 0),
        ProcessInfo::new(2, String::from("worker"), None, Vec::new(), 0),
        ProcessInfo::new(3, String::from("b"), None, Vec::new(), 0),
    ];
    let plan = scan_and_apply_rules(&procs, &rules, &CgroupRegistry::new());
    assert_eq!(plan.len(), 3);
    assert!(plan.iter().all(|a| a.rule == 0));
}

fn catch_all_clone(r: &Rule) -> Rule {
    Rule {
        name: r.name.clone(), type_ref: r.type_ref.clone(), nice: r.nice, ioclass: r.ioclass.clone(),
        ionice: r.ionice, sched: r.sched.clone(), rtprio: r.rtprio, oom_score_adj: r.oom_score_adj,
        cgroup: r.cgroup.clone(), cmdlines: r.cmdlines.clone(),
    }
}
