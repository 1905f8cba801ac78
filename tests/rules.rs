use rust_ananicy::rules::{load_all_rules, resolve_rule, find_type, Rule, Type};

fn rule(name: Option<&str>, ty: Option<&str>) -> Rule {
    Rule {
        name: name.map(String::from),
        type_ref: ty.map(String::from),
        nice: None,
        ioclass: None,
        ionice: None,
        sched: None,
        rtprio: None,
        oom_score_adj: None,
        cgroup: None,
        cmdlines: None,
    }
}

fn bg_type() -> Type {
    Type {
        name: String::from("bg"),
        nice: Some(15),
        ioclass: Some(String::from("idle")),
        ionice: None,
        sched: Some(String::from("batch")),
        rtprio: None,
        oom_score_adj: Some(500),
        cgroup: Some(String::from("slow")),
    }
}

#[test]
fn rule_value_wins_over_type() {
    let mut r = rule(Some("worker"), Some("bg"));
    r.nice = Some(-5);
    r.cgroup = Some(String::from("fast"));
    let out = load_all_rules(&vec![bg_type()], vec![r]);
    assert_eq!(out[0].nice, Some(-5));
    assert_eq!(out[0].cgroup.as_deref(), Some("fast"));
    assert_eq!(out[0].oom_score_adj, Some(500));
    assert_eq!(out[0].ioclass.as_deref(), Some("idle"));
    assert_eq!(out[0].sched.as_deref(), Some("batch"));
    assert_eq!(out[0].ionice, None);
    assert_eq!(out[0].rtprio, None);
}

#[test]
fn resolving_twice_changes_nothing() {
    let types = vec![bg_type()];
    let mut r = rule(Some("worker"), Some("bg"));
    r.ionice = Some(3);
    resolve_rule(&mut r, &types);
    let once = (r.nice, r.ioclass.clone(), r.ionice, r.sched.clone(), r.oom_score_adj, r.cgroup.clone());
    resolve_rule(&mut r, &types);
    let twice = (r.nice, r.ioclass.clone(), r.ionice, r.sched.clone(), r.oom_score_adj, r.cgroup.clone());
    assert_eq!(once, twice);
    assert_eq!(r.type_ref.as_deref(), Some("bg"));
}

#[test]
fn unknown_type_passes_rule_through() {
    let mut r = rule(Some("worker"), Some("missing"));
    r.nice = Some(3);
    let out = load_all_rules(&vec![bg_type()], vec![r]);
    assert_eq!(out[0].nice, Some(3));
    assert_eq!(out[0].oom_score_adj, None);
    assert_eq!(out[0].cgroup, None);
}

#[test]
fn rules_keep_count_and_order() {
    let rs = vec![rule(Some("a"), Some("bg")), rule(Some("b"), None), rule(Some("c"), Some("bg"))];
    let out = load_all_rules(&vec![bg_type()], rs);
    let names: Vec<_> = out.iter().map(|r| r.name.clone().unwrap()).collect();
    assert_eq!(names, vec!["a", "b", "c"]);
    assert_eq!(out[1].nice, None);
    assert_eq!(out[2].nice, Some(15));
}

#[test]
fn last_loaded_type_wins() {
    let mut second = bg_type();
    second.nice = Some(7);
    let types = vec![bg_type(), second];
    assert_eq!(find_type(&types, &String::from("bg")), Some(1));
    assert_eq!(find_type(&types, &String::from("none")), None);
    let out = load_all_rules(&types, vec![rule(None, Some("bg"))]);
    assert_eq!(out[0].nice, Some(7));
}

#[test]
fn no_rules_no_output() {
    assert!(load_all_rules(&vec![bg_type()], Vec::new()).is_empty());
}
