use rust_ananicy::config::{
    apply_setting, default_config_dir, default_true, holds_record, is_truthy, parse_bool,
    parse_config, record_lines, ConfigSettings, VerboseOpts,
};

#[test]
fn bool_values() {
    assert!(parse_bool("true"));
    assert!(parse_bool("YES"));
    assert!(parse_bool("1"));
    assert!(parse_bool("True"));
    assert!(!parse_bool("false"));
    assert!(!parse_bool("no"));
    assert!(!parse_bool(""));
    assert!(is_truthy("yes"));
    assert!(!is_truthy("YES"));
}

#[test]
fn defaults() {
    assert!(default_true());
    assert_eq!(default_config_dir(), "/etc/ananicy.d/");
    let o = VerboseOpts::default();
    assert!(!o.cgroup_load && !o.apply_cgroup && !o.apply_nice);
}

#[test]
fn settings_lines() {
    let text = "# comment\n\ncheck_freq = 15\nverbose=no\n  apply_nice = yes  \napply_cgroup=1\nunknown=1\nnot a setting\n";
    let c = parse_config(text);
    assert_eq!(c.check_freq.as_deref(), Some("15"));
    assert!(!c.verbose);
    assert!(c.verbose_opts.apply_nice);
    assert!(c.verbose_opts.apply_cgroup);
    assert!(!c.verbose_opts.apply_sched);
    assert!(!c.verbose_opts.type_load);
}

#[test]
fn empty_settings() {
    let c = parse_config("");
    assert_eq!(c.check_freq, None);
    assert!(c.verbose);
    assert_eq!(c.verbose_opts, VerboseOpts::default());
}

#[test]
fn value_keeps_later_equals() {
    let c = parse_config("check_freq = 2=3\n");
    assert_eq!(c.check_freq.as_deref(), Some("2=3"));
}

#[test]
fn record_lines_skip_blanks_and_comments() {
    let text = "{\"type\":\"bg\"}\n\n   # note\n  {\"name\":\"x\"}  \n";
    assert_eq!(record_lines(text), vec!["{\"type\":\"bg\"}", "{\"name\":\"x\"}"]);
    assert!(record_lines("").is_empty());
}

#[test]
fn record_detection() {
    assert!(holds_record("{}"));
    assert!(!holds_record(""));
    assert!(!holds_record("# x"));
}

#[test]
fn single_setting() {
    let mut st = ConfigSettings { check_freq: None, verbose: true, verbose_opts: VerboseOpts::default() };
    apply_setting(&mut st, "apply_sched", String::from("Yes"));
    apply_setting(&mut st, "verbose", String::from("0"));
    apply_setting(&mut st, "check_freq", String::from("2.5"));
    assert!(st.verbose_opts.apply_sched);
    assert!(!st.verbose);
    assert_eq!(st.check_freq.as_deref(), Some("2.5"));
}
