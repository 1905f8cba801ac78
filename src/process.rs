//! Process snapshots, rule matching, and the directives a matched rule asks for.
use vstd::prelude::*;
use crate::text::has_substring;
use crate::text::texts;
use crate::text::decimal;
use crate::text::signed_decimal;
use crate::text::chars_of;
use crate::text::same_chars;
use crate::text::contains_text;
use crate::text::text_is;
use crate::text::decimal_string;
use crate::text::signed_decimal_string;
use crate::text::string_of;
use crate::text::push_str;
use crate::text::push_chars;
use crate::rules::Rule;
use crate::rules::Type;
use crate::rules::resolved;
use crate::rules::merged;
use crate::cgroup::CgroupRegistry;
use crate::cgroup::FileWrite;
use crate::cgroup::write_view;

verus! {

/// What the scan saw of one live process.
pub struct ProcessInfo {
    pub pid: i32,
    /// Short name (`comm`).
    pub comm: String,
    /// File name of the resolved executable, when it could be read.
    pub exe_name: Option<String>,
    /// Command-line arguments.
    pub cmdline: Vec<String>,
    pub nice: i32,
}

/// The rule's name condition: absent, or equal to the short name or to the
/// executable's file name.
pub open spec fn name_matches(rule: Rule, p: ProcessInfo) -> bool {
    match rule.name {
        None => true,
        Some(n) => p.comm@ == n@ || (p.exe_name matches Some(e) && e@ == n@),
    }
}

/// Some argument of `cmdline` contains `pat`.
pub open spec fn pattern_found(cmdline: Seq<String>, pat: Seq<char>) -> bool {
    exists|a: int| 0 <= a < cmdline.len() && has_substring(#[trigger] cmdline[a]@, pat)
}

/// The rule's command-line condition: absent, or every pattern found in some argument.
pub open spec fn cmdline_matches(rule: Rule, p: ProcessInfo) -> bool {
    match rule.cmdlines {
        None => true,
        Some(pats) => forall|k: int|
            0 <= k < pats.len() ==> pattern_found(p.cmdline@, #[trigger] pats@[k]@),
    }
}

/// The rule applies to the process: every configured condition holds.
///
/// A rule with neither a name nor patterns matches every process. That serves
/// as a catch-all, but placed early in the list it masks every later rule for
/// every process.
pub open spec fn rule_matches(rule: Rule, p: ProcessInfo) -> bool {
    name_matches(rule, p) && cmdline_matches(rule, p)
}

/// The first rule at position `k` or later that matches.
pub open spec fn first_match_from(rules: Seq<Rule>, p: ProcessInfo, k: int) -> Option<int>
    decreases rules.len() - k,
{
    if k < 0 || k >= rules.len() {
        None
    } else if rule_matches(rules[k], p) {
        Some(k)
    } else {
        first_match_from(rules, p, k + 1)
    }
}

/// The rule that applies to the process: the first in list order that matches.
pub open spec fn first_match(rules: Seq<Rule>, p: ProcessInfo) -> Option<int> {
    first_match_from(rules, p, 0)
}

proof fn lemma_first_match_from_earliest(rules: Seq<Rule>, p: ProcessInfo, i: int, k: int)
    requires
        0 <= k <= i < rules.len(),
        rule_matches(rules[i], p),
        forall|j: int| 0 <= j < i ==> !rule_matches(#[trigger] rules[j], p),
    ensures
        first_match_from(rules, p, k) == Some(i),
    decreases i - k,
{
    if k < i {
        lemma_first_match_from_earliest(rules, p, i, k + 1);
    }
}

/// A matching rule with no matching rule before it is the one selected.
pub proof fn lemma_first_match_is_earliest(rules: Seq<Rule>, p: ProcessInfo, i: int)
    requires
        0 <= i < rules.len(),
        rule_matches(rules[i], p),
        forall|j: int| 0 <= j < i ==> !rule_matches(#[trigger] rules[j], p),
    ensures
        first_match(rules, p) == Some(i),
{
    lemma_first_match_from_earliest(rules, p, i, 0);
}

proof fn lemma_first_match_from_sound(rules: Seq<Rule>, p: ProcessInfo, k: int)
    requires
        0 <= k <= rules.len(),
    ensures
        match first_match_from(rules, p, k) {
            Some(i) => k <= i < rules.len() && rule_matches(rules[i], p) && forall|j: int|
                k <= j < i ==> !rule_matches(#[trigger] rules[j], p),
            None => forall|j: int| k <= j < rules.len() ==> !rule_matches(#[trigger] rules[j], p),
        },
    decreases rules.len() - k,
{
    if k < rules.len() {
        lemma_first_match_from_sound(rules, p, k + 1);
    }
}

/// The selected rule matches and no earlier rule does; when none is selected,
/// no rule matches.
pub proof fn lemma_first_match_sound(rules: Seq<Rule>, p: ProcessInfo)
    ensures
        match first_match(rules, p) {
            Some(i) => 0 <= i < rules.len() && rule_matches(rules[i], p) && forall|j: int|
                0 <= j < i ==> !rule_matches(#[trigger] rules[j], p),
            None => forall|j: int| 0 <= j < rules.len() ==> !rule_matches(#[trigger] rules[j], p),
        },
{
    lemma_first_match_from_sound(rules, p, 0);
}

/// Command-line patterns combine by AND: a rule whose pattern at position `k`
/// occurs in no argument does not match, whatever the other patterns do.
pub proof fn lemma_every_pattern_needed(rule: Rule, p: ProcessInfo, k: int)
    requires
        rule.cmdlines is Some,
        0 <= k < rule.cmdlines->Some_0@.len(),
        !pattern_found(p.cmdline@, rule.cmdlines->Some_0@[k]@),
    ensures
        !rule_matches(rule, p),
{
    let pats = rule.cmdlines->Some_0;
    assert(!pattern_found(p.cmdline@, pats@[k]@));
}

/// A rule matches when its name condition holds and every pattern occurs in
/// some argument.
pub proof fn lemma_all_patterns_suffice(rule: Rule, p: ProcessInfo)
    requires
        name_matches(rule, p),
        rule.cmdlines matches Some(pats) ==> forall|k: int|
            0 <= k < pats@.len() ==> pattern_found(p.cmdline@, #[trigger] pats@[k]@),
    ensures
        rule_matches(rule, p),
{
}

/// CPU scheduling policies the scheduler tool understands.
#[derive(Debug, Clone, Copy, PartialEq, Eq, Structural)]
pub enum SchedPolicy {
    Normal,
    RoundRobin,
    Fifo,
    Batch,
    Iso,
    Idle,
}

/// The policy a configured name selects; unknown names select `Normal`.
pub open spec fn policy_of(s: Seq<char>) -> SchedPolicy {
    if s == "rr"@ {
        SchedPolicy::RoundRobin
    } else if s == "fifo"@ {
        SchedPolicy::Fifo
    } else if s == "batch"@ {
        SchedPolicy::Batch
    } else if s == "iso"@ {
        SchedPolicy::Iso
    } else if s == "idle"@ {
        SchedPolicy::Idle
    } else {
        SchedPolicy::Normal
    }
}

/// Real-time policies take a real-time priority.
pub open spec fn is_realtime(p: SchedPolicy) -> bool {
    p == SchedPolicy::RoundRobin || p == SchedPolicy::Fifo
}

/// The numeric IO scheduling class of a configured class name: realtime 1,
/// idle 3, anything else (best-effort, none, unknown) 2.
pub open spec fn io_class_of(s: Seq<char>) -> u32 {
    if s == "realtime"@ {
        1
    } else if s == "idle"@ {
        3
    } else {
        2
    }
}

/// One resource change for a process.
#[derive(Debug, Clone, Copy, PartialEq, Eq)]
pub enum Directive {
    /// Set the niceness.
    Nice(i32),
    /// Run the IO-priority tool with this class number and level.
    IoPriority { class: Option<u32>, level: Option<i32> },
    /// Run the scheduler tool; the real-time priority is kept only for real-time policies.
    Scheduler { policy: SchedPolicy, rtprio: Option<i32> },
    /// Write the OOM score adjustment.
    OomScoreAdj(i32),
    /// Attach the process to the registry's group at this position.
    Attach(usize),
}

/// The directives a rule asks for, in the fixed order niceness, IO priority,
/// scheduling policy, OOM score, cgroup; absent fields give nothing, and a
/// cgroup name that is not loaded gives nothing either.
pub open spec fn planned(rule: Rule, cgroups: CgroupRegistry) -> Seq<Directive> {
    nice_part(rule) + io_part(rule) + sched_part(rule) + oom_part(rule) + cgroup_part(rule, cgroups)
}

pub open spec fn nice_part(rule: Rule) -> Seq<Directive> {
    match rule.nice {
        Some(n) => seq![Directive::Nice(n)],
        None => seq![],
    }
}

pub open spec fn io_part(rule: Rule) -> Seq<Directive> {
    if rule.ioclass is Some || rule.ionice is Some {
        seq![
            Directive::IoPriority {
                class: match rule.ioclass {
                    Some(c) => Some(io_class_of(c@)),
                    None => None,
                },
                level: rule.ionice,
            },
        ]
    } else {
        seq![]
    }
}

pub open spec fn sched_part(rule: Rule) -> Seq<Directive> {
    match rule.sched {
        Some(s) => seq![
            Directive::Scheduler {
                policy: policy_of(s@),
                rtprio: if is_realtime(policy_of(s@)) {
                    rule.rtprio
                } else {
                    None
                },
            },
        ],
        None => seq![],
    }
}

pub open spec fn oom_part(rule: Rule) -> Seq<Directive> {
    match rule.oom_score_adj {
        Some(o) => seq![Directive::OomScoreAdj(o)],
        None => seq![],
    }
}

pub open spec fn cgroup_part(rule: Rule, cgroups: CgroupRegistry) -> Seq<Directive> {
    match rule.cgroup {
        Some(c) => match cgroups.spec_lookup(c@) {
            Some(i) => seq![Directive::Attach(i as usize)],
            None => seq![],
        },
        None => seq![],
    }
}

/// Arguments of the IO-priority tool: `-p <pid> [-c <class>] [-n <level>]`.
pub open spec fn ionice_argv(pid: i32, class: Option<u32>, level: Option<i32>) -> Seq<Seq<char>> {
    seq!["-p"@, signed_decimal(pid as int)] + match class {
        Some(c) => seq!["-c"@, decimal(c as nat)],
        None => seq![],
    } + match level {
        Some(l) => seq!["-n"@, signed_decimal(l as int)],
        None => seq![],
    }
}

/// The scheduler tool's flag for a policy.
pub open spec fn policy_flag(p: SchedPolicy) -> Seq<char> {
    match p {
        SchedPolicy::Normal => "-N"@,
        SchedPolicy::RoundRobin => "-R"@,
        SchedPolicy::Fifo => "-F"@,
        SchedPolicy::Batch => "-B"@,
        SchedPolicy::Iso => "-I"@,
        SchedPolicy::Idle => "-D"@,
    }
}

/// Arguments of the scheduler tool: `<flag> [-p <rtprio>] <pid>`.
pub open spec fn scheduler_argv(pid: i32, policy: SchedPolicy, rtprio: Option<i32>) -> Seq<Seq<char>> {
    seq![policy_flag(policy)] + match rtprio {
        Some(r) => seq!["-p"@, signed_decimal(r as int)],
        None => seq![],
    } + seq![signed_decimal(pid as int)]
}

/// `/proc/<pid>/oom_score_adj`.
pub open spec fn oom_score_adj_path(pid: i32) -> Seq<char> {
    "/proc/"@ + signed_decimal(pid as int) + "/oom_score_adj"@
}

fn push_text(v: &mut Vec<String>, s: String)
    ensures
        texts(final(v)@) == texts(old(v)@).push(s@),
{
    v.push(s);
    assert(texts(v@) =~= texts(old(v)@).push(s@));
}

fn literal(s: &str) -> (r: String)
    ensures
        r@ == s@,
{
    string_of(&chars_of(s))
}

/// The scheduling policy a configured name selects.
pub fn sched_policy(s: &str) -> (r: SchedPolicy)
    ensures
        r == policy_of(s@),
{
    if text_is(s, "rr") {
        SchedPolicy::RoundRobin
    } else if text_is(s, "fifo") {
        SchedPolicy::Fifo
    } else if text_is(s, "batch") {
        SchedPolicy::Batch
    } else if text_is(s, "iso") {
        SchedPolicy::Iso
    } else if text_is(s, "idle") {
        SchedPolicy::Idle
    } else {
        SchedPolicy::Normal
    }
}

/// The numeric IO class a configured class name selects.
pub fn io_class(s: &str) -> (r: u32)
    ensures
        r == io_class_of(s@),
{
    if text_is(s, "realtime") {
        1
    } else if text_is(s, "idle") {
        3
    } else {
        2
    }
}

/// Command-line arguments for the IO-priority tool.
pub fn ionice_args(pid: i32, class: Option<u32>, level: Option<i32>) -> (r: Vec<String>)
    ensures
        texts(r@) == ionice_argv(pid, class, level),
{
    let mut r: Vec<String> = Vec::new();
    push_text(&mut r, literal("-p"));
    push_text(&mut r, signed_decimal_string(pid));
    if let Some(c) = class {
        push_text(&mut r, literal("-c"));
        push_text(&mut r, decimal_string(c as u64));
    }
    if let Some(l) = level {
        push_text(&mut r, literal("-n"));
        push_text(&mut r, signed_decimal_string(l));
    }
    assert(texts(r@) =~= ionice_argv(pid, class, level));
    r
}

fn flag_text(p: SchedPolicy) -> (r: String)
    ensures
        r@ == policy_flag(p),
{
    match p {
        SchedPolicy::Normal => literal("-N"),
        SchedPolicy::RoundRobin => literal("-R"),
        SchedPolicy::Fifo => literal("-F"),
        SchedPolicy::Batch => literal("-B"),
        SchedPolicy::Iso => literal("-I"),
        SchedPolicy::Idle => literal("-D"),
    }
}

/// Command-line arguments for the scheduler tool.
pub fn scheduler_args(pid: i32, policy: SchedPolicy, rtprio: Option<i32>) -> (r: Vec<String>)
    ensures
        texts(r@) == scheduler_argv(pid, policy, rtprio),
{
    let mut r: Vec<String> = Vec::new();
    push_text(&mut r, flag_text(policy));
    if let Some(p) = rtprio {
        push_text(&mut r, literal("-p"));
        push_text(&mut r, signed_decimal_string(p));
    }
    push_text(&mut r, signed_decimal_string(pid));
    assert(texts(r@) =~= scheduler_argv(pid, policy, rtprio));
    r
}

/// The write that sets a process's OOM score adjustment.
pub fn oom_score_adj_write(pid: i32, score: i32) -> (r: FileWrite)
    ensures
        write_view(r) == (oom_score_adj_path(pid), signed_decimal(score as int)),
{
    let mut path = literal("/proc/");
    push_chars(&mut path, &chars_of(signed_decimal_string(pid).as_str()));
    push_str(&mut path, "/oom_score_adj");
    FileWrite { path, contents: signed_decimal_string(score) }
}

impl ProcessInfo {
    /// A snapshot from what was read of the process.
    pub fn new(pid: i32, comm: String, exe_name: Option<String>, cmdline: Vec<String>, nice: i32) -> (r:
        ProcessInfo)
        ensures
            r.pid == pid,
            r.comm == comm,
            r.exe_name == exe_name,
            r.cmdline == cmdline,
            r.nice == nice,
    {
        ProcessInfo { pid, comm, exe_name, cmdline, nice }
    }

    pub fn pid(&self) -> (r: i32)
        ensures
            r == self.pid,
    {
        self.pid
    }

    /// The short name.
    pub fn name(&self) -> (r: &str)
        ensures
            r@ == self.comm@,
    {
        self.comm.as_str()
    }

    pub fn nice(&self) -> (r: i32)
        ensures
            r == self.nice,
    {
        self.nice
    }

    /// Whether some argument contains `pat`.
    pub fn has_pattern(&self, pat: &String) -> (r: bool)
        ensures
            r == pattern_found(self.cmdline@, pat@),
    {
        let mut a: usize = 0;
        while a < self.cmdline.len()
            invariant
                a <= self.cmdline.len(),
                forall|j: int| 0 <= j < a ==> !has_substring(#[trigger] self.cmdline@[j]@, pat@),
            decreases self.cmdline.len() - a,
        {
            if contains_text(self.cmdline[a].as_str(), pat.as_str()) {
                return true;
            }
            a = a + 1;
        }
        false
    }

    /// Whether every condition the rule configures holds of this process.
    pub fn matches_rule(&self, rule: &Rule) -> (r: bool)
        ensures
            r == rule_matches(*rule, *self),
    {
        if let Some(n) = &rule.name {
            let wanted = chars_of(n.as_str());
            let by_comm = same_chars(&chars_of(self.comm.as_str()), &wanted);
            let by_exe = match &self.exe_name {
                Some(e) => same_chars(&chars_of(e.as_str()), &wanted),
                None => false,
            };
            if !by_comm && !by_exe {
                return false;
            }
        }
        if let Some(pats) = &rule.cmdlines {
            let mut k: usize = 0;
            while k < pats.len()
                invariant
                    k <= pats.len(),
                    rule.cmdlines == Some(*pats),
                    forall|j: int| 0 <= j < k ==> pattern_found(self.cmdline@, #[trigger] pats@[j]@),
                decreases pats.len() - k,
            {
                if !self.has_pattern(&pats[k]) {
                    proof {
                        lemma_every_pattern_needed(*rule, *self, k as int);
                    }
                    return false;
                }
                k = k + 1;
            }
        }
        true
    }

    /// Position of the first rule, in list order, that matches this process.
    pub fn first_matching_rule(&self, rules: &Vec<Rule>) -> (r: Option<usize>)
        ensures
            r matches Some(i) ==> i < rules.len(),
            r == (match first_match(rules@, *self) {
                Some(i) => Some(i as usize),
                None => None,
            }),
    {
        let mut k: usize = 0;
        while k < rules.len()
            invariant
                k <= rules.len(),
                first_match_from(rules@, *self, k as int) == first_match(rules@, *self),
            decreases rules.len() - k,
        {
            if self.matches_rule(&rules[k]) {
                return Some(k);
            }
            k = k + 1;
        }
        None
    }

    /// The directives the rule asks of this process, in application order.
    pub fn apply_rule(&self, rule: &Rule, cgroups: &CgroupRegistry) -> (r: Vec<Directive>)
        ensures
            r@ == planned(*rule, *cgroups),
    {
        let mut r: Vec<Directive> = Vec::new();
        if let Some(n) = rule.nice {
            r.push(Directive::Nice(n));
        }
        assert(r@ =~= nice_part(*rule));
        if rule.ioclass.is_some() || rule.ionice.is_some() {
            let class = match &rule.ioclass {
                Some(c) => Some(io_class(c.as_str())),
                None => None,
            };
            r.push(Directive::IoPriority { class, level: rule.ionice });
        }
        assert(r@ =~= nice_part(*rule) + io_part(*rule));
        if let Some(s) = &rule.sched {
            let policy = sched_policy(s.as_str());
            let rtprio = if policy == SchedPolicy::RoundRobin || policy == SchedPolicy::Fifo {
                rule.rtprio
            } else {
                None
            };
            r.push(Directive::Scheduler { policy, rtprio });
        }
        assert(r@ =~= nice_part(*rule) + io_part(*rule) + sched_part(*rule));
        if let Some(o) = rule.oom_score_adj {
            r.push(Directive::OomScoreAdj(o));
        }
        assert(r@ =~= nice_part(*rule) + io_part(*rule) + sched_part(*rule) + oom_part(*rule));
        if let Some(c) = &rule.cgroup {
            if let Some(i) = cgroups.lookup(c.as_str()) {
                r.push(Directive::Attach(i));
            }
        }
        assert(r@ =~= planned(*rule, *cgroups));
        r
    }
}

/// The rule chosen for one process during a scan, with what it asks.
pub struct Application {
    pub pid: i32,
    /// Position of the rule in the resolved list.
    pub rule: usize,
    pub directives: Vec<Directive>,
}

pub open spec fn application_view(a: Application) -> (i32, int, Seq<Directive>) {
    (a.pid, a.rule as int, a.directives@)
}

pub open spec fn applications_view(s: Seq<Application>) -> Seq<(i32, int, Seq<Directive>)> {
    s.map_values(|a: Application| application_view(a))
}

/// One scan: for each process in turn, the first matching rule and its
/// directives; processes that no rule matches are left out.
pub open spec fn tick_plan(procs: Seq<ProcessInfo>, rules: Seq<Rule>, cgroups: CgroupRegistry) -> Seq<
    (i32, int, Seq<Directive>),
>
    decreases procs.len(),
{
    if procs.len() == 0 {
        seq![]
    } else {
        let rest = tick_plan(procs.drop_last(), rules, cgroups);
        match first_match(rules, procs.last()) {
            Some(i) => rest.push((procs.last().pid, i, planned(rules[i], cgroups))),
            None => rest,
        }
    }
}

/// Classifies every scanned process against the resolved rules, in order, and
/// lists what each matched rule asks of its process.
pub fn scan_and_apply_rules(
    processes: &Vec<ProcessInfo>,
    rules: &Vec<Rule>,
    cgroups: &CgroupRegistry,
) -> (r: Vec<Application>)
    ensures
        applications_view(r@) == tick_plan(processes@, rules@, *cgroups),
{
    let mut r: Vec<Application> = Vec::new();
    let mut k: usize = 0;
    while k < processes.len()
        invariant
            k <= processes.len(),
            applications_view(r@) == tick_plan(
                processes@.subrange(0, k as int),
                rules@,
                *cgroups,
            ),
        decreases processes.len() - k,
    {
        let p = &processes[k];
        let ghost before = r@;
        assert(processes@.subrange(0, k + 1).drop_last() == processes@.subrange(0, k as int));
        assert(processes@.subrange(0, k + 1).last() == processes@[k as int]);
        let chosen = p.first_matching_rule(rules);
        proof {
            lemma_first_match_sound(rules@, *p);
        }
        if let Some(i) = chosen {
            let directives = p.apply_rule(&rules[i], cgroups);
            r.push(Application { pid: p.pid, rule: i, directives });
            assert(applications_view(r@) =~= applications_view(before).push(
                (p.pid, i as int, planned(rules@[i as int], *cgroups)),
            ));
        }
        k = k + 1;
    }
    assert(processes@.subrange(0, processes.len() as int) == processes@);
    r
}

/// A rule whose cgroup name is not loaded asks for no attachment at all.
pub proof fn lemma_unknown_cgroup_not_attached(rule: Rule, cgroups: CgroupRegistry)
    requires
        rule.cgroup matches Some(c) ==> cgroups.spec_lookup(c@) is None,
    ensures
        forall|i: int|
            0 <= i < planned(rule, cgroups).len() ==> !(#[trigger] planned(rule, cgroups)[i] is Attach),
{
    let head = nice_part(rule) + io_part(rule) + sched_part(rule) + oom_part(rule);
    assert(cgroup_part(rule, cgroups).len() == 0);
    assert(planned(rule, cgroups) == head + cgroup_part(rule, cgroups));
    assert(planned(rule, cgroups) =~= head);
    assert forall|i: int| 0 <= i < head.len() implies !(#[trigger] head[i] is Attach) by {
        let a = nice_part(rule);
        let b = io_part(rule);
        let c = sched_part(rule);
        let d = oom_part(rule);
        if i < a.len() {
            assert(head[i] == a[i]);
        } else if i < a.len() + b.len() {
            assert(head[i] == b[i - a.len()]);
        } else if i < a.len() + b.len() + c.len() {
            assert(head[i] == c[i - a.len() - b.len()]);
        } else {
            assert(head[i] == d[i - a.len() - b.len() - c.len()]);
        }
    }
}

/// What one scan plans for one process: the first matching rule and its
/// directives, or nothing when no rule matches.
pub open spec fn process_plan(rules: Seq<Rule>, p: ProcessInfo, cgroups: CgroupRegistry) -> Seq<
    (i32, int, Seq<Directive>),
> {
    match first_match(rules, p) {
        Some(i) => seq![(p.pid, i, planned(rules[i], cgroups))],
        None => seq![],
    }
}

proof fn lemma_tick_plan_concat(
    front: Seq<ProcessInfo>,
    back: Seq<ProcessInfo>,
    rules: Seq<Rule>,
    cgroups: CgroupRegistry,
)
    ensures
        tick_plan(front + back, rules, cgroups) == tick_plan(front, rules, cgroups) + tick_plan(
            back,
            rules,
            cgroups,
        ),
    decreases back.len(),
{
    if back.len() == 0 {
        assert(front + back == front);
        assert(tick_plan(front, rules, cgroups) + seq![] == tick_plan(front, rules, cgroups));
    } else {
        let all = front + back;
        assert(all.drop_last() == front + back.drop_last());
        assert(all.last() == back.last());
        lemma_tick_plan_concat(front, back.drop_last(), rules, cgroups);
        let a = tick_plan(front, rules, cgroups);
        let b = tick_plan(back.drop_last(), rules, cgroups);
        match first_match(rules, back.last()) {
            Some(i) => {
                let e = (back.last().pid, i, planned(rules[i], cgroups));
                assert((a + b).push(e) == a + b.push(e));
            },
            None => {},
        }
    }
}

/// Classification is deterministic and independent of the rest of the scan:
/// whatever other processes are scanned before and after it, a process gets
/// the plan its own snapshot, the rule order and the groups decide.
pub proof fn lemma_scan_plans_each_process_alone(
    before: Seq<ProcessInfo>,
    p: ProcessInfo,
    after: Seq<ProcessInfo>,
    rules: Seq<Rule>,
    cgroups: CgroupRegistry,
)
    ensures
        tick_plan(before.push(p) + after, rules, cgroups) == tick_plan(before, rules, cgroups)
            + process_plan(rules, p, cgroups) + tick_plan(after, rules, cgroups),
{
    lemma_tick_plan_concat(before.push(p), after, rules, cgroups);
    lemma_tick_plan_concat(before, seq![p], rules, cgroups);
    assert(before + seq![p] == before.push(p));
    let single = seq![p];
    assert(single.drop_last() == Seq::<ProcessInfo>::empty());
    assert(tick_plan(Seq::<ProcessInfo>::empty(), rules, cgroups) == Seq::<(i32, int, Seq<Directive>)>::empty());
    match first_match(rules, p) {
        Some(i) => {
            assert(Seq::<(i32, int, Seq<Directive>)>::empty().push((p.pid, i, planned(rules[i], cgroups)))
                == seq![(p.pid, i, planned(rules[i], cgroups))]);
        },
        None => {},
    }
}

/// A rule with no conditions at the head of the list is chosen for every
/// process, so no later rule is ever applied.
pub proof fn lemma_catch_all_first_wins(rules: Seq<Rule>, p: ProcessInfo, cgroups: CgroupRegistry)
    requires
        rules.len() > 0,
        rules[0].name is None,
        rules[0].cmdlines is None,
    ensures
        first_match(rules, p) == Some(0int),
        process_plan(rules, p, cgroups) == seq![(p.pid, 0int, planned(rules[0], cgroups))],
{
}

/// A rule naming a process and a type that sets only niceness and OOM score,
/// resolved against that type, is chosen for the process and asks exactly for
/// that niceness and then that OOM score: no IO, scheduler or cgroup change.
pub proof fn lemma_type_defaults_applied(
    rule: Rule,
    ty: Type,
    p: ProcessInfo,
    cgroups: CgroupRegistry,
    nice: i32,
    oom: i32,
)
    requires
        rule.name matches Some(n) && n@ == p.comm@,
        rule.type_ref matches Some(t) && t@ == ty.name@,
        rule.cmdlines is None,
        rule.nice is None,
        rule.ioclass is None,
        rule.ionice is None,
        rule.sched is None,
        rule.rtprio is None,
        rule.oom_score_adj is None,
        rule.cgroup is None,
        ty.nice == Some(nice),
        ty.oom_score_adj == Some(oom),
        ty.ioclass is None,
        ty.ionice is None,
        ty.sched is None,
        ty.rtprio is None,
        ty.cgroup is None,
    ensures
        first_match(seq![resolved(rule, seq![ty])], p) == Some(0int),
        planned(resolved(rule, seq![ty]), cgroups) == seq![Directive::Nice(nice), Directive::OomScoreAdj(oom)],
{
    let types = seq![ty];
    assert(types.last() == ty);
    let r = resolved(rule, types);
    assert(r == merged(rule, ty));
    assert(seq![r][0] == r);
    assert(planned(r, cgroups) =~= seq![Directive::Nice(nice), Directive::OomScoreAdj(oom)]);
}

} // verus!
