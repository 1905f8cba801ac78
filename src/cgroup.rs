//! Control groups: the knob arithmetic for both hierarchy versions, the
//! control-file writes that set a group up or attach a process, and the
//! registry of configured groups.
use vstd::prelude::*;
use crate::text::decimal;
use crate::text::signed_decimal;
use crate::text::decimal_chars;
use crate::text::push_char;
use crate::text::push_chars;
use crate::text::push_str;
use crate::text::chars_of;
use crate::text::same_chars;
use crate::text::string_of;
use crate::text::chars_range;
use crate::text::signed_decimal_string;
use crate::text::texts;
use crate::text::text_is;
use crate::config::lines_of;
use crate::config::trimmed;
use crate::config::split_lines;
use crate::config::trim;

verus! {

/// Mount point of the cgroup filesystem.
pub const CGROUP_FS: &'static str = "/sys/fs/cgroup";

/// Scheduling period written to every group, in microseconds.
pub const PERIOD_US: u64 = 100000;

/// Largest `cpu.weight` the unified hierarchy accepts.
pub const MAX_WEIGHT: u64 = 10000;

/// Which cgroup filesystem protocol the host speaks.
#[derive(Debug, Clone, Copy, PartialEq, Eq, Structural)]
pub enum CgroupVersion {
    V1,
    V2,
}

/// One file to be written with the given contents.
pub struct FileWrite {
    pub path: String,
    pub contents: String,
}

/// Path and contents of a write, as text.
pub open spec fn write_view(w: FileWrite) -> (Seq<char>, Seq<char>) {
    (w.path@, w.contents@)
}

/// Paths and contents of a list of writes, as text.
pub open spec fn writes_view(ws: Seq<FileWrite>) -> Seq<(Seq<char>, Seq<char>)> {
    ws.map_values(|w: FileWrite| write_view(w))
}

/// `dir/leaf`.
pub open spec fn joined(dir: Seq<char>, leaf: Seq<char>) -> Seq<char> {
    dir + seq!['/'] + leaf
}

/// The quota in microseconds per period: the percentage of one CPU, summed
/// over all logical CPUs.
pub open spec fn quota_us_of(cpus: nat, quota_pct: nat) -> nat {
    (PERIOD_US as nat * cpus * quota_pct / 100) as nat
}

/// `cpu.shares` for the legacy hierarchy.
pub open spec fn shares_of(quota_pct: nat) -> nat {
    (1024 * quota_pct / 100) as nat
}

/// `cpu.weight` for the unified hierarchy: `quota_pct * 100` clamped to `[1, 10000]`.
pub open spec fn weight_of(quota_pct: nat) -> nat {
    if quota_pct * 100 < 1 {
        1
    } else if quota_pct * 100 > MAX_WEIGHT {
        MAX_WEIGHT as nat
    } else {
        quota_pct * 100
    }
}

/// Whether the quota in microseconds fits the 64-bit knob.
pub open spec fn quota_fits(cpus: nat, quota_pct: nat) -> bool {
    PERIOD_US as nat * cpus * quota_pct <= u64::MAX as nat
}

/// The first field of `cpu.max`: `max` for an unlimited group (100% or more),
/// else the quota in microseconds.
pub open spec fn cpu_max_value(quota_pct: nat, quota_us: nat) -> Seq<char> {
    if quota_pct >= 100 {
        "max"@
    } else {
        decimal(quota_us)
    }
}

/// The line written to `cpu.max`: `<value> <period>`.
pub open spec fn cpu_max_line(quota_pct: nat, quota_us: nat) -> Seq<char> {
    cpu_max_value(quota_pct, quota_us) + seq![' '] + decimal(PERIOD_US as nat)
}

/// A controller bound to one configured group.
pub struct CgroupController {
    name: String,
    path: String,
    version: CgroupVersion,
    cpu_quota: u32,
    cpus: u64,
    quota_us: u64,
    cpu_shares: u64,
    weight: u64,
}

/// Directory of the group `name` under the base directory of its hierarchy.
pub open spec fn group_dir(base: Seq<char>, name: Seq<char>) -> Seq<char> {
    joined(base, name)
}

/// The base directory a version-1 group lives under: the `cpu` controller's mount.
pub open spec fn v1_base() -> Seq<char> {
    joined(CGROUP_FS@, "cpu"@)
}

/// The writes that configure a group: period, quota and shares for the legacy
/// hierarchy; `cpu.max` and `cpu.weight` for the unified one.
pub open spec fn setup_plan(
    version: CgroupVersion,
    dir: Seq<char>,
    quota_pct: nat,
    cpus: nat,
) -> Seq<(Seq<char>, Seq<char>)> {
    let quota_us = quota_us_of(cpus, quota_pct);
    match version {
        CgroupVersion::V1 => seq![
            (joined(dir, "cpu.cfs_period_us"@), decimal(PERIOD_US as nat)),
            (joined(dir, "cpu.cfs_quota_us"@), decimal(quota_us)),
            (joined(dir, "cpu.shares"@), decimal(shares_of(quota_pct))),
        ],
        CgroupVersion::V2 => seq![
            (joined(dir, "cpu.max"@), cpu_max_line(quota_pct, quota_us)),
            (joined(dir, "cpu.weight"@), decimal(weight_of(quota_pct))),
        ],
    }
}

/// With a quota of 100% or more, the unified hierarchy's first write puts the
/// literal `max` into `cpu.max`, while the legacy hierarchy writes the plain
/// product into `cpu.cfs_quota_us`: it has no "unlimited" value.
pub proof fn lemma_unlimited_quota(dir: Seq<char>, cpus: nat, quota_pct: nat)
    requires
        quota_pct >= 100,
    ensures
        setup_plan(CgroupVersion::V2, dir, quota_pct, cpus)[0] == (
            joined(dir, "cpu.max"@),
            "max"@ + seq![' '] + decimal(PERIOD_US as nat),
        ),
        setup_plan(CgroupVersion::V1, dir, quota_pct, cpus)[1] == (
            joined(dir, "cpu.cfs_quota_us"@),
            decimal((PERIOD_US as nat * cpus * quota_pct / 100) as nat),
        ),
{
}

/// The file that takes the pids of a group's members.
pub open spec fn member_file(version: CgroupVersion, dir: Seq<char>) -> Seq<char> {
    match version {
        CgroupVersion::V1 => joined(dir, "tasks"@),
        CgroupVersion::V2 => joined(dir, "cgroup.procs"@),
    }
}

/// The hierarchy version, from whether the unified-hierarchy marker
/// `cgroup.controllers` exists at the mount root.
pub fn detect_cgroup_version(v2_marker_present: bool) -> (r: CgroupVersion)
    ensures
        r == (if v2_marker_present { CgroupVersion::V2 } else { CgroupVersion::V1 }),
{
    if v2_marker_present {
        CgroupVersion::V2
    } else {
        CgroupVersion::V1
    }
}

/// The directory version-1 groups are created in.
pub fn v1_base_dir() -> (r: String)
    ensures
        r@ == v1_base(),
{
    join_path(&string_of(&chars_of(CGROUP_FS)), "cpu")
}

/// Relies on `num_cpus::get`: the number of logical CPUs this process may use,
/// documented to be at least one.
#[verifier::external_body]
fn logical_cpu_count() -> (r: usize)
    ensures
        r >= 1,
{
    num_cpus::get()
}

fn join_path(dir: &String, leaf: &str) -> (r: String)
    ensures
        r@ == joined(dir@, leaf@),
{
    let mut s = string_of(&chars_of(dir.as_str()));
    push_char(&mut s, '/');
    push_str(&mut s, leaf);
    s
}

fn file_write(dir: &String, leaf: &str, contents: String) -> (r: FileWrite)
    ensures
        write_view(r) == (joined(dir@, leaf@), contents@),
{
    FileWrite { path: join_path(dir, leaf), contents }
}

/// Why a controller could not be built.
#[derive(Debug, Clone, Copy, PartialEq, Eq, Structural)]
pub enum CgroupError {
    /// The quota in microseconds does not fit in 64 bits.
    QuotaTooLarge,
}

impl CgroupController {
    /// The group's name.
    pub closed spec fn spec_name(&self) -> Seq<char> {
        self.name@
    }

    /// The group's directory.
    pub closed spec fn spec_path(&self) -> Seq<char> {
        self.path@
    }

    pub closed spec fn spec_version(&self) -> CgroupVersion {
        self.version
    }

    pub closed spec fn spec_cpu_quota(&self) -> u32 {
        self.cpu_quota
    }

    /// Number of logical CPUs the quota was computed for.
    pub closed spec fn spec_cpus(&self) -> nat {
        self.cpus as nat
    }

    pub closed spec fn spec_quota_us(&self) -> nat {
        self.quota_us as nat
    }

    pub closed spec fn spec_shares(&self) -> nat {
        self.cpu_shares as nat
    }

    pub closed spec fn spec_weight(&self) -> nat {
        self.weight as nat
    }

    /// The derived knobs agree with the quota and the CPU count.
    #[verifier::type_invariant]
    closed spec fn wf(&self) -> bool {
        &&& self.cpus >= 1
        &&& self.quota_us as nat == quota_us_of(self.cpus as nat, self.cpu_quota as nat)
        &&& self.cpu_shares as nat == shares_of(self.cpu_quota as nat)
        &&& self.weight as nat == weight_of(self.cpu_quota as nat)
    }

    /// Builds the controller for group `name` under `base`, for a host with
    /// `cpus` logical CPUs.
    pub fn with_cpu_count(
        name: String,
        cpu_quota: u32,
        version: CgroupVersion,
        base: &String,
        cpus: u64,
    ) -> (r: CgroupController)
        requires
            cpus >= 1,
            quota_fits(cpus as nat, cpu_quota as nat),
        ensures
            r.spec_name() == name@,
            r.spec_path() == group_dir(base@, name@),
            r.spec_version() == version,
            r.spec_cpu_quota() == cpu_quota,
            r.spec_cpus() == cpus as nat,
            r.spec_quota_us() == quota_us_of(cpus as nat, cpu_quota as nat),
            r.spec_shares() == shares_of(cpu_quota as nat),
            r.spec_weight() == weight_of(cpu_quota as nat),
    {
        let q = cpu_quota as u64;
        assert(PERIOD_US * q <= PERIOD_US * q * cpus && PERIOD_US * q * cpus == PERIOD_US * cpus * q)
            by (nonlinear_arith)
            requires
                cpus >= 1,
        ;
        let quota_us: u64 = PERIOD_US * q * cpus / 100;
        let cpu_shares: u64 = 1024 * q / 100;
        let mut weight: u64 = q * 100;
        if weight == 0 {
            weight = 1;
        }
        if weight > MAX_WEIGHT {
            weight = MAX_WEIGHT;
        }
        let path = join_path(base, name.as_str());
        CgroupController { name, path, version, cpu_quota, cpus, quota_us, cpu_shares, weight }
    }

    /// Builds the controller for group `name` under `base` for a host with
    /// `cpus` logical CPUs; fails exactly when the quota in microseconds would
    /// not fit in 64 bits.
    pub fn with_checked_cpu_count(
        name: String,
        cpu_quota: u32,
        version: CgroupVersion,
        base: &String,
        cpus: u64,
    ) -> (r: Result<CgroupController, CgroupError>)
        requires
            cpus >= 1,
        ensures
            r is Err <==> !quota_fits(cpus as nat, cpu_quota as nat),
            r matches Err(e) ==> e == CgroupError::QuotaTooLarge,
            r matches Ok(c) ==> {
                &&& c.spec_name() == name@
                &&& c.spec_path() == group_dir(base@, name@)
                &&& c.spec_version() == version
                &&& c.spec_cpu_quota() == cpu_quota
                &&& c.spec_cpus() == cpus as nat
                &&& c.spec_quota_us() == quota_us_of(cpus as nat, cpu_quota as nat)
                &&& c.spec_shares() == shares_of(cpu_quota as nat)
                &&& c.spec_weight() == weight_of(cpu_quota as nat)
            },
    {
        let q = cpu_quota as u64;
        if q != 0 {
            assert(PERIOD_US * q <= PERIOD_US * 0xffff_ffffu64) by (nonlinear_arith)
                requires
                    q <= 0xffff_ffffu64,
            ;
            let a: u64 = PERIOD_US * q;
            if cpus > u64::MAX / a {
                assert(PERIOD_US * cpus * q > u64::MAX) by (nonlinear_arith)
                    requires
                        a == PERIOD_US * q,
                        a > 0,
                        cpus > u64::MAX / a,
                ;
                return Err(CgroupError::QuotaTooLarge);
            }
            assert(PERIOD_US * cpus * q <= u64::MAX) by (nonlinear_arith)
                requires
                    a == PERIOD_US * q,
                    a > 0,
                    cpus <= u64::MAX / a,
            ;
        } else {
            assert(PERIOD_US * cpus * q == 0);
        }
        Ok(Self::with_cpu_count(name, cpu_quota, version, base, cpus))
    }

    /// Builds the controller for group `name` under `base` for the logical CPUs
    /// this process may use; fails when the quota in microseconds would not fit
    /// in 64 bits for that count, which a quota of 0 never does.
    pub fn new(name: String, cpu_quota: u32, version: CgroupVersion, base: &String) -> (r: Result<
        CgroupController,
        CgroupError,
    >)
        ensures
            match r {
                Ok(c) => {
                    &&& c.spec_name() == name@
                    &&& c.spec_path() == group_dir(base@, name@)
                    &&& c.spec_version() == version
                    &&& c.spec_cpu_quota() == cpu_quota
                    &&& c.spec_cpus() >= 1
                    &&& quota_fits(c.spec_cpus(), cpu_quota as nat)
                    &&& c.spec_quota_us() == quota_us_of(c.spec_cpus(), cpu_quota as nat)
                    &&& c.spec_shares() == shares_of(cpu_quota as nat)
                    &&& c.spec_weight() == weight_of(cpu_quota as nat)
                },
                Err(e) => e == CgroupError::QuotaTooLarge && cpu_quota > 0,
            },
    {
        Self::with_checked_cpu_count(name, cpu_quota, version, base, logical_cpu_count() as u64)
    }

    /// The configured CPU quota, in percent of one CPU.
    pub fn cpu_quota(&self) -> (r: u32)
        ensures
            r == self.spec_cpu_quota(),
    {
        self.cpu_quota
    }

    /// The group's name.
    pub fn name(&self) -> (r: &str)
        ensures
            r@ == self.spec_name(),
    {
        self.name.as_str()
    }

    /// The group's directory, which must exist before the setup writes.
    pub fn path(&self) -> (r: &str)
        ensures
            r@ == self.spec_path(),
    {
        self.path.as_str()
    }

    /// The hierarchy version the group was built for.
    pub fn version(&self) -> (r: CgroupVersion)
        ensures
            r == self.spec_version(),
    {
        self.version
    }

    /// The quota in microseconds per period.
    pub fn quota_us(&self) -> (r: u64)
        ensures
            r as nat == self.spec_quota_us(),
            r as nat == quota_us_of(self.spec_cpus(), self.spec_cpu_quota() as nat),
            self.spec_cpus() >= 1,
    {
        proof {
            use_type_invariant(self);
        }
        self.quota_us
    }

    /// `cpu.shares` of the legacy hierarchy.
    pub fn cpu_shares(&self) -> (r: u64)
        ensures
            r as nat == self.spec_shares(),
            r as nat == shares_of(self.spec_cpu_quota() as nat),
    {
        proof {
            use_type_invariant(self);
        }
        self.cpu_shares
    }

    /// `cpu.weight` of the unified hierarchy.
    pub fn weight(&self) -> (r: u64)
        ensures
            r as nat == self.spec_weight(),
            r as nat == weight_of(self.spec_cpu_quota() as nat),
    {
        proof {
            use_type_invariant(self);
        }
        self.weight
    }

    /// The text written to `cpu.max`.
    pub fn cpu_max(&self) -> (r: String)
        ensures
            r@ == cpu_max_line(self.spec_cpu_quota() as nat, self.spec_quota_us()),
    {
        let mut s = String::new();
        if self.cpu_quota >= 100 {
            push_str(&mut s, "max");
        } else {
            push_chars(&mut s, &decimal_chars(self.quota_us));
        }
        push_char(&mut s, ' ');
        push_chars(&mut s, &decimal_chars(PERIOD_US));
        assert(s@ == cpu_max_line(self.cpu_quota as nat, self.quota_us as nat));
        s
    }

    /// The control-file writes that configure the group, in order.
    pub fn setup_writes(&self) -> (r: Vec<FileWrite>)
        ensures
            writes_view(r@) == setup_plan(
                self.spec_version(),
                self.spec_path(),
                self.spec_cpu_quota() as nat,
                self.spec_cpus(),
            ),
    {
        let mut r: Vec<FileWrite> = Vec::new();
        match self.version {
            CgroupVersion::V1 => {
                r.push(file_write(&self.path, "cpu.cfs_period_us", string_of(&decimal_chars(PERIOD_US))));
                r.push(file_write(&self.path, "cpu.cfs_quota_us", string_of(&decimal_chars(self.quota_us))));
                r.push(file_write(&self.path, "cpu.shares", string_of(&decimal_chars(self.cpu_shares))));
            },
            CgroupVersion::V2 => {
                r.push(file_write(&self.path, "cpu.max", self.cpu_max()));
                r.push(file_write(&self.path, "cpu.weight", string_of(&decimal_chars(self.weight))));
            },
        }
        proof {
            use_type_invariant(self);
        }
        assert(writes_view(r@) =~= setup_plan(
            self.version,
            self.path@,
            self.cpu_quota as nat,
            self.cpus as nat,
        ));
        r
    }

    /// The write that moves process `pid` into the group.
    pub fn attach_write(&self, pid: i32) -> (r: FileWrite)
        ensures
            write_view(r) == (member_file(self.spec_version(), self.spec_path()), signed_decimal(pid as int)),
    {
        match self.version {
            CgroupVersion::V1 => file_write(&self.path, "tasks", signed_decimal_string(pid)),
            CgroupVersion::V2 => file_write(&self.path, "cgroup.procs", signed_decimal_string(pid)),
        }
    }
}

/// The controller called `name`, if any; where several carry it the last wins.
pub open spec fn controller_called(cs: Seq<CgroupController>, name: Seq<char>) -> Option<int>
    decreases cs.len(),
{
    if cs.len() == 0 {
        None
    } else if cs.last().spec_name() == name {
        Some(cs.len() - 1)
    } else {
        controller_called(cs.drop_last(), name)
    }
}

/// The configured groups by name. Names are unique: adding a group whose name
/// is taken replaces the earlier one.
pub struct CgroupRegistry {
    controllers: Vec<CgroupController>,
}

/// Position of the controller called `name` among `cs`.
fn position_of(cs: &Vec<CgroupController>, name: &Vec<char>) -> (r: Option<usize>)
    ensures
        r matches Some(i) ==> i < cs.len(),
        r == (match controller_called(cs@, name@) {
            Some(i) => Some(i as usize),
            None => None,
        }),
{
    let mut i: usize = cs.len();
    assert(cs@.subrange(0, i as int) == cs@);
    while i > 0
        invariant
            i <= cs.len(),
            controller_called(cs@.subrange(0, i as int), name@) == controller_called(cs@, name@),
        decreases i,
    {
        let ghost prefix = cs@.subrange(0, i as int);
        assert(prefix.drop_last() == cs@.subrange(0, i - 1));
        if same_chars(&chars_of(cs[i - 1].name()), name) {
            return Some(i - 1);
        }
        i = i - 1;
    }
    assert(cs@.subrange(0, 0) == Seq::<CgroupController>::empty());
    None
}

impl CgroupRegistry {
    /// The controllers, each under a name no other one carries.
    pub closed spec fn view_controllers(&self) -> Seq<CgroupController> {
        self.controllers@
    }

    /// Names are unique.
    pub closed spec fn wf(&self) -> bool {
        forall|i: int, j: int|
            0 <= i < j < self.controllers@.len() ==> #[trigger] self.controllers@[i].spec_name()
                != #[trigger] self.controllers@[j].spec_name()
    }

    /// The index of the controller called `name`.
    pub closed spec fn spec_lookup(&self, name: Seq<char>) -> Option<int> {
        controller_called(self.controllers@, name)
    }

    /// An empty registry.
    pub fn new() -> (r: CgroupRegistry)
        ensures
            r.wf(),
            r.view_controllers().len() == 0,
    {
        CgroupRegistry { controllers: Vec::new() }
    }

    /// Number of groups.
    pub fn len(&self) -> (r: usize)
        ensures
            r == self.view_controllers().len(),
    {
        self.controllers.len()
    }

    /// The controller at position `i`.
    pub fn get(&self, i: usize) -> (r: &CgroupController)
        requires
            i < self.view_controllers().len(),
        ensures
            *r == self.view_controllers()[i as int],
    {
        &self.controllers[i]
    }

    /// Position of the group called `name`, if one is loaded.
    pub fn lookup(&self, name: &str) -> (r: Option<usize>)
        ensures
            r matches Some(i) ==> i < self.view_controllers().len(),
            r == (match self.spec_lookup(name@) {
                Some(i) => Some(i as usize),
                None => None,
            }),
    {
        position_of(&self.controllers, &chars_of(name))
    }

    /// Adds a group; one with the same name is replaced in place.
    pub fn insert(&mut self, c: CgroupController)
        requires
            old(self).wf(),
        ensures
            final(self).wf(),
            final(self).spec_lookup(c.spec_name()) is Some,
            final(self).view_controllers()[final(self).spec_lookup(c.spec_name())->Some_0] == c,
            match old(self).spec_lookup(c.spec_name()) {
                Some(i) => final(self).view_controllers() == old(self).view_controllers().update(i, c),
                None => final(self).view_controllers() == old(self).view_controllers().push(c),
            },
    {
        let found = position_of(&self.controllers, &chars_of(c.name()));
        proof {
            lemma_called_names(self.controllers@, c.spec_name());
        }
        match found {
            Some(i) => {
                self.controllers.set(i, c);
                proof {
                    lemma_unique_called(self.controllers@, c.spec_name(), i as int);
                }
            },
            None => {
                self.controllers.push(c);
                proof {
                    lemma_unique_called(self.controllers@, c.spec_name(), self.controllers@.len() - 1);
                }
            },
        }
    }
}

proof fn lemma_called_names(cs: Seq<CgroupController>, name: Seq<char>)
    ensures
        match controller_called(cs, name) {
            Some(i) => 0 <= i < cs.len() && cs[i].spec_name() == name,
            None => forall|k: int| 0 <= k < cs.len() ==> #[trigger] cs[k].spec_name() != name,
        },
    decreases cs.len(),
{
    if cs.len() > 0 && cs.last().spec_name() != name {
        let rest = cs.drop_last();
        lemma_called_names(rest, name);
        match controller_called(rest, name) {
            Some(i) => {
                assert(cs[i] == rest[i]);
            },
            None => {
                assert forall|k: int| 0 <= k < cs.len() implies #[trigger] cs[k].spec_name() != name by {
                    if k < cs.len() - 1 {
                        assert(cs[k] == rest[k]);
                    }
                }
            },
        }
    }
}

proof fn lemma_unique_called(cs: Seq<CgroupController>, name: Seq<char>, i: int)
    requires
        0 <= i < cs.len(),
        cs[i].spec_name() == name,
        forall|k: int| 0 <= k < cs.len() && k != i ==> #[trigger] cs[k].spec_name() != name,
    ensures
        controller_called(cs, name) == Some(i),
    decreases cs.len(),
{
    if i != cs.len() - 1 {
        lemma_unique_called(cs.drop_last(), name, i);
    }
}

/// What `str::split_whitespace` yields for a text.
pub uninterp spec fn words_of(s: Seq<char>) -> Seq<Seq<char>>;

/// Relies on `str::split_whitespace`: the text's words, in order.
#[verifier::external_body]
fn split_words(s: &str) -> (r: Vec<String>)
    ensures
        texts(r@) == words_of(s@),
{
    s.split_whitespace().map(String::from).collect()
}

/// `w` is one of `words`.
pub open spec fn lists(words: Seq<Seq<char>>, w: Seq<char>) -> bool {
    exists|i: int| 0 <= i < words.len() && words[i] == w
}

/// The CPU controller must be switched on for the sub-tree: the base offers it
/// and its `cgroup.subtree_control` does not list it yet.
pub open spec fn cpu_switch_needed(available: Seq<Seq<char>>, enabled: Seq<Seq<char>>) -> bool {
    lists(available, "cpu"@) && !lists(enabled, "+cpu"@) && !lists(enabled, "cpu"@)
}

/// Whether `w` is one of `words`.
pub fn lists_word(words: &Vec<String>, w: &str) -> (r: bool)
    ensures
        r == lists(texts(words@), w@),
{
    let mut i: usize = 0;
    while i < words.len()
        invariant
            i <= words.len(),
            forall|j: int| 0 <= j < i ==> texts(words@)[j] != w@,
        decreases words.len() - i,
    {
        if text_is(words[i].as_str(), w) {
            assert(texts(words@)[i as int] == w@);
            return true;
        }
        i = i + 1;
    }
    false
}

/// Whether `+cpu` must be written to the base's `cgroup.subtree_control`, given
/// the words of its `cgroup.controllers` and of its `cgroup.subtree_control`.
pub fn cpu_switch_needed_for(available: &Vec<String>, enabled: &Vec<String>) -> (r: bool)
    ensures
        r == cpu_switch_needed(texts(available@), texts(enabled@)),
{
    lists_word(available, "cpu") && !lists_word(enabled, "+cpu") && !lists_word(enabled, "cpu")
}

/// Whether `+cpu` must be written to the base's `cgroup.subtree_control`, given
/// the text of its `cgroup.controllers` and of its `cgroup.subtree_control`.
pub fn cpu_switch_needed_in(controllers: &str, subtree_control: &str) -> (r: bool)
    ensures
        r == cpu_switch_needed(words_of(controllers@), words_of(subtree_control@)),
{
    cpu_switch_needed_for(&split_words(controllers), &split_words(subtree_control))
}

/// The first `::` at position `k` or later.
pub open spec fn separator_from(s: Seq<char>, k: int) -> Option<int>
    decreases s.len() - k,
{
    if k < 0 || k + 1 >= s.len() {
        None
    } else if s[k] == ':' && s[k + 1] == ':' {
        Some(k)
    } else {
        separator_from(s, k + 1)
    }
}

/// The second `::`-separated field of a line, if the line has one.
pub open spec fn second_field(s: Seq<char>) -> Option<Seq<char>> {
    match separator_from(s, 0) {
        None => None,
        Some(i) => match separator_from(s, i + 2) {
            Some(j) => Some(s.subrange(i + 2, j)),
            None => Some(s.subrange(i + 2, s.len() as int)),
        },
    }
}

/// `s` without its leading slashes.
pub open spec fn without_leading_slashes(s: Seq<char>) -> Seq<char>
    decreases s.len(),
{
    if s.len() > 0 && s[0] == '/' {
        without_leading_slashes(s.subrange(1, s.len() as int))
    } else {
        s
    }
}

/// The base directory an absolute group path `rel` stands for, if `rel` is absolute.
pub open spec fn base_for_path(rel: Seq<char>) -> Option<Seq<char>> {
    if rel.len() > 0 && rel[0] == '/' {
        Some(joined(CGROUP_FS@, without_leading_slashes(rel)))
    } else {
        None
    }
}

/// The base a line of the membership record gives, if any.
pub open spec fn base_from_line(line: Seq<char>) -> Option<Seq<char>> {
    match second_field(line) {
        Some(f) => base_for_path(trimmed(f)),
        None => None,
    }
}

/// The base the first line that names one gives; the hierarchy root when none does.
pub open spec fn base_from_lines(lines: Seq<Seq<char>>, k: int) -> Seq<char>
    decreases lines.len() - k,
{
    if k < 0 || k >= lines.len() {
        CGROUP_FS@
    } else {
        match base_from_line(lines[k]) {
            Some(b) => b,
            None => base_from_lines(lines, k + 1),
        }
    }
}

fn find_separator(s: &Vec<char>, start: usize) -> (r: Option<usize>)
    ensures
        match separator_from(s@, start as int) {
            Some(j) => start <= j && j + 1 < s.len() && r == Some(j as usize),
            None => r is None,
        },
{
    let mut k: usize = start;
    while k < s.len() && k + 1 < s.len()
        invariant
            start <= k,
            separator_from(s@, k as int) == separator_from(s@, start as int),
            forall|j: int| start <= j < k ==> #[trigger] separator_from(s@, j) == separator_from(s@, start as int),
        decreases s.len() - k,
    {
        if s[k] == ':' && s[k + 1] == ':' {
            proof {
                lemma_separator_bounds(s@, start as int);
            }
            return Some(k);
        }
        k = k + 1;
    }
    None
}

proof fn lemma_separator_bounds(s: Seq<char>, k: int)
    ensures
        separator_from(s, k) matches Some(j) ==> k <= j && j + 1 < s.len(),
    decreases s.len() - k,
{
    if !(k < 0 || k + 1 >= s.len()) && !(s[k] == ':' && s[k + 1] == ':') {
        lemma_separator_bounds(s, k + 1);
    }
}

/// The second `::`-separated field of a line of the membership record.
pub fn line_second_field(line: &str) -> (r: Option<String>)
    ensures
        match second_field(line@) {
            Some(f) => r matches Some(x) && x@ == f,
            None => r is None,
        },
{
    let s = chars_of(line);
    match find_separator(&s, 0) {
        None => None,
        Some(i) => {
            let start = i + 2;
            match find_separator(&s, start) {
                Some(j) => Some(string_of(&chars_range(&s, start, j))),
                None => Some(string_of(&chars_range(&s, start, s.len()))),
            }
        },
    }
}

proof fn lemma_strip_prefix(s: Seq<char>, k: int)
    requires
        0 <= k <= s.len(),
        forall|j: int| 0 <= j < k ==> s[j] == '/',
    ensures
        without_leading_slashes(s) == without_leading_slashes(s.subrange(k, s.len() as int)),
    decreases k,
{
    if k > 0 {
        let t = s.subrange(1, s.len() as int);
        assert forall|j: int| 0 <= j < k - 1 implies t[j] == '/' by {
            assert(t[j] == s[j + 1]);
        }
        lemma_strip_prefix(t, k - 1);
        assert(t.subrange(k - 1, t.len() as int) == s.subrange(k, s.len() as int));
    } else {
        assert(s.subrange(0, s.len() as int) == s);
    }
}

/// The base directory for an already trimmed group path: the path under the
/// hierarchy root when it is absolute, none otherwise.
pub fn base_for(rel: &str) -> (r: Option<String>)
    ensures
        match base_for_path(rel@) {
            Some(b) => r matches Some(x) && x@ == b,
            None => r is None,
        },
{
    let s = chars_of(rel);
    if s.len() == 0 || s[0] != '/' {
        return None;
    }
    let mut k: usize = 0;
    while k < s.len() && s[k] == '/'
        invariant
            k <= s.len(),
            forall|j: int| 0 <= j < k ==> s@[j] == '/',
        decreases s.len() - k,
    {
        k = k + 1;
    }
    proof {
        lemma_strip_prefix(s@, k as int);
        let t = s@.subrange(k as int, s@.len() as int);
        assert(!(t.len() > 0 && t[0] == '/')) by {
            if t.len() > 0 {
                assert(t[0] == s@[k as int]);
            }
        }
    }
    let mut out = string_of(&chars_of(CGROUP_FS));
    push_char(&mut out, '/');
    push_chars(&mut out, &chars_range(&s, k, s.len()));
    Some(out)
}

/// The base directory for new groups on the unified hierarchy, from the text of
/// this process's own membership record (`/proc/self/cgroup`): the group the
/// first `<id>::<path>` line names, under the hierarchy root. When no line
/// names one the hierarchy root itself is used, which on some container hosts
/// is not the delegated sub-tree.
pub fn v2_delegated_base(self_cgroup: &str) -> (r: String)
    ensures
        r@ == base_from_lines(lines_of(self_cgroup@), 0),
{
    let lines = split_lines(self_cgroup);
    let mut k: usize = 0;
    while k < lines.len()
        invariant
            k <= lines.len(),
            texts(lines@) == lines_of(self_cgroup@),
            base_from_lines(texts(lines@), k as int) == base_from_lines(texts(lines@), 0),
        decreases lines.len() - k,
    {
        assert(texts(lines@)[k as int] == lines@[k as int]@);
        if let Some(field) = line_second_field(lines[k].as_str()) {
            let rel = trim(field.as_str());
            if let Some(base) = base_for(rel.as_str()) {
                return base;
            }
        }
        k = k + 1;
    }
    string_of(&chars_of(CGROUP_FS))
}

} // verus!
