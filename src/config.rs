//! Configuration text: the daemon's own `key = value` settings file, and the
//! record lines of the rule, type and cgroup files.
use vstd::prelude::*;
use crate::text::texts;
use crate::text::chars_of;
use crate::text::string_of;
use crate::text::chars_range;
use crate::text::text_is;

verus! {

/// What `str::lines` yields for a text.
pub uninterp spec fn lines_of(s: Seq<char>) -> Seq<Seq<char>>;

/// What `str::trim` leaves of a text.
pub uninterp spec fn trimmed(s: Seq<char>) -> Seq<char>;

/// What `str::to_lowercase` makes of a text.
pub uninterp spec fn lowercase_of(s: Seq<char>) -> Seq<char>;

/// Relies on `str::lines`: the text split at line endings, without them.
#[verifier::external_body]
pub(crate) fn split_lines(s: &str) -> (r: Vec<String>)
    ensures
        texts(r@) == lines_of(s@),
{
    s.lines().map(String::from).collect()
}

/// Relies on `str::trim`: the text without leading and trailing whitespace.
#[verifier::external_body]
pub(crate) fn trim(s: &str) -> (r: String)
    ensures
        r@ == trimmed(s@),
{
    s.trim().to_string()
}

/// Relies on `str::to_lowercase`: the lowercase form of the text.
#[verifier::external_body]
fn lowercase(s: &str) -> (r: String)
    ensures
        r@ == lowercase_of(s@),
{
    s.to_lowercase()
}

/// Which loading and applying steps the daemon reports on.
#[derive(Debug, Clone, Copy, PartialEq, Eq, Structural)]
pub struct VerboseOpts {
    pub cgroup_load: bool,
    pub type_load: bool,
    pub rule_load: bool,
    pub apply_nice: bool,
    pub apply_ioclass: bool,
    pub apply_ionice: bool,
    pub apply_sched: bool,
    pub apply_oom_score_adj: bool,
    pub apply_cgroup: bool,
}

/// Every option off.
pub open spec fn quiet_opts() -> VerboseOpts {
    VerboseOpts {
        cgroup_load: false,
        type_load: false,
        rule_load: false,
        apply_nice: false,
        apply_ioclass: false,
        apply_ionice: false,
        apply_sched: false,
        apply_oom_score_adj: false,
        apply_cgroup: false,
    }
}

impl Default for VerboseOpts {
    fn default() -> (r: VerboseOpts)
        ensures
            r == quiet_opts(),
    {
        VerboseOpts {
            cgroup_load: false,
            type_load: false,
            rule_load: false,
            apply_nice: false,
            apply_ioclass: false,
            apply_ionice: false,
            apply_sched: false,
            apply_oom_score_adj: false,
            apply_cgroup: false,
        }
    }
}

/// The default of an on/off setting.
pub fn default_true() -> (r: bool)
    ensures
        r,
{
    true
}

/// The directory the rule, type and cgroup files are read from.
pub fn default_config_dir() -> (r: String)
    ensures
        r@ == "/etc/ananicy.d/"@,
{
    string_of(&chars_of("/etc/ananicy.d/"))
}

/// A lowercase value that means "on".
pub open spec fn truthy(lowered: Seq<char>) -> bool {
    lowered == "true"@ || lowered == "yes"@ || lowered == "1"@
}

/// Whether an already lowercased value means "on".
pub fn is_truthy(lowered: &str) -> (r: bool)
    ensures
        r == truthy(lowered@),
{
    text_is(lowered, "true") || text_is(lowered, "yes") || text_is(lowered, "1")
}

/// Whether a value means "on": `true`, `yes` or `1`, in any case.
pub fn parse_bool(value: &str) -> (r: bool)
    ensures
        r == truthy(lowercase_of(value@)),
{
    let lowered = lowercase(value);
    is_truthy(lowered.as_str())
}

/// The settings a file gives: the check interval's text, if set (its number is
/// read by the caller), the verbose switch, and the per-step options.
pub struct ConfigSettings {
    pub check_freq: Option<String>,
    pub verbose: bool,
    pub verbose_opts: VerboseOpts,
}

/// Settings as text and flags.
pub type SettingsView = (Option<Seq<char>>, bool, VerboseOpts);

pub open spec fn settings_view(c: ConfigSettings) -> SettingsView {
    (
        match c.check_freq {
            Some(s) => Some(s@),
            None => None,
        },
        c.verbose,
        c.verbose_opts,
    )
}

/// Settings before any line is read: no interval, verbose on, options off.
pub open spec fn initial_settings() -> SettingsView {
    (None, true, quiet_opts())
}

/// Position of the per-step option called `key`, or -1 for an unknown key.
pub open spec fn option_slot(key: Seq<char>) -> int {
    if key == "cgroup_load"@ {
        0
    } else if key == "type_load"@ {
        1
    } else if key == "rule_load"@ {
        2
    } else if key == "apply_nice"@ {
        3
    } else if key == "apply_ioclass"@ {
        4
    } else if key == "apply_ionice"@ {
        5
    } else if key == "apply_sched"@ {
        6
    } else if key == "apply_oom_score_adj"@ {
        7
    } else if key == "apply_cgroup"@ {
        8
    } else {
        -1
    }
}

/// `opts` with the option at `slot` set to `on`; any other slot changes nothing.
pub open spec fn with_slot(opts: VerboseOpts, slot: int, on: bool) -> VerboseOpts {
    if slot == 0 {
        VerboseOpts { cgroup_load: on, ..opts }
    } else if slot == 1 {
        VerboseOpts { type_load: on, ..opts }
    } else if slot == 2 {
        VerboseOpts { rule_load: on, ..opts }
    } else if slot == 3 {
        VerboseOpts { apply_nice: on, ..opts }
    } else if slot == 4 {
        VerboseOpts { apply_ioclass: on, ..opts }
    } else if slot == 5 {
        VerboseOpts { apply_ionice: on, ..opts }
    } else if slot == 6 {
        VerboseOpts { apply_sched: on, ..opts }
    } else if slot == 7 {
        VerboseOpts { apply_oom_score_adj: on, ..opts }
    } else if slot == 8 {
        VerboseOpts { apply_cgroup: on, ..opts }
    } else {
        opts
    }
}

/// `opts` with the option called `key` set to `on`; an unknown key changes nothing.
pub open spec fn with_option(opts: VerboseOpts, key: Seq<char>, on: bool) -> VerboseOpts {
    with_slot(opts, option_slot(key), on)
}

/// The settings after one `key = value` pair (both already trimmed).
pub open spec fn with_setting(st: SettingsView, key: Seq<char>, value: Seq<char>) -> SettingsView {
    if key == "check_freq"@ {
        (Some(value), st.1, st.2)
    } else if key == "verbose"@ {
        (st.0, truthy(lowercase_of(value)), st.2)
    } else {
        (st.0, st.1, with_option(st.2, key, truthy(lowercase_of(value))))
    }
}

/// Position of the first `=` in `s`.
pub open spec fn first_eq(s: Seq<char>) -> Option<int> {
    if exists|i: int| 0 <= i < s.len() && s[i] == '=' {
        Some(choose|i: int| 0 <= i < s.len() && s[i] == '=' && forall|j: int| 0 <= j < i ==> s[j] != '=')
    } else {
        None
    }
}

/// The settings after one line: blank lines, `#` comments and lines without `=`
/// change nothing; otherwise the text before the first `=` is the key and the
/// rest the value, both trimmed.
pub open spec fn with_line(st: SettingsView, line: Seq<char>) -> SettingsView {
    let t = trimmed(line);
    if t.len() == 0 || t[0] == '#' {
        st
    } else {
        match first_eq(t) {
            Some(i) => with_setting(st, trimmed(t.subrange(0, i)), trimmed(t.subrange(i + 1, t.len() as int))),
            None => st,
        }
    }
}

/// The settings after the given lines, in order.
pub open spec fn with_lines(st: SettingsView, lines: Seq<Seq<char>>) -> SettingsView
    decreases lines.len(),
{
    if lines.len() == 0 {
        st
    } else {
        with_line(with_lines(st, lines.drop_last()), lines.last())
    }
}

fn find_eq(s: &Vec<char>) -> (r: Option<usize>)
    ensures
        match first_eq(s@) {
            Some(j) => 0 <= j < s.len() && r == Some(j as usize),
            None => r is None,
        },
{
    let mut i: usize = 0;
    while i < s.len()
        invariant
            i <= s.len(),
            forall|j: int| 0 <= j < i ==> s@[j] != '=',
        decreases s.len() - i,
    {
        if s[i] == '=' {
            let ghost c = choose|k: int| 0 <= k < s@.len() && s@[k] == '=' && forall|j: int| 0 <= j < k ==> s@[j] != '=';
            assert(0 <= i < s@.len() && s@[i as int] == '=' && forall|j: int| 0 <= j < i ==> s@[j] != '=');
            assert(c == i) by {
                if c < i {
                    assert(s@[c] != '=');
                }
                if c > i {
                    assert(s@[i as int] != '=');
                }
            }
            return Some(i);
        }
        i = i + 1;
    }
    None
}

fn option_slot_of(key: &str) -> (r: i32)
    ensures
        r as int == option_slot(key@),
{
    if text_is(key, "cgroup_load") {
        0
    } else if text_is(key, "type_load") {
        1
    } else if text_is(key, "rule_load") {
        2
    } else if text_is(key, "apply_nice") {
        3
    } else if text_is(key, "apply_ioclass") {
        4
    } else if text_is(key, "apply_ionice") {
        5
    } else if text_is(key, "apply_sched") {
        6
    } else if text_is(key, "apply_oom_score_adj") {
        7
    } else if text_is(key, "apply_cgroup") {
        8
    } else {
        -1
    }
}

fn slot_set(opts: VerboseOpts, slot: i32, on: bool) -> (r: VerboseOpts)
    ensures
        r == with_slot(opts, slot as int, on),
{
    if slot == 0 {
        VerboseOpts { cgroup_load: on, ..opts }
    } else if slot == 1 {
        VerboseOpts { type_load: on, ..opts }
    } else if slot == 2 {
        VerboseOpts { rule_load: on, ..opts }
    } else if slot == 3 {
        VerboseOpts { apply_nice: on, ..opts }
    } else if slot == 4 {
        VerboseOpts { apply_ioclass: on, ..opts }
    } else if slot == 5 {
        VerboseOpts { apply_ionice: on, ..opts }
    } else if slot == 6 {
        VerboseOpts { apply_sched: on, ..opts }
    } else if slot == 7 {
        VerboseOpts { apply_oom_score_adj: on, ..opts }
    } else if slot == 8 {
        VerboseOpts { apply_cgroup: on, ..opts }
    } else {
        opts
    }
}

/// Applies one already trimmed `key = value` pair to the settings.
pub fn apply_setting(st: &mut ConfigSettings, key: &str, value: String)
    ensures
        settings_view(*final(st)) == with_setting(settings_view(*old(st)), key@, value@),
{
    if text_is(key, "check_freq") {
        st.check_freq = Some(value);
    } else if text_is(key, "verbose") {
        st.verbose = parse_bool(value.as_str());
    } else {
        let on = parse_bool(value.as_str());
        st.verbose_opts = slot_set(st.verbose_opts, option_slot_of(key), on);
    }
}

fn apply_line(st: &mut ConfigSettings, line: &str)
    ensures
        settings_view(*final(st)) == with_line(settings_view(*old(st)), line@),
{
    let t = trim(line);
    if !holds_record(t.as_str()) {
        return;
    }
    let tc = chars_of(t.as_str());
    if let Some(i) = find_eq(&tc) {
        let key = trim(string_of(&chars_range(&tc, 0, i)).as_str());
        let value = trim(string_of(&chars_range(&tc, i + 1, tc.len())).as_str());
        apply_setting(st, key.as_str(), value);
    }
}

/// Reads the settings from the text of a settings file.
pub fn parse_config(content: &str) -> (r: ConfigSettings)
    ensures
        settings_view(r) == with_lines(initial_settings(), lines_of(content@)),
{
    let lines = split_lines(content);
    let mut st = ConfigSettings { check_freq: None, verbose: true, verbose_opts: VerboseOpts::default() };
    let mut k: usize = 0;
    while k < lines.len()
        invariant
            k <= lines.len(),
            texts(lines@) == lines_of(content@),
            settings_view(st) == with_lines(initial_settings(), texts(lines@).subrange(0, k as int)),
        decreases lines.len() - k,
    {
        apply_line(&mut st, lines[k].as_str());
        assert(texts(lines@).subrange(0, k + 1).drop_last() == texts(lines@).subrange(0, k as int));
        k = k + 1;
    }
    assert(texts(lines@).subrange(0, lines.len() as int) == texts(lines@));
    st
}

/// Whether an already trimmed line holds something: it is neither blank nor a
/// `#` comment.
pub fn holds_record(t: &str) -> (r: bool)
    ensures
        r == (t@.len() > 0 && t@[0] != '#'),
{
    let tc = chars_of(t);
    tc.len() != 0 && tc[0] != '#'
}

/// A record line of a rule, type or cgroup file, trimmed; blank lines and `#`
/// comments hold no record.
pub open spec fn record_of(line: Seq<char>) -> Option<Seq<char>> {
    let t = trimmed(line);
    if t.len() == 0 || t[0] == '#' {
        None
    } else {
        Some(t)
    }
}

/// The records of a file, in order.
pub open spec fn records_of(lines: Seq<Seq<char>>) -> Seq<Seq<char>>
    decreases lines.len(),
{
    if lines.len() == 0 {
        seq![]
    } else {
        let rest = records_of(lines.drop_last());
        match record_of(lines.last()) {
            Some(r) => rest.push(r),
            None => rest,
        }
    }
}

/// The record text of the lines of a rule, type or cgroup file.
pub fn record_lines(content: &str) -> (r: Vec<String>)
    ensures
        texts(r@) == records_of(lines_of(content@)),
{
    let lines = split_lines(content);
    let mut out: Vec<String> = Vec::new();
    let mut k: usize = 0;
    while k < lines.len()
        invariant
            k <= lines.len(),
            texts(lines@) == lines_of(content@),
            texts(out@) == records_of(texts(lines@).subrange(0, k as int)),
        decreases lines.len() - k,
    {
        assert(texts(lines@).subrange(0, k + 1).drop_last() == texts(lines@).subrange(0, k as int));
        assert(texts(lines@).subrange(0, k + 1).last() == lines@[k as int]@);
        let t = trim(lines[k].as_str());
        if holds_record(t.as_str()) {
            let ghost before = out@;
            let ghost tv = t@;
            out.push(t);
            assert(texts(out@) =~= texts(before).push(tv));
        }
        k = k + 1;
    }
    assert(texts(lines@).subrange(0, lines.len() as int) == texts(lines@));
    out
}

} // verus!
