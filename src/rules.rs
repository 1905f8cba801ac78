//! Rules, named types, and the merge that resolves a rule against the types.
use vstd::prelude::*;
use crate::text::same_chars;
use crate::text::chars_of;

verus! {

/// A process-matching predicate with optional resource directives and an
/// optional reference to a named [`Type`].
///
/// Once resolved against the loaded types the same record serves as the
/// resolved rule: every directive the type supplied has been copied in.
pub struct Rule {
    pub name: Option<String>,
    pub type_ref: Option<String>,
    pub nice: Option<i32>,
    pub ioclass: Option<String>,
    pub ionice: Option<i32>,
    pub sched: Option<String>,
    pub rtprio: Option<i32>,
    pub oom_score_adj: Option<i32>,
    pub cgroup: Option<String>,
    pub cmdlines: Option<Vec<String>>,
}

/// A named bundle of default directives.
pub struct Type {
    pub name: String,
    pub nice: Option<i32>,
    pub ioclass: Option<String>,
    pub ionice: Option<i32>,
    pub sched: Option<String>,
    pub rtprio: Option<i32>,
    pub oom_score_adj: Option<i32>,
    pub cgroup: Option<String>,
}

/// The rule's own value when present, otherwise the fallback.
pub open spec fn own_or<T>(own: Option<T>, fallback: Option<T>) -> Option<T> {
    if own is Some {
        own
    } else {
        fallback
    }
}

/// `rule` with each absent directive taken from `ty`.
pub open spec fn merged(rule: Rule, ty: Type) -> Rule {
    Rule {
        name: rule.name,
        type_ref: rule.type_ref,
        nice: own_or(rule.nice, ty.nice),
        ioclass: own_or(rule.ioclass, ty.ioclass),
        ionice: own_or(rule.ionice, ty.ionice),
        sched: own_or(rule.sched, ty.sched),
        rtprio: own_or(rule.rtprio, ty.rtprio),
        oom_score_adj: own_or(rule.oom_score_adj, ty.oom_score_adj),
        cgroup: own_or(rule.cgroup, ty.cgroup),
        cmdlines: rule.cmdlines,
    }
}

/// The type called `name`; where several carry that name the last one loaded wins.
pub open spec fn type_called(types: Seq<Type>, name: Seq<char>) -> Option<Type>
    decreases types.len(),
{
    if types.len() == 0 {
        None
    } else if types.last().name@ == name {
        Some(types.last())
    } else {
        type_called(types.drop_last(), name)
    }
}

/// The resolved form of `rule`: merged with its type when the type is loaded,
/// left as it is when it names no type or a type that is not loaded.
pub open spec fn resolved(rule: Rule, types: Seq<Type>) -> Rule {
    match rule.type_ref {
        Some(n) => match type_called(types, n@) {
            Some(t) => merged(rule, t),
            None => rule,
        },
        None => rule,
    }
}

fn copy_text(s: &Option<String>) -> (r: Option<String>)
    ensures
        r == *s,
{
    match s {
        Some(t) => Some(t.clone()),
        None => None,
    }
}

/// Index of the type that `name` resolves to, if any.
pub fn find_type(types: &Vec<Type>, name: &String) -> (r: Option<usize>)
    ensures
        match r {
            Some(i) => i < types.len() && type_called(types@, name@) == Some(types@[i as int]),
            None => type_called(types@, name@) is None,
        },
{
    let wanted = chars_of(name.as_str());
    let mut i: usize = types.len();
    assert(types@.subrange(0, i as int) == types@);
    while i > 0
        invariant
            i <= types.len(),
            wanted@ == name@,
            type_called(types@.subrange(0, i as int), name@) == type_called(types@, name@),
        decreases i,
    {
        let ghost prefix = types@.subrange(0, i as int);
        assert(prefix.drop_last() == types@.subrange(0, i - 1));
        if same_chars(&chars_of(types[i - 1].name.as_str()), &wanted) {
            return Some(i - 1);
        }
        i = i - 1;
    }
    assert(types@.subrange(0, 0) == Seq::<Type>::empty());
    None
}

fn merge_type(rule: &mut Rule, ty: &Type)
    ensures
        *final(rule) == merged(*old(rule), *ty),
{
    if rule.nice.is_none() {
        rule.nice = ty.nice;
    }
    if rule.ioclass.is_none() {
        rule.ioclass = copy_text(&ty.ioclass);
    }
    if rule.ionice.is_none() {
        rule.ionice = ty.ionice;
    }
    if rule.sched.is_none() {
        rule.sched = copy_text(&ty.sched);
    }
    if rule.rtprio.is_none() {
        rule.rtprio = ty.rtprio;
    }
    if rule.oom_score_adj.is_none() {
        rule.oom_score_adj = ty.oom_score_adj;
    }
    if rule.cgroup.is_none() {
        rule.cgroup = copy_text(&ty.cgroup);
    }
}

/// Resolves one rule against the loaded types, in place.
pub fn resolve_rule(rule: &mut Rule, types: &Vec<Type>)
    ensures
        *final(rule) == resolved(*old(rule), types@),
{
    let found = match &rule.type_ref {
        Some(n) => find_type(types, n),
        None => None,
    };
    if let Some(i) = found {
        merge_type(rule, &types[i]);
    }
}

/// Resolves every rule against the types, keeping the rules' count and order.
pub fn load_all_rules(types: &Vec<Type>, rules: Vec<Rule>) -> (r: Vec<Rule>)
    ensures
        r.len() == rules.len(),
        forall|i: int| 0 <= i < rules.len() ==> #[trigger] r@[i] == resolved(rules@[i], types@),
{
    let mut rules = rules;
    let ghost original = rules@;
    let mut i: usize = 0;
    while i < rules.len()
        invariant
            rules.len() == original.len(),
            i <= rules.len(),
            forall|k: int| 0 <= k < i ==> #[trigger] rules@[k] == resolved(original[k], types@),
            forall|k: int| i <= k < rules.len() ==> #[trigger] rules@[k] == original[k],
        decreases rules.len() - i,
    {
        let mut rule = rules.remove(i);
        resolve_rule(&mut rule, types);
        rules.insert(i, rule);
        i = i + 1;
    }
    rules
}

/// A directive the rule carries is kept by resolution, whatever the type says.
pub proof fn lemma_rule_value_wins(rule: Rule, types: Seq<Type>)
    ensures
        rule.nice is Some ==> resolved(rule, types).nice == rule.nice,
        rule.ioclass is Some ==> resolved(rule, types).ioclass == rule.ioclass,
        rule.ionice is Some ==> resolved(rule, types).ionice == rule.ionice,
        rule.sched is Some ==> resolved(rule, types).sched == rule.sched,
        rule.rtprio is Some ==> resolved(rule, types).rtprio == rule.rtprio,
        rule.oom_score_adj is Some ==> resolved(rule, types).oom_score_adj == rule.oom_score_adj,
        rule.cgroup is Some ==> resolved(rule, types).cgroup == rule.cgroup,
        resolved(rule, types).name == rule.name,
        resolved(rule, types).cmdlines == rule.cmdlines,
        resolved(rule, types).type_ref == rule.type_ref,
{
}

/// Resolving an already resolved rule changes nothing.
pub proof fn lemma_resolve_idempotent(rule: Rule, types: Seq<Type>)
    ensures
        resolved(resolved(rule, types), types) == resolved(rule, types),
{
}

} // verus!
