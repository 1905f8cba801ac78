//! Per-process resource tuning by declarative rules: types merged into
//! rules, rules matched against process snapshots, the directives a matched
//! rule asks for, and cgroup controllers for both hierarchy versions.
use vstd::prelude::*;

pub mod text;
pub mod utils;
pub mod rules;
pub mod cgroup;
pub mod process;
pub mod config;

verus! {

} // verus!
