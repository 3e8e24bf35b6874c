//! What a budget attribute makes of its arguments: which costs it asserts,
//! and where each limit comes from when the test runs.
use vstd::prelude::*;
use crate::budget_attr::{BudgetLimit, BudgetSpec};

verus! {

/// What `serde_json` makes of `text` and `key`: `None` when `text` is not
/// valid JSON; otherwise the member `key` of the top-level object when it is
/// a non-negative integer that fits in a `u64`, and `None` inside when there
/// is no such member.
pub uninterp spec fn json_u64_member(text: Seq<char>, key: Seq<char>) -> Option<Option<u64>>;

/// Parses `text` with `serde_json::from_str` into a `serde_json::Value`, then
/// reads member `key` with `Value::get` and `Value::as_u64`. The contract
/// only names the result as a function of `text` and `key`: what JSON
/// `serde_json` accepts, and which numbers `as_u64` accepts, are left to it.
#[verifier::external_body]
fn json_u64_member_of(text: &str, key: &str) -> (r: Option<Option<u64>>)
    ensures
        r == json_u64_member(text@, key@),
{
    match serde_json::from_str::<serde_json::Value>(text) {
        Ok(v) => Some(v.get(key).and_then(serde_json::Value::as_u64)),
        Err(_) => None,
    }
}

/// The outcome of looking a key up in `budget.json` while the macro expands.
#[derive(Debug, Clone, Copy, PartialEq, Eq, Structural)]
pub enum ConfigResolution {
    /// The key holds this value.
    Value(u64),
    /// There is no `budget.json`.
    MissingFile,
    /// `budget.json` is not valid JSON.
    MalformedJson,
    /// The key is missing or does not hold a `u64`.
    KeyNotFound,
}

/// The resolution for a lookup result of `json_u64_member`.
pub open spec fn resolution_of(lookup: Option<Option<u64>>) -> ConfigResolution {
    match lookup {
        None => ConfigResolution::MalformedJson,
        Some(None) => ConfigResolution::KeyNotFound,
        Some(Some(n)) => ConfigResolution::Value(n),
    }
}

/// Classifies the result of reading a key from the parsed `budget.json`.
pub fn classify_config_lookup(lookup: Option<Option<u64>>) -> (r: ConfigResolution)
    ensures
        r == resolution_of(lookup),
{
    match lookup {
        None => ConfigResolution::MalformedJson,
        Some(None) => ConfigResolution::KeyNotFound,
        Some(Some(n)) => ConfigResolution::Value(n),
    }
}

/// Resolves `key` against the contents of `budget.json` (`None` when the
/// file does not exist).
pub fn resolve_config_value(file: Option<&str>, key: &str) -> (r: ConfigResolution)
    ensures
        file is None ==> r == ConfigResolution::MissingFile,
        file matches Some(text) ==> r == resolution_of(json_u64_member(text@, key@)),
{
    match file {
        None => ConfigResolution::MissingFile,
        Some(text) => classify_config_lookup(json_u64_member_of(text, key)),
    }
}

/// The cost a budget attribute asserts on.
#[derive(Debug, Clone, Copy, PartialEq, Eq, Structural)]
pub enum CostMetric {
    /// `cpu_instruction_cost()`, by `budget_cpu_lt` (and `cpu =` of `budget_lt`).
    Cpu,
    /// `memory_bytes_cost()`, by `budget_mem_lt` (and `mem =` of `budget_lt`).
    Mem,
    /// `memory_bytes_cost()` as a stand-in for write bytes, by `budget_write_bytes_lt`.
    WriteBytes,
}

/// How the test obtains a limit when it runs.
#[derive(Debug)]
pub enum LimitExpr {
    /// A fixed number.
    Literal(u64),
    /// The environment variable's value, as `limits::env_limit` resolves it:
    /// `u64::MAX` when it is unset, and the test panics, naming the variable
    /// and the value, when it is set but is not a `u64`.
    EnvVar(String),
    /// The key's value in `budget.json` read when the test runs, as
    /// `config_scan::config_limit` resolves it: `u64::MAX` (no limit) with a
    /// warning when the file is missing or the key has no `u64` value.
    ConfigAtRuntime(String),
}

/// One assertion that the cost `metric` is strictly below `limit`.
#[derive(Debug)]
pub struct BudgetAssertion {
    pub metric: CostMetric,
    pub limit: LimitExpr,
}

/// What an attribute injects: the assertions, checked against the test's
/// `Env` variable named `env_ident`, on every path that leaves the test.
#[derive(Debug)]
pub struct AssertionPlan {
    pub env_ident: String,
    pub checks: Vec<BudgetAssertion>,
}

/// The runtime form of a limit of `budget_cpu_lt`, `budget_mem_lt` or
/// `budget_lt`: a `config` key whose value is found while the macro expands
/// becomes that number; any other resolution defers the lookup to the test.
pub open spec fn limit_expr_of(limit: BudgetLimit, file: Option<Seq<char>>) -> LimitExpr {
    match limit {
        BudgetLimit::Int(n) => LimitExpr::Literal(n),
        BudgetLimit::EnvVar(var) => LimitExpr::EnvVar(var),
        BudgetLimit::Config(key) => {
            let resolved = match file {
                None => ConfigResolution::MissingFile,
                Some(text) => resolution_of(json_u64_member(text, key@)),
            };
            match resolved {
                ConfigResolution::Value(n) => LimitExpr::Literal(n),
                _ => LimitExpr::ConfigAtRuntime(key),
            }
        },
    }
}

/// The view of an optional file's contents.
pub open spec fn file_view(file: Option<&str>) -> Option<Seq<char>> {
    match file {
        Some(t) => Some(t@),
        None => None,
    }
}

/// The runtime form of `limit`, given the contents of `budget.json`.
pub fn limit_expr(limit: BudgetLimit, file: Option<&str>) -> (r: LimitExpr)
    ensures
        r == limit_expr_of(limit, file_view(file)),
{
    match limit {
        BudgetLimit::Int(n) => LimitExpr::Literal(n),
        BudgetLimit::EnvVar(var) => LimitExpr::EnvVar(var),
        BudgetLimit::Config(key) => {
            match resolve_config_value(file, key.as_str()) {
                ConfigResolution::Value(n) => LimitExpr::Literal(n),
                _ => LimitExpr::ConfigAtRuntime(key),
            }
        },
    }
}

/// The name of the `Env` variable the assertions read: `env` unless the
/// attribute names another.
pub open spec fn env_ident_of(env_ident: Option<String>) -> Seq<char> {
    match env_ident {
        Some(id) => id@,
        None => "env"@,
    }
}

/// The assertions of `budget_cpu_lt`, `budget_mem_lt` and `budget_lt`: the
/// CPU assertion first when `cpu` is given, then the memory assertion when
/// `mem` is given.
pub fn budget_assertion_plan(spec: BudgetSpec, file: Option<&str>) -> (r: AssertionPlan)
    ensures
        r.env_ident@ == env_ident_of(spec.env_ident),
        r.checks@.len() == (if spec.cpu is Some { 1int } else { 0int }) + (if spec.mem is Some {
            1int
        } else {
            0int
        }),
        spec.cpu matches Some(l) ==> r.checks@[0] == (BudgetAssertion {
            metric: CostMetric::Cpu,
            limit: limit_expr_of(l, file_view(file)),
        }),
        spec.mem matches Some(l) ==> r.checks@[r.checks@.len() - 1] == (BudgetAssertion {
            metric: CostMetric::Mem,
            limit: limit_expr_of(l, file_view(file)),
        }),
{
    let env_ident = match spec.env_ident {
        Some(id) => id,
        None => String::from_str("env"),
    };
    let mut checks: Vec<BudgetAssertion> = Vec::new();
    match spec.cpu {
        Some(l) => {
            checks.push(BudgetAssertion { metric: CostMetric::Cpu, limit: limit_expr(l, file) });
        },
        None => {},
    }
    match spec.mem {
        Some(l) => {
            checks.push(BudgetAssertion { metric: CostMetric::Mem, limit: limit_expr(l, file) });
        },
        None => {},
    }
    AssertionPlan { env_ident, checks }
}

/// The runtime form of a limit of `budget_write_bytes_lt`, which resolves
/// nothing while the macro expands.
pub open spec fn write_bytes_limit_of(limit: BudgetLimit) -> LimitExpr {
    match limit {
        BudgetLimit::Int(n) => LimitExpr::Literal(n),
        BudgetLimit::EnvVar(var) => LimitExpr::EnvVar(var),
        BudgetLimit::Config(key) => LimitExpr::ConfigAtRuntime(key),
    }
}

/// The assertion of `budget_write_bytes_lt`, against the variable `env`.
pub fn write_bytes_assertion_plan(limit: BudgetLimit) -> (r: AssertionPlan)
    ensures
        r.env_ident@ == "env"@,
        r.checks@ == seq![
            BudgetAssertion { metric: CostMetric::WriteBytes, limit: write_bytes_limit_of(limit) },
        ],
{
    let l = match limit {
        BudgetLimit::Int(n) => LimitExpr::Literal(n),
        BudgetLimit::EnvVar(var) => LimitExpr::EnvVar(var),
        BudgetLimit::Config(key) => LimitExpr::ConfigAtRuntime(key),
    };
    let mut checks: Vec<BudgetAssertion> = Vec::new();
    checks.push(BudgetAssertion { metric: CostMetric::WriteBytes, limit: l });
    assert(checks@ =~= seq![
        BudgetAssertion { metric: CostMetric::WriteBytes, limit: write_bytes_limit_of(limit) },
    ]);
    AssertionPlan { env_ident: String::from_str("env"), checks }
}

} // verus!
