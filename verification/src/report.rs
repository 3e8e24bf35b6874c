//! The workspace report: per-function configuration, the measured metrics of
//! a simulation, and the `--check` comparison against configured limits.
use vstd::prelude::*;
use crate::format::{decimal, formatted_cost, format_with_commas_and_units, push_decimal};
use crate::text::{push_char, str_eq};

verus! {

/// The metric name of simulated CPU instructions.
pub open spec fn cpu_metric() -> Seq<char> {
    "CPU Instructions"@
}

/// The metric name of bytes read from disk-backed ledger entries.
pub open spec fn read_metric() -> Seq<char> {
    "Read Bytes"@
}

/// The metric name of bytes written to ledger entries.
pub open spec fn write_metric() -> Seq<char> {
    "Write Bytes"@
}

/// The metric name of the compiled WASM binary size.
pub open spec fn wasm_metric() -> Seq<char> {
    "WASM Bytes"@
}

/// Per-function settings from a `[functions.<name>]` table of `budget.toml`.
#[derive(Debug, Clone)]
pub struct FunctionConfig {
    /// Arguments passed to the function when it is simulated.
    pub args: Vec<String>,
    /// Inclusive upper bound on CPU instructions, if enforced.
    pub cpu_limit: Option<u64>,
    /// Inclusive upper bound on read bytes, if enforced.
    pub read_limit: Option<u64>,
    /// Inclusive upper bound on write bytes, if enforced.
    pub write_limit: Option<u64>,
}

impl Default for FunctionConfig {
    fn default() -> (r: Self)
        ensures
            r.args@.len() == 0,
            r.cpu_limit is None,
            r.read_limit is None,
            r.write_limit is None,
    {
        FunctionConfig { args: Vec::new(), cpu_limit: None, read_limit: None, write_limit: None }
    }
}

/// The contents of `budget.toml`: default network and source, and the
/// per-function tables, each name at most once.
#[derive(Debug, Clone)]
pub struct BudgetToml {
    pub network: Option<String>,
    pub source: Option<String>,
    pub functions: Vec<(String, FunctionConfig)>,
}

impl Default for BudgetToml {
    fn default() -> (r: Self)
        ensures
            r.network is None,
            r.source is None,
            r.functions@.len() == 0,
    {
        BudgetToml { network: None, source: None, functions: Vec::new() }
    }
}

impl BudgetToml {
    /// No function name appears twice.
    pub open spec fn names_unique(&self) -> bool {
        forall|i: int, j: int|
            0 <= i < j < self.functions@.len() ==> self.functions@[i].0@
                != self.functions@[j].0@
    }

    /// The configuration declared for `name`, if any.
    pub fn function_config(&self, name: &str) -> (r: Option<&FunctionConfig>)
        ensures
            r is None <==> forall|i: int|
                0 <= i < self.functions@.len() ==> self.functions@[i].0@ != name@,
            r matches Some(c) ==> exists|i: int|
                0 <= i < self.functions@.len() && self.functions@[i].0@ == name@
                    && self.functions@[i].1 == *c && forall|j: int|
                    0 <= j < i ==> self.functions@[j].0@ != name@,
            self.names_unique() ==> (r matches Some(c) ==> forall|i: int|
                0 <= i < self.functions@.len() && self.functions@[i].0@ == name@
                    ==> self.functions@[i].1 == *c),
    {
        let mut i: usize = 0;
        while i < self.functions.len()
            invariant
                i <= self.functions@.len(),
                forall|j: int| 0 <= j < i ==> self.functions@[j].0@ != name@,
            decreases self.functions@.len() - i,
        {
            if str_eq(self.functions[i].0.as_str(), name) {
                return Some(&self.functions[i].1);
            }
            i = i + 1;
        }
        None
    }
}

/// Resource amounts of a simulated transaction.
#[derive(Debug, Clone, Copy, PartialEq, Eq, Structural)]
pub struct Resources {
    pub instructions: u64,
    pub disk_read_bytes: u64,
    pub write_bytes: u64,
}

/// The part of a simulation's transaction data that the report reads.
#[derive(Debug, Clone, Copy, PartialEq, Eq, Structural)]
pub struct TransactionData {
    pub resources: Resources,
}

/// One row of the report: a metric of one function of one package, and,
/// under `--check`, its limit and verdict.
#[derive(Debug, Clone)]
pub struct CostReport {
    pub package: String,
    pub function: String,
    pub metric: &'static str,
    pub value: Option<u64>,
    pub limit: Option<u64>,
    pub pass: Option<bool>,
}

/// The configured limit for `metric`: `cpu_limit`, `read_limit` or
/// `write_limit` for the three enforceable metrics (exact, case-sensitive
/// names), none for any other name.
pub open spec fn metric_limit(config: FunctionConfig, metric: Seq<char>) -> Option<u64> {
    if metric == cpu_metric() {
        config.cpu_limit
    } else if metric == read_metric() {
        config.read_limit
    } else if metric == write_metric() {
        config.write_limit
    } else {
        None
    }
}

/// The `(limit, pass)` pair of a measured `value`: a missing limit is
/// reported but not enforced; a limit is an inclusive upper bound.
pub open spec fn check_outcome(value: u64, limit: Option<u64>) -> (Option<u64>, Option<bool>) {
    match limit {
        Some(l) => (Some(l), Some(value <= l)),
        None => (None, None),
    }
}

/// Compares `value` against an optional inclusive `limit`; returns the limit
/// and whether the value is within it, or `(None, None)` without a limit.
pub fn evaluate_check(value: u64, limit: Option<u64>) -> (r: (Option<u64>, Option<bool>))
    ensures
        r == check_outcome(value, limit),
{
    match limit {
        Some(l) => (Some(l), Some(value <= l)),
        None => (None, None),
    }
}

/// The limit that `config` sets for `metric`.
pub fn limit_for_metric(config: &FunctionConfig, metric: &str) -> (r: Option<u64>)
    ensures
        r == metric_limit(*config, metric@),
{
    if str_eq(metric, "CPU Instructions") {
        config.cpu_limit
    } else if str_eq(metric, "Read Bytes") {
        config.read_limit
    } else if str_eq(metric, "Write Bytes") {
        config.write_limit
    } else {
        None
    }
}

/// `r` is the row that stands for a failed simulation of a configured
/// function: no value, the configured limit, and a failed verdict.
pub open spec fn is_failure_entry(
    r: CostReport,
    package: Seq<char>,
    function: Seq<char>,
    metric: Seq<char>,
    config: FunctionConfig,
) -> bool {
    &&& r.package@ == package
    &&& r.function@ == function
    &&& r.metric@ == metric
    &&& r.value is None
    &&& r.limit == metric_limit(config, metric)
    &&& r.pass == Some(false)
}

fn cpu_name() -> (s: &'static str)
    ensures
        s@ == cpu_metric(),
{
    "CPU Instructions"
}

fn read_name() -> (s: &'static str)
    ensures
        s@ == read_metric(),
{
    "Read Bytes"
}

fn write_name() -> (s: &'static str)
    ensures
        s@ == write_metric(),
{
    "Write Bytes"
}

fn wasm_name() -> (s: &'static str)
    ensures
        s@ == wasm_metric(),
{
    "WASM Bytes"
}

/// Appends, for a configured function whose simulation failed, one row per
/// enforceable metric (CPU instructions, read bytes, write bytes, in that
/// order), each with no value, its configured limit, and a failed verdict,
/// so that a broken simulation cannot pass the check unnoticed.
pub fn emit_check_failure_entries(
    reports: &mut Vec<CostReport>,
    package: &str,
    function: &str,
    config: &FunctionConfig,
)
    ensures
        final(reports)@.len() == old(reports)@.len() + 3,
        final(reports)@.subrange(0, old(reports)@.len() as int) == old(reports)@,
        is_failure_entry(
            final(reports)@[old(reports)@.len() as int],
            package@,
            function@,
            cpu_metric(),
            *config,
        ),
        is_failure_entry(
            final(reports)@[old(reports)@.len() + 1int],
            package@,
            function@,
            read_metric(),
            *config,
        ),
        is_failure_entry(
            final(reports)@[old(reports)@.len() + 2int],
            package@,
            function@,
            write_metric(),
            *config,
        ),
{
    let ghost start = reports@;
    let names = [cpu_name(), read_name(), write_name()];
    let mut k: usize = 0;
    while k < 3
        invariant
            k <= 3,
            names@[0]@ == cpu_metric(),
            names@[1]@ == read_metric(),
            names@[2]@ == write_metric(),
            reports@.len() == start.len() + k,
            reports@.subrange(0, start.len() as int) == start,
            forall|m: int|
                0 <= m < k ==> is_failure_entry(
                    #[trigger] reports@[start.len() + m],
                    package@,
                    function@,
                    names@[m]@,
                    *config,
                ),
        decreases 3 - k,
    {
        let metric = names[k];
        let limit = limit_for_metric(config, metric);
        reports.push(
            CostReport {
                package: package.to_owned(),
                function: function.to_owned(),
                metric,
                value: None,
                limit,
                pass: Some(false),
            },
        );
        assert(reports@.subrange(0, start.len() as int) =~= start);
        k = k + 1;
    }
    assert(is_failure_entry(reports@[start.len() + 0int], package@, function@, names@[0]@, *config));
    assert(is_failure_entry(reports@[start.len() + 1int], package@, function@, names@[1]@, *config));
    assert(is_failure_entry(reports@[start.len() + 2int], package@, function@, names@[2]@, *config));
}

/// `r` is the row of `value` for `metric` of a simulated function; the limit
/// and verdict come from `config` when the function is checked.
pub open spec fn is_measured_entry(
    r: CostReport,
    package: Seq<char>,
    function: Seq<char>,
    metric: Seq<char>,
    value: u64,
    config: Option<FunctionConfig>,
) -> bool {
    &&& r.package@ == package
    &&& r.function@ == function
    &&& r.metric@ == metric
    &&& r.value == Some(value)
    &&& (r.limit, r.pass) == match config {
        Some(c) => check_outcome(value, metric_limit(c, metric)),
        None => (None, None),
    }
}

/// Without `--check` a row carries no limit and no verdict, so the output
/// keeps its earlier shape; `--check` adds the limit and the verdict and
/// changes nothing else of the row.
pub proof fn lemma_check_only_adds_limit_and_verdict(
    plain: CostReport,
    checked: CostReport,
    package: Seq<char>,
    function: Seq<char>,
    metric: Seq<char>,
    value: u64,
    config: FunctionConfig,
)
    requires
        is_measured_entry(plain, package, function, metric, value, None),
        is_measured_entry(checked, package, function, metric, value, Some(config)),
    ensures
        plain.limit is None && plain.pass is None,
        plain.package@ == checked.package@,
        plain.function@ == checked.function@,
        plain.metric@ == checked.metric@,
        plain.value == checked.value,
        (checked.limit, checked.pass) == check_outcome(value, metric_limit(config, metric)),
{
}

fn measured_entry(
    package: &str,
    function: &str,
    metric: &'static str,
    value: u64,
    config: Option<&FunctionConfig>,
) -> (r: CostReport)
    ensures
        is_measured_entry(
            r,
            package@,
            function@,
            metric@,
            value,
            match config {
                Some(c) => Some(*c),
                None => None,
            },
        ),
{
    let (limit, pass) = match config {
        Some(c) => evaluate_check(value, limit_for_metric(c, metric)),
        None => (None, None),
    };
    CostReport {
        package: package.to_owned(),
        function: function.to_owned(),
        metric,
        value: Some(value),
        limit,
        pass,
    }
}

/// The four rows of a successful simulation, in order: CPU instructions,
/// read bytes and write bytes from the transaction data, then the size of
/// the WASM binary. Under `--check` the caller passes the function's
/// configuration, and each row gains its limit and verdict.
pub fn simulation_reports(
    package: &str,
    function: &str,
    tx: &TransactionData,
    wasm_bytes: u64,
    config: Option<&FunctionConfig>,
) -> (r: Vec<CostReport>)
    ensures
        r@.len() == 4,
        ({
            let c = match config {
                Some(c) => Some(*c),
                None => None,
            };
            &&& is_measured_entry(
                r@[0],
                package@,
                function@,
                cpu_metric(),
                tx.resources.instructions,
                c,
            )
            &&& is_measured_entry(
                r@[1],
                package@,
                function@,
                read_metric(),
                tx.resources.disk_read_bytes,
                c,
            )
            &&& is_measured_entry(
                r@[2],
                package@,
                function@,
                write_metric(),
                tx.resources.write_bytes,
                c,
            )
            &&& is_measured_entry(r@[3], package@, function@, wasm_metric(), wasm_bytes, c)
        }),
{
    let mut rows: Vec<CostReport> = Vec::new();
    rows.push(measured_entry(package, function, cpu_name(), tx.resources.instructions, config));
    rows.push(measured_entry(package, function, read_name(), tx.resources.disk_read_bytes, config));
    rows.push(measured_entry(package, function, write_name(), tx.resources.write_bytes, config));
    rows.push(measured_entry(package, function, wasm_name(), wasm_bytes, config));
    rows
}

/// The number of rows among `rows` whose verdict is `Some(verdict)`.
pub open spec fn count_verdicts(rows: Seq<CostReport>, verdict: bool) -> nat
    decreases rows.len(),
{
    if rows.len() == 0 {
        0
    } else {
        count_verdicts(rows.drop_last(), verdict) + if rows.last().pass == Some(verdict) {
            1nat
        } else {
            0nat
        }
    }
}

proof fn lemma_count_verdicts_bound(rows: Seq<CostReport>, verdict: bool)
    ensures
        count_verdicts(rows, verdict) <= rows.len(),
        count_verdicts(rows, verdict) > 0 <==> exists|i: int|
            0 <= i < rows.len() && rows[i].pass == Some(verdict),
    decreases rows.len(),
{
    if rows.len() > 0 {
        lemma_count_verdicts_bound(rows.drop_last(), verdict);
        if count_verdicts(rows.drop_last(), verdict) > 0 {
            let i = choose|i: int|
                0 <= i < rows.drop_last().len() && rows.drop_last()[i].pass == Some(verdict);
            assert(rows[i].pass == Some(verdict));
        }
        if rows.last().pass == Some(verdict) {
            assert(rows[rows.len() - 1].pass == Some(verdict));
        }
        assert forall|i: int| 0 <= i < rows.len() && rows[i].pass == Some(verdict) implies count_verdicts(
            rows,
            verdict,
        ) > 0 by {
            if i < rows.len() - 1 {
                assert(rows.drop_last()[i].pass == Some(verdict));
            }
        }
    }
}

/// The rows whose verdict is `Some(verdict)`, in order.
pub open spec fn rows_with_verdict(rows: Seq<CostReport>, verdict: bool) -> Seq<CostReport> {
    rows.filter(|r: CostReport| r.pass == Some(verdict))
}

/// The summary counts every row with the given verdict, each once: the count
/// is the number of rows that `Seq::filter` keeps for that verdict, a row
/// alone counts one exactly when it has the verdict, and the count of two
/// lists of rows put together is the sum of their counts.
pub proof fn lemma_count_verdicts_counts_each_row(
    rows: Seq<CostReport>,
    more: Seq<CostReport>,
    r: CostReport,
    verdict: bool,
)
    ensures
        count_verdicts(rows, verdict) == rows_with_verdict(rows, verdict).len(),
        count_verdicts(seq![r], verdict) == (if r.pass == Some(verdict) { 1nat } else { 0nat }),
        count_verdicts(rows + more, verdict) == count_verdicts(rows, verdict) + count_verdicts(
            more,
            verdict,
        ),
{
    lemma_count_is_filter_len(rows, verdict);
    lemma_count_is_filter_len(more, verdict);
    lemma_count_is_filter_len(rows + more, verdict);
    let pred = |x: CostReport| x.pass == Some(verdict);
    Seq::filter_distributes_over_add(rows, more, pred);
    lemma_count_is_filter_len(seq![r], verdict);
    reveal(Seq::filter);
    assert(seq![r].drop_last() =~= Seq::<CostReport>::empty());
    assert(seq![r].drop_last().filter(pred) =~= Seq::<CostReport>::empty());
}

proof fn lemma_count_is_filter_len(rows: Seq<CostReport>, verdict: bool)
    ensures
        count_verdicts(rows, verdict) == rows_with_verdict(rows, verdict).len(),
    decreases rows.len(),
{
    reveal(Seq::filter);
    if rows.len() > 0 {
        lemma_count_is_filter_len(rows.drop_last(), verdict);
    }
}

/// `--check` fails exactly when some row failed: a breached limit, or a
/// configured function whose simulation failed; rows without a verdict never
/// fail it.
pub proof fn lemma_check_fails_iff_a_row_fails(rows: Seq<CostReport>)
    ensures
        count_verdicts(rows, false) > 0 <==> exists|i: int|
            0 <= i < rows.len() && rows[i].pass == Some(false),
        count_verdicts(rows, true) + count_verdicts(rows, false) <= rows.len(),
    decreases rows.len(),
{
    lemma_count_verdicts_bound(rows, false);
    if rows.len() > 0 {
        lemma_check_fails_iff_a_row_fails(rows.drop_last());
    }
}

/// A measured row of a checked function fails exactly when its value is
/// above the configured limit for its metric.
pub proof fn lemma_measured_row_fails_iff_over_limit(
    r: CostReport,
    package: Seq<char>,
    function: Seq<char>,
    metric: Seq<char>,
    value: u64,
    config: FunctionConfig,
)
    requires
        is_measured_entry(r, package, function, metric, value, Some(config)),
    ensures
        r.pass == Some(false) <==> (metric_limit(config, metric) matches Some(l) && value > l),
        r.pass is None <==> metric_limit(config, metric) is None,
{
}

/// The numbers of checks that passed and that failed among the rows; rows
/// without a verdict are not checks.
pub fn check_summary(reports: &Vec<CostReport>) -> (r: (usize, usize))
    ensures
        r.0 == count_verdicts(reports@, true),
        r.1 == count_verdicts(reports@, false),
        r.1 > 0 <==> exists|i: int| 0 <= i < reports@.len() && reports@[i].pass == Some(false),
{
    let mut passed: usize = 0;
    let mut failed: usize = 0;
    let mut i: usize = 0;
    while i < reports.len()
        invariant
            i <= reports@.len(),
            passed == count_verdicts(reports@.subrange(0, i as int), true),
            failed == count_verdicts(reports@.subrange(0, i as int), false),
        decreases reports@.len() - i,
    {
        proof {
            lemma_count_verdicts_bound(reports@.subrange(0, i as int), true);
            lemma_count_verdicts_bound(reports@.subrange(0, i as int), false);
            assert(reports@.subrange(0, i + 1).drop_last() =~= reports@.subrange(0, i as int));
        }
        match reports[i].pass {
            Some(true) => {
                passed = passed + 1;
            },
            Some(false) => {
                failed = failed + 1;
            },
            None => {},
        }
        i = i + 1;
    }
    proof {
        assert(reports@.subrange(0, reports@.len() as int) =~= reports@);
        lemma_count_verdicts_bound(reports@, false);
    }
    (passed, failed)
}

/// The closing line of the check section.
pub open spec fn summary_text(passed: nat, failed: nat) -> Seq<char> {
    "Summary: "@ + decimal(passed) + " check(s) passed, "@ + decimal(failed) + " failed"@
}

/// `Summary: <passed> check(s) passed, <failed> failed`.
pub fn check_summary_line(passed: usize, failed: usize) -> (r: String)
    ensures
        r@ == summary_text(passed as nat, failed as nat),
{
    let mut s = String::from_str("Summary: ");
    push_decimal(&mut s, passed as u64);
    s.append(" check(s) passed, ");
    push_decimal(&mut s, failed as u64);
    s.append(" failed");
    s
}

/// The check line of a row: `package::function [metric]`, then the value
/// and the limit when present (each rendered as by
/// `format_with_commas_and_units`), then `PASS` or `FAIL`.
pub open spec fn check_line_text(r: CostReport, verdict: bool) -> Seq<char> {
    r.package@ + "::"@ + r.function@ + " ["@ + r.metric@ + "]"@ + match r.value {
        Some(v) => " value="@ + formatted_cost(v as nat, r.metric@),
        None => Seq::empty(),
    } + match r.limit {
        Some(l) => " limit="@ + formatted_cost(l as nat, r.metric@),
        None => Seq::empty(),
    } + if verdict {
        " PASS"@
    } else {
        " FAIL"@
    }
}

/// The pass/fail line of a checked row; `None` for a row without a verdict.
pub fn check_line(r: &CostReport) -> (line: Option<String>)
    ensures
        r.pass is None ==> line is None,
        r.pass matches Some(v) ==> line matches Some(s) && s@ == check_line_text(*r, v),
{
    let verdict = match r.pass {
        None => return None,
        Some(v) => v,
    };
    let mut s = r.package.clone();
    s.append("::");
    s.append(r.function.as_str());
    s.append(" [");
    s.append(r.metric);
    s.append("]");
    let ghost head = s@;
    if let Some(v) = r.value {
        s.append(" value=");
        let f = format_with_commas_and_units(v, r.metric);
        s.append(f.as_str());
    }
    let ghost mid = s@;
    if let Some(l) = r.limit {
        s.append(" limit=");
        let f = format_with_commas_and_units(l, r.metric);
        s.append(f.as_str());
    }
    if verdict {
        s.append(" PASS");
    } else {
        s.append(" FAIL");
    }
    proof {
        let vpart = match r.value {
            Some(v) => " value="@ + formatted_cost(v as nat, r.metric@),
            None => Seq::<char>::empty(),
        };
        let lpart = match r.limit {
            Some(l) => " limit="@ + formatted_cost(l as nat, r.metric@),
            None => Seq::<char>::empty(),
        };
        assert(mid =~= head + vpart);
        assert(s@ =~= head + vpart + lpart + if verdict {
            " PASS"@
        } else {
            " FAIL"@
        });
    }
    Some(s)
}

/// The arguments of `stellar` that build, without sending, the invocation of
/// `function` on `contract_id`: the eleven fixed arguments, then `args`.
pub open spec fn invoke_args(
    contract_id: Seq<char>,
    source: Seq<char>,
    network: Seq<char>,
    function: Seq<char>,
    args: Seq<Seq<char>>,
) -> Seq<Seq<char>> {
    seq![
        "contract"@,
        "invoke"@,
        "--id"@,
        contract_id,
        "--source"@,
        source,
        "--network"@,
        network,
        "--build-only"@,
        "--"@,
        function,
    ] + args
}

/// The command line (after `stellar`) that builds the transaction invoking
/// `function` on `contract_id` with `args`.
pub fn build_invoke_args(
    contract_id: &str,
    source: &str,
    network: &str,
    function: &str,
    args: &[String],
) -> (r: Vec<String>)
    ensures
        r@.map_values(|s: String| s@) == invoke_args(
            contract_id@,
            source@,
            network@,
            function@,
            args@.map_values(|s: String| s@),
        ),
{
    let mut out: Vec<String> = Vec::new();
    out.push(String::from_str("contract"));
    out.push(String::from_str("invoke"));
    out.push(String::from_str("--id"));
    out.push(contract_id.to_owned());
    out.push(String::from_str("--source"));
    out.push(source.to_owned());
    out.push(String::from_str("--network"));
    out.push(network.to_owned());
    out.push(String::from_str("--build-only"));
    out.push(String::from_str("--"));
    out.push(function.to_owned());
    let ghost fixed = out@.map_values(|s: String| s@);
    assert(fixed =~= invoke_args(contract_id@, source@, network@, function@, Seq::empty()));
    let mut i: usize = 0;
    while i < args.len()
        invariant
            i <= args@.len(),
            out@.len() == 11 + i,
            out@.map_values(|s: String| s@) =~= fixed + args@.map_values(|s: String| s@).subrange(
                0,
                i as int,
            ),
        decreases args@.len() - i,
    {
        let ghost before = out@;
        let a = args[i].clone();
        out.push(a);
        assert(out@ =~= before.push(a));
        assert(out@.map_values(|s: String| s@) =~= before.map_values(|s: String| s@).push(
            args@[i as int]@,
        ));
        assert(args@.map_values(|s: String| s@).subrange(0, i + 1) =~= args@.map_values(
            |s: String| s@,
        ).subrange(0, i as int).push(args@[i as int]@));
        i = i + 1;
    }
    assert(args@.map_values(|s: String| s@).subrange(0, args@.len() as int) =~= args@.map_values(
        |s: String| s@,
    ));
    out
}

} // verus!
