//! The report as CSV (`--csv`), and how a run ends.
//!
//! Which rows and fields the CSV holds is decided here; the `csv` crate
//! writes each record, quoting fields where CSV needs it.
use vstd::prelude::*;
use crate::format::{decimal, push_decimal};
use crate::report::CostReport;

verus! {

/// What a fresh `csv::Writer` over a `Vec<u8>` holds, read back as UTF-8,
/// after writing the one record `fields`.
pub uninterp spec fn csv_record_text(fields: Seq<Seq<char>>) -> Seq<char>;

/// The characters of each field.
pub open spec fn fields_view(fields: Seq<String>) -> Seq<Seq<char>> {
    fields.map_values(|f: String| f@)
}

/// Writes `fields` as one record with `csv::Writer::from_writer` over a
/// `Vec<u8>`, `Writer::write_record` and `Writer::into_inner`, then reads the
/// bytes with `String::from_utf8`. This cannot fail, so the contract promises
/// `Some`: writes into a `Vec<u8>` never err, a fresh writer's first record
/// sets the field count it is checked against, and the writer adds only
/// ASCII quotes, delimiters and the terminator to the fields' UTF-8 bytes.
/// The text is only named, as a function of the fields: quoting, escaping
/// and the record terminator are `csv`'s.
#[verifier::external_body]
fn csv_record_of(fields: &Vec<String>) -> (r: Option<String>)
    ensures
        r is Some,
        r matches Some(t) ==> t@ == csv_record_text(fields_view(fields@)),
{
    let mut writer = csv::Writer::from_writer(Vec::new());
    if writer.write_record(fields).is_err() {
        return None;
    }
    match writer.into_inner() {
        Ok(bytes) => String::from_utf8(bytes).ok(),
        Err(_) => None,
    }
}

/// The CSV header: four columns, or six under `--check`.
pub open spec fn csv_header(check: bool) -> Seq<Seq<char>> {
    if check {
        seq!["package"@, "function"@, "metric"@, "value"@, "limit"@, "pass"@]
    } else {
        seq!["package"@, "function"@, "metric"@, "value"@]
    }
}

/// A number in decimal, or an empty field when it is absent.
pub open spec fn optional_number(v: Option<u64>) -> Seq<char> {
    match v {
        Some(n) => decimal(n as nat),
        None => Seq::empty(),
    }
}

/// A verdict as `true` or `false`, or an empty field when it is absent.
pub open spec fn optional_verdict(v: Option<bool>) -> Seq<char> {
    match v {
        Some(true) => "true"@,
        Some(false) => "false"@,
        None => Seq::empty(),
    }
}

/// The fields of one row.
pub open spec fn csv_row(r: CostReport, check: bool) -> Seq<Seq<char>> {
    let base = seq![r.package@, r.function@, r.metric@, optional_number(r.value)];
    if check {
        base + seq![optional_number(r.limit), optional_verdict(r.pass)]
    } else {
        base
    }
}

/// The data records: every row under `--check`; otherwise only the rows
/// that carry a value (a failed simulation's rows are left out).
pub open spec fn csv_data(reports: Seq<CostReport>, check: bool) -> Seq<Seq<Seq<char>>>
    decreases reports.len(),
{
    if reports.len() == 0 {
        Seq::empty()
    } else {
        let before = csv_data(reports.drop_last(), check);
        let r = reports.last();
        if check || r.value is Some {
            before.push(csv_row(r, check))
        } else {
            before
        }
    }
}

/// The records of the CSV: the header, then the data records.
pub open spec fn csv_records(reports: Seq<CostReport>, check: bool) -> Seq<Seq<Seq<char>>> {
    seq![csv_header(check)] + csv_data(reports, check)
}

/// The text of `records` written one after another.
pub open spec fn csv_document(records: Seq<Seq<Seq<char>>>) -> Seq<char>
    decreases records.len(),
{
    if records.len() == 0 {
        Seq::empty()
    } else {
        csv_record_text(records[0]) + csv_document(records.drop_first())
    }
}

/// The characters of each field of each record.
pub open spec fn records_view(records: Seq<Vec<String>>) -> Seq<Seq<Seq<char>>> {
    records.map_values(|f: Vec<String>| fields_view(f@))
}

fn text(s: &str) -> (r: String)
    ensures
        r@ == s@,
{
    String::from_str(s)
}

fn number_field(v: Option<u64>) -> (r: String)
    ensures
        r@ == optional_number(v),
{
    let mut s = String::new();
    match v {
        Some(n) => push_decimal(&mut s, n),
        None => {},
    }
    s
}

fn verdict_field(v: Option<bool>) -> (r: String)
    ensures
        r@ == optional_verdict(v),
{
    match v {
        Some(true) => text("true"),
        Some(false) => text("false"),
        None => String::new(),
    }
}

fn header_fields(check: bool) -> (r: Vec<String>)
    ensures
        fields_view(r@) == csv_header(check),
{
    let mut v: Vec<String> = Vec::new();
    v.push(text("package"));
    v.push(text("function"));
    v.push(text("metric"));
    v.push(text("value"));
    if check {
        v.push(text("limit"));
        v.push(text("pass"));
    }
    assert(fields_view(v@) =~= csv_header(check));
    v
}

fn row_fields(r: &CostReport, check: bool) -> (f: Vec<String>)
    ensures
        fields_view(f@) == csv_row(*r, check),
{
    let mut v: Vec<String> = Vec::new();
    v.push(r.package.clone());
    v.push(r.function.clone());
    v.push(text(r.metric));
    v.push(number_field(r.value));
    if check {
        v.push(number_field(r.limit));
        v.push(verdict_field(r.pass));
    }
    assert(fields_view(v@) =~= csv_row(*r, check));
    v
}

/// The records of the CSV for `reports`, as fields.
pub fn csv_record_fields(reports: &Vec<CostReport>, check: bool) -> (r: Vec<Vec<String>>)
    ensures
        records_view(r@) == csv_records(reports@, check),
{
    let mut out: Vec<Vec<String>> = Vec::new();
    out.push(header_fields(check));
    let mut i: usize = 0;
    while i < reports.len()
        invariant
            i <= reports@.len(),
            records_view(out@) == seq![csv_header(check)] + csv_data(
                reports@.subrange(0, i as int),
                check,
            ),
        decreases reports@.len() - i,
    {
        let r = &reports[i];
        proof {
            let pre = reports@.subrange(0, i + 1);
            assert(pre.drop_last() =~= reports@.subrange(0, i as int));
            assert(pre.last() == *r);
        }
        if check || r.value.is_some() {
            let f = row_fields(r, check);
            let ghost before = out@;
            out.push(f);
            proof {
                assert(records_view(out@) =~= records_view(before).push(fields_view(f@)));
                assert(records_view(out@) =~= seq![csv_header(check)] + csv_data(
                    reports@.subrange(0, i + 1),
                    check,
                ));
            }
        } else {
            assert(csv_data(reports@.subrange(0, i + 1), check) == csv_data(
                reports@.subrange(0, i as int),
                check,
            ));
        }
        i = i + 1;
    }
    assert(reports@.subrange(0, reports@.len() as int) =~= reports@);
    out
}

/// Writes `records` one after another.
pub fn write_csv_records(records: &Vec<Vec<String>>) -> (r: String)
    ensures
        r@ == csv_document(records_view(records@)),
{
    let ghost all = records_view(records@);
    let mut out = String::new();
    proof {
        assert(all.subrange(0, all.len() as int) =~= all);
        assert(out@ + csv_document(all) =~= csv_document(all));
    }
    let mut i: usize = 0;
    while i < records.len()
        invariant
            i <= records@.len(),
            all == records_view(records@),
            csv_document(all) == out@ + csv_document(all.subrange(i as int, all.len() as int)),
        decreases records@.len() - i,
    {
        let ghost rest = all.subrange(i as int, all.len() as int);
        assert(rest.drop_first() =~= all.subrange(i + 1, all.len() as int));
        assert(rest[0] == fields_view(records@[i as int]@));
        let line = match csv_record_of(&records[i]) {
            Some(line) => line,
            None => String::new(),
        };
        let ghost old_out = out@;
        out.append(line.as_str());
        proof {
            let later = csv_document(all.subrange(i + 1, all.len() as int));
            assert(old_out + (line@ + later) =~= out@ + later);
        }
        i = i + 1;
    }
    assert(all.subrange(records@.len() as int, all.len() as int) =~= Seq::<Seq<Seq<char>>>::empty());
    assert(out@ + Seq::<char>::empty() =~= out@);
    out
}

/// The report as CSV, as `--csv` prints it: the header, then one record per
/// row (under `--check` every row, with its limit and verdict; otherwise the
/// rows that carry a value).
pub fn reports_to_csv(reports: &Vec<CostReport>, check: bool) -> (r: String)
    ensures
        r@ == csv_document(csv_records(reports@, check)),
{
    let records = csv_record_fields(reports, check);
    write_csv_records(&records)
}

/// Every record of the CSV has as many fields as its header: four, or six
/// under `--check`.
pub proof fn lemma_csv_records_match_header(reports: Seq<CostReport>, check: bool)
    ensures
        forall|k: int|
            0 <= k < csv_records(reports, check).len() ==> #[trigger] csv_records(
                reports,
                check,
            )[k].len() == (if check { 6int } else { 4int }),
    decreases reports.len(),
{
    if reports.len() > 0 {
        lemma_csv_records_match_header(reports.drop_last(), check);
    }
    let recs = csv_records(reports, check);
    assert forall|k: int| 0 <= k < recs.len() implies #[trigger] recs[k].len() == (if check {
        6int
    } else {
        4int
    }) by {
        if k > 0 && reports.len() > 0 {
            let prev = csv_records(reports.drop_last(), check);
            if k < prev.len() {
                assert(recs[k] == prev[k]);
            }
        }
    }
}

/// What the report prints when nothing was simulated successfully.
pub open spec fn nothing_to_report_text() -> Seq<char> {
    "No successful simulations to report."@
}

/// How a run ends.
#[derive(Debug, Clone, Copy, PartialEq, Eq, Structural)]
pub enum RunEnd {
    /// No row to report: print `No successful simulations to report.` and
    /// exit with success.
    NothingToReport,
    /// Print the report; exit with failure when `failed` is set.
    Report { failed: bool },
}

/// The end of a run with `rows` report rows of which `failed_checks` failed
/// their check: nothing to report when there is no row; otherwise the
/// report, failing only under `--check` and only when a check failed.
pub open spec fn run_end_of(rows: nat, check: bool, failed_checks: nat) -> RunEnd {
    if rows == 0 {
        RunEnd::NothingToReport
    } else {
        RunEnd::Report { failed: check && failed_checks > 0 }
    }
}

/// Decides how the run ends.
pub fn run_end(rows: usize, check: bool, failed_checks: usize) -> (r: RunEnd)
    ensures
        r == run_end_of(rows as nat, check, failed_checks as nat),
{
    if rows == 0 {
        RunEnd::NothingToReport
    } else {
        RunEnd::Report { failed: check && failed_checks > 0 }
    }
}

/// The line printed when there is nothing to report.
pub fn nothing_to_report() -> (r: &'static str)
    ensures
        r@ == nothing_to_report_text(),
{
    "No successful simulations to report."
}

} // verus!
