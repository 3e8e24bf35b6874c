use soroban_budget_assert::output::{
    nothing_to_report, reports_to_csv, run_end, RunEnd,
};
use soroban_budget_assert::report::CostReport;

fn reports_to_csv_text(reports: &[CostReport], check: bool) -> String {
    reports_to_csv(&reports.to_vec(), check)
}

#[test]
fn csv_output_with_zero_value_indicates_zero_resource_usage() {
    let reports = vec![CostReport {
        package: "my-contract".to_string(),
        function: "do_work".to_string(),
        metric: "CPU Instructions",
        value: Some(0),
        limit: None,
        pass: None,
    }];
    let csv = reports_to_csv_text(&reports, false);
    assert!(csv.contains(",0\n") || csv.contains(",0\r\n"));
}

#[test]
fn csv_output_with_check_zero_value_passes_zero_limit() {
    let reports = vec![CostReport {
        package: "my-contract".to_string(),
        function: "do_work".to_string(),
        metric: "CPU Instructions",
        value: Some(0),
        limit: Some(0),
        pass: Some(true),
    }];
    let csv = reports_to_csv_text(&reports, true);
    assert!(csv.contains(",0,0,true"));
}

#[test]
fn csv_output_zero_reports_produces_header_only() {
    let csv = reports_to_csv_text(&[], false);
    assert_eq!(csv, "package,function,metric,value\n");
}

#[test]
fn csv_output_check_zero_reports_produces_header_only() {
    let csv = reports_to_csv_text(&[], true);
    assert_eq!(csv, "package,function,metric,value,limit,pass\n");
}

#[test]
fn csv_output_rows_and_quoting() {
    let reports = vec![
        CostReport {
            package: "pkg, a".to_string(),
            function: "f".to_string(),
            metric: "Read Bytes",
            value: Some(2048),
            limit: None,
            pass: None,
        },
        CostReport {
            package: "pkg".to_string(),
            function: "g".to_string(),
            metric: "CPU Instructions",
            value: None,
            limit: Some(5),
            pass: Some(false),
        },
    ];
    // Without --check the failed simulation's row is left out, and a field
    // holding a comma is quoted.
    assert_eq!(
        reports_to_csv_text(&reports, false),
        "package,function,metric,value\n\"pkg, a\",f,Read Bytes,2048\n"
    );
    assert_eq!(
        reports_to_csv_text(&reports, true),
        "package,function,metric,value,limit,pass\n\"pkg, a\",f,Read Bytes,2048,,\npkg,g,CPU Instructions,,5,false\n"
    );
}

#[test]
fn run_end_decisions() {
    assert_eq!(run_end(0, true, 0), RunEnd::NothingToReport);
    assert_eq!(run_end(0, false, 0), RunEnd::NothingToReport);
    assert_eq!(run_end(4, false, 3), RunEnd::Report { failed: false });
    assert_eq!(run_end(4, true, 0), RunEnd::Report { failed: false });
    assert_eq!(run_end(4, true, 1), RunEnd::Report { failed: true });
    assert_eq!(nothing_to_report(), "No successful simulations to report.");
}
