use soroban_budget_assert::budget_attr::{
    parse_budget_limit, parse_budget_spec, AttrError, AttrToken, BudgetLimit, BudgetSpec,
};
use soroban_budget_assert::budget_plan::{
    budget_assertion_plan, classify_config_lookup, limit_expr, resolve_config_value,
    write_bytes_assertion_plan, ConfigResolution, CostMetric, LimitExpr,
};
use soroban_budget_assert::config_scan::{config_limit, parse_config_value};
use soroban_budget_assert::exit_paths::{exit_layout, find_return_token, BodyEnd, ExitLayout, MacroToken};

fn ident(s: &str) -> AttrToken {
    AttrToken::Ident(s.to_string())
}

fn eq() -> AttrToken {
    AttrToken::Punct('=')
}

fn comma() -> AttrToken {
    AttrToken::Punct(',')
}

fn lit(s: &str) -> AttrToken {
    AttrToken::Str(s.to_string())
}

#[test]
fn limit_integer_literal() {
    match parse_budget_limit(&vec![AttrToken::Int(Some(950_000))]) {
        Ok(BudgetLimit::Int(n)) => assert_eq!(n, 950_000),
        other => panic!("unexpected {:?}", other),
    }
}

#[test]
fn limit_env_var() {
    match parse_budget_limit(&vec![ident("env"), eq(), lit("MAX_CPU")]) {
        Ok(BudgetLimit::EnvVar(v)) => assert_eq!(v, "MAX_CPU"),
        other => panic!("unexpected {:?}", other),
    }
}

#[test]
fn limit_config_key() {
    match parse_budget_limit(&vec![ident("config"), eq(), lit("cpu_instructions")]) {
        Ok(BudgetLimit::Config(k)) => assert_eq!(k, "cpu_instructions"),
        other => panic!("unexpected {:?}", other),
    }
}

#[test]
fn limit_unknown_source_is_rejected() {
    match parse_budget_limit(&vec![ident("file"), eq(), lit("x")]) {
        Err(AttrError::UnknownLimitSource(name)) => assert_eq!(name, "file"),
        other => panic!("unexpected {:?}", other),
    }
}

#[test]
fn limit_errors() {
    assert!(matches!(parse_budget_limit(&vec![]), Err(AttrError::ExpectedInt)));
    assert!(matches!(parse_budget_limit(&vec![lit("x")]), Err(AttrError::ExpectedInt)));
    assert!(matches!(parse_budget_limit(&vec![AttrToken::Int(None)]), Err(AttrError::IntTooLarge)));
    assert!(matches!(parse_budget_limit(&vec![ident("env"), lit("x")]), Err(AttrError::ExpectedEquals)));
    assert!(matches!(
        parse_budget_limit(&vec![ident("env"), eq(), AttrToken::Int(Some(3))]),
        Err(AttrError::ExpectedStr)
    ));
    assert!(matches!(
        parse_budget_limit(&vec![AttrToken::Int(Some(1)), comma()]),
        Err(AttrError::UnexpectedToken)
    ));
}

#[test]
fn spec_cpu_and_mem_with_env_ident() {
    let toks = vec![
        ident("cpu"),
        eq(),
        AttrToken::Int(Some(10)),
        comma(),
        ident("mem"),
        eq(),
        ident("env"),
        eq(),
        lit("MEM"),
        comma(),
        ident("env_ident"),
        eq(),
        ident("e"),
    ];
    match parse_budget_spec(&toks) {
        Ok(BudgetSpec { cpu: Some(BudgetLimit::Int(10)), mem: Some(BudgetLimit::EnvVar(m)), env_ident: Some(e) }) => {
            assert_eq!(m, "MEM");
            assert_eq!(e, "e");
        }
        other => panic!("unexpected {:?}", other),
    }
}

#[test]
fn spec_allows_trailing_comma_and_later_property_wins() {
    let toks = vec![
        ident("cpu"),
        eq(),
        AttrToken::Int(Some(1)),
        comma(),
        ident("cpu"),
        eq(),
        AttrToken::Int(Some(2)),
        comma(),
    ];
    match parse_budget_spec(&toks) {
        Ok(BudgetSpec { cpu: Some(BudgetLimit::Int(2)), mem: None, env_ident: None }) => {}
        other => panic!("unexpected {:?}", other),
    }
}

#[test]
fn spec_errors() {
    assert!(matches!(parse_budget_spec(&vec![]), Err(AttrError::MissingLimit)));
    assert!(matches!(
        parse_budget_spec(&vec![ident("env_ident"), eq(), ident("e")]),
        Err(AttrError::MissingLimit)
    ));
    match parse_budget_spec(&vec![ident("gas"), eq(), AttrToken::Int(Some(1))]) {
        Err(AttrError::UnknownProperty(p)) => assert_eq!(p, "gas"),
        other => panic!("unexpected {:?}", other),
    }
    assert!(matches!(parse_budget_spec(&vec![AttrToken::Int(Some(1))]), Err(AttrError::ExpectedIdent)));
    assert!(matches!(parse_budget_spec(&vec![ident("cpu"), AttrToken::Int(Some(1))]), Err(AttrError::ExpectedEquals)));
    assert!(matches!(
        parse_budget_spec(&vec![ident("cpu"), eq(), AttrToken::Int(Some(1)), ident("mem")]),
        Err(AttrError::ExpectedComma)
    ));
    assert!(matches!(
        parse_budget_spec(&vec![ident("env_ident"), eq(), lit("e")]),
        Err(AttrError::ExpectedIdent)
    ));
}

#[test]
fn config_resolution_from_json() {
    let file = r#"{"cpu_instructions": 2500000, "memory_bytes": 500000, "neg": -1}"#;
    assert_eq!(resolve_config_value(Some(file), "cpu_instructions"), ConfigResolution::Value(2_500_000));
    assert_eq!(resolve_config_value(Some(file), "missing"), ConfigResolution::KeyNotFound);
    assert_eq!(resolve_config_value(Some(file), "neg"), ConfigResolution::KeyNotFound);
    assert_eq!(resolve_config_value(Some("{not json"), "cpu_instructions"), ConfigResolution::MalformedJson);
    assert_eq!(resolve_config_value(None, "cpu_instructions"), ConfigResolution::MissingFile);
    assert_eq!(classify_config_lookup(Some(Some(7))), ConfigResolution::Value(7));
    assert_eq!(classify_config_lookup(Some(None)), ConfigResolution::KeyNotFound);
    assert_eq!(classify_config_lookup(None), ConfigResolution::MalformedJson);
}

#[test]
fn limit_expressions() {
    assert!(matches!(limit_expr(BudgetLimit::Int(5), None), LimitExpr::Literal(5)));
    match limit_expr(BudgetLimit::EnvVar("V".to_string()), None) {
        LimitExpr::EnvVar(v) => assert_eq!(v, "V"),
        other => panic!("unexpected {:?}", other),
    }
    let file = r#"{"k": 42}"#;
    assert!(matches!(limit_expr(BudgetLimit::Config("k".to_string()), Some(file)), LimitExpr::Literal(42)));
    match limit_expr(BudgetLimit::Config("other".to_string()), Some(file)) {
        LimitExpr::ConfigAtRuntime(k) => assert_eq!(k, "other"),
        other => panic!("unexpected {:?}", other),
    }
    match limit_expr(BudgetLimit::Config("k".to_string()), None) {
        LimitExpr::ConfigAtRuntime(k) => assert_eq!(k, "k"),
        other => panic!("unexpected {:?}", other),
    }
}

#[test]
fn assertion_plan_orders_cpu_before_mem() {
    let spec = BudgetSpec {
        cpu: Some(BudgetLimit::Int(1)),
        mem: Some(BudgetLimit::Int(2)),
        env_ident: None,
    };
    let plan = budget_assertion_plan(spec, None);
    assert_eq!(plan.env_ident, "env");
    assert_eq!(plan.checks.len(), 2);
    assert_eq!(plan.checks[0].metric, CostMetric::Cpu);
    assert!(matches!(plan.checks[0].limit, LimitExpr::Literal(1)));
    assert_eq!(plan.checks[1].metric, CostMetric::Mem);
    assert!(matches!(plan.checks[1].limit, LimitExpr::Literal(2)));

    let spec = BudgetSpec { cpu: None, mem: Some(BudgetLimit::Int(3)), env_ident: Some("e2".to_string()) };
    let plan = budget_assertion_plan(spec, None);
    assert_eq!(plan.env_ident, "e2");
    assert_eq!(plan.checks.len(), 1);
    assert_eq!(plan.checks[0].metric, CostMetric::Mem);
}

#[test]
fn write_bytes_plan_reads_env_strictly() {
    let plan = write_bytes_assertion_plan(BudgetLimit::EnvVar("W".to_string()));
    assert_eq!(plan.env_ident, "env");
    assert_eq!(plan.checks.len(), 1);
    assert_eq!(plan.checks[0].metric, CostMetric::WriteBytes);
    match &plan.checks[0].limit {
        LimitExpr::EnvVar(v) => assert_eq!(v, "W"),
        other => panic!("unexpected {:?}", other),
    }
    let plan = write_bytes_assertion_plan(BudgetLimit::Config("w".to_string()));
    assert!(matches!(&plan.checks[0].limit, LimitExpr::ConfigAtRuntime(k) if k == "w"));
}

#[test]
fn lenient_reader_finds_values() {
    let file = "{\n  \"cpu_instructions\": 2500000,\n  \"memory_bytes\": 500000\n}\n";
    assert_eq!(parse_config_value(file, "cpu_instructions"), Some(2_500_000));
    assert_eq!(parse_config_value(file, "memory_bytes"), Some(500_000));
    assert_eq!(parse_config_value(file, "missing"), None);
}

#[test]
fn lenient_reader_edge_cases() {
    // A later entry replaces an earlier one.
    assert_eq!(parse_config_value(r#"{"a": 1, "a": 2}"#, "a"), Some(2));
    // A value that does not fit in a u64 is skipped.
    assert_eq!(parse_config_value(r#"{"a": 99999999999999999999}"#, "a"), None);
    assert_eq!(parse_config_value(r#"{"a": 18446744073709551615}"#, "a"), Some(u64::MAX));
    // A non-numeric value is skipped.
    assert_eq!(parse_config_value(r#"{"a": "x"}"#, "a"), None);
    // The walk stops at the first closing brace between entries.
    assert_eq!(parse_config_value(r#"{"a": 1} {"b": 2}"#, "b"), None);
    // Unterminated key.
    assert_eq!(parse_config_value(r#"{"a"#, "a"), None);
    assert_eq!(parse_config_value("", "a"), None);
}

#[test]
fn return_token_found_inside_groups() {
    let tokens = vec![
        MacroToken::Ident("assert".to_string(), 0),
        MacroToken::Other,
        MacroToken::Group(vec![
            MacroToken::Ident("x".to_string(), 1),
            MacroToken::Group(vec![MacroToken::Ident("return".to_string(), 2)]),
        ]),
        MacroToken::Ident("return".to_string(), 3),
    ];
    assert_eq!(find_return_token(&tokens), Some(2));
    let tokens = vec![MacroToken::Ident("ret".to_string(), 0), MacroToken::Group(vec![])];
    assert_eq!(find_return_token(&tokens), None);
}

#[test]
fn config_limit_falls_back_to_no_limit_with_a_warning() {
    let file = "{\"cpu_instructions\": 2500000}";
    assert_eq!(config_limit(Some(file), "cpu_instructions"), (2_500_000, false));
    // Key missing.
    assert_eq!(config_limit(Some("{\"memory_bytes\": 500000}"), "cpu_instructions"), (u64::MAX, true));
    // Value not a u64.
    assert_eq!(config_limit(Some("{\"write_bytes\": \"x\"}"), "write_bytes"), (u64::MAX, true));
    // No budget.json.
    assert_eq!(config_limit(None, "write_bytes"), (u64::MAX, true));
}

#[test]
fn exit_layout_choices() {
    assert_eq!(exit_layout(1, Some(BodyEnd::TailExpr)), ExitLayout::RejectMacroReturns);
    assert_eq!(exit_layout(0, Some(BodyEnd::TailExpr)), ExitLayout::BindTail);
    assert_eq!(exit_layout(0, Some(BodyEnd::ReturnExpr)), ExitLayout::Append);
    assert_eq!(exit_layout(0, Some(BodyEnd::Statement)), ExitLayout::Append);
    assert_eq!(exit_layout(0, None), ExitLayout::Append);
}
