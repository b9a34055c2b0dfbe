use credit_data_simulator::config::RulepackServiceConfig;
use credit_data_simulator::json::{JsonDocument, JsonValue};
use credit_data_simulator::rulepack_service::{
    CreateRulepackRequest, CrossFieldRule, CrossFieldRuleType, ListRulepacksParams, RuleType, RulepackConfig,
    RulepackServiceState, Severity, ValidationRule, breaks_cross_rule, breaks_rule, compare_bytes, return_violation,
    validate_record,
};

fn record(fields: Vec<(&str, JsonValue)>) -> JsonDocument {
    JsonDocument::Object(fields.into_iter().map(|(k, v)| (k.to_string(), v)).collect())
}

fn good_record() -> JsonDocument {
    record(vec![
        ("nik", JsonValue::from_str("3201010101010001")),
        ("nama_lengkap", JsonValue::from_str("Budi Santoso")),
        ("jumlah_kredit", JsonValue::from_u64(5_000_000)),
        ("kolektabilitas", JsonValue::from_u64(2)),
        ("mata_uang", JsonValue::from_str("IDR")),
    ])
}

#[test]
fn good_record_passes_v1() {
    let rp = RulepackConfig::v1();
    let results = rp.validate(&vec![good_record()]);
    assert_eq!(results.len(), 1);
    assert!(results[0].valid);
    assert!(results[0].errors.is_empty());
    assert!(results[0].warnings.is_empty());
}

#[test]
fn missing_and_short_fields_are_errors() {
    let rp = RulepackConfig::v1();
    let bad = record(vec![
        ("nik", JsonValue::from_str("123")),
        ("nama_lengkap", JsonValue::from_str("")),
        ("jumlah_kredit", JsonValue::from_i64(-5)),
        ("kolektabilitas", JsonValue::from_u64(9)),
    ]);
    let r = validate_record(&rp.rules, &rp.cross_field_rules, &bad, 3);
    assert_eq!(r.record_index, 3);
    assert!(!r.valid);
    let ids: Vec<&str> = r.errors.iter().map(|e| e.rule_id.as_str()).collect();
    // R005 has both bounds: 9 is above its maximum of 5.
    assert_eq!(ids, vec!["R002", "R003", "R004", "R005"]);
}

#[test]
fn nik_length_counts_bytes() {
    let rp = RulepackConfig::v1();
    let r002 = &rp.rules[1];
    let ok = record(vec![("nik", JsonValue::from_str("1234567890123456"))]);
    assert!(!breaks_rule(r002, &ok));
    // Fifteen characters, sixteen bytes: the multi-byte letter counts twice.
    let multi = record(vec![("nik", JsonValue::from_str("é23456789012345"))]);
    assert!(!breaks_rule(r002, &multi));
    let missing = record(vec![]);
    assert!(!breaks_rule(r002, &missing));
    assert!(breaks_rule(&rp.rules[0], &missing));
    assert!(breaks_rule(&rp.rules[0], &record(vec![("nik", JsonValue::Null)])));
}

#[test]
fn warnings_do_not_invalidate() {
    let rules = vec![ValidationRule {
        rule_id: "W1".to_string(),
        field: "x".to_string(),
        rule_type: RuleType::Required,
        severity: Severity::Warning,
        message: "x please".to_string(),
        params: None,
    }];
    let r = validate_record(&rules, &vec![], &record(vec![]), 0);
    assert!(r.valid);
    assert_eq!(r.warnings.len(), 1);
    assert_eq!(r.warnings[0].message, "x please");
}

#[test]
fn return_violation_reports_comparisons() {
    assert!(return_violation(true));
    assert!(!return_violation(false));
}

#[test]
fn rulepack_versions_and_creation() {
    let mut state = RulepackServiceState::new(RulepackServiceConfig::default());
    assert_eq!(state.get_rulepack("v2").unwrap().rules.len(), 8);
    assert!(state.validate("v9", &vec![]).is_none());
    let req = CreateRulepackRequest {
        version: "v9".to_string(),
        name: "custom".to_string(),
        description: Some("d".to_string()),
        rules: vec![],
        cross_field_rules: vec![],
    };
    assert!(state.create_rulepack(req).is_ok());
    assert_eq!(state.validate("v9", &vec![good_record()]).unwrap().len(), 1);
    let dup = CreateRulepackRequest {
        version: "v1".to_string(),
        name: "dup".to_string(),
        description: None,
        rules: vec![],
        cross_field_rules: vec![],
    };
    let err = state.create_rulepack(dup).unwrap_err();
    assert_eq!(err.message, "Rulepack version 'v1' already exists");
    let listed = state.list_rulepacks(&ListRulepacksParams { active_only: Some(true) });
    assert_eq!(listed.len(), 3);
    state.reset();
    assert_eq!(state.rulepacks.len(), 2);
}

#[test]
fn enum_range_and_cross_field_rules_are_reported() {
    let state = RulepackServiceState::new(RulepackServiceConfig::default());
    let rec = record(vec![
        ("nik", JsonValue::from_str("1234567890123456")),
        ("nama_lengkap", JsonValue::from_str("A")),
        ("jumlah_kredit", JsonValue::from_u64(1_000_000)),
        ("kolektabilitas", JsonValue::from_u64(6)),
        ("mata_uang", JsonValue::from_str("XYZ")),
        ("tanggal_mulai", JsonValue::from_str("2024-05-01")),
        ("tanggal_jatuh_tempo", JsonValue::from_str("2024-01-01")),
    ]);
    let results = state.validate("v1", &vec![rec]).unwrap();
    assert_eq!(results.len(), 1);
    assert!(!results[0].valid);
    let ids: Vec<&str> = results[0].errors.iter().map(|e| e.rule_id.as_str()).collect();
    assert_eq!(ids, vec!["R005", "R006", "CF001"]);
    assert_eq!(results[0].errors[2].field, "tanggal_mulai");
    assert_eq!(results[0].errors[2].message, "Start date must be before maturity date");
    assert!(results[0].warnings.is_empty());
}

#[test]
fn cross_field_rules_follow_the_configuration() {
    let mut config = RulepackServiceConfig::default();
    config.include_cross_field_rules = false;
    let state = RulepackServiceState::new(config);
    let rec = record(vec![
        ("nik", JsonValue::from_str("1234567890123456")),
        ("nama_lengkap", JsonValue::from_str("A")),
        ("tanggal_mulai", JsonValue::from_str("2024-05-01")),
        ("tanggal_jatuh_tempo", JsonValue::from_str("2024-01-01")),
    ]);
    let results = state.validate("v1", &vec![rec]).unwrap();
    assert!(results[0].valid);
    assert!(results[0].errors.is_empty());
}

#[test]
fn enum_rule_accepts_listed_strings_only() {
    let rp = RulepackConfig::v1();
    let r006 = &rp.rules[5];
    assert!(!breaks_rule(r006, &record(vec![("mata_uang", JsonValue::from_str("USD"))])));
    assert!(!breaks_rule(r006, &record(vec![("mata_uang", JsonValue::from_str("JPY"))])));
    assert!(breaks_rule(r006, &record(vec![("mata_uang", JsonValue::from_str("usd"))])));
    assert!(breaks_rule(r006, &record(vec![("mata_uang", JsonValue::from_u64(360))])));
    assert!(!breaks_rule(r006, &record(vec![("mata_uang", JsonValue::Null)])));
    assert!(!breaks_rule(r006, &record(vec![])));
}

#[test]
fn range_rule_checks_both_bounds() {
    let rp = RulepackConfig::v1();
    let r005 = &rp.rules[4];
    assert!(breaks_rule(r005, &record(vec![("kolektabilitas", JsonValue::from_u64(0))])));
    assert!(!breaks_rule(r005, &record(vec![("kolektabilitas", JsonValue::from_u64(1))])));
    assert!(!breaks_rule(r005, &record(vec![("kolektabilitas", JsonValue::from_u64(5))])));
    assert!(breaks_rule(r005, &record(vec![("kolektabilitas", JsonValue::from_u64(6))])));
    assert!(!breaks_rule(r005, &record(vec![("kolektabilitas", JsonValue::from_str("6"))])));
}

#[test]
fn date_format_rule_reads_dates() {
    let rp = RulepackConfig::v2();
    let r007 = &rp.rules[6];
    assert!(!breaks_rule(r007, &record(vec![("tanggal_mulai", JsonValue::from_str("2024-05-01"))])));
    assert!(breaks_rule(r007, &record(vec![("tanggal_mulai", JsonValue::from_str("2024-13-45"))])));
    assert!(breaks_rule(r007, &record(vec![("tanggal_mulai", JsonValue::from_str("not-a-date"))])));
    assert!(breaks_rule(r007, &record(vec![("tanggal_mulai", JsonValue::from_u64(20240501))])));
    assert!(!breaks_rule(r007, &record(vec![])));
}

#[test]
fn outstanding_above_amount_is_a_warning() {
    let rp = RulepackConfig::v1();
    let mut fields = vec![
        ("nik", JsonValue::from_str("1234567890123456")),
        ("nama_lengkap", JsonValue::from_str("A")),
        ("jumlah_kredit", JsonValue::from_u64(1_000)),
        ("saldo_outstanding", JsonValue::from_u64(2_000)),
    ];
    let r = validate_record(&rp.rules, &rp.cross_field_rules, &record(fields.clone()), 0);
    assert!(r.valid);
    assert_eq!(r.warnings.len(), 1);
    assert_eq!(r.warnings[0].rule_id, "CF002");
    assert_eq!(r.warnings[0].field, "saldo_outstanding");
    fields[3] = ("saldo_outstanding", JsonValue::from_u64(1_000));
    let r = validate_record(&rp.rules, &rp.cross_field_rules, &record(fields), 0);
    assert!(r.warnings.is_empty());
}

fn cross(rule_type: CrossFieldRuleType, params: Option<Vec<(String, JsonValue)>>) -> CrossFieldRule {
    CrossFieldRule {
        rule_id: "X1".to_string(),
        rule_type,
        fields: vec!["a".to_string(), "b".to_string()],
        severity: Severity::Error,
        message: "m".to_string(),
        params,
    }
}

#[test]
fn compare_rule_operators() {
    let op = |o: &str| Some(vec![("operator".to_string(), JsonValue::from_str(o))]);
    let rec = record(vec![("a", JsonValue::from_i64(-3)), ("b", JsonValue::from_u64(2))]);
    assert!(!breaks_cross_rule(&cross(CrossFieldRuleType::Compare, op("<")), &rec));
    assert!(breaks_cross_rule(&cross(CrossFieldRuleType::Compare, op(">")), &rec));
    assert!(breaks_cross_rule(&cross(CrossFieldRuleType::Compare, op(">=")), &rec));
    assert!(breaks_cross_rule(&cross(CrossFieldRuleType::Compare, op("==")), &rec));
    assert!(!breaks_cross_rule(&cross(CrossFieldRuleType::Compare, op("!=")), &rec));
    assert!(!breaks_cross_rule(&cross(CrossFieldRuleType::Compare, op("<>")), &rec));
    let mixed = record(vec![("a", JsonValue::from_str("x")), ("b", JsonValue::from_u64(2))]);
    assert!(!breaks_cross_rule(&cross(CrossFieldRuleType::Compare, op("==")), &mixed));
    let words = record(vec![("a", JsonValue::from_str("apple")), ("b", JsonValue::from_str("apples"))]);
    assert!(!breaks_cross_rule(&cross(CrossFieldRuleType::Compare, op("<")), &words));
    assert!(!breaks_cross_rule(&cross(CrossFieldRuleType::Custom, op(">")), &rec));
}

#[test]
fn conditional_rule_needs_the_second_field() {
    let equals = Some(vec![("equals".to_string(), JsonValue::from_str("yes"))]);
    let rule = cross(CrossFieldRuleType::Conditional, equals);
    assert!(breaks_cross_rule(&rule, &record(vec![("a", JsonValue::from_str("yes"))])));
    assert!(breaks_cross_rule(&rule, &record(vec![("a", JsonValue::from_str("yes")), ("b", JsonValue::from_str(""))])));
    assert!(!breaks_cross_rule(&rule, &record(vec![("a", JsonValue::from_str("yes")), ("b", JsonValue::from_u64(1))])));
    assert!(!breaks_cross_rule(&rule, &record(vec![("a", JsonValue::from_str("no"))])));
    assert!(!breaks_cross_rule(&rule, &record(vec![])));
    let any = cross(CrossFieldRuleType::Conditional, None);
    assert!(breaks_cross_rule(&any, &record(vec![("a", JsonValue::from_u64(0)), ("b", JsonValue::Null)])));
    assert!(!breaks_cross_rule(&any, &record(vec![("a", JsonValue::Null)])));
}

#[test]
fn byte_order_of_texts() {
    assert_eq!(compare_bytes(b"2024-05-01", b"2024-01-01"), 1);
    assert_eq!(compare_bytes(b"abc", b"abd"), -1);
    assert_eq!(compare_bytes(b"abc", b"abc"), 0);
    assert_eq!(compare_bytes(b"ab", b"abc"), -1);
    assert_eq!(compare_bytes("é".as_bytes(), b"z"), 1);
}
