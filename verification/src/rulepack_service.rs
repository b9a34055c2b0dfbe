//! The rulepack service: versioned validation rulepacks and the engine that
//! checks credit records against them.

use vstd::prelude::*;
use crate::json::{
    JsonDocument, JsonValue, TextList, entries_view, entries_get, entries_lookup, opt_entries, u64_number,
};
use crate::clock::{Timestamp, valid_timestamp, rfc3339_text, now, to_rfc3339, parsed_date, parse_date};
use crate::common::{ApiError, FailureReply, SimulatorStats, failure_reply};
use crate::config::{FailureType, RulepackServiceConfig};
use crate::text::{owned, str_eq, concat3, contains_str, position_of, lemma_position_of, lemma_position_of_unique};

verus! {

// ============================================================================
// Data models
// ============================================================================

/// Type of validation rule.
#[derive(Clone, Copy, Debug, PartialEq, Eq, Structural)]
pub enum RuleType {
    Required,
    Length,
    Range,
    Pattern,
    Enum,
    DateFormat,
    Custom,
}

/// Severity level.
#[derive(Clone, Copy, Debug, PartialEq, Eq, Structural)]
pub enum Severity {
    Error,
    Warning,
}

/// Type of cross-field validation.
#[derive(Clone, Copy, Debug, PartialEq, Eq, Structural)]
pub enum CrossFieldRuleType {
    Compare,
    Conditional,
    Custom,
}

/// Individual validation rule.
#[derive(Debug)]
pub struct ValidationRule {
    /// Rule identifier
    pub rule_id: String,
    /// Target field
    pub field: String,
    /// Rule type
    pub rule_type: RuleType,
    /// Severity (error or warning)
    pub severity: Severity,
    /// Error message
    pub message: String,
    /// Rule parameters
    pub params: Option<Vec<(String, JsonValue)>>,
}

/// A validation rule with its texts taken by their characters.
pub struct RuleView {
    pub rule_id: Seq<char>,
    pub field: Seq<char>,
    pub rule_type: RuleType,
    pub severity: Severity,
    pub message: Seq<char>,
    pub params: Option<Seq<(Seq<char>, JsonValue)>>,
}

impl View for ValidationRule {
    type V = RuleView;

    open spec fn view(&self) -> RuleView {
        RuleView {
            rule_id: self.rule_id@,
            field: self.field@,
            rule_type: self.rule_type,
            severity: self.severity,
            message: self.message@,
            params: opt_entries(self.params),
        }
    }
}

/// Cross-field validation rule.
#[derive(Debug)]
pub struct CrossFieldRule {
    pub rule_id: String,
    pub rule_type: CrossFieldRuleType,
    pub fields: Vec<String>,
    pub severity: Severity,
    pub message: String,
    pub params: Option<Vec<(String, JsonValue)>>,
}

/// A cross-field rule with its texts taken by their characters.
pub struct CrossRuleView {
    pub rule_id: Seq<char>,
    pub rule_type: CrossFieldRuleType,
    pub fields: Seq<Seq<char>>,
    pub severity: Severity,
    pub message: Seq<char>,
    pub params: Option<Seq<(Seq<char>, JsonValue)>>,
}

impl View for CrossFieldRule {
    type V = CrossRuleView;

    open spec fn view(&self) -> CrossRuleView {
        CrossRuleView {
            rule_id: self.rule_id@,
            rule_type: self.rule_type,
            fields: self.fields@.map_values(|f: String| f@),
            severity: self.severity,
            message: self.message@,
            params: opt_entries(self.params),
        }
    }
}

/// Individual rule violation.
#[derive(Debug)]
pub struct RuleViolation {
    pub rule_id: String,
    pub field: String,
    pub message: String,
    pub severity: Severity,
}

/// A rule violation with its texts taken by their characters.
pub struct ViolationView {
    pub rule_id: Seq<char>,
    pub field: Seq<char>,
    pub message: Seq<char>,
    pub severity: Severity,
}

impl View for RuleViolation {
    type V = ViolationView;

    open spec fn view(&self) -> ViolationView {
        ViolationView {
            rule_id: self.rule_id@,
            field: self.field@,
            message: self.message@,
            severity: self.severity,
        }
    }
}

/// Validation result for a single record.
#[derive(Debug)]
pub struct ValidationResult {
    pub record_index: usize,
    pub valid: bool,
    pub errors: Vec<RuleViolation>,
    pub warnings: Vec<RuleViolation>,
}

/// Request to validate records.
#[derive(Debug)]
pub struct ValidateRequest {
    pub records: Vec<JsonDocument>,
}

/// Query params for listing rulepacks.
#[derive(Debug)]
pub struct ListRulepacksParams {
    pub active_only: Option<bool>,
}

// ============================================================================
// The validation engine
// ============================================================================

/// The views of a list of rules.
pub open spec fn rules_view(rules: Seq<ValidationRule>) -> Seq<RuleView> {
    rules.map_values(|r: ValidationRule| r@)
}

/// The views of a list of cross-field rules.
pub open spec fn cross_view(rules: Seq<CrossFieldRule>) -> Seq<CrossRuleView> {
    rules.map_values(|r: CrossFieldRule| r@)
}

/// The views of a list of violations.
pub open spec fn violations_view(v: Seq<RuleViolation>) -> Seq<ViolationView> {
    v.map_values(|x: RuleViolation| x@)
}

/// The number under `key` in rule parameters, by its order key.
pub open spec fn param_number(params: Seq<(Seq<char>, JsonValue)>, key: Seq<char>) -> Option<i64> {
    match entries_get(params, key) {
        Some(v) => v.spec_number_key(),
        None => None,
    }
}

/// The non-negative integer under `key` in rule parameters.
pub open spec fn param_u64(params: Seq<(Seq<char>, JsonValue)>, key: Seq<char>) -> Option<u64> {
    match entries_get(params, key) {
        Some(v) => v.spec_as_u64(),
        None => None,
    }
}

/// The string under `key` in rule parameters.
pub open spec fn param_text(params: Seq<(Seq<char>, JsonValue)>, key: Seq<char>) -> Option<Seq<char>> {
    match entries_get(params, key) {
        Some(v) => v.spec_as_str(),
        None => None,
    }
}

/// The list of strings under `key` in rule parameters.
pub open spec fn param_texts(params: Seq<(Seq<char>, JsonValue)>, key: Seq<char>) -> Option<Seq<Seq<char>>> {
    match entries_get(params, key) {
        Some(v) => v.spec_as_texts(),
        None => None,
    }
}

/// The length of a text in bytes of UTF-8.
pub open spec fn utf8_len(s: Seq<char>) -> nat {
    vstd::utf8::encode_utf8(s).len()
}

/// Whether a field's value is missing: absent, null or an empty string.
pub open spec fn is_blank(value: Option<JsonValue>) -> bool {
    match value {
        None => true,
        Some(v) => v is Null || v.spec_as_str() == Some(Seq::<char>::empty()),
    }
}

/// Whether a record breaks a rule:
/// - required: the field is absent, null or an empty string;
/// - range: a number below the minimum or above the maximum, each when given;
/// - length: a string whose byte length is below the minimum or above the
///   maximum (0 and the largest `u64` when a bound is not given);
/// - enum: a non-null value that is not one of the listed strings;
/// - date format: a string that does not read as a date in the given
///   format, or a non-null value that is not a string;
/// - pattern and custom rules always pass.
/// Apart from required rules, a rule passes when its field is absent or its
/// parameters lack what it compares with.
pub open spec fn rule_violated(rule: RuleView, record: JsonDocument) -> bool {
    let value = record.spec_get(rule.field);
    match rule.rule_type {
        RuleType::Required => is_blank(value),
        RuleType::Range => match (value, rule.params) {
            (Some(v), Some(p)) => match v.spec_number_key() {
                Some(num) => (param_number(p, "min"@) matches Some(min) && num < min) || (param_number(
                    p,
                    "max"@,
                ) matches Some(max) && num > max),
                None => false,
            },
            _ => false,
        },
        RuleType::Length => match (value, rule.params) {
            (Some(v), Some(p)) => match v.spec_as_str() {
                Some(s) => {
                    let min: u64 = match param_u64(p, "min"@) {
                        Some(m) => m,
                        None => 0,
                    };
                    let max: u64 = match param_u64(p, "max"@) {
                        Some(m) => m,
                        None => u64::MAX,
                    };
                    utf8_len(s) < min || utf8_len(s) > max
                },
                None => false,
            },
            _ => false,
        },
        RuleType::Enum => match (value, rule.params) {
            (Some(v), Some(p)) => match param_texts(p, "values"@) {
                Some(list) => !(v is Null) && !(v.spec_as_str() matches Some(s) && list.contains(s)),
                None => false,
            },
            _ => false,
        },
        RuleType::DateFormat => match (value, rule.params) {
            (Some(v), Some(p)) => match param_text(p, "format"@) {
                Some(fmt) => match v.spec_as_str() {
                    Some(s) => parsed_date(s, fmt) is None,
                    None => !(v is Null),
                },
                None => false,
            },
            _ => false,
        },
        _ => false,
    }
}

/// The byte-wise (lexicographic) order of two byte strings: -1, 0 or 1.
pub open spec fn byte_order(a: Seq<u8>, b: Seq<u8>) -> int
    decreases a.len(),
{
    if a.len() == 0 {
        if b.len() == 0 {
            0
        } else {
            -1
        }
    } else if b.len() == 0 {
        1
    } else if a[0] < b[0] {
        -1
    } else if a[0] > b[0] {
        1
    } else {
        byte_order(a.drop_first(), b.drop_first())
    }
}

/// The order of two values a comparison rule can compare: numbers by value,
/// strings by their UTF-8 bytes (which is the order of their characters);
/// `None` for any other pair.
pub open spec fn value_order(a: JsonValue, b: JsonValue) -> Option<int> {
    match (a, b) {
        (JsonValue::Number(x), JsonValue::Number(y)) => Some(
            if x.order_key < y.order_key {
                -1
            } else if x.order_key == y.order_key {
                0
            } else {
                1
            },
        ),
        (JsonValue::Str(x), JsonValue::Str(y)) => Some(
            byte_order(vstd::utf8::encode_utf8(x@), vstd::utf8::encode_utf8(y@)),
        ),
        _ => None,
    }
}

/// Whether the order `c` (-1, 0 or 1) of two values satisfies a comparison
/// operator; `None` for an operator that is not one of `<`, `<=`, `>`,
/// `>=`, `==`, `!=`.
pub open spec fn comparison_holds(op: Seq<char>, c: int) -> Option<bool> {
    if op == "<"@ {
        Some(c < 0)
    } else if op == "<="@ {
        Some(c <= 0)
    } else if op == ">"@ {
        Some(c > 0)
    } else if op == ">="@ {
        Some(c >= 0)
    } else if op == "=="@ {
        Some(c == 0)
    } else if op == "!="@ {
        Some(c != 0)
    } else {
        None
    }
}

/// Whether a record breaks a cross-field rule over its first two fields:
/// - compare: both values are numbers, or both strings, and they do not
///   satisfy the `operator` parameter;
/// - conditional: the first field holds a non-null value (equal to the
///   `equals` parameter, when there is one) and the second is blank;
/// - custom rules always pass.
pub open spec fn cross_violated(rule: CrossRuleView, record: JsonDocument) -> bool {
    &&& rule.fields.len() >= 2
    &&& {
        let a = record.spec_get(rule.fields[0]);
        let b = record.spec_get(rule.fields[1]);
        match rule.rule_type {
            CrossFieldRuleType::Compare => match (a, b, rule.params) {
                (Some(x), Some(y), Some(p)) => match (param_text(p, "operator"@), value_order(x, y)) {
                    (Some(op), Some(c)) => comparison_holds(op, c) == Some(false),
                    _ => false,
                },
                _ => false,
            },
            CrossFieldRuleType::Conditional => match a {
                Some(x) => {
                    &&& !(x is Null)
                    &&& match rule.params {
                        Some(p) => match entries_get(p, "equals"@) {
                            Some(want) => x.spec_same(want),
                            None => true,
                        },
                        None => true,
                    }
                    &&& is_blank(b)
                },
                None => false,
            },
            CrossFieldRuleType::Custom => false,
        }
    }
}

/// The violation reported for a broken rule.
pub open spec fn violation_of(rule: RuleView) -> ViolationView {
    ViolationView { rule_id: rule.rule_id, field: rule.field, message: rule.message, severity: rule.severity }
}

/// The violation reported for a broken cross-field rule, under its first
/// field.
pub open spec fn cross_violation_of(rule: CrossRuleView) -> ViolationView {
    ViolationView { rule_id: rule.rule_id, field: rule.fields[0], message: rule.message, severity: rule.severity }
}

/// The violations of severity `sev` among the first `n` rules, in rule order.
pub open spec fn violations(rules: Seq<RuleView>, record: JsonDocument, sev: Severity, n: nat) -> Seq<ViolationView>
    decreases n,
{
    if n == 0 {
        Seq::empty()
    } else {
        let prev = violations(rules, record, sev, (n - 1) as nat);
        let rule = rules[n - 1];
        if rule_violated(rule, record) && rule.severity == sev {
            prev.push(violation_of(rule))
        } else {
            prev
        }
    }
}

/// The violations of severity `sev` among the first `n` cross-field rules,
/// in rule order.
pub open spec fn cross_violations(rules: Seq<CrossRuleView>, record: JsonDocument, sev: Severity, n: nat) -> Seq<
    ViolationView,
>
    decreases n,
{
    if n == 0 {
        Seq::empty()
    } else {
        let prev = cross_violations(rules, record, sev, (n - 1) as nat);
        let rule = rules[n - 1];
        if cross_violated(rule, record) && rule.severity == sev {
            prev.push(cross_violation_of(rule))
        } else {
            prev
        }
    }
}

/// Whether `res` is the result of checking `record`, the `index`-th record,
/// against `rules` and then `cross`: the errors and the warnings it breaks
/// (those of the field rules first), and valid exactly when there is no
/// error.
pub open spec fn result_of(
    res: ValidationResult,
    index: int,
    rules: Seq<RuleView>,
    cross: Seq<CrossRuleView>,
    record: JsonDocument,
) -> bool {
    &&& res.record_index == index
    &&& violations_view(res.errors@) == violations(rules, record, Severity::Error, rules.len()) + cross_violations(
        cross,
        record,
        Severity::Error,
        cross.len(),
    )
    &&& violations_view(res.warnings@) == violations(rules, record, Severity::Warning, rules.len())
        + cross_violations(cross, record, Severity::Warning, cross.len())
    &&& res.valid == (res.errors@.len() == 0)
}

/// The number under `key` in rule parameters.
fn param_number_of(params: &Vec<(String, JsonValue)>, key: &str) -> (r: Option<i64>)
    ensures
        r == param_number(entries_view(params@), key@),
{
    match entries_lookup(params, key) {
        Some(v) => v.number_key(),
        None => None,
    }
}

/// The non-negative integer under `key` in rule parameters.
fn param_u64_of(params: &Vec<(String, JsonValue)>, key: &str) -> (r: Option<u64>)
    ensures
        r == param_u64(entries_view(params@), key@),
{
    match entries_lookup(params, key) {
        Some(v) => v.as_u64(),
        None => None,
    }
}

/// The string under `key` in rule parameters.
fn param_text_of<'a>(params: &'a Vec<(String, JsonValue)>, key: &str) -> (r: Option<&'a str>)
    ensures
        r matches Some(s) ==> param_text(entries_view(params@), key@) == Some(s@),
        r is None ==> param_text(entries_view(params@), key@) is None,
{
    match entries_lookup(params, key) {
        Some(v) => v.as_str(),
        None => None,
    }
}

/// Whether a field's value is missing: absent, null or an empty string.
fn blank(value: Option<&JsonValue>) -> (r: bool)
    ensures
        r == is_blank(
            match value {
                Some(v) => Some(*v),
                None => None,
            },
        ),
{
    match value {
        None => true,
        Some(v) => {
            if v.is_null() {
                true
            } else {
                match v.as_str() {
                    Some(s) => {
                        assert(s@.len() == 0 ==> s@ =~= Seq::<char>::empty());
                        s.is_empty()
                    },
                    None => false,
                }
            }
        },
    }
}

/// Whether a record breaks a rule.
pub fn breaks_rule(rule: &ValidationRule, record: &JsonDocument) -> (r: bool)
    ensures
        r == rule_violated(rule@, *record),
{
    let value = record.get(rule.field.as_str());
    match rule.rule_type {
        RuleType::Required => blank(value),
        RuleType::Range => match (value, &rule.params) {
            (Some(v), Some(p)) => match v.number_key() {
                Some(num) => {
                    let below = match param_number_of(p, "min") {
                        Some(min) => return_violation(num < min),
                        None => false,
                    };
                    let above = match param_number_of(p, "max") {
                        Some(max) => return_violation(num > max),
                        None => false,
                    };
                    below || above
                },
                None => false,
            },
            _ => false,
        },
        RuleType::Length => match (value, &rule.params) {
            (Some(v), Some(p)) => match v.as_str() {
                Some(s) => {
                    let bytes = s.as_bytes();
                    let len = bytes.len() as u64;
                    let min = match param_u64_of(p, "min") {
                        Some(m) => m,
                        None => 0,
                    };
                    let max = match param_u64_of(p, "max") {
                        Some(m) => m,
                        None => u64::MAX,
                    };
                    len < min || len > max
                },
                None => false,
            },
            _ => false,
        },
        RuleType::Enum => match (value, &rule.params) {
            (Some(v), Some(p)) => match entries_lookup(p, "values") {
                Some(listed) => match listed.as_texts() {
                    Some(list) => {
                        if v.is_null() {
                            false
                        } else {
                            match v.as_str() {
                                Some(s) => !list.contains(s),
                                None => true,
                            }
                        }
                    },
                    None => false,
                },
                None => false,
            },
            _ => false,
        },
        RuleType::DateFormat => match (value, &rule.params) {
            (Some(v), Some(p)) => match param_text_of(p, "format") {
                Some(fmt) => match v.as_str() {
                    Some(s) => parse_date(s, fmt).is_none(),
                    None => !v.is_null(),
                },
                None => false,
            },
            _ => false,
        },
        _ => false,
    }
}

/// Whether a comparison reports a violation: exactly when it holds.
pub fn return_violation(should: bool) -> (r: bool)
    ensures
        r == should,
{
    should
}

/// The byte-wise order of two byte strings: -1, 0 or 1.
pub fn compare_bytes(a: &[u8], b: &[u8]) -> (r: i8)
    ensures
        r as int == byte_order(a@, b@),
{
    let mut i: usize = 0;
    assert(a@.skip(0) =~= a@);
    assert(b@.skip(0) =~= b@);
    while i < a.len() && i < b.len()
        invariant
            i <= a.len(),
            i <= b.len(),
            byte_order(a@, b@) == byte_order(a@.skip(i as int), b@.skip(i as int)),
        decreases a.len() - i,
    {
        let x: u8 = a[i];
        let y: u8 = b[i];
        assert(a@.skip(i as int)[0] == x && b@.skip(i as int)[0] == y);
        if x < y {
            return -1;
        }
        if x > y {
            return 1;
        }
        assert(a@.skip(i as int).drop_first() =~= a@.skip(i + 1));
        assert(b@.skip(i as int).drop_first() =~= b@.skip(i + 1));
        i = i + 1;
    }
    if i == a.len() {
        if i == b.len() {
            0
        } else {
            -1
        }
    } else {
        1
    }
}

/// The order of two values a comparison rule can compare.
fn order_of(a: &JsonValue, b: &JsonValue) -> (r: Option<i8>)
    ensures
        r matches Some(c) ==> value_order(*a, *b) == Some(c as int),
        r is None ==> value_order(*a, *b) is None,
{
    match (a, b) {
        (JsonValue::Number(x), JsonValue::Number(y)) => {
            if x.order_key < y.order_key {
                Some(-1)
            } else if x.order_key == y.order_key {
                Some(0)
            } else {
                Some(1)
            }
        },
        (JsonValue::Str(x), JsonValue::Str(y)) => Some(compare_bytes(x.as_str().as_bytes(), y.as_str().as_bytes())),
        _ => None,
    }
}

/// Whether the order `c` of two values satisfies a comparison operator.
fn comparison_of(op: &str, c: i8) -> (r: Option<bool>)
    ensures
        r == comparison_holds(op@, c as int),
{
    if str_eq(op, "<") {
        Some(c < 0)
    } else if str_eq(op, "<=") {
        Some(c <= 0)
    } else if str_eq(op, ">") {
        Some(c > 0)
    } else if str_eq(op, ">=") {
        Some(c >= 0)
    } else if str_eq(op, "==") {
        Some(c == 0)
    } else if str_eq(op, "!=") {
        Some(c != 0)
    } else {
        None
    }
}

/// Whether a record breaks a cross-field rule.
pub fn breaks_cross_rule(rule: &CrossFieldRule, record: &JsonDocument) -> (r: bool)
    ensures
        r == cross_violated(rule@, *record),
{
    if rule.fields.len() < 2 {
        return false;
    }
    assert(rule@.fields[0] == rule.fields@[0]@ && rule@.fields[1] == rule.fields@[1]@);
    let a = record.get(rule.fields[0].as_str());
    let b = record.get(rule.fields[1].as_str());
    match rule.rule_type {
        CrossFieldRuleType::Compare => match (a, b, &rule.params) {
            (Some(x), Some(y), Some(p)) => match (param_text_of(p, "operator"), order_of(x, y)) {
                (Some(op), Some(c)) => match comparison_of(op, c) {
                    Some(holds) => !holds,
                    None => false,
                },
                _ => false,
            },
            _ => false,
        },
        CrossFieldRuleType::Conditional => match a {
            Some(x) => {
                if x.is_null() {
                    false
                } else {
                    let applies = match &rule.params {
                        Some(p) => match entries_lookup(p, "equals") {
                            Some(want) => x.same(want),
                            None => true,
                        },
                        None => true,
                    };
                    applies && blank(b)
                }
            },
            None => false,
        },
        CrossFieldRuleType::Custom => false,
    }
}

/// A violation report for a broken rule.
fn report(rule: &ValidationRule) -> (r: RuleViolation)
    ensures
        r@ == violation_of(rule@),
{
    RuleViolation {
        rule_id: rule.rule_id.clone(),
        field: rule.field.clone(),
        message: rule.message.clone(),
        severity: rule.severity,
    }
}

/// A violation report for a broken cross-field rule.
fn cross_report(rule: &CrossFieldRule) -> (r: RuleViolation)
    requires
        rule.fields@.len() >= 1,
    ensures
        r@ == cross_violation_of(rule@),
{
    RuleViolation {
        rule_id: rule.rule_id.clone(),
        field: rule.fields[0].clone(),
        message: rule.message.clone(),
        severity: rule.severity,
    }
}

/// Checks one record against a list of rules, then a list of cross-field
/// rules.
pub fn validate_record(
    rules: &Vec<ValidationRule>,
    cross: &Vec<CrossFieldRule>,
    record: &JsonDocument,
    index: usize,
) -> (r: ValidationResult)
    ensures
        result_of(r, index as int, rules_view(rules@), cross_view(cross@), *record),
{
    let ghost rv = rules_view(rules@);
    let ghost cv = cross_view(cross@);
    let mut errors: Vec<RuleViolation> = Vec::new();
    let mut warnings: Vec<RuleViolation> = Vec::new();
    let mut i: usize = 0;
    while i < rules.len()
        invariant
            i <= rules.len(),
            rv == rules_view(rules@),
            violations_view(errors@) == violations(rv, *record, Severity::Error, i as nat),
            violations_view(warnings@) == violations(rv, *record, Severity::Warning, i as nat),
        decreases rules.len() - i,
    {
        let rule = &rules[i];
        assert(rv[i as int] == rule@);
        if breaks_rule(rule, record) {
            match rule.severity {
                Severity::Error => errors.push(report(rule)),
                Severity::Warning => warnings.push(report(rule)),
            }
        }
        assert(violations_view(errors@) =~= violations(rv, *record, Severity::Error, (i + 1) as nat));
        assert(violations_view(warnings@) =~= violations(rv, *record, Severity::Warning, (i + 1) as nat));
        i = i + 1;
    }
    let ghost field_errors = violations_view(errors@);
    let ghost field_warnings = violations_view(warnings@);
    let mut j: usize = 0;
    assert(field_errors + cross_violations(cv, *record, Severity::Error, 0) =~= field_errors);
    assert(field_warnings + cross_violations(cv, *record, Severity::Warning, 0) =~= field_warnings);
    while j < cross.len()
        invariant
            j <= cross.len(),
            cv == cross_view(cross@),
            violations_view(errors@) == field_errors + cross_violations(cv, *record, Severity::Error, j as nat),
            violations_view(warnings@) == field_warnings + cross_violations(cv, *record, Severity::Warning, j as nat),
        decreases cross.len() - j,
    {
        let rule = &cross[j];
        assert(cv[j as int] == rule@);
        let ghost pe = cross_violations(cv, *record, Severity::Error, j as nat);
        let ghost pw = cross_violations(cv, *record, Severity::Warning, j as nat);
        if breaks_cross_rule(rule, record) {
            let v = cross_report(rule);
            let ghost vv = v@;
            match rule.severity {
                Severity::Error => {
                    errors.push(v);
                    assert(violations_view(errors@) =~= (field_errors + pe).push(vv));
                    assert((field_errors + pe).push(vv) =~= field_errors + pe.push(vv));
                },
                Severity::Warning => {
                    warnings.push(v);
                    assert(violations_view(warnings@) =~= (field_warnings + pw).push(vv));
                    assert((field_warnings + pw).push(vv) =~= field_warnings + pw.push(vv));
                },
            }
        }
        assert(violations_view(errors@) =~= field_errors + cross_violations(
            cv,
            *record,
            Severity::Error,
            (j + 1) as nat,
        ));
        assert(violations_view(warnings@) =~= field_warnings + cross_violations(
            cv,
            *record,
            Severity::Warning,
            (j + 1) as nat,
        ));
        j = j + 1;
    }
    let valid = errors.len() == 0;
    ValidationResult { record_index: index, valid, errors, warnings }
}

/// Checks every record against a list of rules and a list of cross-field
/// rules, one result per record in order.
pub fn validate_records(rules: &Vec<ValidationRule>, cross: &Vec<CrossFieldRule>, records: &Vec<JsonDocument>) -> (r:
    Vec<ValidationResult>)
    ensures
        r@.len() == records@.len(),
        forall|i: int|
            0 <= i < records@.len() ==> result_of(
                #[trigger] r@[i],
                i,
                rules_view(rules@),
                cross_view(cross@),
                records@[i],
            ),
{
    let mut out: Vec<ValidationResult> = Vec::new();
    let mut i: usize = 0;
    while i < records.len()
        invariant
            i <= records.len(),
            out@.len() == i,
            forall|j: int|
                0 <= j < i ==> result_of(#[trigger] out@[j], j, rules_view(rules@), cross_view(cross@), records@[j]),
        decreases records.len() - i,
    {
        out.push(validate_record(rules, cross, &records[i], i));
        i = i + 1;
    }
    out
}


// ============================================================================
// Rulepacks
// ============================================================================

/// Rulepack configuration for a specific version.
#[derive(Debug)]
pub struct RulepackConfig {
    /// Version identifier
    pub version: String,
    /// Display name
    pub name: String,
    /// Description
    pub description: String,
    /// Validation rules
    pub rules: Vec<ValidationRule>,
    /// Cross-field rules
    pub cross_field_rules: Vec<CrossFieldRule>,
    /// Creation timestamp
    pub created_at: String,
    /// Whether this rulepack is active
    pub is_active: bool,
}

/// Whether a rule has these identifier, field, type, severity and message.
pub open spec fn rule_is(r: RuleView, id: Seq<char>, field: Seq<char>, t: RuleType, s: Severity, msg: Seq<char>) -> bool {
    r.rule_id == id && r.field == field && r.rule_type == t && r.severity == s && r.message == msg
}

/// Parameters holding exactly one string.
pub open spec fn one_str_param(p: Option<Seq<(Seq<char>, JsonValue)>>, key: Seq<char>, text: Seq<char>) -> bool {
    p matches Some(e) && e.len() == 1 && e[0].0 == key && e[0].1.spec_as_str() == Some(text)
}

/// The currencies a v1 rulepack accepts.
pub open spec fn currency_codes() -> Seq<Seq<char>> {
    seq!["IDR"@, "USD"@, "EUR"@, "SGD"@, "JPY"@]
}

/// The six rules of the basic rulepack, at the start of `rules`.
pub open spec fn basic_rules(rules: Seq<RuleView>) -> bool {
    &&& rules.len() >= 6
    &&& rule_is(rules[0], "R001"@, "nik"@, RuleType::Required, Severity::Error, "NIK is required"@)
    &&& rules[0].params is None
    &&& rule_is(rules[1], "R002"@, "nik"@, RuleType::Length, Severity::Error, "NIK must be exactly 16 digits"@)
    &&& rules[1].params == Some(seq![("min"@, JsonValue::Number(u64_number(16))), ("max"@, JsonValue::Number(u64_number(16)))])
    &&& rule_is(rules[2], "R003"@, "nama_lengkap"@, RuleType::Required, Severity::Error, "Full name is required"@)
    &&& rules[2].params is None
    &&& rule_is(
        rules[3],
        "R004"@,
        "jumlah_kredit"@,
        RuleType::Range,
        Severity::Error,
        "Credit amount must be positive"@,
    )
    &&& rules[3].params == Some(seq![("min"@, JsonValue::Number(u64_number(1)))])
    &&& rule_is(
        rules[4],
        "R005"@,
        "kolektabilitas"@,
        RuleType::Range,
        Severity::Error,
        "Collectability must be between 1 and 5"@,
    )
    &&& rules[4].params == Some(seq![("min"@, JsonValue::Number(u64_number(1))), ("max"@, JsonValue::Number(u64_number(5)))])
    &&& rule_is(
        rules[5],
        "R006"@,
        "mata_uang"@,
        RuleType::Enum,
        Severity::Error,
        "Currency must be a valid ISO 4217 code"@,
    )
    &&& rules[5].params matches Some(e) && e.len() == 1 && e[0].0 == "values"@ && e[0].1.spec_as_texts()
        == Some(currency_codes())
}

/// The two cross-field rules of the basic rulepack.
pub open spec fn basic_cross_rules(rules: Seq<CrossRuleView>) -> bool {
    &&& rules.len() == 2
    &&& rules[0].rule_id == "CF001"@ && rules[0].rule_type == CrossFieldRuleType::Compare
    &&& rules[0].fields == seq!["tanggal_mulai"@, "tanggal_jatuh_tempo"@]
    &&& rules[0].severity == Severity::Error
    &&& rules[0].message == "Start date must be before maturity date"@
    &&& one_str_param(rules[0].params, "operator"@, "<="@)
    &&& rules[1].rule_id == "CF002"@ && rules[1].rule_type == CrossFieldRuleType::Compare
    &&& rules[1].fields == seq!["saldo_outstanding"@, "jumlah_kredit"@]
    &&& rules[1].severity == Severity::Warning
    &&& rules[1].message == "Outstanding balance should not exceed credit amount"@
    &&& one_str_param(rules[1].params, "operator"@, "<="@)
}

/// The basic (v1) rulepack: its texts, its six rules and its two
/// cross-field rules.
pub open spec fn is_v1_rulepack(r: RulepackConfig) -> bool {
    &&& r.version@ == "v1"@
    &&& r.name@ == "SLIK Basic Rulepack v1"@
    &&& r.description@ == "Basic validation rules for SLIK credit reporting"@
    &&& rules_view(r.rules@).len() == 6
    &&& basic_rules(rules_view(r.rules@))
    &&& basic_cross_rules(r.cross_field_rules@.map_values(|c: CrossFieldRule| c@))
    &&& r.created_at@ == "2023-01-15T00:00:00Z"@
    &&& r.is_active
}

/// The enhanced (v2) rulepack: the basic rules followed by a date format
/// rule and a branch code pattern rule, and the basic cross-field rules.
pub open spec fn is_v2_rulepack(r: RulepackConfig) -> bool {
    &&& r.version@ == "v2"@
    &&& r.name@ == "SLIK Enhanced Rulepack v2"@
    &&& r.description@ == "Enhanced validation with additional regulatory checks"@
    &&& rules_view(r.rules@).len() == 8
    &&& basic_rules(rules_view(r.rules@))
    &&& rule_is(
            rules_view(r.rules@)[6],
            "R007"@,
            "tanggal_mulai"@,
            RuleType::DateFormat,
            Severity::Error,
            "Start date must be in YYYY-MM-DD format"@,
        )
    &&& one_str_param(rules_view(r.rules@)[6].params, "format"@, "%Y-%m-%d"@)
    &&& rule_is(
            rules_view(r.rules@)[7],
            "R008"@,
            "kode_cabang"@,
            RuleType::Pattern,
            Severity::Error,
            "Branch code must be 3 letters followed by 3 digits"@,
        )
    &&& one_str_param(rules_view(r.rules@)[7].params, "pattern"@, "^[A-Z]{3}\\d{3}$"@)
    &&& basic_cross_rules(r.cross_field_rules@.map_values(|c: CrossFieldRule| c@))
    &&& r.created_at@ == "2024-01-10T00:00:00Z"@
    &&& r.is_active
}

/// A rule with no parameters or with the ones given.
fn make_rule(
    id: &str,
    field: &str,
    rule_type: RuleType,
    severity: Severity,
    message: &str,
    params: Option<Vec<(String, JsonValue)>>,
) -> (r: ValidationRule)
    ensures
        rule_is(r@, id@, field@, rule_type, severity, message@),
        r.params == params,
{
    ValidationRule { rule_id: owned(id), field: owned(field), rule_type, severity, message: owned(message), params }
}

/// Parameters holding one value.
fn one_param(key: &str, value: JsonValue) -> (r: Option<Vec<(String, JsonValue)>>)
    ensures
        opt_entries(r) == Some(seq![(key@, value)]),
{
    let mut p: Vec<(String, JsonValue)> = Vec::new();
    p.push((owned(key), value));
    assert(entries_view(p@) =~= seq![(key@, value)]);
    Some(p)
}

/// Parameters holding two values.
fn two_params(k1: &str, v1: JsonValue, k2: &str, v2: JsonValue) -> (r: Option<Vec<(String, JsonValue)>>)
    ensures
        opt_entries(r) == Some(seq![(k1@, v1), (k2@, v2)]),
{
    let mut p: Vec<(String, JsonValue)> = Vec::new();
    p.push((owned(k1), v1));
    p.push((owned(k2), v2));
    assert(entries_view(p@) =~= seq![(k1@, v1), (k2@, v2)]);
    Some(p)
}

/// A cross-field rule comparing two fields with `<=`.
fn compare_rule(id: &str, a: &str, b: &str, severity: Severity, message: &str) -> (r: CrossFieldRule)
    ensures
        r@.rule_id == id@,
        r@.rule_type == CrossFieldRuleType::Compare,
        r@.fields == seq![a@, b@],
        r@.severity == severity,
        r@.message == message@,
        one_str_param(r@.params, "operator"@, "<="@),
{
    let mut fields: Vec<String> = Vec::new();
    fields.push(owned(a));
    fields.push(owned(b));
    assert(fields@.map_values(|f: String| f@) =~= seq![a@, b@]);
    CrossFieldRule {
        rule_id: owned(id),
        rule_type: CrossFieldRuleType::Compare,
        fields,
        severity,
        message: owned(message),
        params: one_param("operator", JsonValue::from_str("<=")),
    }
}

/// The list of currencies a v1 rulepack accepts.
fn currency_list() -> (r: TextList)
    ensures
        r.texts() == currency_codes(),
{
    let mut l = TextList::End;
    l = TextList::Item(owned("JPY"), Box::new(l));
    l = TextList::Item(owned("SGD"), Box::new(l));
    l = TextList::Item(owned("EUR"), Box::new(l));
    l = TextList::Item(owned("USD"), Box::new(l));
    l = TextList::Item(owned("IDR"), Box::new(l));
    proof {
        reveal_with_fuel(TextList::texts, 6);
        assert(l.texts() =~= currency_codes());
    }
    l
}

impl RulepackConfig {
    /// Create v1 rulepack (basic SLIK rules).
    pub fn v1() -> (r: Self)
        ensures
            is_v1_rulepack(r),
    {
        let mut rules: Vec<ValidationRule> = Vec::new();
        rules.push(make_rule("R001", "nik", RuleType::Required, Severity::Error, "NIK is required", None));
        rules.push(
            make_rule(
                "R002",
                "nik",
                RuleType::Length,
                Severity::Error,
                "NIK must be exactly 16 digits",
                two_params("min", JsonValue::from_u64(16), "max", JsonValue::from_u64(16)),
            ),
        );
        rules.push(
            make_rule("R003", "nama_lengkap", RuleType::Required, Severity::Error, "Full name is required", None),
        );
        rules.push(
            make_rule(
                "R004",
                "jumlah_kredit",
                RuleType::Range,
                Severity::Error,
                "Credit amount must be positive",
                one_param("min", JsonValue::from_u64(1)),
            ),
        );
        rules.push(
            make_rule(
                "R005",
                "kolektabilitas",
                RuleType::Range,
                Severity::Error,
                "Collectability must be between 1 and 5",
                two_params("min", JsonValue::from_u64(1), "max", JsonValue::from_u64(5)),
            ),
        );
        rules.push(
            make_rule(
                "R006",
                "mata_uang",
                RuleType::Enum,
                Severity::Error,
                "Currency must be a valid ISO 4217 code",
                one_param("values", JsonValue::Texts(currency_list())),
            ),
        );
        let mut cross: Vec<CrossFieldRule> = Vec::new();
        cross.push(
            compare_rule(
                "CF001",
                "tanggal_mulai",
                "tanggal_jatuh_tempo",
                Severity::Error,
                "Start date must be before maturity date",
            ),
        );
        cross.push(
            compare_rule(
                "CF002",
                "saldo_outstanding",
                "jumlah_kredit",
                Severity::Warning,
                "Outstanding balance should not exceed credit amount",
            ),
        );
        let r = RulepackConfig {
            version: owned("v1"),
            name: owned("SLIK Basic Rulepack v1"),
            description: owned("Basic validation rules for SLIK credit reporting"),
            rules,
            cross_field_rules: cross,
            created_at: owned("2023-01-15T00:00:00Z"),
            is_active: true,
        };
        assert(basic_rules(rules_view(r.rules@)));
        r
    }

    /// Create v2 rulepack (enhanced with additional checks): the v1 rules,
    /// then a date format rule and a branch code pattern rule.
    pub fn v2() -> (r: Self)
        ensures
            is_v2_rulepack(r),
    {
        let base = Self::v1();
        let ghost before = rules_view(base.rules@);
        let mut rules = base.rules;
        rules.push(
            make_rule(
                "R007",
                "tanggal_mulai",
                RuleType::DateFormat,
                Severity::Error,
                "Start date must be in YYYY-MM-DD format",
                one_param("format", JsonValue::from_str("%Y-%m-%d")),
            ),
        );
        rules.push(
            make_rule(
                "R008",
                "kode_cabang",
                RuleType::Pattern,
                Severity::Error,
                "Branch code must be 3 letters followed by 3 digits",
                one_param("pattern", JsonValue::from_str("^[A-Z]{3}\\d{3}$")),
            ),
        );
        proof {
            let after = rules_view(rules@);
            assert forall|i: int| 0 <= i < 6 implies after[i] == before[i] by {}
        }
        RulepackConfig {
            version: owned("v2"),
            name: owned("SLIK Enhanced Rulepack v2"),
            description: owned("Enhanced validation with additional regulatory checks"),
            rules,
            cross_field_rules: base.cross_field_rules,
            created_at: owned("2024-01-10T00:00:00Z"),
            is_active: true,
        }
    }

    /// Checks records against this rulepack's rules and cross-field rules.
    pub fn validate(&self, records: &Vec<JsonDocument>) -> (r: Vec<ValidationResult>)
        ensures
            r@.len() == records@.len(),
            forall|i: int|
                0 <= i < records@.len() ==> result_of(
                    #[trigger] r@[i],
                    i,
                    rules_view(self.rules@),
                    cross_view(self.cross_field_rules@),
                    records@[i],
                ),
    {
        validate_records(&self.rules, &self.cross_field_rules, records)
    }
}


// ============================================================================
// Simulator state
// ============================================================================

/// Rulepack summary for listing.
#[derive(Debug)]
pub struct RulepackSummary {
    pub version: String,
    pub name: String,
    pub rule_count: usize,
    pub cross_field_rule_count: usize,
    pub is_active: bool,
}

/// Request to create a new rulepack.
#[derive(Debug)]
pub struct CreateRulepackRequest {
    pub version: String,
    pub name: String,
    pub description: Option<String>,
    pub rules: Vec<ValidationRule>,
    pub cross_field_rules: Vec<CrossFieldRule>,
}

/// Internal state for the Rulepack Service simulator.
#[derive(Debug)]
pub struct RulepackServiceState {
    pub config: RulepackServiceConfig,
    /// The rulepacks, in the order they were added
    pub rulepacks: Vec<RulepackConfig>,
    pub stats: SimulatorStats,
    pub ready: bool,
}

/// The versions of a list of rulepacks.
pub open spec fn rulepack_versions(rps: Seq<RulepackConfig>) -> Seq<Seq<char>> {
    rps.map_values(|r: RulepackConfig| r.version@)
}

/// Whether a list of version names holds `v`.
pub open spec fn lists_version(versions: Seq<String>, v: Seq<char>) -> bool {
    exists|i: int| 0 <= i < versions.len() && (#[trigger] versions[i])@ == v
}

/// Whether `rps` are the rulepacks a service starts with: v1 when the
/// configuration lists it, then v2 when it lists it.
pub open spec fn default_rulepacks(config: RulepackServiceConfig, rps: Seq<RulepackConfig>) -> bool {
    let has1 = lists_version(config.available_versions@, "v1"@);
    let has2 = lists_version(config.available_versions@, "v2"@);
    &&& rps.len() == (if has1 { 1int } else { 0 }) + (if has2 { 1int } else { 0 })
    &&& has1 ==> is_v1_rulepack(rps[0])
    &&& has2 ==> is_v2_rulepack(rps[rps.len() - 1])
}

/// The summary of a rulepack.
pub open spec fn summary_matches(s: RulepackSummary, r: RulepackConfig) -> bool {
    &&& s.version@ == r.version@
    &&& s.name@ == r.name@
    &&& s.rule_count == r.rules@.len()
    &&& s.cross_field_rule_count == r.cross_field_rules@.len()
    &&& s.is_active == r.is_active
}

/// The rulepacks a listing shows among the first `n`: all of them, or only
/// the active ones.
pub open spec fn listed_rulepacks(rps: Seq<RulepackConfig>, active_only: bool, n: nat) -> Seq<RulepackConfig>
    decreases n,
{
    if n == 0 {
        Seq::empty()
    } else {
        let prev = listed_rulepacks(rps, active_only, (n - 1) as nat);
        if !active_only || rps[n - 1].is_active {
            prev.push(rps[n - 1])
        } else {
            prev
        }
    }
}

/// The message of a refused creation.
pub open spec fn conflict_message(version: Seq<char>) -> Seq<char> {
    "Rulepack version '"@ + version + "' already exists"@
}

/// The rulepack a creation request makes, with its creation time.
pub open spec fn created_rulepack(r: RulepackConfig, req: CreateRulepackRequest, created_at: Seq<char>) -> bool {
    &&& r.version == req.version
    &&& r.name == req.name
    &&& r.description@ == match req.description {
        Some(d) => d@,
        None => Seq::<char>::empty(),
    }
    &&& r.rules == req.rules
    &&& r.cross_field_rules == req.cross_field_rules
    &&& r.created_at@ == created_at
    &&& r.is_active
}

impl RulepackServiceState {
    /// Well-formedness: no two rulepacks share a version.
    pub open spec fn wf(self) -> bool {
        rulepack_versions(self.rulepacks@).no_duplicates()
    }

    /// The rulepack stored under `version`, if any.
    pub open spec fn spec_get(self, version: Seq<char>) -> Option<RulepackConfig> {
        match position_of(rulepack_versions(self.rulepacks@), version) {
            Some(i) => Some(self.rulepacks@[i]),
            None => None,
        }
    }

    /// The rulepacks a service with this configuration starts with.
    fn default_list(config: &RulepackServiceConfig) -> (r: Vec<RulepackConfig>)
        ensures
            default_rulepacks(*config, r@),
            rulepack_versions(r@).no_duplicates(),
    {
        let mut rps: Vec<RulepackConfig> = Vec::new();
        if contains_str(&config.available_versions, "v1") {
            rps.push(RulepackConfig::v1());
        }
        if contains_str(&config.available_versions, "v2") {
            rps.push(RulepackConfig::v2());
        }
        proof {
            let vs = rulepack_versions(rps@);
            assert forall|i: int, j: int| 0 <= i < vs.len() && 0 <= j < vs.len() && i != j implies vs[i] != vs[j] by {
                assert(vs[i] == rps@[i].version@ && vs[j] == rps@[j].version@);
                reveal_strlit("v1");
                reveal_strlit("v2");
                assert("v1"@[1] != "v2"@[1]);
            }
        }
        rps
    }

    /// A fresh state holding the configured default rulepacks.
    pub fn new(config: RulepackServiceConfig) -> (r: Self)
        ensures
            r.config == config,
            default_rulepacks(config, r.rulepacks@),
            !r.ready,
            r.stats.is_zero(),
            r.wf(),
    {
        let rulepacks = Self::default_list(&config);
        RulepackServiceState { config, rulepacks, stats: SimulatorStats::default(), ready: false }
    }

    /// The position of the rulepack stored under `version`.
    fn index_of(&self, version: &str) -> (r: Option<usize>)
        ensures
            r matches Some(i) ==> position_of(rulepack_versions(self.rulepacks@), version@) == Some(i as int),
            r is None ==> position_of(rulepack_versions(self.rulepacks@), version@) is None,
    {
        let ghost vs = rulepack_versions(self.rulepacks@);
        let mut i: usize = 0;
        assert(vs.skip(0) =~= vs);
        while i < self.rulepacks.len()
            invariant
                i <= self.rulepacks.len(),
                vs == rulepack_versions(self.rulepacks@),
                position_of(vs, version@) == (match position_of(vs.skip(i as int), version@) {
                    Some(j) => Some(j + i),
                    None => None::<int>,
                }),
            decreases self.rulepacks.len() - i,
        {
            assert(vs.skip(i as int)[0] == vs[i as int]);
            assert(vs.skip(i as int).drop_first() =~= vs.skip(i + 1));
            if str_eq(self.rulepacks[i].version.as_str(), version) {
                return Some(i);
            }
            i = i + 1;
        }
        None
    }

    /// Get a specific rulepack version.
    pub fn get_rulepack(&self, version: &str) -> (r: Option<&RulepackConfig>)
        ensures
            r matches Some(rp) ==> self.spec_get(version@) == Some(*rp),
            r is None ==> self.spec_get(version@) is None,
    {
        proof {
            lemma_position_of(rulepack_versions(self.rulepacks@), version@);
        }
        match self.index_of(version) {
            Some(i) => Some(&self.rulepacks[i]),
            None => None,
        }
    }

    /// Summaries of the rulepacks, all of them or only the active ones, in
    /// the order they were added.
    pub fn list_rulepacks(&self, params: &ListRulepacksParams) -> (r: Vec<RulepackSummary>)
        ensures
            ({
                let shown = listed_rulepacks(
                    self.rulepacks@,
                    params.active_only == Some(true),
                    self.rulepacks@.len() as nat,
                );
                &&& r@.len() == shown.len()
                &&& forall|k: int| 0 <= k < r@.len() ==> summary_matches(#[trigger] r@[k], shown[k])
            }),
    {
        let active_only = match params.active_only {
            Some(b) => b,
            None => false,
        };
        let mut out: Vec<RulepackSummary> = Vec::new();
        let mut i: usize = 0;
        while i < self.rulepacks.len()
            invariant
                i <= self.rulepacks.len(),
                active_only == (params.active_only == Some(true)),
                out@.len() == listed_rulepacks(self.rulepacks@, active_only, i as nat).len(),
                forall|k: int| 0 <= k < out@.len() ==> summary_matches(
                    #[trigger] out@[k],
                    listed_rulepacks(self.rulepacks@, active_only, i as nat)[k],
                ),
            decreases self.rulepacks.len() - i,
        {
            let rp = &self.rulepacks[i];
            if !active_only || rp.is_active {
                out.push(
                    RulepackSummary {
                        version: rp.version.clone(),
                        name: rp.name.clone(),
                        rule_count: rp.rules.len(),
                        cross_field_rule_count: rp.cross_field_rules.len(),
                        is_active: rp.is_active,
                    },
                );
            }
            i = i + 1;
        }
        out
    }

    /// Validate records against the rulepack stored under `version` (its
    /// cross-field rules too, when the configuration includes them): `None`
    /// when there is none.
    pub fn validate(&self, version: &str, records: &Vec<JsonDocument>) -> (r: Option<Vec<ValidationResult>>)
        ensures
            r is None <==> self.spec_get(version@) is None,
            r matches Some(results) ==> self.spec_get(version@) matches Some(rp) && results@.len() == records@.len()
                && forall|i: int|
                0 <= i < records@.len() ==> result_of(
                    #[trigger] results@[i],
                    i,
                    rules_view(rp.rules@),
                    if self.config.include_cross_field_rules {
                        cross_view(rp.cross_field_rules@)
                    } else {
                        Seq::empty()
                    },
                    records@[i],
                ),
    {
        match self.get_rulepack(version) {
            Some(rp) => {
                if self.config.include_cross_field_rules {
                    Some(rp.validate(records))
                } else {
                    let none: Vec<CrossFieldRule> = Vec::new();
                    assert(cross_view(none@) =~= Seq::<CrossRuleView>::empty());
                    Some(validate_records(&rp.rules, &none, records))
                }
            },
            None => None,
        }
    }

    /// Create a rulepack made at `created_at`: refused when its version is
    /// taken, otherwise added after the others.
    pub fn create_rulepack_at(&mut self, request: CreateRulepackRequest, created_at: String) -> (r: Result<(), ApiError>)
        requires
            old(self).wf(),
        ensures
            r is Err <==> old(self).spec_get(request.version@) is Some,
            r matches Err(e) ==> e.code@ == "CONFLICT"@ && e.message@ == conflict_message(request.version@)
                && e.details is None && *final(self) == *old(self),
            r is Ok ==> final(self).rulepacks@.len() == old(self).rulepacks@.len() + 1 && final(self).rulepacks@.take(
                old(self).rulepacks@.len() as int,
            ) == old(self).rulepacks@ && created_rulepack(
                final(self).rulepacks@.last(),
                request,
                created_at@,
            ) && final(self).config == old(self).config && final(self).stats == old(self).stats
                && final(self).ready == old(self).ready,
            r is Ok ==> final(self).spec_get(request.version@) == Some(final(self).rulepacks@.last()),
            final(self).wf(),
    {
        proof {
            lemma_position_of(rulepack_versions(self.rulepacks@), request.version@);
        }
        if self.index_of(request.version.as_str()).is_some() {
            let message = concat3("Rulepack version '", request.version.as_str(), "' already exists");
            return Err(ApiError { code: owned("CONFLICT"), message, details: None });
        }
        let description = match request.description {
            Some(d) => d,
            None => String::new(),
        };
        let ghost old_rps = self.rulepacks@;
        let rulepack = RulepackConfig {
            version: request.version,
            name: request.name,
            description,
            rules: request.rules,
            cross_field_rules: request.cross_field_rules,
            created_at,
            is_active: true,
        };
        self.rulepacks.push(rulepack);
        proof {
            let vs = rulepack_versions(self.rulepacks@);
            let ovs = rulepack_versions(old_rps);
            assert(vs == ovs.push(request.version@));
            assert(self.rulepacks@.take(old_rps.len() as int) =~= old_rps);
            assert forall|i: int, j: int| 0 <= i < vs.len() && 0 <= j < vs.len() && i != j implies vs[i] != vs[j] by {
                if i < ovs.len() && j < ovs.len() {
                    assert(vs[i] == ovs[i] && vs[j] == ovs[j]);
                } else if i < ovs.len() {
                    assert(vs[i] == ovs[i]);
                } else {
                    assert(vs[j] == ovs[j]);
                }
            }
            lemma_position_of_unique(vs, ovs.len() as int);
        }
        Ok(())
    }

    /// Create a rulepack stamped with the current time.
    pub fn create_rulepack(&mut self, request: CreateRulepackRequest) -> (r: Result<(), ApiError>)
        requires
            old(self).wf(),
        ensures
            r is Err <==> old(self).spec_get(request.version@) is Some,
            r matches Err(e) ==> e.code@ == "CONFLICT"@ && e.message@ == conflict_message(request.version@)
                && *final(self) == *old(self),
            r is Ok ==> final(self).rulepacks@.len() == old(self).rulepacks@.len() + 1 && final(self).rulepacks@.take(
                old(self).rulepacks@.len() as int,
            ) == old(self).rulepacks@ && (exists|t: Timestamp|
                valid_timestamp(t) && created_rulepack(
                    final(self).rulepacks@.last(),
                    request,
                    rfc3339_text(t.secs, t.nanos),
                )),
            r is Ok ==> final(self).config == old(self).config && final(self).stats == old(self).stats
                && final(self).ready == old(self).ready,
            r is Ok ==> final(self).spec_get(request.version@) == Some(final(self).rulepacks@.last()),
            final(self).wf(),
    {
        let t = now();
        let created_at = to_rfc3339(t);
        let ghost req = request;
        let r = self.create_rulepack_at(request, created_at);
        assert(r is Ok ==> valid_timestamp(t) && created_rulepack(self.rulepacks@.last(), req, rfc3339_text(t.secs, t.nanos)));
        r
    }

    /// Reset: statistics start over and the default rulepacks come back.
    pub fn reset(&mut self)
        ensures
            default_rulepacks(final(self).config, final(self).rulepacks@),
            final(self).config == old(self).config,
            final(self).ready == old(self).ready,
            final(self).stats.is_zero(),
            final(self).wf(),
    {
        self.stats = SimulatorStats::default();
        self.rulepacks = Self::default_list(&self.config);
    }
}

/// A rulepack created under a new version is found under that version, and
/// every rulepack there before is still found under its own.
pub proof fn law_created_rulepack_is_found(pre: RulepackServiceState, post: RulepackServiceState, version: Seq<char>, other: Seq<char>)
    requires
        pre.wf(),
        post.wf(),
        pre.spec_get(version) is None,
        post.rulepacks@.len() == pre.rulepacks@.len() + 1,
        post.rulepacks@.take(pre.rulepacks@.len() as int) == pre.rulepacks@,
        post.rulepacks@.last().version@ == version,
        other != version,
    ensures
        post.spec_get(version) == Some(post.rulepacks@.last()),
        post.spec_get(other) == pre.spec_get(other),
{
    let vs = rulepack_versions(post.rulepacks@);
    let ovs = rulepack_versions(pre.rulepacks@);
    assert forall|i: int| 0 <= i < ovs.len() implies vs[i] == ovs[i] by {
        assert(post.rulepacks@[i] == post.rulepacks@.take(pre.rulepacks@.len() as int)[i]);
    }
    lemma_position_of_unique(vs, ovs.len() as int);
    lemma_position_of(vs, other);
    lemma_position_of(ovs, other);
    match position_of(ovs, other) {
        Some(k) => {
            lemma_position_of_unique(vs, k);
            assert(post.rulepacks@[k] == pre.rulepacks@[k]) by {
                assert(post.rulepacks@[k] == post.rulepacks@.take(pre.rulepacks@.len() as int)[k]);
            }
        },
        None => {
            assert(vs[ovs.len() as int] == version);
        },
    }
}


/// How the rulepack listing answers an injected failure: always 500.
pub fn list_failure_reply(f: FailureType) -> (r: FailureReply)
    ensures
        r.delay_ms == 0 && r.status == 500 && r.code@ == "ERR500"@ && r.message@ == "Internal server error"@,
{
    failure_reply(0, 500, "ERR500", "Internal server error")
}

} // verus!
