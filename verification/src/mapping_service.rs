//! The mapping service: versioned field mappings from core banking records
//! to the SLIK reporting schema.

use vstd::prelude::*;
use crate::json::{JsonValue, entries_view, opt_entries, u64_number, i64_number};
use crate::clock::{Timestamp, valid_timestamp, rfc3339_text, now, to_rfc3339};
use crate::common::{ApiError, FailureReply, SimulatorStats, failure_reply};
use crate::config::{FailureType, MappingServiceConfig};
use crate::text::{
    opt_view, owned, push_str, str_eq, concat3, contains_str, decimal, decimal_string, signed_decimal,
    signed_decimal_string, position_of, lemma_position_of, lemma_position_of_unique,
};

verus! {

// ============================================================================
// Field mappings
// ============================================================================

/// Type of field mapping.
#[derive(Clone, Copy, Debug, PartialEq, Eq, Structural)]
pub enum FieldMappingType {
    /// Direct 1:1 field mapping
    Direct,
    /// Computed field from expression
    Computed,
    /// Concatenation of multiple fields
    Concat,
    /// Lookup from reference table
    Lookup,
    /// Constant value
    Constant,
}

/// Individual field mapping.
#[derive(Debug)]
pub struct FieldMapping {
    /// Source field name
    pub source_field: String,
    /// Target field name
    pub target_field: String,
    /// Mapping type
    pub mapping_type: FieldMappingType,
    /// Expression for computed fields
    pub expression: Option<String>,
    /// Default value if source is null/missing
    pub default_value: Option<String>,
    /// Whether this field is required
    pub required: bool,
    /// Field description
    pub description: Option<String>,
}

/// A field mapping with its texts taken by their characters.
pub struct FieldMappingView {
    pub source_field: Seq<char>,
    pub target_field: Seq<char>,
    pub mapping_type: FieldMappingType,
    pub expression: Option<Seq<char>>,
    pub default_value: Option<Seq<char>>,
    pub required: bool,
    pub description: Option<Seq<char>>,
}

impl View for FieldMapping {
    type V = FieldMappingView;

    open spec fn view(&self) -> FieldMappingView {
        FieldMappingView {
            source_field: self.source_field@,
            target_field: self.target_field@,
            mapping_type: self.mapping_type,
            expression: opt_view(self.expression),
            default_value: opt_view(self.default_value),
            required: self.required,
            description: opt_view(self.description),
        }
    }
}

/// A direct mapping from `source` to `target`.
pub open spec fn direct_view(source: Seq<char>, target: Seq<char>) -> FieldMappingView {
    FieldMappingView {
        source_field: source,
        target_field: target,
        mapping_type: FieldMappingType::Direct,
        expression: None,
        default_value: None,
        required: false,
        description: None,
    }
}

/// A computed mapping into `target` by `expression`.
pub open spec fn computed_view(target: Seq<char>, expression: Seq<char>) -> FieldMappingView {
    FieldMappingView {
        source_field: Seq::empty(),
        target_field: target,
        mapping_type: FieldMappingType::Computed,
        expression: Some(expression),
        default_value: None,
        required: false,
        description: None,
    }
}

/// A direct mapping with a default value.
pub open spec fn default_view(source: Seq<char>, target: Seq<char>, default: Seq<char>) -> FieldMappingView {
    FieldMappingView {
        source_field: source,
        target_field: target,
        mapping_type: FieldMappingType::Direct,
        expression: None,
        default_value: Some(default),
        required: false,
        description: None,
    }
}

impl FieldMapping {
    /// Create a direct field mapping (1:1).
    pub fn direct(source: &str, target: &str) -> (r: Self)
        ensures
            r@ == direct_view(source@, target@),
    {
        FieldMapping {
            source_field: owned(source),
            target_field: owned(target),
            mapping_type: FieldMappingType::Direct,
            expression: None,
            default_value: None,
            required: false,
            description: None,
        }
    }

    /// Create a computed field mapping.
    pub fn computed(target: &str, expression: &str) -> (r: Self)
        ensures
            r@ == computed_view(target@, expression@),
    {
        let source = String::new();
        assert(source@ =~= Seq::<char>::empty());
        FieldMapping {
            source_field: source,
            target_field: owned(target),
            mapping_type: FieldMappingType::Computed,
            expression: Some(owned(expression)),
            default_value: None,
            required: false,
            description: None,
        }
    }

    /// Create a field mapping with default value.
    pub fn with_default(source: &str, target: &str, default: &str) -> (r: Self)
        ensures
            r@ == default_view(source@, target@, default@),
    {
        FieldMapping {
            source_field: owned(source),
            target_field: owned(target),
            mapping_type: FieldMappingType::Direct,
            expression: None,
            default_value: Some(owned(default)),
            required: false,
            description: None,
        }
    }

    /// Set the field as required.
    pub fn required(self) -> (r: Self)
        ensures
            r@ == (FieldMappingView { required: true, ..self@ }),
    {
        FieldMapping { required: true, ..self }
    }

    /// Set the description.
    pub fn with_description(self, description: &str) -> (r: Self)
        ensures
            r@ == (FieldMappingView { description: Some(description@), ..self@ }),
    {
        FieldMapping { description: Some(owned(description)), ..self }
    }
}

// ============================================================================
// Transformations and validations
// ============================================================================

/// Transformation rule to apply to a field.
#[derive(Debug)]
pub struct TransformationRule {
    /// Rule name
    pub name: String,
    /// Target field to transform
    pub target_field: String,
    /// Transformation expression
    pub expression: String,
    /// Order of execution
    pub order: u32,
    /// Whether this transformation is enabled
    pub enabled: bool,
}

/// A transformation rule with its texts taken by their characters.
pub struct TransformationView {
    pub name: Seq<char>,
    pub target_field: Seq<char>,
    pub expression: Seq<char>,
    pub order: u32,
    pub enabled: bool,
}

impl View for TransformationRule {
    type V = TransformationView;

    open spec fn view(&self) -> TransformationView {
        TransformationView {
            name: self.name@,
            target_field: self.target_field@,
            expression: self.expression@,
            order: self.order,
            enabled: self.enabled,
        }
    }
}

/// An enabled transformation at order 0.
pub open spec fn transformation_view(name: Seq<char>, target: Seq<char>, expression: Seq<char>) -> TransformationView {
    TransformationView { name, target_field: target, expression, order: 0, enabled: true }
}

impl TransformationRule {
    /// An enabled transformation at order 0.
    pub fn new(name: &str, target_field: &str, expression: &str) -> (r: Self)
        ensures
            r@ == transformation_view(name@, target_field@, expression@),
    {
        TransformationRule {
            name: owned(name),
            target_field: owned(target_field),
            expression: owned(expression),
            order: 0,
            enabled: true,
        }
    }

    /// The same transformation at another order.
    pub fn with_order(self, order: u32) -> (r: Self)
        ensures
            r@ == (TransformationView { order, ..self@ }),
    {
        TransformationRule { order, ..self }
    }
}

/// Type of validation.
#[derive(Clone, Copy, Debug, PartialEq, Eq, Structural)]
pub enum ValidationType {
    Required,
    Length,
    Range,
    Pattern,
    Custom,
}

/// Validation rule for a mapping.
#[derive(Debug)]
pub struct MappingValidation {
    /// Validation type
    pub validation_type: ValidationType,
    /// Target field
    pub field: String,
    /// Validation parameters
    pub params: Option<Vec<(String, JsonValue)>>,
    /// Error message if validation fails
    pub error_message: String,
}

/// A mapping validation with its texts taken by their characters.
pub struct MappingValidationView {
    pub validation_type: ValidationType,
    pub field: Seq<char>,
    pub params: Option<Seq<(Seq<char>, JsonValue)>>,
    pub error_message: Seq<char>,
}

impl View for MappingValidation {
    type V = MappingValidationView;

    open spec fn view(&self) -> MappingValidationView {
        MappingValidationView {
            validation_type: self.validation_type,
            field: self.field@,
            params: opt_entries(self.params),
            error_message: self.error_message@,
        }
    }
}

/// `Field '<field>' is required`.
pub open spec fn required_message(field: Seq<char>) -> Seq<char> {
    "Field '"@ + field + "' is required"@
}

/// `Field '<field>' must be between <min> and <max> characters`.
pub open spec fn length_message(field: Seq<char>, min: nat, max: nat) -> Seq<char> {
    "Field '"@ + field + "' must be between "@ + decimal(min) + " and "@ + decimal(max) + " characters"@
}

/// `Field '<field>' must be between <min> and <max>`.
pub open spec fn range_message(field: Seq<char>, min: int, max: int) -> Seq<char> {
    "Field '"@ + field + "' must be between "@ + signed_decimal(min) + " and "@ + signed_decimal(max)
}

/// `Field '<field>' must match pattern '<pattern>'`.
pub open spec fn pattern_message(field: Seq<char>, pattern: Seq<char>) -> Seq<char> {
    "Field '"@ + field + "' must match pattern '"@ + pattern + "'"@
}

/// A required-field validation.
pub open spec fn required_validation(field: Seq<char>) -> MappingValidationView {
    MappingValidationView {
        validation_type: ValidationType::Required,
        field,
        params: None,
        error_message: required_message(field),
    }
}

/// A length validation between `min` and `max` characters.
pub open spec fn length_validation(field: Seq<char>, min: u32, max: u32) -> MappingValidationView {
    MappingValidationView {
        validation_type: ValidationType::Length,
        field,
        params: Some(
            seq![("min"@, JsonValue::Number(u64_number(min as u64))), ("max"@, JsonValue::Number(u64_number(max as u64)))],
        ),
        error_message: length_message(field, min as nat, max as nat),
    }
}

/// A range validation between `min` and `max`.
pub open spec fn range_validation(field: Seq<char>, min: i64, max: i64) -> MappingValidationView {
    MappingValidationView {
        validation_type: ValidationType::Range,
        field,
        params: Some(seq![("min"@, JsonValue::Number(i64_number(min))), ("max"@, JsonValue::Number(i64_number(max)))]),
        error_message: range_message(field, min as int, max as int),
    }
}

/// Whether a validation is the pattern validation of `field` by `pattern`.
pub open spec fn is_pattern_validation(v: MappingValidationView, field: Seq<char>, pattern: Seq<char>) -> bool {
    &&& v.validation_type == ValidationType::Pattern
    &&& v.field == field
    &&& v.params matches Some(e) && e.len() == 1 && e[0].0 == "pattern"@ && e[0].1.spec_as_str() == Some(pattern)
    &&& v.error_message == pattern_message(field, pattern)
}

impl MappingValidation {
    /// The field must be present.
    pub fn required(field: &str) -> (r: Self)
        ensures
            r@ == required_validation(field@),
    {
        let mut message = owned("Field '");
        push_str(&mut message, field);
        push_str(&mut message, "' is required");
        MappingValidation {
            validation_type: ValidationType::Required,
            field: owned(field),
            params: None,
            error_message: message,
        }
    }

    /// The field must be between `min` and `max` characters long.
    pub fn length(field: &str, min: u32, max: u32) -> (r: Self)
        ensures
            r@ == length_validation(field@, min, max),
    {
        let mut params: Vec<(String, JsonValue)> = Vec::new();
        params.push((owned("min"), JsonValue::from_u64(min as u64)));
        params.push((owned("max"), JsonValue::from_u64(max as u64)));
        assert(entries_view(params@) =~= seq![
            ("min"@, JsonValue::Number(u64_number(min as u64))),
            ("max"@, JsonValue::Number(u64_number(max as u64))),
        ]);
        let min_text = decimal_string(min as u64);
        let max_text = decimal_string(max as u64);
        let mut message = owned("Field '");
        push_str(&mut message, field);
        push_str(&mut message, "' must be between ");
        push_str(&mut message, min_text.as_str());
        push_str(&mut message, " and ");
        push_str(&mut message, max_text.as_str());
        push_str(&mut message, " characters");
        MappingValidation {
            validation_type: ValidationType::Length,
            field: owned(field),
            params: Some(params),
            error_message: message,
        }
    }

    /// The field must be between `min` and `max`.
    pub fn range(field: &str, min: i64, max: i64) -> (r: Self)
        ensures
            r@ == range_validation(field@, min, max),
    {
        let mut params: Vec<(String, JsonValue)> = Vec::new();
        params.push((owned("min"), JsonValue::from_i64(min)));
        params.push((owned("max"), JsonValue::from_i64(max)));
        assert(entries_view(params@) =~= seq![
            ("min"@, JsonValue::Number(i64_number(min))),
            ("max"@, JsonValue::Number(i64_number(max))),
        ]);
        let min_text = signed_decimal_string(min);
        let max_text = signed_decimal_string(max);
        let mut message = owned("Field '");
        push_str(&mut message, field);
        push_str(&mut message, "' must be between ");
        push_str(&mut message, min_text.as_str());
        push_str(&mut message, " and ");
        push_str(&mut message, max_text.as_str());
        MappingValidation {
            validation_type: ValidationType::Range,
            field: owned(field),
            params: Some(params),
            error_message: message,
        }
    }

    /// The field must match `pattern`.
    pub fn pattern(field: &str, pattern: &str) -> (r: Self)
        ensures
            is_pattern_validation(r@, field@, pattern@),
    {
        let mut params: Vec<(String, JsonValue)> = Vec::new();
        params.push((owned("pattern"), JsonValue::from_str(pattern)));
        let mut message = owned("Field '");
        push_str(&mut message, field);
        push_str(&mut message, "' must match pattern '");
        push_str(&mut message, pattern);
        push_str(&mut message, "'");
        MappingValidation {
            validation_type: ValidationType::Pattern,
            field: owned(field),
            params: Some(params),
            error_message: message,
        }
    }
}


// ============================================================================
// Mapping configurations
// ============================================================================

/// Mapping configuration for a specific version.
#[derive(Debug)]
pub struct MappingConfig {
    /// Version identifier (e.g., "v1", "v2")
    pub version: String,
    /// Display name
    pub name: String,
    /// Description
    pub description: String,
    /// Target schema version
    pub target_schema: String,
    /// Field mappings
    pub field_mappings: Vec<FieldMapping>,
    /// Transformation rules
    pub transformations: Vec<TransformationRule>,
    /// Validation rules for the mapping
    pub validation_rules: Vec<MappingValidation>,
    /// Creation timestamp
    pub created_at: String,
    /// Last update timestamp
    pub updated_at: String,
    /// Whether this mapping is active
    pub is_active: bool,
    /// Metadata
    pub metadata: Option<Vec<(String, JsonValue)>>,
}

/// The views of a list of field mappings.
pub open spec fn fields_view(v: Seq<FieldMapping>) -> Seq<FieldMappingView> {
    v.map_values(|f: FieldMapping| f@)
}

/// The views of a list of transformations.
pub open spec fn transformations_view(v: Seq<TransformationRule>) -> Seq<TransformationView> {
    v.map_values(|t: TransformationRule| t@)
}

/// The views of a list of mapping validations.
pub open spec fn validations_view(v: Seq<MappingValidation>) -> Seq<MappingValidationView> {
    v.map_values(|m: MappingValidation| m@)
}

/// The field mappings of the basic (v1) mapping.
pub open spec fn v1_fields() -> Seq<FieldMappingView> {
    seq![
        direct_view("id"@, "credit_id"@),
        direct_view("nik"@, "debtor_nik"@),
        direct_view("nama_lengkap"@, "debtor_name"@),
        direct_view("jenis_fasilitas"@, "facility_type"@),
        direct_view("jumlah_kredit"@, "credit_amount"@),
        direct_view("mata_uang"@, "currency"@),
        direct_view("suku_bunga"@, "interest_rate"@),
        direct_view("tanggal_mulai"@, "start_date"@),
        direct_view("tanggal_jatuh_tempo"@, "maturity_date"@),
        direct_view("saldo_outstanding"@, "outstanding_balance"@),
        direct_view("kolektabilitas"@, "collectability"@),
        direct_view("kode_cabang"@, "branch_code"@),
        direct_view("account_officer"@, "officer_id"@),
    ]
}

/// The transformations of the basic (v1) mapping.
pub open spec fn v1_transformations() -> Seq<TransformationView> {
    seq![
        transformation_view("uppercase"@, "debtor_name"@, "UPPER(value)"@),
        transformation_view("date_format"@, "start_date"@, "FORMAT(value, 'YYYYMMDD')"@),
        transformation_view("date_format"@, "maturity_date"@, "FORMAT(value, 'YYYYMMDD')"@),
    ]
}

/// The validations of the basic (v1) mapping.
pub open spec fn v1_validations() -> Seq<MappingValidationView> {
    seq![
        required_validation("debtor_nik"@),
        required_validation("debtor_name"@),
        required_validation("credit_amount"@),
    ]
}

/// The field mappings the enhanced (v2) mapping adds.
pub open spec fn v2_extra_fields() -> Seq<FieldMappingView> {
    seq![
        direct_view("last_updated"@, "last_update_timestamp"@),
        computed_view(
            "risk_category"@,
            "CASE WHEN kolektabilitas <= 2 THEN 'LOW' WHEN kolektabilitas <= 3 THEN 'MEDIUM' ELSE 'HIGH' END"@,
        ),
        computed_view("is_performing"@, "kolektabilitas <= 2"@),
        default_view("reporting_period"@, "period"@, "CURRENT_MONTH"@),
    ]
}

/// The transformations the enhanced (v2) mapping adds.
pub open spec fn v2_extra_transformations() -> Seq<TransformationView> {
    seq![
        transformation_view("trim"@, "debtor_nik"@, "TRIM(value)"@),
        transformation_view("numeric_format"@, "credit_amount"@, "FORMAT(value, '0.00')"@),
        transformation_view("numeric_format"@, "outstanding_balance"@, "FORMAT(value, '0.00')"@),
    ]
}

/// The validations the enhanced (v2) mapping adds.
pub open spec fn v2_extra_validations() -> Seq<MappingValidationView> {
    seq![
        required_validation("facility_type"@),
        required_validation("currency"@),
        range_validation("collectability"@, 1, 5),
    ]
}

/// The field mappings the regulatory (v3) mapping adds.
pub open spec fn v3_extra_fields() -> Seq<FieldMappingView> {
    seq![
        computed_view("reporting_bank_code"@, "'BANKXYZ'"@),
        computed_view("reporting_timestamp"@, "NOW()"@),
        computed_view("record_hash"@, "SHA256(CONCAT(credit_id, debtor_nik, credit_amount))"@),
        default_view("restructured_flag"@, "is_restructured"@, "N"@),
        default_view("write_off_flag"@, "is_write_off"@, "N"@),
    ]
}

/// The transformations the regulatory (v3) mapping adds.
pub open spec fn v3_extra_transformations() -> Seq<TransformationView> {
    seq![
        transformation_view("pad_left"@, "debtor_nik"@, "LPAD(value, 16, '0')"@),
        transformation_view("currency_normalize"@, "currency"@, "IF(value='IDR', 'IDR', 'FCY')"@),
    ]
}

/// The basic (v1) mapping.
pub open spec fn is_v1_mapping(m: MappingConfig) -> bool {
    &&& m.version@ == "v1"@
    &&& m.name@ == "SLIK Basic Mapping v1"@
    &&& m.description@ == "Basic field mapping for SLIK credit reporting"@
    &&& m.target_schema@ == "SLIK-2023"@
    &&& fields_view(m.field_mappings@) == v1_fields()
    &&& transformations_view(m.transformations@) == v1_transformations()
    &&& validations_view(m.validation_rules@) == v1_validations()
    &&& m.created_at@ == "2023-01-15T00:00:00Z"@
    &&& m.updated_at@ == "2023-06-20T00:00:00Z"@
    &&& m.is_active
    &&& m.metadata is None
}

/// The enhanced (v2) mapping: the v1 lists with more entries after them.
pub open spec fn is_v2_mapping(m: MappingConfig) -> bool {
    &&& m.version@ == "v2"@
    &&& m.name@ == "SLIK Enhanced Mapping v2"@
    &&& m.description@ == "Enhanced field mapping with additional fields and transformations"@
    &&& m.target_schema@ == "SLIK-2024"@
    &&& fields_view(m.field_mappings@) == v1_fields() + v2_extra_fields()
    &&& transformations_view(m.transformations@) == v1_transformations() + v2_extra_transformations()
    &&& validations_view(m.validation_rules@) == v1_validations() + v2_extra_validations()
    &&& m.created_at@ == "2024-01-10T00:00:00Z"@
    &&& m.updated_at@ == "2024-03-15T00:00:00Z"@
    &&& m.is_active
    &&& m.metadata is None
}

/// The regulatory (v3) mapping: the v2 lists with more entries after them.
pub open spec fn is_v3_mapping(m: MappingConfig) -> bool {
    let vs = validations_view(m.validation_rules@);
    &&& m.version@ == "v3"@
    &&& m.name@ == "SLIK Regulatory Mapping v3"@
    &&& m.description@ == "Regulatory compliance mapping with OJK required fields"@
    &&& m.target_schema@ == "SLIK-2024-REG"@
    &&& fields_view(m.field_mappings@) == v1_fields() + v2_extra_fields() + v3_extra_fields()
    &&& transformations_view(m.transformations@) == v1_transformations() + v2_extra_transformations()
        + v3_extra_transformations()
    &&& vs.len() == 8
    &&& vs.take(6) == v1_validations() + v2_extra_validations()
    &&& vs[6] == length_validation("debtor_nik"@, 16, 16)
    &&& is_pattern_validation(vs[7], "branch_code"@, "^[A-Z]{3}\\d{3}$"@)
    &&& m.created_at@ == "2024-06-01T00:00:00Z"@
    &&& m.updated_at@ == "2024-06-01T00:00:00Z"@
    &&& m.is_active
    &&& m.metadata is None
}

impl MappingConfig {
    /// Create v1 mapping configuration (basic mapping).
    pub fn v1() -> (r: Self)
        ensures
            is_v1_mapping(r),
    {
        let mut fields: Vec<FieldMapping> = Vec::new();
        fields.push(FieldMapping::direct("id", "credit_id"));
        fields.push(FieldMapping::direct("nik", "debtor_nik"));
        fields.push(FieldMapping::direct("nama_lengkap", "debtor_name"));
        fields.push(FieldMapping::direct("jenis_fasilitas", "facility_type"));
        fields.push(FieldMapping::direct("jumlah_kredit", "credit_amount"));
        fields.push(FieldMapping::direct("mata_uang", "currency"));
        fields.push(FieldMapping::direct("suku_bunga", "interest_rate"));
        fields.push(FieldMapping::direct("tanggal_mulai", "start_date"));
        fields.push(FieldMapping::direct("tanggal_jatuh_tempo", "maturity_date"));
        fields.push(FieldMapping::direct("saldo_outstanding", "outstanding_balance"));
        fields.push(FieldMapping::direct("kolektabilitas", "collectability"));
        fields.push(FieldMapping::direct("kode_cabang", "branch_code"));
        fields.push(FieldMapping::direct("account_officer", "officer_id"));
        assert(fields_view(fields@) =~= v1_fields());
        let mut transformations: Vec<TransformationRule> = Vec::new();
        transformations.push(TransformationRule::new("uppercase", "debtor_name", "UPPER(value)"));
        transformations.push(TransformationRule::new("date_format", "start_date", "FORMAT(value, 'YYYYMMDD')"));
        transformations.push(TransformationRule::new("date_format", "maturity_date", "FORMAT(value, 'YYYYMMDD')"));
        assert(transformations_view(transformations@) =~= v1_transformations());
        let mut validations: Vec<MappingValidation> = Vec::new();
        validations.push(MappingValidation::required("debtor_nik"));
        validations.push(MappingValidation::required("debtor_name"));
        validations.push(MappingValidation::required("credit_amount"));
        assert(validations_view(validations@) =~= v1_validations());
        MappingConfig {
            version: owned("v1"),
            name: owned("SLIK Basic Mapping v1"),
            description: owned("Basic field mapping for SLIK credit reporting"),
            target_schema: owned("SLIK-2023"),
            field_mappings: fields,
            transformations,
            validation_rules: validations,
            created_at: owned("2023-01-15T00:00:00Z"),
            updated_at: owned("2023-06-20T00:00:00Z"),
            is_active: true,
            metadata: None,
        }
    }

    /// Create v2 mapping configuration (enhanced with additional fields).
    pub fn v2() -> (r: Self)
        ensures
            is_v2_mapping(r),
    {
        let base = Self::v1();
        let mut fields = base.field_mappings;
        let ghost f0 = fields_view(fields@);
        fields.push(FieldMapping::direct("last_updated", "last_update_timestamp"));
        fields.push(
            FieldMapping::computed(
                "risk_category",
                "CASE WHEN kolektabilitas <= 2 THEN 'LOW' WHEN kolektabilitas <= 3 THEN 'MEDIUM' ELSE 'HIGH' END",
            ),
        );
        fields.push(FieldMapping::computed("is_performing", "kolektabilitas <= 2"));
        fields.push(FieldMapping::with_default("reporting_period", "period", "CURRENT_MONTH"));
        assert(fields_view(fields@) =~= f0 + v2_extra_fields());
        let mut transformations = base.transformations;
        let ghost t0 = transformations_view(transformations@);
        transformations.push(TransformationRule::new("trim", "debtor_nik", "TRIM(value)"));
        transformations.push(TransformationRule::new("numeric_format", "credit_amount", "FORMAT(value, '0.00')"));
        transformations.push(TransformationRule::new("numeric_format", "outstanding_balance", "FORMAT(value, '0.00')"));
        assert(transformations_view(transformations@) =~= t0 + v2_extra_transformations());
        let mut validations = base.validation_rules;
        let ghost v0 = validations_view(validations@);
        validations.push(MappingValidation::required("facility_type"));
        validations.push(MappingValidation::required("currency"));
        validations.push(MappingValidation::range("collectability", 1, 5));
        assert(validations_view(validations@) =~= v0 + v2_extra_validations());
        MappingConfig {
            version: owned("v2"),
            name: owned("SLIK Enhanced Mapping v2"),
            description: owned("Enhanced field mapping with additional fields and transformations"),
            target_schema: owned("SLIK-2024"),
            field_mappings: fields,
            transformations,
            validation_rules: validations,
            created_at: owned("2024-01-10T00:00:00Z"),
            updated_at: owned("2024-03-15T00:00:00Z"),
            is_active: true,
            metadata: None,
        }
    }

    /// Create v3 mapping configuration (with regulatory compliance fields).
    pub fn v3() -> (r: Self)
        ensures
            is_v3_mapping(r),
    {
        let base = Self::v2();
        let mut fields = base.field_mappings;
        let ghost f0 = fields_view(fields@);
        fields.push(FieldMapping::computed("reporting_bank_code", "'BANKXYZ'"));
        fields.push(FieldMapping::computed("reporting_timestamp", "NOW()"));
        fields.push(FieldMapping::computed("record_hash", "SHA256(CONCAT(credit_id, debtor_nik, credit_amount))"));
        fields.push(FieldMapping::with_default("restructured_flag", "is_restructured", "N"));
        fields.push(FieldMapping::with_default("write_off_flag", "is_write_off", "N"));
        assert(fields_view(fields@) =~= f0 + v3_extra_fields());
        let mut transformations = base.transformations;
        let ghost t0 = transformations_view(transformations@);
        transformations.push(TransformationRule::new("pad_left", "debtor_nik", "LPAD(value, 16, '0')"));
        transformations.push(TransformationRule::new("currency_normalize", "currency", "IF(value='IDR', 'IDR', 'FCY')"));
        assert(transformations_view(transformations@) =~= t0 + v3_extra_transformations());
        let mut validations = base.validation_rules;
        let ghost v0 = validations_view(validations@);
        validations.push(MappingValidation::length("debtor_nik", 16, 16));
        validations.push(MappingValidation::pattern("branch_code", "^[A-Z]{3}\\d{3}$"));
        let ghost vs = validations_view(validations@);
        assert(vs.take(6) =~= v0);
        assert(vs[6] == validations@[6]@);
        assert(vs[7] == validations@[7]@);
        MappingConfig {
            version: owned("v3"),
            name: owned("SLIK Regulatory Mapping v3"),
            description: owned("Regulatory compliance mapping with OJK required fields"),
            target_schema: owned("SLIK-2024-REG"),
            field_mappings: fields,
            transformations,
            validation_rules: validations,
            created_at: owned("2024-06-01T00:00:00Z"),
            updated_at: owned("2024-06-01T00:00:00Z"),
            is_active: true,
            metadata: None,
        }
    }
}


// ============================================================================
// Simulator state
// ============================================================================

/// Query parameters for listing mappings.
#[derive(Debug)]
pub struct ListMappingsParams {
    pub active_only: Option<bool>,
}

/// Request to create a new mapping.
#[derive(Debug)]
pub struct CreateMappingRequest {
    pub version: String,
    pub name: String,
    pub description: Option<String>,
    pub field_mappings: Vec<FieldMapping>,
}

/// Summary of a mapping for listing.
#[derive(Debug)]
pub struct MappingSummary {
    pub version: String,
    pub name: String,
    pub target_schema: String,
    pub field_count: usize,
    pub is_active: bool,
    pub updated_at: String,
}

/// Internal state for the Mapping Service simulator.
#[derive(Debug)]
pub struct MappingServiceState {
    pub config: MappingServiceConfig,
    /// The mappings, in the order they were added
    pub mappings: Vec<MappingConfig>,
    pub stats: SimulatorStats,
    pub ready: bool,
}

/// The versions of a list of mappings.
pub open spec fn mapping_versions(ms: Seq<MappingConfig>) -> Seq<Seq<char>> {
    ms.map_values(|m: MappingConfig| m.version@)
}

/// Whether a list of version names holds `v`.
pub open spec fn lists_version(versions: Seq<String>, v: Seq<char>) -> bool {
    exists|i: int| 0 <= i < versions.len() && (#[trigger] versions[i])@ == v
}

/// Whether `ms` are the mappings a service starts with: v1, v2 and v3, in
/// that order, each when the configuration lists it.
pub open spec fn default_mappings(config: MappingServiceConfig, ms: Seq<MappingConfig>) -> bool {
    let has1 = lists_version(config.available_versions@, "v1"@);
    let has2 = lists_version(config.available_versions@, "v2"@);
    let has3 = lists_version(config.available_versions@, "v3"@);
    let n1: int = if has1 { 1 } else { 0 };
    let n2: int = if has2 { 1 } else { 0 };
    &&& ms.len() == n1 + n2 + (if has3 { 1int } else { 0 })
    &&& has1 ==> is_v1_mapping(ms[0])
    &&& has2 ==> is_v2_mapping(ms[n1])
    &&& has3 ==> is_v3_mapping(ms[n1 + n2])
}

/// Whether `s` summarises the mapping `m`.
pub open spec fn mapping_summary_of(s: MappingSummary, m: MappingConfig) -> bool {
    &&& s.version@ == m.version@
    &&& s.name@ == m.name@
    &&& s.target_schema@ == m.target_schema@
    &&& s.field_count == m.field_mappings@.len()
    &&& s.is_active == m.is_active
    &&& s.updated_at@ == m.updated_at@
}

/// The mappings a listing shows among the first `n`: all of them, or only
/// the active ones.
pub open spec fn listed_mappings(ms: Seq<MappingConfig>, active_only: bool, n: nat) -> Seq<MappingConfig>
    decreases n,
{
    if n == 0 {
        Seq::empty()
    } else {
        let prev = listed_mappings(ms, active_only, (n - 1) as nat);
        if !active_only || ms[n - 1].is_active {
            prev.push(ms[n - 1])
        } else {
            prev
        }
    }
}

/// The message of a refused creation.
pub open spec fn mapping_conflict_message(version: Seq<char>) -> Seq<char> {
    "Mapping version '"@ + version + "' already exists"@
}

/// The mapping a creation request makes, stamped `at`.
pub open spec fn created_mapping(m: MappingConfig, req: CreateMappingRequest, at: Seq<char>) -> bool {
    &&& m.version == req.version
    &&& m.name == req.name
    &&& m.description@ == match req.description {
        Some(d) => d@,
        None => Seq::<char>::empty(),
    }
    &&& m.target_schema@ == "SLIK-CUSTOM"@
    &&& m.field_mappings == req.field_mappings
    &&& m.transformations@.len() == 0
    &&& m.validation_rules@.len() == 0
    &&& m.created_at@ == at
    &&& m.updated_at@ == at
    &&& m.is_active
    &&& m.metadata is None
}

impl MappingServiceState {
    /// Well-formedness: no two mappings share a version.
    pub open spec fn wf(self) -> bool {
        mapping_versions(self.mappings@).no_duplicates()
    }

    /// The mapping stored under `version`, if any.
    pub open spec fn spec_get(self, version: Seq<char>) -> Option<MappingConfig> {
        match position_of(mapping_versions(self.mappings@), version) {
            Some(i) => Some(self.mappings@[i]),
            None => None,
        }
    }

    /// The mappings a service with this configuration starts with.
    fn default_list(config: &MappingServiceConfig) -> (r: Vec<MappingConfig>)
        ensures
            default_mappings(*config, r@),
            mapping_versions(r@).no_duplicates(),
    {
        let mut ms: Vec<MappingConfig> = Vec::new();
        let has1 = contains_str(&config.available_versions, "v1");
        let has2 = contains_str(&config.available_versions, "v2");
        let has3 = contains_str(&config.available_versions, "v3");
        if has1 {
            ms.push(MappingConfig::v1());
        }
        if has2 {
            ms.push(MappingConfig::v2());
        }
        if has3 {
            ms.push(MappingConfig::v3());
        }
        proof {
            reveal_strlit("v1");
            reveal_strlit("v2");
            reveal_strlit("v3");
            let vs = mapping_versions(ms@);
            assert forall|i: int, j: int| 0 <= i < vs.len() && 0 <= j < vs.len() && i != j implies vs[i] != vs[j] by {
                assert(vs[i] == ms@[i].version@ && vs[j] == ms@[j].version@);
                assert(vs[i][1] != vs[j][1]);
            }
        }
        ms
    }

    /// A fresh state holding the configured default mappings.
    pub fn new(config: MappingServiceConfig) -> (r: Self)
        ensures
            r.config == config,
            default_mappings(config, r.mappings@),
            !r.ready,
            r.stats.is_zero(),
            r.wf(),
    {
        let mappings = Self::default_list(&config);
        MappingServiceState { config, mappings, stats: SimulatorStats::default(), ready: false }
    }

    /// The position of the mapping stored under `version`.
    fn index_of(&self, version: &str) -> (r: Option<usize>)
        ensures
            r matches Some(i) ==> position_of(mapping_versions(self.mappings@), version@) == Some(i as int)
                && i < self.mappings@.len(),
            r is None ==> position_of(mapping_versions(self.mappings@), version@) is None,
    {
        let ghost vs = mapping_versions(self.mappings@);
        proof {
            lemma_position_of(vs, version@);
        }
        let mut i: usize = 0;
        assert(vs.skip(0) =~= vs);
        while i < self.mappings.len()
            invariant
                i <= self.mappings.len(),
                vs == mapping_versions(self.mappings@),
                position_of(vs, version@) == (match position_of(vs.skip(i as int), version@) {
                    Some(j) => Some(j + i),
                    None => None::<int>,
                }),
            decreases self.mappings.len() - i,
        {
            assert(vs.skip(i as int)[0] == vs[i as int]);
            assert(vs.skip(i as int).drop_first() =~= vs.skip(i + 1));
            if str_eq(self.mappings[i].version.as_str(), version) {
                return Some(i);
            }
            i = i + 1;
        }
        None
    }

    /// Get a specific mapping version.
    pub fn get_mapping(&self, version: &str) -> (r: Option<&MappingConfig>)
        ensures
            r matches Some(m) ==> self.spec_get(version@) == Some(*m),
            r is None ==> self.spec_get(version@) is None,
    {
        match self.index_of(version) {
            Some(i) => Some(&self.mappings[i]),
            None => None,
        }
    }

    /// The field mappings of a version.
    pub fn mapping_fields(&self, version: &str) -> (r: Option<&Vec<FieldMapping>>)
        ensures
            r matches Some(f) ==> self.spec_get(version@) matches Some(m) && *f == m.field_mappings,
            r is None ==> self.spec_get(version@) is None,
    {
        match self.get_mapping(version) {
            Some(m) => Some(&m.field_mappings),
            None => None,
        }
    }

    /// Whether a mapping version exists, and whether it is active.
    pub fn validate_mapping(&self, version: &str) -> (r: (bool, bool))
        ensures
            r.0 == self.spec_get(version@) is Some,
            r.1 == (self.spec_get(version@) matches Some(m) && m.is_active),
    {
        match self.get_mapping(version) {
            Some(m) => (true, m.is_active),
            None => (false, false),
        }
    }

    /// Add a mapping, replacing the one with the same version if there is one.
    pub fn add_mapping(&mut self, mapping: MappingConfig)
        requires
            old(self).wf(),
        ensures
            ({
                let vs = mapping_versions(old(self).mappings@);
                match position_of(vs, mapping.version@) {
                    Some(i) => final(self).mappings@ == old(self).mappings@.update(i, mapping),
                    None => final(self).mappings@ == old(self).mappings@.push(mapping),
                }
            }),
            final(self).spec_get(mapping.version@) == Some(mapping),
            final(self).config == old(self).config,
            final(self).stats == old(self).stats,
            final(self).ready == old(self).ready,
            final(self).wf(),
    {
        let ghost old_ms = self.mappings@;
        let ghost ovs = mapping_versions(old_ms);
        let ghost v = mapping.version@;
        proof {
            lemma_position_of(ovs, v);
        }
        match self.index_of(mapping.version.as_str()) {
            Some(i) => {
                self.mappings.set(i, mapping);
                proof {
                    let vs = mapping_versions(self.mappings@);
                    assert(vs =~= ovs.update(i as int, v));
                    assert(vs =~= ovs);
                    lemma_position_of_unique(vs, i as int);
                }
            },
            None => {
                self.mappings.push(mapping);
                proof {
                    let vs = mapping_versions(self.mappings@);
                    assert(vs =~= ovs.push(v));
                    assert forall|a: int, b: int| 0 <= a < vs.len() && 0 <= b < vs.len() && a != b implies vs[a]
                        != vs[b] by {
                        if a < ovs.len() && b < ovs.len() {
                            assert(vs[a] == ovs[a] && vs[b] == ovs[b]);
                        } else if a < ovs.len() {
                            assert(vs[a] == ovs[a]);
                        } else {
                            assert(vs[b] == ovs[b]);
                        }
                    }
                    lemma_position_of_unique(vs, ovs.len() as int);
                }
            },
        }
    }

    /// Summaries of the mappings, all of them or only the active ones, in
    /// the order they were added.
    pub fn list_mappings(&self, params: &ListMappingsParams) -> (r: Vec<MappingSummary>)
        ensures
            ({
                let shown = listed_mappings(
                    self.mappings@,
                    params.active_only == Some(true),
                    self.mappings@.len() as nat,
                );
                &&& r@.len() == shown.len()
                &&& forall|k: int| 0 <= k < r@.len() ==> mapping_summary_of(#[trigger] r@[k], shown[k])
            }),
    {
        let active_only = match params.active_only {
            Some(b) => b,
            None => false,
        };
        let mut out: Vec<MappingSummary> = Vec::new();
        let mut i: usize = 0;
        while i < self.mappings.len()
            invariant
                i <= self.mappings.len(),
                active_only == (params.active_only == Some(true)),
                out@.len() == listed_mappings(self.mappings@, active_only, i as nat).len(),
                forall|k: int| 0 <= k < out@.len() ==> mapping_summary_of(
                    #[trigger] out@[k],
                    listed_mappings(self.mappings@, active_only, i as nat)[k],
                ),
            decreases self.mappings.len() - i,
        {
            let m = &self.mappings[i];
            if !active_only || m.is_active {
                out.push(
                    MappingSummary {
                        version: m.version.clone(),
                        name: m.name.clone(),
                        target_schema: m.target_schema.clone(),
                        field_count: m.field_mappings.len(),
                        is_active: m.is_active,
                        updated_at: m.updated_at.clone(),
                    },
                );
            }
            i = i + 1;
        }
        out
    }

    /// Create a mapping stamped `at`: refused when its version is taken,
    /// otherwise added after the others with the custom target schema.
    pub fn create_mapping_at(&mut self, request: CreateMappingRequest, at: String) -> (r: Result<(), ApiError>)
        requires
            old(self).wf(),
        ensures
            r is Err <==> old(self).spec_get(request.version@) is Some,
            r matches Err(e) ==> e.code@ == "CONFLICT"@ && e.message@ == mapping_conflict_message(request.version@)
                && e.details is None && *final(self) == *old(self),
            r is Ok ==> final(self).mappings@.len() == old(self).mappings@.len() + 1 && final(self).mappings@.take(
                old(self).mappings@.len() as int,
            ) == old(self).mappings@ && created_mapping(final(self).mappings@.last(), request, at@)
                && final(self).config == old(self).config && final(self).stats == old(self).stats
                && final(self).ready == old(self).ready,
            r is Ok ==> final(self).spec_get(request.version@) == Some(final(self).mappings@.last()),
            final(self).wf(),
    {
        proof {
            lemma_position_of(mapping_versions(self.mappings@), request.version@);
        }
        if self.index_of(request.version.as_str()).is_some() {
            let message = concat3("Mapping version '", request.version.as_str(), "' already exists");
            return Err(ApiError { code: owned("CONFLICT"), message, details: None });
        }
        let description = match request.description {
            Some(d) => d,
            None => String::new(),
        };
        let ghost old_ms = self.mappings@;
        let updated_at = at.clone();
        let mapping = MappingConfig {
            version: request.version,
            name: request.name,
            description,
            target_schema: owned("SLIK-CUSTOM"),
            field_mappings: request.field_mappings,
            transformations: Vec::new(),
            validation_rules: Vec::new(),
            created_at: at,
            updated_at,
            is_active: true,
            metadata: None,
        };
        self.mappings.push(mapping);
        proof {
            let vs = mapping_versions(self.mappings@);
            let ovs = mapping_versions(old_ms);
            assert(vs == ovs.push(request.version@));
            assert(self.mappings@.take(old_ms.len() as int) =~= old_ms);
            assert forall|i: int, j: int| 0 <= i < vs.len() && 0 <= j < vs.len() && i != j implies vs[i] != vs[j] by {
                if i < ovs.len() && j < ovs.len() {
                    assert(vs[i] == ovs[i] && vs[j] == ovs[j]);
                } else if i < ovs.len() {
                    assert(vs[i] == ovs[i]);
                } else {
                    assert(vs[j] == ovs[j]);
                }
            }
            lemma_position_of_unique(vs, ovs.len() as int);
        }
        Ok(())
    }

    /// Create a mapping stamped with the current time.
    pub fn create_mapping(&mut self, request: CreateMappingRequest) -> (r: Result<(), ApiError>)
        requires
            old(self).wf(),
        ensures
            r is Err <==> old(self).spec_get(request.version@) is Some,
            r matches Err(e) ==> e.code@ == "CONFLICT"@ && e.message@ == mapping_conflict_message(request.version@)
                && *final(self) == *old(self),
            r is Ok ==> final(self).mappings@.len() == old(self).mappings@.len() + 1 && final(self).mappings@.take(
                old(self).mappings@.len() as int,
            ) == old(self).mappings@ && (exists|t: Timestamp|
                valid_timestamp(t) && created_mapping(final(self).mappings@.last(), request, rfc3339_text(t.secs, t.nanos))),
            r is Ok ==> final(self).config == old(self).config && final(self).stats == old(self).stats
                && final(self).ready == old(self).ready,
            r is Ok ==> final(self).spec_get(request.version@) == Some(final(self).mappings@.last()),
            final(self).wf(),
    {
        let t = now();
        let at = to_rfc3339(t);
        let ghost req = request;
        let r = self.create_mapping_at(request, at);
        assert(r is Ok ==> valid_timestamp(t) && created_mapping(self.mappings@.last(), req, rfc3339_text(t.secs, t.nanos)));
        r
    }

    /// Reset: statistics start over and the default mappings come back.
    pub fn reset(&mut self)
        ensures
            default_mappings(final(self).config, final(self).mappings@),
            final(self).config == old(self).config,
            final(self).ready == old(self).ready,
            final(self).stats.is_zero(),
            final(self).wf(),
    {
        self.stats = SimulatorStats::default();
        self.mappings = Self::default_list(&self.config);
    }
}

/// A mapping added under a version is what a lookup of that version gives
/// afterwards, and lookups of other versions are unchanged.
pub proof fn law_added_mapping_is_found(pre: MappingServiceState, mapping: MappingConfig, post: MappingServiceState, other: Seq<char>)
    requires
        pre.wf(),
        post.wf(),
        match position_of(mapping_versions(pre.mappings@), mapping.version@) {
            Some(i) => post.mappings@ == pre.mappings@.update(i, mapping),
            None => post.mappings@ == pre.mappings@.push(mapping),
        },
        other != mapping.version@,
    ensures
        post.spec_get(mapping.version@) == Some(mapping),
        post.spec_get(other) == pre.spec_get(other),
{
    let ovs = mapping_versions(pre.mappings@);
    let vs = mapping_versions(post.mappings@);
    lemma_position_of(ovs, mapping.version@);
    lemma_position_of(ovs, other);
    let k = match position_of(ovs, mapping.version@) {
        Some(i) => i,
        None => ovs.len() as int,
    };
    assert(vs[k] == mapping.version@);
    assert forall|j: int| 0 <= j < ovs.len() && j != k implies vs[j] == ovs[j] && post.mappings@[j] == pre.mappings@[j] by {}
    lemma_position_of_unique(vs, k);
    match position_of(ovs, other) {
        Some(j) => {
            lemma_position_of_unique(ovs, j);
            lemma_position_of_unique(vs, j);
        },
        None => {
            lemma_position_of(vs, other);
            if let Some(j) = position_of(vs, other) {
                if j != k {
                    assert(vs[j] == ovs[j]);
                }
            }
        },
    }
}


/// How the mapping listing answers an injected failure: 503 for an
/// unavailable service, 500 otherwise.
pub fn list_failure_reply(f: FailureType) -> (r: FailureReply)
    ensures
        r.delay_ms == 0,
        f == FailureType::ServiceUnavailable ==> r.status == 503 && r.code@ == "ERR503"@ && r.message@
            == "Service unavailable"@,
        f != FailureType::ServiceUnavailable ==> r.status == 500 && r.code@ == "ERR500"@ && r.message@
            == "Internal server error"@,
{
    match f {
        FailureType::ServiceUnavailable => failure_reply(0, 503, "ERR503", "Service unavailable"),
        _ => failure_reply(0, 500, "ERR500", "Internal server error"),
    }
}

/// How a mapping lookup answers an injected failure: always 500.
pub fn get_failure_reply(f: FailureType) -> (r: FailureReply)
    ensures
        r.delay_ms == 0 && r.status == 500 && r.code@ == "ERR500"@ && r.message@ == "Internal server error"@,
{
    failure_reply(0, 500, "ERR500", "Internal server error")
}

} // verus!
