use credit_data_simulator::config::MappingServiceConfig;
use credit_data_simulator::mapping_service::{
    CreateMappingRequest, FieldMapping, FieldMappingType, ListMappingsParams, MappingConfig, MappingServiceState,
    MappingValidation, TransformationRule, ValidationType, list_failure_reply,
};
use credit_data_simulator::config::FailureType;
use credit_data_simulator::json::JsonValue;

fn param<'a>(params: &'a Option<Vec<(String, JsonValue)>>, key: &str) -> Option<&'a JsonValue> {
    params.as_ref().unwrap().iter().find(|(k, _)| k == key).map(|(_, v)| v)
}

#[test]
fn test_mapping_config_v1() {
    let mapping = MappingConfig::v1();
    assert_eq!(mapping.version, "v1");
    assert_eq!(mapping.target_schema, "SLIK-2023");
    assert!(!mapping.field_mappings.is_empty());
    assert!(mapping.is_active);
}

#[test]
fn test_mapping_config_v2() {
    let mapping = MappingConfig::v2();
    assert_eq!(mapping.version, "v2");
    assert_eq!(mapping.target_schema, "SLIK-2024");
    assert!(mapping.field_mappings.len() > MappingConfig::v1().field_mappings.len());
}

#[test]
fn test_mapping_config_v3() {
    let mapping = MappingConfig::v3();
    assert_eq!(mapping.version, "v3");
    assert_eq!(mapping.target_schema, "SLIK-2024-REG");
    assert!(mapping.field_mappings.iter().any(|f| f.target_field == "record_hash"));
}

#[test]
fn test_field_mapping_direct() {
    let mapping = FieldMapping::direct("source", "target");
    assert_eq!(mapping.source_field, "source");
    assert_eq!(mapping.target_field, "target");
    assert_eq!(mapping.mapping_type, FieldMappingType::Direct);
    assert!(mapping.expression.is_none());
}

#[test]
fn test_field_mapping_computed() {
    let mapping = FieldMapping::computed("target", "UPPER(value)");
    assert_eq!(mapping.target_field, "target");
    assert_eq!(mapping.mapping_type, FieldMappingType::Computed);
    assert_eq!(mapping.expression, Some("UPPER(value)".to_string()));
}

#[test]
fn test_field_mapping_with_default() {
    let mapping = FieldMapping::with_default("source", "target", "DEFAULT");
    assert_eq!(mapping.default_value, Some("DEFAULT".to_string()));
}

#[test]
fn test_mapping_validation_required() {
    let validation = MappingValidation::required("field_name");
    assert_eq!(validation.validation_type, ValidationType::Required);
    assert_eq!(validation.field, "field_name");
}

#[test]
fn test_mapping_validation_length() {
    let validation = MappingValidation::length("nik", 16, 16);
    assert_eq!(validation.validation_type, ValidationType::Length);
    assert_eq!(param(&validation.params, "min").and_then(|v| v.as_u64()), Some(16));
    assert_eq!(param(&validation.params, "max").and_then(|v| v.as_u64()), Some(16));
}

#[test]
fn test_mapping_validation_range() {
    let validation = MappingValidation::range("collectability", 1, 5);
    assert_eq!(validation.validation_type, ValidationType::Range);
    assert_eq!(param(&validation.params, "min").and_then(|v| v.as_u64()), Some(1));
    assert_eq!(param(&validation.params, "max").and_then(|v| v.as_u64()), Some(5));
}

#[test]
fn test_transformation_rule() {
    let rule = TransformationRule::new("uppercase", "name", "UPPER(value)").with_order(1);
    assert_eq!(rule.name, "uppercase");
    assert_eq!(rule.target_field, "name");
    assert_eq!(rule.order, 1);
    assert!(rule.enabled);
}

#[test]
fn test_state_initialization() {
    let config = MappingServiceConfig::default();
    let state = MappingServiceState::new(config);
    assert!(state.get_mapping("v1").is_some());
    assert!(state.get_mapping("v2").is_some());
}

#[test]
fn validation_messages_spell_out_the_bounds() {
    assert_eq!(MappingValidation::required("nik").error_message, "Field 'nik' is required");
    assert_eq!(
        MappingValidation::length("nik", 16, 16).error_message,
        "Field 'nik' must be between 16 and 16 characters"
    );
    assert_eq!(MappingValidation::range("x", -3, 5).error_message, "Field 'x' must be between -3 and 5");
    assert_eq!(
        MappingValidation::pattern("branch_code", "^[A-Z]{3}$").error_message,
        "Field 'branch_code' must match pattern '^[A-Z]{3}$'"
    );
}

#[test]
fn field_mapping_builders_set_one_field() {
    let m = FieldMapping::direct("a", "b").required().with_description("desc");
    assert!(m.required);
    assert_eq!(m.description, Some("desc".to_string()));
    assert_eq!(FieldMapping::computed("t", "e").source_field, "");
}

#[test]
fn created_mapping_is_found_and_conflicts_are_refused() {
    let mut state = MappingServiceState::new(MappingServiceConfig::default());
    let req = CreateMappingRequest {
        version: "v9".to_string(),
        name: "custom".to_string(),
        description: None,
        field_mappings: vec![FieldMapping::direct("a", "b")],
    };
    assert!(state.create_mapping(req).is_ok());
    let m = state.get_mapping("v9").unwrap();
    assert_eq!(m.target_schema, "SLIK-CUSTOM");
    assert_eq!(m.description, "");
    assert_eq!(m.created_at, m.updated_at);
    let again = CreateMappingRequest {
        version: "v1".to_string(),
        name: "dup".to_string(),
        description: None,
        field_mappings: vec![],
    };
    let err = state.create_mapping(again).unwrap_err();
    assert_eq!(err.code, "CONFLICT");
    assert_eq!(err.message, "Mapping version 'v1' already exists");
    assert_eq!(state.validate_mapping("v9"), (true, true));
    assert_eq!(state.validate_mapping("nope"), (false, false));
}

#[test]
fn listing_and_reset_restore_defaults() {
    let mut state = MappingServiceState::new(MappingServiceConfig::default());
    let mut extra = MappingConfig::v1();
    extra.version = "v7".to_string();
    extra.is_active = false;
    state.add_mapping(extra);
    let all = state.list_mappings(&ListMappingsParams { active_only: None });
    assert_eq!(all.len(), 4);
    let active = state.list_mappings(&ListMappingsParams { active_only: Some(true) });
    assert_eq!(active.len(), 3);
    assert_eq!(active[0].field_count, 13);
    state.reset();
    assert_eq!(state.mappings.len(), 3);
    assert!(state.get_mapping("v7").is_none());
    assert_eq!(list_failure_reply(FailureType::ServiceUnavailable).status, 503);
    assert_eq!(state.mapping_fields("v2").unwrap().len(), 17);
}
