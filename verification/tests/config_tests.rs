use credit_data_simulator::config::{
    CoreBankingConfig, FailureInjectionConfig, FailureType, LatencyConfig, MappingServiceConfig, OffPeakConfig, Ratio,
    RegulatorEndpointConfig, RegulatorMode, SimulatorConfig, percent,
};

/// A probability as a threshold on 64-bit draws, clamped to [0, 1].
fn ratio(p: f64) -> Ratio {
    Ratio { threshold: (p.clamp(0.0, 1.0) * u64::MAX as f64) as u64 }
}

#[test]
fn test_default_config() {
    let config = SimulatorConfig::default();
    assert!(config.core_banking.enabled);
    assert!(config.mapping_service.enabled);
    assert!(config.rulepack_service.enabled);
    assert!(config.regulator_endpoint.enabled);
}

#[test]
fn test_config_builder() {
    let mut core = CoreBankingConfig::default();
    core.port = 9001;
    let config = SimulatorConfig::builder().core_banking(core).build();

    assert_eq!(config.core_banking.port, 9001);
    assert_eq!(config.mapping_service.port, 18082);
}

#[test]
fn test_failure_injection() {
    let config = FailureInjectionConfig {
        enabled: true,
        failure_rate: ratio(1.0),
        failure_types: vec![FailureType::InternalError],
    };
    assert!(config.should_fail());
    assert_eq!(config.random_failure(), Some(&FailureType::InternalError));
}

#[test]
fn test_failure_injection_disabled() {
    let config = FailureInjectionConfig::none();
    assert!(!config.should_fail());
    assert!(config.random_failure().is_none());
}

#[test]
fn test_regulator_mode_timeout() {
    let config = RegulatorEndpointConfig::default().timeout_mode(5000);
    match config.mode {
        RegulatorMode::Timeout { delay_ms } => assert_eq!(delay_ms, 5000),
        _ => panic!("Expected Timeout mode"),
    }
}

#[test]
fn test_regulator_mode_reject() {
    let config = RegulatorEndpointConfig::default().reject_mode("ERR001", "Invalid submission");
    match config.mode {
        RegulatorMode::Reject { error_code, error_message } => {
            assert_eq!(error_code, "ERR001");
            assert_eq!(error_message, "Invalid submission");
        }
        _ => panic!("Expected Reject mode"),
    }
}

#[test]
fn test_off_peak_window() {
    let config = OffPeakConfig {
        enabled: true,
        start_hour: 22,
        end_hour: 6,
        timezone_offset: 0,
        reject_outside_window: false,
    };
    let _ = config.is_off_peak_now();
}

#[test]
fn test_socket_addr() {
    let config = CoreBankingConfig::default();
    assert_eq!(config.socket_addr(), "127.0.0.1:18081");
}

#[test]
fn test_dirty_ratio_clamping() {
    let config = CoreBankingConfig::default().with_dirty_ratio(ratio(1.5));
    assert_eq!(config.default_dirty_ratio, ratio(1.0));

    let config = CoreBankingConfig::default().with_dirty_ratio(ratio(-0.5));
    assert_eq!(config.default_dirty_ratio, ratio(0.0));
}

#[test]
fn test_config_for_ci() {
    let config = SimulatorConfig::for_ci();
    assert!(!config.core_banking.latency.enabled);
    assert!(!config.mapping_service.latency.enabled);
}

#[test]
fn test_config_for_load_test() {
    let config = SimulatorConfig::for_load_test();
    assert!(config.core_banking.latency.enabled);
    assert!(config.regulator_endpoint.latency.enabled);
}

#[test]
fn ratio_edges_decide_draws() {
    assert!(Ratio::always().happens(u64::MAX));
    assert!(!Ratio::never().happens(0));
    let half = percent(50);
    assert!(half.happens(0));
    assert!(!half.happens(u64::MAX));
}

#[test]
fn off_peak_window_crossing_midnight() {
    let config = OffPeakConfig {
        enabled: true,
        start_hour: 22,
        end_hour: 6,
        timezone_offset: 7,
        reject_outside_window: true,
    };
    // 16:00 UTC is 23:00 at UTC+7, inside the window.
    assert!(config.is_off_peak_at(16));
    // 05:00 UTC is 12:00 at UTC+7, outside it.
    assert!(!config.is_off_peak_at(5));
    let disabled = OffPeakConfig::default();
    assert!(disabled.is_off_peak_at(5));
}

#[test]
fn latency_updates_take_a_tenth_as_jitter() {
    let l = LatencyConfig::from_update(250);
    assert!(l.enabled);
    assert_eq!(l.base_ms, 250);
    assert_eq!(l.jitter_ms, 25);
    assert!(!LatencyConfig::from_update(0).enabled);
}

#[test]
fn failure_draws_pick_types_in_turn() {
    let config = FailureInjectionConfig::high();
    assert_eq!(config.random_failure_with(0, 1), Some(&FailureType::Timeout));
    assert_eq!(config.random_failure_with(u64::MAX, 1), None);
    assert_eq!(MappingServiceConfig::default().port, 18082);
}

#[test]
fn regulator_mode_defaults_to_accept() {
    assert!(matches!(credit_data_simulator::config::RegulatorMode::default(), credit_data_simulator::config::RegulatorMode::Accept));
}

#[test]
fn negative_offsets_wrap_to_the_previous_day() {
    let config = OffPeakConfig {
        enabled: true,
        start_hour: 22,
        end_hour: 6,
        timezone_offset: -7,
        reject_outside_window: true,
    };
    // 00:00 UTC is 17:00 local: outside the 22:00-06:00 window.
    assert!(!config.is_off_peak_at(0));
    // 05:00 UTC is 22:00 local: inside.
    assert!(config.is_off_peak_at(5));
    // 12:00 UTC is 05:00 local: inside; 13:00 UTC is 06:00 local: outside.
    assert!(config.is_off_peak_at(12));
    assert!(!config.is_off_peak_at(13));
    let west = OffPeakConfig { timezone_offset: -24, ..config };
    assert!(west.is_off_peak_at(23));
    assert!(!west.is_off_peak_at(7));
}
