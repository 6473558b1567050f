use somasync::logging::{development_config, production_config, CorrelationId, LogConfig, PerformanceTimer};

#[test]
fn test_correlation_id_generation() {
    let id1 = CorrelationId::new();
    let id2 = CorrelationId::new();
    assert_ne!(id1, id2);
    assert_eq!(id1.short().len(), 8);
}

#[test]
fn test_performance_timer() {
    let timer = PerformanceTimer::new("test_operation".to_string())
        .with_metadata("peer_count".to_string(), "5".to_string())
        .with_metadata("message_size".to_string(), "1024".to_string());

    let start = std::time::Instant::now();
    while start.elapsed() < std::time::Duration::from_millis(10) {}
    let metrics = timer.finish();

    assert_eq!(metrics.operation, "test_operation");
    assert!(metrics.duration_ms >= 10);
    assert_eq!(metrics.metadata.get(&"peer_count".to_string()), Some(&"5".to_string()));
    assert_eq!(metrics.metadata.get(&"message_size".to_string()), Some(&"1024".to_string()));
}

#[test]
fn test_log_config_defaults() {
    let config = LogConfig::default();
    assert_eq!(config.level, "info");
    assert!(!config.json);
    assert!(config.colors);
    assert!(config.include_location);
}

#[test]
fn correlation_id_text() {
    let id = CorrelationId::from_uuid(0x0123_4567_89ab_4def_8123_4567_89ab_cdefu128);
    assert_eq!(id.to_text(), "01234567-89ab-4def-8123-456789abcdef");
    assert_eq!(id.short(), "01234567");
    assert_eq!(id.uuid(), 0x0123_4567_89ab_4def_8123_4567_89ab_cdefu128);
}

#[test]
fn fresh_correlation_ids_are_version_four() {
    let id = CorrelationId::new();
    assert_eq!((id.uuid() >> 76) & 0xf, 4);
    assert_eq!((id.uuid() >> 62) & 0x3, 2);
}

#[test]
fn environment_configs() {
    let p = production_config();
    assert_eq!(p.level, "info");
    assert!(p.json && !p.colors && !p.include_location && p.include_thread && !p.include_spans);
    assert_eq!(p.targets.get(&"somasync::security".to_string()), Some(&"warn".to_string()));
    assert_eq!(p.targets.len(), 3);
    let d = development_config();
    assert_eq!(d.level, "debug");
    assert_eq!(d.targets.get(&"tokio".to_string()), Some(&"info".to_string()));
    assert_eq!(d.targets.get(&"somasync".to_string()), Some(&"debug".to_string()));
}
