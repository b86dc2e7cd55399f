use tracer_core::process_discovery::{stored_metadata, TracerMetadata};
use tracer_core::test_config::{test_with_constructor, TestConfig};

#[test]
fn an_empty_config_gets_the_defaults() {
    assert_eq!(TestConfig::new(vec![]).values(), &vec![1, 2, 3]);
    assert_eq!(test_with_constructor(vec![]), vec![1, 2, 3]);
}

#[test]
fn a_config_keeps_the_values_it_is_given() {
    assert_eq!(TestConfig::new(vec![0]).values(), &vec![0]);
    assert_eq!(TestConfig::new(vec![5, -4, 3, 3]).values(), &vec![5, -4, 3, 3]);
    assert_eq!(test_with_constructor(vec![i32::MIN, i32::MAX]), vec![i32::MIN, i32::MAX]);
}

#[test]
fn stored_metadata_adds_schema_and_language() {
    let data = TracerMetadata {
        runtime_id: Some("rid".to_string()),
        tracer_version: "5.1.0".to_string(),
        hostname: "host".to_string(),
        service_name: None,
        service_env: Some("prod".to_string()),
        service_version: None,
        process_tags: Some("a:b".to_string()),
        container_id: None,
    };
    let stored = stored_metadata(&data);
    assert_eq!(stored.schema_version, 1);
    assert_eq!(stored.tracer_language, "nodejs");
    assert_eq!(stored.runtime_id.as_deref(), Some("rid"));
    assert_eq!(stored.tracer_version, "5.1.0");
    assert_eq!(stored.hostname, "host");
    assert_eq!(stored.service_name, None);
    assert_eq!(stored.service_env.as_deref(), Some("prod"));
    assert_eq!(stored.service_version, None);
    assert_eq!(stored.process_tags.as_deref(), Some("a:b"));
    assert_eq!(stored.container_id, None);
}
