use hya_server::provider_setup::ProviderSetupSpec;

#[test]
fn provider_setup_specs_compare_by_value() {
    let spec = ProviderSetupSpec {
        provider_id: "local".to_string(),
        kind: "openai-compatible".to_string(),
        base_url: "http://127.0.0.1:8080/v1".to_string(),
        model_ids: vec!["m1".to_string()],
        make_default: true,
    };
    assert_eq!(spec.clone(), spec);
}
