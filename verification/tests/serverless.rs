use mahakala::serverless::ServerlessManager;

fn create_test_manager() -> ServerlessManager {
    ServerlessManager::new()
}

fn config(manager: &mut ServerlessManager, name: &str, provider: &str, region: &str, runtime: &str, memory: u32, timeout: u32, env: Vec<(String, String)>) -> Result<String, mahakala::error::AppError> {
    manager.create_deployment_config(name.to_string(), provider.to_string(), region.to_string(), runtime.to_string(), memory, timeout, env)
}

#[test]
fn test_get_providers() {
    let manager = create_test_manager();
    let providers = manager.get_providers();
    assert_eq!(providers.len(), 3);

    let has_aws = providers.iter().any(|p| p.name == "aws");
    let has_azure = providers.iter().any(|p| p.name == "azure");
    let has_gcp = providers.iter().any(|p| p.name == "gcp");

    assert!(has_aws);
    assert!(has_azure);
    assert!(has_gcp);
}

#[test]
fn test_create_deployment_config() {
    let mut manager = create_test_manager();
    let result = config(&mut manager, "test-deployment", "aws", "us-east-1", "python3.10", 512, 30, Vec::new());
    assert!(result.is_ok());
}

#[test]
fn test_create_config_invalid_region() {
    let mut manager = create_test_manager();
    let result = config(&mut manager, "test-deployment", "aws", "invalid-region", "python3.10", 512, 30, Vec::new());
    assert!(result.is_err());
}

#[test]
fn test_list_configs() {
    let mut manager = create_test_manager();
    let _ = config(&mut manager, "config1", "aws", "us-east-1", "python3.10", 512, 30, Vec::new());
    let _ = config(&mut manager, "config2", "azure", "eastus", "python", 1024, 60, Vec::new());

    let configs = manager.list_configs();
    assert_eq!(configs.len(), 2);
}

#[test]
fn test_create_and_deploy_package() {
    let mut manager = create_test_manager();
    let config_id = config(&mut manager, "test-deployment", "aws", "us-east-1", "python3.10", 512, 30, Vec::new()).unwrap();

    let package_data = b"test package content";
    let package_id = manager.create_deployment_package(&config_id, "1.0.0".to_string(), package_data).unwrap();

    let result = manager.deploy_package(&package_id);
    assert!(result.is_ok());

    let packages = manager.list_packages(Some(&config_id));
    assert_eq!(packages.len(), 1);
    assert_eq!(packages[0].status, "deployed");
}

#[test]
fn test_create_scaling_policy() {
    let mut manager = create_test_manager();
    let config_id = config(&mut manager, "test-deployment", "aws", "us-east-1", "python3.10", 512, 30, Vec::new()).unwrap();

    let policy_id = manager
        .create_scaling_policy(&config_id, "cpu".to_string(), 70.0f64.to_bits(), 2.0f64.to_bits(), 0.5f64.to_bits(), 300)
        .unwrap();

    let policies = manager.list_scaling_policies(Some(&config_id));
    assert_eq!(policies.len(), 1);
    assert_eq!(policies[0].id, policy_id);
}

#[test]
fn test_record_invocation() {
    let mut manager = create_test_manager();
    let config_id = config(&mut manager, "test-deployment", "aws", "us-east-1", "python3.10", 512, 30, Vec::new()).unwrap();

    assert_eq!(manager.get_invocation_count(&config_id), 0);

    manager.record_invocation(&config_id).unwrap();
    manager.record_invocation(&config_id).unwrap();
    manager.record_invocation(&config_id).unwrap();

    assert_eq!(manager.get_invocation_count(&config_id), 3);
}

#[test]
fn test_get_deployment_stats() {
    let mut manager = create_test_manager();
    let config_id = config(&mut manager, "test-deployment", "aws", "us-east-1", "python3.10", 512, 30, Vec::new()).unwrap();

    let package_data = b"test package";
    let package_id = manager.create_deployment_package(&config_id, "1.0.0".to_string(), package_data).unwrap();
    manager.deploy_package(&package_id).unwrap();

    manager.record_invocation(&config_id).unwrap();

    let stats = manager.get_deployment_stats();
    assert_eq!(stats.total_deployments, 1);
    assert_eq!(stats.active_deployments, 1);
    assert_eq!(stats.total_invocations, 1);
    assert_eq!(f64::from_bits(stats.avg_response_time_ms_bits), 150.0);
    assert_eq!(f64::from_bits(stats.error_rate_bits), 0.01);
}

#[test]
fn test_generate_serverless_template() {
    let mut manager = create_test_manager();
    let env_vars = vec![("ENV".to_string(), "production".to_string())];
    let config_id = config(&mut manager, "my-agent", "aws", "us-east-1", "python3.10", 512, 30, env_vars).unwrap();

    let template = manager.generate_deployment_template(&config_id, "serverless.yml").unwrap();
    assert!(template.contains("service: my-agent"));
    assert!(template.contains("runtime: python3.10"));
    assert!(template.contains("region: us-east-1"));
}

#[test]
fn test_generate_terraform_template() {
    let mut manager = create_test_manager();
    let config_id = config(&mut manager, "my-agent", "aws", "us-east-1", "python3.10", 512, 30, Vec::new()).unwrap();

    let template = manager.generate_deployment_template(&config_id, "terraform").unwrap();
    assert!(template.contains("resource \"aws_lambda_function\""));
    assert!(template.contains("my_agent"));
}

#[test]
fn test_delete_config() {
    let mut manager = create_test_manager();
    let config_id = config(&mut manager, "test-deployment", "aws", "us-east-1", "python3.10", 512, 30, Vec::new()).unwrap();

    let result = manager.delete_config(&config_id);
    assert!(result.is_ok());

    let configs = manager.list_configs();
    assert!(configs.is_empty());
}

#[test]
fn serverless_unknown_provider_is_refused() {
    let mut manager = create_test_manager();
    let err = config(&mut manager, "x", "ibm", "us-east-1", "python3.10", 512, 30, Vec::new()).unwrap_err();
    assert_eq!(err.to_text(), "Not found: Provider ibm not supported");
}

#[test]
fn serverless_unsupported_template_is_refused() {
    let mut manager = create_test_manager();
    let config_id = config(&mut manager, "my-agent", "aws", "us-east-1", "python3.10", 512, 30, Vec::new()).unwrap();
    let err = manager.generate_deployment_template(&config_id, "helm").unwrap_err();
    assert_eq!(err.to_text(), "Internal error: Unsupported template format: helm");
}

#[test]
fn serverless_package_checksum_is_hex() {
    let mut manager = create_test_manager();
    let config_id = config(&mut manager, "my-agent", "aws", "us-east-1", "python3.10", 512, 30, Vec::new()).unwrap();
    let _ = manager.create_deployment_package(&config_id, "1.0.0".to_string(), b"abc").unwrap();
    let packages = manager.list_packages(Some(&config_id));
    assert_eq!(packages.len(), 1);
    assert!(!packages[0].checksum.is_empty());
    assert!(packages[0].checksum.chars().all(|c| c.is_ascii_hexdigit()));
    assert_eq!(packages[0].package_size_bytes, 3);
}
