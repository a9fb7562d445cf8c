use redisgate::k8s::{
    deployment_name, deployment_status, ingress_name, instance_domain, organization_namespace,
    secret_name, service_name, status_changed, strip_hyphens, DeploymentStatus, K8sDeploymentResult,
    RedisDeploymentConfig, ReplicaCounts,
};
use uuid::Uuid;

fn sample_config(max_memory: i64) -> RedisDeploymentConfig {
    RedisDeploymentConfig {
        name: "Cache".to_string(),
        slug: "cache".to_string(),
        namespace: "redis-abc".to_string(),
        organization_id: "a1a2a3a4-b1b2-c1c2-d1d2-d3d4d5d6d7d8".to_string(),
        instance_id: "11111111-2222-3333-4444-555555555555".to_string(),
        redis_version: "7.2".to_string(),
        max_memory,
        redis_password: "pw".to_string(),
        port: 6379,
    }
}

#[test]
fn test_redis_deployment_config_creation() {
    let config = RedisDeploymentConfig {
        name: "test-redis".to_string(),
        slug: "test-redis".to_string(),
        namespace: "test-namespace".to_string(),
        organization_id: Uuid::new_v4().to_string(),
        instance_id: Uuid::new_v4().to_string(),
        redis_version: "7.2".to_string(),
        max_memory: 1024 * 1024 * 100,
        redis_password: "test-password".to_string(),
        port: 6379,
    };

    assert_eq!(config.name, "test-redis");
    assert_eq!(config.redis_version, "7.2");
    assert_eq!(config.port, 6379);
    println!("RedisDeploymentConfig creation test passed");
}

#[test]
fn resources_are_named_after_the_slug() {
    assert_eq!(deployment_name("cache"), "redis-cache");
    assert_eq!(service_name("cache"), "redis-cache-service");
    assert_eq!(ingress_name("cache"), "redis-cache-ingress");
    assert_eq!(secret_name("cache"), "redis-cache-secret");
    assert_eq!(deployment_name(""), "redis-");
}

#[test]
fn domain_and_namespace_hold_the_organization_without_hyphens() {
    let org = "a1a2a3a4-b1b2-c1c2-d1d2-d3d4d5d6d7d8";
    assert_eq!(strip_hyphens(org), "a1a2a3a4b1b2c1c2d1d2d3d4d5d6d7d8");
    assert_eq!(strip_hyphens(org), Uuid::parse_str(org).unwrap().simple().to_string());
    assert_eq!(strip_hyphens("---"), "");
    assert_eq!(instance_domain("cache", org), "cache.a1a2a3a4b1b2c1c2d1d2d3d4d5d6d7d8.redis.local");
    assert_eq!(organization_namespace(org), "redis-a1a2a3a4b1b2c1c2d1d2d3d4d5d6d7d8");
}

#[test]
fn memory_is_limited_in_mebibytes_and_requested_at_half() {
    let config = sample_config(1024 * 1024 * 100);
    assert_eq!(config.memory_limit(), "100Mi");
    assert_eq!(config.memory_request(), "64Mi");
    let large = sample_config(1024 * 1024 * 1024);
    assert_eq!(large.memory_limit(), "1024Mi");
    assert_eq!(large.memory_request(), "512Mi");
    let edge = sample_config(1024 * 1024 * 129);
    assert_eq!(edge.memory_request(), "64Mi");
    let odd = sample_config(1024 * 1024 * 130 + 5);
    assert_eq!(odd.memory_limit(), "130Mi");
    assert_eq!(odd.memory_request(), "65Mi");
    let none = sample_config(0);
    assert_eq!(none.memory_limit(), "0Mi");
    assert_eq!(none.memory_request(), "64Mi");
    let below = sample_config(-3 * 1024 * 1024 - 1);
    assert_eq!(below.memory_limit(), "-3Mi");
    assert_eq!(below.memory_request(), "64Mi");
}

#[test]
fn planned_result_names_what_is_deployed() {
    let result = sample_config(1).planned_result();
    assert_eq!(
        result,
        K8sDeploymentResult {
            deployment_name: "redis-cache".to_string(),
            service_name: "redis-cache-service".to_string(),
            ingress_name: "redis-cache-ingress".to_string(),
            namespace: "redis-abc".to_string(),
            port: 6379,
            domain: "cache.a1a2a3a4b1b2c1c2d1d2d3d4d5d6d7d8.redis.local".to_string(),
        }
    );
}

#[test]
fn deployment_status_follows_the_replicas() {
    assert_eq!(deployment_status(None), DeploymentStatus::Failed);
    let counts = |ready, total| Some(ReplicaCounts { ready, total });
    assert_eq!(deployment_status(counts(Some(1), Some(1))), DeploymentStatus::Running);
    assert_eq!(deployment_status(counts(Some(2), None)), DeploymentStatus::Running);
    assert_eq!(deployment_status(counts(Some(0), Some(1))), DeploymentStatus::Pending);
    assert_eq!(deployment_status(counts(None, Some(3))), DeploymentStatus::Pending);
    assert_eq!(deployment_status(counts(None, None)), DeploymentStatus::Unknown);
    assert_eq!(deployment_status(counts(Some(0), Some(0))), DeploymentStatus::Unknown);
    assert_eq!(deployment_status(counts(Some(-1), Some(-1))), DeploymentStatus::Unknown);
    assert_eq!(DeploymentStatus::Running.word(), "running");
    assert_eq!(DeploymentStatus::Pending.word(), "pending");
    assert_eq!(DeploymentStatus::Unknown.word(), "unknown");
    assert_eq!(DeploymentStatus::Failed.word(), "failed");
}

#[test]
fn test_deployment_result_structure() {
    let result = K8sDeploymentResult {
        deployment_name: "redis-test".to_string(),
        service_name: "redis-test-service".to_string(),
        ingress_name: "redis-test-ingress".to_string(),
        namespace: "test-namespace".to_string(),
        port: 6379,
        domain: "test.example.com".to_string(),
    };

    assert!(result.deployment_name.starts_with("redis-"));
    assert!(result.service_name.ends_with("-service"));
    assert_eq!(result.port, 6379);
    println!("K8sDeploymentResult structure test passed");
}

#[test]
fn stored_status_is_changed_where_another_was_found() {
    assert!(status_changed(None, DeploymentStatus::Running));
    assert!(status_changed(Some("creating"), DeploymentStatus::Running));
    assert!(!status_changed(Some("running"), DeploymentStatus::Running));
    assert!(status_changed(Some("Running"), DeploymentStatus::Running));
    assert!(!status_changed(Some("failed"), DeploymentStatus::Failed));
    assert!(status_changed(Some(""), DeploymentStatus::Unknown));
}
