use redisgate::error::GatewayError;
use redisgate::gate::{EndpointHint, InstanceDescriptor, InstanceStatus};
use redisgate::locator::{
    choose_password, default_local_ports, discover_instances, find_label, find_local_port,
    locate, resolve_service, service_to_look_up, Endpoint, Label, LocalPort, ServiceInfo,
    ServiceLabels, ServiceLookup, Surroundings,
};

const ID: &str = "11111111-2222-3333-4444-555555555555";

fn descriptor(slug: &str, hint: EndpointHint, secret: Option<&str>) -> InstanceDescriptor {
    InstanceDescriptor {
        instance_id: ID.to_string(),
        organization_id: "o".to_string(),
        slug: slug.to_string(),
        endpoint_hint: hint,
        auth_secret_ref: secret.map(|s| s.to_string()),
        status: InstanceStatus::Running,
    }
}

fn service_hint() -> EndpointHint {
    EndpointHint::Service { name: "redis-cache-service".to_string(), namespace: "ns".to_string() }
}

fn surroundings(in_cluster: bool, default_password: Option<&str>) -> Surroundings {
    Surroundings {
        in_cluster,
        default_password: default_password.map(|s| s.to_string()),
        local_ports: default_local_ports(),
    }
}

fn service(name: Option<&str>, namespace: Option<&str>, ports: Vec<i32>) -> ServiceInfo {
    ServiceInfo {
        name: name.map(|s| s.to_string()),
        namespace: namespace.map(|s| s.to_string()),
        ports,
    }
}

fn discovery_failed(why: &str) -> GatewayError {
    GatewayError::ServiceDiscoveryFailed(why.to_string())
}

#[test]
fn service_is_reached_at_its_cluster_name_on_its_first_port() {
    assert_eq!(
        resolve_service(&service(Some("my-redis"), Some("default"), vec![6380, 6379]), "cache"),
        Ok(("my-redis.default.svc.cluster.local".to_string(), 6380))
    );
    assert_eq!(
        resolve_service(&service(Some("a"), Some("b"), vec![65535]), "cache"),
        Ok(("a.b.svc.cluster.local".to_string(), 65535))
    );
    assert_eq!(
        resolve_service(&service(Some("a"), Some("b"), vec![1]), "cache"),
        Ok(("a.b.svc.cluster.local".to_string(), 1))
    );
}

#[test]
fn service_without_ports_is_not_discovered_and_without_name_not_found() {
    assert_eq!(
        resolve_service(&service(Some("a"), Some("b"), vec![]), "cache"),
        Err(discovery_failed("Service has no ports"))
    );
    assert_eq!(
        resolve_service(&service(None, Some("b"), vec![6379]), "cache"),
        Err(GatewayError::InstanceNotFound("cache".to_string()))
    );
    assert_eq!(
        resolve_service(&service(Some("a"), None, vec![6379]), "cache"),
        Err(GatewayError::InstanceNotFound("cache".to_string()))
    );
    for port in [0, -1, 65536, i32::MAX, i32::MIN] {
        assert_eq!(
            resolve_service(&service(Some("a"), Some("b"), vec![port, 6379]), "cache"),
            Err(discovery_failed("Service port is out of range"))
        );
    }
    assert_eq!(discovery_failed("x").status_code(), 503);
}

#[test]
fn local_ports_stand_for_slugs_outside_the_cluster() {
    let ports = default_local_ports();
    assert_eq!(
        ports,
        vec![
            LocalPort { slug: "my-redis-replicas".to_string(), port: 6379 },
            LocalPort { slug: "my-redis-master".to_string(), port: 6380 },
        ]
    );
    assert_eq!(find_local_port(&ports, "my-redis-replicas"), Some(6379));
    assert_eq!(find_local_port(&ports, "my-redis-master"), Some(6380));
    assert_eq!(find_local_port(&ports, "other"), None);
    assert_eq!(find_local_port(&vec![], "my-redis-master"), None);
    let twice = vec![
        LocalPort { slug: "a".to_string(), port: 1 },
        LocalPort { slug: "a".to_string(), port: 2 },
    ];
    assert_eq!(find_local_port(&twice, "a"), Some(1));
}

#[test]
fn password_is_the_secret_then_the_default_then_none() {
    let secret_ref = Some("redis-cache-secret".to_string());
    let default = Some("default".to_string());
    assert_eq!(
        choose_password(&secret_ref, Some("s3cret".to_string()), &default),
        Some("s3cret".to_string())
    );
    assert_eq!(choose_password(&secret_ref, None, &default), Some("default".to_string()));
    assert_eq!(
        choose_password(&None, Some("s3cret".to_string()), &default),
        Some("default".to_string())
    );
    assert_eq!(choose_password(&None, None, &default), Some("default".to_string()));
    assert_eq!(choose_password(&None, None, &None), None);
    assert_eq!(choose_password(&secret_ref, None, &None), None);
}

#[test]
fn instance_in_the_cluster_is_located_at_its_service() {
    let d = descriptor("cache", service_hint(), Some("redis-cache-secret"));
    let found = ServiceLookup::Found(service(Some("redis-cache-service"), Some("ns"), vec![6379]));
    assert_eq!(
        locate(Some(&d), ID, &surroundings(true, Some("default")), Some(found.clone()), None),
        Ok(Endpoint {
            host: "redis-cache-service.ns.svc.cluster.local".to_string(),
            port: 6379,
            password: Some("default".to_string()),
        })
    );
    assert_eq!(
        locate(
            Some(&d),
            ID,
            &surroundings(true, Some("default")),
            Some(found),
            Some("s3cret".to_string())
        ),
        Ok(Endpoint {
            host: "redis-cache-service.ns.svc.cluster.local".to_string(),
            port: 6379,
            password: Some("s3cret".to_string()),
        })
    );
}

#[test]
fn instance_with_a_direct_hint_is_located_there() {
    let d = descriptor(
        "cache",
        EndpointHint::Direct { host: "10.0.0.5".to_string(), port: 7000 },
        None,
    );
    assert_eq!(
        locate(Some(&d), ID, &surroundings(true, None), None, None),
        Ok(Endpoint { host: "10.0.0.5".to_string(), port: 7000, password: None })
    );
}

#[test]
fn instance_outside_the_cluster_is_located_at_its_local_port() {
    let d = descriptor("my-redis-master", service_hint(), None);
    assert_eq!(
        locate(Some(&d), ID, &surroundings(false, None), None, None),
        Ok(Endpoint { host: "localhost".to_string(), port: 6380, password: None })
    );
    let unknown = descriptor("cache", service_hint(), None);
    assert_eq!(
        locate(Some(&unknown), ID, &surroundings(false, None), None, None),
        Err(GatewayError::InstanceNotFound(ID.to_string()))
    );
}

#[test]
fn instance_that_is_missing_or_deleted_is_not_found() {
    assert_eq!(
        locate(None, ID, &surroundings(true, None), None, None),
        Err(GatewayError::InstanceNotFound(ID.to_string()))
    );
    let mut d = descriptor("my-redis-master", service_hint(), None);
    d.status = InstanceStatus::Deleted;
    for in_cluster in [true, false] {
        assert_eq!(
            locate(Some(&d), ID, &surroundings(in_cluster, None), None, None),
            Err(GatewayError::InstanceNotFound(ID.to_string()))
        );
    }
}

#[test]
fn failed_discovery_is_reported() {
    let d = descriptor("cache", service_hint(), None);
    assert_eq!(
        locate(
            Some(&d),
            ID,
            &surroundings(true, None),
            Some(ServiceLookup::Failed("timeout".to_string())),
            None
        ),
        Err(discovery_failed("timeout"))
    );
    assert_eq!(
        locate(Some(&d), ID, &surroundings(true, None), None, None),
        Err(discovery_failed("Service was not looked up"))
    );
    assert_eq!(
        locate(
            Some(&d),
            ID,
            &surroundings(true, None),
            Some(ServiceLookup::Found(service(Some("a"), Some("b"), vec![]))),
            None
        ),
        Err(discovery_failed("Service has no ports"))
    );
}

#[test]
fn url_holds_host_port_and_password() {
    let plain = Endpoint { host: "localhost".to_string(), port: 6379, password: None };
    assert_eq!(plain.url(), "redis://localhost:6379");
    let secured = Endpoint {
        host: "a.b.svc.cluster.local".to_string(),
        port: 65535,
        password: Some("p@ss".to_string()),
    };
    assert_eq!(secured.url(), "redis://:p@ss@a.b.svc.cluster.local:65535");
    let zero = Endpoint { host: String::new(), port: 0, password: Some(String::new()) };
    assert_eq!(zero.url(), "redis://:@:0");
}

#[test]
fn instances_are_discovered_by_their_label() {
    let label = |k: &str, v: &str| Label { key: k.to_string(), value: v.to_string() };
    let services = vec![
        ServiceLabels { labels: vec![label("app", "redis"), label("instance", "one")] },
        ServiceLabels { labels: vec![label("app", "redis")] },
        ServiceLabels { labels: vec![] },
        ServiceLabels { labels: vec![label("instance", "two"), label("instance", "shadowed")] },
        ServiceLabels { labels: vec![label("Instance", "three")] },
    ];
    assert_eq!(discover_instances(&services), vec!["one".to_string(), "two".to_string()]);
    assert_eq!(discover_instances(&vec![]), Vec::<String>::new());
    assert_eq!(find_label(&services[0].labels, "app"), Some("redis".to_string()));
    assert_eq!(find_label(&services[0].labels, "none"), None);
}

#[test]
fn service_is_looked_up_only_in_the_cluster_for_live_instances() {
    let d = descriptor("cache", service_hint(), None);
    assert_eq!(
        service_to_look_up(&d, true),
        Some(("redis-cache-service".to_string(), "ns".to_string()))
    );
    assert_eq!(service_to_look_up(&d, false), None);
    let direct = descriptor("c", EndpointHint::Direct { host: "h".to_string(), port: 1 }, None);
    assert_eq!(service_to_look_up(&direct, true), None);
    let mut deleted = descriptor("cache", service_hint(), None);
    deleted.status = InstanceStatus::Deleted;
    assert_eq!(service_to_look_up(&deleted, true), None);
}
