use redisgate::error::GatewayError;
use redisgate::locator::Endpoint;
use redisgate::pool::{
    difference, is_among, record_health, AcquireAction, AcquireEvent, AcquireState,
    InstanceHealth, PoolFailure, PoolLimits, PoolRecord, PoolRegistry, RefreshPlan,
};

fn names(items: &[&str]) -> Vec<String> {
    items.iter().map(|s| s.to_string()).collect()
}

fn endpoint() -> Endpoint {
    Endpoint { host: "localhost".to_string(), port: 6379, password: None }
}

#[test]
fn new_registry_holds_nothing() {
    let registry: PoolRegistry<u32> = PoolRegistry::new();
    assert_eq!(registry.len(), 0);
    assert!(!registry.contains("a"));
    assert_eq!(registry.get("a"), None);
    assert_eq!(registry.registered(), Vec::<String>::new());
}

#[test]
fn an_instance_has_at_most_one_pool() {
    let mut registry: PoolRegistry<u32> = PoolRegistry::new();
    assert_eq!(registry.insert("a".to_string(), 1), None);
    assert_eq!(registry.insert("b".to_string(), 2), None);
    assert_eq!(registry.insert("a".to_string(), 3), Some(1));
    assert_eq!(registry.len(), 2);
    assert_eq!(registry.get("a"), Some(&3));
    assert_eq!(registry.get("b"), Some(&2));
    assert_eq!(registry.registered(), names(&["a", "b"]));
    assert_eq!(registry.registered().iter().filter(|n| n.as_str() == "a").count(), 1);
}

#[test]
fn removing_a_pool_leaves_the_others() {
    let mut registry: PoolRegistry<u32> = PoolRegistry::new();
    registry.insert("a".to_string(), 1);
    registry.insert("b".to_string(), 2);
    registry.insert("c".to_string(), 3);
    assert_eq!(registry.remove("b"), Some(2));
    assert_eq!(registry.remove("b"), None);
    assert_eq!(registry.remove("x"), None);
    assert_eq!(registry.registered(), names(&["a", "c"]));
    assert_eq!(registry.get("a"), Some(&1));
    assert_eq!(registry.get("c"), Some(&3));
    assert!(!registry.contains("b"));
}

#[test]
fn cold_acquisition_locates_builds_and_registers() {
    let mut registry: PoolRegistry<u32> = PoolRegistry::new();
    let begin = registry.step("i", AcquireState::Start, AcquireEvent::Begin);
    assert_eq!(begin.state, AcquireState::Locating);
    assert_eq!(begin.action, AcquireAction::Locate);
    assert_eq!(begin.surplus, None);
    let located = registry.step("i", begin.state, AcquireEvent::Located(Ok(endpoint())));
    assert_eq!(located.state, AcquireState::Probing);
    assert_eq!(located.action, AcquireAction::Probe(endpoint()));
    assert!(!registry.contains("i"));
    let probed = registry.step("i", located.state, AcquireEvent::Probed(Ok(7)));
    assert_eq!(probed.state, AcquireState::CheckingFresh);
    assert_eq!(probed.action, AcquireAction::CheckOut);
    assert_eq!(probed.surplus, None);
    assert_eq!(registry.get("i"), Some(&7));
    let done = registry.step("i", probed.state, AcquireEvent::CheckedOut);
    assert_eq!(done.state, AcquireState::Done);
    assert_eq!(done.action, AcquireAction::Succeed);
    assert_eq!(registry.get("i"), Some(&7));
    assert_eq!(registry.len(), 1);
}

#[test]
fn warm_acquisition_checks_out_of_the_pool_that_is_there() {
    let mut registry: PoolRegistry<u32> = PoolRegistry::new();
    registry.insert("i".to_string(), 1);
    let begin = registry.step("i", AcquireState::Start, AcquireEvent::Begin);
    assert_eq!(begin.state, AcquireState::Checking);
    assert_eq!(begin.action, AcquireAction::CheckOut);
    let done = registry.step("i", begin.state, AcquireEvent::CheckedOut);
    assert_eq!(done.state, AcquireState::Done);
    assert_eq!(done.action, AcquireAction::Succeed);
    assert_eq!(registry.get("i"), Some(&1));
}

#[test]
fn stale_pool_is_dropped_and_built_anew() {
    let mut registry: PoolRegistry<u32> = PoolRegistry::new();
    registry.insert("i".to_string(), 1);
    registry.insert("other".to_string(), 9);
    let begin = registry.step("i", AcquireState::Start, AcquireEvent::Begin);
    let failed = registry.step(
        "i",
        begin.state,
        AcquireEvent::CheckoutFailed(PoolFailure::Backend("refused".to_string())),
    );
    assert_eq!(failed.state, AcquireState::Locating);
    assert_eq!(failed.action, AcquireAction::Locate);
    assert!(!registry.contains("i"));
    assert_eq!(registry.get("other"), Some(&9));
    let located = registry.step("i", failed.state, AcquireEvent::Located(Ok(endpoint())));
    let unavailable =
        registry.step("i", located.state, AcquireEvent::Probed(Err("refused".to_string())));
    assert_eq!(unavailable.state, AcquireState::Done);
    assert_eq!(
        unavailable.action,
        AcquireAction::Fail(GatewayError::RedisUnavailable("refused".to_string()))
    );
    assert!(!registry.contains("i"));
    let again = registry.step("i", AcquireState::Start, AcquireEvent::Begin);
    assert_eq!(again.action, AcquireAction::Locate);
    let located = registry.step("i", again.state, AcquireEvent::Located(Ok(endpoint())));
    let probed = registry.step("i", located.state, AcquireEvent::Probed(Ok(2)));
    assert_eq!(probed.action, AcquireAction::CheckOut);
    assert_eq!(registry.get("i"), Some(&2));
    let done = registry.step("i", probed.state, AcquireEvent::CheckedOut);
    assert_eq!(done.action, AcquireAction::Succeed);
}

#[test]
fn pool_built_by_another_request_in_the_meantime_stays() {
    let mut registry: PoolRegistry<u32> = PoolRegistry::new();
    let begin = registry.step("i", AcquireState::Start, AcquireEvent::Begin);
    let located = registry.step("i", begin.state, AcquireEvent::Located(Ok(endpoint())));
    registry.insert("i".to_string(), 100);
    let probed = registry.step("i", located.state, AcquireEvent::Probed(Ok(200)));
    assert_eq!(probed.state, AcquireState::CheckingFresh);
    assert_eq!(probed.action, AcquireAction::CheckOut);
    assert_eq!(probed.surplus, Some(200));
    assert_eq!(registry.get("i"), Some(&100));
    assert_eq!(registry.len(), 1);
}

#[test]
fn failures_of_locating_end_the_acquisition() {
    let mut registry: PoolRegistry<u32> = PoolRegistry::new();
    for error in [
        GatewayError::InstanceNotFound("i".to_string()),
        GatewayError::ServiceDiscoveryFailed("no ports".to_string()),
    ] {
        let step =
            registry.step("i", AcquireState::Locating, AcquireEvent::Located(Err(error.clone())));
        assert_eq!(step.state, AcquireState::Done);
        assert_eq!(step.action, AcquireAction::Fail(error));
        assert_eq!(registry.len(), 0);
    }
}

#[test]
fn fresh_pool_that_gives_no_connection_is_dropped() {
    let cases = vec![
        (
            PoolFailure::Timeout,
            GatewayError::PoolExhausted("timed out waiting for a connection".to_string()),
            504,
        ),
        (
            PoolFailure::Backend("reset".to_string()),
            GatewayError::RedisUnavailable("reset".to_string()),
            502,
        ),
        (PoolFailure::Closed, GatewayError::RedisUnavailable("pool is closed".to_string()), 502),
    ];
    for (failure, error, status) in cases {
        let mut registry: PoolRegistry<u32> = PoolRegistry::new();
        registry.insert("i".to_string(), 1);
        let step = registry.step(
            "i",
            AcquireState::CheckingFresh,
            AcquireEvent::CheckoutFailed(failure.clone()),
        );
        assert_eq!(step.state, AcquireState::Done);
        assert_eq!(step.action, AcquireAction::Fail(error.clone()));
        assert!(!registry.contains("i"));
        assert_eq!(failure.into_error(), error);
        assert_eq!(error.status_code(), status);
    }
}

#[test]
fn events_out_of_place_are_a_fault() {
    let mut registry: PoolRegistry<u32> = PoolRegistry::new();
    registry.insert("i".to_string(), 1);
    let fault = AcquireAction::Fail(GatewayError::Internal);
    let a = registry.step("i", AcquireState::Start, AcquireEvent::CheckedOut);
    assert_eq!((a.state, a.action), (AcquireState::Done, fault.clone()));
    let b = registry.step("i", AcquireState::Done, AcquireEvent::Begin);
    assert_eq!((b.state, b.action), (AcquireState::Done, fault.clone()));
    let c = registry.step("i", AcquireState::Locating, AcquireEvent::Probed(Ok(5)));
    assert_eq!((c.state, c.action, c.surplus), (AcquireState::Done, fault.clone(), None));
    let d = registry.step("i", AcquireState::Probing, AcquireEvent::Located(Ok(endpoint())));
    assert_eq!((d.state, d.action), (AcquireState::Done, fault));
    assert_eq!(registry.get("i"), Some(&1));
}

#[test]
fn difference_keeps_order_and_repeats() {
    assert_eq!(difference(&names(&["a", "b", "c", "b"]), &names(&["c", "x"])), names(&["a", "b", "b"]));
    assert_eq!(difference(&names(&[]), &names(&["a"])), names(&[]));
    assert_eq!(difference(&names(&["a"]), &names(&[])), names(&["a"]));
    assert_eq!(difference(&names(&["a"]), &names(&["a"])), names(&[]));
    assert!(is_among(&names(&["a", "b"]), "b"));
    assert!(!is_among(&names(&["a", "b"]), "B"));
    assert!(!is_among(&names(&[]), ""));
}

#[test]
fn refresh_drops_the_gone_and_builds_for_the_new() {
    let mut registry: PoolRegistry<u32> = PoolRegistry::new();
    registry.insert("old".to_string(), 1);
    registry.insert("kept".to_string(), 2);
    let plan = registry.plan_refresh(&names(&["kept", "new", "newer"]), true);
    assert_eq!(
        plan,
        RefreshPlan { evict: names(&["old"]), create: names(&["new", "newer"]) }
    );
    assert_eq!(registry.len(), 2);
    let same = registry.plan_refresh(&names(&["kept", "old"]), true);
    assert_eq!(same, RefreshPlan { evict: vec![], create: vec![] });
    let all_gone = registry.plan_refresh(&vec![], true);
    assert_eq!(all_gone, RefreshPlan { evict: names(&["old", "kept"]), create: vec![] });
}

#[test]
fn refresh_does_nothing_outside_the_cluster() {
    let mut registry: PoolRegistry<u32> = PoolRegistry::new();
    registry.insert("old".to_string(), 1);
    let plan = registry.plan_refresh(&names(&["new"]), false);
    assert_eq!(plan, RefreshPlan { evict: vec![], create: vec![] });
}

#[test]
fn health_is_good_where_the_instance_answered() {
    let mut snapshot: Vec<InstanceHealth> = Vec::new();
    record_health(&mut snapshot, "a".to_string(), true, true);
    record_health(&mut snapshot, "b".to_string(), true, false);
    record_health(&mut snapshot, "c".to_string(), false, false);
    record_health(&mut snapshot, "d".to_string(), false, true);
    assert_eq!(
        snapshot,
        vec![
            InstanceHealth { instance: "a".to_string(), ok: true },
            InstanceHealth { instance: "b".to_string(), ok: false },
            InstanceHealth { instance: "c".to_string(), ok: false },
            InstanceHealth { instance: "d".to_string(), ok: false },
        ]
    );
}

#[test]
fn pool_record_keeps_when_it_was_made_and_when_it_last_gave_a_connection() {
    let limits = PoolLimits { max_size: Some(16), wait_seconds: 5 };
    let record = PoolRecord::opened(7u32, endpoint(), limits, 1_000);
    assert_eq!(
        record,
        PoolRecord {
            handle: 7,
            endpoint: endpoint(),
            limits,
            created_at: 1_000,
            last_success_at: None,
        }
    );
    let mut registry: PoolRegistry<PoolRecord<u32>> = PoolRegistry::new();
    assert!(!registry.record_success("i", 1_001));
    assert_eq!(registry.len(), 0);
    registry.insert("i".to_string(), record.clone());
    registry.insert("j".to_string(), PoolRecord::opened(8u32, endpoint(), limits, 1_002));
    assert!(registry.record_success("i", 1_005));
    assert_eq!(registry.len(), 2);
    let touched = registry.get("i").unwrap();
    assert_eq!(touched.last_success_at, Some(1_005));
    assert_eq!(touched.created_at, 1_000);
    assert_eq!(touched.handle, 7);
    assert_eq!(touched.endpoint, endpoint());
    assert_eq!(registry.get("j").unwrap().last_success_at, None);
    assert!(registry.record_success("i", 1_009));
    assert_eq!(registry.get("i").unwrap().last_success_at, Some(1_009));
    let mut names = registry.registered();
    names.sort();
    assert_eq!(names, names_of_two());
}

fn names_of_two() -> Vec<String> {
    vec!["i".to_string(), "j".to_string()]
}
