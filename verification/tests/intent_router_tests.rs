use pandagen::intent_router::{Intent, IntentId, IntentRouter};
use pandagen::ipc::ServiceId;

#[test]
fn test_intent_creation() {
    let intent = Intent::new("test.action".to_string(), (1, 0));
    assert_eq!(intent.intent_type, "test.action");
    assert_eq!(intent.version, (1, 0));
    assert!(intent.parameters.is_empty());
}

#[test]
fn test_intent_with_parameters() {
    let intent = Intent::new("test.action".to_string(), (1, 0))
        .with_parameter("key1".to_string(), "value1".to_string())
        .with_parameter("key2".to_string(), "value2".to_string());

    assert_eq!(intent.parameters.len(), 2);
    assert_eq!(intent.parameters[0].0, "key1");
}

#[test]
fn test_intent_router() {
    let mut router = IntentRouter::new();
    let service_id = ServiceId::new();

    router.register("test.action".to_string(), service_id);

    let routed = router.route("test.action");
    assert_eq!(routed, Some(service_id));

    let not_found = router.route("other.action");
    assert_eq!(not_found, None);
}

#[test]
fn test_intent_id_uniqueness() {
    let id1 = IntentId::new();
    let id2 = IntentId::new();
    assert_ne!(id1, id2);
}

#[test]
fn intent_router_first_registration_wins() {
    let mut router = IntentRouter::new();
    let first = ServiceId::from_uuid(1);
    let second = ServiceId::from_uuid(2);
    router.register("a".to_string(), first);
    router.register("b".to_string(), second);
    router.register("a".to_string(), second);
    assert_eq!(router.route("a"), Some(first));
    assert_eq!(router.route("b"), Some(second));
    assert_eq!(router.route(""), None);
}
