use nineclaw::json_value::JsonValue;
use nineclaw::memory_gate::{canonical_memory_route, MemoryGate};

#[test]
fn gate_infers_write_from_routes() {
    let gate = MemoryGate {
        preference: true,
        ..MemoryGate::default()
    };
    assert!(gate.inferred_should_write());
}

#[test]
fn canonical_route_supports_shared_and_private_routes() {
    assert_eq!(
        canonical_memory_route("workflow").as_deref(),
        Some("workflow")
    );
    assert_eq!(
        canonical_memory_route("用户画像").as_deref(),
        Some("user_profile")
    );
    assert_eq!(
        canonical_memory_route("情感事件").as_deref(),
        Some("emotional_event")
    );
}

fn verdict(members: Vec<(&str, JsonValue)>) -> JsonValue {
    let gate = JsonValue::Object(members.into_iter().map(|(k, v)| (k.to_string(), v)).collect());
    JsonValue::Object(vec![("gate".to_string(), gate)])
}

#[test]
fn gate_parses_json_aliases() {
    let value = verdict(vec![
        ("worthy", JsonValue::Bool(true)),
        ("relationships", JsonValue::Bool(true)),
        ("commitments", JsonValue::Bool(true)),
        ("pitfalls", JsonValue::Bool(true)),
    ]);
    let gate = MemoryGate::from_json_value(&value).expect("gate");
    assert!(gate.inferred_should_write());
    assert!(gate.relationship);
    assert!(gate.commitment);
    assert!(gate.pitfall);
}

#[test]
fn gate_missing_is_none_and_non_bool_reads_false() {
    assert!(MemoryGate::from_json_value(&JsonValue::Object(vec![])).is_none());
    assert!(MemoryGate::from_json_value(&JsonValue::Null).is_none());
    let gate = MemoryGate::from_json_value(&verdict(vec![
        ("should_write", JsonValue::Str("yes".to_string())),
        ("worthy", JsonValue::Bool(true)),
        ("relationship", JsonValue::Null),
        ("relationships", JsonValue::Bool(true)),
    ]))
    .expect("gate");
    assert!(gate.should_write);
    assert!(!gate.relationship);
    let flat = MemoryGate::from_json_value(&JsonValue::Object(vec![(
        "gate".to_string(),
        JsonValue::Bool(true),
    )]))
    .expect("gate member present");
    assert_eq!(flat, MemoryGate::default());
}

#[test]
fn routes_are_listed_in_order() {
    let gate = MemoryGate {
        fact: true,
        decision: true,
        pitfall: true,
        ..MemoryGate::default()
    };
    assert_eq!(gate.shared_routes(), vec!["decision", "fact"]);
    assert_eq!(gate.private_routes(), vec!["pitfall"]);
    assert!(gate.any_route_enabled());
    assert!(!MemoryGate::default().inferred_should_write());
}

#[test]
fn canonical_route_trims_and_lowercases() {
    assert_eq!(canonical_memory_route("  Plans ").as_deref(), Some("plan"));
    assert_eq!(canonical_memory_route("AFFECT").as_deref(), Some("emotional_event"));
    assert_eq!(canonical_memory_route("unknown"), None);
}
