use shroudforge::compat::{Availability, Compatibility};
use shroudforge::schema::GameSchema;

fn empty_schema() -> GameSchema {
    GameSchema {
        parser: "test".to_string(),
        game_version: "build-1".to_string(),
        types: Vec::new(),
        resources: Vec::new(),
    }
}

#[test]
fn unknown_runtime_operation_is_scoped_and_explained() {
    let contract = Compatibility::new(Vec::new()).resolve(empty_schema());
    assert!(!contract.has_runtime("runtime.ecs.write"));
    assert!(matches!(
        contract.runtime("runtime.ecs.write"),
        Availability::Unavailable { .. }
    ));
}

#[test]
fn invalid_runtime_schema_disables_only_ecs_operations() {
    let contract = Compatibility::new(vec![
        "runtime.lifecycle".to_string(),
        "runtime.ecs.write".to_string(),
    ])
    .resolve(empty_schema());
    assert!(contract.has_runtime("runtime.lifecycle"));
    assert!(!contract.has_runtime("runtime.ecs.write"));
}
