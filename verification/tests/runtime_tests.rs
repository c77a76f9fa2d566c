use shroudforge::compat::Compatibility;
use shroudforge::ecs::{collect_changed_ranges, merge_ranges, LayoutField, LayoutKind, LayoutType};
use shroudforge::manifest::Capability;
use shroudforge::runtime::{available, component_check, ecs_precheck, feature_status, has_capability_for_feature, plan_component_write,
    require_feature, runtime_denial_reason, runtime_type_check, serialized_check, source_check, write_outcome, FeatureContext, RuntimePhase, WritePlan};
use shroudforge::compat::Availability;
use shroudforge::schema::{GameSchema, TypeDefinition};

fn plain(name: &str, size: u32) -> LayoutType {
    LayoutType { qualified_name: name.to_string(), size, kind: LayoutKind::Plain, inner_type: None, fields: Vec::new(), field_count: 0 }
}

fn registry() -> Vec<LayoutType> {
    vec![
        plain("u32", 4),
        LayoutType {
            qualified_name: "keen::ecs::Health".to_string(),
            size: 12,
            kind: LayoutKind::Struct,
            inner_type: None,
            fields: vec![
                LayoutField { name: "current".to_string(), type_index: 0, data_offset: 0 },
                LayoutField { name: "maximum".to_string(), type_index: 0, data_offset: 4 },
                LayoutField { name: "label".to_string(), type_index: 2, data_offset: 8 },
            ],
            field_count: 3,
        },
        LayoutType { qualified_name: "string".to_string(), size: 4, kind: LayoutKind::Dynamic, inner_type: None, fields: Vec::new(), field_count: 0 },
        LayoutType { qualified_name: "u32[2]".to_string(), size: 8, kind: LayoutKind::StaticArray, inner_type: Some(0), fields: Vec::new(), field_count: 2 },
    ]
}

fn contract(operations: &[&str]) -> shroudforge::compat::GameContract {
    let anchor = TypeDefinition {
        name: "CurrentTransform".to_string(),
        impact_name: "CurrentTransform".to_string(),
        qualified_name: "keen::ecs::CurrentTransform".to_string(),
        namespace: vec!["keen".to_string(), "ecs".to_string()],
        inner_type: None,
        primitive: "Struct".to_string(),
        size: 48,
        alignment: 16,
        element_alignment: 0,
        field_count: 0,
        fields: Vec::new(),
        enum_values: Vec::new(),
    };
    let schema = GameSchema { parser: "test".to_string(), game_version: "build-1".to_string(), types: vec![anchor], resources: Vec::new() };
    Compatibility::new(operations.iter().map(|s| s.to_string()).collect()).resolve(schema)
}

fn context(phase: RuntimePhase) -> FeatureContext {
    FeatureContext { phase, assets_write: true, export: false, provider_ready: true, provider_can_write: false }
}

#[test]
fn changed_plain_fields_become_merged_ranges() {
    let source = vec![0u8; 12];
    let mut candidate = source.clone();
    candidate[1] = 7;
    candidate[6] = 9;
    assert_eq!(collect_changed_ranges(&registry(), 1, &source, &candidate), Ok(vec![(0, 8)]));
    let mut only_second = source.clone();
    only_second[5] = 1;
    assert_eq!(collect_changed_ranges(&registry(), 1, &source, &only_second), Ok(vec![(4, 8)]));
    assert_eq!(collect_changed_ranges(&registry(), 1, &source, &source), Ok(Vec::new()));
    let mut array = vec![0u8; 8];
    array[7] = 1;
    assert_eq!(collect_changed_ranges(&registry(), 3, &vec![0u8; 8], &array), Ok(vec![(4, 8)]));
}

#[test]
fn dynamic_and_oversized_layouts_are_refused() {
    let source = vec![0u8; 12];
    let mut candidate = source.clone();
    candidate[9] = 1;
    assert_eq!(
        collect_changed_ranges(&registry(), 1, &source, &candidate),
        Err("runtime write for dynamic field type is not supported: string".to_string())
    );
    assert_eq!(
        collect_changed_ranges(&registry(), 1, &vec![0u8; 8], &vec![0u8; 8]),
        Err("runtime layout outside component: keen::ecs::Health".to_string())
    );
}

#[test]
fn a_write_takes_only_the_changed_bytes() {
    let source = vec![0u8; 12];
    let mut candidate = source.clone();
    candidate[0] = 5;
    let fresh = vec![1u8; 12];
    match plan_component_write("Health", &registry(), 1, &source, &candidate, Some(fresh.clone())) {
        WritePlan::Write(merged) => assert_eq!(merged, vec![5, 0, 0, 0, 1, 1, 1, 1, 1, 1, 1, 1]),
        _ => panic!("expected a write"),
    }
    assert!(matches!(plan_component_write("Health", &registry(), 1, &source, &source, Some(fresh.clone())), WritePlan::Unchanged));
    match plan_component_write("Health", &registry(), 1, &source, &candidate, None) {
        WritePlan::Reject(m) => assert_eq!(m, "component changed or disappeared: Health"),
        _ => panic!("expected a rejection"),
    }
    assert_eq!(merge_ranges(&vec![1, 1, 1], &vec![2, 2, 2], &vec![(1, 2)]), vec![1, 2, 1]);
}

#[test]
fn component_checks() {
    assert_eq!(component_check("Health", Some(12), Some(12)), Ok(12));
    assert_eq!(component_check("Health", None, Some(12)), Err("live ECS component unavailable: Health".to_string()));
    assert_eq!(component_check("Health", Some(12), None), Err("type metadata unavailable: Health".to_string()));
    assert_eq!(
        component_check("Health", Some(16), Some(12)),
        Err("component layout mismatch for Health: parser=12, runtime=16".to_string())
    );
    assert!(source_check("Health", Some(12), 12).is_none());
    assert!(source_check("Health", Some(11), 12).is_some());
    assert!(serialized_check("Health", 12, 12).is_none());
    assert!(serialized_check("Health", 13, 12).is_some());
    assert_eq!(write_outcome("Health", true), (true, None));
    assert_eq!(write_outcome("Health", false), (false, Some("component write failed: Health".to_string())));
    assert_eq!(runtime_type_check("Health", Some("keen::ecs::Health")), Ok("keen::ecs::Health".to_string()));
    assert_eq!(
        runtime_type_check("Health", Some("keen::Health")),
        Err("runtime ECS operation requires a keen::ecs::* type, got keen::Health".to_string())
    );
    assert_eq!(runtime_type_check("Health", None), Err("runtime type not found: Health".to_string()));
}

#[test]
fn features_follow_phase_capability_and_contract() {
    let verified = contract(&["runtime.lifecycle", "runtime.ecs.read", "runtime.ecs.write"]);
    let runtime = vec![Capability::Runtime];
    assert_eq!(RuntimePhase::Ingame.as_str(), "ingame");
    assert_eq!(RuntimePhase::default_phase(), RuntimePhase::Pregame);
    assert!(available(&context(RuntimePhase::Ingame), &verified, &runtime, "runtime.lifecycle"));
    assert!(!available(&context(RuntimePhase::Pregame), &verified, &runtime, "runtime.lifecycle"));
    assert!(available(&context(RuntimePhase::Ingame), &verified, &runtime, "runtime.ecs.read"));
    assert!(!available(&context(RuntimePhase::Ingame), &verified, &runtime, "runtime.ecs.write"));
    assert!(!available(&context(RuntimePhase::Ingame), &verified, &Vec::new(), "runtime.lifecycle"));
    assert!(available(&context(RuntimePhase::Pregame), &verified, &vec![Capability::AssetsWrite], "game.assets.write"));
    assert!(!available(&context(RuntimePhase::Pregame), &verified, &vec![Capability::Export], "export"));
    assert_eq!(
        require_feature(&context(RuntimePhase::Pregame), &verified, &runtime, "export"),
        Err("ShroudForge feature is unavailable: export".to_string())
    );
    assert!(has_capability_for_feature(&runtime, "runtime.ecs.query"));
    assert!(!has_capability_for_feature(&runtime, "export"));
    assert!(has_capability_for_feature(&Vec::new(), "something.else"));
}

#[test]
fn denials_explain_themselves() {
    let verified = contract(&["runtime.ecs.read"]);
    assert_eq!(
        runtime_denial_reason(RuntimePhase::Pregame, "m", &vec![Capability::Runtime], &verified, "runtime.ecs.read"),
        Some("runtime ECS is available only during the ingame phase".to_string())
    );
    assert_eq!(
        runtime_denial_reason(RuntimePhase::Ingame, "m", &Vec::new(), &verified, "runtime.ecs.read"),
        Some("mod 'm' requires capabilities: [\"runtime\"]".to_string())
    );
    assert_eq!(runtime_denial_reason(RuntimePhase::Ingame, "m", &vec![Capability::Runtime], &verified, "runtime.ecs.read"), None);
    assert_eq!(
        ecs_precheck(RuntimePhase::Ingame, "m", &vec![Capability::Runtime], &verified, "runtime.ecs.read", false),
        Some("KFC Runtime is not ready".to_string())
    );
    let mut waiting = context(RuntimePhase::Ingame);
    waiting.provider_ready = false;
    match feature_status(&waiting, "m", &vec![Capability::Runtime], &verified, "runtime.ecs.read") {
        Availability::Unavailable { reason } => assert_eq!(reason, "KFC Runtime is waiting for the live Keen ECS world"),
        _ => panic!("expected unavailable"),
    }
    match feature_status(&waiting, "m", &Vec::new(), &verified, "runtime.ecs.read") {
        Availability::Unavailable { reason } => assert_eq!(reason, "mod 'm' lacks the required capability"),
        _ => panic!("expected unavailable"),
    }
}
