use shroudforge::environment::{ConflictRule, ConflictSide, ModEnvironment, PlanError};
use shroudforge::manifest::{Capability, Dependency, ModManifest, ModTarget, ModUi, ReleaseMetadata};

fn manifest(id: &str, version: &str, capabilities: Vec<Capability>, dependencies: Vec<Dependency>, target: ModTarget, enabled: bool) -> ModManifest {
    ModManifest {
        id: id.to_string(),
        name: id.to_string(),
        version: version.to_string(),
        api: None,
        capabilities,
        dependencies,
        authors: Vec::new(),
        description: None,
        license: None,
        icon: None,
        target,
        release: ReleaseMetadata { changelog: Vec::new() },
        setting_groups: Vec::new(),
        settings: Vec::new(),
        ui: ModUi { sections: Vec::new(), tabs: Vec::new() },
        enabled,
        links: Vec::new(),
    }
}

fn dependency(id: &str, version: &str, optional: Option<bool>) -> Dependency {
    Dependency { id: id.to_string(), version: version.to_string(), optional }
}

fn planned_ids(env: &ModEnvironment, plan: &[usize]) -> Vec<String> {
    plan.iter().map(|&i| env.mod_registry().at(i).id.clone()).collect()
}

fn messages(errors: &[PlanError]) -> Vec<String> {
    errors.iter().map(|e| e.message()).collect()
}

#[test]
fn disabled_mods_remain_installed_but_are_not_enabled() {
    let mut example = manifest("mod.example", "1.0.0", vec![Capability::Runtime], Vec::new(), ModTarget::Client, false);
    example.name = "Example".to_string();
    example.api = Some("^1.0.0".to_string());
    let (environment, rejected) = ModEnvironment::load(vec![example]);
    assert!(rejected.is_empty());
    assert!(environment.mod_registry().contains_key("mod.example"));
    assert!(!environment.is_mod_enabled("mod.example"));
    assert_eq!(environment.enabled_mods().len(), 0);
}

#[test]
fn duplicate_ids_reject_every_copy() {
    let (environment, rejected) = ModEnvironment::load(vec![
        manifest("a", "1.0.0", vec![], vec![], ModTarget::Both, true),
        manifest("b", "1.0.0", vec![], vec![], ModTarget::Both, true),
        manifest("a", "2.0.0", vec![], vec![], ModTarget::Both, true),
    ]);
    assert_eq!(rejected, vec!["a".to_string()]);
    assert!(!environment.mod_registry().contains_key("a"));
    assert!(environment.mod_registry().contains_key("b"));
    assert_eq!(environment.mod_registry().len(), 1);
    let (_, three) = ModEnvironment::load(vec![
        manifest("a", "1.0.0", vec![], vec![], ModTarget::Both, true),
        manifest("a", "1.0.1", vec![], vec![], ModTarget::Both, true),
        manifest("a", "1.0.2", vec![], vec![], ModTarget::Both, true),
    ]);
    assert_eq!(three, vec!["a".to_string(), "a".to_string()]);
}

#[test]
fn dependencies_are_planned_before_their_dependents() {
    let (environment, _) = ModEnvironment::load(vec![
        manifest("alpha", "1.0.0", vec![], vec![dependency("zeta", "^1.2", None)], ModTarget::Both, true),
        manifest("zeta", "1.4.0", vec![], vec![], ModTarget::Both, true),
    ]);
    let (plan, errors) = environment.plan_report(&Vec::new(), false, "1.0.0");
    assert!(errors.is_empty());
    assert_eq!(planned_ids(&environment, &plan), vec!["zeta".to_string(), "alpha".to_string()]);
}

#[test]
fn plan_reports_why_each_mod_is_left_out() {
    let (environment, _) = ModEnvironment::load(vec![
        manifest("client-only", "1.0.0", vec![], vec![], ModTarget::Client, true),
        manifest("needs-missing", "1.0.0", vec![], vec![dependency("absent", "*", None)], ModTarget::Both, true),
        manifest("needs-newer", "1.0.0", vec![], vec![dependency("old", ">=2.0.0", None)], ModTarget::Both, true),
        manifest("old", "1.0.0", vec![], vec![], ModTarget::Both, true),
        manifest("optional-user", "1.0.0", vec![], vec![dependency("absent", "*", Some(true))], ModTarget::Both, true),
    ]);
    let (plan, errors) = environment.plan_report(&Vec::new(), true, "1.0.0");
    assert_eq!(
        messages(&errors),
        vec![
            "client-only: wrong process target".to_string(),
            "needs-missing: missing absent".to_string(),
            "needs-newer: incompatible old".to_string(),
        ]
    );
    assert_eq!(planned_ids(&environment, &plan), vec!["old".to_string(), "optional-user".to_string()]);
}

#[test]
fn api_requirement_and_api_dependency_are_checked() {
    let mut wants_newer = manifest("wants-newer", "1.0.0", vec![], vec![], ModTarget::Both, true);
    wants_newer.api = Some(">=2.0".to_string());
    let api_dependency = manifest("api-dep", "1.0.0", vec![], vec![dependency("shroudforge-api", "^3", None)], ModTarget::Both, true);
    let (environment, _) = ModEnvironment::load(vec![wants_newer, api_dependency]);
    let (plan, errors) = environment.plan_report(&Vec::new(), false, "1.0.0");
    assert!(plan.is_empty());
    assert_eq!(
        messages(&errors),
        vec!["api-dep: incompatible API dependency".to_string(), "wants-newer: API >=2.0 required".to_string()]
    );
}

#[test]
fn dependency_cycles_and_disabled_dependencies_are_errors() {
    let (environment, _) = ModEnvironment::load(vec![
        manifest("a", "1.0.0", vec![], vec![dependency("b", "*", None)], ModTarget::Both, true),
        manifest("b", "1.0.0", vec![], vec![dependency("a", "*", None)], ModTarget::Both, true),
        manifest("c", "1.0.0", vec![], vec![dependency("d", "*", None)], ModTarget::Both, true),
        manifest("d", "1.0.0", vec![], vec![], ModTarget::Both, false),
    ]);
    let (plan, errors) = environment.plan_report(&Vec::new(), false, "1.0.0");
    assert!(plan.is_empty());
    let messages = messages(&errors);
    assert!(messages.contains(&"dependency cycle: a".to_string()));
    assert!(messages.contains(&"disabled dependency: d".to_string()));
}

#[test]
fn conflicting_mods_are_both_blocked() {
    let (environment, _) = ModEnvironment::load(vec![
        manifest("first", "1.0.0", vec![], vec![], ModTarget::Both, true),
        manifest("second", "2.1.0", vec![], vec![], ModTarget::Both, true),
        manifest("third", "1.0.0", vec![], vec![], ModTarget::Both, true),
    ]);
    let rules = vec![ConflictRule {
        first: ConflictSide { id: "first".to_string(), version: "*".to_string() },
        second: ConflictSide { id: "second".to_string(), version: ">=2".to_string() },
        reason: "both patch the same table".to_string(),
    }];
    let (plan, errors) = environment.plan_report(&rules, false, "1.0.0");
    assert_eq!(planned_ids(&environment, &plan), vec!["third".to_string()]);
    assert_eq!(
        messages(&errors),
        vec!["first: both patch the same table".to_string(), "second: both patch the same table".to_string()]
    );
}

#[test]
fn an_invalid_rule_plans_nothing() {
    let (environment, _) = ModEnvironment::load(vec![manifest("first", "1.0.0", vec![], vec![], ModTarget::Both, true)]);
    let rules = vec![ConflictRule {
        first: ConflictSide { id: "first".to_string(), version: "not a range".to_string() },
        second: ConflictSide { id: "other".to_string(), version: "*".to_string() },
        reason: "x".to_string(),
    }];
    let (plan, errors) = environment.plan_report(&rules, false, "1.0.0");
    assert!(plan.is_empty());
    assert_eq!(errors.len(), 1);
    assert!(errors[0].message().starts_with("compatibility rules: "));
    assert!(matches!(errors[0], PlanError::InvalidRule { .. }));
}

#[test]
fn plan_checked_refuses_an_unparsable_api_version() {
    let (environment, _) = ModEnvironment::load(vec![manifest("first", "1.0.0", vec![], vec![], ModTarget::Both, true)]);
    assert!(environment.plan_checked(&Vec::new(), false, "one").is_none());
    assert_eq!(environment.plan_checked(&Vec::new(), false, "1.0.0").map(|p| p.len()), Some(1));
}
