//! The public package contract that a manifest must meet before a mod is loaded.
//!
//! The checks run in a fixed order and the first violation is reported, with the
//! message the loader shows for it.
use vstd::prelude::*;
use crate::text::{starts_with, str_starts_with, str_equal, concat3, concat5};
use crate::ident::{is_valid_id, is_identifier, valid_id, valid_identifier};
use crate::manifest::{
    ModManifest, SettingDefinition, SettingGroup, SettingValueType, JsonKind, UiSection,
    UiTab, UiComponent, UiComponentType,
};

verus! {

/// The first of two outcomes that reports a problem.
pub open spec fn either(a: Option<Seq<char>>, b: Option<Seq<char>>) -> Option<Seq<char>> {
    match a {
        Some(m) => Some(m),
        None => b,
    }
}

/// An outcome computed in code agrees with the stated one.
pub open spec fn reports(r: Option<String>, p: Option<Seq<char>>) -> bool {
    match r {
        Some(s) => p == Some(s@),
        None => p is None,
    }
}

pub open spec fn is_https(url: Seq<char>) -> bool {
    starts_with(url, "https://"@)
}

/// `name` is one of `names`.
pub open spec fn listed(names: Seq<String>, name: Seq<char>) -> bool {
    exists|j: int| 0 <= j < names.len() && #[trigger] names[j]@ == name
}

fn is_listed(names: &Vec<String>, name: &str) -> (r: bool)
    ensures
        r == listed(names@, name@),
{
    for j in 0..names.len()
        invariant
            forall|k: int| 0 <= k < j ==> #[trigger] names@[k]@ != name@,
    {
        if str_equal(names[j].as_str(), name) {
            return true;
        }
    }
    false
}

// ---------------------------------------------------------------------------
// Links

pub open spec fn link_problem(name: Seq<char>, url: Seq<char>, known: Seq<String>) -> Option<Seq<char>> {
    if !listed(known, name) {
        Some("unsupported mod link '"@ + name + "'"@)
    } else if !is_https(url) {
        Some("mod link '"@ + name + "' must use HTTPS"@)
    } else {
        None
    }
}

/// The first problem among the links from position `i` on.
pub open spec fn links_problem(links: Seq<(String, String)>, known: Seq<String>, i: int) -> Option<Seq<char>>
    decreases links.len() - i,
{
    if i < 0 || i >= links.len() {
        None
    } else {
        either(link_problem(links[i].0@, links[i].1@, known), links_problem(links, known, i + 1))
    }
}

fn check_links(links: &Vec<(String, String)>, known: &Vec<String>) -> (r: Option<String>)
    ensures
        reports(r, links_problem(links@, known@, 0)),
{
    for i in 0..links.len()
        invariant
            links_problem(links@, known@, 0) == links_problem(links@, known@, i as int),
    {
        let name = links[i].0.as_str();
        let url = links[i].1.as_str();
        if !is_listed(known, name) {
            return Some(concat3("unsupported mod link '", name, "'"));
        }
        if !str_starts_with(url, "https://") {
            return Some(concat3("mod link '", name, "' must use HTTPS"));
        }
    }
    None
}

// ---------------------------------------------------------------------------
// Settings

/// The default value has the JSON type that the setting declares.
pub open spec fn default_fits(value_type: SettingValueType, kind: JsonKind) -> bool {
    match value_type {
        SettingValueType::Boolean => kind == JsonKind::Boolean,
        SettingValueType::String => kind == JsonKind::String,
        SettingValueType::Integer => kind == JsonKind::Integer,
        SettingValueType::Number => kind == JsonKind::Integer || kind == JsonKind::Number,
        SettingValueType::Array => kind == JsonKind::Array,
    }
}

fn default_fits_exec(value_type: SettingValueType, kind: JsonKind) -> (r: bool)
    ensures
        r == default_fits(value_type, kind),
{
    match value_type {
        SettingValueType::Boolean => kind == JsonKind::Boolean,
        SettingValueType::String => kind == JsonKind::String,
        SettingValueType::Integer => kind == JsonKind::Integer,
        SettingValueType::Number => kind == JsonKind::Integer || kind == JsonKind::Number,
        SettingValueType::Array => kind == JsonKind::Array,
    }
}

/// An earlier setting has the same key as setting `i`.
pub open spec fn key_seen_before(settings: Seq<SettingDefinition>, i: int) -> bool {
    exists|j: int| 0 <= j < i && #[trigger] settings[j].key@ == settings[i].key@
}

fn key_seen(settings: &Vec<SettingDefinition>, i: usize) -> (r: bool)
    requires
        i < settings@.len(),
    ensures
        r == key_seen_before(settings@, i as int),
{
    for j in 0..i
        invariant
            i < settings@.len(),
            forall|k: int| 0 <= k < j ==> #[trigger] settings@[k].key@ != settings@[i as int].key@,
    {
        if str_equal(settings[j].key.as_str(), settings[i].key.as_str()) {
            return true;
        }
    }
    false
}

pub open spec fn setting_problem(settings: Seq<SettingDefinition>, i: int) -> Option<Seq<char>> {
    let setting = settings[i];
    let key = setting.key@;
    if !is_identifier(key) || key_seen_before(settings, i) {
        Some("setting key '"@ + key + "' is invalid or duplicated"@)
    } else if !default_fits(setting.value_type, setting.default_kind) {
        Some("setting '"@ + key + "' has an invalid default value"@)
    } else if setting.range_inverted {
        Some("setting '"@ + key + "' has minimum greater than maximum"@)
    } else if setting.step_invalid {
        Some("setting '"@ + key + "' has an invalid step"@)
    } else {
        None
    }
}

/// A setting whose key is a fresh identifier and whose range and step are sound is
/// accepted exactly when its default is a JSON value of its declared type: any JSON
/// number for a number setting (an integer one too), an integer for an integer
/// setting, and a boolean, string or array for a setting of that type.
pub proof fn default_follows_declared_type(settings: Seq<SettingDefinition>, i: int)
    requires
        0 <= i < settings.len(),
        is_identifier(settings[i].key@),
        !key_seen_before(settings, i),
        !settings[i].range_inverted,
        !settings[i].step_invalid,
    ensures
        ({
            let t = settings[i].value_type;
            let k = settings[i].default_kind;
            setting_problem(settings, i) is None <==> {
                &&& t == SettingValueType::Number ==> (k == JsonKind::Integer || k == JsonKind::Number)
                &&& t == SettingValueType::Integer ==> k == JsonKind::Integer
                &&& t == SettingValueType::Boolean ==> k == JsonKind::Boolean
                &&& t == SettingValueType::String ==> k == JsonKind::String
                &&& t == SettingValueType::Array ==> k == JsonKind::Array
            }
        }),
{
}

pub open spec fn settings_problem(settings: Seq<SettingDefinition>, i: int) -> Option<Seq<char>>
    decreases settings.len() - i,
{
    if i < 0 || i >= settings.len() {
        None
    } else {
        either(setting_problem(settings, i), settings_problem(settings, i + 1))
    }
}

fn check_settings(settings: &Vec<SettingDefinition>) -> (r: Option<String>)
    ensures
        reports(r, settings_problem(settings@, 0)),
{
    for i in 0..settings.len()
        invariant
            settings_problem(settings@, 0) == settings_problem(settings@, i as int),
    {
        let setting = &settings[i];
        let key = setting.key.as_str();
        if !valid_identifier(key) || key_seen(settings, i) {
            return Some(concat3("setting key '", key, "' is invalid or duplicated"));
        }
        if !default_fits_exec(setting.value_type, setting.default_kind) {
            return Some(concat3("setting '", key, "' has an invalid default value"));
        }
        if setting.range_inverted {
            return Some(concat3("setting '", key, "' has minimum greater than maximum"));
        }
        if setting.step_invalid {
            return Some(concat3("setting '", key, "' has an invalid step"));
        }
    }
    None
}

// ---------------------------------------------------------------------------
// Setting groups

/// An earlier group has the same id as group `i`.
pub open spec fn group_seen_before(groups: Seq<SettingGroup>, i: int) -> bool {
    exists|j: int| 0 <= j < i && #[trigger] groups[j].id@ == groups[i].id@
}

fn group_seen(groups: &Vec<SettingGroup>, i: usize) -> (r: bool)
    requires
        i < groups@.len(),
    ensures
        r == group_seen_before(groups@, i as int),
{
    for j in 0..i
        invariant
            i < groups@.len(),
            forall|k: int| 0 <= k < j ==> #[trigger] groups@[k].id@ != groups@[i as int].id@,
    {
        if str_equal(groups[j].id.as_str(), groups[i].id.as_str()) {
            return true;
        }
    }
    false
}

pub open spec fn groups_problem(groups: Seq<SettingGroup>, i: int) -> Option<Seq<char>>
    decreases groups.len() - i,
{
    if i < 0 || i >= groups.len() {
        None
    } else if !is_identifier(groups[i].id@) || group_seen_before(groups, i) {
        Some("setting group '"@ + groups[i].id@ + "' is invalid or duplicated"@)
    } else {
        groups_problem(groups, i + 1)
    }
}

fn check_groups(groups: &Vec<SettingGroup>) -> (r: Option<String>)
    ensures
        reports(r, groups_problem(groups@, 0)),
{
    for i in 0..groups.len()
        invariant
            groups_problem(groups@, 0) == groups_problem(groups@, i as int),
    {
        let id = groups[i].id.as_str();
        if !valid_identifier(id) || group_seen(groups, i) {
            return Some(concat3("setting group '", id, "' is invalid or duplicated"));
        }
    }
    None
}

/// Some group has the id `id`.
pub open spec fn has_group(groups: Seq<SettingGroup>, id: Seq<char>) -> bool {
    exists|j: int| 0 <= j < groups.len() && #[trigger] groups[j].id@ == id
}

fn find_group(groups: &Vec<SettingGroup>, id: &str) -> (r: bool)
    ensures
        r == has_group(groups@, id@),
{
    for j in 0..groups.len()
        invariant
            forall|k: int| 0 <= k < j ==> #[trigger] groups@[k].id@ != id@,
    {
        if str_equal(groups[j].id.as_str(), id) {
            return true;
        }
    }
    false
}

pub open spec fn group_ref_problem(setting: SettingDefinition, groups: Seq<SettingGroup>) -> Option<Seq<char>> {
    match setting.group {
        Some(group) => if has_group(groups, group@) {
            None
        } else {
            Some("setting '"@ + setting.key@ + "' references unknown group '"@ + group@ + "'"@)
        },
        None => None,
    }
}

pub open spec fn group_refs_problem(settings: Seq<SettingDefinition>, groups: Seq<SettingGroup>, i: int) -> Option<Seq<char>>
    decreases settings.len() - i,
{
    if i < 0 || i >= settings.len() {
        None
    } else {
        either(group_ref_problem(settings[i], groups), group_refs_problem(settings, groups, i + 1))
    }
}

fn check_group_refs(settings: &Vec<SettingDefinition>, groups: &Vec<SettingGroup>) -> (r: Option<String>)
    ensures
        reports(r, group_refs_problem(settings@, groups@, 0)),
{
    for i in 0..settings.len()
        invariant
            group_refs_problem(settings@, groups@, 0) == group_refs_problem(settings@, groups@, i as int),
    {
        let setting = &settings[i];
        match &setting.group {
            Some(group) => {
                if !find_group(groups, group.as_str()) {
                    return Some(concat5("setting '", setting.key.as_str(), "' references unknown group '", group.as_str(), "'"));
                }
            },
            None => {},
        }
    }
    None
}

// ---------------------------------------------------------------------------
// Custom UI

/// Some setting has the key `key`.
pub open spec fn has_setting(settings: Seq<SettingDefinition>, key: Seq<char>) -> bool {
    exists|j: int| 0 <= j < settings.len() && #[trigger] settings[j].key@ == key
}

fn find_setting(settings: &Vec<SettingDefinition>, key: &str) -> (r: bool)
    ensures
        r == has_setting(settings@, key@),
{
    for j in 0..settings.len()
        invariant
            forall|k: int| 0 <= k < j ==> #[trigger] settings@[k].key@ != key@,
    {
        if str_equal(settings[j].key.as_str(), key) {
            return true;
        }
    }
    false
}

pub open spec fn component_problem(component: UiComponent, settings: Seq<SettingDefinition>) -> Option<Seq<char>> {
    match component.component_type {
        UiComponentType::Setting => match component.key {
            Some(key) => if has_setting(settings, key@) {
                None
            } else {
                Some("ui setting component references an unknown setting"@)
            },
            None => Some("ui setting component references an unknown setting"@),
        },
        UiComponentType::Button => match component.action {
            Some(action) => if is_identifier(action@) {
                None
            } else {
                Some("ui button requires a valid action"@)
            },
            None => Some("ui button requires a valid action"@),
        },
        UiComponentType::Link => match component.url {
            Some(url) => if is_https(url@) {
                None
            } else {
                Some("ui links must use HTTPS"@)
            },
            None => Some("ui links must use HTTPS"@),
        },
        _ => None,
    }
}

fn check_component(component: &UiComponent, settings: &Vec<SettingDefinition>) -> (r: Option<String>)
    ensures
        reports(r, component_problem(*component, settings@)),
{
    match component.component_type {
        UiComponentType::Setting => {
            let known = match &component.key {
                Some(key) => find_setting(settings, key.as_str()),
                None => false,
            };
            if known {
                None
            } else {
                Some(String::from_str("ui setting component references an unknown setting"))
            }
        },
        UiComponentType::Button => {
            let valid = match &component.action {
                Some(action) => valid_identifier(action.as_str()),
                None => false,
            };
            if valid {
                None
            } else {
                Some(String::from_str("ui button requires a valid action"))
            }
        },
        UiComponentType::Link => {
            let secure = match &component.url {
                Some(url) => str_starts_with(url.as_str(), "https://"),
                None => false,
            };
            if secure {
                None
            } else {
                Some(String::from_str("ui links must use HTTPS"))
            }
        },
        _ => None,
    }
}

pub open spec fn components_problem(components: Seq<UiComponent>, settings: Seq<SettingDefinition>, i: int) -> Option<Seq<char>>
    decreases components.len() - i,
{
    if i < 0 || i >= components.len() {
        None
    } else {
        either(component_problem(components[i], settings), components_problem(components, settings, i + 1))
    }
}

/// The first problem among the components of the sections from position `i` on.
pub open spec fn sections_problem(sections: Seq<UiSection>, settings: Seq<SettingDefinition>, i: int) -> Option<Seq<char>>
    decreases sections.len() - i,
{
    if i < 0 || i >= sections.len() {
        None
    } else {
        either(components_problem(sections[i].components@, settings, 0), sections_problem(sections, settings, i + 1))
    }
}

fn check_components(components: &Vec<UiComponent>, settings: &Vec<SettingDefinition>) -> (r: Option<String>)
    ensures
        reports(r, components_problem(components@, settings@, 0)),
{
    for i in 0..components.len()
        invariant
            components_problem(components@, settings@, 0) == components_problem(components@, settings@, i as int),
    {
        let found = check_component(&components[i], settings);
        if found.is_some() {
            return found;
        }
    }
    None
}

fn check_sections(sections: &Vec<UiSection>, settings: &Vec<SettingDefinition>) -> (r: Option<String>)
    ensures
        reports(r, sections_problem(sections@, settings@, 0)),
{
    for i in 0..sections.len()
        invariant
            sections_problem(sections@, settings@, 0) == sections_problem(sections@, settings@, i as int),
    {
        let found = check_components(&sections[i].components, settings);
        if found.is_some() {
            return found;
        }
    }
    None
}

pub open spec fn tab_problem(tab: UiTab, settings: Seq<SettingDefinition>) -> Option<Seq<char>> {
    if !is_identifier(tab.id@) || tab.sections@.len() == 0 {
        Some("ui tab id is invalid or contains no sections"@)
    } else {
        sections_problem(tab.sections@, settings, 0)
    }
}

pub open spec fn tabs_problem(tabs: Seq<UiTab>, settings: Seq<SettingDefinition>, i: int) -> Option<Seq<char>>
    decreases tabs.len() - i,
{
    if i < 0 || i >= tabs.len() {
        None
    } else {
        either(tab_problem(tabs[i], settings), tabs_problem(tabs, settings, i + 1))
    }
}

fn check_tabs(tabs: &Vec<UiTab>, settings: &Vec<SettingDefinition>) -> (r: Option<String>)
    ensures
        reports(r, tabs_problem(tabs@, settings@, 0)),
{
    for i in 0..tabs.len()
        invariant
            tabs_problem(tabs@, settings@, 0) == tabs_problem(tabs@, settings@, i as int),
    {
        let tab = &tabs[i];
        if !valid_identifier(tab.id.as_str()) || tab.sections.len() == 0 {
            return Some(String::from_str("ui tab id is invalid or contains no sections"));
        }
        let found = check_sections(&tab.sections, settings);
        if found.is_some() {
            return found;
        }
    }
    None
}

// ---------------------------------------------------------------------------
// The whole manifest

pub open spec fn ui_layout_problem(sections: Seq<UiSection>, tabs: Seq<UiTab>) -> Option<Seq<char>> {
    if sections.len() > 0 && tabs.len() > 0 {
        Some("ui must use either sections or tabs, not both"@)
    } else {
        None
    }
}

/// The first violation of the package contract, in the order the checks run, or
/// `None` when the manifest meets it. `known_links` are the link names that the
/// configured link registry lists.
pub open spec fn manifest_problem(manifest: ModManifest, known_links: Seq<String>) -> Option<Seq<char>> {
    if !is_valid_id(manifest.id@) {
        Some("mod id is invalid"@)
    } else {
        either(links_problem(manifest.links@, known_links, 0),
        either(settings_problem(manifest.settings@, 0),
        either(groups_problem(manifest.setting_groups@, 0),
        either(group_refs_problem(manifest.settings@, manifest.setting_groups@, 0),
        either(ui_layout_problem(manifest.ui.sections@, manifest.ui.tabs@),
        either(sections_problem(manifest.ui.sections@, manifest.settings@, 0),
            tabs_problem(manifest.ui.tabs@, manifest.settings@, 0)))))))
    }
}

/// Validates the public package contract without loading or executing a mod.
/// `known_links` are the link names of the configured link registry.
pub fn validate_manifest(manifest: &ModManifest, known_links: &Vec<String>) -> (r: Result<(), String>)
    ensures
        r is Ok <==> manifest_problem(*manifest, known_links@) is None,
        r matches Err(message) ==> manifest_problem(*manifest, known_links@) == Some(message@),
{
    if !valid_id(manifest.id.as_str()) {
        return Err(String::from_str("mod id is invalid"));
    }
    let found = check_links(&manifest.links, known_links);
    if let Some(message) = found {
        return Err(message);
    }
    let found = check_settings(&manifest.settings);
    if let Some(message) = found {
        return Err(message);
    }
    let found = check_groups(&manifest.setting_groups);
    if let Some(message) = found {
        return Err(message);
    }
    let found = check_group_refs(&manifest.settings, &manifest.setting_groups);
    if let Some(message) = found {
        return Err(message);
    }
    if manifest.ui.sections.len() > 0 && manifest.ui.tabs.len() > 0 {
        return Err(String::from_str("ui must use either sections or tabs, not both"));
    }
    let found = check_sections(&manifest.ui.sections, &manifest.settings);
    if let Some(message) = found {
        return Err(message);
    }
    let found = check_tabs(&manifest.ui.tabs, &manifest.settings);
    if let Some(message) = found {
        return Err(message);
    }
    Ok(())
}

} // verus!
