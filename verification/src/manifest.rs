//! The package manifest that every mod ships as `mod.json`, as the loader reads it.
use vstd::prelude::*;

verus! {

/// The process a mod runs in.
#[derive(Clone, Copy, PartialEq, Eq, Structural, Debug)]
pub enum ModTarget {
    Client,
    Server,
    Both,
}

impl ModTarget {
    /// `both` is the default target of a manifest that names none.
    pub fn default_target() -> (t: ModTarget)
        ensures
            t == ModTarget::Both,
    {
        ModTarget::Both
    }
}

/// A feature that a mod needs.
#[derive(Clone, Copy, PartialEq, Eq, Structural, Debug)]
pub enum Capability {
    Export,
    AssetsWrite,
    Runtime,
}

/// Changelog lines of a release.
#[derive(Clone, Debug)]
pub struct ReleaseMetadata {
    pub changelog: Vec<String>,
}

/// A named group of settings.
#[derive(Clone, Debug)]
pub struct SettingGroup {
    pub id: String,
    pub label: String,
    pub description: Option<String>,
}

/// The JSON type a setting value has.
#[derive(Clone, Copy, PartialEq, Eq, Structural, Debug)]
pub enum SettingValueType {
    Boolean,
    String,
    Integer,
    Number,
    Array,
}

/// How the modloader UI shows a setting.
#[derive(Clone, Copy, PartialEq, Eq, Structural, Debug)]
pub enum SettingControl {
    Toggle,
    Checkbox,
    Text,
    Textarea,
    Number,
    Slider,
    Select,
    Radio,
    Segmented,
    Multiselect,
    Keybind,
    Color,
}

/// The kind of a JSON value, as far as setting defaults are checked against it.
#[derive(Clone, Copy, PartialEq, Eq, Structural, Debug)]
pub enum JsonKind {
    Null,
    Boolean,
    String,
    /// A number that fits an `i64`.
    Integer,
    /// Any other number.
    Number,
    Array,
    Object,
}

/// One choice of a select-like setting.
#[derive(Clone, Debug)]
pub struct SettingOption {
    pub value: String,
    pub label: String,
}

/// A declared setting of a mod.
///
/// The floating-point `minimum`, `maximum` and `step` of a manifest are compared by
/// the caller, which records the outcome in `range_inverted` (minimum greater than
/// maximum) and `step_invalid` (a step that is not finite or not positive).
#[derive(Clone, Debug)]
pub struct SettingDefinition {
    pub key: String,
    pub value_type: SettingValueType,
    pub control: Option<SettingControl>,
    pub label: String,
    pub description: Option<String>,
    pub default_kind: JsonKind,
    pub group: Option<String>,
    pub range_inverted: bool,
    pub step_invalid: bool,
    pub minimum_length: Option<usize>,
    pub maximum_length: Option<usize>,
    pub options: Vec<SettingOption>,
    pub restart_required: bool,
    pub apply_at: String,
}

/// Custom UI of a mod: either sections or tabs.
#[derive(Clone, Debug)]
pub struct ModUi {
    pub sections: Vec<UiSection>,
    pub tabs: Vec<UiTab>,
}

#[derive(Clone, Debug)]
pub struct UiTab {
    pub id: String,
    pub label: String,
    pub sections: Vec<UiSection>,
}

#[derive(Clone, Debug)]
pub struct UiSection {
    pub title: Option<String>,
    pub description: Option<String>,
    pub components: Vec<UiComponent>,
}

#[derive(Clone, Debug)]
pub struct UiComponent {
    pub component_type: UiComponentType,
    pub key: Option<String>,
    pub text: Option<String>,
    pub label: Option<String>,
    pub level: Option<String>,
    pub binding: Option<String>,
    pub action: Option<String>,
    pub style: Option<String>,
    pub confirmation: Option<String>,
    pub url: Option<String>,
    pub src: Option<String>,
    pub alt: Option<String>,
}

#[derive(Clone, Copy, PartialEq, Eq, Structural, Debug)]
pub enum UiComponentType {
    Setting,
    Text,
    Notice,
    Status,
    Button,
    Link,
    Separator,
    Image,
}

/// A dependency on another mod, or on `shroudforge-api`, with a version requirement.
#[derive(Clone, Debug)]
pub struct Dependency {
    pub id: String,
    /// The semantic-version requirement, as written in the manifest.
    pub version: String,
    pub optional: Option<bool>,
}

/// The internal view of a package manifest.
#[derive(Clone, Debug)]
pub struct ModManifest {
    pub id: String,
    pub name: String,
    /// The mod's semantic version, as written in the manifest.
    pub version: String,
    /// The API requirement the package still names, if any.
    pub api: Option<String>,
    pub capabilities: Vec<Capability>,
    pub dependencies: Vec<Dependency>,
    pub authors: Vec<String>,
    pub description: Option<String>,
    pub license: Option<String>,
    pub icon: Option<String>,
    pub target: ModTarget,
    pub release: ReleaseMetadata,
    pub setting_groups: Vec<SettingGroup>,
    pub settings: Vec<SettingDefinition>,
    pub ui: ModUi,
    pub enabled: bool,
    /// Named links (`name`, `url`).
    pub links: Vec<(String, String)>,
}

impl ModManifest {
    pub open spec fn has_capability(&self, capability: Capability) -> bool {
        self.capabilities@.contains(capability)
    }

    /// Whether the manifest lists `capability`.
    pub fn capability(&self, capability: Capability) -> (r: bool)
        ensures
            r == self.has_capability(capability),
    {
        for i in 0..self.capabilities.len()
            invariant
                forall|j: int| 0 <= j < i ==> self.capabilities@[j] != capability,
        {
            if self.capabilities[i] == capability {
                assert(self.capabilities@[i as int] == capability);
                return true;
            }
        }
        false
    }
}

} // verus!
