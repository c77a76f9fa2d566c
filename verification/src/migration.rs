//! One-time conversion of packages written for earlier ShroudForge layouts. The
//! original files are kept; this module decides what a package's migration does.
use vstd::prelude::*;
use crate::ident::{is_valid_id, valid_id};
use crate::text::{str_equal, concat3};
use crate::keyed::{distinct_keys, entries_map, get_key, set_key, lemma_entries_map_dom};
use crate::config::{pair_texts, overlay};

verus! {

/// What the migration of one package does.
#[derive(Debug)]
pub enum MigrationStep {
    /// The package is current and has no legacy values: leave it as it is.
    Nothing,
    /// The package is current; copy the legacy `enabled` and `settings` into it.
    ApplyLegacyValues,
    /// Convert the legacy layout: settings into a schema, extension keys into the
    /// `shroudforge` object, legacy values applied.
    Convert,
}

/// What the migration found about a package.
#[derive(Debug)]
pub struct PackageLayout {
    /// The manifest's `id`, when it is a string.
    pub id: Option<String>,
    /// The manifest already has a `shroudforge` extension object.
    pub has_extension: bool,
    /// A `settings.json` sidecar exists.
    pub has_sidecar: bool,
    /// A `shroudforge.json` extension file exists.
    pub has_extension_file: bool,
    /// A per-mod legacy configuration exists.
    pub has_override: bool,
    /// The legacy central configuration has an entry for the mod.
    pub has_central: bool,
    /// Both legacy configurations exist and they differ.
    pub legacy_conflict: bool,
    /// The manifest still holds settings as an array, or inline extension keys.
    pub old_inline: bool,
}

pub open spec fn migration_spec(layout: PackageLayout) -> Result<MigrationStep, Seq<char>> {
    match layout.id {
        None => Err("missing mod id"@),
        Some(id) => if !is_valid_id(id@) {
            Err("invalid mod id"@)
        } else if layout.legacy_conflict {
            Err(id@ + ": conflicting settings in legacy central and per-mod files"@)
        } else if layout.has_extension && !layout.has_sidecar && !layout.has_extension_file {
            if layout.has_override || layout.has_central {
                Ok(MigrationStep::ApplyLegacyValues)
            } else {
                Ok(MigrationStep::Nothing)
            }
        } else if !layout.has_sidecar && !layout.has_extension_file && !(layout.has_override || layout.has_central)
            && !layout.old_inline {
            Ok(MigrationStep::Nothing)
        } else {
            Ok(MigrationStep::Convert)
        },
    }
}

/// Decides the migration of a package from its layout.
pub fn plan_migration(layout: &PackageLayout) -> (r: Result<MigrationStep, String>)
    ensures
        match migration_spec(*layout) {
            Ok(step) => r matches Ok(s) && s == step,
            Err(m) => r matches Err(e) && e@ == m,
        },
{
    let id = match &layout.id {
        None => return Err(String::from_str("missing mod id")),
        Some(id) => id.as_str(),
    };
    if !valid_id(id) {
        return Err(String::from_str("invalid mod id"));
    }
    proof { reveal_strlit(""); }
    if layout.legacy_conflict {
        return Err(concat3(id, ": conflicting settings in legacy central and per-mod files", ""));
    }
    let legacy = layout.has_override || layout.has_central;
    if layout.has_extension && !layout.has_sidecar && !layout.has_extension_file {
        return if legacy { Ok(MigrationStep::ApplyLegacyValues) } else { Ok(MigrationStep::Nothing) };
    }
    if !layout.has_sidecar && !layout.has_extension_file && !legacy && !layout.old_inline {
        return Ok(MigrationStep::Nothing);
    }
    Ok(MigrationStep::Convert)
}

/// When a converted setting takes effect: a package that patched or wrote assets
/// applies its settings in the asset pass (`prepare`), any other at restart.
pub fn legacy_apply_mode(capabilities: &Vec<String>) -> (r: &'static str)
    ensures
        (exists|i: int| 0 <= i < capabilities@.len() && (#[trigger] capabilities@[i]@ == "patch"@ || capabilities@[i]@ == "assets-write"@))
            ==> r@ == "prepare"@,
        !(exists|i: int| 0 <= i < capabilities@.len() && (#[trigger] capabilities@[i]@ == "patch"@ || capabilities@[i]@ == "assets-write"@))
            ==> r@ == "restart"@,
{
    for i in 0..capabilities.len()
        invariant
            forall|j: int| 0 <= j < i ==> !(#[trigger] capabilities@[j]@ == "patch"@ || capabilities@[j]@ == "assets-write"@),
    {
        let c = capabilities[i].as_str();
        if str_equal(c, "patch") || str_equal(c, "assets-write") {
            return "prepare";
        }
    }
    "restart"
}

/// The manifest keys that move into the `shroudforge` extension object.
pub fn extension_keys() -> (r: Vec<&'static str>)
    ensures
        r@.len() == 5,
        r@[0]@ == "api"@ && r@[1]@ == "target"@ && r@[2]@ == "release"@ && r@[3]@ == "ui"@
            && r@[4]@ == "settingGroups"@,
{
    let mut r: Vec<&'static str> = Vec::new();
    r.push("api");
    r.push("target");
    r.push("release");
    r.push("ui");
    r.push("settingGroups");
    r
}

/// A setting definition of the legacy layout: its `key` when that is a string, its
/// members as JSON texts by name, the whole definition as JSON text, and the JSON
/// texts of its options' values.
#[derive(Debug)]
pub struct LegacyDefinition {
    pub key: Option<String>,
    pub members: Vec<(String, String)>,
    pub text: String,
    pub options: Vec<String>,
}

/// The JSON text of a member, or `null` when the definition lacks it.
pub open spec fn member_or_null(members: Seq<(String, String)>, name: Seq<char>) -> Seq<char> {
    if entries_map(members).dom().contains(name) {
        entries_map(members)[name]@
    } else {
        "null"@
    }
}

fn member(members: &Vec<(String, String)>, name: &str) -> (r: Option<String>)
    requires
        distinct_keys(members@),
    ensures
        r is Some == entries_map(members@).dom().contains(name@),
        r matches Some(v) ==> v@ == entries_map(members@)[name@]@,
{
    match get_key(members, name) {
        Some(v) => Some(v.clone()),
        None => None,
    }
}

fn member_or_null_text(members: &Vec<(String, String)>, name: &str) -> (r: String)
    requires
        distinct_keys(members@),
    ensures
        r@ == member_or_null(members@, name@),
{
    match member(members, name) {
        Some(v) => v,
        None => {
            proof {
                reveal_strlit("null");
            }
            String::from_str("null")
        },
    }
}

/// The items separated by commas.
pub open spec fn comma_joined(items: Seq<Seq<char>>) -> Seq<char>
    decreases items.len(),
{
    if items.len() == 0 {
        Seq::empty()
    } else if items.len() == 1 {
        items[0]
    } else {
        comma_joined(items.drop_last()) + ","@ + items.last()
    }
}

/// A JSON array of the given JSON texts.
pub open spec fn json_array(items: Seq<Seq<char>>) -> Seq<char> {
    "["@ + comma_joined(items) + "]"@
}

fn json_array_text(items: &Vec<String>) -> (r: String)
    ensures
        r@ == json_array(items@.map_values(|t: String| t@)),
{
    let ghost texts = items@.map_values(|t: String| t@);
    let mut joined = String::new();
    proof {
        reveal_strlit("");
        reveal_strlit(",");
    }
    for i in 0..items.len()
        invariant
            texts == items@.map_values(|t: String| t@),
            joined@ == comma_joined(texts.take(i as int)),
    {
        proof {
            assert(texts.take(i + 1).drop_last() =~= texts.take(i as int));
            assert(texts.take(i + 1).last() == items@[i as int]@);
        }
        if i == 0 {
            joined = items[i].clone();
            assert(texts.take(1) =~= seq![texts[0]]);
        } else {
            joined = concat3(joined.as_str(), ",", items[i].as_str());
        }
    }
    assert(texts.take(items@.len() as int) =~= texts);
    concat3("[", joined.as_str(), "]")
}

/// An optional member copied under `name` when the definition has `from`.
pub open spec fn copied(members: Seq<(String, String)>, from: Seq<char>, name: Seq<char>) -> Seq<(Seq<char>, Seq<char>)> {
    if entries_map(members).dom().contains(from) {
        seq![(name, entries_map(members)[from]@)]
    } else {
        Seq::empty()
    }
}

/// The settings-schema property of a legacy definition: its type, title (the
/// label), default, the whole definition under `x-ui`, when it applies (`prepare`
/// for a package that patches or writes assets, else `restart`), its minimum,
/// maximum and description, its length bounds as `minLength` and `maxLength`, and
/// its option values as `enum` (as `items.enum` for an array setting).
pub open spec fn property_spec(d: LegacyDefinition, prepares: bool) -> Seq<(Seq<char>, Seq<char>)> {
    let m = d.members@;
    let options = d.options@.map_values(|t: String| t@);
    seq![
        ("type"@, member_or_null(m, "type"@)),
        ("title"@, member_or_null(m, "label"@)),
        ("default"@, member_or_null(m, "default"@)),
        ("x-ui"@, d.text@),
        ("x-apply"@, if prepares { "\"prepare\""@ } else { "\"restart\""@ }),
    ] + copied(m, "minimum"@, "minimum"@) + copied(m, "maximum"@, "maximum"@)
        + copied(m, "description"@, "description"@) + copied(m, "minimumLength"@, "minLength"@)
        + copied(m, "maximumLength"@, "maxLength"@)
        + if options.len() == 0 {
            Seq::empty()
        } else if member_or_null(m, "type"@) == "\"array\""@ {
            seq![("items"@, "{\"enum\":"@ + json_array(options) + "}"@)]
        } else {
            seq![("enum"@, json_array(options))]
        }
}

fn push_copied(out: &mut Vec<(String, String)>, members: &Vec<(String, String)>, from: &str, name: &str)
    requires
        distinct_keys(members@),
    ensures
        pair_texts(final(out)@) == pair_texts(old(out)@) + copied(members@, from@, name@),
{
    let ghost before = pair_texts(out@);
    match member(members, from) {
        Some(v) => {
            out.push((name.to_string(), v));
            assert(pair_texts(out@) =~= before + copied(members@, from@, name@));
        },
        None => {
            assert(pair_texts(out@) =~= before + copied(members@, from@, name@));
        },
    }
}

/// Builds the settings-schema property of a legacy definition.
pub fn schema_property(d: &LegacyDefinition, prepares: bool) -> (r: Vec<(String, String)>)
    requires
        distinct_keys(d.members@),
    ensures
        pair_texts(r@) == property_spec(*d, prepares),
{
    proof {
        reveal_strlit("\"prepare\"");
        reveal_strlit("\"restart\"");
    }
    let mut out: Vec<(String, String)> = Vec::new();
    out.push((String::from_str("type"), member_or_null_text(&d.members, "type")));
    out.push((String::from_str("title"), member_or_null_text(&d.members, "label")));
    out.push((String::from_str("default"), member_or_null_text(&d.members, "default")));
    out.push((String::from_str("x-ui"), d.text.clone()));
    out.push((String::from_str("x-apply"), if prepares { String::from_str("\"prepare\"") } else { String::from_str("\"restart\"") }));
    let ghost head = pair_texts(out@);
    push_copied(&mut out, &d.members, "minimum", "minimum");
    push_copied(&mut out, &d.members, "maximum", "maximum");
    push_copied(&mut out, &d.members, "description", "description");
    push_copied(&mut out, &d.members, "minimumLength", "minLength");
    push_copied(&mut out, &d.members, "maximumLength", "maxLength");
    let ghost before_options = pair_texts(out@);
    if d.options.len() > 0 {
        let choices = json_array_text(&d.options);
        let type_text = member_or_null_text(&d.members, "type");
        if str_equal(type_text.as_str(), "\"array\"") {
            out.push((String::from_str("items"), concat3("{\"enum\":", choices.as_str(), "}")));
        } else {
            out.push((String::from_str("enum"), choices));
        }
        assert(pair_texts(out@) =~= before_options + property_spec(*d, prepares).skip(before_options.len() as int));
    }
    assert(pair_texts(out@) =~= property_spec(*d, prepares));
    out
}

/// The values of entries as texts, by key.
pub open spec fn text_map(entries: Seq<(String, String)>) -> Map<Seq<char>, Seq<char>> {
    entries_map(entries).map_values(|v: String| v@)
}

/// The settings values once the definitions filled in their defaults: a key
/// without a value takes the default of its first definition (`null` when it
/// names none).
pub open spec fn filled_defaults(values: Map<Seq<char>, Seq<char>>, defs: Seq<LegacyDefinition>) -> Map<Seq<char>, Seq<char>>
    decreases defs.len(),
{
    if defs.len() == 0 {
        values
    } else {
        filled_defaults(fill_one(values, defs[0]), defs.drop_first())
    }
}

/// One definition fills in its default.
pub open spec fn fill_one(values: Map<Seq<char>, Seq<char>>, d: LegacyDefinition) -> Map<Seq<char>, Seq<char>> {
    match d.key {
        Some(k) => if values.dom().contains(k@) {
            values
        } else {
            values.insert(k@, member_or_null(d.members@, "default"@))
        },
        None => values,
    }
}

/// The schema properties of the definitions, by key: a later definition of a key
/// replaces an earlier one.
pub open spec fn properties_spec(defs: Seq<LegacyDefinition>, prepares: bool) -> Map<Seq<char>, Seq<(Seq<char>, Seq<char>)>>
    decreases defs.len(),
{
    if defs.len() == 0 {
        Map::empty()
    } else {
        let rest = properties_spec(defs.drop_last(), prepares);
        match defs.last().key {
            Some(k) => rest.insert(k@, property_spec(defs.last(), prepares)),
            None => rest,
        }
    }
}

/// A converted package's settings: the schema properties by key, and the values.
#[derive(Debug)]
pub struct ConvertedSettings {
    pub properties: Vec<(String, Vec<(String, String)>)>,
    pub values: Vec<(String, String)>,
}

/// Converts legacy setting definitions into settings-schema properties and fills
/// the values: each definition's default stands in for a missing value, then the
/// legacy configuration's values override. A definition without a key stops the
/// conversion.
pub fn convert_settings(values: Vec<(String, String)>, definitions: &Vec<LegacyDefinition>, prepares: bool, legacy: Vec<(String, String)>)
    -> (r: Result<ConvertedSettings, String>)
    requires
        distinct_keys(values@),
        forall|i: int| 0 <= i < definitions@.len() ==> distinct_keys(#[trigger] definitions@[i].members@),
    ensures
        r is Err <==> exists|i: int| 0 <= i < definitions@.len() && (#[trigger] definitions@[i]).key is None,
        r matches Err(m) ==> m@ == "setting without key"@,
        r matches Ok(c) ==> {
            &&& distinct_keys(c.values@)
            &&& text_map(c.values@) == filled_defaults(text_map(values@), definitions@).union_prefer_right(text_map(legacy@))
            &&& distinct_keys(c.properties@)
            &&& entries_map(c.properties@).dom() == properties_spec(definitions@, prepares).dom()
            &&& forall|k: Seq<char>| #[trigger] entries_map(c.properties@).dom().contains(k)
                ==> pair_texts(entries_map(c.properties@)[k]@) == properties_spec(definitions@, prepares)[k]
        },
{
    let ghost defs = definitions@;
    let ghost start = text_map(values@);
    let mut filled = values;
    let mut properties: Vec<(String, Vec<(String, String)>)> = Vec::new();
    assert(defs.skip(0) =~= defs);
    assert(defs.take(0) =~= Seq::<LegacyDefinition>::empty());
    for i in 0..definitions.len()
        invariant
            defs == definitions@,
            forall|j: int| 0 <= j < defs.len() ==> distinct_keys(#[trigger] defs[j].members@),
            forall|j: int| 0 <= j < i ==> (#[trigger] defs[j]).key is Some,
            distinct_keys(filled@),
            filled_defaults(text_map(filled@), defs.skip(i as int)) == filled_defaults(start, defs),
            distinct_keys(properties@),
            entries_map(properties@).dom() == properties_spec(defs.take(i as int), prepares).dom(),
            forall|k: Seq<char>| #[trigger] entries_map(properties@).dom().contains(k)
                ==> pair_texts(entries_map(properties@)[k]@) == properties_spec(defs.take(i as int), prepares)[k],
    {
        let d = &definitions[i];
        let key = match &d.key {
            Some(k) => k,
            None => {
                assert(defs[i as int].key is None);
                return Err(String::from_str("setting without key"));
            },
        };
        let ghost before = filled@;
        proof {
            lemma_entries_map_dom(before, key@);
            assert(defs.skip(i as int).drop_first() =~= defs.skip(i + 1));
            assert(defs.skip(i as int)[0] == defs[i as int]);
        }
        let present = match get_key(&filled, key.as_str()) {
            Some(_) => true,
            None => false,
        };
        if !present {
            let default = member_or_null_text(&d.members, "default");
            set_key(&mut filled, key.as_str(), default);
            assert(text_map(filled@) =~= text_map(before).insert(key@, member_or_null(d.members@, "default"@)));
        }
        assert(text_map(filled@) == fill_one(text_map(before), defs[i as int]));
        let property = schema_property(d, prepares);
        let ghost old_props = entries_map(properties@);
        set_key(&mut properties, key.as_str(), property);
        proof {
            let taken = defs.take(i + 1);
            assert(taken.drop_last() =~= defs.take(i as int));
            assert(taken.last() == defs[i as int]);
            assert(properties_spec(taken, prepares) == properties_spec(defs.take(i as int), prepares).insert(key@, property_spec(*d, prepares)));
            assert(entries_map(properties@).dom() =~= properties_spec(taken, prepares).dom());
        }
    }
    assert(defs.take(defs.len() as int) =~= defs);
    assert(defs.skip(defs.len() as int) =~= Seq::<LegacyDefinition>::empty());
    let ghost defaulted = filled@;
    let merged = overlay(filled, legacy);
    assert(text_map(merged@) =~= text_map(defaulted).union_prefer_right(text_map(legacy@)));
    Ok(ConvertedSettings { properties, values: merged })
}

/// The `enabled` value of a converted package, as JSON text: the legacy
/// configuration's, else the manifest's, else `false`.
pub fn migrated_enabled(legacy: Option<String>, manifest: Option<String>) -> (r: String)
    ensures
        r@ == match legacy {
            Some(l) => l@,
            None => match manifest {
                Some(m) => m@,
                None => "false"@,
            },
        },
{
    match legacy {
        Some(l) => l,
        None => match manifest {
            Some(m) => m,
            None => String::from_str("false"),
        },
    }
}

/// The value that an extension key takes in a converted package: none when the
/// extension already has the key; else the sidecar's, else the manifest's own.
pub fn extension_value(existing: bool, sidecar: Option<String>, inline: Option<String>) -> (r: Option<String>)
    ensures
        existing ==> r is None,
        !existing ==> r == match sidecar {
            Some(v) => Some(v),
            None => inline,
        },
{
    if existing {
        None
    } else {
        match sidecar {
            Some(v) => Some(v),
            None => inline,
        }
    }
}

} // verus!
