//! Where the loader's documents live, how a manifest revision is named, and the
//! window-visibility handshake between the loader and its windows.
use vstd::prelude::*;
use sha2::{Digest, Sha256};
use crate::paths::{join, join_spec, config_dir};
use crate::text::{str_equal, concat3, string_of};
use crate::keyed::{distinct_keys, entries_map, set_key};

verus! {

/// The section of the shared state file that holds the document `name`, if any.
pub open spec fn state_section_spec(name: Seq<char>) -> Option<Seq<char>> {
    if name == "state"@ { Some("updates"@) }
    else if name == "applied"@ { Some("assets"@) }
    else if name == "mod-status"@ { Some("runtime"@) }
    else if name == "diagnostics-status"@ { Some("diagnostics"@) }
    else if name == "window-state"@ { Some("windows"@) }
    else if name == "news-state"@ { Some("news"@) }
    else if name == "events-state"@ { Some("events"@) }
    else if name == "catalog-state"@ { Some("catalog"@) }
    else if name == "mod-state"@ { Some("mods"@) }
    else if name == "parser-status"@ { Some("parser"@) }
    else { None }
}

/// The section of `state.json` that stores the document `name`.
pub fn state_section(name: &str) -> (r: Option<&'static str>)
    ensures
        match r {
            Some(s) => state_section_spec(name@) == Some(s@),
            None => state_section_spec(name@) is None,
        },
{
    if str_equal(name, "state") { Some("updates") }
    else if str_equal(name, "applied") { Some("assets") }
    else if str_equal(name, "mod-status") { Some("runtime") }
    else if str_equal(name, "diagnostics-status") { Some("diagnostics") }
    else if str_equal(name, "window-state") { Some("windows") }
    else if str_equal(name, "news-state") { Some("news") }
    else if str_equal(name, "events-state") { Some("events") }
    else if str_equal(name, "catalog-state") { Some("catalog") }
    else if str_equal(name, "mod-state") { Some("mods") }
    else if str_equal(name, "parser-status") { Some("parser") }
    else { None }
}

/// The directory, under the configuration directory, of a document that has a
/// file of its own.
pub open spec fn document_folder(name: Seq<char>) -> Seq<char> {
    if name == "mod"@ {
        "mods"@
    } else if name == "rules"@ {
        "compatibility"@
    } else {
        name
    }
}

/// The file that holds the document `name` under the game directory `root`.
pub open spec fn document_path_spec(root: Seq<char>, name: Seq<char>) -> Seq<char> {
    let config = join_spec(join_spec(root, "shroudforge"@), "config"@);
    if name == "shroudforge"@ {
        join_spec(config, "shroudforge.json"@)
    } else if state_section_spec(name) is Some {
        join_spec(config, "state.json"@)
    } else if name == "news"@ {
        join_spec(config, "news/news.json"@)
    } else {
        join_spec(join_spec(config, document_folder(name)), name + ".json"@)
    }
}

/// The file of the document `name`: the loader settings, the shared state file for
/// every state section, the news file, or `<folder>/<name>.json`.
pub fn document_path(root: &str, name: &str) -> (r: String)
    ensures
        r@ == document_path_spec(root@, name@),
{
    let config = config_dir(root);
    if str_equal(name, "shroudforge") {
        return join(config.as_str(), "shroudforge.json");
    }
    if state_section(name).is_some() {
        return join(config.as_str(), "state.json");
    }
    if str_equal(name, "news") {
        return join(config.as_str(), "news/news.json");
    }
    let folder = if str_equal(name, "mod") {
        "mods"
    } else if str_equal(name, "rules") {
        "compatibility"
    } else {
        name
    };
    let directory = join(config.as_str(), folder);
    let file = concat3(name, ".json", "");
    proof { reveal_strlit(""); assert(file@ =~= name@ + ".json"@); }
    join(directory.as_str(), file.as_str())
}

/// The SHA-256 digest of some bytes.
pub uninterp spec fn sha256(bytes: Seq<u8>) -> Seq<u8>;

/// Digests `bytes` with `sha2::Sha256::digest`; the result is the 32-byte SHA-256
/// digest of exactly these bytes.
#[verifier::external_body]
fn sha256_digest(bytes: &[u8]) -> (r: Vec<u8>)
    ensures
        r@ == sha256(bytes@),
        r@.len() == 32,
{
    Sha256::digest(bytes).to_vec()
}

/// The lowercase hexadecimal digit of `n`, below sixteen.
pub open spec fn hex_digit(n: nat) -> char {
    if n < 10 { ((n + 48) as u8) as char } else { ((n + 87) as u8) as char }
}

/// Bytes in lowercase hexadecimal, two digits each, high half first.
pub open spec fn hex_spec(bytes: Seq<u8>) -> Seq<char>
    decreases bytes.len(),
{
    if bytes.len() == 0 {
        Seq::empty()
    } else {
        hex_spec(bytes.drop_last()) + seq![hex_digit((bytes.last() / 16) as nat), hex_digit((bytes.last() % 16) as nat)]
    }
}

fn hex_char(n: u8) -> (c: char)
    requires
        n < 16,
    ensures
        c == hex_digit(n as nat),
{
    if n < 10 { (n + 48) as char } else { (n + 87) as char }
}

/// `bytes` in lowercase hexadecimal.
pub fn hex(bytes: &Vec<u8>) -> (r: String)
    ensures
        r@ == hex_spec(bytes@),
{
    let mut v: Vec<char> = Vec::new();
    for i in 0..bytes.len()
        invariant
            v@ == hex_spec(bytes@.take(i as int)),
    {
        let b = bytes[i];
        v.push(hex_char(b / 16));
        v.push(hex_char(b % 16));
        proof {
            assert(bytes@.take(i + 1).drop_last() =~= bytes@.take(i as int));
        }
        assert(v@ =~= hex_spec(bytes@.take(i + 1)));
    }
    assert(bytes@.take(bytes@.len() as int) =~= bytes@);
    string_of(&v)
}

/// The revision of a document: its SHA-256 digest in lowercase hexadecimal.
pub open spec fn revision_spec(bytes: Seq<u8>) -> Seq<char> {
    hex_spec(sha256(bytes))
}

/// Names the revision of a file's bytes, as shown to an editor and checked on save.
pub fn revision(bytes: &[u8]) -> (r: String)
    ensures
        r@ == revision_spec(bytes@),
{
    let digest = sha256_digest(bytes);
    hex(&digest)
}

proof fn lemma_hex_digit_injective(a: nat, b: nat)
    requires
        a < 16,
        b < 16,
        hex_digit(a) == hex_digit(b),
    ensures
        a == b,
{
}

proof fn lemma_hex_len(bytes: Seq<u8>)
    ensures
        hex_spec(bytes).len() == 2 * bytes.len(),
    decreases bytes.len(),
{
    if bytes.len() > 0 {
        lemma_hex_len(bytes.drop_last());
    }
}

/// Different bytes never share a hexadecimal spelling.
pub proof fn hex_injective(a: Seq<u8>, b: Seq<u8>)
    requires
        hex_spec(a) == hex_spec(b),
    ensures
        a == b,
    decreases a.len(),
{
    lemma_hex_len(a);
    lemma_hex_len(b);
    if a.len() > 0 {
        let ha = hex_spec(a);
        let n = ha.len();
        let ra = hex_spec(a.drop_last());
        let rb = hex_spec(b.drop_last());
        lemma_hex_len(a.drop_last());
        lemma_hex_len(b.drop_last());
        assert(ha[n - 2] == hex_digit((a.last() / 16) as nat));
        assert(hex_spec(b)[n - 2] == hex_digit((b.last() / 16) as nat));
        assert(ha[n - 1] == hex_digit((a.last() % 16) as nat));
        assert(hex_spec(b)[n - 1] == hex_digit((b.last() % 16) as nat));
        lemma_hex_digit_injective((a.last() / 16) as nat, (b.last() / 16) as nat);
        lemma_hex_digit_injective((a.last() % 16) as nat, (b.last() % 16) as nat);
        assert(a.last() == b.last());
        assert(ra =~= ha.take(n - 2));
        assert(rb =~= hex_spec(b).take(n - 2));
        hex_injective(a.drop_last(), b.drop_last());
        assert(a =~= b) by {
            assert forall|i: int| 0 <= i < a.len() implies a[i] == b[i] by {
                if i < a.len() - 1 {
                    assert(a.drop_last()[i] == b.drop_last()[i]);
                }
            }
        }
    } else {
        assert(b.len() == 0);
        assert(a =~= b);
    }
}

/// Before an edit is saved, the file must still be the revision that the editor
/// displayed (when it names one).
pub fn check_displayed_revision(expected: Option<&str>, current: &[u8]) -> (r: Result<(), String>)
    ensures
        r is Ok <==> (expected matches Some(e) ==> e@ == revision_spec(current@)),
        r matches Err(m) ==> m@ == "mod.json changed since it was displayed; reload before saving"@,
{
    match expected {
        Some(e) => {
            let now = revision(current);
            if !str_equal(e, now.as_str()) {
                return Err(String::from_str("mod.json changed since it was displayed; reload before saving"));
            }
            Ok(())
        },
        None => Ok(()),
    }
}

/// The file must not change while the edit is validated.
pub fn check_unchanged(before: &Vec<u8>, after: &Vec<u8>) -> (r: Result<(), String>)
    ensures
        r is Ok <==> before@ == after@,
        r matches Err(m) ==> m@ == "mod.json changed during editing; reload before saving"@,
{
    if before.len() != after.len() {
        return Err(String::from_str("mod.json changed during editing; reload before saving"));
    }
    for i in 0..before.len()
        invariant
            before@.len() == after@.len(),
            forall|j: int| 0 <= j < i ==> before@[j] == after@[j],
    {
        if before[i] != after[i] {
            return Err(String::from_str("mod.json changed during editing; reload before saving"));
        }
    }
    assert(before@ =~= after@);
    Ok(())
}

/// An editor that displayed one revision cannot save over a file whose digest has
/// since changed.
pub proof fn stale_editor_cannot_save(displayed: Seq<u8>, current: Seq<u8>)
    requires
        sha256(displayed) != sha256(current),
    ensures
        revision_spec(displayed) != revision_spec(current),
{
    if revision_spec(displayed) == revision_spec(current) {
        hex_injective(sha256(displayed), sha256(current));
    }
}

/// The windows whose visibility the loader coordinates.
pub open spec fn window_module(module: Seq<char>) -> bool {
    module == "modloaderUi"@ || module == "debugConsole"@
}

/// The stored visibility record of a window, each field when present and typed.
#[derive(Debug)]
pub struct WindowFields {
    pub visible: Option<bool>,
    pub requested_visible: Option<bool>,
    pub request_id: Option<u64>,
}

/// A window's visibility record as it is written back.
#[derive(Debug)]
pub struct WindowState {
    pub visible: bool,
    pub requested_visible: bool,
    pub request_id: u64,
}

/// A request that the window be shown or hidden: the visibility stays as the window
/// last published it, the request is recorded under a new id.
pub fn request_window_visibility(module: &str, current: &WindowFields, visible: bool) -> (r: Result<WindowState, String>)
    ensures
        r is Err <==> !window_module(module@),
        r matches Err(m) ==> m@ == "unknown window module"@,
        r matches Ok(s) ==> s.visible == (current.visible == Some(true))
            && s.requested_visible == visible
            && s.request_id == crate::diagnostics::saturating(match current.request_id { Some(i) => i, None => 0 }, 1),
{
    if !str_equal(module, "modloaderUi") && !str_equal(module, "debugConsole") {
        return Err(String::from_str("unknown window module"));
    }
    let id = match current.request_id {
        Some(i) => i,
        None => 0,
    };
    Ok(WindowState {
        visible: match current.visible { Some(v) => v, None => false },
        requested_visible: visible,
        request_id: id.saturating_add(1),
    })
}

/// The window publishes whether it is visible; the last request stays recorded.
pub fn publish_window_visibility(module: &str, current: &WindowFields, visible: bool) -> (r: Result<WindowState, String>)
    ensures
        r is Err <==> !window_module(module@),
        r matches Err(m) ==> m@ == "unknown window module"@,
        r matches Ok(s) ==> s.visible == visible
            && s.requested_visible == (match current.requested_visible { Some(v) => v, None => visible })
            && s.request_id == (match current.request_id { Some(i) => i, None => 0 }),
{
    if !str_equal(module, "modloaderUi") && !str_equal(module, "debugConsole") {
        return Err(String::from_str("unknown window module"));
    }
    Ok(WindowState {
        visible,
        requested_visible: match current.requested_visible { Some(v) => v, None => visible },
        request_id: match current.request_id { Some(i) => i, None => 0 },
    })
}

/// The shared state file may be updated only in its schema version 1 (or when it
/// names none).
pub fn check_state_version(version: Option<u64>) -> (r: Result<(), String>)
    ensures
        r is Ok <==> (version is None || version == Some(1u64)),
        r matches Err(m) ==> m@ == "unsupported shroudforge/config/state.json schemaVersion"@,
{
    match version {
        Some(v) => if v != 1 {
            Err(String::from_str("unsupported shroudforge/config/state.json schemaVersion"))
        } else {
            Ok(())
        },
        None => Ok(()),
    }
}


/// The documents that have a schema: every state section, the mod manifest, the
/// compatibility rules, the news, an event, the API description and the loader
/// settings.
pub open spec fn known_schema(name: Seq<char>) -> bool {
    state_section_spec(name) is Some || name == "mod"@ || name == "rules"@ || name == "news"@
        || name == "event"@ || name == "api"@ || name == "shroudforge"@
}

/// Whether the document `name` has a schema.
pub fn has_schema(name: &str) -> (r: bool)
    ensures
        r == known_schema(name@),
{
    state_section(name).is_some() || str_equal(name, "mod") || str_equal(name, "rules") || str_equal(name, "news")
        || str_equal(name, "event") || str_equal(name, "api") || str_equal(name, "shroudforge")
}

/// Where the schema of the document `name` lies: `<name>-schema.json` beside the
/// document's file.
pub open spec fn schema_path_spec(root: Seq<char>, name: Seq<char>) -> Seq<char> {
    let config = join_spec(join_spec(root, "shroudforge"@), "config"@);
    if name == "shroudforge"@ || state_section_spec(name) is Some {
        join_spec(config, name + "-schema.json"@)
    } else if name == "news"@ {
        join_spec(config, "news/news-schema.json"@)
    } else {
        join_spec(join_spec(config, document_folder(name)), name + "-schema.json"@)
    }
}

/// The schema file of the document `name`, or `None` for a document without a
/// schema.
pub fn schema_path(root: &str, name: &str) -> (r: Option<String>)
    ensures
        known_schema(name@) ==> (r matches Some(p) && p@ == schema_path_spec(root@, name@)),
        !known_schema(name@) ==> r is None,
{
    if !has_schema(name) {
        return None;
    }
    let config = config_dir(root);
    let file = concat3(name, "-schema.json", "");
    proof { reveal_strlit(""); assert(file@ =~= name@ + "-schema.json"@); }
    if str_equal(name, "shroudforge") || state_section(name).is_some() {
        return Some(join(config.as_str(), file.as_str()));
    }
    if str_equal(name, "news") {
        return Some(join(config.as_str(), "news/news-schema.json"));
    }
    let folder = if str_equal(name, "mod") {
        "mods"
    } else if str_equal(name, "rules") {
        "compatibility"
    } else {
        name
    };
    let directory = join(config.as_str(), folder);
    Some(join(directory.as_str(), file.as_str()))
}

/// What `jsonschema` reports for a document (as JSON text) against a schema (as
/// JSON text): `Ok` when the document satisfies the schema; else `(0, message)`
/// when the schema text is not JSON, `(1, message)` when the schema is not usable
/// or the document text is not JSON, and `(2, message)` when the document breaks
/// the schema.
pub uninterp spec fn document_verdict(schema: Seq<char>, document: Seq<char>) -> Result<(), (u8, Seq<char>)>;

/// Reads both texts with `serde_json::from_str`, then calls
/// `jsonschema::validator_for` on the schema and `Validator::validate` on the
/// document. Claimed: the verdict depends on the texts alone. What the schema's
/// keywords decide, and the wording of the messages, are left unsaid.
#[verifier::external_body]
pub(crate) fn check_document(schema: &str, document: &str) -> (r: Result<(), (u8, String)>)
    ensures
        match r {
            Ok(()) => document_verdict(schema@, document@) is Ok,
            Err((kind, m)) => document_verdict(schema@, document@) == Err::<(), (u8, Seq<char>)>((kind, m@)),
        },
{
    let schema: serde_json::Value = serde_json::from_str(schema).map_err(|e| (0u8, e.to_string()))?;
    let document: serde_json::Value = serde_json::from_str(document).map_err(|e| (1u8, e.to_string()))?;
    let validator = jsonschema::validator_for(&schema).map_err(|e| (1u8, e.to_string()))?;
    validator.validate(&document).map_err(|e| (2u8, e.to_string()))
}

/// The message for each verdict of a document check: `schema_file` leads the
/// message when the schema is not JSON, `label` when the document breaks the schema.
pub open spec fn verdict_report(verdict: Result<(), (u8, Seq<char>)>, schema_file: Seq<char>, label: Seq<char>) -> Result<(), Seq<char>> {
    match verdict {
        Ok(()) => Ok(()),
        Err((kind, e)) => if kind == 0 {
            Err(schema_file + ": "@ + e)
        } else if kind == 2 {
            Err(label + ": "@ + e)
        } else {
            Err(e)
        },
    }
}

/// The report of a document verdict.
pub fn document_report(verdict: Result<(), (u8, String)>, schema_file: &str, label: &str) -> (r: Result<(), String>)
    ensures
        match verdict_report(match verdict { Ok(()) => Ok(()), Err((k, e)) => Err((k, e@)) }, schema_file@, label@) {
            Ok(()) => r is Ok,
            Err(m) => r matches Err(e) && e@ == m,
        },
{
    proof {
        reveal_strlit("");
    }
    match verdict {
        Ok(()) => Ok(()),
        Err((kind, e)) => if kind == 0 {
            Err(concat3(schema_file, ": ", e.as_str()))
        } else if kind == 2 {
            Err(concat3(label, ": ", e.as_str()))
        } else {
            Err(e)
        },
    }
}

/// Checks the document `name` (as JSON text) against its schema, read from
/// `schema_file`: refused for a document that has no schema.
pub fn validate_document(name: &str, schema_file: &str, schema: &str, document: &str) -> (r: Result<(), String>)
    ensures
        !known_schema(name@) ==> (r matches Err(m) && m@ == "unknown schema: "@ + name@),
        known_schema(name@) ==> match verdict_report(document_verdict(schema@, document@), schema_file@, name@) {
            Ok(()) => r is Ok,
            Err(m) => r matches Err(e) && e@ == m,
        },
{
    if !has_schema(name) {
        proof {
            reveal_strlit("");
        }
        return Err(concat3("unknown schema: ", name, ""));
    }
    document_report(check_document(schema, document), schema_file, name)
}

/// Checks the whole shared state file (as JSON text) against its schema, read from
/// `schema_file`.
pub fn validate_state_file(schema_file: &str, schema: &str, document: &str) -> (r: Result<(), String>)
    ensures
        match verdict_report(document_verdict(schema@, document@), schema_file@, "shroudforge/config/state.json"@) {
            Ok(()) => r is Ok,
            Err(m) => r matches Err(e) && e@ == m,
        },
{
    document_report(check_document(schema, document), schema_file, "shroudforge/config/state.json")
}

/// A mod update after merging: the installed `enabled` flag and the settings of
/// the update with every installed value kept. Setting values are JSON texts.
#[derive(Debug)]
pub struct MergedUpdate {
    pub enabled: bool,
    pub settings: Vec<(String, String)>,
}

/// What a manifest says about its settings, as read from `mod.json`.
#[derive(Debug)]
pub struct ManifestSettings {
    pub id: String,
    pub enabled: bool,
    /// The JSON text of `shroudforge.settingsSchema`, when the manifest has one.
    pub schema: Option<String>,
    /// Each property of the settings schema that has a default: its key and the
    /// default's JSON text.
    pub defaults: Vec<(String, String)>,
    /// The `settings` object: each key with its value's JSON text.
    pub values: Vec<(String, String)>,
}

/// The texts of key and value pairs.
pub open spec fn pair_texts(entries: Seq<(String, String)>) -> Seq<(Seq<char>, Seq<char>)> {
    entries.map_values(|e: (String, String)| (e.0@, e.1@))
}

/// What `jsonschema` reports for the settings object made of `settings` (each key
/// with the JSON value its text holds) against the settings schema given as JSON
/// text: `Ok` when the object satisfies the schema; else `(true, message)` when the
/// object breaks it, and `(false, message)` when the schema or a text is not usable.
pub uninterp spec fn schema_verdict(schema: Seq<char>, settings: Seq<(Seq<char>, Seq<char>)>) -> Result<(), (bool, Seq<char>)>;

/// Calls `jsonschema::validator_for` on the schema and `Validator::validate` on the
/// settings object, after reading the texts with `serde_json::from_str`. Claimed: the
/// verdict depends on the texts alone. What the schema's keywords decide, and the
/// wording of the messages, are left unsaid.
#[verifier::external_body]
fn check_schema(schema: &str, settings: &Vec<(String, String)>) -> (r: Result<(), (bool, String)>)
    ensures
        match r {
            Ok(()) => schema_verdict(schema@, pair_texts(settings@)) is Ok,
            Err((broken, m)) => schema_verdict(schema@, pair_texts(settings@)) == Err::<(), (bool, Seq<char>)>((broken, m@)),
        },
{
    let schema: serde_json::Value = serde_json::from_str(schema).map_err(|e| (false, e.to_string()))?;
    let mut object = serde_json::Map::new();
    for (key, text) in settings {
        object.insert(key.clone(), serde_json::from_str(text).map_err(|e| (false, e.to_string()))?);
    }
    let validator = jsonschema::validator_for(&schema).map_err(|e| (false, e.to_string()))?;
    validator.validate(&serde_json::Value::Object(object)).map_err(|e| (true, e.to_string()))
}

/// How a manifest's settings are checked: without a settings schema they must be
/// empty; with one they must satisfy it.
pub open spec fn settings_check_spec(schema: Option<Seq<char>>, settings: Seq<(String, String)>) -> Result<(), Seq<char>> {
    match schema {
        None => if settings.len() == 0 {
            Ok(())
        } else {
            Err("settings require shroudforge.settingsSchema"@)
        },
        Some(s) => match schema_verdict(s, pair_texts(settings)) {
            Ok(()) => Ok(()),
            Err((broken, e)) => if broken {
                Err("settings: "@ + e)
            } else {
                Err(e)
            },
        },
    }
}

/// What the loader reports for a verdict of the settings schema: a broken schema
/// or text as it is, settings that break the schema under `settings: `.
pub fn verdict_message(verdict: Result<(), (bool, String)>) -> (r: Result<(), String>)
    ensures
        match verdict {
            Ok(()) => r is Ok,
            Err((broken, e)) => if broken {
                r matches Err(m) && m@ == "settings: "@ + e@
            } else {
                r == Err::<(), String>(e)
            },
        },
{
    match verdict {
        Ok(()) => Ok(()),
        Err((broken, e)) => if broken {
            proof {
                reveal_strlit("");
            }
            Err(concat3("settings: ", e.as_str(), ""))
        } else {
            Err(e)
        },
    }
}

/// Checks settings against a manifest's settings schema.
pub fn settings_check(schema: Option<&str>, settings: &Vec<(String, String)>) -> (r: Result<(), String>)
    ensures
        match r {
            Ok(()) => settings_check_spec(match schema { Some(s) => Some(s@), None => None }, settings@) is Ok,
            Err(m) => settings_check_spec(match schema { Some(s) => Some(s@), None => None }, settings@)
                == Err::<(), Seq<char>>(m@),
        },
{
    match schema {
        None => if settings.len() == 0 {
            Ok(())
        } else {
            Err(String::from_str("settings require shroudforge.settingsSchema"))
        },
        Some(s) => verdict_message(check_schema(s, settings)),
    }
}

/// The entries of `top` laid over those of `base`: a key of both takes the value
/// from `top`.
pub fn overlay(base: Vec<(String, String)>, top: Vec<(String, String)>) -> (r: Vec<(String, String)>)
    requires
        distinct_keys(base@),
    ensures
        distinct_keys(r@),
        entries_map(r@) == entries_map(base@).union_prefer_right(entries_map(top@)),
{
    let ghost start = entries_map(base@);
    let ghost upper = top@;
    let total = top.len();
    let mut settings = base;
    let mut rest = top;
    let mut j: usize = 0;
    assert(upper.take(0) =~= Seq::<(String, String)>::empty());
    assert(start.union_prefer_right(entries_map(upper.take(0))) =~= start);
    while rest.len() > 0
        invariant
            distinct_keys(settings@),
            j + rest@.len() == upper.len(),
            upper.len() == total,
            rest@ == upper.skip(j as int),
            entries_map(settings@) == start.union_prefer_right(entries_map(upper.take(j as int))),
        decreases rest.len(),
    {
        let (key, value) = rest.remove(0);
        proof {
            assert(upper[j as int] == (key, value));
            assert(rest@ =~= upper.skip(j + 1));
        }
        set_key(&mut settings, key.as_str(), value);
        proof {
            let prefix = upper.take(j + 1);
            assert(prefix.drop_last() =~= upper.take(j as int));
            assert(entries_map(settings@) =~= start.union_prefer_right(entries_map(prefix)));
        }
        j = j + 1;
    }
    assert(upper.take(upper.len() as int) =~= upper);
    settings
}

/// The settings in effect: the stored values, and the schema's default for each
/// setting without one.
pub fn effective_settings(values: Vec<(String, String)>, defaults: Vec<(String, String)>) -> (r: Vec<(String, String)>)
    requires
        distinct_keys(defaults@),
    ensures
        distinct_keys(r@),
        entries_map(r@) == entries_map(defaults@).union_prefer_right(entries_map(values@)),
{
    overlay(defaults, values)
}

/// Settings whose key and value pairs form `settings` pass the check of `schema`.
pub open spec fn check_passes(schema: Option<Seq<char>>, settings: Map<Seq<char>, String>) -> bool {
    exists|s: Seq<(String, String)>|
        distinct_keys(s) && entries_map(s) == settings && (#[trigger] settings_check_spec(schema, s)) is Ok
}

/// Settings whose key and value pairs form `settings` fail the check of `schema`
/// with `message`.
pub open spec fn check_fails(schema: Option<Seq<char>>, settings: Map<Seq<char>, String>, message: Seq<char>) -> bool {
    exists|s: Seq<(String, String)>|
        distinct_keys(s) && entries_map(s) == settings
            && #[trigger] settings_check_spec(schema, s) == Err::<(), Seq<char>>(message)
}

pub open spec fn schema_of(m: ManifestSettings) -> Option<Seq<char>> {
    match m.schema {
        Some(s) => Some(s@),
        None => None,
    }
}

/// The settings in effect of a manifest, as a map.
pub open spec fn effective_map(m: ManifestSettings) -> Map<Seq<char>, String> {
    entries_map(m.defaults@).union_prefer_right(entries_map(m.values@))
}

/// The settings of an update after merging: the update's settings in effect, with
/// every installed setting in effect laid over them.
pub open spec fn merged_map(installed: ManifestSettings, update: ManifestSettings) -> Map<Seq<char>, String> {
    effective_map(update).union_prefer_right(effective_map(installed))
}

/// Merges an update of a mod into its installed manifest. Both manifests' settings
/// must pass their own schemas; the package id must stay the same; the user's
/// `enabled` choice is kept; the settings are the update's in effect, with each
/// installed setting in effect kept. The merged settings must then pass the
/// update's schema: a kept or removed value that the update no longer allows
/// aborts the update.
pub fn merge_mod_update(installed: ManifestSettings, update: ManifestSettings) -> (r: Result<MergedUpdate, String>)
    requires
        distinct_keys(installed.defaults@),
        distinct_keys(update.defaults@),
    ensures
        r matches Ok(u) ==> {
            &&& installed.id@ == update.id@
            &&& u.enabled == installed.enabled
            &&& distinct_keys(u.settings@)
            &&& entries_map(u.settings@) == merged_map(installed, update)
            &&& settings_check_spec(schema_of(update), u.settings@) is Ok
            &&& check_passes(schema_of(installed), effective_map(installed))
            &&& check_passes(schema_of(update), effective_map(update))
        },
        r matches Err(m) ==> {
            ||| check_fails(schema_of(installed), effective_map(installed), m@)
            ||| check_passes(schema_of(installed), effective_map(installed))
                && check_fails(schema_of(update), effective_map(update), m@)
            ||| check_passes(schema_of(installed), effective_map(installed))
                && check_passes(schema_of(update), effective_map(update))
                && installed.id@ != update.id@ && m@ == "mod update changes the package id"@
            ||| check_passes(schema_of(installed), effective_map(installed))
                && check_passes(schema_of(update), effective_map(update))
                && installed.id@ == update.id@
                && exists|e: Seq<char>| check_fails(schema_of(update), merged_map(installed, update), e)
                    && m@ == "updated mod manifest is incompatible with the current schema: "@ + e
        },
        installed.id@ != update.id@ ==> r is Err,
{
    let ghost old_schema = schema_of(installed);
    let ghost new_schema = schema_of(update);
    let ghost old_map = effective_map(installed);
    let ghost new_map = effective_map(update);
    let ManifestSettings { id: old_id, enabled: old_enabled, schema: old_schema_text, defaults: old_defaults, values: old_values } = installed;
    let ManifestSettings { id: new_id, enabled: _, schema: new_schema_text, defaults: new_defaults, values: new_values } = update;
    let old_effective = effective_settings(old_values, old_defaults);
    let old_check = settings_check(match &old_schema_text { Some(t) => Some(t.as_str()), None => None }, &old_effective);
    proof {
        assert(match &old_schema_text { Some(t) => Some(t@), None => None } == old_schema);
    }
    match old_check {
        Err(e) => {
            assert(settings_check_spec(old_schema, old_effective@) == Err::<(), Seq<char>>(e@));
            return Err(e);
        },
        Ok(()) => {},
    }
    assert(settings_check_spec(old_schema, old_effective@) is Ok);
    let new_effective = effective_settings(new_values, new_defaults);
    let new_check = settings_check(match &new_schema_text { Some(t) => Some(t.as_str()), None => None }, &new_effective);
    match new_check {
        Err(e) => {
            assert(settings_check_spec(new_schema, new_effective@) == Err::<(), Seq<char>>(e@));
            return Err(e);
        },
        Ok(()) => {},
    }
    assert(settings_check_spec(new_schema, new_effective@) is Ok);
    if !str_equal(old_id.as_str(), new_id.as_str()) {
        return Err(String::from_str("mod update changes the package id"));
    }
    let merged = overlay(new_effective, old_effective);
    match settings_check(match &new_schema_text { Some(t) => Some(t.as_str()), None => None }, &merged) {
        Err(e) => {
            assert(settings_check_spec(new_schema, merged@) == Err::<(), Seq<char>>(e@));
            assert(check_fails(new_schema, merged_map(installed, update), e@));
            proof {
                reveal_strlit("");
            }
            let m = concat3("updated mod manifest is incompatible with the current schema: ", e.as_str(), "");
            assert(m@ == "updated mod manifest is incompatible with the current schema: "@ + e@);
            Err(m)
        },
        Ok(()) => Ok(MergedUpdate { enabled: old_enabled, settings: merged }),
    }
}

/// An update keeps every value the user set, and takes the update's value for
/// every setting the user never set.
pub proof fn update_keeps_user_choices(installed: Map<Seq<char>, String>, update: Map<Seq<char>, String>, key: Seq<char>)
    ensures
        installed.dom().contains(key) ==> update.union_prefer_right(installed)[key] == installed[key],
        !installed.dom().contains(key) && update.dom().contains(key) ==> update.union_prefer_right(installed)[key] == update[key],
        update.union_prefer_right(installed).dom() == update.dom().union(installed.dom()),
{
}

} // verus!
