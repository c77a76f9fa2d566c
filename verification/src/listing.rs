//! The list of installed mods that the control window shows: one entry per
//! package, ordered by name without regard to case.
use vstd::prelude::*;
use base64::Engine;
use crate::manifest::{Capability, ModManifest, ModTarget, ModUi, UiComponent, UiComponentType, UiSection};
use crate::text::{seq_less, str_equal, str_less, lemma_seq_less_total, lemma_seq_less_transitive, starts_with,
    str_starts_with, contains_seq, contains_chars, chars_of, concat3, strictly_sorted, lists_path, sorted_distinct};
use crate::updater::{lower_spec, to_lowercase};
use crate::notices::lists_position;

verus! {

/// At most this many changelog lines are listed for a mod.
pub const CHANGELOG_LIMIT: usize = 50;

/// One installed mod as the control window lists it.
#[derive(Debug)]
pub struct ModListing {
    /// The revision of the package's `mod.json` bytes.
    pub revision: String,
    pub id: String,
    pub name: String,
    pub version: String,
    pub target: ModTarget,
    /// The mod only uses the in-game runtime (it writes no assets).
    pub runtime: bool,
    pub description: Option<String>,
    /// The mod was installed from the catalog (else it is a local package).
    pub from_catalog: bool,
    pub enabled: bool,
    pub changelog: Vec<String>,
}

/// A mod is listed as a runtime mod when it asks for the runtime and does not write assets.
pub open spec fn runtime_only_spec(manifest: ModManifest) -> bool {
    manifest.capabilities@.contains(Capability::Runtime)
        && !manifest.capabilities@.contains(Capability::AssetsWrite)
}

/// The texts of some strings.
pub open spec fn texts(items: Seq<String>) -> Seq<Seq<char>> {
    items.map_values(|s: String| s@)
}

/// Whether some text is among the texts of some strings.
pub fn contains_text(items: &Vec<String>, text: &str) -> (r: bool)
    ensures
        r == texts(items@).contains(text@),
{
    for i in 0..items.len()
        invariant
            forall|j: int| 0 <= j < i ==> items@[j]@ != text@,
    {
        if str_equal(items[i].as_str(), text) {
            assert(texts(items@)[i as int] == text@);
            return true;
        }
    }
    assert forall|j: int| 0 <= j < texts(items@).len() implies texts(items@)[j] != text@ by {
        assert(texts(items@)[j] == items@[j]@);
    }
    false
}

/// The entry of one package: its manifest, the revision of its `mod.json` and the
/// ids of the mods that the catalog installed.
pub fn listing_of(manifest: ModManifest, revision: String, catalog_ids: &Vec<String>) -> (r: ModListing)
    ensures
        r.revision == revision,
        r.id == manifest.id,
        r.name == manifest.name,
        r.version == manifest.version,
        r.target == manifest.target,
        r.runtime == runtime_only_spec(manifest),
        r.description == manifest.description,
        r.from_catalog == texts(catalog_ids@).contains(manifest.id@),
        r.enabled == manifest.enabled,
        r.changelog@ == if manifest.release.changelog@.len() <= CHANGELOG_LIMIT {
            manifest.release.changelog@
        } else {
            manifest.release.changelog@.subrange(0, CHANGELOG_LIMIT as int)
        },
{
    let runtime = manifest.capability(Capability::Runtime) && !manifest.capability(Capability::AssetsWrite);
    let from_catalog = contains_text(catalog_ids, manifest.id.as_str());
    let ModManifest { id, name, version, target, description, enabled, release, .. } = manifest;
    let mut changelog = release.changelog;
    changelog.truncate(CHANGELOG_LIMIT);
    ModListing { revision, id, name, version, target, runtime, description, from_catalog, enabled, changelog }
}

/// Entry `i` comes before entry `j`: its key is smaller, or the keys are equal and
/// `i` came first.
pub open spec fn listed_before(keys: Seq<Seq<char>>, i: int, j: int) -> bool {
    seq_less(keys[i], keys[j]) || (keys[i] == keys[j] && i < j)
}

/// `order` lists every position of `keys` once, by key, and equal keys in their
/// first order.
pub open spec fn orders_by_key(keys: Seq<Seq<char>>, order: Seq<usize>) -> bool {
    &&& order.len() == keys.len()
    &&& forall|k: int| 0 <= k < order.len() ==> order[k] < keys.len()
    &&& forall|j: int| 0 <= j < keys.len() ==> #[trigger] lists_position(order, j)
    &&& forall|a: int, b: int|
        #![trigger order[a], order[b]]
        0 <= a < b < order.len() ==> order[a] != order[b] && listed_before(keys, order[a] as int, order[b] as int)
}

/// The positions of some keys in the order of their keys (equal keys in their first
/// order).
pub fn key_order(keys: &Vec<String>) -> (order: Vec<usize>)
    ensures
        orders_by_key(texts(keys@), order@),
{
    let ghost kv = texts(keys@);
    let mut order: Vec<usize> = Vec::new();
    for i in 0..keys.len()
        invariant
            kv == texts(keys@),
            order@.len() == i,
            forall|k: int| 0 <= k < order@.len() ==> order@[k] < i,
            forall|j: int| 0 <= j < i ==> #[trigger] lists_position(order@, j),
            forall|a: int, b: int|
                #![trigger order@[a], order@[b]]
                0 <= a < b < order@.len() ==> order@[a] != order@[b]
                    && listed_before(kv, order@[a] as int, order@[b] as int),
    {
        let mut pos: usize = 0;
        while pos < order.len() && !str_less(keys[i].as_str(), keys[order[pos]].as_str())
            invariant
                kv == texts(keys@),
                i < keys@.len(),
                pos <= order@.len(),
                forall|k: int| 0 <= k < order@.len() ==> order@[k] < i,
                forall|k: int| 0 <= k < pos ==> !seq_less(kv[i as int], kv[order@[k] as int]),
            decreases order@.len() - pos,
        {
            assert(kv[order@[pos as int] as int] == keys@[order@[pos as int] as int]@);
            assert(kv[i as int] == keys@[i as int]@);
            pos = pos + 1;
        }
        let ghost old_order = order@;
        proof {
            assert(kv[i as int] == keys@[i as int]@);
            if pos < old_order.len() {
                assert(kv[old_order[pos as int] as int] == keys@[old_order[pos as int] as int]@);
                assert(seq_less(kv[i as int], kv[old_order[pos as int] as int]));
            }
        }
        order.insert(pos, i);
        proof {
            let n = order@;
            assert forall|k: int| 0 <= k < n.len() implies n[k] < i + 1 by {
                if k < pos {
                    assert(n[k] == old_order[k]);
                } else if k > pos {
                    assert(n[k] == old_order[k - 1]);
                }
            }
            assert forall|j: int| 0 <= j < i + 1 implies #[trigger] lists_position(n, j) by {
                if j == i {
                    assert(n[pos as int] == i);
                } else {
                    assert(lists_position(old_order, j));
                    let k = choose|k: int| 0 <= k < old_order.len() && old_order[k] as int == j;
                    if k < pos {
                        assert(n[k] == old_order[k]);
                    } else {
                        assert(n[k + 1] == old_order[k]);
                    }
                }
            }
            assert forall|a: int, b: int| #![trigger n[a], n[b]] 0 <= a < b < n.len() implies n[a] != n[b]
                && listed_before(kv, n[a] as int, n[b] as int) by {
                if a < pos && b < pos {
                    assert(n[a] == old_order[a] && n[b] == old_order[b]);
                } else if a < pos && b == pos {
                    let x = old_order[a] as int;
                    assert(n[a] == old_order[a] && old_order[a] < i);
                    lemma_seq_less_total(kv[x], kv[i as int]);
                } else if a < pos && b > pos {
                    assert(n[a] == old_order[a] && n[b] == old_order[b - 1]);
                } else if a == pos {
                    assert(n[b] == old_order[b - 1] && old_order[b - 1] < i);
                    let first = old_order[pos as int] as int;
                    let y = old_order[b - 1] as int;
                    if b - 1 > pos {
                        assert(listed_before(kv, first, y));
                        if seq_less(kv[first], kv[y]) {
                            lemma_seq_less_transitive(kv[i as int], kv[first], kv[y]);
                        }
                    }
                    assert(seq_less(kv[i as int], kv[y]));
                } else {
                    assert(n[a] == old_order[a - 1] && n[b] == old_order[b - 1]);
                }
            }
        }
    }
    order
}

/// The text of a name in lower case, as `str::to_lowercase` gives it.
pub uninterp spec fn lowercase_of(s: Seq<char>) -> Seq<char>;

/// Calls `str::to_lowercase`: the lower-case mapping of each character of the text.
/// Claimed: the result depends on the text alone. What the mapping is for each
/// character is left unsaid.
#[verifier::external_body]
fn lowercase(s: &str) -> (r: String)
    ensures
        r@ == lowercase_of(s@),
{
    s.to_lowercase()
}

/// The names in lower case.
pub open spec fn name_keys(names: Seq<String>) -> Seq<Seq<char>> {
    names.map_values(|n: String| lowercase_of(n@))
}

/// The order in which the control window lists mods of these names: by name in
/// lower case, and mods of the same name in the order given.
pub fn name_order(names: &Vec<String>) -> (order: Vec<usize>)
    ensures
        orders_by_key(name_keys(names@), order@),
{
    let mut keys: Vec<String> = Vec::new();
    for i in 0..names.len()
        invariant
            keys@.len() == i,
            forall|k: int| 0 <= k < i ==> #[trigger] keys@[k]@ == lowercase_of(names@[k]@),
    {
        keys.push(lowercase(names[i].as_str()));
    }
    assert(texts(keys@) =~= name_keys(names@));
    key_order(&keys)
}

/// Images larger than this many bytes are not shown.
pub const ASSET_LIMIT: usize = 2097152;

/// The package path that a component shows, when it is an image under `assets/`.
pub open spec fn image_source(c: UiComponent) -> Option<Seq<char>> {
    match c.src {
        Some(src) => if c.component_type == UiComponentType::Image && starts_with(src@, "assets/"@) {
            Some(src@)
        } else {
            None
        },
        None => None,
    }
}

/// A component of the section shows the image at `p`.
pub open spec fn section_shows(section: UiSection, p: Seq<char>) -> bool {
    exists|k: int| 0 <= k < section.components@.len() && #[trigger] image_source(section.components@[k]) == Some(p)
}

/// A section of the mod's interface, on its page or on one of its tabs, shows the image at `p`.
pub open spec fn ui_shows(ui: ModUi, p: Seq<char>) -> bool {
    ||| exists|j: int| 0 <= j < ui.sections@.len() && #[trigger] section_shows(ui.sections@[j], p)
    ||| exists|t: int, j: int|
        0 <= t < ui.tabs@.len() && 0 <= j < ui.tabs@[t].sections@.len() && #[trigger] section_shows(ui.tabs@[t].sections@[j], p)
}

/// A package path that may be read: it climbs nowhere and has no backslash.
pub open spec fn asset_path_allowed(p: Seq<char>) -> bool {
    !contains_seq(p, seq!['.', '.']) && !p.contains('\\')
}

/// Whether a package path may be read.
pub fn path_allowed(path: &str) -> (r: bool)
    ensures
        r == asset_path_allowed(path@),
{
    let cs = chars_of(path);
    let dots = vec!['.', '.'];
    if contains_chars(&cs, &dots) {
        return false;
    }
    for i in 0..cs.len()
        invariant
            cs@ == path@,
            forall|j: int| 0 <= j < i ==> cs@[j] != '\\',
    {
        if cs[i] == '\\' {
            assert(path@[i as int] == '\\');
            return false;
        }
    }
    true
}

/// Adds the readable images of a section to `found`.
fn collect_section(section: &UiSection, found: &mut Vec<String>)
    ensures
        forall|p: Seq<char>| #[trigger] lists_path(final(found)@, p) <==> lists_path(old(found)@, p)
            || (section_shows(*section, p) && asset_path_allowed(p)),
{
    let ghost start = found@;
    for k in 0..section.components.len()
        invariant
            start == old(found)@,
            forall|p: Seq<char>| #[trigger] lists_path(found@, p) <==> lists_path(start, p)
                || (exists|i: int| 0 <= i < k && #[trigger] image_source(section.components@[i]) == Some(p))
                    && asset_path_allowed(p),
    {
        let c = &section.components[k];
        let ghost before = found@;
        match &c.src {
            Some(src) => {
                if c.component_type == UiComponentType::Image && str_starts_with(src.as_str(), "assets/")
                    && path_allowed(src.as_str()) {
                    found.push(src.clone());
                }
            },
            None => {},
        }
        proof {
            assert forall|p: Seq<char>| #[trigger] lists_path(found@, p) <==> lists_path(start, p)
                || (exists|i: int| 0 <= i < k + 1 && #[trigger] image_source(section.components@[i]) == Some(p))
                    && asset_path_allowed(p) by {
                if lists_path(found@, p) && !lists_path(before, p) {
                    assert(found@.len() == before.len() + 1);
                    let i = choose|i: int| 0 <= i < found@.len() && #[trigger] found@[i]@ == p;
                    if i < before.len() {
                        assert(found@[i] == before[i]);
                    }
                    assert(image_source(section.components@[k as int]) == Some(p));
                }
                if lists_path(before, p) {
                    let i = choose|i: int| 0 <= i < before.len() && #[trigger] before[i]@ == p;
                    assert(found@[i] == before[i]);
                }
                if (exists|i: int| 0 <= i < k + 1 && #[trigger] image_source(section.components@[i]) == Some(p))
                    && asset_path_allowed(p) && !lists_path(start, p) {
                    let i = choose|i: int| 0 <= i < k + 1 && #[trigger] image_source(section.components@[i]) == Some(p);
                    if i == k {
                        assert(found@[found@.len() - 1]@ == p);
                    }
                }
            }
        }
    }
}

/// The images that the mod's interface shows from its package, readable ones only,
/// in ascending order and each once.
pub fn image_paths(ui: &ModUi) -> (r: Vec<String>)
    ensures
        strictly_sorted(r@),
        forall|p: Seq<char>| #[trigger] lists_path(r@, p) <==> ui_shows(*ui, p) && asset_path_allowed(p),
{
    let mut found: Vec<String> = Vec::new();
    for j in 0..ui.sections.len()
        invariant
            forall|p: Seq<char>| #[trigger] lists_path(found@, p) <==>
                (exists|i: int| 0 <= i < j && #[trigger] section_shows(ui.sections@[i], p)) && asset_path_allowed(p),
    {
        collect_section(&ui.sections[j], &mut found);
        proof {
            assert forall|p: Seq<char>| #[trigger] lists_path(found@, p) <==>
                (exists|i: int| 0 <= i < j + 1 && #[trigger] section_shows(ui.sections@[i], p)) && asset_path_allowed(p) by {
                if (exists|i: int| 0 <= i < j + 1 && #[trigger] section_shows(ui.sections@[i], p)) {
                    let i = choose|i: int| 0 <= i < j + 1 && #[trigger] section_shows(ui.sections@[i], p);
                    if i < j {
                        assert(exists|i: int| 0 <= i < j && #[trigger] section_shows(ui.sections@[i], p));
                    }
                }
            }
        }
    }
    let ghost page = found@;
    for t in 0..ui.tabs.len()
        invariant
            forall|p: Seq<char>| #[trigger] lists_path(page, p) <==>
                (exists|i: int| 0 <= i < ui.sections@.len() && #[trigger] section_shows(ui.sections@[i], p)) && asset_path_allowed(p),
            forall|p: Seq<char>| #[trigger] lists_path(found@, p) <==> lists_path(page, p)
                || (exists|u: int, i: int| 0 <= u < t && 0 <= i < ui.tabs@[u].sections@.len()
                    && #[trigger] section_shows(ui.tabs@[u].sections@[i], p)) && asset_path_allowed(p),
    {
        let tab = &ui.tabs[t];
        let ghost before_tab = found@;
        for j in 0..tab.sections.len()
            invariant
                tab == ui.tabs@[t as int],
                forall|p: Seq<char>| #[trigger] lists_path(found@, p) <==> lists_path(before_tab, p)
                    || (exists|i: int| 0 <= i < j && #[trigger] section_shows(tab.sections@[i], p)) && asset_path_allowed(p),
        {
            collect_section(&tab.sections[j], &mut found);
            proof {
                assert forall|p: Seq<char>| #[trigger] lists_path(found@, p) <==> lists_path(before_tab, p)
                    || (exists|i: int| 0 <= i < j + 1 && #[trigger] section_shows(tab.sections@[i], p)) && asset_path_allowed(p) by {
                    if (exists|i: int| 0 <= i < j + 1 && #[trigger] section_shows(tab.sections@[i], p)) {
                        let i = choose|i: int| 0 <= i < j + 1 && #[trigger] section_shows(tab.sections@[i], p);
                        if i < j {
                            assert(exists|i: int| 0 <= i < j && #[trigger] section_shows(tab.sections@[i], p));
                        }
                    }
                }
            }
        }
        proof {
            assert forall|p: Seq<char>| #[trigger] lists_path(found@, p) <==> lists_path(page, p)
                || (exists|u: int, i: int| 0 <= u < t + 1 && 0 <= i < ui.tabs@[u].sections@.len()
                    && #[trigger] section_shows(ui.tabs@[u].sections@[i], p)) && asset_path_allowed(p) by {
                if exists|u: int, i: int| 0 <= u < t + 1 && 0 <= i < ui.tabs@[u].sections@.len()
                    && #[trigger] section_shows(ui.tabs@[u].sections@[i], p) {
                    let (u, i) = choose|u: int, i: int| 0 <= u < t + 1 && 0 <= i < ui.tabs@[u].sections@.len()
                        && #[trigger] section_shows(ui.tabs@[u].sections@[i], p);
                    if u < t {
                        assert(exists|u: int, i: int| 0 <= u < t && 0 <= i < ui.tabs@[u].sections@.len()
                            && #[trigger] section_shows(ui.tabs@[u].sections@[i], p));
                    } else {
                        assert(section_shows(tab.sections@[i], p));
                    }
                }
                if exists|i: int| 0 <= i < tab.sections@.len() && #[trigger] section_shows(tab.sections@[i], p) {
                    let i = choose|i: int| 0 <= i < tab.sections@.len() && #[trigger] section_shows(tab.sections@[i], p);
                    assert(section_shows(ui.tabs@[t as int].sections@[i], p));
                }
            }
        }
    }
    sorted_distinct(&found)
}

/// The image formats that the control window embeds.
#[derive(Clone, Copy, PartialEq, Eq, Structural, Debug)]
pub enum ImageType {
    Png,
    Jpeg,
    Webp,
    Svg,
}

/// The image format named by a file extension, in any case of ASCII letters.
pub open spec fn image_type_spec(extension: Seq<char>) -> Option<ImageType> {
    let e = lower_spec(extension);
    if e == "png"@ {
        Some(ImageType::Png)
    } else if e == "jpg"@ || e == "jpeg"@ {
        Some(ImageType::Jpeg)
    } else if e == "webp"@ {
        Some(ImageType::Webp)
    } else if e == "svg"@ {
        Some(ImageType::Svg)
    } else {
        None
    }
}

/// The media type of an image format.
pub open spec fn mime_spec(t: ImageType) -> Seq<char> {
    match t {
        ImageType::Png => "image/png"@,
        ImageType::Jpeg => "image/jpeg"@,
        ImageType::Webp => "image/webp"@,
        ImageType::Svg => "image/svg+xml"@,
    }
}

impl ImageType {
    /// The media type of the format.
    pub fn mime(&self) -> (r: String)
        ensures
            r@ == mime_spec(*self),
    {
        match self {
            ImageType::Png => String::from_str("image/png"),
            ImageType::Jpeg => String::from_str("image/jpeg"),
            ImageType::Webp => String::from_str("image/webp"),
            ImageType::Svg => String::from_str("image/svg+xml"),
        }
    }
}

/// The last component of a path whose separator is `/`: the last segment that is
/// neither empty nor `.` (repeated separators, a trailing separator and `.`
/// segments are normalized away); `None` when there is none.
pub open spec fn last_component(path: Seq<char>) -> Option<Seq<char>>
    decreases path.len(),
{
    if path.len() == 0 {
        None
    } else {
        let cut = last_slash(path);
        let segment = path.skip(cut + 1);
        if segment.len() > 0 && segment != seq!['.'] {
            Some(segment)
        } else if cut < 0 {
            None
        } else {
            proof {
                lemma_last_slash_bound(path);
            }
            last_component(path.take(cut))
        }
    }
}

/// The position of the last `/` in `s`, or -1.
pub open spec fn last_slash(s: Seq<char>) -> int
    decreases s.len(),
{
    if s.len() == 0 {
        -1
    } else if s.last() == '/' {
        s.len() - 1
    } else {
        last_slash(s.drop_last())
    }
}

pub proof fn lemma_last_slash_bound(s: Seq<char>)
    ensures
        -1 <= last_slash(s) < s.len(),
    decreases s.len(),
{
    if s.len() > 0 && s.last() != '/' {
        lemma_last_slash_bound(s.drop_last());
    }
}

/// The position of the last `.` in `s`, or -1.
pub open spec fn last_dot(s: Seq<char>) -> int
    decreases s.len(),
{
    if s.len() == 0 {
        -1
    } else if s.last() == '.' {
        s.len() - 1
    } else {
        last_dot(s.drop_last())
    }
}

/// The extension of a package path as `Path::extension` gives it: of the file
/// name (the last component, unless that is `..`), the text after its last dot;
/// none when the name has no dot or its only dot leads it.
pub open spec fn path_extension(path: Seq<char>) -> Option<Seq<char>> {
    match last_component(path) {
        None => None,
        Some(name) => if name == seq!['.', '.'] || last_dot(name) <= 0 {
            None
        } else {
            Some(name.skip(last_dot(name) + 1))
        },
    }
}

/// Calls `Path::extension` (std) and gives the extension as text. With no backslash
/// and a first component `assets`, the path has neither a prefix nor a root, and
/// `/` is its only separator on every platform.
#[verifier::external_body]
fn extension_of(path: &str) -> (r: Option<String>)
    requires
        starts_with(path@, "assets/"@),
        !path@.contains('\\'),
    ensures
        match r {
            Some(e) => path_extension(path@) == Some(e@),
            None => path_extension(path@) is None,
        },
{
    match std::path::Path::new(path).extension() {
        Some(extension) => Some(extension.to_string_lossy().into_owned()),
        None => None,
    }
}

/// The image format of a package path, by its extension.
fn image_type(path: &str) -> (r: Option<ImageType>)
    requires
        starts_with(path@, "assets/"@),
        !path@.contains('\\'),
    ensures
        r == match path_extension(path@) {
            Some(e) => image_type_spec(e),
            None => None,
        },
{
    let extension = match extension_of(path) {
        Some(e) => e,
        None => return None,
    };
    image_type_of_extension(extension.as_str())
}

/// The image format named by a file extension.
pub fn image_type_of_extension(extension: &str) -> (r: Option<ImageType>)
    ensures
        r == image_type_spec(extension@),
{
    let e = to_lowercase(extension);
    if str_equal(e.as_str(), "png") {
        Some(ImageType::Png)
    } else if str_equal(e.as_str(), "jpg") || str_equal(e.as_str(), "jpeg") {
        Some(ImageType::Jpeg)
    } else if str_equal(e.as_str(), "webp") {
        Some(ImageType::Webp)
    } else if str_equal(e.as_str(), "svg") {
        Some(ImageType::Svg)
    } else {
        None
    }
}

/// The character of a six-bit value in the standard base64 alphabet
/// (`A`–`Z`, `a`–`z`, `0`–`9`, `+`, `/`).
pub open spec fn base64_char(n: int) -> char {
    if n < 26 {
        (65 + n) as char
    } else if n < 52 {
        (97 + n - 26) as char
    } else if n < 62 {
        (48 + n - 52) as char
    } else if n == 62 {
        '+'
    } else {
        '/'
    }
}

/// The standard base64 text of some bytes (RFC 4648, section 4): each group of
/// three bytes becomes four characters, and a last group of one or two bytes is
/// padded with `=` to four.
pub open spec fn base64_standard(bytes: Seq<u8>) -> Seq<char>
    decreases bytes.len(),
{
    let b0 = bytes[0] as int;
    let b1 = bytes[1] as int;
    let b2 = bytes[2] as int;
    if bytes.len() == 0 {
        Seq::empty()
    } else if bytes.len() == 1 {
        seq![base64_char(b0 / 4), base64_char((b0 % 4) * 16), '=', '=']
    } else if bytes.len() == 2 {
        seq![base64_char(b0 / 4), base64_char((b0 % 4) * 16 + b1 / 16), base64_char((b1 % 16) * 4), '=']
    } else {
        seq![base64_char(b0 / 4), base64_char((b0 % 4) * 16 + b1 / 16), base64_char((b1 % 16) * 4 + b2 / 64),
            base64_char(b2 % 64)] + base64_standard(bytes.skip(3))
    }
}

/// Calls `base64::engine::general_purpose::STANDARD.encode`, which writes the
/// bytes in the standard alphabet and pads with `=` (the crate's `STANDARD`
/// engine: `alphabet::STANDARD` with `PAD`). The crate panics when the length of
/// the text overflows `usize`; `requires` leaves such inputs out.
#[verifier::external_body]
fn encode_base64(bytes: &Vec<u8>) -> (r: String)
    requires
        bytes@.len() / 3 * 4 + 4 <= usize::MAX,
    ensures
        r@ == base64_standard(bytes@),
{
    base64::engine::general_purpose::STANDARD.encode(bytes)
}

/// The `data:` URL under which the control window shows the image at `path` of the
/// package: none for a path outside `assets/` or one that may not be read, an image
/// over the size limit, or a format it does not show.
pub fn data_url(path: &str, bytes: &Vec<u8>) -> (r: Option<String>)
    ensures
        r is Some <==> starts_with(path@, "assets/"@) && asset_path_allowed(path@) && bytes@.len() <= ASSET_LIMIT
            && (path_extension(path@) matches Some(e) && image_type_spec(e) is Some),
        r matches Some(url) ==> url@ == "data:"@ + mime_spec(image_type_spec(path_extension(path@)->0)->0)
            + ";base64,"@ + base64_standard(bytes@),
{
    if !str_starts_with(path, "assets/") || !path_allowed(path) || bytes.len() > ASSET_LIMIT {
        return None;
    }
    let t = match image_type(path) {
        Some(t) => t,
        None => return None,
    };
    assert(bytes@.len() / 3 * 4 + 4 <= usize::MAX) by (nonlinear_arith)
        requires
            bytes@.len() <= 2097152,
    ;
    let encoded = encode_base64(bytes);
    Some(embedded(t, encoded.as_str()))
}

/// The `data:` URL of an image of format `t` whose base64 text is `encoded`.
pub fn embedded(t: ImageType, encoded: &str) -> (r: String)
    ensures
        r@ == "data:"@ + mime_spec(t) + ";base64,"@ + encoded@,
{
    let head = concat3("data:", t.mime().as_str(), ";base64,");
    proof {
        reveal_strlit("");
    }
    concat3(head.as_str(), encoded, "")
}

} // verus!
