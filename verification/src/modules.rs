//! The cache behind the Lua `require` of mods: every module is loaded at most once,
//! a module that is required while it is still loading is a circular dependency,
//! and a module path names a file under the package's `src` directory.
use vstd::prelude::*;
use crate::text::{chars_of, concat3, str_equal, string_of};
use crate::keyed::{distinct_keys, entries_map, get_key, set_key};
use crate::manifest::Capability;

verus! {

/// How a `require` of a key proceeds.
#[derive(Clone, Copy, PartialEq, Eq, Debug)]
pub enum RequireStart {
    /// The module was loaded before; its value is in the cache.
    Cached,
    /// The module is being loaded further up the chain.
    Circular,
    /// The module is to be loaded now; it counts as loading until it is finished.
    Load,
}

/// The modules that finished loading, with their values, and the keys being loaded.
#[derive(Debug)]
pub struct ModuleCache<V> {
    loaded: Vec<(String, V)>,
    loading: Vec<String>,
}

/// The keys of a list of strings, as a set.
pub open spec fn key_set(keys: Seq<String>) -> Set<Seq<char>> {
    Set::new(|k: Seq<char>| exists|i: int| 0 <= i < keys.len() && #[trigger] keys[i]@ == k)
}

/// The cache after a load of `key` ended: with its value when the load succeeded,
/// unchanged when it failed.
pub open spec fn finished<V>(loaded: Map<Seq<char>, V>, key: Seq<char>, value: Option<V>) -> Map<Seq<char>, V> {
    match value {
        Some(v) => loaded.insert(key, v),
        None => loaded,
    }
}

impl<V> ModuleCache<V> {
    pub closed spec fn loaded_map(&self) -> Map<Seq<char>, V> {
        entries_map(self.loaded@)
    }

    pub closed spec fn loading_set(&self) -> Set<Seq<char>> {
        key_set(self.loading@)
    }

    /// The loaded keys are distinct.
    pub closed spec fn wf(&self) -> bool {
        distinct_keys(self.loaded@)
    }

    /// An empty cache.
    pub fn new() -> (r: ModuleCache<V>)
        ensures
            r.wf(),
            r.loaded_map() == Map::<Seq<char>, V>::empty(),
            r.loading_set() == Set::<Seq<char>>::empty(),
    {
        let r = ModuleCache { loaded: Vec::new(), loading: Vec::new() };
        assert(r.loading_set() =~= Set::<Seq<char>>::empty());
        r
    }

    /// The value cached under `key`, if its module finished loading.
    pub fn get(&self, key: &str) -> (r: Option<&V>)
        requires
            self.wf(),
        ensures
            r.is_some() == self.loaded_map().dom().contains(key@),
            r matches Some(v) ==> *v == self.loaded_map()[key@],
    {
        get_key(&self.loaded, key)
    }

    fn is_loading(&self, key: &str) -> (r: bool)
        ensures
            r == self.loading_set().contains(key@),
    {
        for i in 0..self.loading.len()
            invariant
                forall|j: int| 0 <= j < i ==> #[trigger] self.loading@[j]@ != key@,
        {
            if str_equal(self.loading[i].as_str(), key) {
                assert(self.loading@[i as int]@ == key@);
                return true;
            }
        }
        false
    }

    /// Starts a `require` of `key`: a cached module is served from the cache, one
    /// that is still loading is a circular dependency, and any other is marked as
    /// loading.
    pub fn begin(&mut self, key: &str) -> (r: RequireStart)
        requires
            old(self).wf(),
        ensures
            final(self).wf(),
            final(self).loaded_map() == old(self).loaded_map(),
            old(self).loaded_map().dom().contains(key@) ==> r == RequireStart::Cached && final(self).loading_set() == old(self).loading_set(),
            !old(self).loaded_map().dom().contains(key@) && old(self).loading_set().contains(key@)
                ==> r == RequireStart::Circular && final(self).loading_set() == old(self).loading_set(),
            !old(self).loaded_map().dom().contains(key@) && !old(self).loading_set().contains(key@)
                ==> r == RequireStart::Load && final(self).loading_set() == old(self).loading_set().insert(key@),
    {
        if get_key(&self.loaded, key).is_some() {
            return RequireStart::Cached;
        }
        if self.is_loading(key) {
            return RequireStart::Circular;
        }
        let ghost before = self.loading@;
        self.loading.push(key.to_string());
        proof {
            assert forall|k: Seq<char>| #[trigger] key_set(self.loading@).contains(k) == key_set(before).insert(key@).contains(k) by {
                if key_set(before).contains(k) {
                    let i = choose|i: int| 0 <= i < before.len() && #[trigger] before[i]@ == k;
                    assert(self.loading@[i] == before[i]);
                }
                if key_set(self.loading@).contains(k) && k != key@ {
                    let i = choose|i: int| 0 <= i < self.loading@.len() && #[trigger] self.loading@[i]@ == k;
                    assert(i < before.len());
                    assert(before[i] == self.loading@[i]);
                }
                if k == key@ {
                    assert(self.loading@[before.len() as int]@ == key@);
                }
            }
            assert(key_set(self.loading@) =~= key_set(before).insert(key@));
        }
        RequireStart::Load
    }

    /// Caches `value` under `key`, replacing what was cached there.
    pub fn insert(&mut self, key: &str, value: V)
        requires
            old(self).wf(),
        ensures
            final(self).wf(),
            final(self).loaded_map() == old(self).loaded_map().insert(key@, value),
            final(self).loading_set() == old(self).loading_set(),
    {
        set_key(&mut self.loaded, key, value);
    }

    /// Ends the load of `key`: it no longer counts as loading, and its value, when
    /// the load succeeded, is cached.
    pub fn finish(&mut self, key: &str, value: Option<V>)
        requires
            old(self).wf(),
        ensures
            final(self).wf(),
            final(self).loaded_map() == finished(old(self).loaded_map(), key@, value),
            final(self).loading_set() == old(self).loading_set().remove(key@),
    {
        let ghost before = self.loading@;
        let mut kept: Vec<String> = Vec::new();
        for i in 0..self.loading.len()
            invariant
                before == self.loading@,
                forall|k: Seq<char>| #[trigger] key_set(kept@).contains(k)
                    <==> (k != key@ && exists|j: int| 0 <= j < i && #[trigger] before[j]@ == k),
        {
            if !str_equal(self.loading[i].as_str(), key) {
                let ghost old_kept = kept@;
                kept.push(self.loading[i].clone());
                proof {
                    assert forall|k: Seq<char>| #[trigger] key_set(kept@).contains(k)
                        <==> (k != key@ && exists|j: int| 0 <= j < i + 1 && #[trigger] before[j]@ == k) by {
                        if key_set(kept@).contains(k) {
                            let m = choose|m: int| 0 <= m < kept@.len() && #[trigger] kept@[m]@ == k;
                            if m < old_kept.len() {
                                assert(old_kept[m] == kept@[m]);
                                assert(key_set(old_kept).contains(k));
                            } else {
                                assert(before[i as int]@ == k);
                            }
                        }
                        if k != key@ && exists|j: int| 0 <= j < i + 1 && #[trigger] before[j]@ == k {
                            let j = choose|j: int| 0 <= j < i + 1 && #[trigger] before[j]@ == k;
                            if j < i {
                                assert(key_set(old_kept).contains(k));
                                let m = choose|m: int| 0 <= m < old_kept.len() && #[trigger] old_kept[m]@ == k;
                                assert(kept@[m] == old_kept[m]);
                            } else {
                                assert(kept@[old_kept.len() as int]@ == k);
                            }
                        }
                    }
                }
            } else {
                proof {
                    assert forall|k: Seq<char>| #[trigger] key_set(kept@).contains(k)
                        <==> (k != key@ && exists|j: int| 0 <= j < i + 1 && #[trigger] before[j]@ == k) by {
                        if k != key@ && exists|j: int| 0 <= j < i + 1 && #[trigger] before[j]@ == k {
                            let j = choose|j: int| 0 <= j < i + 1 && #[trigger] before[j]@ == k;
                            assert(j < i);
                        }
                    }
                }
            }
        }
        self.loading = kept;
        proof {
            assert(key_set(self.loading@) =~= key_set(before).remove(key@));
        }
        match value {
            Some(v) => self.insert(key, v),
            None => {},
        }
    }
}

/// The module path `a.b.c` names the file `src/a/b/c.lua`; the empty path names
/// the package root.
pub open spec fn module_file_spec(path: Seq<char>) -> Seq<char> {
    if path.len() == 0 {
        Seq::empty()
    } else {
        "src/"@ + path.map_values(|c: char| if c == '.' { '/' } else { c }) + ".lua"@
    }
}

/// The file that holds the module at `path`.
pub fn module_file(path: &str) -> (r: String)
    ensures
        r@ == module_file_spec(path@),
{
    let chars = chars_of(path);
    if chars.len() == 0 {
        return String::new();
    }
    let mut out: Vec<char> = Vec::new();
    for i in 0..chars.len()
        invariant
            out@ == chars@.take(i as int).map_values(|c: char| if c == '.' { '/' } else { c }),
    {
        let c = chars[i];
        out.push(if c == '.' { '/' } else { c });
        assert(out@ =~= chars@.take(i + 1).map_values(|c: char| if c == '.' { '/' } else { c }));
    }
    assert(chars@.take(chars@.len() as int) =~= chars@);
    let middle = string_of(&out);
    concat3("src/", middle.as_str(), ".lua")
}

/// The cache key under which a package's entrypoint is loaded.
pub fn entrypoint_key(mod_id: &str) -> (r: String)
    ensures
        r@ == "mods:"@ + mod_id@,
{
    let r = concat3("mods:", mod_id, "");
    proof { reveal_strlit(""); assert(r@ =~= "mods:"@ + mod_id@); }
    r
}

/// The second key under which a mod's `mod` module is cached.
pub fn alias_key(mod_id: &str) -> (r: String)
    ensures
        r@ == "mods."@ + mod_id@,
{
    let r = concat3("mods.", mod_id, "");
    proof { reveal_strlit(""); assert(r@ =~= "mods."@ + mod_id@); }
    r
}

/// A module that finished loading is served from the cache: after a load of `key`
/// succeeds with `value`, looking `key` up gives `value`.
pub proof fn loaded_module_is_cached<V>(loaded: Map<Seq<char>, V>, key: Seq<char>, value: V)
    ensures
        finished(loaded, key, Some(value)).dom().contains(key),
        finished(loaded, key, Some(value))[key] == value,
{
}

/// A failed load caches nothing: the cache is as it was before the load.
pub proof fn failed_load_caches_nothing<V>(loaded: Map<Seq<char>, V>, key: Seq<char>)
    ensures
        finished(loaded, key, None) == loaded,
{
}

/// Whether a mod runs in the asset pass: it writes assets and the run grants asset
/// writes, or it exports and the run grants exports.
pub fn runs_in_asset_pass(capabilities: &Vec<Capability>, assets_write: bool, export: bool) -> (r: bool)
    ensures
        r == ((capabilities@.contains(Capability::AssetsWrite) && assets_write)
            || (capabilities@.contains(Capability::Export) && export)),
{
    let mut writes = false;
    let mut exports = false;
    for i in 0..capabilities.len()
        invariant
            writes == exists|j: int| 0 <= j < i && capabilities@[j] == Capability::AssetsWrite,
            exports == exists|j: int| 0 <= j < i && capabilities@[j] == Capability::Export,
    {
        if capabilities[i] == Capability::AssetsWrite {
            writes = true;
        }
        if capabilities[i] == Capability::Export {
            exports = true;
        }
    }
    (writes && assets_write) || (exports && export)
}

} // verus!
