//! The notifications the modloader UI publishes when the installed mods change:
//! comparing the mods found now with those recorded last time, a new mod is an
//! install, a changed version an update, and a vanished mod a removal.
use vstd::prelude::*;
use crate::text::{concat3, str_equal};

verus! {

/// A mod as found now: its id, display name and display version.
#[derive(Debug)]
pub struct CurrentMod {
    pub id: String,
    pub name: String,
    pub version: String,
}

/// A mod as recorded last time; the record may lack its name or version.
#[derive(Debug)]
pub struct RecordedMod {
    pub id: String,
    pub name: Option<String>,
    pub version: Option<String>,
}

/// What happened to a mod.
#[derive(Clone, Copy, PartialEq, Eq, Debug)]
pub enum ChangeKind {
    Install,
    Update,
    Remove,
}

impl ChangeKind {
    pub open spec fn name(self) -> Seq<char> {
        match self {
            ChangeKind::Install => "mod.install.success"@,
            ChangeKind::Update => "mod.update.success"@,
            ChangeKind::Remove => "mod.remove.success"@,
        }
    }

    pub open spec fn level_spec(self) -> Seq<char> {
        match self {
            ChangeKind::Install => "success"@,
            ChangeKind::Update => "update"@,
            ChangeKind::Remove => "info"@,
        }
    }

    /// The notification kind, such as `mod.install.success`.
    pub fn as_str(self) -> (r: &'static str)
        ensures
            r@ == self.name(),
    {
        match self {
            ChangeKind::Install => "mod.install.success",
            ChangeKind::Update => "mod.update.success",
            ChangeKind::Remove => "mod.remove.success",
        }
    }

    /// The notification level: `success`, `update` or `info`.
    pub fn level(self) -> (r: &'static str)
        ensures
            r@ == self.level_spec(),
    {
        match self {
            ChangeKind::Install => "success",
            ChangeKind::Update => "update",
            ChangeKind::Remove => "info",
        }
    }

    pub open spec fn word(self) -> Seq<char> {
        match self {
            ChangeKind::Install => "install"@,
            ChangeKind::Update => "update"@,
            ChangeKind::Remove => "remove"@,
        }
    }
}

/// A notification to publish.
#[derive(Debug)]
pub struct ModEvent {
    /// `mod-<install|update|remove>-<mod id>-<version>`.
    pub id: String,
    pub kind: ChangeKind,
    pub name: String,
    pub version: String,
    pub previous_version: Option<String>,
}

/// A notification as the contracts read it.
pub type EventView = (Seq<char>, ChangeKind, Seq<char>, Seq<char>, Option<Seq<char>>);

impl ModEvent {
    pub open spec fn view(&self) -> EventView {
        (self.id@, self.kind, self.name@, self.version@, match self.previous_version { Some(v) => Some(v@), None => None })
    }
}

pub open spec fn opt_view(s: Option<String>) -> Option<Seq<char>> {
    match s {
        Some(v) => Some(v@),
        None => None,
    }
}

/// `mod-<kind>-<id>-<version>`.
pub open spec fn event_id(kind: ChangeKind, id: Seq<char>, version: Seq<char>) -> Seq<char> {
    "mod-"@ + kind.word() + "-"@ + id + "-"@ + version
}

/// The first recorded mod with this id.
pub open spec fn recorded_index(recorded: Seq<RecordedMod>, id: Seq<char>) -> Option<int>
    decreases recorded.len(),
{
    if recorded.len() == 0 {
        None
    } else if recorded[0].id@ == id {
        Some(0)
    } else {
        match recorded_index(recorded.drop_first(), id) {
            Some(i) => Some(i + 1),
            None => None,
        }
    }
}

/// Whether a mod with this id is found now.
pub open spec fn found_now(current: Seq<CurrentMod>, id: Seq<char>) -> bool {
    exists|i: int| 0 <= i < current.len() && #[trigger] current[i].id@ == id
}

/// The version a record shows: its own, or `unknown`.
pub open spec fn recorded_version(m: RecordedMod) -> Seq<char> {
    match m.version {
        Some(v) => v@,
        None => "unknown"@,
    }
}

/// What a mod found now announces: an install when no record has its id, an update
/// when the record's version differs, nothing otherwise.
pub open spec fn current_event(recorded: Seq<RecordedMod>, m: CurrentMod) -> Option<EventView> {
    match recorded_index(recorded, m.id@) {
        None => Some((event_id(ChangeKind::Install, m.id@, m.version@), ChangeKind::Install, m.name@, m.version@, None)),
        Some(j) => if opt_view(recorded[j].version) != Some(m.version@) {
            Some((event_id(ChangeKind::Update, m.id@, m.version@), ChangeKind::Update, m.name@, m.version@, Some(recorded_version(recorded[j]))))
        } else {
            None
        },
    }
}

/// What a recorded mod announces: a removal when it is no longer found, showing
/// the recorded name (or else its id) and version (or else `unknown`).
pub open spec fn removal_event(current: Seq<CurrentMod>, m: RecordedMod) -> Option<EventView> {
    if found_now(current, m.id@) {
        None
    } else {
        let name = match m.name { Some(n) => n@, None => m.id@ };
        let version = recorded_version(m);
        Some((event_id(ChangeKind::Remove, m.id@, version), ChangeKind::Remove, name, version, None))
    }
}

pub open spec fn current_events(recorded: Seq<RecordedMod>, current: Seq<CurrentMod>) -> Seq<EventView>
    decreases current.len(),
{
    if current.len() == 0 {
        Seq::empty()
    } else {
        let rest = current_events(recorded, current.drop_last());
        match current_event(recorded, current.last()) {
            Some(e) => rest.push(e),
            None => rest,
        }
    }
}

pub open spec fn removal_events(current: Seq<CurrentMod>, recorded: Seq<RecordedMod>) -> Seq<EventView>
    decreases recorded.len(),
{
    if recorded.len() == 0 {
        Seq::empty()
    } else {
        let rest = removal_events(current, recorded.drop_last());
        match removal_event(current, recorded.last()) {
            Some(e) => rest.push(e),
            None => rest,
        }
    }
}

/// The notifications of a change: none without an earlier record (the first run
/// only records); else the announcements of the mods found now, in their order,
/// then the removals, in the order of the record.
pub open spec fn mod_events_spec(recorded: Option<Seq<RecordedMod>>, current: Seq<CurrentMod>) -> Seq<EventView> {
    match recorded {
        None => Seq::empty(),
        Some(recorded) => current_events(recorded, current) + removal_events(current, recorded),
    }
}

fn find_recorded(recorded: &Vec<RecordedMod>, id: &str) -> (r: Option<usize>)
    ensures
        r matches Some(i) ==> recorded_index(recorded@, id@) == Some(i as int) && i < recorded@.len(),
        r is None ==> recorded_index(recorded@, id@) is None,
{
    let mut i: usize = 0;
    assert(recorded@.skip(0) =~= recorded@);
    while i < recorded.len()
        invariant
            i <= recorded@.len(),
            recorded_index(recorded@, id@) == match recorded_index(recorded@.skip(i as int), id@) {
                Some(k) => Some(k + i),
                None => None::<int>,
            },
        decreases recorded.len() - i,
    {
        assert(recorded@.skip(i as int).drop_first() =~= recorded@.skip(i + 1));
        if str_equal(recorded[i].id.as_str(), id) {
            return Some(i);
        }
        i = i + 1;
    }
    None
}

fn is_found(current: &Vec<CurrentMod>, id: &str) -> (r: bool)
    ensures
        r == found_now(current@, id@),
{
    for i in 0..current.len()
        invariant
            forall|j: int| 0 <= j < i ==> current@[j].id@ != id@,
    {
        if str_equal(current[i].id.as_str(), id) {
            assert(current@[i as int].id@ == id@);
            return true;
        }
    }
    false
}

fn make_id(kind: ChangeKind, id: &str, version: &str) -> (r: String)
    ensures
        r@ == event_id(kind, id@, version@),
{
    let prefix = match kind {
        ChangeKind::Install => "mod-install-",
        ChangeKind::Update => "mod-update-",
        ChangeKind::Remove => "mod-remove-",
    };
    let r = concat3(prefix, id, "-");
    let r = concat3(r.as_str(), version, "");
    proof {
        reveal_strlit("mod-install-");
        reveal_strlit("mod-update-");
        reveal_strlit("mod-remove-");
        reveal_strlit("install");
        reveal_strlit("update");
        reveal_strlit("remove");
        reveal_strlit("mod-");
        reveal_strlit("-");
        reveal_strlit("");
        assert(prefix@ =~= "mod-"@ + kind.word() + "-"@);
        assert(r@ =~= event_id(kind, id@, version@));
    }
    r
}

fn clone_opt(s: &Option<String>) -> (r: Option<String>)
    ensures
        opt_view(r) == opt_view(*s),
{
    match s {
        Some(v) => Some(v.clone()),
        None => None,
    }
}

/// The notifications to publish for the mods found now, given the record of the
/// last run (`None` when there is none).
pub fn mod_events(recorded: Option<&Vec<RecordedMod>>, current: &Vec<CurrentMod>) -> (r: Vec<ModEvent>)
    ensures
        r@.map_values(|e: ModEvent| e.view()) == mod_events_spec(
            match recorded { Some(v) => Some(v@), None => None }, current@),
{
    let mut out: Vec<ModEvent> = Vec::new();
    let recorded = match recorded {
        Some(v) => v,
        None => {
            assert(out@.map_values(|e: ModEvent| e.view()) =~= Seq::<EventView>::empty());
            return out;
        },
    };
    for i in 0..current.len()
        invariant
            out@.map_values(|e: ModEvent| e.view()) == current_events(recorded@, current@.take(i as int)),
    {
        let m = &current[i];
        let ghost before = out@;
        match find_recorded(recorded, m.id.as_str()) {
            None => {
                out.push(ModEvent {
                    id: make_id(ChangeKind::Install, m.id.as_str(), m.version.as_str()),
                    kind: ChangeKind::Install,
                    name: m.name.clone(),
                    version: m.version.clone(),
                    previous_version: None,
                });
            },
            Some(j) => {
                let same = match &recorded[j].version {
                    Some(v) => str_equal(v.as_str(), m.version.as_str()),
                    None => false,
                };
                if !same {
                    let previous = match &recorded[j].version {
                        Some(v) => v.clone(),
                        None => String::from_str("unknown"),
                    };
                    proof { reveal_strlit("unknown"); }
                    out.push(ModEvent {
                        id: make_id(ChangeKind::Update, m.id.as_str(), m.version.as_str()),
                        kind: ChangeKind::Update,
                        name: m.name.clone(),
                        version: m.version.clone(),
                        previous_version: Some(previous),
                    });
                }
            },
        }
        proof {
            assert(current@.take(i + 1).drop_last() =~= current@.take(i as int));
            assert(current@.take(i + 1).last() == current@[i as int]);
        }
        assert(out@.map_values(|e: ModEvent| e.view()) =~= current_events(recorded@, current@.take(i + 1)));
    }
    assert(current@.take(current@.len() as int) =~= current@);
    let ghost head = out@.map_values(|e: ModEvent| e.view());
    for k in 0..recorded.len()
        invariant
            head == current_events(recorded@, current@),
            out@.map_values(|e: ModEvent| e.view()) == head + removal_events(current@, recorded@.take(k as int)),
    {
        let m = &recorded[k];
        let ghost before = out@;
        if !is_found(current, m.id.as_str()) {
            let name = match &m.name {
                Some(n) => n.clone(),
                None => m.id.clone(),
            };
            let version = match &m.version {
                Some(v) => v.clone(),
                None => String::from_str("unknown"),
            };
            proof { reveal_strlit("unknown"); }
            out.push(ModEvent {
                id: make_id(ChangeKind::Remove, m.id.as_str(), version.as_str()),
                kind: ChangeKind::Remove,
                name,
                version,
                previous_version: None,
            });
            assert(out@.last().view() == removal_event(current@, recorded@[k as int]).unwrap());
            assert(out@.map_values(|e: ModEvent| e.view()) =~= before.map_values(|e: ModEvent| e.view()).push(out@.last().view()));
        } else {
            assert(removal_event(current@, recorded@[k as int]) is None);
        }
        proof {
            assert(recorded@.take(k + 1).drop_last() =~= recorded@.take(k as int));
            assert(recorded@.take(k + 1).last() == recorded@[k as int]);
        }
        assert(out@.map_values(|e: ModEvent| e.view()) =~= head + removal_events(current@, recorded@.take(k + 1)));
    }
    assert(recorded@.take(recorded@.len() as int) =~= recorded@);
    out
}

/// A mod that is found now and was recorded with the same version announces
/// nothing.
pub proof fn unchanged_mod_is_silent(recorded: Seq<RecordedMod>, m: CurrentMod, j: int)
    requires
        0 <= j < recorded.len(),
        recorded_index(recorded, m.id@) == Some(j),
        opt_view(recorded[j].version) == Some(m.version@),
    ensures
        current_event(recorded, m) is None,
{
}

} // verus!
