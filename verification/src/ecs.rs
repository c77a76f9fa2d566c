//! Writing a component of the live ECS world back from a mod's edited copy.
//!
//! A mod reads a component, edits the decoded value and writes it back. Only the
//! plain (fixed-size, non-dynamic) fields whose bytes the mod changed are written,
//! over a fresh read of the live component, so that concurrent engine changes to
//! other fields survive.
use vstd::prelude::*;
use crate::text::{concat3, concat5};

verus! {

/// How a type of the reflection registry lays out its bytes.
#[derive(Clone, Copy, PartialEq, Eq, Structural, Debug)]
pub enum LayoutKind {
    /// An alias of its inner type.
    Typedef,
    /// Fields at offsets, after the bytes of its parent (inner) type, if any.
    Struct,
    /// `field_count` elements of its inner type, back to back.
    StaticArray,
    /// A dynamic container (array, string, optional, variant) that cannot be
    /// written in place.
    Dynamic,
    /// Any other fixed-size value.
    Plain,
}

/// A field of a struct type.
#[derive(Debug)]
pub struct LayoutField {
    pub name: String,
    /// The registry index of the field's type.
    pub type_index: usize,
    pub data_offset: u64,
}

/// The layout of one registry type.
#[derive(Debug)]
pub struct LayoutType {
    pub qualified_name: String,
    pub size: u32,
    pub kind: LayoutKind,
    /// The registry index of the inner (aliased, parent or element) type.
    pub inner_type: Option<usize>,
    pub fields: Vec<LayoutField>,
    pub field_count: u32,
}

/// The bytes `start..end` of `a` and `b` differ.
pub open spec fn slices_differ(a: Seq<u8>, b: Seq<u8>, start: int, end: int) -> bool {
    a.subrange(start, end) != b.subrange(start, end)
}

/// Records `start..end` as changed, extending the last range when it ends at `start`.
pub open spec fn add_range(ranges: Seq<(usize, usize)>, start: usize, end: usize) -> Seq<(usize, usize)> {
    if ranges.len() > 0 && ranges.last().1 == start {
        ranges.update(ranges.len() - 1, (ranges.last().0, end))
    } else {
        ranges.push((start, end))
    }
}

/// The registry index of a type's inner type, when it names a registry entry.
pub open spec fn inner_of(registry: Seq<LayoutType>, ty: LayoutType) -> Option<int> {
    match ty.inner_type {
        Some(i) => if i < registry.len() { Some(i as int) } else { None },
        None => None,
    }
}

pub open spec fn overflow_message(name: Seq<char>) -> Seq<char> {
    "runtime layout overflow: "@ + name
}

/// The changed plain ranges of type `t` at `base`, appended to `ranges`, or the
/// reason the write cannot go ahead. `depth` bounds how deeply types may nest.
pub open spec fn collect_spec(
    registry: Seq<LayoutType>,
    t: int,
    base: int,
    source: Seq<u8>,
    candidate: Seq<u8>,
    ranges: Seq<(usize, usize)>,
    depth: nat,
) -> Result<Seq<(usize, usize)>, Seq<char>>
    decreases depth, 0int,
{
    let ty = registry[t];
    let name = ty.qualified_name@;
    let end = base + ty.size;
    if end > usize::MAX {
        Err(overflow_message(name))
    } else if end > source.len() || end > candidate.len() {
        Err("runtime layout outside component: "@ + name)
    } else if depth == 0 {
        Err("runtime layout nesting too deep: "@ + name)
    } else {
        match ty.kind {
            LayoutKind::Typedef => match inner_of(registry, ty) {
                Some(inner) => collect_spec(registry, inner, base, source, candidate, ranges, (depth - 1) as nat),
                None => Err("missing inner type: "@ + name),
            },
            LayoutKind::Struct => {
                let after_parent = match inner_of(registry, ty) {
                    Some(parent) => collect_spec(registry, parent, base, source, candidate, ranges, (depth - 1) as nat),
                    None => Ok(ranges),
                };
                match after_parent {
                    Ok(rs) => fields_spec(registry, t, 0, base, source, candidate, rs, (depth - 1) as nat),
                    Err(m) => Err(m),
                }
            },
            LayoutKind::StaticArray => match inner_of(registry, ty) {
                Some(inner) => elements_spec(registry, t, inner, 0, base, source, candidate, ranges, (depth - 1) as nat),
                None => Err("missing array element type: "@ + name),
            },
            LayoutKind::Dynamic => if slices_differ(source, candidate, base, end) {
                Err("runtime write for dynamic field type is not supported: "@ + name)
            } else {
                Ok(ranges)
            },
            LayoutKind::Plain => if slices_differ(source, candidate, base, end) {
                Ok(add_range(ranges, base as usize, end as usize))
            } else {
                Ok(ranges)
            },
        }
    }
}

/// The fields of struct `t` from field `i` on.
pub open spec fn fields_spec(
    registry: Seq<LayoutType>,
    t: int,
    i: int,
    base: int,
    source: Seq<u8>,
    candidate: Seq<u8>,
    ranges: Seq<(usize, usize)>,
    depth: nat,
) -> Result<Seq<(usize, usize)>, Seq<char>>
    decreases depth, registry[t].fields@.len() - i,
{
    let ty = registry[t];
    if i < 0 || i >= ty.fields@.len() {
        Ok(ranges)
    } else {
        let field = ty.fields@[i];
        if field.type_index >= registry.len() {
            Err("missing field type: "@ + ty.qualified_name@ + "."@ + field.name@)
        } else if field.data_offset > usize::MAX {
            Err("invalid field offset: "@ + ty.qualified_name@ + "."@ + field.name@)
        } else if base + field.data_offset > usize::MAX {
            Err(overflow_message(registry[field.type_index as int].qualified_name@))
        } else {
            match collect_spec(registry, field.type_index as int, base + field.data_offset, source, candidate, ranges, depth) {
                Ok(rs) => fields_spec(registry, t, i + 1, base, source, candidate, rs, depth),
                Err(m) => Err(m),
            }
        }
    }
}

/// The elements of array `t`, of type `inner`, from element `i` on.
pub open spec fn elements_spec(
    registry: Seq<LayoutType>,
    t: int,
    inner: int,
    i: int,
    base: int,
    source: Seq<u8>,
    candidate: Seq<u8>,
    ranges: Seq<(usize, usize)>,
    depth: nat,
) -> Result<Seq<(usize, usize)>, Seq<char>>
    decreases depth, registry[t].field_count - i,
{
    if i < 0 || i >= registry[t].field_count {
        Ok(ranges)
    } else {
        let at = base + i * registry[inner].size;
        if at > usize::MAX {
            Err(overflow_message(registry[inner].qualified_name@))
        } else {
            match collect_spec(registry, inner, at, source, candidate, ranges, depth) {
                Ok(rs) => elements_spec(registry, t, inner, i + 1, base, source, candidate, rs, depth),
                Err(m) => Err(m),
            }
        }
    }
}

/// An outcome computed in code agrees with the stated one.
pub open spec fn collected(r: Result<(), String>, after: Seq<(usize, usize)>, spec: Result<Seq<(usize, usize)>, Seq<char>>) -> bool {
    match spec {
        Ok(rs) => r is Ok && after == rs,
        Err(m) => r matches Err(s) && s@ == m,
    }
}

fn slices_equal(a: &Vec<u8>, b: &Vec<u8>, start: usize, end: usize) -> (r: bool)
    requires
        start <= end <= a@.len(),
        end <= b@.len(),
    ensures
        r == !slices_differ(a@, b@, start as int, end as int),
{
    let mut i = start;
    while i < end
        invariant
            start <= i <= end,
            end <= a@.len(),
            end <= b@.len(),
            forall|k: int| start <= k < i ==> a@[k] == b@[k],
        decreases end - i,
    {
        if a[i] != b[i] {
            assert(a@.subrange(start as int, end as int)[i - start] != b@.subrange(start as int, end as int)[i - start]);
            return false;
        }
        i = i + 1;
    }
    assert(a@.subrange(start as int, end as int) =~= b@.subrange(start as int, end as int));
    true
}

fn push_range(ranges: &mut Vec<(usize, usize)>, start: usize, end: usize)
    ensures
        final(ranges)@ == add_range(old(ranges)@, start, end),
{
    let n = ranges.len();
    if n > 0 && ranges[n - 1].1 == start {
        let first = ranges[n - 1].0;
        ranges.set(n - 1, (first, end));
    } else {
        ranges.push((start, end));
    }
}

fn collect(
    registry: &Vec<LayoutType>,
    t: usize,
    base: usize,
    source: &Vec<u8>,
    candidate: &Vec<u8>,
    ranges: &mut Vec<(usize, usize)>,
    depth: usize,
) -> (r: Result<(), String>)
    requires
        t < registry@.len(),
    ensures
        collected(r, final(ranges)@, collect_spec(registry@, t as int, base as int, source@, candidate@, old(ranges)@, depth as nat)),
    decreases depth, 0int,
{
    let ty = &registry[t];
    let name = ty.qualified_name.as_str();
    proof { reveal_strlit(""); }
    let end = match base.checked_add(ty.size as usize) {
        Some(end) => end,
        None => return Err(concat3("runtime layout overflow: ", name, "")),
    };
    if end > source.len() || end > candidate.len() {
        return Err(concat3("runtime layout outside component: ", name, ""));
    }
    if depth == 0 {
        return Err(concat3("runtime layout nesting too deep: ", name, ""));
    }
    match ty.kind {
        LayoutKind::Typedef => {
            match ty.inner_type {
                Some(inner) => {
                    if inner < registry.len() {
                        collect(registry, inner, base, source, candidate, ranges, depth - 1)
                    } else {
                        Err(concat3("missing inner type: ", name, ""))
                    }
                },
                None => Err(concat3("missing inner type: ", name, "")),
            }
        },
        LayoutKind::Struct => {
            match ty.inner_type {
                Some(parent) => {
                    if parent < registry.len() {
                        let outcome = collect(registry, parent, base, source, candidate, ranges, depth - 1);
                        if outcome.is_err() {
                            return outcome;
                        }
                    }
                },
                None => {},
            }
            collect_fields(registry, t, 0, base, source, candidate, ranges, depth - 1)
        },
        LayoutKind::StaticArray => {
            match ty.inner_type {
                Some(inner) => {
                    if inner < registry.len() {
                        collect_elements(registry, t, inner, 0, base, source, candidate, ranges, depth - 1)
                    } else {
                        Err(concat3("missing array element type: ", name, ""))
                    }
                },
                None => Err(concat3("missing array element type: ", name, "")),
            }
        },
        LayoutKind::Dynamic => {
            if !slices_equal(source, candidate, base, end) {
                Err(concat3("runtime write for dynamic field type is not supported: ", name, ""))
            } else {
                Ok(())
            }
        },
        LayoutKind::Plain => {
            if !slices_equal(source, candidate, base, end) {
                push_range(ranges, base, end);
            }
            Ok(())
        },
    }
}

fn collect_fields(
    registry: &Vec<LayoutType>,
    t: usize,
    i: usize,
    base: usize,
    source: &Vec<u8>,
    candidate: &Vec<u8>,
    ranges: &mut Vec<(usize, usize)>,
    depth: usize,
) -> (r: Result<(), String>)
    requires
        t < registry@.len(),
        i <= registry@[t as int].fields@.len(),
    ensures
        collected(r, final(ranges)@, fields_spec(registry@, t as int, i as int, base as int, source@, candidate@, old(ranges)@, depth as nat)),
    decreases depth, registry@[t as int].fields@.len() - i,
{
    let ty = &registry[t];
    if i >= ty.fields.len() {
        return Ok(());
    }
    let field = &ty.fields[i];
    proof { reveal_strlit(""); }
    if field.type_index >= registry.len() {
        return Err(concat5("missing field type: ", ty.qualified_name.as_str(), ".", field.name.as_str(), ""));
    }
    if field.data_offset > usize::MAX as u64 {
        return Err(concat5("invalid field offset: ", ty.qualified_name.as_str(), ".", field.name.as_str(), ""));
    }
    let offset = field.data_offset as usize;
    let at = match base.checked_add(offset) {
        Some(at) => at,
        None => return Err(concat3("runtime layout overflow: ", registry[field.type_index].qualified_name.as_str(), "")),
    };
    let outcome = collect(registry, field.type_index, at, source, candidate, ranges, depth);
    if outcome.is_err() {
        return outcome;
    }
    collect_fields(registry, t, i + 1, base, source, candidate, ranges, depth)
}

fn collect_elements(
    registry: &Vec<LayoutType>,
    t: usize,
    inner: usize,
    i: u32,
    base: usize,
    source: &Vec<u8>,
    candidate: &Vec<u8>,
    ranges: &mut Vec<(usize, usize)>,
    depth: usize,
) -> (r: Result<(), String>)
    requires
        t < registry@.len(),
        inner < registry@.len(),
        i <= registry@[t as int].field_count,
    ensures
        collected(r, final(ranges)@, elements_spec(registry@, t as int, inner as int, i as int, base as int, source@, candidate@, old(ranges)@, depth as nat)),
    decreases depth, registry@[t as int].field_count - i,
{
    if i >= registry[t].field_count {
        return Ok(());
    }
    proof { reveal_strlit(""); }
    assert((i as int) * (registry@[inner as int].size as int) <= u64::MAX) by (nonlinear_arith)
        requires i <= u32::MAX, registry@[inner as int].size <= u32::MAX;
    let step = (i as u64) * (registry[inner].size as u64);
    assert(step == i * registry@[inner as int].size) by (nonlinear_arith)
        requires step == (i as u64) * (registry@[inner as int].size as u64);
    if step > usize::MAX as u64 {
        return Err(concat3("runtime layout overflow: ", registry[inner].qualified_name.as_str(), ""));
    }
    let at = match base.checked_add(step as usize) {
        Some(at) => at,
        None => return Err(concat3("runtime layout overflow: ", registry[inner].qualified_name.as_str(), "")),
    };
    let outcome = collect(registry, inner, at, source, candidate, ranges, depth);
    if outcome.is_err() {
        return outcome;
    }
    collect_elements(registry, t, inner, i + 1, base, source, candidate, ranges, depth)
}

/// The changed plain byte ranges of a component of registry type `t`: `source` is
/// the component as the mod read it, `candidate` the mod's edited copy.
pub open spec fn changed_ranges_spec(registry: Seq<LayoutType>, t: int, source: Seq<u8>, candidate: Seq<u8>) -> Result<Seq<(usize, usize)>, Seq<char>> {
    collect_spec(registry, t, 0, source, candidate, Seq::empty(), registry.len())
}

/// Collects the byte ranges of the plain fields that differ between `source` and
/// `candidate`, merging adjacent ranges. A changed dynamic field, a type or field
/// that the registry lacks, or a layout outside the component makes the write
/// impossible.
pub fn collect_changed_ranges(registry: &Vec<LayoutType>, t: usize, source: &Vec<u8>, candidate: &Vec<u8>) -> (r: Result<Vec<(usize, usize)>, String>)
    requires
        t < registry@.len(),
    ensures
        match changed_ranges_spec(registry@, t as int, source@, candidate@) {
            Ok(rs) => r matches Ok(v) && v@ == rs,
            Err(m) => r matches Err(s) && s@ == m,
        },
{
    let mut ranges: Vec<(usize, usize)> = Vec::new();
    match collect(registry, t, 0, source, candidate, &mut ranges, registry.len()) {
        Ok(()) => Ok(ranges),
        Err(message) => Err(message),
    }
}

/// Byte `i` lies in one of the ranges.
pub open spec fn covered(ranges: Seq<(usize, usize)>, i: int) -> bool {
    exists|k: int| 0 <= k < ranges.len() && #[trigger] ranges[k].0 <= i && i < ranges[k].1
}

/// A range of a buffer of `len` bytes.
pub open spec fn range_within(range: (usize, usize), len: nat) -> bool {
    range.0 <= range.1 && range.1 <= len
}

/// The live component `fresh` with the changed ranges taken from `candidate`.
pub fn merge_ranges(fresh: &Vec<u8>, candidate: &Vec<u8>, ranges: &Vec<(usize, usize)>) -> (r: Vec<u8>)
    requires
        fresh@.len() == candidate@.len(),
        forall|k: int| 0 <= k < ranges@.len() ==> range_within(#[trigger] ranges@[k], fresh@.len()),
    ensures
        r@.len() == fresh@.len(),
        forall|i: int| 0 <= i < fresh@.len() ==> #[trigger] r@[i] == if covered(ranges@, i) { candidate@[i] } else { fresh@[i] },
{
    let mut merged = fresh.clone();
    assert(merged@ == fresh@);
    for k in 0..ranges.len()
        invariant
            fresh@.len() == candidate@.len(),
            merged@.len() == fresh@.len(),
            forall|j: int| 0 <= j < ranges@.len() ==> range_within(#[trigger] ranges@[j], fresh@.len()),
            forall|i: int| 0 <= i < fresh@.len() ==> #[trigger] merged@[i] == if covered(ranges@.take(k as int), i) { candidate@[i] } else { fresh@[i] },
    {
        let (start, end) = ranges[k];
        assert(range_within(ranges@[k as int], fresh@.len()));
        let ghost before = merged@;
        let mut i = start;
        while i < end
            invariant
                start <= i <= end,
                end <= merged@.len(),
                merged@.len() == before.len(),
                before.len() == candidate@.len(),
                forall|j: int| 0 <= j < merged@.len() ==> #[trigger] merged@[j] == if start <= j < i { candidate@[j] } else { before[j] },
            decreases end - i,
        {
            merged.set(i, candidate[i]);
            i = i + 1;
        }
        proof {
            let prefix = ranges@.take(k as int);
            let next = ranges@.take(k + 1);
            assert forall|j: int| 0 <= j < fresh@.len() implies #[trigger] merged@[j] == if covered(next, j) { candidate@[j] } else { fresh@[j] } by {
                assert(next[k as int] == ranges@[k as int]);
                if start <= j < end {
                    assert(next[k as int].0 <= j && j < next[k as int].1);
                } else {
                    if covered(next, j) {
                        let w = choose|w: int| 0 <= w < next.len() && #[trigger] next[w].0 <= j && j < next[w].1;
                        assert(w != k);
                        assert(prefix[w] == next[w]);
                        assert(covered(prefix, j));
                    }
                    if covered(prefix, j) {
                        let w = choose|w: int| 0 <= w < prefix.len() && #[trigger] prefix[w].0 <= j && j < prefix[w].1;
                        assert(next[w] == prefix[w]);
                        assert(covered(next, j));
                    }
                }
            }
        }
    }
    assert(ranges@.take(ranges@.len() as int) =~= ranges@);
    merged
}

} // verus!

verus! {

/// Every range is non-empty and lies within `len` bytes.
pub open spec fn ranges_well_formed(ranges: Seq<(usize, usize)>, len: nat) -> bool {
    forall|k: int| 0 <= k < ranges.len() ==> #[trigger] ranges[k].0 < ranges[k].1 && ranges[k].1 <= len
}

/// A component whose copy the mod left unchanged yields no range to write: the
/// recorded ranges are those it started with.
pub proof fn unchanged_component_needs_no_write(
    registry: Seq<LayoutType>,
    t: int,
    base: int,
    source: Seq<u8>,
    ranges: Seq<(usize, usize)>,
    depth: nat,
)
    ensures
        collect_spec(registry, t, base, source, source, ranges, depth) matches Ok(rs) ==> rs == ranges,
    decreases depth, 0int,
{
    let ty = registry[t];
    let end = base + ty.size;
    if end <= usize::MAX && end <= source.len() && depth > 0 {
        match ty.kind {
            LayoutKind::Typedef => {
                if let Some(inner) = inner_of(registry, ty) {
                    unchanged_component_needs_no_write(registry, inner, base, source, ranges, (depth - 1) as nat);
                }
            },
            LayoutKind::Struct => {
                if let Some(parent) = inner_of(registry, ty) {
                    unchanged_component_needs_no_write(registry, parent, base, source, ranges, (depth - 1) as nat);
                }
                lemma_unchanged_fields(registry, t, 0, base, source, ranges, (depth - 1) as nat);
            },
            LayoutKind::StaticArray => {
                if let Some(inner) = inner_of(registry, ty) {
                    lemma_unchanged_elements(registry, t, inner, 0, base, source, ranges, (depth - 1) as nat);
                }
            },
            _ => {},
        }
    }
}

proof fn lemma_unchanged_fields(
    registry: Seq<LayoutType>,
    t: int,
    i: int,
    base: int,
    source: Seq<u8>,
    ranges: Seq<(usize, usize)>,
    depth: nat,
)
    ensures
        fields_spec(registry, t, i, base, source, source, ranges, depth) matches Ok(rs) ==> rs == ranges,
    decreases depth, registry[t].fields@.len() - i,
{
    let ty = registry[t];
    if 0 <= i < ty.fields@.len() {
        let field = ty.fields@[i];
        if field.type_index < registry.len() && base + field.data_offset <= usize::MAX {
            unchanged_component_needs_no_write(registry, field.type_index as int, base + field.data_offset, source, ranges, depth);
            lemma_unchanged_fields(registry, t, i + 1, base, source, ranges, depth);
        }
    }
}

proof fn lemma_unchanged_elements(
    registry: Seq<LayoutType>,
    t: int,
    inner: int,
    i: int,
    base: int,
    source: Seq<u8>,
    ranges: Seq<(usize, usize)>,
    depth: nat,
)
    ensures
        elements_spec(registry, t, inner, i, base, source, source, ranges, depth) matches Ok(rs) ==> rs == ranges,
    decreases depth, registry[t].field_count - i,
{
    if 0 <= i < registry[t].field_count {
        let at = base + i * registry[inner].size;
        if at <= usize::MAX {
            unchanged_component_needs_no_write(registry, inner, at, source, ranges, depth);
            lemma_unchanged_elements(registry, t, inner, i + 1, base, source, ranges, depth);
        }
    }
}

proof fn lemma_add_range_well_formed(ranges: Seq<(usize, usize)>, start: usize, end: usize, len: nat)
    requires
        ranges_well_formed(ranges, len),
        start < end <= len,
    ensures
        ranges_well_formed(add_range(ranges, start, end), len),
{
    let r = add_range(ranges, start, end);
    assert forall|k: int| 0 <= k < r.len() implies #[trigger] r[k].0 < r[k].1 && r[k].1 <= len by {
        if ranges.len() > 0 && ranges.last().1 == start && k == ranges.len() - 1 {
            assert(ranges[k].0 < ranges[k].1);
        } else if k < ranges.len() {
            assert(r[k] == ranges[k]);
        }
    }
}

/// Every range that the collection records is non-empty and lies within the
/// component.
pub proof fn changed_ranges_within_component(
    registry: Seq<LayoutType>,
    t: int,
    base: int,
    source: Seq<u8>,
    candidate: Seq<u8>,
    ranges: Seq<(usize, usize)>,
    depth: nat,
)
    requires
        0 <= base,
        ranges_well_formed(ranges, source.len()),
    ensures
        collect_spec(registry, t, base, source, candidate, ranges, depth) matches Ok(rs) ==> ranges_well_formed(rs, source.len()),
    decreases depth, 0int,
{
    let ty = registry[t];
    let end = base + ty.size;
    if end <= usize::MAX && end <= source.len() && end <= candidate.len() && depth > 0 {
        match ty.kind {
            LayoutKind::Typedef => {
                if let Some(inner) = inner_of(registry, ty) {
                    changed_ranges_within_component(registry, inner, base, source, candidate, ranges, (depth - 1) as nat);
                }
            },
            LayoutKind::Struct => {
                if let Some(parent) = inner_of(registry, ty) {
                    changed_ranges_within_component(registry, parent, base, source, candidate, ranges, (depth - 1) as nat);
                    if let Ok(rs) = collect_spec(registry, parent, base, source, candidate, ranges, (depth - 1) as nat) {
                        lemma_fields_within(registry, t, 0, base, source, candidate, rs, (depth - 1) as nat);
                    }
                } else {
                    lemma_fields_within(registry, t, 0, base, source, candidate, ranges, (depth - 1) as nat);
                }
            },
            LayoutKind::StaticArray => {
                if let Some(inner) = inner_of(registry, ty) {
                    lemma_elements_within(registry, t, inner, 0, base, source, candidate, ranges, (depth - 1) as nat);
                }
            },
            LayoutKind::Dynamic => {},
            LayoutKind::Plain => {
                if slices_differ(source, candidate, base, end) {
                    if base >= end {
                        assert(source.subrange(base, end) =~= candidate.subrange(base, end));
                    }
                    lemma_add_range_well_formed(ranges, base as usize, end as usize, source.len());
                }
            },
        }
    }
}

proof fn lemma_fields_within(
    registry: Seq<LayoutType>,
    t: int,
    i: int,
    base: int,
    source: Seq<u8>,
    candidate: Seq<u8>,
    ranges: Seq<(usize, usize)>,
    depth: nat,
)
    requires
        0 <= base,
        ranges_well_formed(ranges, source.len()),
    ensures
        fields_spec(registry, t, i, base, source, candidate, ranges, depth) matches Ok(rs) ==> ranges_well_formed(rs, source.len()),
    decreases depth, registry[t].fields@.len() - i,
{
    let ty = registry[t];
    if 0 <= i < ty.fields@.len() {
        let field = ty.fields@[i];
        if field.type_index < registry.len() && base + field.data_offset <= usize::MAX {
            let child = field.type_index as int;
            changed_ranges_within_component(registry, child, base + field.data_offset, source, candidate, ranges, depth);
            if let Ok(rs) = collect_spec(registry, child, base + field.data_offset, source, candidate, ranges, depth) {
                lemma_fields_within(registry, t, i + 1, base, source, candidate, rs, depth);
            }
        }
    }
}

proof fn lemma_elements_within(
    registry: Seq<LayoutType>,
    t: int,
    inner: int,
    i: int,
    base: int,
    source: Seq<u8>,
    candidate: Seq<u8>,
    ranges: Seq<(usize, usize)>,
    depth: nat,
)
    requires
        0 <= base,
        0 <= i,
        ranges_well_formed(ranges, source.len()),
    ensures
        elements_spec(registry, t, inner, i, base, source, candidate, ranges, depth) matches Ok(rs) ==> ranges_well_formed(rs, source.len()),
    decreases depth, registry[t].field_count - i,
{
    if 0 <= i < registry[t].field_count {
        let at = base + i * registry[inner].size;
        assert(i * registry[inner].size >= 0) by (nonlinear_arith)
            requires 0 <= i, registry[inner].size >= 0;
        if at <= usize::MAX {
            changed_ranges_within_component(registry, inner, at, source, candidate, ranges, depth);
            if let Ok(rs) = collect_spec(registry, inner, at, source, candidate, ranges, depth) {
                lemma_elements_within(registry, t, inner, i + 1, base, source, candidate, rs, depth);
            }
        }
    }
}


/// Every range holds bytes in which `source` and `candidate` differ.
pub open spec fn ranges_differ(ranges: Seq<(usize, usize)>, source: Seq<u8>, candidate: Seq<u8>) -> bool {
    forall|k: int| 0 <= k < ranges.len() ==> slices_differ(source, candidate, #[trigger] ranges[k].0 as int, ranges[k].1 as int)
}

proof fn lemma_add_range_differs(ranges: Seq<(usize, usize)>, source: Seq<u8>, candidate: Seq<u8>, start: usize, end: usize)
    requires
        ranges_well_formed(ranges, source.len()),
        ranges_differ(ranges, source, candidate),
        start < end <= source.len(),
        end <= candidate.len(),
        slices_differ(source, candidate, start as int, end as int),
    ensures
        ranges_differ(add_range(ranges, start, end), source, candidate),
{
    let r = add_range(ranges, start, end);
    assert forall|k: int| 0 <= k < r.len() implies slices_differ(source, candidate, #[trigger] r[k].0 as int, r[k].1 as int) by {
        if ranges.len() > 0 && ranges.last().1 == start && k == ranges.len() - 1 {
            let l0 = ranges[k].0 as int;
            assert(ranges[k].0 < ranges[k].1);
            assert(slices_differ(source, candidate, l0, start as int));
            if source.subrange(l0, end as int) == candidate.subrange(l0, end as int) {
                assert(source.subrange(l0, start as int) =~= source.subrange(l0, end as int).subrange(0, start - l0));
                assert(candidate.subrange(l0, start as int) =~= candidate.subrange(l0, end as int).subrange(0, start - l0));
            }
        } else if k < ranges.len() {
            assert(r[k] == ranges[k]);
        }
    }
}

/// Every range that the collection records holds bytes that the mod changed: the
/// write touches no range in which its copy equals what it read.
pub proof fn recorded_ranges_hold_changes(
    registry: Seq<LayoutType>,
    t: int,
    base: int,
    source: Seq<u8>,
    candidate: Seq<u8>,
    ranges: Seq<(usize, usize)>,
    depth: nat,
)
    requires
        0 <= base,
        ranges_well_formed(ranges, source.len()),
        ranges_differ(ranges, source, candidate),
    ensures
        collect_spec(registry, t, base, source, candidate, ranges, depth) matches Ok(rs) ==> ranges_differ(rs, source, candidate),
    decreases depth, 0int,
{
    let ty = registry[t];
    let end = base + ty.size;
    if end <= usize::MAX && end <= source.len() && end <= candidate.len() && depth > 0 {
        match ty.kind {
            LayoutKind::Typedef => {
                if let Some(inner) = inner_of(registry, ty) {
                    recorded_ranges_hold_changes(registry, inner, base, source, candidate, ranges, (depth - 1) as nat);
                }
            },
            LayoutKind::Struct => {
                if let Some(parent) = inner_of(registry, ty) {
                    recorded_ranges_hold_changes(registry, parent, base, source, candidate, ranges, (depth - 1) as nat);
                    changed_ranges_within_component(registry, parent, base, source, candidate, ranges, (depth - 1) as nat);
                    if let Ok(rs) = collect_spec(registry, parent, base, source, candidate, ranges, (depth - 1) as nat) {
                        lemma_fields_differ(registry, t, 0, base, source, candidate, rs, (depth - 1) as nat);
                    }
                } else {
                    lemma_fields_differ(registry, t, 0, base, source, candidate, ranges, (depth - 1) as nat);
                }
            },
            LayoutKind::StaticArray => {
                if let Some(inner) = inner_of(registry, ty) {
                    lemma_elements_differ(registry, t, inner, 0, base, source, candidate, ranges, (depth - 1) as nat);
                }
            },
            LayoutKind::Dynamic => {},
            LayoutKind::Plain => {
                if slices_differ(source, candidate, base, end) {
                    if base >= end {
                        assert(source.subrange(base, end) =~= candidate.subrange(base, end));
                    }
                    lemma_add_range_differs(ranges, source, candidate, base as usize, end as usize);
                }
            },
        }
    }
}

proof fn lemma_fields_differ(
    registry: Seq<LayoutType>,
    t: int,
    i: int,
    base: int,
    source: Seq<u8>,
    candidate: Seq<u8>,
    ranges: Seq<(usize, usize)>,
    depth: nat,
)
    requires
        0 <= base,
        ranges_well_formed(ranges, source.len()),
        ranges_differ(ranges, source, candidate),
    ensures
        fields_spec(registry, t, i, base, source, candidate, ranges, depth) matches Ok(rs) ==> ranges_differ(rs, source, candidate),
    decreases depth, registry[t].fields@.len() - i,
{
    let ty = registry[t];
    if 0 <= i < ty.fields@.len() {
        let field = ty.fields@[i];
        if field.type_index < registry.len() && base + field.data_offset <= usize::MAX {
            let child = field.type_index as int;
            recorded_ranges_hold_changes(registry, child, base + field.data_offset, source, candidate, ranges, depth);
            changed_ranges_within_component(registry, child, base + field.data_offset, source, candidate, ranges, depth);
            if let Ok(rs) = collect_spec(registry, child, base + field.data_offset, source, candidate, ranges, depth) {
                lemma_fields_differ(registry, t, i + 1, base, source, candidate, rs, depth);
            }
        }
    }
}

proof fn lemma_elements_differ(
    registry: Seq<LayoutType>,
    t: int,
    inner: int,
    i: int,
    base: int,
    source: Seq<u8>,
    candidate: Seq<u8>,
    ranges: Seq<(usize, usize)>,
    depth: nat,
)
    requires
        0 <= base,
        0 <= i,
        ranges_well_formed(ranges, source.len()),
        ranges_differ(ranges, source, candidate),
    ensures
        elements_spec(registry, t, inner, i, base, source, candidate, ranges, depth) matches Ok(rs) ==> ranges_differ(rs, source, candidate),
    decreases depth, registry[t].field_count - i,
{
    if 0 <= i < registry[t].field_count {
        let at = base + i * registry[inner].size;
        assert(i * registry[inner].size >= 0) by (nonlinear_arith)
            requires 0 <= i, registry[inner].size >= 0;
        if at <= usize::MAX {
            recorded_ranges_hold_changes(registry, inner, at, source, candidate, ranges, depth);
            changed_ranges_within_component(registry, inner, at, source, candidate, ranges, depth);
            if let Ok(rs) = collect_spec(registry, inner, at, source, candidate, ranges, depth) {
                lemma_elements_differ(registry, t, inner, i + 1, base, source, candidate, rs, depth);
            }
        }
    }
}


/// The ranges that a component write records are non-empty, lie within the
/// component, and each holds bytes that the mod's copy changed.
pub proof fn changed_ranges_are_changes(registry: Seq<LayoutType>, t: int, source: Seq<u8>, candidate: Seq<u8>)
    ensures
        changed_ranges_spec(registry, t, source, candidate) matches Ok(rs) ==>
            ranges_well_formed(rs, source.len()) && ranges_differ(rs, source, candidate),
{
    changed_ranges_within_component(registry, t, 0, source, candidate, Seq::empty(), registry.len());
    recorded_ranges_hold_changes(registry, t, 0, source, candidate, Seq::empty(), registry.len());
}

} // verus!
