//! Targeting labels and target maps attached to entities and filters.

use vstd::prelude::*;

verus! {

/// The targeting type a filter or a target entry names, e.g. a group name
/// or a resource name.
#[derive(Clone, Copy, Debug, PartialEq, Eq, Structural)]
pub enum TargetLabel {
    PowerServiceLocation,
    ServiceArea,
    Group,
    GroupName,
    ResourceName,
    VenName,
    EventName,
    ProgramName,
}

/// One entry of a target map: a label together with the values it names.
#[derive(Debug, PartialEq)]
pub struct TargetEntry {
    pub label: TargetLabel,
    pub values: Vec<String>,
}

/// A list of target entries, as attached to an entity's content.
pub type TargetMap = Vec<TargetEntry>;

/// Mathematical image of a target entry: the label with the values as
/// character sequences.
#[verifier::ext_equal]
pub ghost struct TargetEntryV {
    pub label: TargetLabel,
    pub values: Seq<Seq<char>>,
}

impl View for TargetEntry {
    type V = TargetEntryV;

    open spec fn view(&self) -> TargetEntryV {
        TargetEntryV { label: self.label, values: self.values.deep_view() }
    }
}

impl Clone for TargetEntry {
    fn clone(&self) -> (r: Self)
        ensures
            r@ == self@,
    {
        TargetEntry { label: self.label, values: clone_string_vec(&self.values) }
    }
}

/// The view of a target map: each entry's image, in order.
pub open spec fn target_map_view(m: Seq<TargetEntry>) -> Seq<TargetEntryV> {
    m.map_values(|e: TargetEntry| e@)
}

/// Copies a vector of strings, preserving its contents.
pub fn clone_string_vec(v: &Vec<String>) -> (r: Vec<String>)
    ensures
        r.deep_view() == v.deep_view(),
{
    let mut r: Vec<String> = Vec::new();
    let mut i: usize = 0;
    while i < v.len()
        invariant
            i <= v.len(),
            r@.len() == i,
            forall|j: int| 0 <= j < i ==> #[trigger] r@[j]@ == v@[j]@,
        decreases v.len() - i,
    {
        r.push(v[i].clone());
        i = i + 1;
    }
    proof {
        assert(r.deep_view() =~~= v.deep_view());
    }
    r
}

/// Copies a target map, preserving its contents.
pub fn clone_target_map(m: &TargetMap) -> (r: TargetMap)
    ensures
        target_map_view(r@) == target_map_view(m@),
{
    let mut r: TargetMap = Vec::new();
    let mut i: usize = 0;
    while i < m.len()
        invariant
            i <= m.len(),
            r@.len() == i,
            forall|j: int| 0 <= j < i ==> #[trigger] r@[j]@ == m@[j]@,
        decreases m.len() - i,
    {
        r.push(m[i].clone());
        i = i + 1;
    }
    proof {
        assert(target_map_view(r@) =~~= target_map_view(m@));
    }
    r
}

/// Whether `v` occurs among the strings of `values`.
pub fn contains_string(values: &Vec<String>, v: &String) -> (r: bool)
    ensures
        r == values.deep_view().contains(v@),
{
    let mut i: usize = 0;
    while i < values.len()
        invariant
            i <= values.len(),
            forall|j: int| 0 <= j < i ==> values.deep_view()[j] != v@,
        decreases values.len() - i,
    {
        if values[i].eq(v) {
            assert(values.deep_view()[i as int] == v@);
            return true;
        }
        i = i + 1;
    }
    assert(forall|j: int| 0 <= j < values.deep_view().len() ==> values.deep_view()[j] != v@);
    false
}

} // verus!
