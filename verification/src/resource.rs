//! The Resource entity: a VEN-owned record, with the richest access
//! rules of the store — every operation is scoped to the owning VEN
//! named in the request path.

use vstd::pervasive::VecAdditionalExecFns;
use vstd::prelude::*;

use crate::error::{id_exhausted_msg, AppError, DenialKind};
use crate::identity::Identity;
use crate::pagination::{
    lemma_filter_push, lemma_filter_subset, lemma_page_elements, lemma_page_len, lemma_page_push,
    lemma_pagination_partition, page,
};
use crate::permission::{forbidden_msg, has_write_permission, read_allowed, write_allowed};
use crate::target::{
    clone_target_map, contains_string, target_map_view, TargetEntryV, TargetLabel, TargetMap,
};
use crate::text::{char_len_in_range, lemma_make_id_injective, make_id, spec_make_id};
use crate::time::{spec_tick, tick, Timestamp};
use crate::ven::{has_ven, VenId, VenStore, VenV};

verus! {

/// URL-safe, server-assigned identifier of a resource, unique among
/// resources and immutable after creation.
#[derive(Debug)]
pub struct ResourceId(pub String);

impl View for ResourceId {
    type V = Seq<char>;

    open spec fn view(&self) -> Seq<char> {
        self.0@
    }
}

impl Clone for ResourceId {
    fn clone(&self) -> (r: Self)
        ensures
            r@ == self@,
    {
        ResourceId(self.0.clone())
    }
}

impl ResourceId {
    /// Whether two identifiers name the same resource.
    pub fn same_as(&self, other: &ResourceId) -> (r: bool)
        ensures
            r == (self@ == other@),
    {
        self.0.eq(&other.0)
    }
}

/// Discriminator carried by resource payloads.
#[derive(Clone, Copy, Debug, PartialEq, Eq, Structural)]
pub enum ResourceObjectType {
    Resource,
}

/// The caller-supplied payload of a resource record.
#[derive(Debug)]
pub struct ResourceContent {
    /// Used as discriminator, e.g. notification.object.
    pub object_type: Option<ResourceObjectType>,
    /// Short name to uniquely identify the resource.
    pub resource_name: String,
    /// A list of valuesMap objects describing the resource.
    pub attributes: Option<TargetMap>,
    /// A list of valuesMap objects describing target criteria.
    pub targets: Option<TargetMap>,
}

/// Mathematical image of a resource payload.
#[verifier::ext_equal]
pub ghost struct ResourceContentV {
    pub object_type: Option<ResourceObjectType>,
    pub resource_name: Seq<char>,
    pub attributes: Option<Seq<TargetEntryV>>,
    pub targets: Option<Seq<TargetEntryV>>,
}

impl View for ResourceContent {
    type V = ResourceContentV;

    open spec fn view(&self) -> ResourceContentV {
        ResourceContentV {
            object_type: self.object_type,
            resource_name: self.resource_name@,
            attributes: match self.attributes {
                Some(a) => Some(target_map_view(a@)),
                None => None,
            },
            targets: match self.targets {
                Some(t) => Some(target_map_view(t@)),
                None => None,
            },
        }
    }
}

impl Clone for ResourceContent {
    fn clone(&self) -> (r: Self)
        ensures
            r@ == self@,
    {
        ResourceContent {
            object_type: self.object_type,
            resource_name: self.resource_name.clone(),
            attributes: match &self.attributes {
                Some(a) => Some(clone_target_map(a)),
                None => None,
            },
            targets: match &self.targets {
                Some(t) => Some(clone_target_map(t)),
                None => None,
            },
        }
    }
}

/// A stored resource record: server-assigned id and timestamps, the
/// immutable owning VEN, and the caller-supplied content.
#[derive(Debug)]
pub struct Resource {
    pub id: ResourceId,
    pub created_date_time: Timestamp,
    pub modification_date_time: Timestamp,
    /// The VEN this resource belongs to, fixed at creation.
    pub ven_id: VenId,
    pub content: ResourceContent,
}

/// Mathematical image of a stored resource record.
#[verifier::ext_equal]
pub ghost struct ResourceV {
    pub id: Seq<char>,
    pub created: Timestamp,
    pub modified: Timestamp,
    pub ven_id: Seq<char>,
    pub content: ResourceContentV,
}

impl View for Resource {
    type V = ResourceV;

    open spec fn view(&self) -> ResourceV {
        ResourceV {
            id: self.id@,
            created: self.created_date_time,
            modified: self.modification_date_time,
            ven_id: self.ven_id@,
            content: self.content@,
        }
    }
}

impl Clone for Resource {
    fn clone(&self) -> (r: Self)
        ensures
            r@ == self@,
    {
        Resource {
            id: self.id.clone(),
            created_date_time: self.created_date_time,
            modification_date_time: self.modification_date_time,
            ven_id: self.ven_id.clone(),
            content: self.content.clone(),
        }
    }
}

/// The image of a sequence of stored resources.
pub open spec fn resource_seq_view(s: Seq<Resource>) -> Seq<ResourceV> {
    s.map_values(|r: Resource| r@)
}

/// Whether a resource with the given id exists under the given VEN.
pub open spec fn has_resource(rs: Seq<ResourceV>, ven: Seq<char>, id: Seq<char>) -> bool {
    exists|i: int| 0 <= i < rs.len() && rs[i].ven_id == ven && rs[i].id == id
}

/// Whether any resource carries the given id, under any VEN.
pub open spec fn resource_id_taken(rs: Seq<ResourceV>, id: Seq<char>) -> bool {
    exists|i: int| 0 <= i < rs.len() && rs[i].id == id
}

/// No two stored resources share an id.
pub open spec fn unique_resource_ids(rs: Seq<ResourceV>) -> bool {
    forall|i: int, j: int|
        #![trigger rs[i].id, rs[j].id]
        0 <= i < j < rs.len() ==> rs[i].id != rs[j].id
}

/// The structural constraint on a resource payload: the name holds 1 to
/// 128 characters.
pub open spec fn resource_content_valid(c: ResourceContentV) -> bool {
    1 <= c.resource_name.len() <= 128
}

/// Message carried by a rejected resource payload.
pub open spec fn resource_name_range_msg() -> Seq<char> {
    "resourceName: string length outside of allowed range 1..=128"@
}

/// The id the store will assign to the resource created while its counter
/// holds `n`.
pub open spec fn fresh_resource_id(n: u64) -> Seq<char> {
    spec_make_id("resource-"@, n as nat)
}

/// The record created for VEN `ven` from payload `c` while the store's
/// counter holds `next` and its clock holds `clock`.
pub open spec fn created_resource_view(
    ven: Seq<char>,
    c: ResourceContentV,
    next: u64,
    clock: u64,
) -> ResourceV {
    ResourceV {
        id: fresh_resource_id(next),
        created: Timestamp(spec_tick(clock)),
        modified: Timestamp(spec_tick(clock)),
        ven_id: ven,
        content: c,
    }
}

/// Whether one target entry satisfies the filter: its label is the
/// filtered one and it names at least one of the filtered values.
pub open spec fn entry_matches_target(
    e: TargetEntryV,
    label: TargetLabel,
    values: Seq<Seq<char>>,
) -> bool {
    e.label == label && exists|k: int| 0 <= k < e.values.len() && values.contains(e.values[k])
}

/// Whether a resource payload satisfies a target filter.  Filtering by
/// resource name compares the payload's own name against the filtered
/// values; any other label is looked up among the payload's target
/// entries.
pub open spec fn content_matches_target(
    c: ResourceContentV,
    label: TargetLabel,
    values: Seq<Seq<char>>,
) -> bool {
    if label is ResourceName {
        values.contains(c.resource_name)
    } else {
        c.targets is Some && exists|i: int|
            0 <= i < c.targets->Some_0.len() && entry_matches_target(
                c.targets->Some_0[i],
                label,
                values,
            )
    }
}

/// Whether a stored resource satisfies the (already validated) query:
/// with no target filter every resource matches.
pub open spec fn resource_matches_query(r: ResourceV, q: QueryParamsV) -> bool {
    match (q.target_type, q.target_values) {
        (Some(label), Some(values)) => content_matches_target(r.content, label, values),
        _ => true,
    }
}

/// The predicate a list operation filters the store with: ownership by
/// the requested VEN and the target filter.
pub open spec fn resource_query_pred(ven: Seq<char>, q: QueryParamsV) -> spec_fn(ResourceV) -> bool {
    |r: ResourceV| r.ven_id == ven && resource_matches_query(r, q)
}

/// The resources a list operation returns: the matching records in
/// insertion order, paged.
pub open spec fn resource_list(rs: Seq<ResourceV>, ven: Seq<char>, q: QueryParamsV) -> Seq<
    ResourceV,
> {
    page(rs.filter(resource_query_pred(ven, q)), q.skip as int, q.limit as int)
}

/// Why creating a resource under `ven` is denied, if it is: an invalid
/// payload is rejected before anything else, then the caller's authority
/// over the owning VEN, then the owning VEN's existence.  An exhausted id
/// counter — whose next assignment would have to repeat an id — is the
/// uniqueness violation the contract reserves `Conflict` for; the store's
/// invariant proves no other collision can occur.
pub open spec fn resource_create_denial(
    vens: Seq<VenV>,
    ven: Seq<char>,
    c: ResourceContentV,
    user: Identity,
    next: u64,
) -> Option<DenialKind> {
    if !resource_content_valid(c) {
        Some(DenialKind::ValidationFailed)
    } else if !write_allowed(user, ven) {
        Some(DenialKind::Forbidden)
    } else if !has_ven(vens, ven) {
        Some(DenialKind::NotFound)
    } else if next == u64::MAX {
        Some(DenialKind::Conflict)
    } else {
        None
    }
}

/// Why reading resource `id` under `ven` is denied to `user`, if it is:
/// authority over the path's VEN is evaluated first, then absence under
/// that VEN — a resource owned by another VEN reads as absent.
pub open spec fn resource_get_denial(
    rs: Seq<ResourceV>,
    ven: Seq<char>,
    id: Seq<char>,
    user: Identity,
) -> Option<DenialKind> {
    if !read_allowed(user, ven) {
        Some(DenialKind::Forbidden)
    } else if !has_resource(rs, ven, id) {
        Some(DenialKind::NotFound)
    } else {
        None
    }
}

/// Why updating resource `id` under `ven` is denied, if it is.
pub open spec fn resource_update_denial(
    rs: Seq<ResourceV>,
    ven: Seq<char>,
    id: Seq<char>,
    c: ResourceContentV,
    user: Identity,
) -> Option<DenialKind> {
    if !resource_content_valid(c) {
        Some(DenialKind::ValidationFailed)
    } else if !write_allowed(user, ven) {
        Some(DenialKind::Forbidden)
    } else if !has_resource(rs, ven, id) {
        Some(DenialKind::NotFound)
    } else {
        None
    }
}

/// Validated query parameters of the resource list operation.
#[derive(Debug)]
pub struct QueryParams {
    /// Indicates targeting type, e.g. GROUP.
    pub target_type: Option<TargetLabel>,
    /// List of target values, e.g. group names.
    pub target_values: Option<Vec<String>>,
    /// Number of matching records to omit from the front of the result.
    pub skip: i64,
    /// Maximum number of records to return.
    pub limit: i64,
}

/// Mathematical image of the resource query parameters.
#[verifier::ext_equal]
pub ghost struct QueryParamsV {
    pub target_type: Option<TargetLabel>,
    pub target_values: Option<Seq<Seq<char>>>,
    pub skip: i64,
    pub limit: i64,
}

impl View for QueryParams {
    type V = QueryParamsV;

    open spec fn view(&self) -> QueryParamsV {
        QueryParamsV {
            target_type: self.target_type,
            target_values: match self.target_values {
                Some(v) => Some(v.deep_view()),
                None => None,
            },
            skip: self.skip,
            limit: self.limit,
        }
    }
}

impl QueryParams {
    /// The structural constraints every validated value satisfies:
    /// `skip` non-negative, `limit` in 1..=50, and the target pair either
    /// both present or both absent.
    pub open spec fn spec_valid(&self) -> bool {
        &&& self.skip >= 0
        &&& 1 <= self.limit <= 50
        &&& (self.target_type is Some <==> self.target_values is Some)
    }

    /// Builds validated query parameters, applying the default `skip` of 0
    /// and `limit` of 50 for omitted values.  Every violation is reported
    /// here, before any storage or permission check runs.
    pub fn new(
        target_type: Option<TargetLabel>,
        target_values: Option<Vec<String>>,
        skip: Option<i64>,
        limit: Option<i64>,
    ) -> (r: Result<QueryParams, AppError>)
        ensures
            r is Ok <==> (skip.unwrap_or(0) >= 0 && 1 <= limit.unwrap_or(50) <= 50 && (
            target_type is Some <==> target_values is Some)),
            r matches Ok(q) ==> {
                &&& q.spec_valid()
                &&& q.target_type == target_type
                &&& (q@.target_values matches Some(vs) <==> target_values is Some)
                &&& (target_values matches Some(vs) ==> q@.target_values == Some(vs.deep_view()))
                &&& q.skip == skip.unwrap_or(0)
                &&& q.limit == limit.unwrap_or(50)
            },
            r matches Err(e) ==> e is ValidationFailed,
    {
        let skip: i64 = match skip {
            Some(s) => s,
            None => 0,
        };
        let limit: i64 = match limit {
            Some(l) => l,
            None => crate::pagination::get_50(),
        };
        if skip < 0 {
            return Err(AppError::ValidationFailed("skip must be non-negative".to_owned()));
        }
        if limit < 1 || limit > 50 {
            return Err(
                AppError::ValidationFailed("limit outside of allowed range 1..=50".to_owned()),
            );
        }
        let q = QueryParams { target_type, target_values, skip, limit };
        match validate_target_type_value_pair(&q) {
            Err(e) => Err(e),
            Ok(()) => Ok(q),
        }
    }
}

/// Message carried when a query names one half of the target pair only.
pub open spec fn target_pair_msg() -> Seq<char> {
    "targetType and targetValues query parameter must either both be set or not set at the same time."@
}

/// The cross-field constraint on list queries: `targetType` and
/// `targetValues` must either both be present or both be absent.
pub fn validate_target_type_value_pair(query: &QueryParams) -> (r: Result<(), AppError>)
    ensures
        r is Ok <==> (query.target_type is Some <==> query.target_values is Some),
        r matches Err(e) ==> (e matches AppError::ValidationFailed(m) && m@ == target_pair_msg()),
{
    if query.target_type.is_some() == query.target_values.is_some() {
        Ok(())
    } else {
        Err(
            AppError::ValidationFailed(
                "targetType and targetValues query parameter must either both be set or not set at the same time.".to_owned(),
            ),
        )
    }
}

/// Whether a stored resource satisfies the query's target filter.
fn resource_matches(r: &Resource, query: &QueryParams) -> (b: bool)
    ensures
        b == resource_matches_query(r@, query@),
{
    match (&query.target_type, &query.target_values) {
        (Some(label), Some(values)) => content_matches(&r.content, *label, values),
        _ => true,
    }
}

/// Whether a resource payload satisfies a target filter.
fn content_matches(c: &ResourceContent, label: TargetLabel, values: &Vec<String>) -> (b: bool)
    ensures
        b == content_matches_target(c@, label, values.deep_view()),
{
    if label == TargetLabel::ResourceName {
        return contains_string(values, &c.resource_name);
    }
    match &c.targets {
        None => false,
        Some(ts) => {
            let ghost tsv = target_map_view(ts@);
            let mut i: usize = 0;
            while i < ts.len()
                invariant
                    tsv == target_map_view(ts@),
                    !(label is ResourceName),
                    c@.targets == Some(tsv),
                    i <= ts.len(),
                    forall|j: int|
                        0 <= j < i ==> !entry_matches_target(
                            #[trigger] tsv[j],
                            label,
                            values.deep_view(),
                        ),
                decreases ts.len() - i,
            {
                if ts[i].label == label {
                    let entry = &ts[i];
                    let mut k: usize = 0;
                    while k < entry.values.len()
                        invariant
                            tsv == target_map_view(ts@),
                            !(label is ResourceName),
                            c@.targets == Some(tsv),
                            i < ts.len(),
                            entry == &ts[i as int],
                            tsv[i as int].label == label,
                            k <= entry.values.len(),
                            forall|l: int|
                                0 <= l < k ==> !values.deep_view().contains(
                                    #[trigger] tsv[i as int].values[l],
                                ),
                        decreases entry.values.len() - k,
                    {
                        if contains_string(values, &entry.values[k]) {
                            proof {
                                assert(tsv[i as int] == ts@[i as int]@);
                                assert(tsv[i as int].values.len() == entry.values@.len());
                                assert(tsv[i as int].values[k as int] == entry.values@[k as int]@);
                                assert(values.deep_view().contains(
                                    tsv[i as int].values[k as int],
                                ));
                                assert(c@.targets->Some_0 == tsv);
                                assert(entry_matches_target(
                                    c@.targets->Some_0[i as int],
                                    label,
                                    values.deep_view(),
                                ));
                                assert(content_matches_target(c@, label, values.deep_view()));
                            }
                            return true;
                        }
                        k = k + 1;
                    }
                    proof {
                        assert(!entry_matches_target(tsv[i as int], label, values.deep_view()));
                    }
                } else {
                    proof {
                        assert(!entry_matches_target(tsv[i as int], label, values.deep_view()));
                    }
                }
                i = i + 1;
            }
            false
        },
    }
}

/// The storage backend for resource records: an in-memory store that
/// enforces existence lookup and permission at the data layer.
#[derive(Debug)]
pub struct ResourceStore {
    items: Vec<Resource>,
    next_id: u64,
    clock: u64,
}

impl ResourceStore {
    /// The stored records, in insertion order.
    pub closed spec fn resources(&self) -> Seq<ResourceV> {
        resource_seq_view(self.items@)
    }

    /// The counter the next server-assigned id is rendered from.
    pub closed spec fn spec_next_id(&self) -> u64 {
        self.next_id
    }

    /// The store's logical clock.
    pub closed spec fn spec_clock(&self) -> u64 {
        self.clock
    }

    /// The store's invariant: ids are unique for the lifetime of the
    /// store, and every record was created no later than it was modified,
    /// no later than the clock.
    pub open spec fn wf(&self) -> bool {
        &&& unique_resource_ids(self.resources())
        &&& forall|i: int|
            0 <= i < self.resources().len() ==> (#[trigger] self.resources()[i]).created.0
                <= self.resources()[i].modified.0 <= self.spec_clock()
        &&& forall|i: int|
            0 <= i < self.resources().len() ==> exists|k: u64|
                k < self.spec_next_id() && (#[trigger] self.resources()[i]).id
                    == fresh_resource_id(k)
    }

    /// Server-assigned ids never collide: while the invariant holds, the
    /// id the next creation would assign is unused, because every stored
    /// id was rendered from an earlier counter value and rendering is
    /// injective.
    pub proof fn lemma_fresh_id_unused(self)
        requires
            self.wf(),
        ensures
            !resource_id_taken(self.resources(), fresh_resource_id(self.spec_next_id())),
    {
        let rs = self.resources();
        let next = self.spec_next_id();
        if resource_id_taken(rs, fresh_resource_id(next)) {
            let i = choose|i: int| 0 <= i < rs.len() && rs[i].id == fresh_resource_id(next);
            let k = choose|k: u64| k < next && rs[i].id == fresh_resource_id(k);
            lemma_make_id_injective("resource-"@, k as nat, next as nat);
        }
    }

    /// An empty store.
    pub fn new() -> (s: ResourceStore)
        ensures
            s.wf(),
            s.resources() == Seq::<ResourceV>::empty(),
            s.spec_next_id() == 0,
            s.spec_clock() == 0,
    {
        let s = ResourceStore { items: Vec::new(), next_id: 0, clock: 0 };
        proof {
            assert(s.resources() =~= Seq::<ResourceV>::empty());
        }
        s
    }

    /// Lists the resources of the VEN named in the path that match the
    /// validated query, in insertion order, paged.  The caller must be
    /// authorized for that VEN; the ownership filter runs at the data
    /// layer, so result counts already reflect authorization.
    pub fn retrieve_all(&self, ven_id: &VenId, query: &QueryParams, user: &Identity) -> (r: Result<
        Vec<Resource>,
        AppError,
    >)
        requires
            self.wf(),
            query.spec_valid(),
        ensures
            r is Ok <==> write_allowed(*user, ven_id@),
            r matches Err(e) ==> (e matches AppError::Forbidden(m) && m@ == forbidden_msg()),
            r matches Ok(v) ==> resource_seq_view(v@) == resource_list(
                self.resources(),
                ven_id@,
                query@,
            ),
    {
        match has_write_permission(user, ven_id) {
            Err(e) => {
                return Err(e);
            },
            Ok(()) => {},
        }
        let ghost full = self.resources();
        let ghost pred = resource_query_pred(ven_id@, query@);
        let ghost skip = query.skip as int;
        let ghost limit = query.limit as int;
        let mut out: Vec<Resource> = Vec::new();
        let mut matched: u64 = 0;
        let mut i: usize = 0;
        while i < self.items.len()
            invariant
                self.wf(),
                query.spec_valid(),
                skip == query.skip as int,
                limit == query.limit as int,
                full == self.resources(),
                pred == resource_query_pred(ven_id@, query@),
                i <= self.items.len(),
                matched == full.take(i as int).filter(pred).len(),
                matched <= i,
                resource_seq_view(out@) == page(full.take(i as int).filter(pred), skip, limit),
                out@.len() <= limit,
            decreases self.items.len() - i,
        {
            let ghost prefix = full.take(i as int);
            proof {
                assert(full.take(i as int + 1) =~= prefix.push(full[i as int]));
                lemma_filter_push(prefix, full[i as int], pred);
                lemma_page_len(prefix.filter(pred), skip, limit);
                lemma_page_len(full.take(i as int + 1).filter(pred), skip, limit);
            }
            let keep = self.items[i].ven_id.same_as(ven_id) && resource_matches(
                &self.items[i],
                query,
            );
            if keep {
                assert(pred(full[i as int]));
                if matched >= (query.skip as u64) && out.len() < (query.limit as usize) {
                    out.push(self.items[i].clone());
                    proof {
                        lemma_page_push(prefix.filter(pred), full[i as int], skip, limit);
                        assert(resource_seq_view(out@) =~= page(
                            full.take(i as int + 1).filter(pred),
                            skip,
                            limit,
                        ));
                    }
                } else {
                    proof {
                        lemma_page_push(prefix.filter(pred), full[i as int], skip, limit);
                        assert(resource_seq_view(out@) =~= page(
                            full.take(i as int + 1).filter(pred),
                            skip,
                            limit,
                        ));
                    }
                }
                matched = matched + 1;
            } else {
                proof {
                    assert(!pred(full[i as int]));
                    assert(resource_seq_view(out@) =~= page(
                        full.take(i as int + 1).filter(pred),
                        skip,
                        limit,
                    ));
                }
            }
            i = i + 1;
        }
        proof {
            assert(full.take(self.items.len() as int) =~= full);
        }
        Ok(out)
    }

    /// Looks resource `id` up under the VEN named in the path: `Forbidden`
    /// when the caller lacks authority over that VEN — existence is not
    /// leaked to unauthorized callers — and `NotFound` when no such
    /// resource exists under that VEN.
    pub fn retrieve(&self, id: &ResourceId, ven_id: VenId, user: &Identity) -> (r: Result<
        Resource,
        AppError,
    >)
        requires
            self.wf(),
        ensures
            r is Ok <==> resource_get_denial(self.resources(), ven_id@, id@, *user) is None,
            resource_get_denial(self.resources(), ven_id@, id@, *user) == Some(
                DenialKind::Forbidden,
            ) ==> (r matches Err(AppError::Forbidden(m)) && m@ == forbidden_msg()),
            resource_get_denial(self.resources(), ven_id@, id@, *user) == Some(
                DenialKind::NotFound,
            ) ==> r matches Err(AppError::NotFound),
            r matches Ok(v) ==> v@.id == id@ && v@.ven_id == ven_id@ && self.resources().contains(
                v@,
            ),
    {
        match has_write_permission(user, &ven_id) {
            Err(e) => {
                return Err(e);
            },
            Ok(()) => {},
        }
        let mut i: usize = 0;
        while i < self.items.len()
            invariant
                write_allowed(*user, ven_id@),
                i <= self.items.len(),
                forall|j: int|
                    0 <= j < i ==> !((#[trigger] self.resources()[j]).ven_id == ven_id@
                        && self.resources()[j].id == id@),
            decreases self.items.len() - i,
        {
            if self.items[i].id.same_as(id) && self.items[i].ven_id.same_as(&ven_id) {
                let v = self.items[i].clone();
                proof {
                    assert(self.resources()[i as int] == v@);
                    assert(has_resource(self.resources(), ven_id@, id@));
                }
                return Ok(v);
            }
            i = i + 1;
        }
        Err(AppError::NotFound)
    }

    /// Creates a resource owned by the VEN named in the path: validates
    /// the payload, checks the caller's authority over that VEN, checks
    /// that the owning VEN exists, assigns the id and both timestamps,
    /// and persists.  Either the record is fully appended or the store is
    /// left unchanged.
    pub fn create(
        &mut self,
        new_resource: ResourceContent,
        ven_id: VenId,
        user: &Identity,
        vens: &VenStore,
    ) -> (r: Result<Resource, AppError>)
        requires
            old(self).wf(),
        ensures
            final(self).wf(),
            r is Ok <==> resource_create_denial(
                vens.vens(),
                ven_id@,
                new_resource@,
                *user,
                old(self).spec_next_id(),
            ) is None,
            r is Err ==> *final(self) == *old(self),
            resource_create_denial(
                vens.vens(),
                ven_id@,
                new_resource@,
                *user,
                old(self).spec_next_id(),
            ) == Some(DenialKind::ValidationFailed) ==> (r matches Err(
                AppError::ValidationFailed(m),
            ) && m@ == resource_name_range_msg()),
            resource_create_denial(
                vens.vens(),
                ven_id@,
                new_resource@,
                *user,
                old(self).spec_next_id(),
            ) == Some(DenialKind::Forbidden) ==> (r matches Err(AppError::Forbidden(m)) && m@
                == forbidden_msg()),
            resource_create_denial(
                vens.vens(),
                ven_id@,
                new_resource@,
                *user,
                old(self).spec_next_id(),
            ) == Some(DenialKind::NotFound) ==> r matches Err(AppError::NotFound),
            resource_create_denial(
                vens.vens(),
                ven_id@,
                new_resource@,
                *user,
                old(self).spec_next_id(),
            ) == Some(DenialKind::Conflict) ==> (r matches Err(AppError::Conflict(m)) && m@
                == id_exhausted_msg()),
            r matches Ok(v) ==> {
                &&& v@ == created_resource_view(
                    ven_id@,
                    new_resource@,
                    old(self).spec_next_id(),
                    old(self).spec_clock(),
                )
                &&& final(self).resources() == old(self).resources().push(v@)
                &&& final(self).spec_next_id() == spec_tick(old(self).spec_next_id())
                &&& final(self).spec_clock() == spec_tick(old(self).spec_clock())
            },
    {
        if !char_len_in_range(new_resource.resource_name.as_str(), 1, 128) {
            return Err(
                AppError::ValidationFailed(
                    "resourceName: string length outside of allowed range 1..=128".to_owned(),
                ),
            );
        }
        match has_write_permission(user, &ven_id) {
            Err(e) => {
                return Err(e);
            },
            Ok(()) => {},
        }
        if !vens.contains_ven(&ven_id) {
            return Err(AppError::NotFound);
        }
        if self.next_id == u64::MAX {
            return Err(
                AppError::Conflict("server-assigned object id space exhausted".to_owned()),
            );
        }
        let id = ResourceId(make_id("resource-", self.next_id));
        let now = tick(self.clock);
        let resource = Resource {
            id,
            created_date_time: Timestamp(now),
            modification_date_time: Timestamp(now),
            ven_id,
            content: new_resource,
        };
        let result = resource.clone();
        self.items.push(resource);
        self.next_id = tick(self.next_id);
        self.clock = now;
        proof {
            let prev = old(self).resources();
            let next0 = old(self).spec_next_id();
            let fresh = fresh_resource_id(next0);
            assert(self.resources() =~= prev.push(
                created_resource_view(
                    result@.ven_id,
                    result@.content,
                    next0,
                    old(self).spec_clock(),
                ),
            ));
            old(self).lemma_fresh_id_unused();
            let rs = self.resources();
            assert forall|i: int, j: int|
                #![trigger rs[i].id, rs[j].id]
                0 <= i < j < rs.len() implies rs[i].id != rs[j].id by {
                if j < prev.len() {
                    assert(prev[i].id != prev[j].id);
                } else {
                    assert(rs[j].id == fresh);
                    if prev[i].id == fresh {
                        assert(resource_id_taken(prev, fresh));
                    }
                }
            }
            assert forall|i: int| 0 <= i < rs.len() implies exists|k: u64|
                k < self.spec_next_id() && (#[trigger] rs[i]).id == fresh_resource_id(k) by {
                if i < prev.len() {
                    let k = choose|k: u64| k < next0 && prev[i].id == fresh_resource_id(k);
                    assert(rs[i].id == fresh_resource_id(k));
                } else {
                    assert(rs[i].id == fresh_resource_id(next0));
                }
            }
        }
        Ok(result)
    }

    /// Replaces the content of resource `id` under the VEN named in the
    /// path wholesale and bumps its modification time; id, owner and
    /// creation time never change.
    pub fn update(
        &mut self,
        id: &ResourceId,
        ven_id: VenId,
        content: ResourceContent,
        user: &Identity,
    ) -> (r: Result<Resource, AppError>)
        requires
            old(self).wf(),
        ensures
            final(self).wf(),
            r is Ok <==> resource_update_denial(
                old(self).resources(),
                ven_id@,
                id@,
                content@,
                *user,
            ) is None,
            r is Err ==> *final(self) == *old(self),
            resource_update_denial(old(self).resources(), ven_id@, id@, content@, *user) == Some(
                DenialKind::ValidationFailed,
            ) ==> (r matches Err(AppError::ValidationFailed(m)) && m@
                == resource_name_range_msg()),
            resource_update_denial(old(self).resources(), ven_id@, id@, content@, *user) == Some(
                DenialKind::Forbidden,
            ) ==> (r matches Err(AppError::Forbidden(m)) && m@ == forbidden_msg()),
            resource_update_denial(old(self).resources(), ven_id@, id@, content@, *user) == Some(
                DenialKind::NotFound,
            ) ==> r matches Err(AppError::NotFound),
            r matches Ok(v) ==> exists|i: int|
                {
                    &&& 0 <= i < old(self).resources().len()
                    &&& (#[trigger] old(self).resources()[i]).id == id@
                    &&& old(self).resources()[i].ven_id == ven_id@
                    &&& v@ == ResourceV {
                        id: id@,
                        created: old(self).resources()[i].created,
                        modified: Timestamp(spec_tick(old(self).spec_clock())),
                        ven_id: ven_id@,
                        content: content@,
                    }
                    &&& final(self).resources() == old(self).resources().update(i, v@)
                    &&& final(self).spec_clock() == spec_tick(old(self).spec_clock())
                    &&& final(self).spec_next_id() == old(self).spec_next_id()
                },
    {
        if !char_len_in_range(content.resource_name.as_str(), 1, 128) {
            return Err(
                AppError::ValidationFailed(
                    "resourceName: string length outside of allowed range 1..=128".to_owned(),
                ),
            );
        }
        match has_write_permission(user, &ven_id) {
            Err(e) => {
                return Err(e);
            },
            Ok(()) => {},
        }
        let mut i: usize = 0;
        while i < self.items.len()
            invariant
                old(self).wf(),
                *self == *old(self),
                resource_content_valid(content@),
                write_allowed(*user, ven_id@),
                i <= self.items.len(),
                forall|j: int|
                    0 <= j < i ==> !((#[trigger] self.resources()[j]).ven_id == ven_id@
                        && self.resources()[j].id == id@),
            decreases self.items.len() - i,
        {
            if self.items[i].id.same_as(id) && self.items[i].ven_id.same_as(&ven_id) {
                let now = tick(self.clock);
                let resource = Resource {
                    id: ResourceId(self.items[i].id.0.clone()),
                    created_date_time: self.items[i].created_date_time,
                    modification_date_time: Timestamp(now),
                    ven_id: VenId(self.items[i].ven_id.0.clone()),
                    content,
                };
                let result = resource.clone();
                proof {
                    assert(old(self).resources()[i as int].id == id@);
                    assert(old(self).resources()[i as int].ven_id == ven_id@);
                    assert(has_resource(old(self).resources(), ven_id@, id@));
                }
                self.items.set(i, resource);
                self.clock = now;
                proof {
                    assert(self.resources() =~= old(self).resources().update(i as int, result@));
                    let prev = old(self).resources();
                    let rs = self.resources();
                    assert forall|j: int| 0 <= j < rs.len() implies exists|k: u64|
                        k < self.spec_next_id() && (#[trigger] rs[j]).id == fresh_resource_id(
                            k,
                        ) by {
                        let k = choose|k: u64|
                            k < old(self).spec_next_id() && prev[j].id == fresh_resource_id(k);
                        assert(rs[j].id == fresh_resource_id(k));
                    }
                }
                return Ok(result);
            }
            i = i + 1;
        }
        Err(AppError::NotFound)
    }

    /// Deletes resource `id` under the VEN named in the path and returns
    /// its last state.  Deletion is permanent: a subsequent read of the
    /// same id reports `NotFound`, which retrying callers must treat as a
    /// terminal state.
    pub fn delete(&mut self, id: &ResourceId, ven_id: VenId, user: &Identity) -> (r: Result<
        Resource,
        AppError,
    >)
        requires
            old(self).wf(),
        ensures
            final(self).wf(),
            r is Ok <==> resource_get_denial(old(self).resources(), ven_id@, id@, *user) is None,
            r is Err ==> *final(self) == *old(self),
            resource_get_denial(old(self).resources(), ven_id@, id@, *user) == Some(
                DenialKind::Forbidden,
            ) ==> (r matches Err(AppError::Forbidden(m)) && m@ == forbidden_msg()),
            resource_get_denial(old(self).resources(), ven_id@, id@, *user) == Some(
                DenialKind::NotFound,
            ) ==> r matches Err(AppError::NotFound),
            r matches Ok(v) ==> exists|i: int|
                {
                    &&& 0 <= i < old(self).resources().len()
                    &&& (#[trigger] old(self).resources()[i]).id == id@
                    &&& old(self).resources()[i].ven_id == ven_id@
                    &&& v@ == old(self).resources()[i]
                    &&& final(self).resources() == old(self).resources().remove(i)
                    &&& final(self).spec_clock() == old(self).spec_clock()
                    &&& final(self).spec_next_id() == old(self).spec_next_id()
                },
    {
        match has_write_permission(user, &ven_id) {
            Err(e) => {
                return Err(e);
            },
            Ok(()) => {},
        }
        let mut i: usize = 0;
        while i < self.items.len()
            invariant
                old(self).wf(),
                *self == *old(self),
                write_allowed(*user, ven_id@),
                i <= self.items.len(),
                forall|j: int|
                    0 <= j < i ==> !((#[trigger] self.resources()[j]).ven_id == ven_id@
                        && self.resources()[j].id == id@),
            decreases self.items.len() - i,
        {
            if self.items[i].id.same_as(id) && self.items[i].ven_id.same_as(&ven_id) {
                proof {
                    assert(old(self).resources()[i as int].id == id@);
                    assert(old(self).resources()[i as int].ven_id == ven_id@);
                    assert(has_resource(old(self).resources(), ven_id@, id@));
                }
                let resource = self.items.remove(i);
                proof {
                    assert(self.resources() =~= old(self).resources().remove(i as int));
                    let prev = old(self).resources();
                    let rs = self.resources();
                    assert forall|j: int| 0 <= j < rs.len() implies exists|k: u64|
                        k < self.spec_next_id() && (#[trigger] rs[j]).id == fresh_resource_id(
                            k,
                        ) by {
                        let j0: int = if j < i { j } else { j + 1 };
                        assert(rs[j] == prev[j0]);
                        let k = choose|k: u64|
                            k < old(self).spec_next_id() && prev[j0].id == fresh_resource_id(k);
                        assert(rs[j].id == fresh_resource_id(k));
                    }
                }
                return Ok(resource);
            }
            i = i + 1;
        }
        Err(AppError::NotFound)
    }
}

/// Ownership protection: an identity without authority over the owning
/// VEN is denied a read, a (well-formed) update, and a delete of any
/// resource under that VEN, always with `Forbidden`.
pub proof fn lemma_ownership_protection(
    rs: Seq<ResourceV>,
    ven: Seq<char>,
    id: Seq<char>,
    c: ResourceContentV,
    intruder: Identity,
)
    requires
        !write_allowed(intruder, ven),
        resource_content_valid(c),
    ensures
        resource_get_denial(rs, ven, id, intruder) == Some(DenialKind::Forbidden),
        resource_update_denial(rs, ven, id, c, intruder) == Some(DenialKind::Forbidden),
{
}

/// Deletion is permanent: once the resource named `id` is removed — which
/// only an identity with authority over its VEN can do — the same read,
/// update or delete reports `NotFound` even to an authorized caller.
pub proof fn lemma_deleted_is_gone(
    rs: Seq<ResourceV>,
    i: int,
    ven: Seq<char>,
    id: Seq<char>,
    c: ResourceContentV,
    user: Identity,
)
    requires
        unique_resource_ids(rs),
        0 <= i < rs.len(),
        rs[i].id == id,
        write_allowed(user, ven),
        resource_content_valid(c),
    ensures
        resource_get_denial(rs.remove(i), ven, id, user) == Some(DenialKind::NotFound),
        resource_update_denial(rs.remove(i), ven, id, c, user) == Some(DenialKind::NotFound),
{
    let rest = rs.remove(i);
    assert forall|j: int| 0 <= j < rest.len() implies (#[trigger] rest[j]).id != id by {
        if j < i {
            assert(rest[j] == rs[j]);
            assert(rs[j].id != rs[i].id);
        } else {
            assert(rest[j] == rs[j + 1]);
            assert(rs[i].id != rs[j + 1].id);
        }
    }
    assert(!has_resource(rest, ven, id));
}

/// Authorization-read consistency: a record that `list` returns is one
/// that `get` would grant to the same identity.
pub proof fn lemma_list_get_consistent(
    rs: Seq<ResourceV>,
    ven: Seq<char>,
    q: QueryParamsV,
    user: Identity,
    j: int,
)
    requires
        write_allowed(user, ven),
        q.skip >= 0,
        q.limit >= 0,
        0 <= j < resource_list(rs, ven, q).len(),
    ensures
        resource_get_denial(rs, ven, resource_list(rs, ven, q)[j].id, user) is None,
{
    let pred = resource_query_pred(ven, q);
    let f = rs.filter(pred);
    let skip = q.skip as int;
    let limit = q.limit as int;
    lemma_page_len(f, skip, limit);
    lemma_page_elements(f, skip, limit);
    let x = resource_list(rs, ven, q)[j];
    assert(x == f[skip + j]);
    assert(f.contains(x));
    lemma_filter_subset(rs, pred);
    assert(rs.contains(x));
    let i0 = choose|i0: int| 0 <= i0 < rs.len() && rs[i0] == x;
    rs.lemma_filter_pred(pred, skip + j);
    assert(pred(x));
    assert(x.ven_id == ven);
    assert(rs[i0].ven_id == ven && rs[i0].id == x.id);
    assert(has_resource(rs, ven, x.id));
}

/// Round trip: when a creation is owed success, reading the returned id
/// back — any number of times — yields exactly the created record: the
/// caller's content unchanged, under the server-assigned id, with equal
/// server-assigned creation and modification times.
pub proof fn lemma_create_round_trip(
    rs: Seq<ResourceV>,
    vens: Seq<VenV>,
    ven: Seq<char>,
    c: ResourceContentV,
    user: Identity,
    next: u64,
    clock: u64,
)
    requires
        unique_resource_ids(rs),
        !resource_id_taken(rs, fresh_resource_id(next)),
        resource_create_denial(vens, ven, c, user, next) is None,
    ensures
        ({
            let created = created_resource_view(ven, c, next, clock);
            let stored = rs.push(created);
            &&& resource_get_denial(stored, ven, created.id, user) is None
            &&& created.content == c
            &&& created.created == created.modified
            &&& unique_resource_ids(stored)
            &&& forall|i: int|
                0 <= i < stored.len() && (#[trigger] stored[i]).id == created.id ==> stored[i]
                    == created
        }),
{
    let created = created_resource_view(ven, c, next, clock);
    let stored = rs.push(created);
    assert(stored[rs.len() as int] == created);
    assert(has_resource(stored, ven, created.id));
    assert forall|i: int|
        0 <= i < stored.len() && (#[trigger] stored[i]).id == created.id implies stored[i]
        == created by {
        if i < rs.len() {
            assert(stored[i] == rs[i]);
            assert(resource_id_taken(rs, fresh_resource_id(next)));
        }
    }
    assert forall|i: int, j: int|
        #![trigger stored[i].id, stored[j].id]
        0 <= i < j < stored.len() implies stored[i].id != stored[j].id by {
        if j < rs.len() {
            assert(stored[i] == rs[i] && stored[j] == rs[j]);
        } else {
            assert(stored[i] == rs[i] && stored[j] == created);
            if rs[i].id == created.id {
                assert(resource_id_taken(rs, fresh_resource_id(next)));
            }
        }
    }
}

/// Idempotent pagination: for a fixed snapshot and a fixed filter, the
/// page at offset 0 followed by the page at offset 50 (both of limit 50)
/// partitions the first 100 matching records, with no overlap and no gap.
pub proof fn lemma_list_pagination_partition(
    rs: Seq<ResourceV>,
    ven: Seq<char>,
    q0: QueryParamsV,
    q1: QueryParamsV,
)
    requires
        q0.skip == 0,
        q0.limit == 50,
        q1.skip == 50,
        q1.limit == 50,
        q0.target_type == q1.target_type,
        q0.target_values == q1.target_values,
    ensures
        resource_list(rs, ven, q0) + resource_list(rs, ven, q1) == page(
            rs.filter(resource_query_pred(ven, q0)),
            0,
            100,
        ),
{
    assert(resource_query_pred(ven, q0) =~= resource_query_pred(ven, q1));
    lemma_pagination_partition(rs.filter(resource_query_pred(ven, q0)), 50);
}

} // verus!
