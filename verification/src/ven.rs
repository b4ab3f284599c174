//! The VEN (virtual end node) entity: the client device group that
//! resources belong to.

use vstd::pervasive::VecAdditionalExecFns;
use vstd::prelude::*;

use crate::error::{id_exhausted_msg, AppError, DenialKind};
use crate::identity::Identity;
use crate::pagination::{lemma_filter_push, lemma_page_len, lemma_page_push, page, Pagination};
use crate::permission::{forbidden_msg, has_write_permission, read_allowed, write_allowed};
use crate::text::{char_len_in_range, lemma_make_id_injective, make_id, spec_make_id};
use crate::time::{spec_tick, tick, Timestamp};

verus! {

/// URL-safe, server-assigned identifier of a VEN, unique among VENs and
/// immutable after creation.
#[derive(Debug)]
pub struct VenId(pub String);

impl View for VenId {
    type V = Seq<char>;

    open spec fn view(&self) -> Seq<char> {
        self.0@
    }
}

impl Clone for VenId {
    fn clone(&self) -> (r: Self)
        ensures
            r@ == self@,
    {
        VenId(self.0.clone())
    }
}

impl VenId {
    /// Whether two identifiers name the same VEN.
    pub fn same_as(&self, other: &VenId) -> (r: bool)
        ensures
            r == (self@ == other@),
    {
        self.0.eq(&other.0)
    }
}

/// The caller-supplied payload of a VEN record.
#[derive(Debug)]
pub struct VenContent {
    /// Short name to uniquely identify the VEN.
    pub ven_name: String,
}

/// Mathematical image of a VEN payload.
#[verifier::ext_equal]
pub ghost struct VenContentV {
    pub ven_name: Seq<char>,
}

impl View for VenContent {
    type V = VenContentV;

    open spec fn view(&self) -> VenContentV {
        VenContentV { ven_name: self.ven_name@ }
    }
}

impl Clone for VenContent {
    fn clone(&self) -> (r: Self)
        ensures
            r@ == self@,
    {
        VenContent { ven_name: self.ven_name.clone() }
    }
}

/// A stored VEN record: the server-assigned id and timestamps together
/// with the caller-supplied content.
#[derive(Debug)]
pub struct Ven {
    pub id: VenId,
    pub created_date_time: Timestamp,
    pub modification_date_time: Timestamp,
    pub content: VenContent,
}

/// Mathematical image of a stored VEN record.
#[verifier::ext_equal]
pub ghost struct VenV {
    pub id: Seq<char>,
    pub created: Timestamp,
    pub modified: Timestamp,
    pub content: VenContentV,
}

impl View for Ven {
    type V = VenV;

    open spec fn view(&self) -> VenV {
        VenV {
            id: self.id@,
            created: self.created_date_time,
            modified: self.modification_date_time,
            content: self.content@,
        }
    }
}

impl Clone for Ven {
    fn clone(&self) -> (r: Self)
        ensures
            r@ == self@,
    {
        Ven {
            id: self.id.clone(),
            created_date_time: self.created_date_time,
            modification_date_time: self.modification_date_time,
            content: self.content.clone(),
        }
    }
}

/// The image of a sequence of stored VENs.
pub open spec fn ven_seq_view(s: Seq<Ven>) -> Seq<VenV> {
    s.map_values(|v: Ven| v@)
}

/// Whether a VEN with the given id is present.
pub open spec fn has_ven(vs: Seq<VenV>, id: Seq<char>) -> bool {
    exists|i: int| 0 <= i < vs.len() && vs[i].id == id
}

/// No two stored VENs share an id.
pub open spec fn unique_ven_ids(vs: Seq<VenV>) -> bool {
    forall|i: int, j: int|
        #![trigger vs[i].id, vs[j].id]
        0 <= i < j < vs.len() ==> vs[i].id != vs[j].id
}

/// The structural constraint on a VEN payload: the name holds 1 to 128
/// characters.
pub open spec fn ven_content_valid(c: VenContentV) -> bool {
    1 <= c.ven_name.len() <= 128
}

/// Message carried by a rejected VEN payload.
pub open spec fn ven_name_range_msg() -> Seq<char> {
    "venName: string length outside of allowed range 1..=128"@
}

/// The id the store will assign to the VEN created while its counter
/// holds `n`.
pub open spec fn fresh_ven_id(n: u64) -> Seq<char> {
    spec_make_id("ven-"@, n as nat)
}

/// The record created from payload `c` while the store's counter holds
/// `next` and its clock holds `clock`.
pub open spec fn created_ven_view(c: VenContentV, next: u64, clock: u64) -> VenV {
    VenV {
        id: fresh_ven_id(next),
        created: Timestamp(spec_tick(clock)),
        modified: Timestamp(spec_tick(clock)),
        content: c,
    }
}

/// Why a VEN creation is denied, if it is: an invalid payload is rejected
/// first, then the caller's authority is checked (only a VEN manager
/// creates VENs).  An exhausted id counter — whose next assignment would
/// have to repeat an id — is the uniqueness violation the contract
/// reserves `Conflict` for; the store's invariant proves no other
/// collision can occur.
pub open spec fn ven_create_denial(c: VenContentV, user: Identity, next: u64) -> Option<
    DenialKind,
> {
    if !ven_content_valid(c) {
        Some(DenialKind::ValidationFailed)
    } else if !user.spec_is_ven_manager() {
        Some(DenialKind::Forbidden)
    } else if next == u64::MAX {
        Some(DenialKind::Conflict)
    } else {
        None
    }
}

/// Why reading the VEN named `id` is denied to `user`, if it is: the
/// permission rule is evaluated first, so an unauthorized caller learns
/// nothing about existence; then absence is reported.
pub open spec fn ven_get_denial(vs: Seq<VenV>, id: Seq<char>, user: Identity) -> Option<
    DenialKind,
> {
    if !write_allowed(user, id) {
        Some(DenialKind::Forbidden)
    } else if !has_ven(vs, id) {
        Some(DenialKind::NotFound)
    } else {
        None
    }
}

/// Why updating the VEN named `id` is denied, if it is.
pub open spec fn ven_update_denial(
    vs: Seq<VenV>,
    id: Seq<char>,
    c: VenContentV,
    user: Identity,
) -> Option<DenialKind> {
    if !ven_content_valid(c) {
        Some(DenialKind::ValidationFailed)
    } else if !write_allowed(user, id) {
        Some(DenialKind::Forbidden)
    } else if !has_ven(vs, id) {
        Some(DenialKind::NotFound)
    } else {
        None
    }
}

/// The VENs `user` may see, paged: the data layer filters by read
/// authorization before pagination, so result counts already reflect it.
pub open spec fn ven_list(vs: Seq<VenV>, user: Identity, skip: int, limit: int) -> Seq<VenV> {
    page(vs.filter(|v: VenV| read_allowed(user, v.id)), skip, limit)
}

/// Authorization-read consistency for VENs: a record that `list` returns
/// is one that `get` would grant to the same identity.
pub proof fn lemma_ven_list_get_consistent(
    vs: Seq<VenV>,
    user: Identity,
    skip: int,
    limit: int,
    j: int,
)
    requires
        skip >= 0,
        limit >= 0,
        0 <= j < ven_list(vs, user, skip, limit).len(),
    ensures
        ven_get_denial(vs, ven_list(vs, user, skip, limit)[j].id, user) is None,
{
    let pred = |v: VenV| read_allowed(user, v.id);
    let f = vs.filter(pred);
    crate::pagination::lemma_page_len(f, skip, limit);
    crate::pagination::lemma_page_elements(f, skip, limit);
    let x = ven_list(vs, user, skip, limit)[j];
    assert(x == f[skip + j]);
    assert(f.contains(x));
    crate::pagination::lemma_filter_subset(vs, pred);
    assert(vs.contains(x));
    let i0 = choose|i0: int| 0 <= i0 < vs.len() && vs[i0] == x;
    vs.lemma_filter_pred(pred, skip + j);
    assert(pred(x));
    assert(vs[i0].id == x.id);
    assert(has_ven(vs, x.id));
}

/// The storage backend for VEN records: an in-memory store that enforces
/// existence lookup and permission at the data layer.
#[derive(Debug)]
pub struct VenStore {
    items: Vec<Ven>,
    next_id: u64,
    clock: u64,
}

impl VenStore {
    /// The stored records, in insertion order.
    pub closed spec fn vens(&self) -> Seq<VenV> {
        ven_seq_view(self.items@)
    }

    /// The counter the next server-assigned id is rendered from.
    pub closed spec fn spec_next_id(&self) -> u64 {
        self.next_id
    }

    /// The store's logical clock.
    pub closed spec fn spec_clock(&self) -> u64 {
        self.clock
    }

    /// The store's invariant: ids are unique for the lifetime of the
    /// store, and every record was created no later than it was modified,
    /// no later than the clock.
    pub open spec fn wf(&self) -> bool {
        &&& unique_ven_ids(self.vens())
        &&& forall|i: int|
            0 <= i < self.vens().len() ==> (#[trigger] self.vens()[i]).created.0
                <= self.vens()[i].modified.0 <= self.spec_clock()
        &&& forall|i: int|
            0 <= i < self.vens().len() ==> exists|k: u64|
                k < self.spec_next_id() && (#[trigger] self.vens()[i]).id == fresh_ven_id(k)
    }

    /// Server-assigned ids never collide: while the invariant holds, the
    /// id the next creation would assign is unused, because every stored
    /// id was rendered from an earlier counter value and rendering is
    /// injective.
    pub proof fn lemma_fresh_id_unused(self)
        requires
            self.wf(),
        ensures
            !has_ven(self.vens(), fresh_ven_id(self.spec_next_id())),
    {
        let vs = self.vens();
        let next = self.spec_next_id();
        if has_ven(vs, fresh_ven_id(next)) {
            let i = choose|i: int| 0 <= i < vs.len() && vs[i].id == fresh_ven_id(next);
            let k = choose|k: u64| k < next && vs[i].id == fresh_ven_id(k);
            lemma_make_id_injective("ven-"@, k as nat, next as nat);
        }
    }

    /// An empty store.
    pub fn new() -> (s: VenStore)
        ensures
            s.wf(),
            s.vens() == Seq::<VenV>::empty(),
            s.spec_next_id() == 0,
            s.spec_clock() == 0,
    {
        let s = VenStore { items: Vec::new(), next_id: 0, clock: 0 };
        proof {
            assert(s.vens() =~= Seq::<VenV>::empty());
        }
        s
    }

    /// Whether a VEN with the given id exists, regardless of caller.
    pub fn contains_ven(&self, id: &VenId) -> (r: bool)
        ensures
            r == has_ven(self.vens(), id@),
    {
        let mut i: usize = 0;
        while i < self.items.len()
            invariant
                i <= self.items.len(),
                forall|j: int| 0 <= j < i ==> (#[trigger] self.vens()[j]).id != id@,
            decreases self.items.len() - i,
        {
            if self.items[i].id.same_as(id) {
                assert(self.vens()[i as int].id == id@);
                return true;
            }
            i = i + 1;
        }
        false
    }

    /// Creates a VEN record: validates the payload, checks that the caller
    /// is a VEN manager, assigns the id and both timestamps, and persists.
    /// Either the record is fully appended or the store is left unchanged.
    pub fn create(&mut self, new_ven: VenContent, user: &Identity) -> (r: Result<Ven, AppError>)
        requires
            old(self).wf(),
        ensures
            final(self).wf(),
            r is Ok <==> ven_create_denial(new_ven@, *user, old(self).spec_next_id()) is None,
            r is Err ==> *final(self) == *old(self),
            ven_create_denial(new_ven@, *user, old(self).spec_next_id()) == Some(
                DenialKind::ValidationFailed,
            ) ==> (r matches Err(AppError::ValidationFailed(m)) && m@ == ven_name_range_msg()),
            ven_create_denial(new_ven@, *user, old(self).spec_next_id()) == Some(
                DenialKind::Forbidden,
            ) ==> (r matches Err(AppError::Forbidden(m)) && m@ == forbidden_msg()),
            ven_create_denial(new_ven@, *user, old(self).spec_next_id()) == Some(
                DenialKind::Conflict,
            ) ==> (r matches Err(AppError::Conflict(m)) && m@ == id_exhausted_msg()),
            r matches Ok(v) ==> {
                &&& v@ == created_ven_view(
                    new_ven@,
                    old(self).spec_next_id(),
                    old(self).spec_clock(),
                )
                &&& final(self).vens() == old(self).vens().push(v@)
                &&& final(self).spec_next_id() == spec_tick(old(self).spec_next_id())
                &&& final(self).spec_clock() == spec_tick(old(self).spec_clock())
            },
    {
        if !char_len_in_range(new_ven.ven_name.as_str(), 1, 128) {
            return Err(
                AppError::ValidationFailed(
                    "venName: string length outside of allowed range 1..=128".to_owned(),
                ),
            );
        }
        if !user.is_ven_manager() {
            return Err(
                AppError::Forbidden("User not authorized to access this resource".to_owned()),
            );
        }
        if self.next_id == u64::MAX {
            return Err(
                AppError::Conflict("server-assigned object id space exhausted".to_owned()),
            );
        }
        let id = VenId(make_id("ven-", self.next_id));
        let now = tick(self.clock);
        let ven = Ven {
            id,
            created_date_time: Timestamp(now),
            modification_date_time: Timestamp(now),
            content: new_ven,
        };
        let result = ven.clone();
        self.items.push(ven);
        self.next_id = tick(self.next_id);
        self.clock = now;
        proof {
            let prev = old(self).vens();
            let next0 = old(self).spec_next_id();
            let fresh = fresh_ven_id(next0);
            assert(self.vens() =~= prev.push(
                created_ven_view(new_ven@, next0, old(self).spec_clock()),
            ));
            old(self).lemma_fresh_id_unused();
            let vs = self.vens();
            assert forall|i: int, j: int|
                #![trigger vs[i].id, vs[j].id]
                0 <= i < j < vs.len() implies vs[i].id != vs[j].id by {
                if j < prev.len() {
                    assert(prev[i].id != prev[j].id);
                } else {
                    assert(vs[j].id == fresh);
                    if prev[i].id == fresh {
                        assert(has_ven(prev, fresh));
                    }
                }
            }
            assert forall|i: int| 0 <= i < vs.len() implies exists|k: u64|
                k < self.spec_next_id() && (#[trigger] vs[i]).id == fresh_ven_id(k) by {
                if i < prev.len() {
                    let k = choose|k: u64| k < next0 && prev[i].id == fresh_ven_id(k);
                    assert(vs[i].id == fresh_ven_id(k));
                } else {
                    assert(vs[i].id == fresh_ven_id(next0));
                }
            }
        }
        Ok(result)
    }

    /// Looks the VEN named `id` up for `user`: `Forbidden` when the
    /// permission rule denies the caller, `NotFound` when no such VEN
    /// exists, and the stored record otherwise.
    pub fn retrieve(&self, id: &VenId, user: &Identity) -> (r: Result<Ven, AppError>)
        requires
            self.wf(),
        ensures
            r is Ok <==> ven_get_denial(self.vens(), id@, *user) is None,
            ven_get_denial(self.vens(), id@, *user) == Some(DenialKind::Forbidden) ==> (
            r matches Err(AppError::Forbidden(m)) && m@ == forbidden_msg()),
            ven_get_denial(self.vens(), id@, *user) == Some(DenialKind::NotFound) ==> r matches Err(
                AppError::NotFound,
            ),
            r matches Ok(v) ==> v@.id == id@ && self.vens().contains(v@),
    {
        match has_write_permission(user, id) {
            Err(e) => {
                return Err(e);
            },
            Ok(()) => {},
        }
        let mut i: usize = 0;
        while i < self.items.len()
            invariant
                write_allowed(*user, id@),
                i <= self.items.len(),
                forall|j: int| 0 <= j < i ==> (#[trigger] self.vens()[j]).id != id@,
            decreases self.items.len() - i,
        {
            if self.items[i].id.same_as(id) {
                let v = self.items[i].clone();
                proof {
                    assert(self.vens()[i as int] == v@);
                    assert(self.vens()[i as int].id == id@);
                    assert(has_ven(self.vens(), id@));
                }
                return Ok(v);
            }
            i = i + 1;
        }
        Err(AppError::NotFound)
    }

    /// Lists the VENs visible to `user`, in insertion order, paged by the
    /// validated parameters.  The authorization filter runs at the data
    /// layer: a caller never receives a VEN it could not read.
    pub fn retrieve_all(&self, pagination: &Pagination, user: &Identity) -> (r: Result<
        Vec<Ven>,
        AppError,
    >)
        requires
            self.wf(),
            pagination.spec_valid(),
        ensures
            r matches Ok(v) && ven_seq_view(v@) == ven_list(
                self.vens(),
                *user,
                pagination.skip as int,
                pagination.limit as int,
            ),
    {
        let ghost full = self.vens();
        let ghost pred = |v: VenV| read_allowed(*user, v.id);
        let ghost skip = pagination.skip as int;
        let ghost limit = pagination.limit as int;
        let mut out: Vec<Ven> = Vec::new();
        let mut matched: u64 = 0;
        let mut i: usize = 0;
        while i < self.items.len()
            invariant
                self.wf(),
                pagination.spec_valid(),
                skip == pagination.skip as int,
                limit == pagination.limit as int,
                full == self.vens(),
                pred == (|v: VenV| read_allowed(*user, v.id)),
                i <= self.items.len(),
                matched == full.take(i as int).filter(pred).len(),
                matched <= i,
                ven_seq_view(out@) == page(full.take(i as int).filter(pred), skip, limit),
                out@.len() <= limit,
            decreases self.items.len() - i,
        {
            let ghost prefix = full.take(i as int);
            proof {
                assert(full.take(i as int + 1) =~= prefix.push(full[i as int]));
                lemma_filter_push(prefix, full[i as int], pred);
                lemma_page_len(prefix.filter(pred), skip, limit);
                lemma_page_len(full.take(i as int + 1).filter(pred), skip, limit);
            }
            let keep = {
                let v = &self.items[i];
                user.is_ven_manager() || (user.is_ven() && user.holds_ven(&v.id))
            };
            if keep {
                assert(pred(full[i as int]));
                if matched >= (pagination.skip as u64) && out.len() < (pagination.limit as usize) {
                    out.push(self.items[i].clone());
                    proof {
                        lemma_page_push(prefix.filter(pred), full[i as int], skip, limit);
                        assert(ven_seq_view(out@) =~= page(
                            full.take(i as int + 1).filter(pred),
                            skip,
                            limit,
                        ));
                    }
                } else {
                    proof {
                        lemma_page_push(prefix.filter(pred), full[i as int], skip, limit);
                        assert(ven_seq_view(out@) =~= page(
                            full.take(i as int + 1).filter(pred),
                            skip,
                            limit,
                        ));
                    }
                }
                matched = matched + 1;
            } else {
                proof {
                    assert(!pred(full[i as int]));
                    assert(ven_seq_view(out@) =~= page(
                        full.take(i as int + 1).filter(pred),
                        skip,
                        limit,
                    ));
                }
            }
            i = i + 1;
        }
        proof {
            assert(full.take(self.items.len() as int) =~= full);
        }
        Ok(out)
    }

    /// Replaces the content of the VEN named `id` wholesale and bumps its
    /// modification time; the id and creation time never change.
    pub fn update(&mut self, id: &VenId, content: VenContent, user: &Identity) -> (r: Result<
        Ven,
        AppError,
    >)
        requires
            old(self).wf(),
        ensures
            final(self).wf(),
            r is Ok <==> ven_update_denial(old(self).vens(), id@, content@, *user) is None,
            r is Err ==> *final(self) == *old(self),
            ven_update_denial(old(self).vens(), id@, content@, *user) == Some(
                DenialKind::ValidationFailed,
            ) ==> (r matches Err(AppError::ValidationFailed(m)) && m@ == ven_name_range_msg()),
            ven_update_denial(old(self).vens(), id@, content@, *user) == Some(
                DenialKind::Forbidden,
            ) ==> (r matches Err(AppError::Forbidden(m)) && m@ == forbidden_msg()),
            ven_update_denial(old(self).vens(), id@, content@, *user) == Some(
                DenialKind::NotFound,
            ) ==> r matches Err(AppError::NotFound),
            r matches Ok(v) ==> exists|i: int|
                {
                    &&& 0 <= i < old(self).vens().len()
                    &&& (#[trigger] old(self).vens()[i]).id == id@
                    &&& v@ == VenV {
                        id: id@,
                        created: old(self).vens()[i].created,
                        modified: Timestamp(spec_tick(old(self).spec_clock())),
                        content: content@,
                    }
                    &&& final(self).vens() == old(self).vens().update(i, v@)
                    &&& final(self).spec_clock() == spec_tick(old(self).spec_clock())
                    &&& final(self).spec_next_id() == old(self).spec_next_id()
                },
    {
        if !char_len_in_range(content.ven_name.as_str(), 1, 128) {
            return Err(
                AppError::ValidationFailed(
                    "venName: string length outside of allowed range 1..=128".to_owned(),
                ),
            );
        }
        match has_write_permission(user, id) {
            Err(e) => {
                return Err(e);
            },
            Ok(()) => {},
        }
        let mut i: usize = 0;
        while i < self.items.len()
            invariant
                old(self).wf(),
                *self == *old(self),
                ven_content_valid(content@),
                write_allowed(*user, id@),
                i <= self.items.len(),
                forall|j: int| 0 <= j < i ==> (#[trigger] self.vens()[j]).id != id@,
            decreases self.items.len() - i,
        {
            if self.items[i].id.same_as(id) {
                let now = tick(self.clock);
                let ven = Ven {
                    id: VenId(self.items[i].id.0.clone()),
                    created_date_time: self.items[i].created_date_time,
                    modification_date_time: Timestamp(now),
                    content,
                };
                let result = ven.clone();
                proof {
                    assert(old(self).vens()[i as int].id == id@);
                }
                self.items.set(i, ven);
                self.clock = now;
                proof {
                    assert(self.vens() =~= old(self).vens().update(i as int, result@));
                    assert(has_ven(old(self).vens(), id@));
                    let prev = old(self).vens();
                    let vs = self.vens();
                    assert forall|j: int| 0 <= j < vs.len() implies exists|k: u64|
                        k < self.spec_next_id() && (#[trigger] vs[j]).id == fresh_ven_id(k) by {
                        let k = choose|k: u64|
                            k < old(self).spec_next_id() && prev[j].id == fresh_ven_id(k);
                        assert(vs[j].id == fresh_ven_id(k));
                    }
                }
                return Ok(result);
            }
            i = i + 1;
        }
        Err(AppError::NotFound)
    }

    /// Deletes the VEN named `id` and returns its last state.  Deletion is
    /// permanent: a subsequent read of the same id reports `NotFound`,
    /// which retrying callers must treat as a terminal state.
    pub fn delete(&mut self, id: &VenId, user: &Identity) -> (r: Result<Ven, AppError>)
        requires
            old(self).wf(),
        ensures
            final(self).wf(),
            r is Ok <==> ven_get_denial(old(self).vens(), id@, *user) is None,
            r is Err ==> *final(self) == *old(self),
            ven_get_denial(old(self).vens(), id@, *user) == Some(DenialKind::Forbidden)
                ==> (r matches Err(AppError::Forbidden(m)) && m@ == forbidden_msg()),
            ven_get_denial(old(self).vens(), id@, *user) == Some(DenialKind::NotFound)
                ==> r matches Err(AppError::NotFound),
            r matches Ok(v) ==> exists|i: int|
                {
                    &&& 0 <= i < old(self).vens().len()
                    &&& (#[trigger] old(self).vens()[i]).id == id@
                    &&& v@ == old(self).vens()[i]
                    &&& final(self).vens() == old(self).vens().remove(i)
                    &&& final(self).spec_clock() == old(self).spec_clock()
                    &&& final(self).spec_next_id() == old(self).spec_next_id()
                },
    {
        match has_write_permission(user, id) {
            Err(e) => {
                return Err(e);
            },
            Ok(()) => {},
        }
        let mut i: usize = 0;
        while i < self.items.len()
            invariant
                old(self).wf(),
                *self == *old(self),
                write_allowed(*user, id@),
                i <= self.items.len(),
                forall|j: int| 0 <= j < i ==> (#[trigger] self.vens()[j]).id != id@,
            decreases self.items.len() - i,
        {
            if self.items[i].id.same_as(id) {
                proof {
                    assert(old(self).vens()[i as int].id == id@);
                    assert(has_ven(old(self).vens(), id@));
                }
                let ven = self.items.remove(i);
                proof {
                    assert(self.vens() =~= old(self).vens().remove(i as int));
                    let prev = old(self).vens();
                    let vs = self.vens();
                    assert forall|j: int| 0 <= j < vs.len() implies exists|k: u64|
                        k < self.spec_next_id() && (#[trigger] vs[j]).id == fresh_ven_id(k) by {
                        let j0: int = if j < i { j } else { j + 1 };
                        assert(vs[j] == prev[j0]);
                        let k = choose|k: u64|
                            k < old(self).spec_next_id() && prev[j0].id == fresh_ven_id(k);
                        assert(vs[j].id == fresh_ven_id(k));
                    }
                }
                return Ok(ven);
            }
            i = i + 1;
        }
        Err(AppError::NotFound)
    }
}

} // verus!
