//! The identity and role model of an authenticated caller.
//!
//! An identity is the role set carried by an already-verified credential.
//! It is constructed once per inbound request by credential-validation
//! middleware outside this crate; the core only reads its roles.  A single
//! credential may carry several roles at once, and an action is allowed if
//! any held role authorizes it.

use vstd::prelude::*;

use crate::ven::VenId;

verus! {

/// One role held by a caller.
#[derive(Debug)]
pub enum Role {
    /// Retailer-side staff with full business access.
    BusinessUser,
    /// Business role with elevated VEN administration rights.
    VenManager,
    /// Role scoped to exactly one VEN, named by its id.
    VenUser(VenId),
}

/// The kind of a role, without its payload.
#[derive(Clone, Copy, Debug, PartialEq, Eq, Structural)]
pub enum RoleKind {
    Business,
    VenManager,
    Ven,
}

impl Clone for Role {
    fn clone(&self) -> (r: Self)
        ensures
            role_view(r) == role_view(*self),
    {
        match self {
            Role::BusinessUser => Role::BusinessUser,
            Role::VenManager => Role::VenManager,
            Role::VenUser(v) => Role::VenUser(v.clone()),
        }
    }
}

/// Mathematical image of a role: the kind together with the VEN id a
/// VEN-scoped role names.
#[verifier::ext_equal]
pub ghost enum RoleV {
    BusinessUser,
    VenManager,
    VenUser(Seq<char>),
}

/// The image of one role.
pub open spec fn role_view(r: Role) -> RoleV {
    match r {
        Role::BusinessUser => RoleV::BusinessUser,
        Role::VenManager => RoleV::VenManager,
        Role::VenUser(v) => RoleV::VenUser(v@),
    }
}

/// The authenticated caller's role set for the current request.
#[derive(Debug)]
pub struct Identity {
    roles: Vec<Role>,
}

impl Identity {
    /// The roles this identity holds, in the order the credential listed
    /// them.
    pub closed spec fn spec_roles(&self) -> Seq<RoleV> {
        self.roles@.map_values(|r: Role| role_view(r))
    }

    /// Whether any held role is the business role.
    pub open spec fn spec_is_business(&self) -> bool {
        exists|i: int| 0 <= i < self.spec_roles().len() && self.spec_roles()[i] is BusinessUser
    }

    /// Whether any held role is the VEN-manager role.
    pub open spec fn spec_is_ven_manager(&self) -> bool {
        exists|i: int| 0 <= i < self.spec_roles().len() && self.spec_roles()[i] is VenManager
    }

    /// Whether any held role is scoped to a VEN.
    pub open spec fn spec_is_ven(&self) -> bool {
        exists|i: int| 0 <= i < self.spec_roles().len() && self.spec_roles()[i] is VenUser
    }

    /// Whether some held role is scoped to exactly the VEN named `ven`.
    pub open spec fn spec_holds_ven(&self, ven: Seq<char>) -> bool {
        exists|i: int|
            0 <= i < self.spec_roles().len() && self.spec_roles()[i] == RoleV::VenUser(ven)
    }

    /// The set of VEN ids this identity's VEN-scoped roles authorize;
    /// empty for identities without a VEN role.
    pub open spec fn spec_held_ven_ids(&self) -> Set<Seq<char>> {
        Set::new(|ven: Seq<char>| self.spec_holds_ven(ven))
    }

    /// Wraps the role set of an already-verified credential.
    pub fn new(roles: Vec<Role>) -> (r: Identity)
        ensures
            r.spec_roles() == roles@.map_values(|x: Role| role_view(x)),
    {
        Identity { roles }
    }

    /// Whether any held role is the business role.
    pub fn is_business(&self) -> (r: bool)
        ensures
            r == self.spec_is_business(),
    {
        let mut i: usize = 0;
        while i < self.roles.len()
            invariant
                i <= self.roles.len(),
                forall|j: int| 0 <= j < i ==> !(self.spec_roles()[j] is BusinessUser),
            decreases self.roles.len() - i,
        {
            if let Role::BusinessUser = &self.roles[i] {
                assert(self.spec_roles()[i as int] is BusinessUser);
                return true;
            }
            i = i + 1;
        }
        false
    }

    /// Whether any held role is the VEN-manager role.
    pub fn is_ven_manager(&self) -> (r: bool)
        ensures
            r == self.spec_is_ven_manager(),
    {
        let mut i: usize = 0;
        while i < self.roles.len()
            invariant
                i <= self.roles.len(),
                forall|j: int| 0 <= j < i ==> !(self.spec_roles()[j] is VenManager),
            decreases self.roles.len() - i,
        {
            if let Role::VenManager = &self.roles[i] {
                assert(self.spec_roles()[i as int] is VenManager);
                return true;
            }
            i = i + 1;
        }
        false
    }

    /// Whether any held role is scoped to a VEN.
    pub fn is_ven(&self) -> (r: bool)
        ensures
            r == self.spec_is_ven(),
    {
        let mut i: usize = 0;
        while i < self.roles.len()
            invariant
                i <= self.roles.len(),
                forall|j: int| 0 <= j < i ==> !(self.spec_roles()[j] is VenUser),
            decreases self.roles.len() - i,
        {
            if let Role::VenUser(_) = &self.roles[i] {
                assert(self.spec_roles()[i as int] is VenUser);
                return true;
            }
            i = i + 1;
        }
        false
    }

    /// Whether the identity holds a role of the given kind.
    pub fn has_role(&self, kind: RoleKind) -> (r: bool)
        ensures
            kind == RoleKind::Business ==> r == self.spec_is_business(),
            kind == RoleKind::VenManager ==> r == self.spec_is_ven_manager(),
            kind == RoleKind::Ven ==> r == self.spec_is_ven(),
    {
        match kind {
            RoleKind::Business => self.is_business(),
            RoleKind::VenManager => self.is_ven_manager(),
            RoleKind::Ven => self.is_ven(),
        }
    }

    /// Whether some held role is scoped to exactly the VEN named by
    /// `ven_id`.
    pub fn holds_ven(&self, ven_id: &VenId) -> (r: bool)
        ensures
            r == self.spec_holds_ven(ven_id@),
    {
        let mut i: usize = 0;
        while i < self.roles.len()
            invariant
                i <= self.roles.len(),
                forall|j: int| 0 <= j < i ==> self.spec_roles()[j] != RoleV::VenUser(ven_id@),
            decreases self.roles.len() - i,
        {
            if let Role::VenUser(v) = &self.roles[i] {
                if v.same_as(ven_id) {
                    assert(self.spec_roles()[i as int] == RoleV::VenUser(ven_id@));
                    return true;
                }
            }
            i = i + 1;
        }
        false
    }

    /// The VEN ids this identity's VEN-scoped roles authorize, in the
    /// order the roles were listed.
    pub fn held_ven_ids(&self) -> (r: Vec<VenId>)
        ensures
            forall|k: int| 0 <= k < r@.len() ==> self.spec_holds_ven(#[trigger] r@[k]@),
            forall|ven: Seq<char>| self.spec_holds_ven(ven) ==> exists|k: int|
                0 <= k < r@.len() && #[trigger] r@[k]@ == ven,
    {
        let mut r: Vec<VenId> = Vec::new();
        let mut i: usize = 0;
        while i < self.roles.len()
            invariant
                i <= self.roles.len(),
                forall|k: int| 0 <= k < r@.len() ==> self.spec_holds_ven(#[trigger] r@[k]@),
                forall|j: int|
                    0 <= j < i && (#[trigger] self.spec_roles()[j]) is VenUser ==> exists|k: int|
                        0 <= k < r@.len() && #[trigger] r@[k]@ == self.spec_roles()[j]->VenUser_0,
            decreases self.roles.len() - i,
        {
            if let Role::VenUser(v) = &self.roles[i] {
                let ghost prev = r@;
                r.push(v.clone());
                proof {
                    assert(r@[prev.len() as int]@ == self.spec_roles()[i as int]->VenUser_0);
                    assert(self.spec_holds_ven(r@[prev.len() as int]@));
                    assert forall|j: int|
                        0 <= j < i + 1 && (#[trigger] self.spec_roles()[j])
                            is VenUser implies exists|k: int|
                        0 <= k < r@.len() && #[trigger] r@[k]@
                            == self.spec_roles()[j]->VenUser_0 by {
                        if j < i {
                            let k0 = choose|k: int|
                                0 <= k < prev.len() && #[trigger] prev[k]@
                                    == self.spec_roles()[j]->VenUser_0;
                            assert(r@[k0] == prev[k0]);
                            assert(r@[k0]@ == self.spec_roles()[j]->VenUser_0);
                        } else {
                            assert(r@[prev.len() as int]@ == self.spec_roles()[j]->VenUser_0);
                        }
                    }
                }
            }
            i = i + 1;
        }
        proof {
            assert forall|ven: Seq<char>| self.spec_holds_ven(ven) implies exists|k: int|
                0 <= k < r@.len() && #[trigger] r@[k]@ == ven by {
                let j = choose|j: int|
                    0 <= j < self.spec_roles().len() && #[trigger] self.spec_roles()[j]
                        == RoleV::VenUser(ven);
                assert(self.spec_roles()[j]->VenUser_0 == ven);
            }
        }
        r
    }
}

} // verus!
