//! Authorization vocabulary of the control plane.
//!
//! An authorization request asks whether an actor can take an *action* on a
//! resource; the policy itself is written in terms of RBAC-style
//! *permissions*. Keeping the two as separate types ensures that not any
//! old string can be used as a permission; an action is translated to its
//! permission only for as long as it takes to name it.

use vstd::prelude::*;

verus! {

/// An action being authorized.
#[derive(Clone, Copy, Debug, Eq, PartialEq, Structural)]
pub enum Action {
    Query,
    Read,
    Modify,
    Delete,
    ListChildren,
    CreateChild,
}

/// A permission used by the authorization policy.
#[derive(Clone, Copy, Debug, Eq, PartialEq, Structural)]
pub enum Perm {
    Query,
    Read,
    Modify,
    ListChildren,
    CreateChild,
}

/// The permission an action is checked against. Deleting a resource and
/// modifying it are both covered by the `Modify` permission.
pub open spec fn spec_perm_of(a: Action) -> Perm {
    match a {
        Action::Query => Perm::Query,
        Action::Read => Perm::Read,
        Action::Modify => Perm::Modify,
        Action::Delete => Perm::Modify,
        Action::ListChildren => Perm::ListChildren,
        Action::CreateChild => Perm::CreateChild,
    }
}

impl<'a> From<&'a Action> for Perm {
    fn from(a: &'a Action) -> (r: Self) {
        match a {
            Action::Query => Perm::Query,
            Action::Read => Perm::Read,
            Action::Modify => Perm::Modify,
            Action::Delete => Perm::Modify,
            Action::ListChildren => Perm::ListChildren,
            Action::CreateChild => Perm::CreateChild,
        }
    }
}

impl<'a> vstd::std_specs::convert::FromSpecImpl<&'a Action> for Perm {
    open spec fn obeys_from_spec() -> bool {
        true
    }

    open spec fn from_spec(a: &'a Action) -> Perm {
        spec_perm_of(*a)
    }
}

impl Perm {
    /// The permission's name, exactly as the policy text spells it.
    pub fn name(&self) -> (r: &'static str)
        ensures
            r@ == match self {
                Perm::Query => "query"@,
                Perm::Read => "read"@,
                Perm::Modify => "modify"@,
                Perm::ListChildren => "list_children"@,
                Perm::CreateChild => "create_child"@,
            },
    {
        match self {
            Perm::Query => "query",
            Perm::Read => "read",
            Perm::Modify => "modify",
            Perm::ListChildren => "list_children",
            Perm::CreateChild => "create_child",
        }
    }
}

/// The database itself, as a resource to protect: some roles have no access
/// to the database at all.
#[derive(Clone, Copy, Debug, Eq, PartialEq, Structural)]
pub struct Database;

impl Database {
    /// No role is granted on the database record itself; access is decided
    /// by the policy alone.
    pub fn has_role(&self) -> (r: bool)
        ensures
            !r,
    {
        false
    }
}

} // verus!
