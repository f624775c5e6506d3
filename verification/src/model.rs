//! The values that the control plane keeps and exchanges.
use vstd::prelude::*;
use vstd::string::*;
use crate::record::Record;

verus! {

/// A typed identifier: the type it belongs to and its value.
#[derive(Debug)]
pub struct EntityId {
    pub kind: String,
    pub value: String,
}

/// The type of organization identifiers.
pub const ORGANIZATION_ID: &'static str = "organization_id";

/// The type of project identifiers.
pub const PROJECT_ID: &'static str = "project_id";

/// The type of goal identifiers.
pub const GOAL_ID: &'static str = "goal_id";

/// The type of work-item identifiers.
pub const WORK_ITEM_ID: &'static str = "work_item_id";

/// The type of routine identifiers.
pub const ROUTINE_ID: &'static str = "routine_id";

/// The type of routine-revision identifiers.
pub const ROUTINE_REVISION_ID: &'static str = "routine_revision_id";

impl EntityId {
    /// An identifier of a type.
    pub fn new(kind: &str, value: &str) -> (r: Self)
        ensures
            r.kind@ == kind@,
            r.value@ == value@,
    {
        EntityId { kind: kind.to_owned(), value: value.to_owned() }
    }
}

impl Record for EntityId {
    open spec fn alike(&self, other: &Self) -> bool {
        self.kind@ == other.kind@ && self.value@ == other.value@
    }

    proof fn alike_reflexive(&self) {
    }

    fn same(&self, other: &Self) -> (r: bool) {
        self.kind == other.kind && self.value == other.value
    }

    fn copy(&self) -> (r: Self) {
        EntityId { kind: self.kind.clone(), value: self.value.clone() }
    }
}

/// The revision of a stored value. It grows by one with every change.
#[derive(Debug, Clone, Copy, PartialEq, Eq, Structural)]
pub struct Revision {
    pub value: u64,
}

impl Revision {
    /// The revision of a value that has never changed.
    pub fn initial() -> (r: Self)
        ensures
            r.value == 0,
    {
        Revision { value: 0 }
    }

    /// The revision after this one; the last one has none after it.
    pub open spec fn following(self) -> Revision {
        Revision {
            value: if self.value == u64::MAX {
                u64::MAX
            } else {
                (self.value + 1) as u64
            },
        }
    }

    /// The revision after this one.
    pub fn next(self) -> (r: Self)
        ensures
            r == self.following(),
    {
        if self.value == u64::MAX {
            self
        } else {
            Revision { value: self.value + 1 }
        }
    }
}

impl Record for Revision {
    open spec fn alike(&self, other: &Self) -> bool {
        *self == *other
    }

    proof fn alike_reflexive(&self) {
    }

    fn same(&self, other: &Self) -> (r: bool) {
        self.value == other.value
    }

    fn copy(&self) -> (r: Self) {
        *self
    }
}

/// Who acts.
#[derive(Debug)]
pub enum Actor {
    /// A person known to the organization.
    User { id: EntityId, display_name: String },
    /// A part of the system itself.
    System { component: String },
    /// Somebody known to an integration only.
    External { integration: String, external_actor_id: String },
}

impl Record for Actor {
    open spec fn alike(&self, other: &Self) -> bool {
        match (*self, *other) {
            (
                Actor::User { id: a, display_name: b },
                Actor::User { id: c, display_name: d },
            ) => a.alike(&c) && b@ == d@,
            (Actor::System { component: a }, Actor::System { component: b }) => a@ == b@,
            (
                Actor::External { integration: a, external_actor_id: b },
                Actor::External { integration: c, external_actor_id: d },
            ) => a@ == c@ && b@ == d@,
            _ => false,
        }
    }

    proof fn alike_reflexive(&self) {
    }

    fn same(&self, other: &Self) -> (r: bool) {
        match (self, other) {
            (
                Actor::User { id: a, display_name: b },
                Actor::User { id: c, display_name: d },
            ) => a.same(c) && b.same(d),
            (Actor::System { component: a }, Actor::System { component: b }) => a.same(b),
            (
                Actor::External { integration: a, external_actor_id: b },
                Actor::External { integration: c, external_actor_id: d },
            ) => a.same(c) && b.same(d),
            _ => false,
        }
    }

    fn copy(&self) -> (r: Self) {
        match self {
            Actor::User { id, display_name } => Actor::User {
                id: id.copy(),
                display_name: display_name.copy(),
            },
            Actor::System { component } => Actor::System { component: component.copy() },
            Actor::External { integration, external_actor_id } => Actor::External {
                integration: integration.copy(),
                external_actor_id: external_actor_id.copy(),
            },
        }
    }
}

} // verus!
