use vstd::prelude::*;
use crate::ident::Id;
use crate::layout::Layout;
use crate::page::Page;
use crate::value::Value;

verus! {

/// Event raised by the client: the identifier of a control and what was
/// done to it.
#[derive(Debug, PartialEq, Eq, PartialOrd)]
pub struct Action {
    pub id: Id,
    pub kind: Kind,
}

#[derive(Debug, Clone, Copy, PartialEq, Eq, PartialOrd)]
pub enum Kind {
    Click,
}

/// Message from the server: a whole new scene, or a delta on one element.
#[derive(Debug, PartialEq, Eq, PartialOrd)]
pub enum Reaction {
    Scene(Scene),
    Delta(Delta),
}

/// Full-screen replacement.
#[derive(Debug, PartialEq, Eq, PartialOrd)]
pub enum Scene {
    Spinner,
    FullScreen(Layout),
    Dashboard(Page),
}

/// New value for every element bound to `id`.
#[derive(Debug, PartialEq, Eq, PartialOrd)]
pub struct Delta {
    pub id: Id,
    pub value: Value,
}

impl Reaction {
    /// The element a reaction targets: none for a scene, which replaces
    /// everything; the delta's identifier for a delta.
    pub open spec fn spec_overlay_id(&self) -> Option<Id> {
        match self {
            Reaction::Scene(_) => None,
            Reaction::Delta(delta) => Some(delta.id),
        }
    }

    pub fn overlay_id(&self) -> (r: Option<Id>)
        ensures
            r == self.spec_overlay_id(),
    {
        match self {
            Reaction::Scene(_) => None,
            Reaction::Delta(delta) => Some(delta.id.clone()),
        }
    }
}

impl From<(Id, Value)> for Delta {
    fn from(pair: (Id, Value)) -> (r: Delta) {
        Delta { id: pair.0, value: pair.1 }
    }
}

impl vstd::std_specs::convert::FromSpecImpl<(Id, Value)> for Delta {
    open spec fn obeys_from_spec() -> bool {
        true
    }

    open spec fn from_spec(pair: (Id, Value)) -> Delta {
        Delta { id: pair.0, value: pair.1 }
    }
}

/// A scene reaction targets no element; a delta reaction targets exactly
/// the identifier of its delta.
pub proof fn lemma_overlay_id(scene: Scene, delta: Delta)
    ensures
        Reaction::Scene(scene).spec_overlay_id() is None,
        Reaction::Delta(delta).spec_overlay_id() == Some(delta.id),
{
}

impl Clone for Action {
    fn clone(&self) -> (r: Action)
        ensures
            r == *self,
    {
        Action { id: self.id.clone(), kind: self.kind }
    }
}

impl Delta {
    /// The same identifier, and values with equal views.
    pub open spec fn same(&self, other: &Delta) -> bool {
        self.id == other.id && self.value@ == other.value@
    }
}

impl Clone for Delta {
    fn clone(&self) -> (r: Delta)
        ensures
            r.same(self),
    {
        Delta { id: self.id.clone(), value: self.value.clone() }
    }
}

impl Scene {
    /// The same variant, with the same tree or page.
    pub open spec fn same(&self, other: &Scene) -> bool {
        match (self, other) {
            (Scene::Spinner, Scene::Spinner) => true,
            (Scene::FullScreen(a), Scene::FullScreen(b)) => a.same(b),
            (Scene::Dashboard(a), Scene::Dashboard(b)) => a.same(b),
            _ => false,
        }
    }
}

impl Clone for Scene {
    fn clone(&self) -> (r: Scene)
        ensures
            r.same(self),
    {
        match self {
            Scene::Spinner => Scene::Spinner,
            Scene::FullScreen(layout) => Scene::FullScreen(layout.clone()),
            Scene::Dashboard(page) => Scene::Dashboard(page.clone()),
        }
    }
}

impl Reaction {
    /// The same variant, with the same scene or delta.
    pub open spec fn same(&self, other: &Reaction) -> bool {
        match (self, other) {
            (Reaction::Scene(a), Reaction::Scene(b)) => a.same(b),
            (Reaction::Delta(a), Reaction::Delta(b)) => a.same(b),
            _ => false,
        }
    }
}

impl Clone for Reaction {
    fn clone(&self) -> (r: Reaction)
        ensures
            r.same(self),
    {
        match self {
            Reaction::Scene(scene) => Reaction::Scene(scene.clone()),
            Reaction::Delta(delta) => Reaction::Delta(delta.clone()),
        }
    }
}

} // verus!
