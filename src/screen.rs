use vstd::prelude::*;
use crate::ident::Id;
use crate::layout::{Bind, Container, Layout};
use crate::message::{Delta, Reaction, Scene};
use crate::value::{Value, ValueView};

verus! {

impl Bind {
    /// Whether this is the slot `Dynamic(id)`.
    pub open spec fn spec_binds(&self, id: Seq<char>) -> bool {
        match self {
            Bind::Dynamic(own) => own@ == id,
            Bind::Fixed(_) => false,
        }
    }

    pub fn binds(&self, id: &Id) -> (r: bool)
        ensures
            r == self.spec_binds(id@),
    {
        match self {
            Bind::Dynamic(own) => own.same(id),
            Bind::Fixed(_) => false,
        }
    }
}

impl Layout {
    /// Whether some node of the tree is the slot `Dynamic(id)`.
    pub open spec fn spec_binds(&self, id: Seq<char>) -> bool
        decreases self,
    {
        match self {
            Layout::Bind(b) => b.spec_binds(id),
            Layout::Row(v) => exists|i: int|
                0 <= i < v.len() && (#[trigger] v[i]).spec_binds(id),
            Layout::Column(v) => exists|i: int|
                0 <= i < v.len() && (#[trigger] v[i]).spec_binds(id),
            Layout::List(list) => exists|i: int|
                0 <= i < list.items.len() && (#[trigger] list.items[i]).bind.spec_binds(id),
            Layout::Container(c) => c.spec_binds(id),
            _ => false,
        }
    }

    #[verifier::loop_isolation(false)]
    pub fn binds(&self, id: &Id) -> (r: bool)
        ensures
            r == self.spec_binds(id@),
        decreases self,
    {
        match self {
            Layout::Bind(b) => b.binds(id),
            Layout::Row(v) | Layout::Column(v) => {
                let mut i: usize = 0;
                while i < v.len()
                    invariant
                        i <= v.len(),
                        forall|j: int| 0 <= j < i ==> !(#[trigger] v[j]).spec_binds(id@),
                    decreases v.len() - i,
                {
                    proof {
                        assert(decreases_to!(v => v[i as int]));
                    }
                    if v[i].binds(id) {
                        assert(v[i as int].spec_binds(id@));
                        return true;
                    }
                    i = i + 1;
                }
                false
            },
            Layout::List(list) => {
                let mut i: usize = 0;
                while i < list.items.len()
                    invariant
                        i <= list.items.len(),
                        forall|j: int|
                            0 <= j < i ==> !(#[trigger] list.items[j]).bind.spec_binds(id@),
                    decreases list.items.len() - i,
                {
                    if list.items[i].bind.binds(id) {
                        assert(list.items[i as int].bind.spec_binds(id@));
                        return true;
                    }
                    i = i + 1;
                }
                false
            },
            Layout::Container(c) => c.binds(id),
            _ => false,
        }
    }
}

impl Container {
    /// Whether some node inside the container is the slot `Dynamic(id)`.
    pub open spec fn spec_binds(&self, id: Seq<char>) -> bool
        decreases self,
    {
        match self {
            Container::Blank => false,
            Container::Tabs(tabs) => exists|i: int|
                0 <= i < tabs.len() && (#[trigger] tabs[i]).body.spec_binds(id),
            Container::Panel(panel) => panel.body.spec_binds(id),
        }
    }

    #[verifier::loop_isolation(false)]
    pub fn binds(&self, id: &Id) -> (r: bool)
        ensures
            r == self.spec_binds(id@),
        decreases self,
    {
        match self {
            Container::Blank => false,
            Container::Tabs(tabs) => {
                let mut i: usize = 0;
                while i < tabs.len()
                    invariant
                        i <= tabs.len(),
                        forall|j: int| 0 <= j < i ==> !(#[trigger] tabs[j]).body.spec_binds(id@),
                    decreases tabs.len() - i,
                {
                    proof {
                        assert(decreases_to!(tabs => tabs[i as int]));
                    }
                    if tabs[i].body.binds(id) {
                        assert(tabs[i as int].body.spec_binds(id@));
                        return true;
                    }
                    i = i + 1;
                }
                false
            },
            Container::Panel(panel) => panel.body.binds(id),
        }
    }
}

impl Scene {
    /// Whether the scene holds the slot `Dynamic(id)`.
    pub open spec fn spec_binds(&self, id: Seq<char>) -> bool {
        match self {
            Scene::Spinner => false,
            Scene::FullScreen(layout) => layout.spec_binds(id),
            Scene::Dashboard(page) => page.body.spec_binds(id),
        }
    }

    pub fn binds(&self, id: &Id) -> (r: bool)
        ensures
            r == self.spec_binds(id@),
    {
        match self {
            Scene::Spinner => false,
            Scene::FullScreen(layout) => layout.binds(id),
            Scene::Dashboard(page) => page.body.binds(id),
        }
    }
}

/// Latest value that `deltas` assign to `id`, the last one winning.
pub open spec fn latest_value(deltas: Seq<Delta>, id: Seq<char>) -> Option<ValueView>
    decreases deltas.len(),
{
    if deltas.len() == 0 {
        None
    } else if deltas.last().id@ == id {
        Some(deltas.last().value@)
    } else {
        latest_value(deltas.drop_last(), id)
    }
}

/// How a reaction was taken.
#[derive(Debug, Clone, Copy, PartialEq, Eq)]
pub enum Applied {
    /// A scene replaced the whole tree.
    Replaced,
    /// A delta updated the slots bound to its identifier.
    Patched,
    /// A delta named no slot of the tree and was dropped.
    Dangling,
}

/// What the client shows: the current scene, and the deltas taken since it
/// came, by which its dynamic slots are resolved without touching the tree.
#[derive(Debug)]
pub struct Screen {
    scene: Scene,
    deltas: Vec<Delta>,
}

impl Screen {
    pub closed spec fn spec_scene(&self) -> Scene {
        self.scene
    }

    pub closed spec fn spec_deltas(&self) -> Seq<Delta> {
        self.deltas@
    }

    /// Value shown at the slot `Dynamic(id)`: the latest delta on `id`, or
    /// nothing until one has come.
    pub open spec fn spec_shown(&self, id: Seq<char>) -> ValueView {
        match latest_value(self.spec_deltas(), id) {
            Some(v) => v,
            None => ValueView::Nothing,
        }
    }

    /// A screen that shows the spinner.
    pub fn new() -> (r: Screen)
        ensures
            r.spec_scene() is Spinner,
            r.spec_deltas().len() == 0,
    {
        Screen { scene: Scene::Spinner, deltas: Vec::new() }
    }

    pub fn scene(&self) -> (r: &Scene)
        ensures
            *r == self.spec_scene(),
    {
        &self.scene
    }

    /// Takes a reaction: a scene replaces the tree and forgets every delta;
    /// a delta on an identifier that the tree binds is recorded, leaving the
    /// tree as it is; any other delta is dropped and reported as dangling.
    pub fn apply(&mut self, reaction: Reaction) -> (r: Applied)
        ensures
            match reaction {
                Reaction::Scene(scene) => {
                    &&& r is Replaced
                    &&& final(self).spec_scene() == scene
                    &&& final(self).spec_deltas().len() == 0
                },
                Reaction::Delta(delta) => {
                    &&& final(self).spec_scene() == old(self).spec_scene()
                    &&& if old(self).spec_scene().spec_binds(delta.id@) {
                        &&& r is Patched
                        &&& final(self).spec_deltas() == old(self).spec_deltas().push(delta)
                    } else {
                        &&& r is Dangling
                        &&& final(self).spec_deltas() == old(self).spec_deltas()
                    }
                },
            },
    {
        match reaction {
            Reaction::Scene(scene) => {
                self.scene = scene;
                self.deltas = Vec::new();
                Applied::Replaced
            },
            Reaction::Delta(delta) => {
                if self.scene.binds(&delta.id) {
                    self.deltas.push(delta);
                    Applied::Patched
                } else {
                    Applied::Dangling
                }
            },
        }
    }

    /// Value shown at the slot `Dynamic(id)`.
    pub fn shown(&self, id: &Id) -> (r: Value)
        ensures
            r@ == self.spec_shown(id@),
    {
        let mut i: usize = self.deltas.len();
        assert(self.deltas@.subrange(0, i as int) =~= self.deltas@);
        while i > 0
            invariant
                i <= self.deltas@.len(),
                latest_value(self.deltas@, id@) == latest_value(self.deltas@.subrange(0, i as int), id@),
            decreases i,
        {
            let ghost prefix = self.deltas@.subrange(0, i as int);
            assert(prefix.drop_last() =~= self.deltas@.subrange(0, i - 1));
            if self.deltas[i - 1].id.same(id) {
                return self.deltas[i - 1].value.clone();
            }
            i = i - 1;
        }
        Value::Nothing
    }

    /// Text shown at the slot `Dynamic(id)`.
    pub fn shown_text(&self, id: &Id) -> (r: String)
        ensures
            r@ == self.spec_shown(id@).text(),
    {
        self.shown(id).to_text()
    }
}

/// After a delta is taken, its identifier shows the delta's value, and
/// every other identifier shows what it showed before.
pub proof fn lemma_delta_shown(before: Screen, after: Screen, delta: Delta, other: Seq<char>)
    requires
        after.spec_deltas() == before.spec_deltas().push(delta),
        other != delta.id@,
    ensures
        after.spec_shown(delta.id@) == delta.value@,
        after.spec_shown(other) == before.spec_shown(other),
{
    assert(after.spec_deltas().drop_last() =~= before.spec_deltas());
}

/// After a scene is taken, every identifier shows nothing until a delta on
/// it comes.
pub proof fn lemma_scene_shows_nothing(after: Screen, id: Seq<char>)
    requires
        after.spec_deltas().len() == 0,
    ensures
        after.spec_shown(id) == ValueView::Nothing,
{
}

} // verus!
