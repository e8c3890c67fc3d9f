use vstd::prelude::*;
use crate::ident::Id;
use crate::value::Value;

verus! {

/// Bottom strip of a page: a copyright line and a menu.
#[derive(Debug, PartialEq, Eq, PartialOrd)]
pub struct Footer {
    pub copyright: Value,
    pub menu: Menu,
}

#[derive(Debug, PartialEq, Eq, PartialOrd)]
pub struct Menu {
    pub items: Vec<MenuItem>,
}

#[derive(Debug, PartialEq, Eq, PartialOrd)]
pub struct MenuItem {
    pub caption: Value,
}

/// Like `Layout`, but with a physical appearance.
#[derive(Debug, PartialEq, Eq, PartialOrd)]
pub enum Container {
    Blank,
    Tabs(Vec<Tab>),
    Panel(Panel),
}

#[derive(Debug, PartialEq, Eq, PartialOrd)]
pub struct Panel {
    pub title: Option<Value>,
    pub body: Layout,
}

#[derive(Debug, PartialEq, Eq, PartialOrd)]
pub struct Tab {
    pub title: Value,
    pub body: Layout,
}

/// Like `Container`, but without a physical appearance: only what nests
/// inside what. Rows and columns keep their order.
#[derive(Debug, PartialEq, Eq, PartialOrd)]
pub enum Layout {
    Blank,
    Welcome,
    Bind(Bind),
    Control(Control),
    Row(Vec<Layout>),
    Column(Vec<Layout>),
    List(List),
    Container(Box<Container>),
}

#[derive(Debug, PartialEq, Eq, PartialOrd)]
pub struct List {
    pub items: Vec<ListItem>,
}

#[derive(Debug, PartialEq, Eq, PartialOrd)]
pub struct ListItem {
    pub title: Value,
    pub description: Value,
    pub bind: Bind,
}

/// Where a displayed value comes from: a slot that deltas on the identifier
/// update, or a literal that never changes.
#[derive(Debug, PartialEq, Eq, PartialOrd)]
pub enum Bind {
    Dynamic(Id),
    Fixed(Value),
}

/// Interactive element; its identifier is the target of the actions it
/// raises.
#[derive(Debug, PartialEq, Eq, PartialOrd)]
pub enum Control {
    Button(Id),
}

impl From<Bind> for Layout {
    fn from(bind: Bind) -> (r: Layout) {
        Layout::Bind(bind)
    }
}

impl vstd::std_specs::convert::FromSpecImpl<Bind> for Layout {
    open spec fn obeys_from_spec() -> bool {
        true
    }

    open spec fn from_spec(bind: Bind) -> Layout {
        Layout::Bind(bind)
    }
}

impl From<Control> for Layout {
    fn from(control: Control) -> (r: Layout) {
        Layout::Control(control)
    }
}

impl vstd::std_specs::convert::FromSpecImpl<Control> for Layout {
    open spec fn obeys_from_spec() -> bool {
        true
    }

    open spec fn from_spec(control: Control) -> Layout {
        Layout::Control(control)
    }
}

impl From<Container> for Layout {
    fn from(container: Container) -> (r: Layout) {
        Layout::Container(Box::new(container))
    }
}

impl vstd::std_specs::convert::FromSpecImpl<Container> for Layout {
    open spec fn obeys_from_spec() -> bool {
        true
    }

    open spec fn from_spec(container: Container) -> Layout {
        Layout::Container(Box::new(container))
    }
}

/// Converting a bind, a control or a container into a layout keeps the
/// payload as it is and only wraps it in the matching variant.
pub proof fn lemma_layout_from(bind: Bind, control: Control, container: Container)
    ensures
        <Layout as vstd::std_specs::convert::FromSpec<Bind>>::from_spec(bind) == Layout::Bind(bind),
        <Layout as vstd::std_specs::convert::FromSpec<Control>>::from_spec(control)
            == Layout::Control(control),
        <Layout as vstd::std_specs::convert::FromSpec<Container>>::from_spec(container)
            == Layout::Container(Box::new(container)),
{
}

/// Two optional values that are both absent, or both present with equal
/// views.
pub open spec fn same_title(a: Option<Value>, b: Option<Value>) -> bool {
    match (a, b) {
        (None, None) => true,
        (Some(x), Some(y)) => x@ == y@,
        _ => false,
    }
}

impl MenuItem {
    /// Equal captions.
    pub open spec fn same(&self, other: &MenuItem) -> bool {
        self.caption@ == other.caption@
    }
}

impl Menu {
    /// Item by item the same, in the same order.
    pub open spec fn same(&self, other: &Menu) -> bool {
        &&& self.items.len() == other.items.len()
        &&& forall|i: int| 0 <= i < self.items.len() ==> (#[trigger] self.items[i]).same(&other.items[i])
    }
}

impl Footer {
    pub open spec fn same(&self, other: &Footer) -> bool {
        self.copyright@ == other.copyright@ && self.menu.same(&other.menu)
    }
}

impl Bind {
    /// The same slot, or literals with equal views.
    pub open spec fn same(&self, other: &Bind) -> bool {
        match (self, other) {
            (Bind::Dynamic(a), Bind::Dynamic(b)) => a == b,
            (Bind::Fixed(a), Bind::Fixed(b)) => a@ == b@,
            _ => false,
        }
    }
}

impl ListItem {
    pub open spec fn same(&self, other: &ListItem) -> bool {
        &&& self.title@ == other.title@
        &&& self.description@ == other.description@
        &&& self.bind.same(&other.bind)
    }
}

impl List {
    /// Item by item the same, in the same order.
    pub open spec fn same(&self, other: &List) -> bool {
        &&& self.items.len() == other.items.len()
        &&& forall|i: int| 0 <= i < self.items.len() ==> (#[trigger] self.items[i]).same(&other.items[i])
    }
}

impl Layout {
    /// The same tree: same variants at the same places, identifiers equal
    /// and values with equal views.
    pub open spec fn same(&self, other: &Layout) -> bool
        decreases self,
    {
        match (self, other) {
            (Layout::Blank, Layout::Blank) => true,
            (Layout::Welcome, Layout::Welcome) => true,
            (Layout::Bind(a), Layout::Bind(b)) => a.same(b),
            (Layout::Control(a), Layout::Control(b)) => a == b,
            (Layout::Row(a), Layout::Row(b)) => a.len() == b.len() && forall|i: int|
                0 <= i < a.len() ==> (#[trigger] a[i]).same(&b[i]),
            (Layout::Column(a), Layout::Column(b)) => a.len() == b.len() && forall|i: int|
                0 <= i < a.len() ==> (#[trigger] a[i]).same(&b[i]),
            (Layout::List(a), Layout::List(b)) => a.same(b),
            (Layout::Container(a), Layout::Container(b)) => a.same(b),
            _ => false,
        }
    }
}

impl Container {
    /// The same container: same variant, tabs and panel the same.
    pub open spec fn same(&self, other: &Container) -> bool
        decreases self,
    {
        match (self, other) {
            (Container::Blank, Container::Blank) => true,
            (Container::Tabs(a), Container::Tabs(b)) => a.len() == b.len() && forall|i: int|
                0 <= i < a.len() ==> (#[trigger] a[i]).title@ == b[i].title@ && a[i].body.same(
                    &b[i].body,
                ),
            (Container::Panel(a), Container::Panel(b)) => same_title(a.title, b.title)
                && a.body.same(&b.body),
            _ => false,
        }
    }
}

impl Tab {
    pub open spec fn same(&self, other: &Tab) -> bool {
        self.title@ == other.title@ && self.body.same(&other.body)
    }
}

impl Panel {
    pub open spec fn same(&self, other: &Panel) -> bool {
        same_title(self.title, other.title) && self.body.same(&other.body)
    }
}

fn clone_title(title: &Option<Value>) -> (r: Option<Value>)
    ensures
        same_title(r, *title),
{
    match title {
        Some(v) => Some(v.clone()),
        None => None,
    }
}

impl Clone for MenuItem {
    fn clone(&self) -> (r: MenuItem)
        ensures
            r.same(self),
    {
        MenuItem { caption: self.caption.clone() }
    }
}

impl Clone for Menu {
    fn clone(&self) -> (r: Menu)
        ensures
            r.same(self),
    {
        let mut items: Vec<MenuItem> = Vec::new();
        let mut i: usize = 0;
        while i < self.items.len()
            invariant
                i <= self.items.len(),
                items.len() == i,
                forall|j: int| 0 <= j < i ==> (#[trigger] items[j]).same(&self.items[j]),
            decreases self.items.len() - i,
        {
            items.push(self.items[i].clone());
            i = i + 1;
        }
        Menu { items }
    }
}

impl Clone for Footer {
    fn clone(&self) -> (r: Footer)
        ensures
            r.same(self),
    {
        Footer { copyright: self.copyright.clone(), menu: self.menu.clone() }
    }
}

impl Clone for Control {
    fn clone(&self) -> (r: Control)
        ensures
            r == *self,
    {
        match self {
            Control::Button(id) => Control::Button(id.clone()),
        }
    }
}

impl Clone for Bind {
    fn clone(&self) -> (r: Bind)
        ensures
            r.same(self),
    {
        match self {
            Bind::Dynamic(id) => Bind::Dynamic(id.clone()),
            Bind::Fixed(v) => Bind::Fixed(v.clone()),
        }
    }
}

impl Clone for ListItem {
    fn clone(&self) -> (r: ListItem)
        ensures
            r.same(self),
    {
        ListItem {
            title: self.title.clone(),
            description: self.description.clone(),
            bind: self.bind.clone(),
        }
    }
}

impl Clone for List {
    fn clone(&self) -> (r: List)
        ensures
            r.same(self),
    {
        let mut items: Vec<ListItem> = Vec::new();
        let mut i: usize = 0;
        while i < self.items.len()
            invariant
                i <= self.items.len(),
                items.len() == i,
                forall|j: int| 0 <= j < i ==> (#[trigger] items[j]).same(&self.items[j]),
            decreases self.items.len() - i,
        {
            items.push(self.items[i].clone());
            i = i + 1;
        }
        List { items }
    }
}

impl Clone for Layout {
    fn clone(&self) -> (r: Layout)
        ensures
            r.same(self),
        decreases self,
    {
        match self {
            Layout::Blank => Layout::Blank,
            Layout::Welcome => Layout::Welcome,
            Layout::Bind(bind) => Layout::Bind(bind.clone()),
            Layout::Control(control) => Layout::Control(control.clone()),
            Layout::Row(items) => Layout::Row(clone_layouts(items)),
            Layout::Column(items) => Layout::Column(clone_layouts(items)),
            Layout::List(list) => Layout::List(list.clone()),
            Layout::Container(container) => {
                Layout::Container(Box::new(Container::clone(container)))
            },
        }
    }
}

fn clone_layouts(items: &Vec<Layout>) -> (r: Vec<Layout>)
    ensures
        r.len() == items.len(),
        forall|j: int| 0 <= j < items.len() ==> (#[trigger] r[j]).same(&items[j]),
    decreases items,
{
    let mut r: Vec<Layout> = Vec::new();
    let mut i: usize = 0;
    while i < items.len()
        invariant
            i <= items.len(),
            r.len() == i,
            forall|j: int| 0 <= j < i ==> (#[trigger] r[j]).same(&items[j]),
        decreases items.len() - i,
    {
        proof {
            assert(decreases_to!(items => items[i as int]));
        }
        r.push(items[i].clone());
        i = i + 1;
    }
    r
}

impl Clone for Container {
    #[verifier::loop_isolation(false)]
    fn clone(&self) -> (r: Container)
        ensures
            r.same(self),
        decreases self,
    {
        match self {
            Container::Blank => Container::Blank,
            Container::Tabs(tabs) => {
                let mut r: Vec<Tab> = Vec::new();
                let mut i: usize = 0;
                while i < tabs.len()
                    invariant
                        i <= tabs.len(),
                        r.len() == i,
                        forall|j: int| 0 <= j < i ==> (#[trigger] r[j]).same(&tabs[j]),
                    decreases tabs.len() - i,
                {
                    proof {
                        assert(decreases_to!(tabs => tabs[i as int]));
                    }
                    r.push(Tab { title: tabs[i].title.clone(), body: tabs[i].body.clone() });
                    i = i + 1;
                }
                Container::Tabs(r)
            },
            Container::Panel(panel) => Container::Panel(
                Panel { title: clone_title(&panel.title), body: panel.body.clone() },
            ),
        }
    }
}

impl Clone for Panel {
    fn clone(&self) -> (r: Panel)
        ensures
            r.same(self),
    {
        Panel { title: clone_title(&self.title), body: self.body.clone() }
    }
}

impl Clone for Tab {
    fn clone(&self) -> (r: Tab)
        ensures
            r.same(self),
    {
        Tab { title: self.title.clone(), body: self.body.clone() }
    }
}

} // verus!
