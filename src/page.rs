use vstd::prelude::*;
use crate::layout::Layout;
use crate::value::Value;

verus! {

/// Structured page content: a title, a subtitle and a body.
#[derive(Debug, PartialEq, Eq, PartialOrd)]
pub struct Page {
    pub title: Value,
    pub subtitle: Value,
    pub body: Layout,
}

/// State of the widget that shows a page, or a spinner while there is none.
#[derive(Debug)]
pub struct Model {
    page: Option<Page>,
}

/// What the page widget is handed by its parent.
#[derive(Debug, Default, PartialEq)]
pub struct Props {
    pub page: Option<Page>,
}

impl Model {
    pub closed spec fn spec_page(&self) -> Option<Page> {
        self.page
    }

    /// Takes the page from new properties.
    pub fn recompose(&mut self, props: Props)
        ensures
            final(self).spec_page() == props.page,
    {
        self.page = props.page;
    }

    /// What to show: the page, or `None` for a spinner.
    pub fn main_view(&self) -> (r: Option<&Page>)
        ensures
            r matches Some(p) ==> self.spec_page() == Some(*p),
            r is None <==> self.spec_page() is None,
    {
        self.page.as_ref()
    }
}

impl Default for Model {
    fn default() -> (r: Model)
        ensures
            r.spec_page() is None,
    {
        Model { page: None }
    }
}

impl Page {
    /// Title and subtitle with equal views, and the same body.
    pub open spec fn same(&self, other: &Page) -> bool {
        &&& self.title@ == other.title@
        &&& self.subtitle@ == other.subtitle@
        &&& self.body.same(&other.body)
    }
}

impl Clone for Page {
    fn clone(&self) -> (r: Page)
        ensures
            r.same(self),
    {
        Page { title: self.title.clone(), subtitle: self.subtitle.clone(), body: self.body.clone() }
    }
}

impl Props {
    /// Both without a page, or both with the same page.
    pub open spec fn same(&self, other: &Props) -> bool {
        match (self.page, other.page) {
            (None, None) => true,
            (Some(a), Some(b)) => a.same(&b),
            _ => false,
        }
    }
}

impl Clone for Props {
    fn clone(&self) -> (r: Props)
        ensures
            r.same(self),
    {
        match &self.page {
            Some(page) => Props { page: Some(page.clone()) },
            None => Props { page: None },
        }
    }
}

} // verus!
