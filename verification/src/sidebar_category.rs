//! A category entry of the library sidebar.
use vstd::prelude::*;
use crate::text::{copy_opt, opt_chars, str_equal};

verus! {

/// The properties of a sidebar category.
#[derive(Clone, Copy, Debug, PartialEq, Eq, Structural)]
pub enum SidebarCategoryProperty {
    Title,
    IconName,
    Filter,
}

impl SidebarCategoryProperty {
    /// The property's name.
    pub open spec fn spec_name(self) -> Seq<char> {
        match self {
            SidebarCategoryProperty::Title => "title"@,
            SidebarCategoryProperty::IconName => "icon-name"@,
            SidebarCategoryProperty::Filter => "filter"@,
        }
    }

    /// The property's name.
    pub fn name(&self) -> (res: &'static str)
        ensures
            res@ == self.spec_name(),
    {
        match self {
            SidebarCategoryProperty::Title => "title",
            SidebarCategoryProperty::IconName => "icon-name",
            SidebarCategoryProperty::Filter => "filter",
        }
    }

    /// The property that has the given name, if any.
    pub fn from_name(name: &str) -> (res: Option<SidebarCategoryProperty>)
        ensures
            match res {
                Some(p) => p.spec_name() == name@,
                None => forall|p: SidebarCategoryProperty| p.spec_name() != name@,
            },
    {
        if str_equal(name, "title") {
            Some(SidebarCategoryProperty::Title)
        } else if str_equal(name, "icon-name") {
            Some(SidebarCategoryProperty::IconName)
        } else if str_equal(name, "filter") {
            Some(SidebarCategoryProperty::Filter)
        } else {
            proof {
                assert forall|p: SidebarCategoryProperty| p.spec_name() != name@ by {
                    match p {
                        SidebarCategoryProperty::Title => {},
                        SidebarCategoryProperty::IconName => {},
                        SidebarCategoryProperty::Filter => {},
                    }
                }
            }
            None
        }
    }
}

/// No two properties of a sidebar category share a name.
pub proof fn lemma_sidebar_category_property_names(
    p: SidebarCategoryProperty,
    q: SidebarCategoryProperty,
)
    ensures
        p.spec_name() == q.spec_name() ==> p == q,
{
    reveal_strlit("title");
    reveal_strlit("icon-name");
    reveal_strlit("filter");
    if p != q && p.spec_name() == q.spec_name() {
        assert(p.spec_name()[0] != q.spec_name()[0]);
    }
}

/// A category of the library sidebar: its title, icon and filter, and the
/// sidebar it belongs to once that is set.
pub struct EpicSidebarCategory<S> {
    sidebar: Option<S>,
    title: Option<String>,
    icon_name: Option<String>,
    filter: Option<String>,
}

/// What a sidebar category holds.
pub struct SidebarCategoryView<S> {
    pub sidebar: Option<S>,
    pub title: Option<Seq<char>>,
    pub icon_name: Option<Seq<char>>,
    pub filter: Option<Seq<char>>,
}

impl<S> SidebarCategoryView<S> {
    /// The value of a property.
    pub open spec fn get(self, p: SidebarCategoryProperty) -> Option<Seq<char>> {
        match p {
            SidebarCategoryProperty::Title => self.title,
            SidebarCategoryProperty::IconName => self.icon_name,
            SidebarCategoryProperty::Filter => self.filter,
        }
    }

    /// The same category with one property set to `v`.
    pub open spec fn with(self, p: SidebarCategoryProperty, v: Option<Seq<char>>) -> Self {
        match p {
            SidebarCategoryProperty::Title => Self { title: v, ..self },
            SidebarCategoryProperty::IconName => Self { icon_name: v, ..self },
            SidebarCategoryProperty::Filter => Self { filter: v, ..self },
        }
    }

    /// The category after its sidebar is set to `s`: only the first
    /// sidebar set is kept.
    pub open spec fn setting_sidebar(self, s: S) -> Self {
        if self.sidebar is Some {
            self
        } else {
            Self { sidebar: Some(s), ..self }
        }
    }
}

impl<S> View for EpicSidebarCategory<S> {
    type V = SidebarCategoryView<S>;

    closed spec fn view(&self) -> SidebarCategoryView<S> {
        SidebarCategoryView {
            sidebar: self.sidebar,
            title: opt_chars(self.title),
            icon_name: opt_chars(self.icon_name),
            filter: opt_chars(self.filter),
        }
    }
}

impl<S> EpicSidebarCategory<S> {
    /// A category with no sidebar and no property set.
    pub fn new() -> (res: EpicSidebarCategory<S>)
        ensures
            res@.sidebar is None,
            res@.title is None,
            res@.icon_name is None,
            res@.filter is None,
    {
        EpicSidebarCategory { sidebar: None, title: None, icon_name: None, filter: None }
    }

    /// Sets the sidebar the category belongs to; a category keeps the first
    /// sidebar set.
    pub fn set_sidebar(&mut self, sidebar: S)
        ensures
            final(self)@ == old(self)@.setting_sidebar(sidebar),
    {
        if self.sidebar.is_some() {
            return ;
        }
        self.sidebar = Some(sidebar);
    }

    /// The sidebar the category belongs to.
    pub fn sidebar(&self) -> (res: Option<&S>)
        ensures
            match res {
                Some(s) => self@.sidebar == Some(*s),
                None => self@.sidebar is None,
            },
    {
        match &self.sidebar {
            Some(s) => Some(s),
            None => None,
        }
    }

    /// Sets a property.
    pub fn set_property(&mut self, property: SidebarCategoryProperty, value: Option<String>)
        ensures
            final(self)@ == old(self)@.with(property, opt_chars(value)),
    {
        match property {
            SidebarCategoryProperty::Title => {
                self.title = value;
            },
            SidebarCategoryProperty::IconName => {
                self.icon_name = value;
            },
            SidebarCategoryProperty::Filter => {
                self.filter = value;
            },
        }
    }

    /// The value of a property.
    pub fn property(&self, property: SidebarCategoryProperty) -> (res: Option<String>)
        ensures
            opt_chars(res) == self@.get(property),
    {
        match property {
            SidebarCategoryProperty::Title => copy_opt(&self.title),
            SidebarCategoryProperty::IconName => copy_opt(&self.icon_name),
            SidebarCategoryProperty::Filter => copy_opt(&self.filter),
        }
    }
}

/// Setting the sidebar twice keeps the first one.
pub proof fn lemma_first_sidebar_kept<S>(c: SidebarCategoryView<S>, first: S, second: S)
    requires
        c.sidebar is None,
    ensures
        c.setting_sidebar(first).setting_sidebar(second).sidebar == Some(first),
{
}

/// What a write of a property gives back on a read: the value written, and
/// every other property as it was.
pub proof fn lemma_sidebar_category_read_after_write<S>(
    c: SidebarCategoryView<S>,
    p: SidebarCategoryProperty,
    q: SidebarCategoryProperty,
    v: Option<Seq<char>>,
)
    ensures
        c.with(p, v).get(p) == v,
        p != q ==> c.with(p, v).get(q) == c.get(q),
{
}

} // verus!
