//! What rendering hands to the templates.
//!
//! A context binds names to values. Rendering never writes: it returns jobs,
//! each of which names a template, the context to fill it with and the
//! directory that the result goes to.

use vstd::prelude::*;
use crate::article::{Article, ArticleView};
use crate::season::{Season, SeasonView};
use crate::theme::{Theme, ThemeView};
use crate::zine::{Site, SiteView};

verus! {

/// A value that a context binds a name to.
#[derive(Debug)]
pub enum Data {
    Theme(Theme),
    Site(Site),
    Seasons(Vec<Season>),
    Season(Season),
    Article(Article),
    Text(String),
}

/// The model of a [`Data`].
pub enum DataView {
    Theme(ThemeView),
    Site(SiteView),
    Seasons(Seq<SeasonView>),
    Season(SeasonView),
    Article(ArticleView),
    Text(Seq<char>),
}

impl DeepView for Data {
    type V = DataView;

    open spec fn deep_view(&self) -> DataView {
        match self {
            Data::Theme(theme) => DataView::Theme(theme.deep_view()),
            Data::Site(site) => DataView::Site(site.deep_view()),
            Data::Seasons(seasons) => DataView::Seasons(seasons.deep_view()),
            Data::Season(season) => DataView::Season(season.deep_view()),
            Data::Article(article) => DataView::Article(article.deep_view()),
            Data::Text(text) => DataView::Text(text@),
        }
    }
}

impl Clone for Data {
    fn clone(&self) -> (copy: Data)
        ensures
            copy.deep_view() == self.deep_view(),
    {
        match self {
            Data::Theme(theme) => Data::Theme(theme.clone()),
            Data::Site(site) => Data::Site(site.clone()),
            Data::Seasons(seasons) => {
                let copy = seasons.clone();
                assert(copy.deep_view() =~= seasons.deep_view());
                Data::Seasons(copy)
            },
            Data::Season(season) => Data::Season(season.clone()),
            Data::Article(article) => Data::Article(article.clone()),
            Data::Text(text) => Data::Text(text.clone()),
        }
    }
}

/// One name and the value bound to it.
#[derive(Debug)]
pub struct Binding {
    pub name: String,
    pub value: Data,
}

/// The model of a [`Binding`].
pub struct BindingView {
    pub name: Seq<char>,
    pub value: DataView,
}

impl DeepView for Binding {
    type V = BindingView;

    open spec fn deep_view(&self) -> BindingView {
        BindingView { name: self.name@, value: self.value.deep_view() }
    }
}

impl Clone for Binding {
    fn clone(&self) -> (copy: Binding)
        ensures
            copy.deep_view() == self.deep_view(),
    {
        Binding { name: self.name.clone(), value: self.value.clone() }
    }
}

/// The map that a list of bindings stands for: each name with the value
/// that was bound to it last.
pub open spec fn bound(bindings: Seq<BindingView>) -> Map<Seq<char>, DataView>
    decreases bindings.len(),
{
    if bindings.len() == 0 {
        Map::empty()
    } else {
        bound(bindings.drop_last()).insert(bindings.last().name, bindings.last().value)
    }
}

/// The names and values that a template sees.
#[derive(Debug)]
pub struct Context {
    /// The bindings in the order in which they were made. Where a name was
    /// bound more than once, the last binding counts.
    pub bindings: Vec<Binding>,
}

impl DeepView for Context {
    type V = Map<Seq<char>, DataView>;

    open spec fn deep_view(&self) -> Map<Seq<char>, DataView> {
        bound(self.bindings.deep_view())
    }
}

impl Clone for Context {
    fn clone(&self) -> (copy: Context)
        ensures
            copy.deep_view() == self.deep_view(),
    {
        let bindings = self.bindings.clone();
        assert(bindings.deep_view() =~= self.bindings.deep_view());
        Context { bindings }
    }
}

impl Context {
    /// A context that binds no name.
    pub fn new() -> (context: Context)
        ensures
            context.deep_view() == Map::<Seq<char>, DataView>::empty(),
    {
        let context = Context { bindings: Vec::new() };
        assert(context.bindings.deep_view() =~= Seq::<BindingView>::empty());
        context
    }

    /// Binds `name` to `value`, in place of what it was bound to.
    pub fn insert(&mut self, name: &str, value: Data)
        ensures
            final(self).deep_view() == old(self).deep_view().insert(name@, value.deep_view()),
    {
        let ghost before = self.bindings.deep_view();
        let ghost binding = BindingView { name: name@, value: value.deep_view() };
        self.bindings.push(Binding { name: name.to_owned(), value });
        assert(self.bindings.deep_view() =~= before.push(binding));
        assert(before.push(binding).drop_last() =~= before);
    }

    /// The value that `name` is bound to, if it is bound.
    pub fn get(&self, name: &str) -> (value: Option<&Data>)
        ensures
            value is Some <==> self.deep_view().dom().contains(name@),
            value matches Some(v) ==> self.deep_view()[name@] == v.deep_view(),
    {
        let target = name.to_owned();
        let ghost all = self.bindings.deep_view();
        let mut i: usize = self.bindings.len();
        assert(all.take(i as int) =~= all);
        while i > 0
            invariant
                i <= self.bindings.len(),
                target@ == name@,
                all == self.bindings.deep_view(),
                bound(all).dom().contains(name@) <==> bound(all.take(i as int)).dom().contains(
                    name@,
                ),
                bound(all).dom().contains(name@) ==> bound(all)[name@] == bound(
                    all.take(i as int),
                )[name@],
            decreases i,
        {
            i -= 1;
            assert(all.take(i + 1).drop_last() =~= all.take(i as int));
            assert(all.take(i + 1).last() == self.bindings[i as int].deep_view());
            if self.bindings[i].name == target {
                return Some(&self.bindings[i].value);
            }
        }
        assert(all.take(0) =~= Seq::<BindingView>::empty());
        None
    }
}

/// One invocation of the render sink.
#[derive(Debug)]
pub struct Job {
    /// The name of the template.
    pub template: String,
    /// What the template sees.
    pub context: Context,
    /// The directory that the rendered page goes to.
    pub dest: String,
}

/// The model of a [`Job`].
pub struct JobView {
    pub template: Seq<char>,
    pub context: Map<Seq<char>, DataView>,
    pub dest: Seq<char>,
}

impl DeepView for Job {
    type V = JobView;

    open spec fn deep_view(&self) -> JobView {
        JobView {
            template: self.template@,
            context: self.context.deep_view(),
            dest: self.dest@,
        }
    }
}

} // verus!
