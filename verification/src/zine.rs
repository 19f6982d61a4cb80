//! The publication: the root of the tree of content nodes.

use vstd::prelude::*;
use crate::context::{Context, Data, DataView, Job, JobView};
use crate::entity::{lemma_ok_is_unit, Entity};
use crate::error::{Failure, IoKind};
use crate::markdown::{markdown_html, to_html};
use crate::names::{INDEX_TEMPLATE, PAGES_DIR, PAGE_DEST};
use crate::order::{is_sorted, sort_by_number, sorted_by_number};
use crate::page::{Page, PageView};
use crate::path::{is_under, join, joined, remainder, strip_root};
use crate::season::{Season, SeasonView};
use crate::theme::{Theme, ThemeView};
use crate::tree::{found, EntryView, Node, NodeView, Tree};

verus! {

/// What the publication says of itself. The core carries it to the
/// templates and reads nothing in it.
#[derive(Debug)]
pub struct Site {
    pub name: String,
    pub title: String,
}

/// The model of a [`Site`].
pub struct SiteView {
    pub name: Seq<char>,
    pub title: Seq<char>,
}

impl DeepView for Site {
    type V = SiteView;

    open spec fn deep_view(&self) -> SiteView {
        SiteView { name: self.name@, title: self.title@ }
    }
}

impl Clone for Site {
    fn clone(&self) -> (copy: Site)
        ensures
            copy.deep_view() == self.deep_view(),
    {
        Site { name: self.name.clone(), title: self.title.clone() }
    }
}

/// The publication.
#[derive(Debug)]
pub struct Zine {
    pub theme: Theme,
    pub site: Site,
    /// The seasons: in ascending order of their numbers once the publication
    /// is parsed.
    pub seasons: Vec<Season>,
    /// The pages, in the order in which the content tree lists their files.
    pub pages: Vec<Page>,
}

/// The model of a [`Zine`].
pub struct ZineView {
    pub theme: ThemeView,
    pub site: SiteView,
    pub seasons: Seq<SeasonView>,
    pub pages: Seq<PageView>,
}

impl DeepView for Zine {
    type V = ZineView;

    open spec fn deep_view(&self) -> ZineView {
        ZineView {
            theme: self.theme.deep_view(),
            site: self.site.deep_view(),
            seasons: self.seasons.deep_view(),
            pages: self.pages.deep_view(),
        }
    }
}

/// The pages that the first `n` entries of the tree give, and whether the
/// walk got that far.
///
/// The entries are taken in the tree's order. One that does not lie under
/// the pages root, or is a directory, gives nothing. A file under the root
/// gives a page: its text as HTML, and its path relative to the root. An
/// entry under the root that could not be read ends the walk with its
/// failure; the pages found before it stay.
pub open spec fn discovered(tree: Seq<EntryView>, root: Seq<char>, n: nat) -> (
    Seq<PageView>,
    Result<(), Failure>,
)
    decreases n,
{
    if n == 0 {
        (Seq::empty(), Ok(()))
    } else {
        let (pages, r) = discovered(tree, root, (n - 1) as nat);
        let entry = tree[n - 1];
        if r is Err || !is_under(entry.path, root) {
            (pages, r)
        } else {
            match entry.node {
                NodeView::Dir => (pages, r),
                NodeView::Failed(kind) => (pages, Err(Failure::Io(kind))),
                NodeView::File(text) => (
                    pages.push(
                        PageView {
                            html: markdown_html(text),
                            file_path: remainder(entry.path, root),
                        },
                    ),
                    r,
                ),
            }
        }
    }
}

/// The pages that a walk of the pages root gives. A tree that does not list
/// the root has none, and the walk fails as a read of a missing path does.
pub open spec fn walked(tree: Seq<EntryView>, root: Seq<char>) -> (
    Seq<PageView>,
    Result<(), Failure>,
) {
    if found(tree, root) is None {
        (Seq::empty(), Err(Failure::Io(IoKind::NotFound)))
    } else {
        discovered(tree, root, tree.len())
    }
}

/// Once the walk has failed, it goes no further.
pub proof fn lemma_walk_stops(tree: Seq<EntryView>, root: Seq<char>, n: nat, m: nat)
    requires
        n <= m,
        discovered(tree, root, n).1 is Err,
    ensures
        discovered(tree, root, m) == discovered(tree, root, n),
    decreases m,
{
    if n < m {
        lemma_walk_stops(tree, root, n, (m - 1) as nat);
    }
}

/// Walks the pages root and adds the pages that it finds to `pages`.
pub fn discover(tree: &Tree, root: &str, pages: &mut Vec<Page>) -> (r: Result<(), Failure>)
    ensures
        final(pages).deep_view() == old(pages).deep_view() + walked(tree.deep_view(), root@).0,
        r == walked(tree.deep_view(), root@).1,
{
    let ghost before = pages.deep_view();
    if tree.find(root).is_none() {
        assert(pages.deep_view() =~= before + Seq::<PageView>::empty());
        return Err(Failure::Io(IoKind::NotFound));
    }
    let mut i: usize = 0;
    assert(pages.deep_view() =~= before + Seq::<PageView>::empty());
    while i < tree.entries.len()
        invariant
            i <= tree.entries.len(),
            before == old(pages).deep_view(),
            found(tree.deep_view(), root@) is Some,
            pages.deep_view() == before + discovered(tree.deep_view(), root@, i as nat).0,
            discovered(tree.deep_view(), root@, i as nat).1 is Ok,
        decreases tree.entries.len() - i,
    {
        let entry = &tree.entries[i];
        assert(tree.deep_view()[i as int] == entry.deep_view());
        let ghost so_far = discovered(tree.deep_view(), root@, i as nat).0;
        match &entry.node {
            Node::Dir => {},
            Node::Failed(kind) => {
                if strip_root(entry.path.as_str(), root).is_some() {
                    proof {
                        lemma_walk_stops(
                            tree.deep_view(),
                            root@,
                            (i + 1) as nat,
                            tree.deep_view().len(),
                        );
                    }
                    return Err(Failure::Io(*kind));
                }
            },
            Node::File(text) => {
                match strip_root(entry.path.as_str(), root) {
                    None => {},
                    Some(file_path) => {
                        let page = Page { html: to_html(text.as_str()), file_path };
                        let ghost held = pages.deep_view();
                        pages.push(page);
                        assert(pages.deep_view() =~= held.push(page.deep_view()));
                        assert(held.push(page.deep_view()) =~= before + so_far.push(
                            page.deep_view(),
                        ));
                    },
                }
            },
        }
        i += 1;
    }
    proof {
        lemma_ok_is_unit(discovered(tree.deep_view(), root@, i as nat).1);
    }
    Ok(())
}

impl Entity for Zine {
    /// The theme is parsed, then the seasons in their order, both against
    /// the source; then the seasons are sorted by number; then the pages
    /// root, `pages` under the source, is walked and its pages are added
    /// behind those that the publication holds.
    ///
    /// The first failure ends the parse, and the publication stays as the
    /// steps before it left it: a failure of the theme leaves the seasons
    /// unparsed, a failure of a season leaves the seasons unsorted and the
    /// pages as they were.
    open spec fn parsed(zine: ZineView, tree: Seq<EntryView>, source: Seq<char>) -> (
        ZineView,
        Result<(), Failure>,
    ) {
        let (theme, r) = Theme::parsed(zine.theme, tree, source);
        if r is Err {
            (ZineView { theme, site: zine.site, seasons: zine.seasons, pages: zine.pages }, r)
        } else {
            let (seasons, r) = <Vec<Season> as Entity>::parsed(zine.seasons, tree, source);
            if r is Err {
                (ZineView { theme, site: zine.site, seasons, pages: zine.pages }, r)
            } else {
                let (pages, r) = walked(tree, joined(source, PAGES_DIR@));
                (
                    ZineView {
                        theme,
                        site: zine.site,
                        seasons: sorted_by_number(seasons),
                        pages: zine.pages + pages,
                    },
                    r,
                )
            }
        }
    }

    /// The jobs of the seasons, at the destination; then those of the pages,
    /// at `page` under the destination; then the home page, at the
    /// destination. All see the theme as `theme` and the site as `site`; the
    /// home page also sees the seasons as `seasons`.
    open spec fn rendered(zine: ZineView, context: Map<Seq<char>, DataView>, dest: Seq<char>) -> Seq<
        JobView,
    > {
        let base = context.insert("theme"@, DataView::Theme(zine.theme)).insert(
            "site"@,
            DataView::Site(zine.site),
        );
        <Vec<Season> as Entity>::rendered(zine.seasons, base, dest) + <Vec<Page> as Entity>::rendered(
            zine.pages,
            base,
            joined(dest, PAGE_DEST@),
        ) + seq![
            JobView {
                template: INDEX_TEMPLATE@,
                context: base.insert("seasons"@, DataView::Seasons(zine.seasons)),
                dest,
            },
        ]
    }

    fn parse(&mut self, tree: &Tree, source: &str) -> (r: Result<(), Failure>)
        ensures
            r is Ok ==> is_sorted(final(self).seasons.deep_view()),
    {
        match self.theme.parse(tree, source) {
            Err(failure) => { return Err(failure); },
            Ok(()) => {},
        }
        match self.seasons.parse(tree, source) {
            Err(failure) => { return Err(failure); },
            Ok(()) => {},
        }
        sort_by_number(&mut self.seasons);
        let root = join(source, PAGES_DIR);
        discover(tree, root.as_str(), &mut self.pages)
    }

    fn render(&self, context: Context, dest: &str) -> (jobs: Vec<Job>) {
        let mut context = context;
        context.insert("theme", Data::Theme(self.theme.clone()));
        context.insert("site", Data::Site(self.site.clone()));
        let mut jobs = self.seasons.render(context.clone(), dest);
        let ghost of_seasons = jobs.deep_view();
        let page_dest = join(dest, PAGE_DEST);
        let mut more = self.pages.render(context.clone(), page_dest.as_str());
        let ghost of_pages = more.deep_view();
        jobs.append(&mut more);
        let seasons = self.seasons.clone();
        assert(seasons.deep_view() =~= self.seasons.deep_view());
        context.insert("seasons", Data::Seasons(seasons));
        let job = Job { template: INDEX_TEMPLATE.to_owned(), context, dest: dest.to_owned() };
        jobs.push(job);
        assert(jobs.deep_view() =~= of_seasons + of_pages + seq![job.deep_view()]);
        jobs
    }
}

impl Zine {
    /// Builds the publication: parses it, and where that succeeds renders
    /// it with an empty context. A publication that fails to parse is not
    /// rendered at all.
    pub fn build(&mut self, tree: &Tree, source: &str, dest: &str) -> (r: Result<Vec<Job>, Failure>)
        ensures
            final(self).deep_view() == Zine::parsed(
                old(self).deep_view(),
                tree.deep_view(),
                source@,
            ).0,
            match r {
                Ok(jobs) => {
                    &&& Zine::parsed(old(self).deep_view(), tree.deep_view(), source@).1 is Ok
                    &&& jobs.deep_view() == Zine::rendered(
                        final(self).deep_view(),
                        Map::empty(),
                        dest@,
                    )
                },
                Err(failure) => Zine::parsed(old(self).deep_view(), tree.deep_view(), source@).1
                    == Err::<(), Failure>(failure),
            },
    {
        match self.parse(tree, source) {
            Err(failure) => Err(failure),
            Ok(()) => Ok(self.render(Context::new(), dest)),
        }
    }
}

} // verus!
