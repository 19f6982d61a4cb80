//! Pages: the free-form files of a publication.

use vstd::prelude::*;
use crate::context::{Context, Data, DataView, Job, JobView};
use crate::entity::Entity;
use crate::error::Failure;
use crate::names::PAGE_TEMPLATE;
use crate::path::{join, joined};
use crate::tree::{EntryView, Tree};

verus! {

/// One page, made from a file under the pages root.
#[derive(Debug)]
pub struct Page {
    /// The page as HTML.
    pub html: String,
    /// The path of the page's file, relative to the pages root.
    pub file_path: String,
}

/// The model of a [`Page`].
pub struct PageView {
    pub html: Seq<char>,
    pub file_path: Seq<char>,
}

impl DeepView for Page {
    type V = PageView;

    open spec fn deep_view(&self) -> PageView {
        PageView { html: self.html@, file_path: self.file_path@ }
    }
}

impl Clone for Page {
    fn clone(&self) -> (copy: Page)
        ensures
            copy.deep_view() == self.deep_view(),
    {
        Page { html: self.html.clone(), file_path: self.file_path.clone() }
    }
}

/// The segment of a page's output path: the page's relative file path
/// itself, so that two pages of different files never share a segment.
pub open spec fn slug_of(file_path: Seq<char>) -> Seq<char> {
    file_path
}

impl Page {
    /// The segment of the page's output path.
    pub fn slug(&self) -> (slug: String)
        ensures
            slug@ == slug_of(self.file_path@),
    {
        self.file_path.clone()
    }
}

impl Entity for Page {
    /// A page is filled by the publication that finds it: parsing it changes
    /// nothing and succeeds.
    open spec fn parsed(page: PageView, tree: Seq<EntryView>, source: Seq<char>) -> (
        PageView,
        Result<(), Failure>,
    ) {
        (page, Ok(()))
    }

    /// One job: the page template at the destination joined with the page's
    /// slug, with the page's HTML bound to `content`.
    open spec fn rendered(
        page: PageView,
        context: Map<Seq<char>, DataView>,
        dest: Seq<char>,
    ) -> Seq<JobView> {
        seq![
            JobView {
                template: PAGE_TEMPLATE@,
                context: context.insert("content"@, DataView::Text(page.html)),
                dest: joined(dest, slug_of(page.file_path)),
            },
        ]
    }

    fn parse(&mut self, tree: &Tree, source: &str) -> (r: Result<(), Failure>) {
        Ok(())
    }

    fn render(&self, context: Context, dest: &str) -> (jobs: Vec<Job>) {
        let mut context = context;
        context.insert("content", Data::Text(self.html.clone()));
        let slug = self.slug();
        let job = Job {
            template: PAGE_TEMPLATE.to_owned(),
            context,
            dest: join(dest, slug.as_str()),
        };
        let mut jobs: Vec<Job> = Vec::new();
        jobs.push(job);
        assert(jobs.deep_view() =~= seq![job.deep_view()]);
        jobs
    }
}

} // verus!
