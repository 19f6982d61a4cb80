//! Articles: the leaves of a season.

use vstd::prelude::*;
use crate::context::{Context, Data, DataView, Job, JobView};
use crate::entity::Entity;
use crate::error::Failure;
use crate::markdown::{markdown_html, to_html};
use crate::names::ARTICLE_TEMPLATE;
use crate::path::{join, joined};
use crate::tree::{read_text, EntryView, Tree};

verus! {

/// One article of a season.
#[derive(Debug)]
pub struct Article {
    /// The Markdown file, relative to the season's directory.
    pub file: String,
    /// The title that the season's metadata declares, if any.
    pub title: Option<String>,
    /// The article as HTML: empty until the article is parsed.
    pub html: String,
}

/// The model of an [`Article`].
pub struct ArticleView {
    pub file: Seq<char>,
    pub title: Option<Seq<char>>,
    pub html: Seq<char>,
}

impl DeepView for Article {
    type V = ArticleView;

    open spec fn deep_view(&self) -> ArticleView {
        ArticleView {
            file: self.file@,
            title: match self.title {
                Some(title) => Some(title@),
                None => None,
            },
            html: self.html@,
        }
    }
}

impl Clone for Article {
    fn clone(&self) -> (copy: Article)
        ensures
            copy.deep_view() == self.deep_view(),
    {
        Article {
            file: self.file.clone(),
            title: match &self.title {
                Some(title) => Some(title.clone()),
                None => None,
            },
            html: self.html.clone(),
        }
    }
}

impl Entity for Article {
    /// The article's file is read, relative to the source, and its text
    /// becomes the article's HTML. Where the file cannot be read the article
    /// stays as it is.
    open spec fn parsed(article: ArticleView, tree: Seq<EntryView>, source: Seq<char>) -> (
        ArticleView,
        Result<(), Failure>,
    ) {
        match read_text(tree, joined(source, article.file)) {
            Ok(text) => (
                ArticleView {
                    file: article.file,
                    title: article.title,
                    html: markdown_html(text),
                },
                Ok(()),
            ),
            Err(failure) => (article, Err(failure)),
        }
    }

    /// One job: the article template at the destination, with the article
    /// bound to `article`.
    open spec fn rendered(
        article: ArticleView,
        context: Map<Seq<char>, DataView>,
        dest: Seq<char>,
    ) -> Seq<JobView> {
        seq![
            JobView {
                template: ARTICLE_TEMPLATE@,
                context: context.insert("article"@, DataView::Article(article)),
                dest,
            },
        ]
    }

    fn parse(&mut self, tree: &Tree, source: &str) -> (r: Result<(), Failure>) {
        let file = join(source, self.file.as_str());
        match tree.read(file.as_str()) {
            Err(failure) => Err(failure),
            Ok(text) => {
                self.html = to_html(text);
                Ok(())
            },
        }
    }

    fn render(&self, context: Context, dest: &str) -> (jobs: Vec<Job>) {
        let mut context = context;
        context.insert("article", Data::Article(self.clone()));
        let job = Job { template: ARTICLE_TEMPLATE.to_owned(), context, dest: dest.to_owned() };
        let mut jobs: Vec<Job> = Vec::new();
        jobs.push(job);
        assert(jobs.deep_view() =~= seq![job.deep_view()]);
        jobs
    }
}

} // verus!
