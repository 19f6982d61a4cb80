//! Seasons: the issues of a publication.

use vstd::prelude::*;
use crate::article::{Article, ArticleView};
use crate::context::{Context, Data, DataView, Job, JobView};
use crate::entity::Entity;
use crate::error::Failure;
use crate::metadata::{declared, read_metadata};
use crate::names::{SEASON_TEMPLATE, ZINE_FILE};
use crate::path::{join, joined};
use crate::tree::{read_text, EntryView, Tree};

verus! {

/// One season of the publication.
#[derive(Debug)]
pub struct Season {
    /// The number by which the seasons of a publication are ordered.
    pub number: u32,
    /// The segment of the season's output path.
    pub slug: String,
    /// The season's directory, relative to the content root.
    pub path: String,
    /// The season's articles: those that its metadata file declares, once
    /// the season is parsed.
    pub articles: Vec<Article>,
}

/// The model of a [`Season`].
pub struct SeasonView {
    pub number: u32,
    pub slug: Seq<char>,
    pub path: Seq<char>,
    pub articles: Seq<ArticleView>,
}

impl DeepView for Season {
    type V = SeasonView;

    open spec fn deep_view(&self) -> SeasonView {
        SeasonView {
            number: self.number,
            slug: self.slug@,
            path: self.path@,
            articles: self.articles.deep_view(),
        }
    }
}

impl Clone for Season {
    fn clone(&self) -> (copy: Season)
        ensures
            copy.deep_view() == self.deep_view(),
    {
        let articles = self.articles.clone();
        assert(articles.deep_view() =~= self.articles.deep_view());
        Season {
            number: self.number,
            slug: self.slug.clone(),
            path: self.path.clone(),
            articles,
        }
    }
}

impl Entity for Season {
    /// The metadata file in the season's directory is read, and the articles
    /// that it declares take the place of the season's articles. They are
    /// then parsed in order, with the season's directory as their source.
    ///
    /// Where the metadata file cannot be read, or does not fit its schema,
    /// the season stays as it is. Where an article fails, the season holds
    /// the declared articles as far as they were parsed.
    open spec fn parsed(season: SeasonView, tree: Seq<EntryView>, source: Seq<char>) -> (
        SeasonView,
        Result<(), Failure>,
    ) {
        let dir = joined(source, season.path);
        match read_text(tree, joined(dir, ZINE_FILE@)) {
            Err(failure) => (season, Err(failure)),
            Ok(text) => match declared(text) {
                Err(flaw) => (season, Err(Failure::Metadata(flaw))),
                Ok(articles) => {
                    let (articles, r) = <Vec<Article> as Entity>::parsed(articles, tree, dir);
                    (
                        SeasonView {
                            number: season.number,
                            slug: season.slug,
                            path: season.path,
                            articles,
                        },
                        r,
                    )
                },
            },
        }
    }

    /// One job: the season template at the destination joined with the
    /// season's slug, with the season and its articles bound to `season`.
    open spec fn rendered(
        season: SeasonView,
        context: Map<Seq<char>, DataView>,
        dest: Seq<char>,
    ) -> Seq<JobView> {
        seq![
            JobView {
                template: SEASON_TEMPLATE@,
                context: context.insert("season"@, DataView::Season(season)),
                dest: joined(dest, season.slug),
            },
        ]
    }

    fn parse(&mut self, tree: &Tree, source: &str) -> (r: Result<(), Failure>) {
        let dir = join(source, self.path.as_str());
        let file = join(dir.as_str(), ZINE_FILE);
        let text = match tree.read(file.as_str()) {
            Err(failure) => { return Err(failure); },
            Ok(text) => text,
        };
        let articles = match read_metadata(text) {
            Err(flaw) => { return Err(Failure::Metadata(flaw)); },
            Ok(articles) => articles,
        };
        self.articles = articles;
        self.articles.parse(tree, dir.as_str())
    }

    fn render(&self, context: Context, dest: &str) -> (jobs: Vec<Job>) {
        let mut context = context;
        context.insert("season", Data::Season(self.clone()));
        let job = Job {
            template: SEASON_TEMPLATE.to_owned(),
            context,
            dest: join(dest, self.slug.as_str()),
        };
        let mut jobs: Vec<Job> = Vec::new();
        jobs.push(job);
        assert(jobs.deep_view() =~= seq![job.deep_view()]);
        jobs
    }
}

} // verus!
