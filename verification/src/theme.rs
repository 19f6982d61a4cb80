//! The theme of a publication.

use vstd::prelude::*;
use crate::context::{Context, DataView, Job, JobView};
use crate::entity::Entity;
use crate::error::Failure;
use crate::path::{join, joined};
use crate::tree::{read_text, EntryView, Tree};

verus! {

/// How the publication looks.
#[derive(Debug)]
pub struct Theme {
    pub primary_color: String,
    pub background_color: String,
    /// Before the theme is parsed: the path of the footer template, relative
    /// to the content root. After: the text of that file.
    pub footer_template: Option<String>,
}

/// The model of a [`Theme`].
pub struct ThemeView {
    pub primary_color: Seq<char>,
    pub background_color: Seq<char>,
    pub footer_template: Option<Seq<char>>,
}

impl DeepView for Theme {
    type V = ThemeView;

    open spec fn deep_view(&self) -> ThemeView {
        ThemeView {
            primary_color: self.primary_color@,
            background_color: self.background_color@,
            footer_template: match self.footer_template {
                Some(footer) => Some(footer@),
                None => None,
            },
        }
    }
}

impl Clone for Theme {
    fn clone(&self) -> (copy: Theme)
        ensures
            copy.deep_view() == self.deep_view(),
    {
        Theme {
            primary_color: self.primary_color.clone(),
            background_color: self.background_color.clone(),
            footer_template: match &self.footer_template {
                Some(footer) => Some(footer.clone()),
                None => None,
            },
        }
    }
}

impl Entity for Theme {
    /// Where the theme names a footer template, the file of that name is
    /// read, relative to the source, and its text takes the name's place,
    /// unchanged. Where the file cannot be read the theme stays as it is. A
    /// theme without a footer template stays as it is, and succeeds.
    open spec fn parsed(theme: ThemeView, tree: Seq<EntryView>, source: Seq<char>) -> (
        ThemeView,
        Result<(), Failure>,
    ) {
        match theme.footer_template {
            None => (theme, Ok(())),
            Some(footer) => match read_text(tree, joined(source, footer)) {
                Ok(text) => (
                    ThemeView {
                        primary_color: theme.primary_color,
                        background_color: theme.background_color,
                        footer_template: Some(text),
                    },
                    Ok(()),
                ),
                Err(failure) => (theme, Err(failure)),
            },
        }
    }

    /// A theme has no page of its own.
    open spec fn rendered(
        theme: ThemeView,
        context: Map<Seq<char>, DataView>,
        dest: Seq<char>,
    ) -> Seq<JobView> {
        Seq::empty()
    }

    fn parse(&mut self, tree: &Tree, source: &str) -> (r: Result<(), Failure>) {
        let text = match &self.footer_template {
            None => { return Ok(()); },
            Some(footer) => {
                let file = join(source, footer.as_str());
                match tree.read(file.as_str()) {
                    Err(failure) => { return Err(failure); },
                    Ok(text) => text.to_owned(),
                }
            },
        };
        self.footer_template = Some(text);
        Ok(())
    }

    fn render(&self, context: Context, dest: &str) -> (jobs: Vec<Job>) {
        let jobs: Vec<Job> = Vec::new();
        assert(jobs.deep_view() =~= Seq::<JobView>::empty());
        jobs
    }
}

} // verus!
