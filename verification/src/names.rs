//! The fixed names: of the metadata file, of the directories and of the
//! templates.

use vstd::prelude::*;

verus! {

/// The name of the metadata file in a season's directory.
pub const ZINE_FILE: &'static str = "zine.toml";

/// The directory of the content root that holds the pages.
pub const PAGES_DIR: &'static str = "pages";

/// The directory of the destination that the pages go to.
pub const PAGE_DEST: &'static str = "page";

/// The template of the home page.
pub const INDEX_TEMPLATE: &'static str = "index.jinja";

/// The template of a season.
pub const SEASON_TEMPLATE: &'static str = "season.jinja";

/// The template of an article.
pub const ARTICLE_TEMPLATE: &'static str = "article.jinja";

/// The template of a page.
pub const PAGE_TEMPLATE: &'static str = "page.jinja";

} // verus!
