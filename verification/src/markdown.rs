//! Markdown to HTML, by the `pulldown-cmark` crate.

use vstd::prelude::*;
use pulldown_cmark::{html, Options, Parser};

verus! {

/// The HTML that `pulldown-cmark` writes for a Markdown text, with tables,
/// footnotes, strikethrough and task lists switched on.
///
/// The conversion reads nothing but the text, so one text always gives one
/// HTML. Nothing else is claimed of it.
pub uninterp spec fn markdown_html(text: Seq<char>) -> Seq<char>;

/// Converts a Markdown text to HTML.
///
/// Trusted: the body runs `pulldown_cmark::Parser::new_ext` on the text, with
/// the four extensions, and hands its events to
/// `pulldown_cmark::html::push_html`, which appends the HTML to an empty
/// string. The contract only gives that string its name.
#[verifier::external_body]
pub(crate) fn to_html(text: &str) -> (html: String)
    ensures
        html@ == markdown_html(text@),
{
    let mut options = Options::empty();
    options.insert(Options::ENABLE_TABLES);
    options.insert(Options::ENABLE_FOOTNOTES);
    options.insert(Options::ENABLE_STRIKETHROUGH);
    options.insert(Options::ENABLE_TASKLISTS);
    let mut html = String::new();
    html::push_html(&mut html, Parser::new_ext(text, options));
    html
}

} // verus!
