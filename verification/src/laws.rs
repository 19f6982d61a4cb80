//! What holds of every publication, tree and destination.

use vstd::prelude::*;
use crate::article::{Article, ArticleView};
use crate::context::{DataView, JobView};
use crate::entity::{lemma_parse_fails_fast, parsed_well, rendered_upto, Entity};
use crate::error::{Failure, Flaw};
use crate::markdown::markdown_html;
use crate::metadata::declared;
use crate::names::{INDEX_TEMPLATE, PAGE_DEST, PAGE_TEMPLATE, SEASON_TEMPLATE, ZINE_FILE};
use crate::order::{is_sorted, lemma_sorted};
use crate::page::{slug_of, Page, PageView};
use crate::path::{is_absolute, is_under, joined, lemma_relative_is_suffix, remainder, SEPARATOR};
use crate::season::{Season, SeasonView};
use crate::theme::{Theme, ThemeView};
use crate::tree::{read_text, EntryView, NodeView};
use crate::zine::{discovered, walked, Zine, ZineView};

verus! {

/// After a parse that succeeded, the seasons are in ascending order of
/// their numbers, in whatever order they were declared. They are so even
/// where only the walk of the pages failed.
pub proof fn lemma_parsed_seasons_are_sorted(
    zine: ZineView,
    tree: Seq<EntryView>,
    source: Seq<char>,
)
    requires
        Theme::parsed(zine.theme, tree, source).1 is Ok,
        <Vec<Season> as Entity>::parsed(zine.seasons, tree, source).1 is Ok,
    ensures
        is_sorted(Zine::parsed(zine, tree, source).0.seasons),
        Zine::parsed(zine, tree, source).0.seasons.len() == zine.seasons.len(),
{
    let seasons = <Vec<Season> as Entity>::parsed(zine.seasons, tree, source).0;
    lemma_sorted(seasons);
    lemma_parse_fails_fast::<Season>(zine.seasons, tree, source, zine.seasons.len());
}

/// `page` is the page that the walk of `root` makes of `entry`.
pub open spec fn is_page_of(page: PageView, entry: EntryView, root: Seq<char>) -> bool {
    &&& is_under(entry.path, root)
    &&& entry.node matches NodeView::File(text)
    &&& page.html == markdown_html(text)
    &&& page.file_path == remainder(entry.path, root)
}

/// Every page that a walk finds is the page of a file of the tree under the
/// pages root.
pub proof fn lemma_pages_come_from_files(tree: Seq<EntryView>, root: Seq<char>, n: nat)
    requires
        n <= tree.len(),
    ensures
        forall|k: int|
            0 <= k < discovered(tree, root, n).0.len() ==> exists|i: int|
                0 <= i < n && is_page_of(
                    #[trigger] discovered(tree, root, n).0[k],
                    #[trigger] tree[i],
                    root,
                ),
    decreases n,
{
    if n > 0 {
        lemma_pages_come_from_files(tree, root, (n - 1) as nat);
        let before = discovered(tree, root, (n - 1) as nat).0;
        let after = discovered(tree, root, n).0;
        assert forall|k: int| 0 <= k < after.len() implies exists|i: int|
            0 <= i < n && is_page_of(#[trigger] after[k], #[trigger] tree[i], root) by {
            if k < before.len() {
                assert(after[k] == before[k]);
                let i = choose|i: int|
                    0 <= i < n - 1 && is_page_of(#[trigger] before[k], #[trigger] tree[i], root);
                assert(is_page_of(after[k], tree[i], root));
            } else {
                assert(is_page_of(after[k], tree[n - 1], root));
            }
        }
    }
}

/// The path of a page is relative to the pages root. It never begins with a
/// separator, and it never holds the root: the path of the page's file is
/// the root, then separators only, then the path of the page.
pub proof fn lemma_page_paths_are_relative(tree: Seq<EntryView>, root: Seq<char>, k: int)
    requires
        0 <= k < walked(tree, root).0.len(),
    ensures
        !is_absolute(walked(tree, root).0[k].file_path),
        exists|i: int, gap: Seq<char>|
            {
                &&& 0 <= i < tree.len()
                &&& is_page_of(walked(tree, root).0[k], #[trigger] tree[i], root)
                &&& #[trigger] (root + gap + walked(tree, root).0[k].file_path) == tree[i].path
                &&& forall|j: int| 0 <= j < gap.len() ==> gap[j] == SEPARATOR
            },
{
    let page = walked(tree, root).0[k];
    lemma_pages_come_from_files(tree, root, tree.len());
    let i = choose|i: int|
        0 <= i < tree.len() && is_page_of(
            #[trigger] discovered(tree, root, tree.len()).0[k],
            #[trigger] tree[i],
            root,
        );
    let path = tree[i].path;
    lemma_relative_is_suffix(path, root);
    let gap = path.subrange(root.len() as int, path.len() - page.file_path.len());
    assert(root + gap + page.file_path == tree[i].path);
}

/// Two pages of different files have different slugs.
pub proof fn lemma_slugs_do_not_collide(first: Seq<char>, second: Seq<char>)
    requires
        first != second,
    ensures
        slug_of(first) != slug_of(second),
{
}

/// The footer template comes through unchanged: where the theme names a
/// file that holds a text, the parsed theme holds exactly that text.
pub proof fn lemma_footer_round_trip(
    theme: ThemeView,
    tree: Seq<EntryView>,
    source: Seq<char>,
    text: Seq<char>,
)
    requires
        theme.footer_template matches Some(name) && read_text(tree, joined(source, name)) == Ok::<
            Seq<char>,
            Failure,
        >(text),
    ensures
        Theme::parsed(theme, tree, source).1 is Ok,
        Theme::parsed(theme, tree, source).0.footer_template == Some(text),
        Theme::parsed(theme, tree, source).0.primary_color == theme.primary_color,
        Theme::parsed(theme, tree, source).0.background_color == theme.background_color,
{
}

/// An article that fails to parse ends the parse of its season: the
/// articles after it stay as the metadata declared them, unparsed, those
/// before it are parsed, and the season fails with the article's failure.
pub proof fn lemma_articles_fail_fast(
    season: SeasonView,
    tree: Seq<EntryView>,
    source: Seq<char>,
    text: Seq<char>,
    articles: Seq<ArticleView>,
)
    requires
        read_text(tree, joined(joined(source, season.path), ZINE_FILE@)) == Ok::<
            Seq<char>,
            Failure,
        >(text),
        declared(text) == Ok::<Seq<ArticleView>, Flaw>(articles),
        Season::parsed(season, tree, source).1 is Err,
    ensures
        ({
            let dir = joined(source, season.path);
            let (after, r) = Season::parsed(season, tree, source);
            &&& after.articles.len() == articles.len()
            &&& exists|i: int|
                {
                    &&& 0 <= i < articles.len()
                    &&& Article::parsed(#[trigger] articles[i], tree, dir) == (
                        after.articles[i],
                        r,
                    )
                    &&& forall|j: int|
                        0 <= j < i ==> parsed_well::<Article>(
                            #[trigger] articles[j],
                            after.articles[j],
                            tree,
                            dir,
                        )
                    &&& forall|j: int| i < j < articles.len() ==> after.articles[j] == articles[j]
                }
        }),
{
    let dir = joined(source, season.path);
    lemma_parse_fails_fast::<Article>(articles, tree, dir, articles.len());
}

/// A failure below is the failure of the whole: where the theme parses and
/// a season fails, the publication fails with the season's failure, its
/// seasons stay in the order of their declaration, and it gains no page.
pub proof fn lemma_failures_are_not_swallowed(
    zine: ZineView,
    tree: Seq<EntryView>,
    source: Seq<char>,
)
    requires
        Theme::parsed(zine.theme, tree, source).1 is Ok,
        <Vec<Season> as Entity>::parsed(zine.seasons, tree, source).1 is Err,
    ensures
        Zine::parsed(zine, tree, source).1 == <Vec<Season> as Entity>::parsed(
            zine.seasons,
            tree,
            source,
        ).1,
        Zine::parsed(zine, tree, source).0.seasons == <Vec<Season> as Entity>::parsed(
            zine.seasons,
            tree,
            source,
        ).0,
        Zine::parsed(zine, tree, source).0.pages == zine.pages,
{
}

/// The jobs of a list of seasons: one for each season, in order.
pub proof fn lemma_season_jobs(
    seasons: Seq<SeasonView>,
    context: Map<Seq<char>, DataView>,
    dest: Seq<char>,
    n: nat,
)
    requires
        n <= seasons.len(),
    ensures
        rendered_upto::<Season>(seasons, context, dest, n).len() == n,
        forall|k: int|
            0 <= k < n ==> #[trigger] rendered_upto::<Season>(seasons, context, dest, n)[k]
                == (JobView {
                template: SEASON_TEMPLATE@,
                context: context.insert("season"@, DataView::Season(seasons[k])),
                dest: joined(dest, seasons[k].slug),
            }),
    decreases n,
{
    if n > 0 {
        lemma_season_jobs(seasons, context, dest, (n - 1) as nat);
    }
}

/// The jobs of a list of pages: one for each page, in order.
pub proof fn lemma_page_jobs(
    pages: Seq<PageView>,
    context: Map<Seq<char>, DataView>,
    dest: Seq<char>,
    n: nat,
)
    requires
        n <= pages.len(),
    ensures
        rendered_upto::<Page>(pages, context, dest, n).len() == n,
        forall|k: int|
            0 <= k < n ==> #[trigger] rendered_upto::<Page>(pages, context, dest, n)[k]
                == (JobView {
                template: PAGE_TEMPLATE@,
                context: context.insert("content"@, DataView::Text(pages[k].html)),
                dest: joined(dest, slug_of(pages[k].file_path)),
            }),
    decreases n,
{
    if n > 0 {
        lemma_page_jobs(pages, context, dest, (n - 1) as nat);
    }
}

/// The layout of the output: one job for each season, in the seasons'
/// order, under the season's slug; then one for each page, in the pages'
/// order, under `page` and the page's slug; then the home page, at the
/// destination itself. Every job sees the theme and the site, a season's job
/// sees the season, a page's job its content, and the home page the seasons.
pub proof fn lemma_output_layout(
    zine: ZineView,
    context: Map<Seq<char>, DataView>,
    dest: Seq<char>,
)
    ensures
        ({
            let jobs = Zine::rendered(zine, context, dest);
            let base = context.insert("theme"@, DataView::Theme(zine.theme)).insert(
                "site"@,
                DataView::Site(zine.site),
            );
            &&& jobs.len() == zine.seasons.len() + zine.pages.len() + 1
            &&& forall|k: int|
                0 <= k < zine.seasons.len() ==> jobs[k] == (JobView {
                    template: SEASON_TEMPLATE@,
                    context: base.insert(
                        "season"@,
                        DataView::Season(#[trigger] zine.seasons[k]),
                    ),
                    dest: joined(dest, zine.seasons[k].slug),
                })
            &&& forall|k: int|
                0 <= k < zine.pages.len() ==> jobs[zine.seasons.len() + k] == (JobView {
                    template: PAGE_TEMPLATE@,
                    context: base.insert(
                        "content"@,
                        DataView::Text((#[trigger] zine.pages[k]).html),
                    ),
                    dest: joined(joined(dest, PAGE_DEST@), slug_of(zine.pages[k].file_path)),
                })
            &&& jobs.last() == (JobView {
                template: INDEX_TEMPLATE@,
                context: base.insert("seasons"@, DataView::Seasons(zine.seasons)),
                dest,
            })
        }),
{
    let base = context.insert("theme"@, DataView::Theme(zine.theme)).insert(
        "site"@,
        DataView::Site(zine.site),
    );
    lemma_season_jobs(zine.seasons, base, dest, zine.seasons.len());
    lemma_page_jobs(zine.pages, base, joined(dest, PAGE_DEST@), zine.pages.len());
}

/// Rendering one publication for two destinations gives the same work: as
/// many jobs, and job by job the same template and the same context. Only
/// the directories differ.
pub proof fn lemma_render_repeats(
    zine: ZineView,
    context: Map<Seq<char>, DataView>,
    first: Seq<char>,
    second: Seq<char>,
)
    ensures
        Zine::rendered(zine, context, first).len() == Zine::rendered(zine, context, second).len(),
        Zine::rendered(zine, context, first).len() == zine.seasons.len() + zine.pages.len() + 1,
        forall|k: int|
            0 <= k < Zine::rendered(zine, context, first).len() ==> {
                &&& (#[trigger] Zine::rendered(zine, context, first)[k]).template
                    == Zine::rendered(zine, context, second)[k].template
                &&& Zine::rendered(zine, context, first)[k].context == Zine::rendered(
                    zine,
                    context,
                    second,
                )[k].context
            },
{
    let base = context.insert("theme"@, DataView::Theme(zine.theme)).insert(
        "site"@,
        DataView::Site(zine.site),
    );
    lemma_season_jobs(zine.seasons, base, first, zine.seasons.len());
    lemma_season_jobs(zine.seasons, base, second, zine.seasons.len());
    lemma_page_jobs(zine.pages, base, joined(first, PAGE_DEST@), zine.pages.len());
    lemma_page_jobs(zine.pages, base, joined(second, PAGE_DEST@), zine.pages.len());
}

} // verus!
