use zine::order::sort_by_number;
use zine::zine::discover;
use zine::{Article, Entity, Failure, Flaw, IoKind, Node, Page, Season, Site, Theme, Tree, Zine};

fn file(tree: &mut Tree, path: &str, text: &str) {
    tree.push(path.to_string(), Node::File(text.to_string()));
}

fn dir(tree: &mut Tree, path: &str) {
    tree.push(path.to_string(), Node::Dir);
}

fn article(name: &str) -> Article {
    Article { file: name.to_string(), title: None, html: String::new() }
}

fn season(number: u32, name: &str) -> Season {
    Season { number, slug: name.to_string(), path: name.to_string(), articles: Vec::new() }
}

fn theme(footer: Option<&str>) -> Theme {
    Theme {
        primary_color: "#222".to_string(),
        background_color: "#fff".to_string(),
        footer_template: footer.map(|f| f.to_string()),
    }
}

fn zine(seasons: Vec<Season>) -> Zine {
    Zine {
        theme: theme(None),
        site: Site { name: "zine".to_string(), title: "A zine".to_string() },
        seasons,
        pages: Vec::new(),
    }
}

#[test]
fn an_article_is_read_relative_to_its_source() {
    let mut tree = Tree::new();
    file(&mut tree, "a.md", "root");
    file(&mut tree, "s/a.md", "*inner*");
    let mut a = article("a.md");
    a.title = Some("T".to_string());
    assert_eq!(a.parse(&tree, "s"), Ok(()));
    assert_eq!(a.html, "<p><em>inner</em></p>\n");
    assert_eq!(a.file, "a.md");
    assert_eq!(a.title, Some("T".to_string()));
}

#[test]
fn parsing_an_article_replaces_its_html() {
    let mut tree = Tree::new();
    file(&mut tree, "a.md", "new");
    let mut a = article("a.md");
    a.html = "<p>old</p>\n".to_string();
    assert_eq!(a.parse(&tree, ""), Ok(()));
    assert_eq!(a.html, "<p>new</p>\n");
}

#[test]
fn an_article_that_cannot_be_read_stays_as_it_is() {
    let mut tree = Tree::new();
    dir(&mut tree, "d");
    tree.push("locked.md".to_string(), Node::Failed(IoKind::PermissionDenied));
    let mut a = article("d");
    a.html = "kept".to_string();
    assert_eq!(a.parse(&tree, ""), Err(Failure::Io(IoKind::IsADirectory)));
    assert_eq!(a.html, "kept");
    let mut b = article("locked.md");
    assert_eq!(b.parse(&tree, ""), Err(Failure::Io(IoKind::PermissionDenied)));
    let mut c = article("nowhere.md");
    assert_eq!(c.parse(&tree, ""), Err(Failure::Io(IoKind::NotFound)));
}

#[test]
fn markdown_extensions_are_on() {
    let mut tree = Tree::new();
    file(&mut tree, "strike.md", "~~gone~~");
    file(&mut tree, "task.md", "- [x] done");
    file(&mut tree, "table.md", "|a|\n|-|\n|b|\n");
    file(&mut tree, "note.md", "x[^1]\n\n[^1]: y\n");
    let mut a = article("strike.md");
    assert_eq!(a.parse(&tree, ""), Ok(()));
    assert_eq!(a.html, "<p><del>gone</del></p>\n");
    let mut b = article("task.md");
    assert_eq!(b.parse(&tree, ""), Ok(()));
    assert!(b.html.contains("<input disabled=\"\" type=\"checkbox\" checked=\"\"/>"));
    let mut c = article("table.md");
    assert_eq!(c.parse(&tree, ""), Ok(()));
    assert!(c.html.starts_with("<table>"));
    let mut d = article("note.md");
    assert_eq!(d.parse(&tree, ""), Ok(()));
    assert!(d.html.contains("footnote-definition"));
}

#[test]
fn markdown_keeps_plain_punctuation() {
    let mut tree = Tree::new();
    file(&mut tree, "q.md", "it's -- so");
    let mut a = article("q.md");
    assert_eq!(a.parse(&tree, ""), Ok(()));
    assert_eq!(a.html, "<p>it's -- so</p>\n");
}

#[test]
fn the_footer_template_comes_through_unchanged() {
    let text = "<footer>\n  # not *markdown* &amp; \u{e9}\n</footer>";
    let mut tree = Tree::new();
    file(&mut tree, "theme/footer.html", text);
    let mut t = theme(Some("theme/footer.html"));
    assert_eq!(t.parse(&tree, ""), Ok(()));
    assert_eq!(t.footer_template, Some(text.to_string()));
    assert_eq!(t.primary_color, "#222");
    assert_eq!(t.background_color, "#fff");
}

#[test]
fn a_theme_without_footer_parses_to_itself() {
    let tree = Tree::new();
    let mut t = theme(None);
    assert_eq!(t.parse(&tree, ""), Ok(()));
    assert_eq!(t.footer_template, None);
}

#[test]
fn a_theme_whose_footer_is_missing_fails_and_keeps_the_name() {
    let tree = Tree::new();
    let mut t = theme(Some("footer.html"));
    assert_eq!(t.parse(&tree, ""), Err(Failure::Io(IoKind::NotFound)));
    assert_eq!(t.footer_template, Some("footer.html".to_string()));
}

#[test]
fn a_theme_renders_nothing() {
    assert!(theme(None).render(zine::Context::new(), "out").is_empty());
}

#[test]
fn a_page_parses_to_itself() {
    let tree = Tree::new();
    let mut p = Page { html: "<p>x</p>".to_string(), file_path: "x.md".to_string() };
    assert_eq!(p.parse(&tree, "anywhere"), Ok(()));
    assert_eq!(p.html, "<p>x</p>");
    assert_eq!(p.file_path, "x.md");
}

#[test]
fn a_season_reads_its_articles_in_its_own_directory() {
    let mut tree = Tree::new();
    file(&mut tree, "a.md", "outer");
    file(&mut tree, "content/s1/zine.toml", "[[article]]\nfile = \"a.md\"\ntitle = \"A\"\n[[article]]\nfile = \"b/c.md\"\n");
    file(&mut tree, "content/s1/a.md", "inner");
    file(&mut tree, "content/s1/b/c.md", "deep");
    let mut s = Season {
        number: 7,
        slug: "first".to_string(),
        path: "s1".to_string(),
        articles: vec![article("stale.md")],
    };
    assert_eq!(s.parse(&tree, "content"), Ok(()));
    assert_eq!(s.number, 7);
    assert_eq!(s.slug, "first");
    assert_eq!(s.path, "s1");
    assert_eq!(s.articles.len(), 2);
    assert_eq!(s.articles[0].html, "<p>inner</p>\n");
    assert_eq!(s.articles[0].title, Some("A".to_string()));
    assert_eq!(s.articles[1].file, "b/c.md");
    assert_eq!(s.articles[1].html, "<p>deep</p>\n");
}

#[test]
fn a_season_with_flawed_metadata_keeps_its_articles() {
    let mut tree = Tree::new();
    file(&mut tree, "s/zine.toml", "article = 1\n");
    let mut s = season(1, "s");
    s.articles = vec![article("kept.md")];
    assert_eq!(s.parse(&tree, ""), Err(Failure::Metadata(Flaw::ArticlesNotArray)));
    assert_eq!(s.articles.len(), 1);
    assert_eq!(s.articles[0].file, "kept.md");
    let mut tree = Tree::new();
    file(&mut tree, "s/zine.toml", "= nothing");
    assert_eq!(s.parse(&tree, ""), Err(Failure::Metadata(Flaw::Syntax)));
    assert_eq!(s.articles[0].file, "kept.md");
}

#[test]
fn articles_after_a_failed_one_are_not_parsed() {
    let mut tree = Tree::new();
    file(&mut tree, "s/zine.toml", "[[article]]\nfile = \"1.md\"\n[[article]]\nfile = \"2.md\"\n[[article]]\nfile = \"3.md\"\n");
    file(&mut tree, "s/1.md", "one");
    file(&mut tree, "s/3.md", "three");
    dir(&mut tree, "pages");
    let mut s = season(1, "s");
    assert_eq!(s.parse(&tree, ""), Err(Failure::Io(IoKind::NotFound)));
    assert_eq!(s.articles.len(), 3);
    assert_eq!(s.articles[0].html, "<p>one</p>\n");
    assert_eq!(s.articles[1].html, "");
    assert_eq!(s.articles[2].html, "");
    let mut z = zine(vec![season(1, "s")]);
    assert_eq!(z.build(&tree, "", "out").err(), Some(Failure::Io(IoKind::NotFound)));
    assert!(z.pages.is_empty());
}

#[test]
fn a_list_stops_at_its_first_failure() {
    let mut tree = Tree::new();
    file(&mut tree, "1.md", "one");
    tree.push("2.md".to_string(), Node::Failed(IoKind::Other));
    file(&mut tree, "4.md", "four");
    let mut list = vec![article("1.md"), article("2.md"), article("3.md"), article("4.md")];
    assert_eq!(list.parse(&tree, ""), Err(Failure::Io(IoKind::Other)));
    assert_eq!(list.len(), 4);
    assert_eq!(list[0].html, "<p>one</p>\n");
    assert_eq!(list[1].html, "");
    assert_eq!(list[2].html, "");
    assert_eq!(list[3].html, "");
}

#[test]
fn an_empty_list_parses() {
    let tree = Tree::new();
    let mut list: Vec<Article> = Vec::new();
    assert_eq!(list.parse(&tree, ""), Ok(()));
    assert!(list.is_empty());
}

#[test]
fn sorting_is_ascending_and_stable() {
    let mut seasons = vec![
        season(3, "c"),
        season(1, "a1"),
        season(2, "b"),
        season(1, "a2"),
        season(0, "z"),
        season(1, "a3"),
        season(u32::MAX, "m"),
    ];
    sort_by_number(&mut seasons);
    let order: Vec<(u32, &str)> = seasons.iter().map(|s| (s.number, s.slug.as_str())).collect();
    assert_eq!(
        order,
        vec![(0, "z"), (1, "a1"), (1, "a2"), (1, "a3"), (2, "b"), (3, "c"), (u32::MAX, "m")]
    );
}

#[test]
fn sorting_nothing_and_one_season() {
    let mut none: Vec<Season> = Vec::new();
    sort_by_number(&mut none);
    assert!(none.is_empty());
    let mut one = vec![season(5, "five")];
    sort_by_number(&mut one);
    assert_eq!(one.len(), 1);
    assert_eq!(one[0].number, 5);
}

#[test]
fn a_failed_season_leaves_the_seasons_unsorted() {
    let mut tree = Tree::new();
    file(&mut tree, "two/zine.toml", "article = []\n");
    dir(&mut tree, "pages");
    file(&mut tree, "pages/p.md", "p");
    let mut z = zine(vec![season(2, "two"), season(1, "one")]);
    assert_eq!(z.parse(&tree, ""), Err(Failure::Io(IoKind::NotFound)));
    assert_eq!(z.seasons[0].number, 2);
    assert_eq!(z.seasons[1].number, 1);
    assert!(z.pages.is_empty());
}

#[test]
fn a_failed_theme_leaves_the_seasons_unparsed() {
    let mut tree = Tree::new();
    file(&mut tree, "one/zine.toml", "[[article]]\nfile = \"a.md\"\n");
    file(&mut tree, "one/a.md", "a");
    dir(&mut tree, "pages");
    let mut z = zine(vec![season(1, "one")]);
    z.theme = theme(Some("missing.html"));
    assert_eq!(z.parse(&tree, ""), Err(Failure::Io(IoKind::NotFound)));
    assert!(z.seasons[0].articles.is_empty());
}

#[test]
fn pages_come_in_the_order_of_the_tree() {
    let mut tree = Tree::new();
    dir(&mut tree, "");
    file(&mut tree, "pagesx.md", "beside");
    dir(&mut tree, "pages");
    file(&mut tree, "pages/z.md", "z");
    dir(&mut tree, "pages/sub");
    file(&mut tree, "pages/sub/a.md", "a");
    file(&mut tree, "pages/b.md", "~~b~~");
    file(&mut tree, "other/pages/c.md", "c");
    let mut z = zine(Vec::new());
    z.pages.push(Page { html: "<p>held</p>".to_string(), file_path: "held.md".to_string() });
    assert_eq!(z.parse(&tree, ""), Ok(()));
    let paths: Vec<&str> = z.pages.iter().map(|p| p.file_path.as_str()).collect();
    assert_eq!(paths, vec!["held.md", "z.md", "sub/a.md", "b.md"]);
    assert_eq!(z.pages[1].html, "<p>z</p>\n");
    assert_eq!(z.pages[3].html, "<p><del>b</del></p>\n");
}

#[test]
fn pages_are_found_under_the_source() {
    let mut tree = Tree::new();
    dir(&mut tree, "pages");
    file(&mut tree, "pages/outer.md", "outer");
    dir(&mut tree, "content/pages");
    file(&mut tree, "content/pages/inner.md", "inner");
    let mut z = zine(Vec::new());
    assert_eq!(z.parse(&tree, "content"), Ok(()));
    assert_eq!(z.pages.len(), 1);
    assert_eq!(z.pages[0].file_path, "inner.md");
}

#[test]
fn a_tree_without_pages_root_fails() {
    let mut tree = Tree::new();
    file(&mut tree, "pages/a.md", "a");
    let mut z = zine(Vec::new());
    assert_eq!(z.parse(&tree, ""), Err(Failure::Io(IoKind::NotFound)));
    assert!(z.pages.is_empty());
}

#[test]
fn an_unreadable_page_ends_the_walk() {
    let mut tree = Tree::new();
    dir(&mut tree, "pages");
    file(&mut tree, "pages/a.md", "a");
    tree.push("pages/b.md".to_string(), Node::Failed(IoKind::InvalidData));
    file(&mut tree, "pages/c.md", "c");
    tree.push("elsewhere".to_string(), Node::Failed(IoKind::PermissionDenied));
    let mut pages: Vec<Page> = Vec::new();
    assert_eq!(discover(&tree, "pages", &mut pages), Err(Failure::Io(IoKind::InvalidData)));
    assert_eq!(pages.len(), 1);
    assert_eq!(pages[0].file_path, "a.md");
}

#[test]
fn a_failure_beside_the_pages_root_is_passed_over() {
    let mut tree = Tree::new();
    tree.push("elsewhere".to_string(), Node::Failed(IoKind::PermissionDenied));
    dir(&mut tree, "pages");
    file(&mut tree, "pages/a.md", "a");
    let mut pages: Vec<Page> = Vec::new();
    assert_eq!(discover(&tree, "pages", &mut pages), Ok(()));
    assert_eq!(pages.len(), 1);
}

#[test]
fn a_pages_root_that_is_a_file_is_one_page() {
    let mut tree = Tree::new();
    file(&mut tree, "pages", "solo");
    let mut pages: Vec<Page> = Vec::new();
    assert_eq!(discover(&tree, "pages", &mut pages), Ok(()));
    assert_eq!(pages.len(), 1);
    assert_eq!(pages[0].file_path, "");
    assert_eq!(pages[0].html, "<p>solo</p>\n");
}
