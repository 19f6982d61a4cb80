use zine::{Article, Context, Data, Entity, Failure, IoKind, Job, Node, Page, Season, Site, Theme, Tree, Zine};

fn article(name: &str, html: &str) -> Article {
    Article { file: name.to_string(), title: None, html: html.to_string() }
}

fn season(number: u32, slug: &str, articles: Vec<Article>) -> Season {
    Season { number, slug: slug.to_string(), path: format!("content/{}", slug), articles }
}

fn page(path: &str, html: &str) -> Page {
    Page { html: html.to_string(), file_path: path.to_string() }
}

fn sample() -> Zine {
    Zine {
        theme: Theme {
            primary_color: "#222".to_string(),
            background_color: "#fff".to_string(),
            footer_template: Some("<footer/>".to_string()),
        },
        site: Site { name: "zine".to_string(), title: "A zine".to_string() },
        seasons: vec![
            season(1, "one", vec![article("a.md", "<p>a</p>")]),
            season(2, "two", Vec::new()),
        ],
        pages: vec![page("about.md", "<p>about</p>"), page("x/y.md", "<p>y</p>")],
    }
}

fn names(job: &Job) -> Vec<&str> {
    let mut names: Vec<&str> = Vec::new();
    for binding in job.context.bindings.iter() {
        if !names.contains(&binding.name.as_str()) {
            names.push(binding.name.as_str());
        }
    }
    names.sort();
    names
}

#[test]
fn an_article_renders_one_job_at_the_destination() {
    let a = article("a.md", "<p>a</p>");
    let mut context = Context::new();
    context.insert("site", Data::Text("s".to_string()));
    let jobs = a.render(context, "out/one");
    assert_eq!(jobs.len(), 1);
    assert_eq!(jobs[0].template, "article.jinja");
    assert_eq!(jobs[0].dest, "out/one");
    assert_eq!(names(&jobs[0]), vec!["article", "site"]);
    match jobs[0].context.get("article") {
        Some(Data::Article(bound)) => {
            assert_eq!(bound.file, "a.md");
            assert_eq!(bound.html, "<p>a</p>");
        },
        _ => panic!("article is bound to the article"),
    }
}

#[test]
fn a_season_renders_one_job_under_its_slug() {
    let s = season(1, "one", vec![article("a.md", "<p>a</p>"), article("b.md", "<p>b</p>")]);
    let jobs = s.render(Context::new(), "out");
    assert_eq!(jobs.len(), 1);
    assert_eq!(jobs[0].template, "season.jinja");
    assert_eq!(jobs[0].dest, "out/one");
    assert_eq!(names(&jobs[0]), vec!["season"]);
    match jobs[0].context.get("season") {
        Some(Data::Season(bound)) => {
            assert_eq!(bound.number, 1);
            assert_eq!(bound.slug, "one");
            assert_eq!(bound.articles.len(), 2);
            assert_eq!(bound.articles[1].html, "<p>b</p>");
        },
        _ => panic!("season is bound to the season"),
    }
}

#[test]
fn a_page_renders_one_job_under_its_slug() {
    let p = page("x/y.md", "<p>y</p>");
    assert_eq!(p.slug(), "x/y.md");
    let jobs = p.render(Context::new(), "out/page");
    assert_eq!(jobs.len(), 1);
    assert_eq!(jobs[0].template, "page.jinja");
    assert_eq!(jobs[0].dest, "out/page/x/y.md");
    match jobs[0].context.get("content") {
        Some(Data::Text(html)) => assert_eq!(html, "<p>y</p>"),
        _ => panic!("content is bound to the html"),
    }
}

#[test]
fn a_list_renders_its_members_in_order_with_the_same_context() {
    let list = vec![page("a.md", "a"), page("b.md", "b"), page("c.md", "c")];
    let mut context = Context::new();
    context.insert("content", Data::Text("before".to_string()));
    context.insert("site", Data::Text("s".to_string()));
    let jobs = list.render(context, "out");
    let dests: Vec<&str> = jobs.iter().map(|j| j.dest.as_str()).collect();
    assert_eq!(dests, vec!["out/a.md", "out/b.md", "out/c.md"]);
    for (job, html) in jobs.iter().zip(["a", "b", "c"]) {
        assert_eq!(names(job), vec!["content", "site"]);
        match job.context.get("content") {
            Some(Data::Text(text)) => assert_eq!(text, html),
            _ => panic!("content is bound to the html"),
        }
    }
    let none: Vec<Page> = Vec::new();
    assert!(none.render(Context::new(), "out").is_empty());
}

#[test]
fn a_publication_renders_seasons_then_pages_then_home() {
    let z = sample();
    let jobs = z.render(Context::new(), "out");
    let plan: Vec<(&str, &str)> =
        jobs.iter().map(|j| (j.template.as_str(), j.dest.as_str())).collect();
    assert_eq!(
        plan,
        vec![
            ("season.jinja", "out/one"),
            ("season.jinja", "out/two"),
            ("page.jinja", "out/page/about.md"),
            ("page.jinja", "out/page/x/y.md"),
            ("index.jinja", "out"),
        ]
    );
    assert_eq!(names(&jobs[0]), vec!["season", "site", "theme"]);
    assert_eq!(names(&jobs[1]), vec!["season", "site", "theme"]);
    assert_eq!(names(&jobs[2]), vec!["content", "site", "theme"]);
    assert_eq!(names(&jobs[4]), vec!["seasons", "site", "theme"]);
    match jobs[4].context.get("seasons") {
        Some(Data::Seasons(bound)) => {
            assert_eq!(bound.len(), 2);
            assert_eq!(bound[0].slug, "one");
            assert_eq!(bound[0].articles[0].html, "<p>a</p>");
        },
        _ => panic!("seasons is bound to the seasons"),
    }
    match jobs[1].context.get("theme") {
        Some(Data::Theme(bound)) => {
            assert_eq!(bound.footer_template, Some("<footer/>".to_string()));
            assert_eq!(bound.primary_color, "#222");
        },
        _ => panic!("theme is bound to the theme"),
    }
    match jobs[2].context.get("site") {
        Some(Data::Site(bound)) => {
            assert_eq!(bound.name, "zine");
            assert_eq!(bound.title, "A zine");
        },
        _ => panic!("site is bound to the site"),
    }
    assert!(jobs[1].context.get("seasons").is_none());
    match jobs[1].context.get("season") {
        Some(Data::Season(bound)) => assert_eq!(bound.slug, "two"),
        _ => panic!("season is bound to the season"),
    }
}

#[test]
fn rendering_twice_gives_the_same_work() {
    let z = sample();
    let first = z.render(Context::new(), "out/first");
    let second = z.render(Context::new(), "out/second");
    assert_eq!(first.len(), second.len());
    for (a, b) in first.iter().zip(second.iter()) {
        assert_eq!(a.template, b.template);
        assert_eq!(names(a), names(b));
        assert_eq!(a.dest.replacen("out/first", "", 1), b.dest.replacen("out/second", "", 1));
    }
    let again = z.render(Context::new(), "out/first");
    for (a, b) in first.iter().zip(again.iter()) {
        assert_eq!(a.template, b.template);
        assert_eq!(a.dest, b.dest);
    }
}

#[test]
fn a_build_parses_and_then_renders() {
    let mut tree = Tree::new();
    tree.push("footer.html".to_string(), Node::File("<footer/>".to_string()));
    tree.push("two/zine.toml".to_string(), Node::File("article = []\n".to_string()));
    tree.push(
        "one/zine.toml".to_string(),
        Node::File("[[article]]\nfile = \"a.md\"\n".to_string()),
    );
    tree.push("one/a.md".to_string(), Node::File("# A".to_string()));
    tree.push("pages".to_string(), Node::Dir);
    tree.push("pages/about.md".to_string(), Node::File("about".to_string()));
    let mut z = Zine {
        theme: Theme {
            primary_color: "#222".to_string(),
            background_color: "#fff".to_string(),
            footer_template: Some("footer.html".to_string()),
        },
        site: Site { name: "zine".to_string(), title: "A zine".to_string() },
        seasons: vec![
            Season { number: 2, slug: "s2".to_string(), path: "two".to_string(), articles: Vec::new() },
            Season { number: 1, slug: "s1".to_string(), path: "one".to_string(), articles: Vec::new() },
        ],
        pages: Vec::new(),
    };
    let jobs = z.build(&tree, "", "/srv/out").unwrap();
    let plan: Vec<(&str, &str)> =
        jobs.iter().map(|j| (j.template.as_str(), j.dest.as_str())).collect();
    assert_eq!(
        plan,
        vec![
            ("season.jinja", "/srv/out/s1"),
            ("season.jinja", "/srv/out/s2"),
            ("page.jinja", "/srv/out/page/about.md"),
            ("index.jinja", "/srv/out"),
        ]
    );
    assert_eq!(z.theme.footer_template, Some("<footer/>".to_string()));
    assert_eq!(z.seasons[0].articles[0].html, "<h1>A</h1>\n");
    match jobs[0].context.get("season") {
        Some(Data::Season(bound)) => assert_eq!(bound.articles[0].html, "<h1>A</h1>\n"),
        _ => panic!("season is bound to the season"),
    }
}

#[test]
fn a_build_that_fails_to_parse_renders_nothing() {
    let tree = Tree::new();
    let mut z = sample();
    z.theme.footer_template = None;
    assert_eq!(z.build(&tree, "", "out").err(), Some(Failure::Io(IoKind::NotFound)));
}

#[test]
fn clones_are_equal_copies() {
    let z = sample();
    let s = z.seasons[0].clone();
    assert_eq!(s.number, 1);
    assert_eq!(s.path, "content/one");
    assert_eq!(s.articles[0].file, "a.md");
    let p = z.pages[1].clone();
    assert_eq!(p.file_path, "x/y.md");
    assert_eq!(p.html, "<p>y</p>");
    let mut context = Context::new();
    context.insert("theme", Data::Theme(z.theme.clone()));
    context.insert("site", Data::Site(z.site.clone()));
    let copy = context.clone();
    assert_eq!(copy.bindings.len(), 2);
    assert_eq!(copy.bindings[0].name, "theme");
    assert!(matches!(copy.get("site"), Some(Data::Site(_))));
}
