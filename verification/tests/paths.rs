use zine::path::{join, strip_root};

#[test]
fn join_puts_one_separator_between() {
    assert_eq!(join("season-1", "zine.toml"), "season-1/zine.toml");
    assert_eq!(join("out", "page"), "out/page");
    assert_eq!(join("a/b", "c/d.md"), "a/b/c/d.md");
}

#[test]
fn join_adds_no_separator_after_one() {
    assert_eq!(join("season-1/", "zine.toml"), "season-1/zine.toml");
    assert_eq!(join("/", "out"), "/out");
}

#[test]
fn join_against_the_empty_base_gives_the_path() {
    assert_eq!(join("", "pages"), "pages");
    assert_eq!(join("", ""), "");
}

#[test]
fn join_lets_an_absolute_path_stand() {
    assert_eq!(join("content", "/etc/footer.html"), "/etc/footer.html");
}

#[test]
fn join_with_the_empty_path_ends_in_a_separator() {
    assert_eq!(join("out", ""), "out/");
}

#[test]
fn join_counts_characters_not_bytes() {
    assert_eq!(join("págs", "é.md"), "págs/é.md");
    assert_eq!(join("é/", "ü"), "é/ü");
}

#[test]
fn strip_root_gives_the_path_below_the_root() {
    assert_eq!(strip_root("pages/foo/bar.md", "pages"), Some("foo/bar.md".to_string()));
    assert_eq!(strip_root("pages/foo/bar.md", "pages/foo"), Some("bar.md".to_string()));
    assert_eq!(strip_root("pages/foo/bar.md", "pages/"), Some("foo/bar.md".to_string()));
}

#[test]
fn strip_root_of_the_root_itself_is_empty() {
    assert_eq!(strip_root("pages", "pages"), Some(String::new()));
    assert_eq!(strip_root("pages/", "pages"), Some(String::new()));
    assert_eq!(strip_root("", ""), Some(String::new()));
}

#[test]
fn strip_root_drops_every_separator_after_the_root() {
    assert_eq!(strip_root("pages//a.md", "pages"), Some("a.md".to_string()));
    assert_eq!(strip_root("/a.md", ""), Some("a.md".to_string()));
}

#[test]
fn strip_root_against_the_empty_root_keeps_the_path() {
    assert_eq!(strip_root("a/b.md", ""), Some("a/b.md".to_string()));
}

#[test]
fn strip_root_refuses_a_path_beside_the_root() {
    assert_eq!(strip_root("pagesx/a.md", "pages"), None);
    assert_eq!(strip_root("page", "pages"), None);
    assert_eq!(strip_root("other/pages/a.md", "pages"), None);
    assert_eq!(strip_root("a", "abc"), None);
}

#[test]
fn strip_root_counts_characters_not_bytes() {
    assert_eq!(strip_root("págs/é.md", "págs"), Some("é.md".to_string()));
}

#[test]
fn strip_root_undoes_join() {
    let path = join("pages", "foo/bar.md");
    assert_eq!(strip_root(&path, "pages"), Some("foo/bar.md".to_string()));
}
