//! The metadata file of a season.
//!
//! The file is a TOML document that declares the season's articles as an
//! array of tables under the key `article`. Each table names the article's
//! `file`, and may give it a `title`; other keys are passed over. The `toml`
//! crate reads the document; what the document must hold is decided here.

use vstd::prelude::*;
use crate::article::{Article, ArticleView};
use crate::error::Flaw;

verus! {

/// A TOML value, as far as the schema looks into it.
pub enum Toml {
    /// A string.
    Text(Seq<char>),
    /// An array and its members.
    Array(Seq<Toml>),
    /// A table: its keys and what they hold.
    Table(Map<Seq<char>, Toml>),
    /// An integer, a float, a boolean or a datetime.
    Scalar,
}

/// `toml::Value`, which the library hands on and never looks into.
#[verifier::external_type_specification]
#[verifier::external_body]
pub struct ExValue(toml::Value);

/// `toml::de::Error`, which the library drops for a flaw of its own.
#[verifier::external_type_specification]
#[verifier::external_body]
pub struct ExError(toml::de::Error);

/// What `toml` reads from a text: the document, or `None` where the text is
/// not a TOML document.
pub uninterp spec fn toml_document(text: Seq<char>) -> Option<Toml>;

/// What a `toml::Value` holds.
pub uninterp spec fn toml_value(value: toml::Value) -> Toml;

/// What a value holds under a key, if it is a table that has the key.
pub open spec fn member_of(value: Toml, key: Seq<char>) -> Option<Toml> {
    match value {
        Toml::Table(table) if table.dom().contains(key) => Some(table[key]),
        _ => None,
    }
}

/// Reads a TOML document.
///
/// Trusted: the body is `toml::from_str` at the type `toml::Value`. The
/// contract names the document that it returns for a text and says that it
/// fails exactly where there is none.
#[verifier::external_body]
fn document(text: &str) -> (r: Result<toml::Value, toml::de::Error>)
    ensures
        r matches Ok(value) ==> toml_document(text@) == Some(toml_value(value)),
        r is Err ==> toml_document(text@) is None,
{
    toml::from_str::<toml::Value>(text)
}

/// Looks a key up in a value.
///
/// Trusted: the body is `toml::Value::get` with a string index, which
/// returns the table's value for the key, and `None` for a value that is no
/// table or a table without the key.
#[verifier::external_body]
fn member<'a>(value: &'a toml::Value, key: &str) -> (r: Option<&'a toml::Value>)
    ensures
        r matches Some(found) ==> member_of(toml_value(*value), key@) == Some(toml_value(*found)),
        r is None ==> member_of(toml_value(*value), key@) is None,
{
    value.get(key)
}

/// The text of a string value.
///
/// Trusted: the body is `toml::Value::as_str`, which returns the string of
/// the `String` variant and `None` for every other variant.
#[verifier::external_body]
fn text<'a>(value: &'a toml::Value) -> (r: Option<&'a str>)
    ensures
        r matches Some(s) ==> toml_value(*value) == Toml::Text(s@),
        r is None ==> !(toml_value(*value) is Text),
{
    value.as_str()
}

/// The members of an array value.
///
/// Trusted: the body is `toml::Value::as_array`, which returns the vector of
/// the `Array` variant and `None` for every other variant.
#[verifier::external_body]
fn items<'a>(value: &'a toml::Value) -> (r: Option<&'a Vec<toml::Value>>)
    ensures
        r matches Some(members) ==> toml_value(*value) == Toml::Array(
            members@.map_values(|member: toml::Value| toml_value(member)),
        ),
        r is None ==> !(toml_value(*value) is Array),
{
    value.as_array()
}

/// Whether a value is a table.
///
/// Trusted: the body is `toml::Value::is_table`, which is true of the
/// `Table` variant alone.
#[verifier::external_body]
fn is_table(value: &toml::Value) -> (r: bool)
    ensures
        r == (toml_value(*value) is Table),
{
    value.is_table()
}

/// The article that one member of the `article` array declares: the member
/// is a table, its `file` is a string, and its `title`, if it has one, is a
/// string too.
pub open spec fn article_declared(value: Toml) -> Result<ArticleView, Flaw> {
    if !(value is Table) {
        Err(Flaw::ArticleNotTable)
    } else {
        match member_of(value, "file"@) {
            None => Err(Flaw::NoFile),
            Some(Toml::Text(file)) => match member_of(value, "title"@) {
                None => Ok(ArticleView { file, title: None, html: Seq::empty() }),
                Some(Toml::Text(title)) => Ok(
                    ArticleView { file, title: Some(title), html: Seq::empty() },
                ),
                Some(_) => Err(Flaw::TitleNotText),
            },
            Some(_) => Err(Flaw::FileNotText),
        }
    }
}

/// The articles that the members of the `article` array declare, in their
/// order, or the flaw of the first member that declares none.
pub open spec fn articles_declared(members: Seq<Toml>) -> Result<Seq<ArticleView>, Flaw>
    decreases members.len(),
{
    if members.len() == 0 {
        Ok(Seq::empty())
    } else {
        match articles_declared(members.drop_last()) {
            Err(flaw) => Err(flaw),
            Ok(articles) => match article_declared(members.last()) {
                Err(flaw) => Err(flaw),
                Ok(article) => Ok(articles.push(article)),
            },
        }
    }
}

/// The articles that a document declares: those of the array under its key
/// `article`.
pub open spec fn declared_by(document: Toml) -> Result<Seq<ArticleView>, Flaw> {
    match member_of(document, "article"@) {
        None => Err(Flaw::NoArticles),
        Some(Toml::Array(members)) => articles_declared(members),
        Some(_) => Err(Flaw::ArticlesNotArray),
    }
}

/// The articles that the text of a metadata file declares.
pub open spec fn declared(text: Seq<char>) -> Result<Seq<ArticleView>, Flaw> {
    match toml_document(text) {
        None => Err(Flaw::Syntax),
        Some(document) => declared_by(document),
    }
}

/// The articles that were read are those of the model, and so is the flaw.
pub open spec fn is_declared(
    articles: Result<Vec<Article>, Flaw>,
    model: Result<Seq<ArticleView>, Flaw>,
) -> bool {
    match articles {
        Ok(articles) => model == Ok::<Seq<ArticleView>, Flaw>(articles.deep_view()),
        Err(flaw) => model == Err::<Seq<ArticleView>, Flaw>(flaw),
    }
}

/// Once a member of the array is flawed, the flaw is that of the whole array.
pub proof fn lemma_flaw_stays(members: Seq<Toml>, n: nat)
    requires
        n <= members.len(),
        articles_declared(members.take(n as int)) is Err,
    ensures
        articles_declared(members) == articles_declared(members.take(n as int)),
    decreases members.len() - n,
{
    if n < members.len() {
        assert(members.take(n as int + 1).drop_last() =~= members.take(n as int));
        lemma_flaw_stays(members, n + 1);
    } else {
        assert(members.take(n as int) =~= members);
    }
}

/// Reads the article that one member of the `article` array declares.
pub fn article_of(value: &toml::Value) -> (article: Result<Article, Flaw>)
    ensures
        match article {
            Ok(article) => article_declared(toml_value(*value)) == Ok::<ArticleView, Flaw>(
                article.deep_view(),
            ),
            Err(flaw) => article_declared(toml_value(*value)) == Err::<ArticleView, Flaw>(flaw),
        },
{
    if !is_table(value) {
        return Err(Flaw::ArticleNotTable);
    }
    let file = match member(value, "file") {
        None => { return Err(Flaw::NoFile); },
        Some(file) => match text(file) {
            None => { return Err(Flaw::FileNotText); },
            Some(file) => file.to_owned(),
        },
    };
    let title = match member(value, "title") {
        None => None,
        Some(title) => match text(title) {
            None => { return Err(Flaw::TitleNotText); },
            Some(title) => Some(title.to_owned()),
        },
    };
    Ok(Article { file, title, html: String::new() })
}

/// Reads the articles that a document declares.
pub fn articles_of(document: &toml::Value) -> (articles: Result<Vec<Article>, Flaw>)
    ensures
        is_declared(articles, declared_by(toml_value(*document))),
{
    let members = match member(document, "article") {
        None => { return Err(Flaw::NoArticles); },
        Some(list) => match items(list) {
            None => { return Err(Flaw::ArticlesNotArray); },
            Some(members) => members,
        },
    };
    let ghost model = members@.map_values(|member: toml::Value| toml_value(member));
    let mut articles: Vec<Article> = Vec::new();
    let mut i: usize = 0;
    assert(model.take(0) =~= Seq::<Toml>::empty());
    assert(articles.deep_view() =~= Seq::<ArticleView>::empty());
    while i < members.len()
        invariant
            i <= members.len(),
            model == members@.map_values(|member: toml::Value| toml_value(member)),
            declared_by(toml_value(*document)) == articles_declared(model),
            articles_declared(model.take(i as int)) == Ok::<Seq<ArticleView>, Flaw>(
                articles.deep_view(),
            ),
        decreases members.len() - i,
    {
        let ghost before = articles.deep_view();
        assert(model.take(i + 1).drop_last() =~= model.take(i as int));
        assert(model.take(i + 1).last() == toml_value(members@[i as int]));
        match article_of(&members[i]) {
            Err(flaw) => {
                proof {
                    lemma_flaw_stays(model, (i + 1) as nat);
                }
                return Err(flaw);
            },
            Ok(article) => {
                articles.push(article);
                assert(articles.deep_view() =~= before.push(article.deep_view()));
            },
        }
        i += 1;
    }
    assert(model.take(members.len() as int) =~= model);
    Ok(articles)
}

/// Reads the articles that the text of a metadata file declares.
pub fn read_metadata(text: &str) -> (articles: Result<Vec<Article>, Flaw>)
    ensures
        is_declared(articles, declared(text@)),
{
    match document(text) {
        Err(_) => Err(Flaw::Syntax),
        Ok(value) => articles_of(&value),
    }
}

} // verus!
