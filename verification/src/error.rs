//! The failures of a build.
//!
//! Every failure is a plain value: which kind of I/O failure a read met, or
//! in which way a season's metadata file departs from its schema.

use vstd::prelude::*;

verus! {

/// Why a path of the content tree could not be read.
#[derive(Clone, Copy, Debug, PartialEq, Eq, Structural)]
pub enum IoKind {
    /// Nothing exists at the path.
    NotFound,
    /// The path exists but may not be read.
    PermissionDenied,
    /// The path names a directory where a file was wanted.
    IsADirectory,
    /// The file does not hold text.
    InvalidData,
    /// Any other failure of the file system.
    Other,
}

/// How a season's metadata file departs from its schema.
#[derive(Clone, Copy, Debug, PartialEq, Eq, Structural)]
pub enum Flaw {
    /// The file is not a TOML document.
    Syntax,
    /// The document has no `article` key.
    NoArticles,
    /// The `article` key does not hold an array.
    ArticlesNotArray,
    /// A member of the `article` array is not a table.
    ArticleNotTable,
    /// An article has no `file` key.
    NoFile,
    /// An article's `file` is not a string.
    FileNotText,
    /// An article's `title` is there but is not a string.
    TitleNotText,
}

/// The one failure that ends a parse.
#[derive(Clone, Copy, Debug, PartialEq, Eq, Structural)]
pub enum Failure {
    /// A file or directory could not be read.
    Io(IoKind),
    /// A season's metadata file was read but does not fit the schema.
    Metadata(Flaw),
}

} // verus!
