//! The core of a static publication builder.
//!
//! A publication is a tree of content nodes: the publication itself, its
//! theme, its seasons, their articles, and its free-form pages. Every node
//! meets one contract, [`Entity`]: it is parsed from a content tree, and it
//! is rendered into jobs for a render sink. A list of nodes is a node too.
//!
//! The core reads and writes no file. It parses from a [`Tree`], the content
//! root as a walk found it, and its rendering returns the [`Job`]s that the
//! caller hands to the template engine, in their order.

pub mod article;
pub mod context;
pub mod entity;

pub mod error;
pub mod laws;
pub mod markdown;
pub mod metadata;
pub mod names;
pub mod order;
pub mod page;
pub mod path;
pub mod season;
pub mod theme;
pub mod tree;
pub mod zine;

pub use crate::article::Article;
pub use crate::context::{Binding, Context, Data, Job};
pub use crate::entity::Entity;
pub use crate::error::{Failure, Flaw, IoKind};
pub use crate::names::ZINE_FILE;
pub use crate::page::Page;
pub use crate::season::Season;
pub use crate::theme::Theme;
pub use crate::tree::{Entry, Node, Tree};
pub use crate::zine::{Site, Zine};
