//! What an article is once it has been read.
use vstd::prelude::*;
use crate::structure::ArticleIdentity;
use crate::widgets::Widgets;

verus! {

/// What the metadata block of an article says.
#[derive(Debug)]
pub struct ArticleMetadata {
    pub title: String,
    pub brief: String,
    pub widgets: Widgets,
}

/// An article: who it is, what its metadata says, and its text as HTML.
#[derive(Debug)]
pub struct Article {
    pub id: ArticleIdentity,
    pub metadata: ArticleMetadata,
    pub content: String,
}

/// For what the pages are generated.
#[derive(Clone, Copy, Debug, PartialEq, Eq, Structural)]
pub struct GenerationContext {
    /// Whether the pages are for release, not for debugging.
    pub release: bool,
}

} // verus!
