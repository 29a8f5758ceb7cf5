//! The Markdown pipeline: the events of a document pass one by one through
//! a fixed chain of sub-parsers, and what comes out is rendered to HTML.
use vstd::prelude::*;
use crate::fs::File;
use crate::markdown::parse::article_of;
use crate::markdown::parse::Diagnostics;
use crate::markdown::parse::make_article_from_markdown;
use crate::markdown::parse::ParseError;
use crate::model::Article;
use crate::model::ArticleMetadata;
use crate::path::file_name;
use crate::path::path_file_name;
use crate::path::text_ends_with;
use crate::structure::is_markdown_name;
use crate::structure::ArticleFile;
use crate::structure::GroupNodeModel;

pub mod control;
pub mod event;
pub mod full_service;
pub mod parse;
pub mod sub_parser;

verus! {

/// Why a Markdown file gave no article.
#[derive(Debug)]
pub enum MarkdownProcessError {
    /// The file could not be read: the message of the error.
    IOError(String),
    /// The file was read and refused.
    ParseError(ParseError),
}

/// Whether `file` has the name of a Markdown file.
pub fn is_markdown_path(file: &File) -> (markdown: bool)
    ensures
        markdown == (file_name(file@) matches Some(name) && is_markdown_name(name)),
{
    match path_file_name(file.path()) {
        Some(name) => name.as_str().unicode_len() > 3 && text_ends_with(name.as_str(), ".md"),
        None => false,
    }
}

/// `made` is what becomes of the document `content` of the article
/// source `file` with the decoder `decode`.
pub open spec fn processed_article<F: Fn(&str) -> Result<ArticleMetadata, String>>(
    file: GroupNodeModel,
    content: Seq<char>,
    decode: F,
    made: Result<(Article, Diagnostics), MarkdownProcessError>,
) -> bool {
    match made {
        Ok(pair) => article_of(file, content, decode, Ok::<(Article, Diagnostics), ParseError>(pair)),
        Err(MarkdownProcessError::ParseError(error)) => article_of(
            file,
            content,
            decode,
            Err::<(Article, Diagnostics), ParseError>(error),
        ),
        Err(MarkdownProcessError::IOError(_)) => false,
    }
}

/// Makes the article of the source `file` whose text is `content`; what
/// `decode` makes of the metadata block is the article's metadata.
pub fn parse_markdown<F: Fn(&str) -> Result<ArticleMetadata, String>>(
    file: &ArticleFile,
    content: &str,
    decode: &F,
) -> (made: Result<(Article, Diagnostics), MarkdownProcessError>)
    requires
        file.wf(),
        forall|frontmatter: &str| call_requires(*decode, (frontmatter,)),
    ensures
        processed_article(file@, content@, *decode, made),
{
    match make_article_from_markdown(file, content, decode) {
        Ok(article) => Ok(article),
        Err(error) => Err(MarkdownProcessError::ParseError(error)),
    }
}

} // verus!
