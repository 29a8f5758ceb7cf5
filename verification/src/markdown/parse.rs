//! From the text of a Markdown file to an article.
use vstd::prelude::*;
use vstd::string::StringExecFns;
use crate::markdown::full_service::parse_content;
use crate::markdown::full_service::parsed;
use crate::markdown::full_service::ParseModel;
use crate::model::Article;
use crate::model::ArticleMetadata;
use crate::structure::identity;
use crate::structure::ArticleFile;
use crate::structure::GroupNodeModel;
use crate::text::texts;

verus! {

/// Why a Markdown file gave no article.
#[derive(Debug)]
pub enum ParseError {
    /// The file is not where articles are expected.
    InvalidStructure,
    /// The path of the file cannot be written as text.
    InvalidPath,
    /// The document has no metadata block.
    NoFrontmatter,
    /// The metadata block is not valid metadata: the decoder's message.
    InvalidToml(String),
    /// The events of the document broke the rules that the sub-parsers
    /// rely on. This is a defect of the tokenizer or of the pipeline, not
    /// of the document.
    Unprocessable,
}

pub ghost enum ParseErrorModel {
    InvalidStructure,
    InvalidPath,
    NoFrontmatter,
    InvalidToml(Seq<char>),
    Unprocessable,
}

impl View for ParseError {
    type V = ParseErrorModel;

    open spec fn view(&self) -> ParseErrorModel {
        match self {
            ParseError::InvalidStructure => ParseErrorModel::InvalidStructure,
            ParseError::InvalidPath => ParseErrorModel::InvalidPath,
            ParseError::NoFrontmatter => ParseErrorModel::NoFrontmatter,
            ParseError::InvalidToml(message) => ParseErrorModel::InvalidToml(message@),
            ParseError::Unprocessable => ParseErrorModel::Unprocessable,
        }
    }
}

impl ParseErrorModel {
    /// The error in words.
    pub open spec fn message(self) -> Seq<char> {
        match self {
            ParseErrorModel::InvalidStructure =>
                "The file is at the invalid location. Expected markdown files to be placed at `./$year/$month/$day[-$num]_$slug.md`."@,
            ParseErrorModel::InvalidPath =>
                "The file is at the path where cannot be represented in UTF-8."@,
            ParseErrorModel::NoFrontmatter =>
                "No TOML frontmatter was found. Write TOML frontmatter wrapped with `+++` at the top of the markdown content."@,
            ParseErrorModel::InvalidToml(message) =>
                "The frontmatter could not be parsed or not valid metadata:\n"@ + message,
            ParseErrorModel::Unprocessable =>
                "The events of the document came in an order that the pipeline is not made for."@,
        }
    }
}

impl ParseError {
    /// The error in words.
    pub fn message(&self) -> (message: String)
        ensures
            message@ == self@.message(),
    {
        match self {
            ParseError::InvalidStructure => String::from_str(
                "The file is at the invalid location. Expected markdown files to be placed at `./$year/$month/$day[-$num]_$slug.md`.",
            ),
            ParseError::InvalidPath => String::from_str(
                "The file is at the path where cannot be represented in UTF-8.",
            ),
            ParseError::NoFrontmatter => String::from_str(
                "No TOML frontmatter was found. Write TOML frontmatter wrapped with `+++` at the top of the markdown content.",
            ),
            ParseError::InvalidToml(decoder) => {
                let mut message = String::from_str(
                    "The frontmatter could not be parsed or not valid metadata:\n",
                );
                message.append(decoder.as_str());
                message
            },
            ParseError::Unprocessable => String::from_str(
                "The events of the document came in an order that the pipeline is not made for.",
            ),
        }
    }
}

/// What was read of a document that has a metadata block.
#[derive(Debug)]
pub struct ParsedContent {
    /// The text of the metadata block.
    pub frontmatter: String,
    /// The HTML of the rest.
    pub html: String,
    /// The languages declared by code blocks for which no syntax was
    /// found.
    pub unknown_languages: Vec<String>,
    /// The shortcodes that are no emoji's, each once.
    pub unresolved_emojis: Vec<String>,
}

/// What is read of the document `content`, or why nothing is.
pub open spec fn parsed_markdown(content: Seq<char>) -> Result<ParseModel, ParseErrorModel> {
    match parsed(content) {
        Some(found) => if found.frontmatter is Some {
            Ok(found)
        } else {
            Err(ParseErrorModel::NoFrontmatter)
        },
        None => Err(ParseErrorModel::Unprocessable),
    }
}

/// Reads the document `content`. A document without a metadata block is
/// refused.
pub fn parse_markdown(content: &str) -> (read: Result<ParsedContent, ParseError>)
    ensures
        match read {
            Ok(found) => parsed_markdown(content@) == Ok::<ParseModel, ParseErrorModel>(
                ParseModel {
                    frontmatter: Some(found.frontmatter@),
                    html: found.html@,
                    unknown_languages: texts(found.unknown_languages@),
                    unresolved_emojis: texts(found.unresolved_emojis@),
                },
            ),
            Err(error) => parsed_markdown(content@) == Err::<ParseModel, ParseErrorModel>(error@),
        },
{
    match parse_content(content) {
        Some(found) => match found.frontmatter {
            Some(frontmatter) => Ok(
                ParsedContent {
                    frontmatter,
                    html: found.html,
                    unknown_languages: found.unknown_languages,
                    unresolved_emojis: found.unresolved_emojis,
                },
            ),
            None => Err(ParseError::NoFrontmatter),
        },
        None => Err(ParseError::Unprocessable),
    }
}

/// What the pipeline has to say of a document that it has read.
#[derive(Debug)]
pub struct Diagnostics {
    /// The languages declared by code blocks for which no syntax was
    /// found, so that the code was taken for plain text.
    pub unknown_languages: Vec<String>,
    /// The shortcodes that are no emoji's, each once.
    pub unresolved_emojis: Vec<String>,
}

/// The decoder `decode`, given the text `frontmatter`, may answer
/// `metadata`.
pub open spec fn decodes<F: Fn(&str) -> Result<ArticleMetadata, String>>(
    decode: F,
    frontmatter: Seq<char>,
    metadata: Result<ArticleMetadata, String>,
) -> bool {
    exists|given: &str| given@ == frontmatter && call_ensures(decode, (given,), metadata)
}

/// `made` is what becomes of the document `content` of the article
/// source `file` with the decoder `decode`: the article with what the
/// pipeline has to say of it, or why there is none. The identity of the
/// article comes from the name of the file, its metadata from what
/// `decode` makes of the metadata block, its text from the rest. What
/// `decode` refuses is invalid metadata.
pub open spec fn article_of<F: Fn(&str) -> Result<ArticleMetadata, String>>(
    file: GroupNodeModel,
    content: Seq<char>,
    decode: F,
    made: Result<(Article, Diagnostics), ParseError>,
) -> bool {
    match parsed_markdown(content) {
        Err(error) => made is Err && made->Err_0@ == error,
        Ok(found) => exists|metadata: Result<ArticleMetadata, String>| #[trigger]
            decodes(decode, found.frontmatter->0, metadata) && match metadata {
                Ok(metadata) => {
                    &&& made is Ok
                    &&& made->Ok_0.0.metadata == metadata
                    &&& made->Ok_0.0.content@ == found.html
                    &&& made->Ok_0.0.id@ == identity(file.group, file.suffix[0])
                    &&& texts(made->Ok_0.1.unknown_languages@) == found.unknown_languages
                    &&& texts(made->Ok_0.1.unresolved_emojis@) == found.unresolved_emojis
                },
                Err(message) => made is Err && made->Err_0@ == ParseErrorModel::InvalidToml(
                    message@,
                ),
            },
    }
}

/// Reads the document `content` of the article source `file` and makes
/// the article of it.
pub fn make_article_from_markdown<F: Fn(&str) -> Result<ArticleMetadata, String>>(
    file: &ArticleFile,
    content: &str,
    decode: &F,
) -> (made: Result<(Article, Diagnostics), ParseError>)
    requires
        file.wf(),
        forall|frontmatter: &str| call_requires(*decode, (frontmatter,)),
    ensures
        article_of(file@, content@, *decode, made),
{
    let found = match parse_markdown(content) {
        Ok(found) => found,
        Err(error) => {
            return Err(error);
        },
    };
    let frontmatter = found.frontmatter.as_str();
    let metadata = decode(frontmatter);
    let ghost read = parsed_markdown(content@)->Ok_0;
    proof {
        assert(read.frontmatter == Some(found.frontmatter@));
        assert(read.html == found.html@);
        assert(frontmatter@ == read.frontmatter->0 && call_ensures(
            *decode,
            (frontmatter,),
            metadata,
        ));
        assert(decodes(*decode, read.frontmatter->0, metadata));
    }
    match metadata {
        Ok(metadata) => Ok(
            (
                Article { id: file.id(), metadata, content: found.html },
                Diagnostics {
                    unknown_languages: found.unknown_languages,
                    unresolved_emojis: found.unresolved_emojis,
                },
            ),
        ),
        Err(message) => Err(ParseError::InvalidToml(message)),
    }
}

} // verus!
