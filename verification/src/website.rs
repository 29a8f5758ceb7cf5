//! The pages of the site: each article's page and the index, made by
//! filling the placeholders of the templates.
use vstd::prelude::*;
use vstd::string::StringExecFns;
use crate::construct::ConstructFile;
use crate::construct::Construction;
use crate::construct::FileModel;
use crate::construct::TreeModel;
use crate::construct::lemma_subtree_models;
use crate::model::GenerationContext;
use crate::template::all_given;
use crate::template::answered_by;
use crate::template::built_pattern;
use crate::template::filled;
use crate::template::given;
use crate::template::option_texts;
use crate::template::unfilled;
use crate::template::used_names;
use crate::template::Placeholder;
use crate::template::PlaceholderError;
use crate::template::PlaceholderErrorModel;
use crate::text::option_text;
use crate::text::same_text;
use crate::text::texts;
use crate::widgets::entries_view;

use crate::website::articles::ArticlePage;
use crate::website::articles::pages_view;
use crate::website::articles::IndexPage;
use crate::website::articles::PageModel;

pub mod articles;

verus! {

/// Why a page could not be generated.
#[derive(Debug)]
pub enum WebsiteGenerationError {
    /// The template holds placeholders for which there is nothing to put:
    /// their names.
    InvalidPlaceholder(Vec<String>),
    /// A template could not be read: the message of the error.
    IOError(String),
    /// The pattern that finds the placeholders of a template could not be
    /// built.
    InvalidPattern(PlaceholderError),
}

/// The templates of the site.
#[derive(Debug)]
pub struct WebPageHtmlTemplates {
    /// The template of an article page.
    pub article: String,
    /// The template of the index page.
    pub index: String,
    /// The style of the index page.
    pub index_style: String,
    /// The template of one entry of the index page.
    pub index_list: String,
}

/// What the table `table` holds for the placeholder `name`: of several
/// entries for one name the last counts.
pub open spec fn lookup(table: Seq<(Seq<char>, Seq<char>)>, name: Seq<char>) -> Option<Seq<char>>
    decreases table.len(),
{
    if table.len() == 0 {
        None
    } else if table.last().0 == name {
        Some(table.last().1)
    } else {
        lookup(table.drop_last(), name)
    }
}

/// What the table `table` holds for each of `names`.
pub open spec fn looked_up(table: Seq<(Seq<char>, Seq<char>)>, names: Seq<Seq<char>>) -> Seq<
    Option<Seq<char>>,
> {
    Seq::new(names.len(), |i: int| lookup(table, names[i]))
}

/// The pattern of the placeholders of a template, or why there is none:
/// a name between `${` and `}`.
pub open spec fn template_pattern() -> Result<Seq<char>, PlaceholderErrorModel> {
    built_pattern("${"@, "}"@, None)
}

/// The template `template` with its placeholders filled from `table`; the
/// names of those that `table` does not hold, if there are any.
pub open spec fn page(
    pattern: Seq<char>,
    template: Seq<char>,
    table: Seq<(Seq<char>, Seq<char>)>,
) -> Result<Seq<char>, Seq<Seq<char>>> {
    let names = used_names(pattern, template);
    let found = looked_up(table, names);
    if all_given(found) {
        Ok(filled(pattern, template, given(found)))
    } else {
        Err(unfilled(names, found, names.len()))
    }
}

/// What `table` holds for the placeholder `name`.
pub fn find_entry(table: &Vec<(String, String)>, name: &str) -> (found: Option<String>)
    ensures
        option_text(found) == lookup(entries_view(table@), name@),
{
    let mut i: usize = table.len();
    proof {
        assert(entries_view(table@).subrange(0, i as int) =~= entries_view(table@));
    }
    while i > 0
        invariant
            i <= table.len(),
            lookup(entries_view(table@), name@) == lookup(
                entries_view(table@).subrange(0, i as int),
                name@,
            ),
        decreases i,
    {
        proof {
            let upto = entries_view(table@).subrange(0, i as int);
            assert(upto.last() == entries_view(table@)[i - 1]);
            assert(upto.drop_last() =~= entries_view(table@).subrange(0, i - 1));
        }
        if same_text(table[i - 1].0.as_str(), name) {
            return Some(table[i - 1].1.clone());
        }
        i -= 1;
    }
    None
}

/// The template `template` with its placeholders filled from `table`.
pub fn fill_page(placeholder: &Placeholder, template: &str, table: &Vec<(String, String)>) -> (out:
    Result<String, Vec<String>>)
    ensures
        match out {
            Ok(html) => page(placeholder@, template@, entries_view(table@)) == Ok::<
                Seq<char>,
                Seq<Seq<char>>,
            >(html@),
            Err(failed) => page(placeholder@, template@, entries_view(table@)) == Err::<
                Seq<char>,
                Seq<Seq<char>>,
            >(texts(failed@)),
        },
{
    let filler = |name: &str| -> (found: Option<String>)
        ensures
            option_text(found) == lookup(entries_view(table@), name@),
        { find_entry(table, name) };
    let out = placeholder.partially_fill_placeholders(template, filler);
    proof {
        let names = used_names(placeholder@, template@);
        let found = looked_up(entries_view(table@), names);
        let replies = choose|replies: Seq<Option<String>>| #[trigger]
            answered_by(filler, names, replies) && match out {
                Ok(text) => all_given(option_texts(replies)) && text@ == filled(
                    placeholder@,
                    template@,
                    given(option_texts(replies)),
                ),
                Err(failed) => !all_given(option_texts(replies)) && texts(failed@) == unfilled(
                    names,
                    option_texts(replies),
                    replies.len(),
                ),
            };
        assert(option_texts(replies) =~= found);
    }
    out
}

/// An entry of a table of placeholders.
pub fn entry(name: &str, value: String) -> (entry: (String, String))
    ensures
        entry.0@ == name@,
        entry.1@ == value@,
{
    (String::from_str(name), value)
}

/// What stands at the markers of a part that is for debugging or for
/// release: in a page, the part that is not for the current context is
/// put in a comment.
pub open spec fn page_markers(release: bool) -> Seq<(Seq<char>, Seq<char>)> {
    seq![
        ("if-debug"@, if release { "<!-- (if-debug: false) "@ } else { Seq::empty() }),
        ("end-if-debug"@, if release { " (end-if-debug: false) -->"@ } else { Seq::empty() }),
        ("if-release"@, if release { Seq::empty() } else { "<!-- (if-release: false) "@ }),
        ("end-if-release"@, if release { Seq::empty() } else { " (end-if-release: false) -->"@ }),
    ]
}

/// What stands at the markers in an entry of the index.
pub open spec fn entry_markers(release: bool) -> Seq<(Seq<char>, Seq<char>)> {
    seq![
        ("if-debug"@, if release { Seq::empty() } else { "<!-- (debug) "@ }),
        ("end-if-debug"@, if release { Seq::empty() } else { " (debug) -->"@ }),
        ("if-release"@, if release { "<!-- (release) "@ } else { Seq::empty() }),
        ("end-if-release"@, if release { " (release) -->"@ } else { Seq::empty() }),
    ]
}

/// `yes` or `no`, as a string.
pub fn either(condition: bool, yes: &str, no: &str) -> (chosen: String)
    ensures
        chosen@ == if condition { yes@ } else { no@ },
{
    if condition {
        String::from_str(yes)
    } else {
        String::from_str(no)
    }
}

/// The markers of a page, added to `table`.
pub fn push_page_markers(table: &mut Vec<(String, String)>, ctx: &GenerationContext)
    ensures
        entries_view(final(table)@) == entries_view(old(table)@) + page_markers(ctx.release),
{
    proof {
        reveal_strlit("");
        assert(""@ =~= Seq::<char>::empty());
    }
    table.push(entry("if-debug", either(ctx.release, "<!-- (if-debug: false) ", "")));
    table.push(entry("end-if-debug", either(ctx.release, " (end-if-debug: false) -->", "")));
    table.push(entry("if-release", either(ctx.release, "", "<!-- (if-release: false) ")));
    table.push(entry("end-if-release", either(ctx.release, "", " (end-if-release: false) -->")));
    proof {
        assert(entries_view(table@) =~= entries_view(old(table)@) + page_markers(ctx.release));
    }
}

/// The markers of an entry of the index, added to `table`.
pub fn push_entry_markers(table: &mut Vec<(String, String)>, ctx: &GenerationContext)
    ensures
        entries_view(final(table)@) == entries_view(old(table)@) + entry_markers(ctx.release),
{
    proof {
        reveal_strlit("");
        assert(""@ =~= Seq::<char>::empty());
    }
    table.push(entry("if-debug", either(ctx.release, "", "<!-- (debug) ")));
    table.push(entry("end-if-debug", either(ctx.release, "", " (debug) -->")));
    table.push(entry("if-release", either(ctx.release, "<!-- (release) ", "")));
    table.push(entry("end-if-release", either(ctx.release, " (release) -->", "")));
    proof {
        assert(entries_view(table@) =~= entries_view(old(table)@) + entry_markers(ctx.release));
    }
}


/// The tree of the site: the index page, if there is one, at the top, and
/// the pages of the articles in the directory `articles` below it.
pub open spec fn webpage_tree(index: Option<FileModel>, pages: Seq<FileModel>) -> TreeModel {
    TreeModel {
        dir: Seq::empty(),
        content: match index {
            Some(index) => seq![index],
            None => Seq::empty(),
        },
        sub_dir: seq![TreeModel { dir: "articles"@, content: pages, sub_dir: Seq::empty() }],
    }
}

/// What a list of files to construct holds.
pub open spec fn files_view(v: Seq<ConstructFile>) -> Seq<FileModel> {
    Seq::new(v.len(), |i: int| v[i]@)
}

/// The files of the pages `pages`.
pub open spec fn page_files(pages: Seq<PageModel>) -> Seq<FileModel> {
    Seq::new(pages.len(), |i: int| FileModel { path: pages[i].path, content: pages[i].html })
}

/// The tree of the site.
pub fn get_webpage_construction(index: Option<&IndexPage>, articles: &Vec<ArticlePage>) -> (tree:
    Construction)
    ensures
        tree@ == webpage_tree(
            match index {
                Some(index) => Some(FileModel { path: index.path@, content: index.html@ }),
                None => None,
            },
            page_files(pages_view(articles@)),
        ),
{
    let mut content: Vec<ConstructFile> = Vec::new();
    if let Some(index) = index {
        content.push(index.to_construct_file());
    }
    let mut pages: Vec<ConstructFile> = Vec::new();
    let mut i: usize = 0;
    while i < articles.len()
        invariant
            i <= articles.len(),
            pages@.len() == i,
            forall|k: int|
                0 <= k < i ==> (#[trigger] pages@[k])@ == page_files(pages_view(articles@))[k],
        decreases articles.len() - i,
    {
        pages.push(articles[i].to_construct_file());
        i += 1;
    }
    let below = Construction { dir: String::from_str("articles"), content: pages, sub_dir: Vec::new() };
    let mut sub_dir: Vec<Construction> = Vec::new();
    sub_dir.push(below);
    let tree = Construction { dir: String::new(), content, sub_dir };
    proof {
        lemma_subtree_models(tree, 1);
        lemma_subtree_models(tree.sub_dir@[0], 0);
        assert(tree.sub_dir@[0]@.content =~= page_files(pages_view(articles@)));
        assert(tree.sub_dir@[0]@.sub_dir =~= Seq::<TreeModel>::empty());
        assert(tree@.sub_dir =~= seq![tree.sub_dir@[0]@]);
        assert(tree@.content =~= match index {
            Some(index) => seq![FileModel { path: index.path@, content: index.html@ }],
            None => Seq::<FileModel>::empty(),
        });
    }
    tree
}

} // verus!
