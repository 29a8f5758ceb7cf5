//! The steps of a build, as far as they are decisions: which articles are
//! made, which pages are planned, what is copied where.
use vstd::prelude::*;
use vstd::string::StringExecFns;
use crate::construct::excluded;
use crate::construct::plan_dirs;
use crate::construct::plan_files;
use crate::construct::sorted_by_len;
use crate::construct::ConstructionPlan;
use crate::construct::FileModel;
use crate::construct::TreeModel;
use crate::fs::Directory;
use crate::fs::File;
use crate::markdown::parse::Diagnostics;
use crate::markdown::processed_article;
use crate::markdown::parse_markdown;
use crate::markdown::MarkdownProcessError;
use crate::model::Article;
use crate::model::ArticleMetadata;
use crate::model::GenerationContext;
use crate::path::join;
use crate::path::joined;
use crate::path::path_join;
use crate::path::path_strip_prefix;
use crate::path::strip_prefix;
use crate::structure::padded;
use crate::structure::template::ARTICLE_TEMPLATE;
use crate::structure::ArticleFile;
use crate::structure::ArticleGroup;
use crate::structure::AssetFile;
use crate::structure::AssetRootDir;
use crate::template::Placeholder;
use crate::template::PlaceholderErrorModel;
use crate::text::decimal;
use crate::text::same_text;
use crate::text::texts;
use crate::website::articles::article_path;
use crate::website::articles::article_table;
use crate::website::articles::generate_article_html;
use crate::website::articles::generate_index_html;
use crate::website::articles::index_html;
use crate::website::articles::pages_view;
use crate::website::articles::ArticlePage;
use crate::website::articles::PageModel;
use crate::website::get_webpage_construction;
use crate::website::page;
use crate::website::page_files;
use crate::website::template_pattern;
use crate::website::webpage_tree;
use crate::website::WebPageHtmlTemplates;
use crate::website::WebsiteGenerationError;

verus! {

/// Why a step of a build failed.
#[derive(Debug)]
pub enum TaskError {
    Markdown(MarkdownProcessError),
    WebsiteGeneration(WebsiteGenerationError),
    /// A file could not be copied: the message of the error.
    FileCopy(String),
}

/// The source of an article as it was found: the file, and its text or
/// the message of the error that kept it from being read.
#[derive(Debug)]
pub struct ArticleSource {
    pub file: ArticleFile,
    pub content: Result<String, String>,
}

/// `made` is what becomes of the source `source` with the decoder
/// `decode`: the article with what the pipeline has to say of it, or why
/// there is none. A source that could not be read gives the message of
/// that error.
pub open spec fn outcome_of<F: Fn(&str) -> Result<ArticleMetadata, String>>(
    source: ArticleSource,
    decode: F,
    made: Result<(Article, Diagnostics), MarkdownProcessError>,
) -> bool {
    match source.content {
        Err(message) => made matches Err(MarkdownProcessError::IOError(kept)) && kept@
            == message@,
        Ok(content) => processed_article(source.file@, content@, decode, made),
    }
}

/// `outcomes` are what becomes of `sources`, one for each.
pub open spec fn outcomes_of<F: Fn(&str) -> Result<ArticleMetadata, String>>(
    sources: Seq<ArticleSource>,
    decode: F,
    outcomes: Seq<Result<(Article, Diagnostics), MarkdownProcessError>>,
) -> bool {
    &&& outcomes.len() == sources.len()
    &&& forall|i: int|
        0 <= i < sources.len() ==> outcome_of(sources[i], decode, #[trigger] outcomes[i])
}

/// The articles among the first `n` of `outcomes`, in order.
pub open spec fn articles_made(outcomes: Seq<Result<(Article, Diagnostics), MarkdownProcessError>>, n: nat) -> Seq<
    Article,
>
    decreases n,
{
    if n == 0 || n > outcomes.len() {
        Seq::empty()
    } else {
        match outcomes[n - 1] {
            Ok(made) => articles_made(outcomes, (n - 1) as nat).push(made.0),
            Err(_) => articles_made(outcomes, (n - 1) as nat),
        }
    }
}

/// What the pipeline has to say of the articles among the first `n` of
/// `outcomes`, in the order of the articles.
pub open spec fn diagnostics_made(
    outcomes: Seq<Result<(Article, Diagnostics), MarkdownProcessError>>,
    n: nat,
) -> Seq<Diagnostics>
    decreases n,
{
    if n == 0 || n > outcomes.len() {
        Seq::empty()
    } else {
        match outcomes[n - 1] {
            Ok(made) => diagnostics_made(outcomes, (n - 1) as nat).push(made.1),
            Err(_) => diagnostics_made(outcomes, (n - 1) as nat),
        }
    }
}

/// The failures among the first `n` of `outcomes`, in order, each with
/// the place of its source.
pub open spec fn failures_met(outcomes: Seq<Result<(Article, Diagnostics), MarkdownProcessError>>, n: nat) -> Seq<
    (usize, MarkdownProcessError),
>
    decreases n,
{
    if n == 0 || n > outcomes.len() {
        Seq::empty()
    } else {
        match outcomes[n - 1] {
            Ok(_) => failures_met(outcomes, (n - 1) as nat),
            Err(error) => failures_met(outcomes, (n - 1) as nat).push(((n - 1) as usize, error)),
        }
    }
}

/// What was made of a list of sources: the articles, for each article
/// what the pipeline has to say of it, and for each source that gave no
/// article its place and the reason.
#[derive(Debug)]
pub struct ParsedArticles {
    pub articles: Vec<Article>,
    pub diagnostics: Vec<Diagnostics>,
    pub failures: Vec<(usize, MarkdownProcessError)>,
}

/// Makes the article of each of `sources`. A source that gives no article
/// is passed over and reported; the others are not affected by it.
pub fn parse_articles<F: Fn(&str) -> Result<ArticleMetadata, String>>(
    sources: &Vec<ArticleSource>,
    decode: &F,
) -> (made: ParsedArticles)
    requires
        forall|i: int| 0 <= i < sources@.len() ==> (#[trigger] sources@[i]).file.wf(),
        forall|frontmatter: &str| call_requires(*decode, (frontmatter,)),
    ensures
        exists|outcomes: Seq<Result<(Article, Diagnostics), MarkdownProcessError>>| #[trigger]
            outcomes_of(sources@, *decode, outcomes) && made.articles@ == articles_made(
                outcomes,
                outcomes.len(),
            ) && made.diagnostics@ == diagnostics_made(outcomes, outcomes.len()) && made.failures@
                == failures_met(outcomes, outcomes.len()),
{
    let mut articles: Vec<Article> = Vec::new();
    let mut diagnostics: Vec<Diagnostics> = Vec::new();
    let mut failures: Vec<(usize, MarkdownProcessError)> = Vec::new();
    let ghost mut outcomes: Seq<Result<(Article, Diagnostics), MarkdownProcessError>> = Seq::empty();
    let mut i: usize = 0;
    while i < sources.len()
        invariant
            i <= sources.len(),
            forall|k: int| 0 <= k < sources@.len() ==> (#[trigger] sources@[k]).file.wf(),
            forall|frontmatter: &str| call_requires(*decode, (frontmatter,)),
            outcomes.len() == i,
            forall|k: int| 0 <= k < i ==> outcome_of(sources@[k], *decode, #[trigger] outcomes[k]),
            articles@ == articles_made(outcomes, i as nat),
            diagnostics@ == diagnostics_made(outcomes, i as nat),
            failures@ == failures_met(outcomes, i as nat),
        decreases sources.len() - i,
    {
        let source = &sources[i];
        let made = match &source.content {
            Ok(content) => parse_markdown(&source.file, content.as_str(), decode),
            Err(message) => Err(MarkdownProcessError::IOError(message.clone())),
        };
        proof {
            let before = outcomes;
            outcomes = outcomes.push(made);
            assert(outcome_of(sources@[i as int], *decode, made));
            lemma_outcomes_stable(before, outcomes, i as nat);
        }
        match made {
            Ok((article, said)) => {
                articles.push(article);
                diagnostics.push(said);
            },
            Err(error) => {
                failures.push((i, error));
            },
        }
        i += 1;
    }
    proof {
        assert(outcomes_of(sources@, *decode, outcomes));
    }
    ParsedArticles { articles, diagnostics, failures }
}

/// What was made of the first `n` sources does not depend on those that
/// follow.
pub proof fn lemma_outcomes_stable(
    first: Seq<Result<(Article, Diagnostics), MarkdownProcessError>>,
    second: Seq<Result<(Article, Diagnostics), MarkdownProcessError>>,
    n: nat,
)
    requires
        n <= first.len() <= second.len(),
        forall|i: int| 0 <= i < n ==> first[i] == second[i],
    ensures
        articles_made(first, n) == articles_made(second, n),
        diagnostics_made(first, n) == diagnostics_made(second, n),
        failures_met(first, n) == failures_met(second, n),
    decreases n,
{
    if n > 0 {
        lemma_outcomes_stable(first, second, (n - 1) as nat);
    }
}

/// The pages of the first `n` of `articles`; the names of the
/// placeholders that cannot be filled for the first article for which some
/// cannot, if there is one.
pub open spec fn article_pages(
    pattern: Seq<char>,
    template: Seq<char>,
    articles: Seq<Article>,
    release: bool,
    n: nat,
) -> Result<Seq<PageModel>, Seq<Seq<char>>>
    decreases n,
{
    if n == 0 || n > articles.len() {
        Ok(Seq::empty())
    } else {
        match article_pages(pattern, template, articles, release, (n - 1) as nat) {
            Ok(sofar) => match page(pattern, template, article_table(articles[n - 1], release)) {
                Ok(html) => Ok(
                    sofar.push(
                        PageModel {
                            article: articles[n - 1],
                            html,
                            path: article_path(articles[n - 1]),
                        },
                    ),
                ),
                Err(names) => Err(names),
            },
            Err(names) => Err(names),
        }
    }
}

/// The tree of the site for `articles`: their pages, and the index page
/// if the build is a full one.
pub open spec fn site_tree(
    pattern: Seq<char>,
    templates: &WebPageHtmlTemplates,
    articles: Seq<Article>,
    full_build: bool,
    release: bool,
) -> Result<TreeModel, Seq<Seq<char>>> {
    match article_pages(pattern, templates.article@, articles, release, articles.len()) {
        Ok(pages) => if full_build {
            match index_html(pattern, templates, pages, release) {
                Ok(html) => Ok(
                    webpage_tree(
                        Some(FileModel { path: "index.html"@, content: html }),
                        page_files(pages),
                    ),
                ),
                Err(names) => Err(names),
            }
        } else {
            Ok(webpage_tree(None, page_files(pages)))
        },
        Err(names) => Err(names),
    }
}

/// Once a page cannot be made, the names it lacks are what the pages
/// give, however many articles follow.
pub proof fn lemma_article_pages_fail(
    pattern: Seq<char>,
    template: Seq<char>,
    articles: Seq<Article>,
    release: bool,
    n: nat,
    m: nat,
)
    requires
        n <= m <= articles.len(),
        article_pages(pattern, template, articles, release, n) is Err,
    ensures
        article_pages(pattern, template, articles, release, m) == article_pages(
            pattern,
            template,
            articles,
            release,
            n,
        ),
    decreases m,
{
    if n < m {
        lemma_article_pages_fail(pattern, template, articles, release, n, (m - 1) as nat);
    }
}

/// `planned` is the plan of the pages of `articles` under `destination`,
/// or why there is none: a page for each article, and the index page if
/// the build is a full one. The first page that cannot be made ends the
/// planning with the names of the placeholders that it lacks.
pub open spec fn pages_planned(
    html_templates: &WebPageHtmlTemplates,
    articles: Seq<Article>,
    full_build: bool,
    release: bool,
    destination: Seq<char>,
    planned: Result<ConstructionPlan, WebsiteGenerationError>,
) -> bool {
    match planned {
        Ok(plan) => template_pattern() is Ok && (site_tree(
            template_pattern()->Ok_0,
            html_templates,
            articles,
            full_build,
            release,
        ) matches Ok(tree) && plan@.dirs == sorted_by_len(plan_dirs(tree, destination))
            && plan@.files == plan_files(tree, destination)),
        Err(WebsiteGenerationError::InvalidPlaceholder(names)) => template_pattern() is Ok
            && site_tree(template_pattern()->Ok_0, html_templates, articles, full_build, release)
            == Err::<TreeModel, Seq<Seq<char>>>(texts(names@)),
        Err(WebsiteGenerationError::InvalidPattern(error)) => template_pattern() == Err::<
            Seq<char>,
            PlaceholderErrorModel,
        >(error@),
        Err(WebsiteGenerationError::IOError(_)) => false,
    }
}

/// Plans the pages of `articles` under `destination`.
pub fn plan_pages(
    html_templates: &WebPageHtmlTemplates,
    articles: &Vec<Article>,
    full_build: bool,
    ctx: &GenerationContext,
    destination: &str,
) -> (planned: Result<ConstructionPlan, WebsiteGenerationError>)
    ensures
        pages_planned(html_templates, articles@, full_build, ctx.release, destination@, planned),
{
    if let Err(error) = Placeholder::from_strs("${", "}", None) {
        return Err(WebsiteGenerationError::InvalidPattern(error));
    }
    let mut pages: Vec<ArticlePage> = Vec::new();
    let mut i: usize = 0;
    proof {
        assert(pages_view(pages@) =~= Seq::<PageModel>::empty());
    }
    while i < articles.len()
        invariant
            i <= articles.len(),
            template_pattern() is Ok,
            article_pages(
                template_pattern()->Ok_0,
                html_templates.article@,
                articles@,
                ctx.release,
                i as nat,
            ) == Ok::<Seq<PageModel>, Seq<Seq<char>>>(pages_view(pages@)),
        decreases articles.len() - i,
    {
        match generate_article_html(html_templates, &articles[i], ctx) {
            Ok(made) => {
                proof {
                    assert(pages_view(pages@.push(made)) =~= pages_view(pages@).push(made@));
                }
                pages.push(made);
            },
            Err(WebsiteGenerationError::InvalidPlaceholder(names)) => {
                proof {
                    let pattern = template_pattern()->Ok_0;
                    assert(article_pages(
                        pattern,
                        html_templates.article@,
                        articles@,
                        ctx.release,
                        (i + 1) as nat,
                    ) == Err::<Seq<PageModel>, Seq<Seq<char>>>(texts(names@)));
                    lemma_article_pages_fail(
                        pattern,
                        html_templates.article@,
                        articles@,
                        ctx.release,
                        (i + 1) as nat,
                        articles@.len() as nat,
                    );
                }
                return Err(WebsiteGenerationError::InvalidPlaceholder(names));
            },
            Err(other) => {
                return Err(other);
            },
        }
        i += 1;
    }
    let index = if full_build {
        match generate_index_html(html_templates, &pages, ctx) {
            Ok(index) => Some(index),
            Err(error) => {
                return Err(error);
            },
        }
    } else {
        None
    };
    let tree = match &index {
        Some(index) => get_webpage_construction(Some(index), &pages),
        None => get_webpage_construction(None, &pages),
    };
    Ok(tree.plan(destination))
}

/// What a build of a list of sources gave: the plan of the pages, if
/// there was anything to build, what the pipeline has to say of each
/// article that was made, and for each source that gave no article its
/// place and the reason.
#[derive(Debug)]
pub struct BuildOutcome {
    pub plan: Option<ConstructionPlan>,
    pub diagnostics: Vec<Diagnostics>,
    pub failures: Vec<(usize, MarkdownProcessError)>,
}

/// `built` is what a build of `sources` gives, with `load_templates`
/// reading the templates and `decode` reading metadata. Without sources
/// there is nothing to build: no template is read and nothing is planned.
/// Else the templates are read first, and that they cannot be read ends the
/// build; then an article is made of each source, those that give none
/// being passed over, and the pages of the articles are planned.
pub open spec fn built_from<
    L: Fn() -> Result<WebPageHtmlTemplates, String>,
    F: Fn(&str) -> Result<ArticleMetadata, String>,
>(
    sources: Seq<ArticleSource>,
    load_templates: L,
    decode: F,
    full_build: bool,
    release: bool,
    destination: Seq<char>,
    built: Result<BuildOutcome, TaskError>,
) -> bool {
    if sources.len() == 0 {
        built matches Ok(outcome) && outcome.plan is None && outcome.diagnostics@.len() == 0
            && outcome.failures@.len() == 0
    } else {
        exists|loaded: Result<WebPageHtmlTemplates, String>| #[trigger]
            call_ensures(load_templates, (), loaded) && match loaded {
                Err(message) => built matches Err(
                    TaskError::WebsiteGeneration(WebsiteGenerationError::IOError(kept)),
                ) && kept@ == message@,
                Ok(templates) => exists|outcomes: Seq<Result<(Article, Diagnostics), MarkdownProcessError>>| #[trigger]
                    outcomes_of(sources, decode, outcomes) && match built {
                        Ok(outcome) => {
                            &&& outcome.plan matches Some(plan) && pages_planned(
                                &templates,
                                articles_made(outcomes, outcomes.len()),
                                full_build,
                                release,
                                destination,
                                Ok::<ConstructionPlan, WebsiteGenerationError>(plan),
                            )
                            &&& outcome.diagnostics@ == diagnostics_made(outcomes, outcomes.len())
                            &&& outcome.failures@ == failures_met(outcomes, outcomes.len())
                        },
                        Err(TaskError::WebsiteGeneration(error)) => pages_planned(
                            &templates,
                            articles_made(outcomes, outcomes.len()),
                            full_build,
                            release,
                            destination,
                            Err::<ConstructionPlan, WebsiteGenerationError>(error),
                        ),
                        Err(_) => false,
                    },
            }
    }
}

/// Builds the pages of `sources`: reads the templates with
/// `load_templates`, makes the articles with `decode`, and plans their
/// pages under `destination`. Without sources nothing is read and nothing
/// is planned.
pub fn build_files<
    L: Fn() -> Result<WebPageHtmlTemplates, String>,
    F: Fn(&str) -> Result<ArticleMetadata, String>,
>(
    sources: &Vec<ArticleSource>,
    full_build: bool,
    ctx: &GenerationContext,
    destination: &str,
    load_templates: &L,
    decode: &F,
) -> (built: Result<BuildOutcome, TaskError>)
    requires
        forall|i: int| 0 <= i < sources@.len() ==> (#[trigger] sources@[i]).file.wf(),
        call_requires(*load_templates, ()),
        forall|frontmatter: &str| call_requires(*decode, (frontmatter,)),
    ensures
        built_from(
            sources@,
            *load_templates,
            *decode,
            full_build,
            ctx.release,
            destination@,
            built,
        ),
{
    if sources.len() == 0 {
        return Ok(BuildOutcome { plan: None, diagnostics: Vec::new(), failures: Vec::new() });
    }
    let loaded = load_templates();
    proof {
        assert(call_ensures(*load_templates, (), loaded));
    }
    let templates = match loaded {
        Ok(templates) => templates,
        Err(message) => {
            return Err(TaskError::WebsiteGeneration(WebsiteGenerationError::IOError(message)));
        },
    };
    let made = parse_articles(sources, decode);
    let ghost outcomes = choose|outcomes: Seq<Result<(Article, Diagnostics), MarkdownProcessError>>| #[trigger]
        outcomes_of(sources@, *decode, outcomes) && made.articles@ == articles_made(
            outcomes,
            outcomes.len(),
        ) && made.diagnostics@ == diagnostics_made(outcomes, outcomes.len()) && made.failures@
            == failures_met(outcomes, outcomes.len());
    let ParsedArticles { articles, diagnostics, failures } = made;
    match plan_pages(&templates, &articles, full_build, ctx, destination) {
        Ok(plan) => {
            proof {
                assert(outcomes_of(sources@, *decode, outcomes));
            }
            Ok(BuildOutcome { plan: Some(plan), diagnostics, failures })
        },
        Err(error) => {
            proof {
                assert(outcomes_of(sources@, *decode, outcomes));
            }
            Err(TaskError::WebsiteGeneration(error))
        },
    }
}

/// Where the copy of the file at `file`, found below `dir`, goes below
/// `dest`: to the same place relative to `dest` as it has relative to
/// `dir`; a file that does not lie below `dir` keeps its whole path.
pub open spec fn copy_target(dir: Seq<char>, dest: Seq<char>, file: Seq<char>) -> Seq<char> {
    match strip_prefix(file, dir) {
        Some(relative) => join(dest, relative),
        None => join(dest, file),
    }
}

/// Where the copy of `file`, found below `dir`, goes below `dest`.
pub fn copy_individual_file(dir: &Directory, dest: &Directory, file: &File) -> (target: String)
    ensures
        target@ == copy_target(dir@, dest@, file@),
{
    match path_strip_prefix(file.path(), dir.path()) {
        Some(relative) => path_join(dest.path(), relative.as_str()),
        None => path_join(dest.path(), file.path()),
    }
}

/// The paths of `files`.
pub open spec fn paths_of(files: Seq<File>) -> Seq<Seq<char>> {
    Seq::new(files.len(), |i: int| files[i]@)
}

/// `path` is one of `excludes`, each taken under `root` unless it is
/// absolute.
pub open spec fn is_excluded(root: Seq<char>, path: Seq<char>, excludes: Seq<Seq<char>>) -> bool {
    exists|i: int| 0 <= i < excludes.len() && path == join(root, #[trigger] excludes[i])
}

/// Those of the first `n` of `files` that are not excluded, in order.
pub open spec fn kept(root: Seq<char>, files: Seq<Seq<char>>, excludes: Seq<Seq<char>>, n: nat) -> Seq<
    Seq<char>,
>
    decreases n,
{
    if n == 0 || n > files.len() {
        Seq::empty()
    } else if is_excluded(root, files[n - 1], excludes) {
        kept(root, files, excludes, (n - 1) as nat)
    } else {
        kept(root, files, excludes, (n - 1) as nat).push(files[n - 1])
    }
}

/// Those of `files`, found below `dir`, that are to be copied: all but
/// those that `excludes` names.
pub fn copy_dir_recursively(dir: &Directory, files: &Vec<File>, excludes: &Vec<String>) -> (
    copied: Vec<File>
)
    ensures
        paths_of(copied@) == kept(dir@, paths_of(files@), texts(excludes@), files@.len()),
{
    let mut copied: Vec<File> = Vec::new();
    let mut i: usize = 0;
    proof {
        assert(paths_of(copied@) =~= Seq::<Seq<char>>::empty());
    }
    while i < files.len()
        invariant
            i <= files.len(),
            paths_of(copied@) == kept(dir@, paths_of(files@), texts(excludes@), i as nat),
        decreases files.len() - i,
    {
        let out = excluded(dir.path(), files[i].path(), excludes);
        proof {
            assert(paths_of(files@)[i as int] == files@[i as int]@);
            let wanted = is_excluded(dir@, files@[i as int]@, texts(excludes@));
            if out {
                let k = choose|k: int|
                    0 <= k < excludes@.len() && files@[i as int]@ == join(
                        dir@,
                        #[trigger] excludes@[k]@,
                    );
                assert(texts(excludes@)[k] == excludes@[k]@);
            }
            if wanted {
                let k = choose|k: int|
                    0 <= k < texts(excludes@).len() && files@[i as int]@ == join(
                        dir@,
                        #[trigger] texts(excludes@)[k],
                    );
                assert(texts(excludes@)[k] == excludes@[k]@);
            }
            assert(out == wanted);
        }
        if !out {
            let file = files[i].duplicate();
            proof {
                assert(paths_of(copied@.push(file)) =~= paths_of(copied@).push(file@));
            }
            copied.push(file);
        }
        i += 1;
    }
    copied
}

/// What is left out when the template directory is copied: the template
/// of the article page.
pub fn copy_template_files() -> (excludes: Vec<String>)
    ensures
        texts(excludes@) == seq![ARTICLE_TEMPLATE@],
{
    let mut excludes: Vec<String> = Vec::new();
    excludes.push(String::from_str(ARTICLE_TEMPLATE));
    proof {
        assert(texts(excludes@) =~= seq![ARTICLE_TEMPLATE@]);
    }
    excludes
}

/// Where the assets of `group` go below `destination`.
pub open spec fn asset_target(destination: Seq<char>, group: ArticleGroup) -> Seq<char> {
    join(
        join(
            join(destination, "articles"@),
            padded(decimal(group.year as nat), 4) + padded(decimal(group.month as nat), 2),
        ),
        "assets"@,
    )
}

fn asset_directory(destination: &Directory, group: &ArticleGroup) -> (target: String)
    ensures
        target@ == asset_target(destination@, *group),
{
    path_join(
        path_join(
            path_join(destination.path(), "articles").as_str(),
            group.group_dir_flat_path().as_str(),
        ).as_str(),
        "assets",
    )
}

/// For each of `assets`, the directories of assets that were found below
/// the content root: that directory, as it was found, and the directory
/// below `destination` that what it holds is copied to.
pub fn copy_asset_files(assets: &Vec<AssetRootDir>, destination: &Directory) -> (copies: Vec<
    (String, String),
>)
    ensures
        copies@.len() == assets@.len(),
        forall|i: int|
            0 <= i < copies@.len() ==> (#[trigger] copies@[i]).0@ == assets@[i]@.node.path()
                && copies@[i].1@ == asset_target(destination@, assets@[i]@.group),
{
    let mut copies: Vec<(String, String)> = Vec::new();
    let mut i: usize = 0;
    while i < assets.len()
        invariant
            i <= assets.len(),
            copies@.len() == i,
            forall|k: int|
                0 <= k < i ==> (#[trigger] copies@[k]).0@ == assets@[k]@.node.path()
                    && copies@[k].1@ == asset_target(destination@, assets@[k]@.group),
        decreases assets.len() - i,
    {
        let source = String::from_str(assets[i].directory().path());
        let target = asset_directory(destination, &assets[i].group());
        copies.push((source, target));
        i += 1;
    }
    copies
}

/// For each of `files`, where its copy goes below `destination`: to the
/// directory of the assets of its group, at the place it has in the
/// directory of assets that it was found in.
pub fn copy_individual_assets_files(destination: &Directory, files: &Vec<AssetFile>) -> (targets:
    Vec<String>)
    ensures
        targets@.len() == files@.len(),
        forall|i: int|
            0 <= i < targets@.len() ==> (#[trigger] targets@[i])@ == join(
                asset_target(destination@, files@[i]@.group),
                joined(files@[i]@.suffix, 1, files@[i]@.suffix.len()),
            ),
{
    let mut targets: Vec<String> = Vec::new();
    let mut i: usize = 0;
    while i < files.len()
        invariant
            i <= files.len(),
            targets@.len() == i,
            forall|k: int|
                0 <= k < i ==> (#[trigger] targets@[k])@ == join(
                    asset_target(destination@, files@[k]@.group),
                    joined(files@[k]@.suffix, 1, files@[k]@.suffix.len()),
                ),
        decreases files.len() - i,
    {
        let relative = files[i].path_in_assets();
        let directory = asset_directory(destination, &files[i].group());
        targets.push(path_join(directory.as_str(), relative.as_str()));
        i += 1;
    }
    targets
}

/// Whether the article template in `template_dir` is among `files`: then
/// every article page has to be made anew.
pub fn copy_individual_template_files(template_dir: &Directory, files: &Vec<File>) -> (rebuild:
    bool)
    ensures
        rebuild == exists|i: int|
            0 <= i < files@.len() && (#[trigger] files@[i])@ == join(
                template_dir@,
                ARTICLE_TEMPLATE@,
            ),
{
    let template = path_join(template_dir.path(), ARTICLE_TEMPLATE);
    let mut i: usize = 0;
    while i < files.len()
        invariant
            i <= files.len(),
            template@ == join(template_dir@, ARTICLE_TEMPLATE@),
            forall|k: int| 0 <= k < i ==> (#[trigger] files@[k])@ != template@,
        decreases files.len() - i,
    {
        if same_text(files[i].path(), template.as_str()) {
            return true;
        }
        i += 1;
    }
    false
}

} // verus!
