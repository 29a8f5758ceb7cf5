//! The page of an article and the index page.
use vstd::prelude::*;
use vstd::string::StringExecFns;
use crate::construct::ConstructFile;
use crate::construct::FileModel;
use crate::model::Article;
use crate::model::GenerationContext;
use crate::path::join;
use crate::path::path_join;
use crate::structure::padded;
use crate::template::Placeholder;
use crate::template::PlaceholderErrorModel;
use crate::text::decimal;
use crate::text::texts;
use crate::text::to_decimal;
use crate::website::entry;
use crate::website::entry_markers;
use crate::website::fill_page;
use crate::website::page;
use crate::website::page_markers;
use crate::website::push_entry_markers;
use crate::website::push_page_markers;
use crate::website::template_pattern;
use crate::website::WebPageHtmlTemplates;
use crate::website::WebsiteGenerationError;
use crate::widgets::entries_view;

verus! {

/// The index page: its HTML and where it goes.
#[derive(Debug)]
pub struct IndexPage {
    pub html: String,
    pub path: String,
}

/// The page of an article: the article, its HTML and where it goes,
/// relative to the directory of all article pages.
#[derive(Debug)]
pub struct ArticlePage<'article> {
    pub article: &'article Article,
    pub html: String,
    pub path: String,
}

pub ghost struct PageModel {
    pub article: Article,
    pub html: Seq<char>,
    pub path: Seq<char>,
}

impl<'article> View for ArticlePage<'article> {
    type V = PageModel;

    open spec fn view(&self) -> PageModel {
        PageModel { article: *self.article, html: self.html@, path: self.path@ }
    }
}

/// What a list of pages holds.
pub open spec fn pages_view(pages: Seq<ArticlePage>) -> Seq<PageModel> {
    Seq::new(pages.len(), |i: int| pages[i]@)
}

impl IndexPage {
    /// The page as a file to construct.
    pub fn to_construct_file(&self) -> (file: ConstructFile)
        ensures
            file@ == (FileModel { path: self.path@, content: self.html@ }),
    {
        ConstructFile { path: self.path.clone(), content: self.html.clone() }
    }
}

impl<'article> ArticlePage<'article> {
    /// The page as a file to construct.
    pub fn to_construct_file(&self) -> (file: ConstructFile)
        ensures
            file@ == (FileModel { path: self.path@, content: self.html@ }),
    {
        ConstructFile { path: self.path.clone(), content: self.html.clone() }
    }
}

/// Where the page of `article` goes: into the directory of its group, under
/// its slug.
pub open spec fn article_path(article: Article) -> Seq<char> {
    join(
        padded(decimal(article.id.group.year as nat), 4) + padded(
            decimal(article.id.group.month as nat),
            2,
        ),
        article.id.slug@ + ".html"@,
    )
}

/// Where the page of an article goes follows from its group and its slug
/// alone: two articles of one group with one slug go to one place.
pub proof fn lemma_path_by_group_and_slug(a: Article, b: Article)
    requires
        a.id.group == b.id.group,
        a.id.slug@ == b.id.slug@,
    ensures
        article_path(a) == article_path(b),
{
}

/// What fills the placeholders of the page of `article`.
pub open spec fn article_table(article: Article, release: bool) -> Seq<(Seq<char>, Seq<char>)> {
    seq![
        ("title"@, article.metadata.title@),
        ("slug"@, article.id.slug@),
        ("content"@, article.content@),
        ("type_class"@, article.metadata.widgets.article_type.class()),
    ] + page_markers(release) + article.metadata.widgets.placeholder_content()
}

/// What fills the placeholders of the entry of the index for the page at
/// `path` of `article`.
pub open spec fn entry_table(article: Article, path: Seq<char>, release: bool) -> Seq<
    (Seq<char>, Seq<char>),
> {
    seq![
        ("url"@, join("/articles"@, path)),
        ("type_class"@, article.metadata.widgets.article_type.class()),
        ("type_name"@, article.metadata.widgets.article_type.name()),
        ("title"@, article.metadata.title@),
        ("brief"@, article.metadata.brief@),
        ("year"@, decimal(article.id.date.0 as nat)),
        ("month"@, decimal(article.id.date.1 as nat)),
        ("day"@, decimal(article.id.date.2 as nat)),
    ] + entry_markers(release)
}

/// What fills the placeholders of the index page whose entries are
/// `entries`.
pub open spec fn index_table(entries: Seq<char>, style: Seq<char>, release: bool) -> Seq<
    (Seq<char>, Seq<char>),
> {
    seq![("articles"@, entries), ("style"@, style)] + page_markers(release)
}

/// The page of `article`: the article template with its placeholders
/// filled.
pub fn generate_article_html<'article>(
    html_templates: &WebPageHtmlTemplates,
    article: &'article Article,
    ctx: &GenerationContext,
) -> (made: Result<ArticlePage<'article>, WebsiteGenerationError>)
    ensures
        match made {
            Ok(made) => template_pattern() is Ok && page(
                template_pattern()->Ok_0,
                html_templates.article@,
                article_table(*article, ctx.release),
            ) == Ok::<Seq<char>, Seq<Seq<char>>>(made.html@) && made.path@ == article_path(
                *article,
            ) && made.article == article,
            Err(WebsiteGenerationError::InvalidPlaceholder(names)) => template_pattern() is Ok
                && page(
                template_pattern()->Ok_0,
                html_templates.article@,
                article_table(*article, ctx.release),
            ) == Err::<Seq<char>, Seq<Seq<char>>>(texts(names@)),
            Err(WebsiteGenerationError::InvalidPattern(error)) => template_pattern() == Err::<
                Seq<char>,
                PlaceholderErrorModel,
            >(error@),
            Err(WebsiteGenerationError::IOError(_)) => false,
        },
{
    let placeholder = match Placeholder::from_strs("${", "}", None) {
        Ok(placeholder) => placeholder,
        Err(error) => {
            return Err(WebsiteGenerationError::InvalidPattern(error));
        },
    };
    let mut table: Vec<(String, String)> = Vec::new();
    table.push(entry("title", article.metadata.title.clone()));
    table.push(entry("slug", article.id.slug.clone()));
    table.push(entry("content", article.content.clone()));
    table.push(
        entry("type_class", String::from_str(article.metadata.widgets.article_type.class_name())),
    );
    push_page_markers(&mut table, ctx);
    let mut widgets = article.metadata.widgets.render_to_placeholder_content();
    proof {
        assert(entries_view(table@ + widgets@) =~= article_table(*article, ctx.release)) by {
            assert(entries_view(table@ + widgets@) =~= entries_view(table@) + entries_view(
                widgets@,
            ));
        }
    }
    table.append(&mut widgets);
    let html = match fill_page(&placeholder, html_templates.article.as_str(), &table) {
        Ok(html) => html,
        Err(names) => {
            return Err(WebsiteGenerationError::InvalidPlaceholder(names));
        },
    };
    let mut name = article.id.slug.clone();
    name.append(".html");
    let path = path_join(article.id.group.group_dir_flat_path().as_str(), name.as_str());
    Ok(ArticlePage { article, html, path })
}


/// The date `a` lies before the date `b`.
pub open spec fn before(a: (u32, u32, u32), b: (u32, u32, u32)) -> bool {
    a.0 < b.0 || (a.0 == b.0 && (a.1 < b.1 || (a.1 == b.1 && a.2 < b.2)))
}

/// The dates of the articles of `pages`.
pub open spec fn dates_of(pages: Seq<PageModel>) -> Seq<(u32, u32, u32)> {
    Seq::new(pages.len(), |i: int| pages[i].article.id.date)
}

/// The place `place` put into `order` behind every place whose date is
/// not before its own.
pub open spec fn placed(order: Seq<int>, dates: Seq<(u32, u32, u32)>, place: int) -> Seq<int>
    decreases order.len(),
{
    if order.len() == 0 {
        seq![place]
    } else if !before(dates[order.last()], dates[place]) {
        order.push(place)
    } else {
        placed(order.drop_last(), dates, place).push(order.last())
    }
}

/// The first `n` places of `dates`, the newest date first; places of one
/// date keep their order.
pub open spec fn newest_first(dates: Seq<(u32, u32, u32)>, n: nat) -> Seq<int>
    decreases n,
{
    if n == 0 || n > dates.len() {
        Seq::empty()
    } else {
        placed(newest_first(dates, (n - 1) as nat), dates, n - 1)
    }
}

/// Where a place goes when it is put into an order: at `k`, if all from
/// `k` on have dates before its own and the one before `k` has not.
pub proof fn lemma_placed(order: Seq<int>, dates: Seq<(u32, u32, u32)>, place: int, k: int)
    requires
        0 <= k <= order.len(),
        forall|j: int| k <= j < order.len() ==> before(dates[#[trigger] order[j]], dates[place]),
        k > 0 ==> !before(dates[order[k - 1]], dates[place]),
    ensures
        placed(order, dates, place) == order.insert(k, place),
    decreases order.len(),
{
    if order.len() == 0 {
        assert(seq![place] =~= order.insert(k, place));
    } else if k == order.len() {
        assert(order.push(place) =~= order.insert(k, place));
    } else {
        assert(before(dates[order[order.len() - 1]], dates[place]));
        let front = order.drop_last();
        assert forall|j: int| k <= j < front.len() implies before(
            dates[#[trigger] front[j]],
            dates[place],
        ) by {
            assert(front[j] == order[j]);
        }
        lemma_placed(front, dates, place, k);
        assert(front.insert(k, place).push(order.last()) =~= order.insert(k, place));
    }
}

/// In an order of places no place has a date before that of a place
/// behind it.
pub open spec fn newest_before_older(order: Seq<int>, dates: Seq<(u32, u32, u32)>) -> bool {
    forall|i: int, j: int|
        0 <= i < j < order.len() ==> !before(dates[#[trigger] order[i]], dates[#[trigger] order[j]])
}

/// Putting a place into an order in which the newest comes first keeps
/// the newest first, and adds that place and no other.
pub proof fn lemma_placed_keeps_order(order: Seq<int>, dates: Seq<(u32, u32, u32)>, place: int)
    requires
        newest_before_older(order, dates),
    ensures
        newest_before_older(placed(order, dates, place), dates),
        placed(order, dates, place).to_multiset() == order.to_multiset().insert(place),
    decreases order.len(),
{
    broadcast use vstd::seq_lib::group_to_multiset_ensures;

    if order.len() == 0 {
        assert(seq![place] =~= Seq::<int>::empty().push(place));
        assert(order =~= Seq::<int>::empty());
    } else if !before(dates[order.last()], dates[place]) {
        let r = order.push(place);
        assert forall|i: int, j: int| 0 <= i < j < r.len() implies !before(
            dates[#[trigger] r[i]],
            dates[#[trigger] r[j]],
        ) by {
            if j < order.len() {
                assert(r[i] == order[i] && r[j] == order[j]);
            } else {
                assert(r[i] == order[i]);
                if i < order.len() - 1 {
                    assert(!before(dates[order[i]], dates[order[order.len() - 1]]));
                }
            }
        }
    } else {
        let front = order.drop_last();
        assert forall|i: int, j: int| 0 <= i < j < front.len() implies !before(
            dates[#[trigger] front[i]],
            dates[#[trigger] front[j]],
        ) by {
            assert(front[i] == order[i] && front[j] == order[j]);
        }
        lemma_placed_keeps_order(front, dates, place);
        let mid = placed(front, dates, place);
        let r = mid.push(order.last());
        assert forall|x: int| mid.contains(x) implies !before(dates[x], dates[order.last()]) by {
            assert(mid.to_multiset().count(x) > 0);
            if x != place {
                assert(front.to_multiset().count(x) > 0);
                assert(front.contains(x));
                let k = choose|k: int| 0 <= k < front.len() && front[k] == x;
                assert(order[k] == x);
                assert(!before(dates[order[k]], dates[order[order.len() - 1]]));
            }
        }
        assert forall|i: int, j: int| 0 <= i < j < r.len() implies !before(
            dates[#[trigger] r[i]],
            dates[#[trigger] r[j]],
        ) by {
            if j < mid.len() {
                assert(r[i] == mid[i] && r[j] == mid[j]);
            } else {
                assert(r[i] == mid[i]);
                assert(mid.contains(mid[i]));
            }
        }
        assert(order =~= front.push(order.last()));
        assert(r.to_multiset() =~= order.to_multiset().insert(place));
    }
}

/// The index lists every article once, and no article before one that is
/// newer.
pub proof fn lemma_newest_first(dates: Seq<(u32, u32, u32)>, n: nat)
    requires
        n <= dates.len(),
    ensures
        newest_before_older(newest_first(dates, n), dates),
        newest_first(dates, n).to_multiset() == Seq::new(n, |i: int| i).to_multiset(),
    decreases n,
{
    broadcast use vstd::seq_lib::group_to_multiset_ensures;

    if n > 0 {
        lemma_newest_first(dates, (n - 1) as nat);
        lemma_placed_keeps_order(newest_first(dates, (n - 1) as nat), dates, n - 1);
        assert(Seq::new(n, |i: int| i) =~= Seq::new((n - 1) as nat, |i: int| i).push(n - 1));
    } else {
        assert(newest_first(dates, n) =~= Seq::new(n, |i: int| i));
    }
}

/// The places of `pages`, the newest article first.
fn order_newest_first(pages: &Vec<ArticlePage>) -> (order: Vec<usize>)
    ensures
        order@.len() == pages@.len(),
        forall|i: int| 0 <= i < order@.len() ==> #[trigger] order@[i] < pages@.len(),
        places(order@) == newest_first(dates_of(pages_view(pages@)), pages@.len()),
{
    let ghost dates = dates_of(pages_view(pages@));
    let mut order: Vec<usize> = Vec::new();
    let mut i: usize = 0;
    proof {
        assert(places(order@) =~= Seq::<int>::empty());
    }
    while i < pages.len()
        invariant
            i <= pages.len(),
            dates == dates_of(pages_view(pages@)),
            order@.len() == i,
            forall|k: int| 0 <= k < order@.len() ==> #[trigger] order@[k] < i,
            places(order@) == newest_first(dates, i as nat),
        decreases pages.len() - i,
    {
        let date = pages[i].article.id.date;
        let mut k: usize = order.len();
        while k > 0 && is_before(pages[order[k - 1]].article.id.date, date)
            invariant
                k <= order.len(),
                i < pages.len(),
                dates == dates_of(pages_view(pages@)),
                date == dates[i as int],
                forall|j: int| 0 <= j < order@.len() ==> #[trigger] order@[j] < i,
                forall|j: int|
                    k <= j < order@.len() ==> before(
                        dates[#[trigger] places(order@)[j]],
                        dates[i as int],
                    ),
            decreases k,
        {
            proof {
                assert(places(order@)[k - 1] == order@[k - 1]);
            }
            k -= 1;
        }
        proof {
            if k > 0 {
                assert(places(order@)[k - 1] == order@[k - 1]);
            }
            lemma_placed(places(order@), dates, i as int, k as int);
            assert(places(order@.insert(k as int, i)) =~= places(order@).insert(k as int, i as int));
        }
        order.insert(k, i);
        i += 1;
    }
    order
}

/// The places that `order` holds, as numbers.
pub open spec fn places(order: Seq<usize>) -> Seq<int> {
    Seq::new(order.len(), |i: int| order[i] as int)
}

fn is_before(a: (u32, u32, u32), b: (u32, u32, u32)) -> (r: bool)
    ensures
        r == before(a, b),
{
    a.0 < b.0 || (a.0 == b.0 && (a.1 < b.1 || (a.1 == b.1 && a.2 < b.2)))
}

/// The entries of the index for the first `n` places of `order`, one
/// behind the other; the names of the placeholders of the first entry that
/// cannot be filled, if there is one.
pub open spec fn index_entries(
    pattern: Seq<char>,
    template: Seq<char>,
    pages: Seq<PageModel>,
    order: Seq<int>,
    release: bool,
    n: nat,
) -> Result<Seq<char>, Seq<Seq<char>>>
    decreases n,
{
    if n == 0 || n > order.len() {
        Ok(Seq::empty())
    } else {
        match index_entries(pattern, template, pages, order, release, (n - 1) as nat) {
            Ok(sofar) => {
                let shown = pages[order[n - 1]];
                match page(pattern, template, entry_table(shown.article, shown.path, release)) {
                    Ok(html) => Ok(sofar + html),
                    Err(names) => Err(names),
                }
            },
            Err(names) => Err(names),
        }
    }
}

/// The index page for `pages`: an entry for each, the newest article
/// first, put into the index template.
pub open spec fn index_html(
    pattern: Seq<char>,
    templates: &WebPageHtmlTemplates,
    pages: Seq<PageModel>,
    release: bool,
) -> Result<Seq<char>, Seq<Seq<char>>> {
    match index_entries(
        pattern,
        templates.index_list@,
        pages,
        newest_first(dates_of(pages), pages.len()),
        release,
        pages.len(),
    ) {
        Ok(entries) => page(
            pattern,
            templates.index@,
            index_table(entries, templates.index_style@, release),
        ),
        Err(names) => Err(names),
    }
}

/// The index page of the site: an entry for each of `article`, the newest
/// first, in the index template.
pub fn generate_index_html(
    html_templates: &WebPageHtmlTemplates,
    article: &Vec<ArticlePage>,
    ctx: &GenerationContext,
) -> (made: Result<IndexPage, WebsiteGenerationError>)
    ensures
        match made {
            Ok(made) => template_pattern() is Ok && index_html(
                template_pattern()->Ok_0,
                html_templates,
                pages_view(article@),
                ctx.release,
            ) == Ok::<Seq<char>, Seq<Seq<char>>>(made.html@) && made.path@ == "index.html"@,
            Err(WebsiteGenerationError::InvalidPlaceholder(names)) => template_pattern() is Ok
                && index_html(
                template_pattern()->Ok_0,
                html_templates,
                pages_view(article@),
                ctx.release,
            ) == Err::<Seq<char>, Seq<Seq<char>>>(texts(names@)),
            Err(WebsiteGenerationError::InvalidPattern(error)) => template_pattern() == Err::<
                Seq<char>,
                PlaceholderErrorModel,
            >(error@),
            Err(WebsiteGenerationError::IOError(_)) => false,
        },
{
    let placeholder = match Placeholder::from_strs("${", "}", None) {
        Ok(placeholder) => placeholder,
        Err(error) => {
            return Err(WebsiteGenerationError::InvalidPattern(error));
        },
    };
    let order = order_newest_first(article);
    let ghost wanted = newest_first(dates_of(pages_view(article@)), article@.len());
    let ghost shown_pages = pages_view(article@);
    let mut entries = String::new();
    let mut i: usize = 0;
    while i < order.len()
        invariant
            i <= order.len(),
            order@.len() == article@.len(),
            forall|k: int| 0 <= k < order@.len() ==> #[trigger] order@[k] < article@.len(),
            places(order@) == wanted,
            wanted == newest_first(dates_of(pages_view(article@)), article@.len()),
            shown_pages == pages_view(article@),
            template_pattern() == Ok::<Seq<char>, PlaceholderErrorModel>(placeholder@),
            index_entries(
                placeholder@,
                html_templates.index_list@,
                shown_pages,
                wanted,
                ctx.release,
                i as nat,
            ) == Ok::<Seq<char>, Seq<Seq<char>>>(entries@),
        decreases order.len() - i,
    {
        let shown = &article[order[i]];
        proof {
            assert(places(order@)[i as int] == order@[i as int]);
        }
        let mut table: Vec<(String, String)> = Vec::new();
        table.push(entry("url", path_join("/articles", shown.path.as_str())));
        table.push(
            entry(
                "type_class",
                String::from_str(shown.article.metadata.widgets.article_type.class_name()),
            ),
        );
        table.push(
            entry(
                "type_name",
                String::from_str(shown.article.metadata.widgets.article_type.description()),
            ),
        );
        table.push(entry("title", shown.article.metadata.title.clone()));
        table.push(entry("brief", shown.article.metadata.brief.clone()));
        table.push(entry("year", to_decimal(shown.article.id.date.0 as u64)));
        table.push(entry("month", to_decimal(shown.article.id.date.1 as u64)));
        table.push(entry("day", to_decimal(shown.article.id.date.2 as u64)));
        push_entry_markers(&mut table, ctx);
        proof {
            assert(shown_pages[order@[i as int] as int] == shown@);
            assert(entries_view(table@) =~= entry_table(*shown.article, shown.path@, ctx.release));
        }
        match fill_page(&placeholder, html_templates.index_list.as_str(), &table) {
            Ok(html) => {
                entries.append(html.as_str());
            },
            Err(names) => {
                proof {
                    assert(index_entries(
                        placeholder@,
                        html_templates.index_list@,
                        shown_pages,
                        wanted,
                        ctx.release,
                        (i + 1) as nat,
                    ) == Err::<Seq<char>, Seq<Seq<char>>>(texts(names@)));
                    lemma_index_entries_fail(
                        placeholder@,
                        html_templates.index_list@,
                        shown_pages,
                        wanted,
                        ctx.release,
                        (i + 1) as nat,
                        order@.len() as nat,
                    );
                }
                return Err(WebsiteGenerationError::InvalidPlaceholder(names));
            },
        }
        i += 1;
    }
    let mut table: Vec<(String, String)> = Vec::new();
    table.push(entry("articles", entries));
    table.push(entry("style", html_templates.index_style.clone()));
    push_page_markers(&mut table, ctx);
    proof {
        assert(entries_view(table@) =~= index_table(
            entries@,
            html_templates.index_style@,
            ctx.release,
        ));
    }
    match fill_page(&placeholder, html_templates.index.as_str(), &table) {
        Ok(html) => Ok(IndexPage { html, path: String::from_str("index.html") }),
        Err(names) => Err(WebsiteGenerationError::InvalidPlaceholder(names)),
    }
}

/// Once an entry of the index cannot be filled, the names it lacks are
/// what the entries give, however many follow.
pub proof fn lemma_index_entries_fail(
    pattern: Seq<char>,
    template: Seq<char>,
    pages: Seq<PageModel>,
    order: Seq<int>,
    release: bool,
    n: nat,
    m: nat,
)
    requires
        n <= m <= order.len(),
        index_entries(pattern, template, pages, order, release, n) is Err,
    ensures
        index_entries(pattern, template, pages, order, release, m) == index_entries(
            pattern,
            template,
            pages,
            order,
            release,
            n,
        ),
    decreases m,
{
    if n < m {
        lemma_index_entries_fail(pattern, template, pages, order, release, n, (m - 1) as nat);
    }
}

} // verus!
