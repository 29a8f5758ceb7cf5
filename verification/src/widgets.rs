//! The widgets of an article page: small pieces of HTML, each with its
//! style, that the metadata of an article switches on.
use vstd::prelude::*;
use vstd::string::StringExecFns;
use crate::text::option_text;

verus! {

/// The HTML of the AI usage widget, part 1.
pub const AI_WIDGET_0: &'static str = "\n            <span class=\"aiusage ";
/// The HTML of the AI usage widget, part 2.
pub const AI_WIDGET_1: &'static str = "\">\n                <span class=\"brief\">";
/// The HTML of the AI usage widget, part 3.
pub const AI_WIDGET_2: &'static str = "</span>\n                <span class=\"description\">";
/// The HTML of the AI usage widget, part 4.
pub const AI_WIDGET_3: &'static str = "</span>\n            </span>\n        ";
/// The style of the AI usage widget.
pub const AI_STYLE: &'static str = "\n            .aiusage {\n                border: 1px solid var(--primary);\n                color: var(--primary);\n                padding: 0px 6px;\n                width: fit-content;\n\n                &.aiusage-heavy {\n                    background-color: var(--primary);\n                    color: white;\n                }\n\n                .brief {\n                    font-style: italic;\n                }\n            }\n        ";
/// The HTML of the article type widget, part 1.
pub const TYPE_WIDGET_0: &'static str = "\n            <h2 class=\"article-type\">\n                ";
/// The HTML of the article type widget, part 2.
pub const TYPE_WIDGET_1: &'static str = "\n            </h2>\n        ";
/// The HTML of a widget that is a section with a title, part 1.
pub const SECTION_0: &'static str = "\n            <section>\n              <h3>\n                <span>";
/// The HTML of a widget that is a section with a title, part 2.
pub const SECTION_1: &'static str = "</span>\n                <span>";
/// The HTML of a widget that is a section with a title, part 3.
pub const SECTION_2: &'static str = "</span>\n              </h3>\n              <div class=\"content\">\n                ";
/// The HTML of a widget that is a section with a title, part 4.
pub const SECTION_3: &'static str = "\n              </div>\n            </section>\n        ";
/// The HTML of the list of sources, part 1.
pub const SOURCES_LIST_0: &'static str = "<ul class=\"sources-list\">";
/// The HTML of the list of sources, part 2.
pub const SOURCES_LIST_1: &'static str = "</ul>";
/// The style of the list of sources.
pub const SOURCES_STYLE: &'static str = "\n            .sources-list {\n                display: flex;\n                flex-direction: column;\n                gap: 1em;\n            }\n\n            .source {\n                color: var(--typed-primary);\n                overflow-wrap: anywhere;\n            }\n\n            .name {\n                font-size: 1.25rem;\n            }\n        ";
/// The HTML of one source, part 1.
pub const SOURCE_ITEM_0: &'static str = "\n            <li class=\"source\">\n                <h4 class=\"name\">";
/// The HTML of one source, part 2.
pub const SOURCE_ITEM_1: &'static str = "</h4>\n                <a href=";
/// The HTML of one source, part 3.
pub const SOURCE_ITEM_2: &'static str = "><span>";
/// The HTML of one source, part 4.
pub const SOURCE_ITEM_3: &'static str = "</span></a>\n            </li>\n        ";

/// A piece of an article page: the placeholder it fills, its HTML and its
/// style.
pub trait Widget {
    /// The name of the placeholder that the widget fills.
    spec fn tag_text(&self) -> Seq<char>;

    /// The HTML of the widget.
    spec fn built(&self) -> Seq<char>;

    /// The style of the widget.
    spec fn style_text(&self) -> Seq<char>;

    /// The name of the placeholder that the widget fills.
    fn tag(&self) -> (tag: &'static str)
        ensures
            tag@ == self.tag_text(),
    ;

    /// The HTML of the widget.
    fn build(&self) -> (html: String)
        ensures
            html@ == self.built(),
    ;

    /// The style of the widget.
    fn style(&self) -> (css: &'static str)
        ensures
            css@ == self.style_text(),
    ;

    /// The placeholder and what fills it.
    fn render_widget(&self) -> (entry: (&'static str, String))
        ensures
            entry.0@ == self.tag_text(),
            entry.1@ == self.built(),
    {
        (self.tag(), self.build())
    }
}

/// A widget that is a section with a title in two languages; it is left
/// out where it has no content.
pub trait GroundingWidget {
    /// The name of the placeholder that the widget fills.
    spec fn grounding_tag(&self) -> Seq<char>;

    /// The two titles of the section.
    spec fn titles(&self) -> (Seq<char>, Seq<char>);

    /// The content of the section, if it has any.
    spec fn content(&self) -> Option<Seq<char>>;

    /// The style of the content.
    spec fn content_style_text(&self) -> Seq<char>;

    /// The name of the placeholder that the widget fills.
    fn tag(&self) -> (tag: &'static str)
        ensures
            tag@ == self.grounding_tag(),
    ;

    /// The two titles of the section.
    fn title(&self) -> (titles: (&'static str, &'static str))
        ensures
            titles.0@ == self.titles().0,
            titles.1@ == self.titles().1,
    ;

    /// The content of the section, if it has any.
    fn build_content(&self) -> (content: Option<String>)
        ensures
            option_text(content) == self.content(),
    ;

    /// The style of the content.
    fn content_style(&self) -> (css: &'static str)
        ensures
            css@ == self.content_style_text(),
    ;
}

/// The HTML of a section with the titles `first` and `second` around
/// `content`.
pub open spec fn section_html(first: Seq<char>, second: Seq<char>, content: Seq<char>) -> Seq<char> {
    SECTION_0@ + first + SECTION_1@ + second + SECTION_2@ + content + SECTION_3@
}

impl<T: GroundingWidget> Widget for T {
    open spec fn tag_text(&self) -> Seq<char> {
        self.grounding_tag()
    }

    open spec fn built(&self) -> Seq<char> {
        match self.content() {
            Some(content) => section_html(self.titles().0, self.titles().1, content),
            None => Seq::empty(),
        }
    }

    open spec fn style_text(&self) -> Seq<char> {
        self.content_style_text()
    }

    fn tag(&self) -> (tag: &'static str) {
        GroundingWidget::tag(self)
    }

    fn build(&self) -> (html: String) {
        let (first_title, second_title) = self.title();
        match self.build_content() {
            Some(content) => {
                let mut html = String::from_str(SECTION_0);
                html.append(first_title);
                html.append(SECTION_1);
                html.append(second_title);
                html.append(SECTION_2);
                html.append(content.as_str());
                html.append(SECTION_3);
                html
            },
            None => String::new(),
        }
    }

    fn style(&self) -> (css: &'static str) {
        self.content_style()
    }
}

/// How far AI was used for an article.
#[derive(Clone, Copy, Debug, PartialEq, Eq, Structural)]
pub enum AiUsage {
    Unused,
    Review,
    NonText,
    ResearchSupport,
    Research,
    ArticleOutlining,
    MainText,
}

impl Default for AiUsage {
    fn default() -> (usage: AiUsage)
        ensures
            usage == AiUsage::Unused,
    {
        AiUsage::Unused
    }
}

impl AiUsage {
    /// The usage in a few words.
    pub open spec fn brief(self) -> Seq<char> {
        match self {
            AiUsage::Unused => "AI not used"@,
            AiUsage::Review => "AI used for review"@,
            AiUsage::NonText => "AI generated non-text contents"@,
            AiUsage::ResearchSupport => "AI supported researching for this"@,
            AiUsage::Research => "AI researched for this"@,
            AiUsage::ArticleOutlining => "AI generated the outline"@,
            AiUsage::MainText => "AI generated the outline"@,
        }
    }

    /// The usage in a sentence.
    pub open spec fn sentence(self) -> Seq<char> {
        match self {
            AiUsage::Unused => "この記事では AI は使っていません"@,
            AiUsage::Review => "この記事は推敲に AI を使っています"@,
            AiUsage::NonText => "テキスト以外のコンテンツで AI を使っています"@,
            AiUsage::ResearchSupport => "この記事を書くにあたって、AI と協力して調査しました"@,
            AiUsage::Research => "この記事を書くにあたって、AI に調査してもらいました"@,
            AiUsage::ArticleOutlining => "記事の構成作成に AI を使っています"@,
            AiUsage::MainText => "本文作成に AI を使っています"@,
        }
    }

    /// Whether AI did the research, the outline or the text.
    pub open spec fn is_heavy(self) -> bool {
        self == AiUsage::Research || self == AiUsage::ArticleOutlining || self == AiUsage::MainText
    }

    /// The class that marks heavy use; nothing for light use.
    pub open spec fn heavy_class(self) -> Seq<char> {
        if self.is_heavy() {
            "aiusage-heavy"@
        } else {
            Seq::empty()
        }
    }

    /// The usage in a few words, and in a sentence.
    pub fn description(&self) -> (texts: (&'static str, &'static str))
        ensures
            texts.0@ == self.brief(),
            texts.1@ == self.sentence(),
    {
        match self {
            AiUsage::Unused => ("AI not used", "この記事では AI は使っていません"),
            AiUsage::Review => ("AI used for review", "この記事は推敲に AI を使っています"),
            AiUsage::NonText => ("AI generated non-text contents", "テキスト以外のコンテンツで AI を使っています"),
            AiUsage::ResearchSupport => ("AI supported researching for this", "この記事を書くにあたって、AI と協力して調査しました"),
            AiUsage::Research => ("AI researched for this", "この記事を書くにあたって、AI に調査してもらいました"),
            AiUsage::ArticleOutlining => ("AI generated the outline", "記事の構成作成に AI を使っています"),
            AiUsage::MainText => ("AI generated the outline", "本文作成に AI を使っています"),
        }
    }

    /// Whether AI did the research, the outline or the text.
    pub fn heavy_use(&self) -> (heavy: bool)
        ensures
            heavy == self.is_heavy(),
    {
        match self {
            AiUsage::Unused => false,
            AiUsage::Review => false,
            AiUsage::NonText => false,
            AiUsage::ResearchSupport => false,
            AiUsage::Research => true,
            AiUsage::ArticleOutlining => true,
            AiUsage::MainText => true,
        }
    }
}

impl Widget for AiUsage {
    open spec fn tag_text(&self) -> Seq<char> {
        "ai"@
    }

    open spec fn built(&self) -> Seq<char> {
        if *self == AiUsage::Unused {
            Seq::empty()
        } else {
            AI_WIDGET_0@ + self.heavy_class() + AI_WIDGET_1@ + self.brief() + AI_WIDGET_2@ + self.sentence() + AI_WIDGET_3@
        }
    }

    open spec fn style_text(&self) -> Seq<char> {
        AI_STYLE@
    }

    fn tag(&self) -> (tag: &'static str) {
        "ai"
    }

    fn build(&self) -> (html: String) {
        if *self == AiUsage::Unused {
            return String::new();
        }
        let heavy_class = if self.heavy_use() {
            "aiusage-heavy"
        } else {
            proof {
                reveal_strlit("");
                assert(""@ =~= Seq::<char>::empty());
            }
            ""
        };
        let (brief, description) = self.description();
        let mut html = String::from_str(AI_WIDGET_0);
        html.append(heavy_class);
        html.append(AI_WIDGET_1);
        html.append(brief);
        html.append(AI_WIDGET_2);
        html.append(description);
        html.append(AI_WIDGET_3);
        html
    }

    fn style(&self) -> (css: &'static str) {
        AI_STYLE
    }
}

/// What kind of record an article is.
#[derive(Clone, Copy, Debug, PartialEq, Eq, Structural)]
pub enum ArticleType {
    Activity,
    Research,
}

impl Default for ArticleType {
    fn default() -> (kind: ArticleType)
        ensures
            kind == ArticleType::Activity,
    {
        ArticleType::Activity
    }
}

impl ArticleType {
    /// The name of the kind.
    pub open spec fn name(self) -> Seq<char> {
        match self {
            ArticleType::Activity => "活動記録"@,
            ArticleType::Research => "学習記録"@,
        }
    }

    /// The class that marks pages of the kind.
    pub open spec fn class(self) -> Seq<char> {
        match self {
            ArticleType::Activity => "article-activity"@,
            ArticleType::Research => "article-research"@,
        }
    }

    /// The name of the kind.
    pub fn description(&self) -> (name: &'static str)
        ensures
            name@ == self.name(),
    {
        match self {
            ArticleType::Activity => "活動記録",
            ArticleType::Research => "学習記録",
        }
    }

    /// The class that marks pages of the kind.
    pub fn class_name(&self) -> (class: &'static str)
        ensures
            class@ == self.class(),
    {
        match self {
            ArticleType::Activity => "article-activity",
            ArticleType::Research => "article-research",
        }
    }
}

impl Widget for ArticleType {
    open spec fn tag_text(&self) -> Seq<char> {
        "type"@
    }

    open spec fn built(&self) -> Seq<char> {
        TYPE_WIDGET_0@ + self.name() + TYPE_WIDGET_1@
    }

    open spec fn style_text(&self) -> Seq<char> {
        Seq::empty()
    }

    fn tag(&self) -> (tag: &'static str) {
        "type"
    }

    fn build(&self) -> (html: String) {
        let mut html = String::from_str(TYPE_WIDGET_0);
        html.append(self.description());
        html.append(TYPE_WIDGET_1);
        html
    }

    fn style(&self) -> (css: &'static str) {
        proof {
            reveal_strlit("");
            assert(""@ =~= Seq::<char>::empty());
        }
        ""
    }
}

/// A work that an article draws on.
#[derive(Debug)]
pub struct Source {
    name: String,
    url: String,
}

pub ghost struct SourceModel {
    pub name: Seq<char>,
    pub url: Seq<char>,
}

impl View for Source {
    type V = SourceModel;

    closed spec fn view(&self) -> SourceModel {
        SourceModel { name: self.name@, url: self.url@ }
    }
}

impl SourceModel {
    /// The list item of the source.
    pub open spec fn html(self) -> Seq<char> {
        SOURCE_ITEM_0@ + self.name + SOURCE_ITEM_1@ + self.url + SOURCE_ITEM_2@ + self.url + SOURCE_ITEM_3@
    }
}

impl Source {
    /// The source of the given name at the given address.
    pub fn new(name: String, url: String) -> (source: Source)
        ensures
            source@ == (SourceModel { name: name@, url: url@ }),
    {
        Source { name, url }
    }

    /// The list item of the source.
    pub fn to_html(&self) -> (html: String)
        ensures
            html@ == self@.html(),
    {
        let mut html = String::from_str(SOURCE_ITEM_0);
        html.append(self.name.as_str());
        html.append(SOURCE_ITEM_1);
        html.append(self.url.as_str());
        html.append(SOURCE_ITEM_2);
        html.append(self.url.as_str());
        html.append(SOURCE_ITEM_3);
        html
    }
}

/// The works that an article draws on.
#[derive(Debug)]
pub struct Sources(pub Vec<Source>);

/// What a list of sources holds.
pub open spec fn sources_view(v: Seq<Source>) -> Seq<SourceModel> {
    Seq::new(v.len(), |i: int| v[i]@)
}

/// The list items of the first `n` of `sources`, one behind the other.
pub open spec fn source_items(sources: Seq<SourceModel>, n: nat) -> Seq<char>
    decreases n,
{
    if n == 0 || n > sources.len() {
        Seq::empty()
    } else {
        source_items(sources, (n - 1) as nat) + sources[n - 1].html()
    }
}

impl Default for Sources {
    fn default() -> (sources: Sources)
        ensures
            sources.0@.len() == 0,
    {
        Sources(Vec::new())
    }
}

impl GroundingWidget for Sources {
    open spec fn grounding_tag(&self) -> Seq<char> {
        "sources"@
    }

    open spec fn titles(&self) -> (Seq<char>, Seq<char>) {
        ("ARTICLE SOURCES"@, "この記事の参考文献"@)
    }

    open spec fn content(&self) -> Option<Seq<char>> {
        if self.0@.len() == 0 {
            None
        } else {
            let items = source_items(sources_view(self.0@), self.0@.len());
            Some(SOURCES_LIST_0@ + items + SOURCES_LIST_1@)
        }
    }

    open spec fn content_style_text(&self) -> Seq<char> {
        SOURCES_STYLE@
    }

    fn tag(&self) -> (tag: &'static str) {
        "sources"
    }

    fn title(&self) -> (titles: (&'static str, &'static str)) {
        ("ARTICLE SOURCES", "この記事の参考文献")
    }

    fn build_content(&self) -> (content: Option<String>) {
        if self.0.len() == 0 {
            return None;
        }
        let mut html = String::from_str(SOURCES_LIST_0);
        let mut i: usize = 0;
        proof {
            assert(SOURCES_LIST_0@ + Seq::<char>::empty() =~= SOURCES_LIST_0@);
        }
        while i < self.0.len()
            invariant
                i <= self.0.len(),
                html@ == SOURCES_LIST_0@ + source_items(sources_view(self.0@), i as nat),
            decreases self.0.len() - i,
        {
            let item = self.0[i].to_html();
            proof {
                let sofar = source_items(sources_view(self.0@), i as nat);
                assert(sources_view(self.0@)[i as int] == self.0@[i as int]@);
                assert(SOURCES_LIST_0@ + sofar + item@ =~= SOURCES_LIST_0@ + (sofar + item@));
            }
            html.append(item.as_str());
            i += 1;
        }
        html.append(SOURCES_LIST_1);
        Some(html)
    }

    fn content_style(&self) -> (css: &'static str) {
        SOURCES_STYLE
    }
}

/// The widgets of an article.
#[derive(Debug)]
pub struct Widgets {
    pub ai: AiUsage,
    pub article_type: ArticleType,
    pub sources: Sources,
}

impl Default for Widgets {
    fn default() -> (widgets: Widgets)
        ensures
            widgets.ai == AiUsage::Unused,
            widgets.article_type == ArticleType::Activity,
            widgets.sources.0@.len() == 0,
    {
        Widgets {
            ai: AiUsage::default(),
            article_type: ArticleType::default(),
            sources: Sources::default(),
        }
    }
}

/// What a list of placeholder names with what fills them holds.
pub open spec fn entries_view(v: Seq<(String, String)>) -> Seq<(Seq<char>, Seq<char>)> {
    Seq::new(v.len(), |i: int| (v[i].0@, v[i].1@))
}

impl Widgets {
    /// The styles of the widgets, one behind the other.
    pub open spec fn styles(&self) -> Seq<char> {
        self.ai.style_text() + self.article_type.style_text() + self.sources.style_text()
    }

    /// The placeholders that the widgets fill, each with what fills it,
    /// and `widget_styles` with their styles.
    pub open spec fn placeholder_content(&self) -> Seq<(Seq<char>, Seq<char>)> {
        seq![
            (self.ai.tag_text(), self.ai.built()),
            (self.article_type.tag_text(), self.article_type.built()),
            (self.sources.tag_text(), self.sources.built()),
            ("widget_styles"@, self.styles()),
        ]
    }

    /// The placeholders that the widgets fill, each with what fills it,
    /// and `widget_styles` with their styles.
    pub fn render_to_placeholder_content(&self) -> (entries: Vec<(String, String)>)
        ensures
            entries_view(entries@) == self.placeholder_content(),
    {
        let mut entries: Vec<(String, String)> = Vec::new();
        let ai = self.ai.render_widget();
        entries.push((String::from_str(ai.0), ai.1));
        let article_type = self.article_type.render_widget();
        entries.push((String::from_str(article_type.0), article_type.1));
        let sources = self.sources.render_widget();
        entries.push((String::from_str(sources.0), sources.1));
        entries.push((String::from_str("widget_styles"), self.concatenate_styles()));
        proof {
            assert(entries_view(entries@) =~= self.placeholder_content());
        }
        entries
    }

    /// The styles of the widgets, one behind the other.
    pub fn concatenate_styles(&self) -> (style: String)
        ensures
            style@ == self.styles(),
    {
        let mut style = String::new();
        style.append(self.ai.style());
        style.append(self.article_type.style());
        style.append(self.sources.style());
        proof {
            assert(style@ =~= self.styles());
        }
        style
    }
}

} // verus!
