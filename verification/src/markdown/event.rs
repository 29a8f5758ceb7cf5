//! The events of a Markdown document, as the pipeline sees them.
use vstd::prelude::*;
use pulldown_cmark::CodeBlockKind;
use pulldown_cmark::Event as Token;
use pulldown_cmark::MetadataBlockKind;
use pulldown_cmark::Options;
use pulldown_cmark::Parser;
use pulldown_cmark::Tag;
use pulldown_cmark::TagEnd;

verus! {

/// What the pipeline reads of an event of the document.
#[derive(Debug, PartialEq, Eq)]
pub enum EventKind {
    /// A run of literal text.
    Text(String),
    /// A reference to the footnote of the given id.
    FootnoteReference(String),
    /// A line break inside a paragraph that the source wrote as a newline.
    SoftBreak,
    /// The start of a metadata block delimited by `+++`.
    MetadataStart,
    /// The end of a metadata block delimited by `+++`.
    MetadataEnd,
    /// The start of a fenced code block, with the language it declares.
    FencedCodeStart(String),
    /// The end of a code block.
    CodeBlockEnd,
    /// The start of the definition of the footnote of the given id.
    FootnoteDefinitionStart(String),
    /// The end of a footnote definition.
    FootnoteDefinitionEnd,
    /// Any other event: the pipeline hands it on as it is.
    Other,
}

pub ghost enum KindModel {
    Text(Seq<char>),
    FootnoteReference(Seq<char>),
    SoftBreak,
    MetadataStart,
    MetadataEnd,
    FencedCodeStart(Seq<char>),
    CodeBlockEnd,
    FootnoteDefinitionStart(Seq<char>),
    FootnoteDefinitionEnd,
    Other,
}

impl View for EventKind {
    type V = KindModel;

    open spec fn view(&self) -> KindModel {
        match self {
            EventKind::Text(text) => KindModel::Text(text@),
            EventKind::FootnoteReference(id) => KindModel::FootnoteReference(id@),
            EventKind::SoftBreak => KindModel::SoftBreak,
            EventKind::MetadataStart => KindModel::MetadataStart,
            EventKind::MetadataEnd => KindModel::MetadataEnd,
            EventKind::FencedCodeStart(lang) => KindModel::FencedCodeStart(lang@),
            EventKind::CodeBlockEnd => KindModel::CodeBlockEnd,
            EventKind::FootnoteDefinitionStart(id) => KindModel::FootnoteDefinitionStart(id@),
            EventKind::FootnoteDefinitionEnd => KindModel::FootnoteDefinitionEnd,
            EventKind::Other => KindModel::Other,
        }
    }
}

impl EventKind {
    /// A copy of this kind.
    pub fn duplicate(&self) -> (copy: EventKind)
        ensures
            copy@ == self@,
    {
        match self {
            EventKind::Text(text) => EventKind::Text(text.clone()),
            EventKind::FootnoteReference(id) => EventKind::FootnoteReference(id.clone()),
            EventKind::SoftBreak => EventKind::SoftBreak,
            EventKind::MetadataStart => EventKind::MetadataStart,
            EventKind::MetadataEnd => EventKind::MetadataEnd,
            EventKind::FencedCodeStart(lang) => EventKind::FencedCodeStart(lang.clone()),
            EventKind::CodeBlockEnd => EventKind::CodeBlockEnd,
            EventKind::FootnoteDefinitionStart(id) => EventKind::FootnoteDefinitionStart(
                id.clone(),
            ),
            EventKind::FootnoteDefinitionEnd => EventKind::FootnoteDefinitionEnd,
            EventKind::Other => EventKind::Other,
        }
    }
}

/// An event in the pipeline: either an event of the document, known by its
/// position among the document's events and by its kind, or raw HTML that
/// a sub-parser made.
#[derive(Debug, PartialEq, Eq)]
pub enum Event {
    Source { index: usize, kind: EventKind },
    Html(String),
}

pub ghost enum EventModel {
    Source { index: usize, kind: KindModel },
    Html(Seq<char>),
}

impl View for Event {
    type V = EventModel;

    open spec fn view(&self) -> EventModel {
        match self {
            Event::Source { index, kind } => EventModel::Source { index: *index, kind: kind@ },
            Event::Html(html) => EventModel::Html(html@),
        }
    }
}

/// The kind under which the sub-parsers see an event: raw HTML is to them
/// like any event that they hand on.
pub open spec fn kind_of(event: EventModel) -> KindModel {
    match event {
        EventModel::Source { kind, .. } => kind,
        EventModel::Html(_) => KindModel::Other,
    }
}

/// What a list of events holds.
pub open spec fn events_view(events: Seq<Event>) -> Seq<EventModel> {
    Seq::new(events.len(), |i: int| events[i]@)
}

/// Adding an event to a list adds what it holds.
pub proof fn lemma_events_push(events: Seq<Event>, event: Event)
    ensures
        events_view(events.push(event)) == events_view(events).push(event@),
{
    assert(events_view(events.push(event)) =~= events_view(events).push(event@));
}

/// Putting two lists together puts together what they hold.
pub proof fn lemma_events_concat(first: Seq<Event>, second: Seq<Event>)
    ensures
        events_view(first + second) == events_view(first) + events_view(second),
{
    assert(events_view(first + second) =~= events_view(first) + events_view(second));
}

/// What a list of kinds holds.
pub open spec fn kinds_view(kinds: Seq<EventKind>) -> Seq<KindModel> {
    Seq::new(kinds.len(), |i: int| kinds[i]@)
}

/// The events of a document, each at its position.
pub open spec fn source_events(kinds: Seq<KindModel>) -> Seq<EventModel> {
    Seq::new(kinds.len(), |i: int| EventModel::Source { index: i as usize, kind: kinds[i] })
}

/// If `event` stands for an event of the document, it stands for one of
/// its first `count` events.
pub open spec fn event_within(event: EventModel, count: nat) -> bool {
    event matches EventModel::Source { index, .. } ==> index < count
}

/// Every event of `events` that stands for an event of the document
/// stands for one of its first `count` events.
pub open spec fn within_document(events: Seq<EventModel>, count: nat) -> bool {
    forall|i: int| 0 <= i < events.len() ==> event_within(#[trigger] events[i], count)
}

/// `property` holds of every event of `events`.
pub open spec fn all_events(events: Seq<EventModel>, property: spec_fn(EventModel) -> bool) -> bool {
    forall|i: int| 0 <= i < events.len() ==> property(#[trigger] events[i])
}

/// `property` holds of all raw HTML.
pub open spec fn holds_of_html(property: spec_fn(EventModel) -> bool) -> bool {
    forall|html: Seq<char>| #[trigger] property(EventModel::Html(html))
}

impl Event {
    /// A copy of this event.
    pub fn duplicate(&self) -> (copy: Event)
        ensures
            copy@ == self@,
    {
        match self {
            Event::Source { index, kind } => Event::Source {
                index: *index,
                kind: kind.duplicate(),
            },
            Event::Html(html) => Event::Html(html.clone()),
        }
    }

    /// Whether this event is a soft line break of the document.
    pub fn is_soft_break(&self) -> (soft: bool)
        ensures
            soft == (kind_of(self@) == KindModel::SoftBreak),
    {
        match self {
            Event::Source { kind: EventKind::SoftBreak, .. } => true,
            _ => false,
        }
    }
}

/// A copy of a list of events.
pub fn duplicate_events(events: &Vec<Event>) -> (copy: Vec<Event>)
    ensures
        events_view(copy@) == events_view(events@),
{
    let mut copy: Vec<Event> = Vec::new();
    let mut i: usize = 0;
    while i < events.len()
        invariant
            i <= events.len(),
            copy@.len() == i,
            forall|k: int| 0 <= k < i ==> (#[trigger] copy@[k])@ == events@[k]@,
        decreases events.len() - i,
    {
        copy.push(events[i].duplicate());
        i += 1;
    }
    proof {
        assert(events_view(copy@) =~= events_view(events@));
    }
    copy
}

/// The kinds of the events into which the tokenizer, with every extension
/// switched on, splits the document `content`, in order.
pub uninterp spec fn document_events(content: Seq<char>) -> Seq<KindModel>;

/// The HTML that the renderer writes for the stream in which each event of
/// `events` is either the event of `content` at the position it names or
/// the raw HTML it holds.
pub uninterp spec fn rendered_html(content: Seq<char>, events: Seq<EventModel>) -> Seq<char>;

/// Runs `pulldown_cmark::Parser::new_ext` with `Options::all()` over
/// `content` and tells of each event what the pipeline reads of it: its
/// text, its footnote id or its language where it has one, and which of the
/// delimiters it is. Nothing is claimed of the events but that they are a
/// function of `content`.
#[verifier::external_body]
pub(crate) fn tokenize(content: &str) -> (kinds: Vec<EventKind>)
    ensures
        kinds_view(kinds@) == document_events(content@),
{
    Parser::new_ext(content, Options::all()).map(|token| match token {
        Token::Start(Tag::MetadataBlock(MetadataBlockKind::PlusesStyle)) => EventKind::MetadataStart,
        Token::End(TagEnd::MetadataBlock(MetadataBlockKind::PlusesStyle)) => EventKind::MetadataEnd,
        Token::Start(Tag::CodeBlock(CodeBlockKind::Fenced(l))) => EventKind::FencedCodeStart(l.to_string()),
        Token::End(TagEnd::CodeBlock) => EventKind::CodeBlockEnd,
        Token::Start(Tag::FootnoteDefinition(id)) => EventKind::FootnoteDefinitionStart(id.to_string()),
        Token::End(TagEnd::FootnoteDefinition) => EventKind::FootnoteDefinitionEnd,
        Token::FootnoteReference(id) => EventKind::FootnoteReference(id.to_string()),
        Token::Text(text) => EventKind::Text(text.to_string()),
        Token::SoftBreak => EventKind::SoftBreak,
        _ => EventKind::Other,
    }).collect()
}

/// Runs `pulldown_cmark::Parser::new_ext` with `Options::all()` over
/// `content`, puts in the place of each event of `events` the parser's
/// event at that position or an `Html` event with the text held, and hands
/// the stream to `pulldown_cmark::html::push_html`. Nothing is claimed of
/// the HTML but that it is a function of `content` and `events`.
#[verifier::external_body]
pub(crate) fn render(content: &str, events: &Vec<Event>) -> (html: String)
    requires
        within_document(events_view(events@), document_events(content@).len()),
    ensures
        html@ == rendered_html(content@, events_view(events@)),
{
    let tokens: Vec<Token> = Parser::new_ext(content, Options::all()).collect();
    let stream = events.iter().map(|event| match event {
        Event::Source { index, .. } => tokens[*index].clone(),
        Event::Html(html) => Token::Html(html.clone().into()),
    });
    let mut html = String::new();
    pulldown_cmark::html::push_html(&mut html, stream);
    html
}

} // verus!
