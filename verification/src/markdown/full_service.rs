//! The pipeline as a whole: every event of a document passes through the
//! chain of sub-parsers, then the events that the sub-parsers add at the end
//! do, and what comes out is rendered.
use vstd::prelude::*;
use crate::markdown::control::BreakingEventProcess;
use crate::markdown::control::ControlModel;
use crate::markdown::control::EventProcessControl;
use crate::markdown::control::Ignore;
use crate::markdown::event::all_events;
use crate::markdown::event::document_events;
use crate::markdown::event::holds_of_html;
use crate::markdown::event::event_within;
use crate::markdown::event::events_view;
use crate::markdown::event::kind_of;
use crate::markdown::event::kinds_view;
use crate::markdown::event::KindModel;
use crate::markdown::event::lemma_events_concat;
use crate::markdown::event::lemma_events_push;
use crate::markdown::event::render;
use crate::markdown::event::rendered_html;
use crate::markdown::event::source_events;
use crate::markdown::event::tokenize;
use crate::markdown::event::within_document;
use crate::markdown::event::Event;
use crate::markdown::event::EventModel;
use crate::markdown::sub_parser::footnote::lemma_all_events_concat;
use crate::markdown::sub_parser::footnote::lemma_footnote_after_keeps;
use crate::markdown::sub_parser::footnote::lemma_footnote_closing_keeps;
use crate::markdown::sub_parser::footnote::FootnoteModel;
use crate::markdown::sub_parser::frontmatter::FrontmatterModel;
use crate::markdown::sub_parser::text::shortcode_pattern;
use crate::markdown::sub_parser::text::unresolved_of;
use crate::markdown::sub_parser::ChainModel;
use crate::markdown::sub_parser::SubParsers;
use crate::text::option_text;
use crate::text::texts;

verus! {

/// What the pipeline makes of a document.
#[derive(Debug)]
pub struct MarkdownParseResult {
    /// The text of the metadata block, if the document has one.
    pub frontmatter: Option<String>,
    /// The HTML of the rest.
    pub html: String,
    /// The languages declared by code blocks for which no syntax was
    /// found.
    pub unknown_languages: Vec<String>,
    /// The shortcodes that are no emoji's, each once.
    pub unresolved_emojis: Vec<String>,
}

impl MarkdownParseResult {
    /// The HTML of the document.
    pub fn html(&self) -> (html: &str)
        ensures
            html@ == self.html@,
    {
        self.html.as_str()
    }

    /// The text of the metadata block, if the document has one.
    pub fn frontmatter(&self) -> (text: Option<&str>)
        ensures
            text is Some == self.frontmatter is Some,
            text is Some ==> text->0@ == self.frontmatter->0@,
    {
        match &self.frontmatter {
            Some(text) => Some(text.as_str()),
            None => None,
        }
    }
}

/// How far the pipeline has come: its state, and what came out so far.
pub ghost struct Outcome {
    pub state: PipelineModel,
    pub out: Seq<EventModel>,
}

/// The state of the pipeline between two events.
pub ghost struct PipelineModel {
    pub chain: ChainModel,
    /// The request to suppress events that is still open.
    pub ignore: Option<Ignore>,
}

impl PipelineModel {
    /// The pipeline before the first event, with `pattern` finding
    /// shortcodes.
    pub open spec fn initial(pattern: Seq<char>) -> PipelineModel {
        PipelineModel { chain: ChainModel::initial(pattern), ignore: None }
    }

    /// Whether the open request suppresses `event`.
    pub open spec fn suppresses(self, event: EventModel) -> bool {
        self.ignore matches Some(ignore) && ignore.after(event).0
    }

    /// What is left of the open request after `event`.
    pub open spec fn left_open(self, event: EventModel) -> Option<Ignore> {
        match self.ignore {
            Some(ignore) => ignore.after(event).1,
            None => None,
        }
    }

    /// Whether `event` may come in this state: it is suppressed, or the
    /// chain accepts it.
    pub open spec fn accepts(self, event: EventModel) -> bool {
        self.suppresses(event) || self.chain.accepts(event)
    }

    /// The state after `event`. A suppressed event does not reach the
    /// chain.
    pub open spec fn after(self, event: EventModel) -> PipelineModel {
        if self.suppresses(event) {
            PipelineModel { ignore: self.left_open(event), ..self }
        } else {
            PipelineModel {
                chain: self.chain.after(event),
                ignore: match self.chain.answer(event) {
                    ControlModel::Continue(next) if next.ignore is Some => next.ignore,
                    _ => self.left_open(event),
                },
            }
        }
    }

    /// What comes out for `event`: nothing if it is suppressed or dropped,
    /// else the event, its replacement, or the events that stand in its
    /// place.
    pub open spec fn emitted(self, event: EventModel) -> Seq<EventModel> {
        if self.suppresses(event) {
            Seq::empty()
        } else {
            match self.chain.answer(event) {
                ControlModel::Continue(next) => seq![next.seen(event)],
                ControlModel::Discard => Seq::empty(),
                ControlModel::UseThisInstead(events) => events,
            }
        }
    }

    /// The state after the first `n` of `events` and what came out for
    /// them; nothing if one of them came in a state that does not accept
    /// it.
    pub open spec fn run(self, events: Seq<EventModel>, n: nat) -> Option<Outcome>
        decreases n,
    {
        if n == 0 || n > events.len() {
            Some(Outcome { state: self, out: Seq::empty() })
        } else {
            match self.run(events, (n - 1) as nat) {
                Some(sofar) => if sofar.state.accepts(events[n - 1]) {
                    Some(
                        Outcome {
                            state: sofar.state.after(events[n - 1]),
                            out: sofar.out + sofar.state.emitted(events[n - 1]),
                        },
                    )
                } else {
                    None
                },
                None => None,
            }
        }
    }

    /// The state after a whole document and what came out for it: first
    /// its events, then those that the sub-parsers add at its end, which
    /// pass through the chain like any other.
    pub open spec fn complete(self, events: Seq<EventModel>) -> Option<Outcome> {
        match self.run(events, events.len()) {
            Some(body) => {
                let closing = body.state.chain.closing();
                let ended = PipelineModel { chain: body.state.chain.finished(), ..body.state };
                match ended.run(closing, closing.len()) {
                    Some(end) => Some(Outcome { state: end.state, out: body.out + end.out }),
                    None => None,
                }
            },
            None => None,
        }
    }
}

/// What the pipeline makes of the events of a document, rendering apart.
#[derive(Debug)]
pub struct Processed {
    /// The text of the metadata block, if there is one.
    pub frontmatter: Option<String>,
    /// The events to render.
    pub events: Vec<Event>,
    /// The languages declared by code blocks for which no syntax was
    /// found.
    pub unknown_languages: Vec<String>,
    /// The shortcodes that are no emoji's, each once.
    pub unresolved_emojis: Vec<String>,
}

pub ghost struct ProcessedModel {
    pub frontmatter: Option<Seq<char>>,
    pub events: Seq<EventModel>,
    pub unknown_languages: Seq<Seq<char>>,
    pub unresolved_emojis: Seq<Seq<char>>,
}

impl View for Processed {
    type V = ProcessedModel;

    open spec fn view(&self) -> ProcessedModel {
        ProcessedModel {
            frontmatter: option_text(self.frontmatter),
            events: events_view(self.events@),
            unknown_languages: texts(self.unknown_languages@),
            unresolved_emojis: texts(self.unresolved_emojis@),
        }
    }
}

/// What the pipeline makes of `events`: nothing where the pattern of a
/// shortcode cannot be built, or where an event comes in a state that does
/// not accept it.
pub open spec fn processed(events: Seq<EventModel>) -> Option<ProcessedModel> {
    match shortcode_pattern() {
        Ok(pattern) => match PipelineModel::initial(pattern).complete(events) {
            Some(end) => Some(
                ProcessedModel {
                    frontmatter: end.state.chain.frontmatter.body,
                    events: end.out,
                    unknown_languages: end.state.chain.code_block.unknown_languages,
                    unresolved_emojis: unresolved_of(end.state.chain.text.seen),
                },
            ),
            None => None,
        },
        Err(_) => None,
    }
}

pub ghost struct ParseModel {
    pub frontmatter: Option<Seq<char>>,
    pub html: Seq<char>,
    pub unknown_languages: Seq<Seq<char>>,
    pub unresolved_emojis: Seq<Seq<char>>,
}

impl View for MarkdownParseResult {
    type V = ParseModel;

    open spec fn view(&self) -> ParseModel {
        ParseModel {
            frontmatter: option_text(self.frontmatter),
            html: self.html@,
            unknown_languages: texts(self.unknown_languages@),
            unresolved_emojis: texts(self.unresolved_emojis@),
        }
    }
}

/// What the pipeline makes of the document `content`: what it makes of its
/// events, rendered.
pub open spec fn parsed(content: Seq<char>) -> Option<ParseModel> {
    match processed(source_events(document_events(content))) {
        Some(found) => Some(
            ParseModel {
                frontmatter: found.frontmatter,
                html: rendered_html(content, found.events),
                unknown_languages: found.unknown_languages,
                unresolved_emojis: found.unresolved_emojis,
            },
        ),
        None => None,
    }
}

/// The pipeline at work: the chain of sub-parsers and the open request to
/// suppress events.
pub struct MarkdownParserIter {
    sub_parser: SubParsers,
    ignore: Option<Ignore>,
}

impl View for MarkdownParserIter {
    type V = PipelineModel;

    closed spec fn view(&self) -> PipelineModel {
        PipelineModel { chain: self.sub_parser@, ignore: self.ignore }
    }
}

impl MarkdownParserIter {
    /// Whether what the pipeline remembers is what it would work out anew.
    pub closed spec fn wf(&self) -> bool {
        self.sub_parser.wf()
    }

    /// The pipeline before the first event, around the chain `sub_parser`.
    pub fn new(sub_parser: SubParsers) -> (pipeline: MarkdownParserIter)
        requires
            sub_parser.wf(),
        ensures
            pipeline.wf(),
            pipeline@ == (PipelineModel { chain: sub_parser@, ignore: None }),
    {
        MarkdownParserIter { sub_parser, ignore: None }
    }

    /// Whether `event` may come now.
    pub fn can_take(&self, event: &Event) -> (ok: bool)
        ensures
            ok == self@.accepts(event@),
    {
        let suppressed = match &self.ignore {
            Some(ignore) => ignore.next(event).0,
            None => false,
        };
        suppressed || self.sub_parser.can_receive(event)
    }

    /// Takes `event` in and gives what comes out for it.
    pub fn next(&mut self, event: Event) -> (out: Vec<Event>)
        requires
            old(self).wf(),
            old(self)@.accepts(event@),
        ensures
            final(self).wf(),
            final(self)@ == old(self)@.after(event@),
            events_view(out@) == old(self)@.emitted(event@),
    {
        let mut out: Vec<Event> = Vec::new();
        proof {
            assert(events_view(out@) =~= Seq::<EventModel>::empty());
        }
        if let Some(ignore) = self.ignore {
            let (should_ignore, ignore_next) = ignore.next(&event);
            self.ignore = ignore_next;
            if should_ignore {
                return out;
            }
        }
        match self.sub_parser.receive_event(&event) {
            EventProcessControl::Continue(next) => {
                if next.ignore.is_some() {
                    self.ignore = next.ignore;
                }
                let kept = match next.replacement {
                    Some(replacement) => replacement,
                    None => event,
                };
                proof {
                    lemma_events_push(out@, kept);
                    assert(events_view(out@).push(kept@) =~= seq![kept@]);
                }
                out.push(kept);
                out
            },
            EventProcessControl::Break(BreakingEventProcess::Discard) => out,
            EventProcessControl::Break(BreakingEventProcess::UseThisInstead(replacement)) =>
                replacement,
        }
    }

    /// Ends the document: the events that the sub-parsers add behind it,
    /// which are to pass through the pipeline in their turn.
    pub fn finalization(&mut self) -> (closing: Vec<Event>)
        requires
            old(self).wf(),
        ensures
            final(self).wf(),
            final(self)@ == (PipelineModel { chain: old(self)@.chain.finished(), ..old(self)@ }),
            events_view(closing@) == old(self)@.chain.closing(),
    {
        self.sub_parser.finalize()
    }

    /// What the pipeline has found, with `events` as what came out of it.
    pub fn into_processed(self, events: Vec<Event>) -> (found: Processed)
        requires
            self.wf(),
        ensures
            found@ == (ProcessedModel {
                frontmatter: self@.chain.frontmatter.body,
                events: events_view(events@),
                unknown_languages: self@.chain.code_block.unknown_languages,
                unresolved_emojis: unresolved_of(self@.chain.text.seen),
            }),
    {
        let MarkdownParserIter { sub_parser, ignore: _ } = self;
        let SubParsers { frontmatter, code_block, footnote, text } = sub_parser;
        footnote.compose_output();
        Processed {
            frontmatter: frontmatter.compose_output().body,
            events,
            unknown_languages: code_block.compose_output(),
            unresolved_emojis: text.compose_output(),
        }
    }

    /// Passes `events` through the pipeline one by one and adds what comes
    /// out to `out`. Stops, and says so, at the first event that comes in
    /// a state that does not accept it.
    pub fn feed(&mut self, events: &Vec<Event>, out: &mut Vec<Event>) -> (done: bool)
        requires
            old(self).wf(),
        ensures
            final(self).wf(),
            done == old(self)@.run(events_view(events@), events@.len()) is Some,
            done ==> final(self)@ == old(self)@.run(events_view(events@), events@.len())->0.state
                && events_view(final(out)@) == events_view(old(out)@) + old(self)@.run(
                events_view(events@),
                events@.len(),
            )->0.out,
    {
        let ghost all = events_view(events@);
        let ghost start = self@;
        let ghost before = events_view(out@);
        let total = events.len();
        let mut i: usize = 0;
        proof {
            assert(before + Seq::<EventModel>::empty() =~= before);
        }
        while i < total
            invariant
                i <= total,
                total == all.len(),
                self.wf(),
                all == events_view(events@),
                start == old(self)@,
                before == events_view(old(out)@),
                start.run(all, i as nat) is Some,
                self@ == start.run(all, i as nat)->0.state,
                events_view(out@) == before + start.run(all, i as nat)->0.out,
            decreases total - i,
        {
            let event = events[i].duplicate();
            assert(event@ == all[i as int]);
            if !self.can_take(&event) {
                proof {
                    assert(start.run(all, i as nat)->0.state == self@);
                    assert(!self@.accepts(all[i as int]));
                    assert(start.run(all, (i + 1) as nat) is None);
                    lemma_run_fails(start, all, (i + 1) as nat, total as nat);
                }
                return false;
            }
            let mut emitted = self.next(event);
            proof {
                lemma_events_concat(out@, emitted@);
                let sofar = start.run(all, i as nat)->0.out;
                assert(before + (sofar + events_view(emitted@)) =~= before + sofar + events_view(
                    emitted@,
                ));
            }
            out.append(&mut emitted);
            i += 1;
        }
        true
    }
}

/// Once the pipeline has stopped at an event, it has stopped for good.
pub proof fn lemma_run_fails(start: PipelineModel, events: Seq<EventModel>, n: nat, m: nat)
    requires
        n <= m <= events.len(),
        start.run(events, n) is None,
    ensures
        start.run(events, m) is None,
    decreases m,
{
    if n < m {
        lemma_run_fails(start, events, n, (m - 1) as nat);
    }
}


/// What the pipeline makes of `events`, rendering apart: nothing where
/// the pattern of a shortcode cannot be built, or where an event comes in
/// a state that does not accept it.
pub fn process_events(events: &Vec<Event>) -> (found: Option<Processed>)
    ensures
        found is Some == processed(events_view(events@)) is Some,
        found is Some ==> found->0@ == processed(events_view(events@))->0,
{
    let chain = match SubParsers::new() {
        Ok(chain) => chain,
        Err(_) => {
            return None;
        },
    };
    let mut pipeline = MarkdownParserIter::new(chain);
    let ghost start = pipeline@;
    let mut out: Vec<Event> = Vec::new();
    proof {
        assert(events_view(out@) =~= Seq::<EventModel>::empty());
    }
    if !pipeline.feed(events, &mut out) {
        return None;
    }
    let ghost body = start.run(events_view(events@), events@.len())->0;
    proof {
        assert(Seq::<EventModel>::empty() + body.out =~= body.out);
    }
    let closing = pipeline.finalization();
    if !pipeline.feed(&closing, &mut out) {
        return None;
    }
    Some(pipeline.into_processed(out))
}

/// What the pipeline makes of the document `content`: nothing where the
/// pattern of a shortcode cannot be built, or where an event of the
/// document comes in a state that does not accept it.
pub fn parse_content(content: &str) -> (found: Option<MarkdownParseResult>)
    ensures
        found is Some == parsed(content@) is Some,
        found is Some ==> found->0@ == parsed(content@)->0,
{
    let kinds = tokenize(content);
    let mut events: Vec<Event> = Vec::new();
    let mut i: usize = 0;
    while i < kinds.len()
        invariant
            i <= kinds.len(),
            events@.len() == i,
            forall|k: int|
                0 <= k < i ==> (#[trigger] events@[k])@ == (EventModel::Source {
                    index: k as usize,
                    kind: kinds@[k]@,
                }),
        decreases kinds.len() - i,
    {
        events.push(Event::Source { index: i, kind: kinds[i].duplicate() });
        i += 1;
    }
    let ghost document = source_events(document_events(content@));
    let ghost count = document.len();
    proof {
        assert(kinds_view(kinds@).len() == kinds@.len());
        assert forall|k: int| 0 <= k < kinds@.len() implies events_view(events@)[k]
            == document[k] by {
            assert(kinds_view(kinds@)[k] == kinds@[k]@);
        }
        assert(events_view(events@) =~= document);
    }
    match process_events(&events) {
        Some(found) => {
            proof {
                let property = |event: EventModel| event_within(event, count);
                let pattern = shortcode_pattern()->Ok_0;
                assert(all_events(document, property));
                lemma_complete_keeps(PipelineModel::initial(pattern), document, property);
                assert(within_document(events_view(found.events@), count)) by {
                    assert forall|k: int| 0 <= k < found.events@.len() implies event_within(
                        #[trigger] events_view(found.events@)[k],
                        count,
                    ) by {
                        assert(property(events_view(found.events@)[k]));
                    }
                }
            }
            let html = render(content, &found.events);
            Some(
                MarkdownParseResult {
                    frontmatter: found.frontmatter,
                    html,
                    unknown_languages: found.unknown_languages,
                    unresolved_emojis: found.unresolved_emojis,
                },
            )
        },
        None => None,
    }
}

/// What holds of an event, of all events kept in footnote definitions and
/// of raw HTML holds, after that event, of all events kept and of all that
/// came out for it.
pub proof fn lemma_step_keeps(
    state: PipelineModel,
    event: EventModel,
    property: spec_fn(EventModel) -> bool,
)
    requires
        state.chain.footnote.keeps_only(property),
        property(event),
        holds_of_html(property),
    ensures
        state.after(event).chain.footnote.keeps_only(property),
        all_events(state.emitted(event), property),
{
    if !state.suppresses(event) {
        lemma_footnote_after_keeps(state.chain.footnote, event, property);
        let out = state.emitted(event);
        assert forall|i: int| 0 <= i < out.len() implies property(#[trigger] out[i]) by {}
    }
}

/// What holds of all of `events`, of all events kept in footnote
/// definitions and of raw HTML holds, after the first `n` of `events`, of
/// all events kept and of all that came out.
pub proof fn lemma_run_keeps(
    start: PipelineModel,
    events: Seq<EventModel>,
    n: nat,
    property: spec_fn(EventModel) -> bool,
)
    requires
        start.chain.footnote.keeps_only(property),
        all_events(events, property),
        holds_of_html(property),
    ensures
        start.run(events, n) matches Some(end) ==> end.state.chain.footnote.keeps_only(property)
            && all_events(end.out, property),
    decreases n,
{
    if !(n == 0 || n > events.len()) {
        lemma_run_keeps(start, events, (n - 1) as nat, property);
        if let Some(sofar) = start.run(events, (n - 1) as nat) {
            if sofar.state.accepts(events[n - 1]) {
                lemma_step_keeps(sofar.state, events[n - 1], property);
                lemma_all_events_concat(sofar.out, sofar.state.emitted(events[n - 1]), property);
            }
        }
    }
}

/// What holds of all events of a document and of raw HTML holds of all
/// that comes out of the pipeline for the document.
pub proof fn lemma_complete_keeps(
    start: PipelineModel,
    events: Seq<EventModel>,
    property: spec_fn(EventModel) -> bool,
)
    requires
        start.chain.footnote.keeps_only(property),
        all_events(events, property),
        holds_of_html(property),
    ensures
        start.complete(events) matches Some(end) ==> end.state.chain.footnote.keeps_only(property)
            && all_events(end.out, property),
{
    lemma_run_keeps(start, events, events.len(), property);
    if let Some(body) = start.run(events, events.len()) {
        lemma_footnote_closing_keeps(body.state.chain.footnote, property);
        let closing = body.state.chain.closing();
        let ended = PipelineModel { chain: body.state.chain.finished(), ..body.state };
        lemma_run_keeps(ended, closing, closing.len(), property);
        if let Some(end) = ended.run(closing, closing.len()) {
            lemma_all_events_concat(body.out, end.out, property);
        }
    }
}


/// After the first `n` events of a document without footnote definitions
/// the pipeline holds no definition.
pub proof fn lemma_run_without_definitions(start: PipelineModel, events: Seq<EventModel>, n: nat)
    requires
        start.chain.footnote.footnotes.len() == 0,
        start.chain.footnote.building is None,
        forall|i: int|
            0 <= i < events.len() ==> !(kind_of(#[trigger] events[i])
                is FootnoteDefinitionStart),
    ensures
        start.run(events, n) matches Some(end) ==> end.state.chain.footnote.footnotes.len() == 0
            && end.state.chain.footnote.building is None,
    decreases n,
{
    if !(n == 0 || n > events.len()) {
        lemma_run_without_definitions(start, events, (n - 1) as nat);
        if let Some(sofar) = start.run(events, (n - 1) as nat) {
            assert(!(kind_of(events[n - 1]) is FootnoteDefinitionStart));
        }
    }
}

/// A document without footnote definitions gets no footnote section:
/// nothing is added behind its last event, whether or not it holds
/// references.
pub proof fn lemma_no_definitions_no_section(pattern: Seq<char>, events: Seq<EventModel>)
    requires
        forall|i: int|
            0 <= i < events.len() ==> !(kind_of(#[trigger] events[i])
                is FootnoteDefinitionStart),
    ensures
        PipelineModel::initial(pattern).run(events, events.len()) matches Some(body)
            ==> body.state.chain.closing().len() == 0 && PipelineModel::initial(
            pattern,
        ).complete(events) == Some(body),
        PipelineModel::initial(pattern).run(events, events.len()) is None
            ==> PipelineModel::initial(pattern).complete(events) is None,
{
    let start = PipelineModel::initial(pattern);
    lemma_run_without_definitions(start, events, events.len());
    if let Some(body) = start.run(events, events.len()) {
        let footnote = body.state.chain.footnote;
        assert(footnote.all_definitions() =~= footnote.footnotes);
        assert(footnote.finished() == footnote);
        let closing = body.state.chain.closing();
        assert(closing.len() == 0);
        let ended = PipelineModel { chain: body.state.chain.finished(), ..body.state };
        assert(ended == body.state);
        assert(body.out + Seq::<EventModel>::empty() =~= body.out);
    }
}

/// The metadata block has been read, and its text is `text`.
pub open spec fn frontmatter_read(state: PipelineModel, text: Seq<char>) -> bool {
    state.chain.frontmatter == (FrontmatterModel { body: Some(text), in_frontmatter: false })
}

/// Holds of every event but the start of a metadata block.
pub open spec fn starts_no_metadata() -> spec_fn(EventModel) -> bool {
    |event: EventModel| kind_of(event) != KindModel::MetadataStart
}

/// Once the metadata block has been read, events that start no other
/// leave its text as it is.
pub proof fn lemma_frontmatter_kept(
    start: PipelineModel,
    events: Seq<EventModel>,
    n: nat,
    text: Seq<char>,
)
    requires
        frontmatter_read(start, text),
        all_events(events, starts_no_metadata()),
    ensures
        start.run(events, n) matches Some(end) ==> frontmatter_read(end.state, text),
    decreases n,
{
    if !(n == 0 || n > events.len()) {
        lemma_frontmatter_kept(start, events, (n - 1) as nat, text);
        if let Some(sofar) = start.run(events, (n - 1) as nat) {
            assert(starts_no_metadata()(events[n - 1]));
        }
    }
}

/// A document opens with a metadata block that holds `text`, and no other
/// metadata block follows.
pub open spec fn opens_with_metadata(events: Seq<EventModel>, text: Seq<char>) -> bool {
    &&& events.len() >= 3
    &&& kind_of(events[0]) == KindModel::MetadataStart
    &&& kind_of(events[1]) == KindModel::Text(text)
    &&& kind_of(events[2]) == KindModel::MetadataEnd
    &&& forall|i: int| 3 <= i < events.len() ==> starts_no_metadata()(#[trigger] events[i])
}

/// After the metadata block at the head of a document and any number of
/// events behind it, the text read is that of the block, and no event kept
/// in a footnote definition starts a metadata block.
pub proof fn lemma_metadata_block_read(
    pattern: Seq<char>,
    events: Seq<EventModel>,
    n: nat,
    text: Seq<char>,
)
    requires
        opens_with_metadata(events, text),
        3 <= n <= events.len(),
    ensures
        PipelineModel::initial(pattern).run(events, n) matches Some(end) ==> frontmatter_read(
            end.state,
            text,
        ) && end.state.chain.footnote.keeps_only(starts_no_metadata()),
    decreases n,
{
    let start = PipelineModel::initial(pattern);
    if n == 3 {
        reveal_with_fuel(PipelineModel::run, 4);
        let first = start.run(events, 1);
        let second = start.run(events, 2);
        if let Some(end) = start.run(events, 3) {
            assert(first is Some);
            assert(second is Some);
            assert(first->0.state.chain.frontmatter == (FrontmatterModel {
                body: None,
                in_frontmatter: true,
            }));
            assert(first->0.state.ignore is None);
            assert(second->0.state.chain.frontmatter == (FrontmatterModel {
                body: Some(text),
                in_frontmatter: true,
            }));
            assert(second->0.state.ignore is None);
            assert(frontmatter_read(end.state, text));
            assert(end.state.chain.footnote == FootnoteModel::initial());
        }
    } else {
        lemma_metadata_block_read(pattern, events, (n - 1) as nat, text);
        if let Some(sofar) = start.run(events, (n - 1) as nat) {
            assert(starts_no_metadata()(events[n - 1]));
            if sofar.state.accepts(events[n - 1]) {
                lemma_step_keeps(sofar.state, events[n - 1], starts_no_metadata());
            }
        }
    }
}

/// The text found for a document that opens with a metadata block is the
/// text of that block, character for character, whatever follows the
/// block.
pub proof fn lemma_frontmatter_is_block_text(events: Seq<EventModel>, text: Seq<char>)
    requires
        opens_with_metadata(events, text),
    ensures
        processed(events) matches Some(found) ==> found.frontmatter == Some(text),
{
    if let Ok(pattern) = shortcode_pattern() {
        let start = PipelineModel::initial(pattern);
        lemma_metadata_block_read(pattern, events, events.len(), text);
        if let Some(body) = start.run(events, events.len()) {
            lemma_footnote_closing_keeps(body.state.chain.footnote, starts_no_metadata());
            let closing = body.state.chain.closing();
            let ended = PipelineModel { chain: body.state.chain.finished(), ..body.state };
            lemma_frontmatter_kept(ended, closing, closing.len(), text);
        }
    }
}


/// Holds of every event but literal text.
pub open spec fn is_no_text() -> spec_fn(EventModel) -> bool {
    |event: EventModel| !(kind_of(event) is Text)
}

/// No literal text comes out of the pipeline as it came in: for an event
/// that is literal text nothing comes out, or raw HTML does.
pub proof fn lemma_text_is_rewritten(state: PipelineModel, event: EventModel)
    ensures
        all_events(state.emitted(event), is_no_text()),
{
    let out = state.emitted(event);
    assert forall|i: int| 0 <= i < out.len() implies is_no_text()(#[trigger] out[i]) by {}
}

/// Nothing that comes out of the pipeline for a list of events is literal
/// text.
pub proof fn lemma_run_rewrites_text(start: PipelineModel, events: Seq<EventModel>, n: nat)
    ensures
        start.run(events, n) matches Some(end) ==> all_events(end.out, is_no_text()),
    decreases n,
{
    if !(n == 0 || n > events.len()) {
        lemma_run_rewrites_text(start, events, (n - 1) as nat);
        if let Some(sofar) = start.run(events, (n - 1) as nat) {
            lemma_text_is_rewritten(sofar.state, events[n - 1]);
            lemma_all_events_concat(
                sofar.out,
                sofar.state.emitted(events[n - 1]),
                is_no_text(),
            );
        }
    }
}

/// Nothing that the renderer gets to see of a document is literal text:
/// every text was taken in by a sub-parser or replaced by raw HTML, also
/// the text inside footnote definitions.
pub proof fn lemma_processed_holds_no_text(events: Seq<EventModel>)
    ensures
        processed(events) matches Some(found) ==> all_events(found.events, is_no_text()),
{
    if let Ok(pattern) = shortcode_pattern() {
        let start = PipelineModel::initial(pattern);
        lemma_run_rewrites_text(start, events, events.len());
        if let Some(body) = start.run(events, events.len()) {
            let closing = body.state.chain.closing();
            let ended = PipelineModel { chain: body.state.chain.finished(), ..body.state };
            lemma_run_rewrites_text(ended, closing, closing.len());
            if let Some(end) = ended.run(closing, closing.len()) {
                lemma_all_events_concat(body.out, end.out, is_no_text());
            }
        }
    }
}

} // verus!
