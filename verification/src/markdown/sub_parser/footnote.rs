//! The sub-parser that collects footnote definitions, numbers the
//! references to them and writes the list of footnotes at the end.
use vstd::prelude::*;
use vstd::string::StringExecFns;
use crate::markdown::control::discard;
use crate::markdown::control::use_html;
use crate::markdown::control::use_next;
use crate::markdown::control::ControlModel;
use crate::markdown::control::EventProcessControl;
use crate::markdown::control::NextModel;
use crate::markdown::event::all_events;
use crate::markdown::event::duplicate_events;
use crate::markdown::event::holds_of_html;
use crate::markdown::event::events_view;
use crate::markdown::event::kind_of;
use crate::markdown::event::lemma_events_concat;
use crate::markdown::event::lemma_events_push;
use crate::markdown::event::Event;
use crate::markdown::event::EventKind;
use crate::markdown::event::EventModel;
use crate::markdown::event::KindModel;
use crate::text::decimal;
use crate::text::same_text;
use crate::text::to_decimal;

verus! {

/// A footnote definition: its id and the events of its body.
pub struct FootNoteDefinition {
    pub id: String,
    pub events: Vec<Event>,
}

pub ghost struct DefinitionModel {
    pub id: Seq<char>,
    pub events: Seq<EventModel>,
}

impl View for FootNoteDefinition {
    type V = DefinitionModel;

    open spec fn view(&self) -> DefinitionModel {
        DefinitionModel { id: self.id@, events: events_view(self.events@) }
    }
}

impl FootNoteDefinition {
    /// The definition of `id` with nothing in its body yet.
    pub fn new(id: &str) -> (definition: FootNoteDefinition)
        ensures
            definition@ == (DefinitionModel { id: id@, events: Seq::empty() }),
    {
        let definition = FootNoteDefinition { id: id.to_owned(), events: Vec::new() };
        proof {
            assert(events_view(definition.events@) =~= Seq::<EventModel>::empty());
        }
        definition
    }
}

/// A footnote that the text refers to: its id and how often it was
/// referred to so far.
pub struct FootNoteRef {
    pub id: String,
    pub ref_count: usize,
}

pub ghost struct ReferenceModel {
    pub id: Seq<char>,
    pub ref_count: usize,
}

impl View for FootNoteRef {
    type V = ReferenceModel;

    open spec fn view(&self) -> ReferenceModel {
        ReferenceModel { id: self.id@, ref_count: self.ref_count }
    }
}

/// The sub-parser for footnotes.
pub struct FootnoteSubParser {
    footnotes: Vec<FootNoteDefinition>,
    footnote_refs: Vec<FootNoteRef>,
    building_footnotes: Option<FootNoteDefinition>,
}

pub ghost struct FootnoteModel {
    /// The definitions that are complete, in the order of the document.
    pub footnotes: Seq<DefinitionModel>,
    /// The footnotes referred to, in the order of their first reference.
    pub references: Seq<ReferenceModel>,
    /// The definition whose body is being read.
    pub building: Option<DefinitionModel>,
}

/// The place of the first of `references` that has the id `id`; their
/// number if none has.
pub open spec fn ordinal_of(references: Seq<ReferenceModel>, id: Seq<char>) -> nat
    decreases references.len(),
{
    if references.len() == 0 {
        0
    } else if references[0].id == id {
        0
    } else {
        1 + ordinal_of(references.drop_first(), id)
    }
}

/// What `ordinal_of` finds: the first place with that id, and no other.
pub proof fn lemma_ordinal_of(references: Seq<ReferenceModel>, id: Seq<char>, k: int)
    requires
        0 <= k <= references.len(),
        forall|j: int| 0 <= j < k ==> (#[trigger] references[j]).id != id,
        k < references.len() ==> references[k].id == id,
    ensures
        ordinal_of(references, id) == k,
    decreases references.len(),
{
    if references.len() > 0 && k > 0 {
        assert(references[0].id != id);
        let rest = references.drop_first();
        assert forall|j: int| 0 <= j < k - 1 implies (#[trigger] rest[j]).id != id by {
            assert(rest[j] == references[j + 1]);
        }
        lemma_ordinal_of(rest, id, k - 1);
    }
}

/// The anchor and the superscript link that stand in the text for the
/// reference to footnote `id`, this being reference number `count` to it
/// and the footnote being number `ordinal` in the list.
pub open spec fn reference_html(id: Seq<char>, count: nat, ordinal: nat) -> Seq<char> {
    "<a id=\"fnref_"@ + id + "_"@ + decimal(count)
        + "\" class=\"fnref-anchor\"></a><sup><a href=\"#fn_"@ + id + "\">#"@ + decimal(ordinal)
        + "</a></sup>"@
}

/// The opening of the footnote section.
pub open spec fn section_open() -> Seq<char> {
    "<aside class=\"footnote-def\"><h1>脚注</h1><ol>"@
}

/// The closing of the footnote section.
pub open spec fn section_close() -> Seq<char> {
    "</ol></aside>"@
}

/// The opening of the list item of footnote `id`.
pub open spec fn item_open(id: Seq<char>) -> Seq<char> {
    "<li id=\"fn_"@ + id + "\">"@
}

/// The closing of a list item.
pub open spec fn item_close() -> Seq<char> {
    "</li>"@
}

/// The link from the item of footnote `id` back to reference number
/// `occurrence` to it.
pub open spec fn back_link(id: Seq<char>, occurrence: nat) -> Seq<char> {
    "<sub><a href=\"#fnref_"@ + id + "_"@ + decimal(occurrence) + "\">戻る</a></sub>"@
}

/// The back links of footnote `id`, one for each of `count` references,
/// the first reference first.
pub open spec fn back_links(id: Seq<char>, count: nat) -> Seq<EventModel> {
    Seq::new(count, |k: int| EventModel::Html(back_link(id, (k + 1) as nat)))
}

/// The list item of `definition`, to which the text referred `count`
/// times.
pub open spec fn item(definition: DefinitionModel, count: nat) -> Seq<EventModel> {
    seq![EventModel::Html(item_open(definition.id))] + definition.events + back_links(
        definition.id,
        count,
    ) + seq![EventModel::Html(item_close())]
}

/// The items of those of the first `n` definitions whose id is first
/// referred to by reference number `ordinal`, in the order of the
/// definitions.
pub open spec fn items_of_reference(
    definitions: Seq<DefinitionModel>,
    references: Seq<ReferenceModel>,
    ordinal: int,
    n: nat,
) -> Seq<EventModel>
    decreases n,
{
    if n == 0 || n > definitions.len() || !(0 <= ordinal < references.len()) {
        Seq::empty()
    } else {
        let before = items_of_reference(definitions, references, ordinal, (n - 1) as nat);
        let definition = definitions[n - 1];
        if ordinal_of(references, definition.id) == ordinal {
            before + item(definition, references[ordinal].ref_count as nat)
        } else {
            before
        }
    }
}

/// The items of the definitions that the first `r` references refer to,
/// in the order of the references.
pub open spec fn referenced_items(
    definitions: Seq<DefinitionModel>,
    references: Seq<ReferenceModel>,
    r: nat,
) -> Seq<EventModel>
    decreases r,
{
    if r == 0 || r > references.len() {
        Seq::empty()
    } else {
        referenced_items(definitions, references, (r - 1) as nat) + items_of_reference(
            definitions,
            references,
            r - 1,
            definitions.len(),
        )
    }
}

/// The items of those of the first `n` definitions that nothing refers
/// to, in the order of the definitions.
pub open spec fn unreferenced_items(
    definitions: Seq<DefinitionModel>,
    references: Seq<ReferenceModel>,
    n: nat,
) -> Seq<EventModel>
    decreases n,
{
    if n == 0 || n > definitions.len() {
        Seq::empty()
    } else {
        let before = unreferenced_items(definitions, references, (n - 1) as nat);
        let definition = definitions[n - 1];
        if ordinal_of(references, definition.id) == references.len() {
            before + item(definition, 0)
        } else {
            before
        }
    }
}

/// The footnote section: the definitions that were referred to, in the
/// order of their first reference, then the others in the order of their
/// definition.
pub open spec fn section(
    definitions: Seq<DefinitionModel>,
    references: Seq<ReferenceModel>,
) -> Seq<EventModel> {
    seq![EventModel::Html(section_open())] + referenced_items(
        definitions,
        references,
        references.len(),
    ) + unreferenced_items(definitions, references, definitions.len()) + seq![
        EventModel::Html(section_close()),
    ]
}

impl FootnoteModel {
    /// The state before the first event.
    pub open spec fn initial() -> FootnoteModel {
        FootnoteModel { footnotes: Seq::empty(), references: Seq::empty(), building: None }
    }

    /// Whether a reference to `id` can be counted: the count of its
    /// references must still fit.
    pub open spec fn can_count(self, id: Seq<char>) -> bool {
        let k = ordinal_of(self.references, id);
        k < self.references.len() ==> self.references[k as int].ref_count < usize::MAX
    }

    /// The references after one more reference to `id`.
    pub open spec fn counted(self, id: Seq<char>) -> Seq<ReferenceModel> {
        let k = ordinal_of(self.references, id);
        if k < self.references.len() {
            self.references.update(
                k as int,
                ReferenceModel {
                    id,
                    ref_count: (self.references[k as int].ref_count + 1) as usize,
                },
            )
        } else {
            self.references.push(ReferenceModel { id, ref_count: 1 })
        }
    }

    /// What stands in the text for one more reference to `id`.
    pub open spec fn reference(self, id: Seq<char>) -> Seq<char> {
        let k = ordinal_of(self.references, id);
        reference_html(id, self.counted(id)[k as int].ref_count as nat, k + 1)
    }

    /// Whether `event` may come in this state.
    pub open spec fn accepts(self, event: EventModel) -> bool {
        self.building is None ==> (kind_of(event) matches KindModel::FootnoteReference(id)
            ==> self.can_count(id))
    }

    /// The state after `event`.
    pub open spec fn after(self, event: EventModel) -> FootnoteModel {
        match self.building {
            Some(definition) => if kind_of(event) == KindModel::FootnoteDefinitionEnd {
                FootnoteModel {
                    footnotes: self.footnotes.push(definition),
                    building: None,
                    ..self
                }
            } else {
                FootnoteModel {
                    building: Some(
                        DefinitionModel { events: definition.events.push(event), ..definition },
                    ),
                    ..self
                }
            },
            None => match kind_of(event) {
                KindModel::FootnoteDefinitionStart(id) => FootnoteModel {
                    building: Some(DefinitionModel { id, events: Seq::empty() }),
                    ..self
                },
                KindModel::FootnoteReference(id) => FootnoteModel {
                    references: self.counted(id),
                    ..self
                },
                _ => self,
            },
        }
    }

    /// The answer to `event`: a definition and all in it is dropped, a
    /// reference becomes its link, all else is handed on.
    pub open spec fn answer(self, event: EventModel) -> ControlModel {
        if self.building is Some {
            ControlModel::Discard
        } else {
            match kind_of(event) {
                KindModel::FootnoteDefinitionStart(_) => ControlModel::Discard,
                KindModel::FootnoteReference(id) => ControlModel::UseThisInstead(
                    seq![EventModel::Html(self.reference(id))],
                ),
                _ => ControlModel::Continue(NextModel::unchanged()),
            }
        }
    }

    /// All definitions at the end of the document: a definition that was
    /// still being read counts as complete.
    pub open spec fn all_definitions(self) -> Seq<DefinitionModel> {
        match self.building {
            Some(definition) => self.footnotes.push(definition),
            None => self.footnotes,
        }
    }

    /// The state after the end of the document.
    pub open spec fn finished(self) -> FootnoteModel {
        FootnoteModel { footnotes: self.all_definitions(), building: None, ..self }
    }

    /// The events to add at the end of the document: the footnote section
    /// if there is any definition, else nothing.
    pub open spec fn closing(self) -> Option<Seq<EventModel>> {
        if self.all_definitions().len() == 0 {
            None
        } else {
            Some(section(self.all_definitions(), self.references))
        }
    }
}

/// What a list of definitions holds.
pub open spec fn definitions_view(v: Seq<FootNoteDefinition>) -> Seq<DefinitionModel> {
    Seq::new(v.len(), |i: int| v[i]@)
}

/// What a list of references holds.
pub open spec fn references_view(v: Seq<FootNoteRef>) -> Seq<ReferenceModel> {
    Seq::new(v.len(), |i: int| v[i]@)
}

impl View for FootnoteSubParser {
    type V = FootnoteModel;

    closed spec fn view(&self) -> FootnoteModel {
        FootnoteModel {
            footnotes: definitions_view(self.footnotes@),
            references: references_view(self.footnote_refs@),
            building: match self.building_footnotes {
                Some(definition) => Some(definition@),
                None => None,
            },
        }
    }
}

impl Default for FootnoteSubParser {
    fn default() -> (parser: FootnoteSubParser)
        ensures
            parser@ == FootnoteModel::initial(),
    {
        let parser = FootnoteSubParser {
            footnotes: Vec::new(),
            footnote_refs: Vec::new(),
            building_footnotes: None,
        };
        proof {
            assert(definitions_view(parser.footnotes@) =~= Seq::<DefinitionModel>::empty());
            assert(references_view(parser.footnote_refs@) =~= Seq::<ReferenceModel>::empty());
        }
        parser
    }
}

/// The place of the first of `references` with the id `id`.
fn find_reference(references: &Vec<FootNoteRef>, id: &str) -> (k: usize)
    ensures
        k == ordinal_of(references_view(references@), id@),
        k <= references@.len(),
{
    let mut k: usize = 0;
    while k < references.len()
        invariant
            k <= references.len(),
            forall|j: int| 0 <= j < k ==> (#[trigger] references_view(references@)[j]).id != id@,
        decreases references.len() - k,
    {
        if same_text(references[k].id.as_str(), id) {
            proof {
                lemma_ordinal_of(references_view(references@), id@, k as int);
            }
            return k;
        }
        k += 1;
    }
    proof {
        lemma_ordinal_of(references_view(references@), id@, k as int);
    }
    k
}

/// The list item of `definition`, to which the text referred `count`
/// times, added to `out`.
fn push_item(out: &mut Vec<Event>, definition: &FootNoteDefinition, count: usize)
    ensures
        events_view(final(out)@) == events_view(old(out)@) + item(definition@, count as nat),
{
    let ghost before = events_view(out@);
    let mut open = String::from_str("<li id=\"fn_");
    open.append(definition.id.as_str());
    open.append("\">");
    out.push(Event::Html(open));
    let mut body = duplicate_events(&definition.events);
    let ghost middle = events_view(out@);
    proof {
        lemma_events_push(old(out)@, out@.last());
        assert(out@ =~= old(out)@.push(out@.last()));
        lemma_events_concat(out@, body@);
    }
    out.append(&mut body);
    let ghost with_body = events_view(out@);
    let mut k: usize = 0;
    while k < count
        invariant
            k <= count,
            events_view(out@) == with_body + back_links(definition@.id, k as nat),
        decreases count - k,
    {
        let mut link = String::from_str("<sub><a href=\"#fnref_");
        link.append(definition.id.as_str());
        link.append("_");
        link.append(to_decimal((k + 1) as u64).as_str());
        link.append("\">戻る</a></sub>");
        proof {
            assert(link@ == back_link(definition@.id, (k + 1) as nat));
            lemma_events_push(out@, Event::Html(link));
            assert(back_links(definition@.id, (k + 1) as nat) =~= back_links(
                definition@.id,
                k as nat,
            ).push(EventModel::Html(link@)));
        }
        out.push(Event::Html(link));
        k += 1;
    }
    let close = Event::Html(String::from_str("</li>"));
    proof {
        lemma_events_push(out@, close);
        assert(events_view(out@.push(close)) =~= before + item(definition@, count as nat));
    }
    out.push(close);
}

impl FootnoteSubParser {
    /// Counts one more reference to footnote `id` and gives what stands in
    /// the text for it.
    pub fn add_footnote_reference(&mut self, id: &str) -> (html: String)
        requires
            old(self)@.can_count(id@),
        ensures
            final(self)@ == (FootnoteModel { references: old(self)@.counted(id@), ..old(self)@ }),
            html@ == old(self)@.reference(id@),
    {
        let index = find_reference(&self.footnote_refs, id);
        let count: usize = if index < self.footnote_refs.len() {
            let count = self.footnote_refs[index].ref_count + 1;
            self.footnote_refs.set(index, FootNoteRef { id: id.to_owned(), ref_count: count });
            count
        } else {
            self.footnote_refs.push(FootNoteRef { id: id.to_owned(), ref_count: 1 });
            1
        };
        proof {
            assert(references_view(self.footnote_refs@) =~= old(self)@.counted(id@));
        }
        let total = self.footnote_refs.len();
        assert(index < total);
        let mut html = String::from_str("<a id=\"fnref_");
        html.append(id);
        html.append("_");
        html.append(to_decimal(count as u64).as_str());
        html.append("\" class=\"fnref-anchor\"></a><sup><a href=\"#fn_");
        html.append(id);
        html.append("\">#");
        html.append(to_decimal((index + 1) as u64).as_str());
        html.append("</a></sup>");
        html
    }

    /// Whether `event` may come now.
    pub fn can_receive(&self, event: &Event) -> (ok: bool)
        ensures
            ok == self@.accepts(event@),
    {
        if self.building_footnotes.is_some() {
            return true;
        }
        match event {
            Event::Source { kind: EventKind::FootnoteReference(id), .. } => {
                let index = find_reference(&self.footnote_refs, id.as_str());
                index >= self.footnote_refs.len() || self.footnote_refs[index].ref_count
                    < usize::MAX
            },
            _ => true,
        }
    }

    /// Takes `event` in.
    pub fn receive_event(&mut self, event: &Event) -> (control: EventProcessControl)
        requires
            old(self)@.accepts(event@),
        ensures
            final(self)@ == old(self)@.after(event@),
            control@ == old(self)@.answer(event@),
    {
        if self.building_footnotes.is_some() {
            self.process_definition_body(event);
            return discard();
        }
        match event {
            Event::Source { kind: EventKind::FootnoteDefinitionStart(id), .. } => {
                self.building_footnotes = Some(FootNoteDefinition::new(id.as_str()));
                discard()
            },
            Event::Source { kind: EventKind::FootnoteReference(id), .. } => {
                let html = self.add_footnote_reference(id.as_str());
                use_html(html.as_str())
            },
            _ => use_next(),
        }
    }

    /// Takes in an event of the body of the definition being read.
    fn process_definition_body(&mut self, event: &Event)
        requires
            old(self)@.building is Some,
        ensures
            final(self)@ == old(self)@.after(event@),
    {
        let definition = self.building_footnotes.take();
        match definition {
            Some(mut definition) => {
                match event {
                    Event::Source { kind: EventKind::FootnoteDefinitionEnd, .. } => {
                        proof {
                            assert(definitions_view(self.footnotes@.push(definition))
                                =~= definitions_view(self.footnotes@).push(definition@));
                        }
                        self.footnotes.push(definition);
                    },
                    _ => {
                        proof {
                            assert(events_view(definition.events@.push(*event)) =~= events_view(
                                definition.events@,
                            ).push(event@));
                        }
                        definition.events.push(event.duplicate());
                        proof {
                            assert(events_view(definition.events@) =~= old(
                                self,
                            )@.building->0.events.push(event@));
                        }
                        self.building_footnotes = Some(definition);
                    },
                }
            },
            None => {},
        }
    }

    /// Ends the document: a definition still being read is complete, and
    /// the footnote section is written if there is any definition.
    pub fn finalize(&mut self) -> (closing: Option<Vec<Event>>)
        ensures
            final(self)@ == old(self)@.finished(),
            closing is Some == old(self)@.closing() is Some,
            closing is Some ==> events_view(closing->0@) == old(self)@.closing()->0,
    {
        if let Some(definition) = self.building_footnotes.take() {
            proof {
                assert(definitions_view(self.footnotes@.push(definition)) =~= definitions_view(
                    self.footnotes@,
                ).push(definition@));
            }
            self.footnotes.push(definition);
        }
        if self.footnotes.len() == 0 {
            return None;
        }
        let ghost definitions = definitions_view(self.footnotes@);
        let ghost references = references_view(self.footnote_refs@);
        let mut ordinals: Vec<usize> = Vec::new();
        let mut i: usize = 0;
        while i < self.footnotes.len()
            invariant
                i <= self.footnotes.len(),
                definitions == definitions_view(self.footnotes@),
                references == references_view(self.footnote_refs@),
                ordinals@.len() == i,
                forall|k: int|
                    0 <= k < i ==> #[trigger] ordinals@[k] == ordinal_of(
                        references,
                        definitions[k].id,
                    ),
            decreases self.footnotes.len() - i,
        {
            ordinals.push(find_reference(&self.footnote_refs, self.footnotes[i].id.as_str()));
            i += 1;
        }
        let mut events: Vec<Event> = Vec::new();
        events.push(Event::Html(String::from_str("<aside class=\"footnote-def\"><h1>脚注</h1><ol>")));
        let ghost head = events_view(events@);
        proof {
            assert(head =~= seq![EventModel::Html(section_open())]);
        }
        let mut r: usize = 0;
        while r < self.footnote_refs.len()
            invariant
                r <= self.footnote_refs.len(),
                definitions == definitions_view(self.footnotes@),
                references == references_view(self.footnote_refs@),
                ordinals@.len() == self.footnotes@.len(),
                forall|k: int|
                    0 <= k < ordinals@.len() ==> #[trigger] ordinals@[k] == ordinal_of(
                        references,
                        definitions[k].id,
                    ),
                events_view(events@) == head + referenced_items(definitions, references, r as nat),
            decreases self.footnote_refs.len() - r,
        {
            let ghost start = events_view(events@);
            let mut i: usize = 0;
            while i < self.footnotes.len()
                invariant
                    i <= self.footnotes.len(),
                    r < self.footnote_refs.len(),
                    definitions == definitions_view(self.footnotes@),
                    references == references_view(self.footnote_refs@),
                    ordinals@.len() == self.footnotes@.len(),
                    forall|k: int|
                        0 <= k < ordinals@.len() ==> #[trigger] ordinals@[k] == ordinal_of(
                            references,
                            definitions[k].id,
                        ),
                    events_view(events@) == start + items_of_reference(
                        definitions,
                        references,
                        r as int,
                        i as nat,
                    ),
                decreases self.footnotes.len() - i,
            {
                if ordinals[i] == r {
                    push_item(&mut events, &self.footnotes[i], self.footnote_refs[r].ref_count);
                }
                i += 1;
            }
            r += 1;
        }
        let ghost start = events_view(events@);
        let mut i: usize = 0;
        while i < self.footnotes.len()
            invariant
                i <= self.footnotes.len(),
                definitions == definitions_view(self.footnotes@),
                references == references_view(self.footnote_refs@),
                ordinals@.len() == self.footnotes@.len(),
                forall|k: int|
                    0 <= k < ordinals@.len() ==> #[trigger] ordinals@[k] == ordinal_of(
                        references,
                        definitions[k].id,
                    ),
                events_view(events@) == start + unreferenced_items(
                    definitions,
                    references,
                    i as nat,
                ),
            decreases self.footnotes.len() - i,
        {
            if ordinals[i] == self.footnote_refs.len() {
                push_item(&mut events, &self.footnotes[i], 0);
            }
            i += 1;
        }
        let close = Event::Html(String::from_str("</ol></aside>"));
        proof {
            assert(events_view(events@.push(close)) =~= section(definitions, references));
        }
        events.push(close);
        Some(events)
    }

    /// Nothing is left to report when the document has ended.
    pub fn compose_output(self) {
    }
}


impl FootnoteModel {
    /// `property` holds of every event kept in a definition.
    pub open spec fn keeps_only(self, property: spec_fn(EventModel) -> bool) -> bool {
        &&& forall|i: int|
            0 <= i < self.footnotes.len() ==> all_events(
                (#[trigger] self.footnotes[i]).events,
                property,
            )
        &&& self.building matches Some(definition) ==> all_events(definition.events, property)
    }
}

/// What holds of an event and of all events kept holds of all events kept
/// after that event.
pub proof fn lemma_footnote_after_keeps(
    state: FootnoteModel,
    event: EventModel,
    property: spec_fn(EventModel) -> bool,
)
    requires
        state.keeps_only(property),
        property(event),
    ensures
        state.after(event).keeps_only(property),
{
    let next = state.after(event);
    assert forall|i: int| 0 <= i < next.footnotes.len() implies all_events(
        (#[trigger] next.footnotes[i]).events,
        property,
    ) by {
        if i < state.footnotes.len() {
            assert(next.footnotes[i] == state.footnotes[i]);
        }
    }
}

/// What holds of the events of a definition and of raw HTML holds of the
/// events of its item.
pub proof fn lemma_item_keeps(
    definition: DefinitionModel,
    references: nat,
    property: spec_fn(EventModel) -> bool,
)
    requires
        all_events(definition.events, property),
        holds_of_html(property),
    ensures
        all_events(item(definition, references), property),
{
    let all = item(definition, references);
    assert forall|i: int| 0 <= i < all.len() implies property(#[trigger] all[i]) by {
        if 1 <= i < 1 + definition.events.len() {
            assert(all[i] == definition.events[i - 1]);
        } else if i == 0 {
            assert(all[i] == EventModel::Html(item_open(definition.id)));
        } else if i == all.len() - 1 {
            assert(all[i] == EventModel::Html(item_close()));
        } else {
            let k = i - 1 - definition.events.len();
            assert(all[i] == back_links(definition.id, references)[k]);
            assert(all[i] == EventModel::Html(back_link(definition.id, (k + 1) as nat)));
        }
    }
}

/// What holds of all events of two lists holds of all events of the two
/// put together.
pub proof fn lemma_all_events_concat(
    first: Seq<EventModel>,
    second: Seq<EventModel>,
    property: spec_fn(EventModel) -> bool,
)
    requires
        all_events(first, property),
        all_events(second, property),
    ensures
        all_events(first + second, property),
{
    assert forall|i: int| 0 <= i < (first + second).len() implies property(
        #[trigger] (first + second)[i],
    ) by {
        if i < first.len() {
            assert((first + second)[i] == first[i]);
        } else {
            assert((first + second)[i] == second[i - first.len()]);
        }
    }
}

/// What holds of the events of all definitions and of raw HTML holds of
/// the events of their items.
pub proof fn lemma_items_keep(
    definitions: Seq<DefinitionModel>,
    references: Seq<ReferenceModel>,
    property: spec_fn(EventModel) -> bool,
    ordinal: int,
    n: nat,
    r: nat,
)
    requires
        holds_of_html(property),
        forall|i: int|
            0 <= i < definitions.len() ==> all_events((#[trigger] definitions[i]).events, property),
    ensures
        all_events(items_of_reference(definitions, references, ordinal, n), property),
        all_events(unreferenced_items(definitions, references, n), property),
        all_events(referenced_items(definitions, references, r), property),
    decreases r, n,
{
    if !(n == 0 || n > definitions.len()) {
        lemma_items_keep(definitions, references, property, ordinal, (n - 1) as nat, 0);
        let definition = definitions[n - 1];
        if 0 <= ordinal < references.len() {
            lemma_item_keeps(definition, references[ordinal].ref_count as nat, property);
            lemma_all_events_concat(
                items_of_reference(definitions, references, ordinal, (n - 1) as nat),
                item(definition, references[ordinal].ref_count as nat),
                property,
            );
        }
        lemma_item_keeps(definition, 0, property);
        lemma_all_events_concat(
            unreferenced_items(definitions, references, (n - 1) as nat),
            item(definition, 0),
            property,
        );
    }
    if !(r == 0 || r > references.len()) {
        lemma_items_keep(definitions, references, property, ordinal, n, (r - 1) as nat);
        lemma_items_keep(definitions, references, property, r - 1, definitions.len(), 0);
        lemma_all_events_concat(
            referenced_items(definitions, references, (r - 1) as nat),
            items_of_reference(definitions, references, r - 1, definitions.len()),
            property,
        );
    }
}

/// What holds of all events kept and of raw HTML holds, at the end of a
/// document, of all events kept and of the footnote section.
pub proof fn lemma_footnote_closing_keeps(
    state: FootnoteModel,
    property: spec_fn(EventModel) -> bool,
)
    requires
        state.keeps_only(property),
        holds_of_html(property),
    ensures
        state.finished().keeps_only(property),
        state.closing() matches Some(events) ==> all_events(events, property),
{
    let definitions = state.all_definitions();
    assert forall|i: int| 0 <= i < definitions.len() implies all_events(
        (#[trigger] definitions[i]).events,
        property,
    ) by {
        if i < state.footnotes.len() {
            assert(definitions[i] == state.footnotes[i]);
        }
    }
    lemma_items_keep(
        definitions,
        state.references,
        property,
        0,
        definitions.len(),
        state.references.len(),
    );
    let head = seq![EventModel::Html(section_open())];
    let tail = seq![EventModel::Html(section_close())];
    let referenced = referenced_items(definitions, state.references, state.references.len());
    let others = unreferenced_items(definitions, state.references, definitions.len());
    assert(all_events(head, property));
    assert(all_events(tail, property));
    lemma_all_events_concat(head, referenced, property);
    lemma_all_events_concat(head + referenced, others, property);
    lemma_all_events_concat(head + referenced + others, tail, property);
}

} // verus!
