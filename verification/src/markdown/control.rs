//! What a sub-parser answers to an event, and how the answers of a chain of
//! sub-parsers are put together.
use vstd::prelude::*;
use crate::markdown::event::kind_of;
use crate::markdown::event::Event;
use crate::markdown::event::EventModel;
use crate::markdown::event::KindModel;
use crate::markdown::event::events_view;

verus! {

/// A test on an event.
#[derive(Clone, Copy, Debug, PartialEq, Eq, Structural)]
pub enum EventPredicate {
    /// Holds of a soft line break.
    SoftBreak,
}

impl EventPredicate {
    /// Whether the predicate holds of an event of this kind.
    pub open spec fn holds(self, event: EventModel) -> bool {
        match self {
            EventPredicate::SoftBreak => kind_of(event) == KindModel::SoftBreak,
        }
    }

    /// Whether the predicate holds of `event`.
    pub fn test(&self, event: &Event) -> (held: bool)
        ensures
            held == self.holds(event@),
    {
        match self {
            EventPredicate::SoftBreak => event.is_soft_break(),
        }
    }
}

/// A request to suppress events that follow.
#[derive(Clone, Copy, Debug, PartialEq, Eq, Structural)]
pub enum Ignore {
    /// Suppress the next events, as many as the count says.
    ForNext(u8),
    /// Suppress the next events while the predicate holds of them, at most
    /// as many as the count says.
    ForNextIf(u8, EventPredicate),
}

impl Ignore {
    /// Whether the request suppresses `event`, and what is left of the
    /// request after it.
    pub open spec fn after(self, event: EventModel) -> (bool, Option<Ignore>) {
        match self {
            Ignore::ForNext(count) => if count == 0 {
                (false, None)
            } else if count == 1 {
                (true, None)
            } else {
                (true, Some(Ignore::ForNext((count - 1) as u8)))
            },
            Ignore::ForNextIf(count, predicate) => if count == 0 || !predicate.holds(event) {
                (false, None)
            } else if count == 1 {
                (true, None)
            } else {
                (true, Some(Ignore::ForNextIf((count - 1) as u8, predicate)))
            },
        }
    }

    /// Whether the request suppresses `event`, and what is left of the
    /// request after it.
    pub fn next(&self, event: &Event) -> (r: (bool, Option<Ignore>))
        ensures
            r == self.after(event@),
    {
        match self {
            Ignore::ForNext(count) => {
                if *count == 0 {
                    (false, None)
                } else if *count == 1 {
                    (true, None)
                } else {
                    (true, Some(Ignore::ForNext(*count - 1)))
                }
            },
            Ignore::ForNextIf(count, predicate) => {
                if *count == 0 || !predicate.test(event) {
                    (false, None)
                } else if *count == 1 {
                    (true, None)
                } else {
                    (true, Some(Ignore::ForNextIf(*count - 1, *predicate)))
                }
            },
        }
    }
}

/// The answer of a sub-parser that lets the chain go on: it may put
/// another event in the place of the current one, and may ask for events
/// that follow to be suppressed.
#[derive(Debug)]
pub struct Next {
    pub replacement: Option<Event>,
    pub ignore: Option<Ignore>,
}

pub ghost struct NextModel {
    pub replacement: Option<EventModel>,
    pub ignore: Option<Ignore>,
}

impl View for Next {
    type V = NextModel;

    open spec fn view(&self) -> NextModel {
        NextModel {
            replacement: match self.replacement {
                Some(event) => Some(event@),
                None => None,
            },
            ignore: self.ignore,
        }
    }
}

impl NextModel {
    /// The answer that changes nothing.
    pub open spec fn unchanged() -> NextModel {
        NextModel { replacement: None, ignore: None }
    }

    /// Whether this answer and a later one can be put together: not both
    /// may ask for events to be suppressed.
    pub open spec fn agrees_with(self, other: NextModel) -> bool {
        !(self.ignore is Some && other.ignore is Some)
    }

    /// This answer and the later answer `other` put together: the later
    /// replacement wins, and the one request to suppress events is kept.
    pub open spec fn merged(self, other: NextModel) -> NextModel {
        NextModel {
            replacement: if other.replacement is Some {
                other.replacement
            } else {
                self.replacement
            },
            ignore: if other.ignore is Some {
                other.ignore
            } else {
                self.ignore
            },
        }
    }

    /// The event that the next sub-parser of the chain gets to see.
    pub open spec fn seen(self, current: EventModel) -> EventModel {
        match self.replacement {
            Some(event) => event,
            None => current,
        }
    }
}

impl Default for Next {
    fn default() -> (next: Next)
        ensures
            next@ == NextModel::unchanged(),
    {
        Next { replacement: None, ignore: None }
    }
}

impl Next {
    /// Takes the later answer `other` into this one.
    pub fn update_by(&mut self, other: Next)
        requires
            old(self)@.agrees_with(other@),
        ensures
            final(self)@ == old(self)@.merged(other@),
    {
        let Next { replacement, ignore } = other;
        if replacement.is_some() {
            self.replacement = replacement;
        }
        if ignore.is_some() {
            self.ignore = ignore;
        }
    }

    /// The event that the next sub-parser of the chain gets to see: the
    /// replacement if there is one, else the event as it came.
    pub fn next_event<'a>(&'a self, current: &'a Event) -> (event: &'a Event)
        ensures
            event@ == self@.seen(current@),
    {
        match &self.replacement {
            Some(event) => event,
            None => current,
        }
    }
}

/// An answer that ends the chain for the current event.
#[derive(Debug)]
pub enum BreakingEventProcess {
    /// The event is dropped.
    Discard,
    /// The event is dropped and these events stand in its place.
    UseThisInstead(Vec<Event>),
}

/// The answer of a sub-parser to an event.
#[derive(Debug)]
pub enum EventProcessControl {
    Continue(Next),
    Break(BreakingEventProcess),
}

pub ghost enum ControlModel {
    Continue(NextModel),
    Discard,
    UseThisInstead(Seq<EventModel>),
}

impl View for EventProcessControl {
    type V = ControlModel;

    open spec fn view(&self) -> ControlModel {
        match self {
            EventProcessControl::Continue(next) => ControlModel::Continue(next@),
            EventProcessControl::Break(BreakingEventProcess::Discard) => ControlModel::Discard,
            EventProcessControl::Break(BreakingEventProcess::UseThisInstead(events)) =>
                ControlModel::UseThisInstead(events_view(events@)),
        }
    }
}

/// The answer that drops the event.
pub fn discard() -> (control: EventProcessControl)
    ensures
        control@ == ControlModel::Discard,
{
    EventProcessControl::Break(BreakingEventProcess::Discard)
}

/// The answer that puts `replacement` in the place of the event.
pub fn use_this_instead(replacement: Vec<Event>) -> (control: EventProcessControl)
    ensures
        control@ == ControlModel::UseThisInstead(events_view(replacement@)),
{
    EventProcessControl::Break(BreakingEventProcess::UseThisInstead(replacement))
}

/// The answer that puts the raw HTML `replacement` in the place of the
/// event.
pub fn use_html(replacement: &str) -> (control: EventProcessControl)
    ensures
        control@ == ControlModel::UseThisInstead(seq![EventModel::Html(replacement@)]),
{
    let mut events: Vec<Event> = Vec::new();
    events.push(Event::Html(replacement.to_owned()));
    proof {
        assert(events_view(events@) =~= seq![EventModel::Html(replacement@)]);
    }
    use_this_instead(events)
}

/// The answer that hands the event on unchanged.
pub fn use_next() -> (control: EventProcessControl)
    ensures
        control@ == ControlModel::Continue(NextModel::unchanged()),
{
    EventProcessControl::Continue(Next::default())
}

/// The answer that lets the chain go on with `next`.
pub fn use_next_with(next: Next) -> (control: EventProcessControl)
    ensures
        control@ == ControlModel::Continue(next@),
{
    EventProcessControl::Continue(next)
}

} // verus!
