//! The sub-parser that takes the metadata block out of the stream and keeps
//! its text.
use vstd::prelude::*;
use crate::markdown::control::discard;
use crate::markdown::control::use_next;
use crate::markdown::control::ControlModel;
use crate::markdown::control::EventProcessControl;
use crate::markdown::control::NextModel;
use crate::markdown::event::kind_of;
use crate::markdown::event::Event;
use crate::markdown::event::EventKind;
use crate::markdown::event::EventModel;
use crate::markdown::event::KindModel;
use crate::text::option_text;

verus! {

/// What the sub-parser found: the text of the metadata block, if the
/// document has one.
pub struct Frontmatter {
    pub body: Option<String>,
}

/// The sub-parser for the metadata block.
pub struct FrontmatterSubParser {
    body: Option<String>,
    in_frontmatter: bool,
}

pub ghost struct FrontmatterModel {
    pub body: Option<Seq<char>>,
    pub in_frontmatter: bool,
}

impl FrontmatterModel {
    /// The state before the first event.
    pub open spec fn initial() -> FrontmatterModel {
        FrontmatterModel { body: None, in_frontmatter: false }
    }

    /// Whether `event` may come in this state. Inside the block exactly
    /// one text is expected, and behind it the end marker; outside it no
    /// second block is expected.
    pub open spec fn accepts(self, event: EventModel) -> bool {
        if self.in_frontmatter {
            if self.body is None {
                kind_of(event) is Text
            } else {
                kind_of(event) == KindModel::MetadataEnd
            }
        } else {
            kind_of(event) == KindModel::MetadataStart ==> self.body is None
        }
    }

    /// The state after `event`.
    pub open spec fn after(self, event: EventModel) -> FrontmatterModel {
        if self.in_frontmatter {
            match kind_of(event) {
                KindModel::Text(text) => FrontmatterModel { body: Some(text), ..self },
                KindModel::MetadataEnd => FrontmatterModel { in_frontmatter: false, ..self },
                _ => self,
            }
        } else if kind_of(event) == KindModel::MetadataStart {
            FrontmatterModel { in_frontmatter: true, ..self }
        } else {
            self
        }
    }

    /// The answer to `event`: the block and all in it is dropped, all else
    /// is handed on.
    pub open spec fn answer(self, event: EventModel) -> ControlModel {
        if self.in_frontmatter || kind_of(event) == KindModel::MetadataStart {
            ControlModel::Discard
        } else {
            ControlModel::Continue(NextModel::unchanged())
        }
    }
}

impl View for FrontmatterSubParser {
    type V = FrontmatterModel;

    closed spec fn view(&self) -> FrontmatterModel {
        FrontmatterModel {
            body: match self.body {
                Some(body) => Some(body@),
                None => None,
            },
            in_frontmatter: self.in_frontmatter,
        }
    }
}

impl Default for FrontmatterSubParser {
    fn default() -> (parser: FrontmatterSubParser)
        ensures
            parser@ == FrontmatterModel::initial(),
    {
        FrontmatterSubParser { body: None, in_frontmatter: false }
    }
}

impl FrontmatterSubParser {
    /// Whether `event` may come now.
    pub fn can_receive(&self, event: &Event) -> (ok: bool)
        ensures
            ok == self@.accepts(event@),
    {
        if self.in_frontmatter {
            match event {
                Event::Source { kind: EventKind::Text(_), .. } => self.body.is_none(),
                Event::Source { kind: EventKind::MetadataEnd, .. } => self.body.is_some(),
                _ => false,
            }
        } else {
            match event {
                Event::Source { kind: EventKind::MetadataStart, .. } => self.body.is_none(),
                _ => true,
            }
        }
    }

    /// Whether the chain goes on behind this sub-parser for `event`.
    pub fn hands_on(&self, event: &Event) -> (on: bool)
        ensures
            on == self@.answer(event@) is Continue,
    {
        if self.in_frontmatter {
            false
        } else {
            match event {
                Event::Source { kind: EventKind::MetadataStart, .. } => false,
                _ => true,
            }
        }
    }

    /// Takes `event` in.
    pub fn receive_event(&mut self, event: &Event) -> (control: EventProcessControl)
        requires
            old(self)@.accepts(event@),
        ensures
            final(self)@ == old(self)@.after(event@),
            control@ == old(self)@.answer(event@),
    {
        if self.in_frontmatter {
            match event {
                Event::Source { kind: EventKind::Text(text), .. } => {
                    self.body = Some(text.clone());
                },
                _ => {
                    self.in_frontmatter = false;
                },
            }
            discard()
        } else {
            match event {
                Event::Source { kind: EventKind::MetadataStart, .. } => {
                    self.in_frontmatter = true;
                    discard()
                },
                _ => use_next(),
            }
        }
    }

    /// What the sub-parser found.
    pub fn compose_output(self) -> (found: Frontmatter)
        ensures
            option_text(found.body) == self@.body,
    {
        Frontmatter { body: self.body }
    }
}

} // verus!
