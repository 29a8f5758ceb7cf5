//! The sub-parsers of the pipeline, and the chain that they form.
use vstd::prelude::*;
use crate::markdown::control::ControlModel;
use crate::markdown::control::EventProcessControl;
use crate::markdown::control::Next;
use crate::markdown::control::NextModel;
use crate::markdown::event::events_view;
use crate::markdown::event::Event;
use crate::markdown::event::EventModel;
use crate::markdown::sub_parser::code_block::CodeBlockModel;
use crate::markdown::sub_parser::code_block::CodeBlockSubParser;
use crate::markdown::sub_parser::footnote::FootnoteModel;
use crate::markdown::sub_parser::footnote::FootnoteSubParser;
use crate::markdown::sub_parser::frontmatter::FrontmatterModel;
use crate::markdown::sub_parser::frontmatter::FrontmatterSubParser;
use crate::markdown::sub_parser::text::shortcode_pattern;
use crate::markdown::sub_parser::text::EmojiModel;
use crate::markdown::sub_parser::text::TextParser;
use crate::template::PlaceholderError;
use crate::template::PlaceholderErrorModel;

pub mod code_block;
pub mod footnote;
pub mod frontmatter;
pub mod text;

verus! {

/// The sub-parsers, in the order in which an event passes through them:
/// metadata block, code blocks, footnotes, literal text.
pub struct SubParsers {
    pub frontmatter: FrontmatterSubParser,
    pub code_block: CodeBlockSubParser,
    pub footnote: FootnoteSubParser,
    pub text: TextParser,
}

pub ghost struct ChainModel {
    pub frontmatter: FrontmatterModel,
    pub code_block: CodeBlockModel,
    pub footnote: FootnoteModel,
    pub text: EmojiModel,
}

impl View for SubParsers {
    type V = ChainModel;

    open spec fn view(&self) -> ChainModel {
        ChainModel {
            frontmatter: self.frontmatter@,
            code_block: self.code_block@,
            footnote: self.footnote@,
            text: self.text@,
        }
    }
}

impl ChainModel {
    /// The chain before the first event, with `pattern` finding
    /// shortcodes.
    pub open spec fn initial(pattern: Seq<char>) -> ChainModel {
        ChainModel {
            frontmatter: FrontmatterModel::initial(),
            code_block: CodeBlockModel::initial(),
            footnote: FootnoteModel::initial(),
            text: EmojiModel { pattern, seen: Seq::empty() },
        }
    }

    /// Whether `event` may come in this state: each sub-parser that it
    /// reaches must accept it as that sub-parser gets to see it, and no two
    /// of them may ask for events to be suppressed.
    pub open spec fn accepts(self, event: EventModel) -> bool {
        let n0 = NextModel::unchanged();
        &&& self.frontmatter.accepts(event)
        &&& self.frontmatter.answer(event) matches ControlModel::Continue(a1) ==> {
            let n1 = n0.merged(a1);
            let e1 = n1.seen(event);
            &&& n0.agrees_with(a1)
            &&& self.code_block.accepts(e1)
            &&& self.code_block.answer(e1) matches ControlModel::Continue(a2) ==> {
                let n2 = n1.merged(a2);
                let e2 = n2.seen(event);
                &&& n1.agrees_with(a2)
                &&& self.footnote.accepts(e2)
                &&& self.footnote.answer(e2) matches ControlModel::Continue(a3) ==> {
                    let n3 = n2.merged(a3);
                    let e3 = n3.seen(event);
                    &&& n2.agrees_with(a3)
                    &&& self.text.answer(e3) matches ControlModel::Continue(a4) ==> n3.agrees_with(
                        a4,
                    )
                }
            }
        }
    }

    /// The state after `event`: each sub-parser that the event reaches
    /// takes it in; those behind one that ends the chain stay as they are.
    pub open spec fn after(self, event: EventModel) -> ChainModel {
        let n0 = NextModel::unchanged();
        let s1 = ChainModel { frontmatter: self.frontmatter.after(event), ..self };
        match self.frontmatter.answer(event) {
            ControlModel::Continue(a1) => {
                let n1 = n0.merged(a1);
                let e1 = n1.seen(event);
                let s2 = ChainModel { code_block: self.code_block.after(e1), ..s1 };
                match self.code_block.answer(e1) {
                    ControlModel::Continue(a2) => {
                        let n2 = n1.merged(a2);
                        let e2 = n2.seen(event);
                        let s3 = ChainModel { footnote: self.footnote.after(e2), ..s2 };
                        match self.footnote.answer(e2) {
                            ControlModel::Continue(a3) => {
                                let n3 = n2.merged(a3);
                                ChainModel { text: self.text.after(n3.seen(event)), ..s3 }
                            },
                            _ => s3,
                        }
                    },
                    _ => s2,
                }
            },
            _ => s1,
        }
    }

    /// The answer of the chain to `event`: that of the first sub-parser
    /// that ends the chain, else the answers of all put together.
    pub open spec fn answer(self, event: EventModel) -> ControlModel {
        let n0 = NextModel::unchanged();
        match self.frontmatter.answer(event) {
            ControlModel::Continue(a1) => {
                let n1 = n0.merged(a1);
                match self.code_block.answer(n1.seen(event)) {
                    ControlModel::Continue(a2) => {
                        let n2 = n1.merged(a2);
                        match self.footnote.answer(n2.seen(event)) {
                            ControlModel::Continue(a3) => {
                                let n3 = n2.merged(a3);
                                match self.text.answer(n3.seen(event)) {
                                    ControlModel::Continue(a4) => ControlModel::Continue(
                                        n3.merged(a4),
                                    ),
                                    other => other,
                                }
                            },
                            other => other,
                        }
                    },
                    other => other,
                }
            },
            other => other,
        }
    }

    /// The state after the end of the document.
    pub open spec fn finished(self) -> ChainModel {
        ChainModel { footnote: self.footnote.finished(), ..self }
    }

    /// The events that the sub-parsers add at the end of the document.
    pub open spec fn closing(self) -> Seq<EventModel> {
        match self.footnote.closing() {
            Some(events) => events,
            None => Seq::empty(),
        }
    }
}

impl SubParsers {
    /// Whether what the sub-parsers remember is what they would work out
    /// anew.
    pub open spec fn wf(&self) -> bool {
        self.text.wf()
    }

    /// The chain before the first event; an error where the pattern of a
    /// shortcode cannot be built.
    pub fn new() -> (made: Result<SubParsers, PlaceholderError>)
        ensures
            match made {
                Ok(chain) => chain.wf() && shortcode_pattern() is Ok && chain@
                    == ChainModel::initial(shortcode_pattern()->Ok_0),
                Err(error) => shortcode_pattern() == Err::<Seq<char>, PlaceholderErrorModel>(
                    error@,
                ),
            },
    {
        match TextParser::new() {
            Ok(text) => {
                let chain = SubParsers {
                    frontmatter: FrontmatterSubParser::default(),
                    code_block: CodeBlockSubParser::default(),
                    footnote: FootnoteSubParser::default(),
                    text,
                };
                proof {
                    assert(chain@.text.seen =~= Seq::<Seq<char>>::empty());
                    assert(chain@.text.pattern == shortcode_pattern()->Ok_0);
                    assert(chain@.text =~= (EmojiModel {
                        pattern: shortcode_pattern()->Ok_0,
                        seen: Seq::empty(),
                    }));
                }
                Ok(chain)
            },
            Err(error) => Err(error),
        }
    }

    /// Whether `event` may come now.
    pub fn can_receive(&self, event: &Event) -> (ok: bool)
        ensures
            ok == self@.accepts(event@),
    {
        // Only the last sub-parser ever replaces the event or asks for
        // events to be suppressed, so each sub-parser sees the event as it
        // came, and the answers always agree.
        if !self.frontmatter.can_receive(event) {
            return false;
        }
        if self.frontmatter.hands_on(event) {
            if !self.code_block.can_receive(event) {
                return false;
            }
            if self.code_block.hands_on(event) {
                return self.footnote.can_receive(event);
            }
        }
        true
    }

    /// Passes `event` through the chain.
    pub fn receive_event(&mut self, event: &Event) -> (control: EventProcessControl)
        requires
            old(self).wf(),
            old(self)@.accepts(event@),
        ensures
            final(self).wf(),
            final(self)@ == old(self)@.after(event@),
            control@ == old(self)@.answer(event@),
    {
        let mut next = Next::default();
        match self.frontmatter.receive_event(next.next_event(event)) {
            EventProcessControl::Continue(answer) => next.update_by(answer),
            EventProcessControl::Break(stop) => {
                return EventProcessControl::Break(stop);
            },
        }
        match self.code_block.receive_event(next.next_event(event)) {
            EventProcessControl::Continue(answer) => next.update_by(answer),
            EventProcessControl::Break(stop) => {
                return EventProcessControl::Break(stop);
            },
        }
        match self.footnote.receive_event(next.next_event(event)) {
            EventProcessControl::Continue(answer) => next.update_by(answer),
            EventProcessControl::Break(stop) => {
                return EventProcessControl::Break(stop);
            },
        }
        match self.text.receive_event(next.next_event(event)) {
            EventProcessControl::Continue(answer) => next.update_by(answer),
            EventProcessControl::Break(stop) => {
                return EventProcessControl::Break(stop);
            },
        }
        EventProcessControl::Continue(next)
    }

    /// Ends the document: the events that the sub-parsers add behind it.
    pub fn finalize(&mut self) -> (closing: Vec<Event>)
        requires
            old(self).wf(),
        ensures
            final(self).wf(),
            final(self)@ == old(self)@.finished(),
            events_view(closing@) == old(self)@.closing(),
    {
        match self.footnote.finalize() {
            Some(events) => events,
            None => {
                let events: Vec<Event> = Vec::new();
                proof {
                    assert(events_view(events@) =~= Seq::<EventModel>::empty());
                }
                events
            },
        }
    }
}

} // verus!
