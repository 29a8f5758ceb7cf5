//! The sub-parser that replaces emoji shortcodes in literal text.
use vstd::prelude::*;
use vstd::string::StringExecFns;
use crate::markdown::control::use_next;
use crate::markdown::control::use_next_with;
use crate::markdown::control::ControlModel;
use crate::markdown::control::EventPredicate;
use crate::markdown::control::EventProcessControl;
use crate::markdown::control::Ignore;
use crate::markdown::control::Next;
use crate::markdown::control::NextModel;
use crate::markdown::event::kind_of;
use crate::markdown::event::Event;
use crate::markdown::event::EventKind;
use crate::markdown::event::EventModel;
use crate::markdown::event::KindModel;
use crate::template::built_pattern;
use crate::template::filled;
use crate::template::splice;
use crate::template::used_names;
use crate::template::Placeholder;
use crate::template::PlaceholderError;
use crate::template::PlaceholderErrorModel;
use crate::text::chars_of;
use crate::text::dedup;
use crate::text::hexadecimal;
use crate::text::lemma_dedup;
use crate::text::option_text;
use crate::text::same_text;
use crate::text::texts;
use crate::text::to_hexadecimal;

verus! {

/// The emoji that the shortcode `shortcode` stands for, if it stands for
/// one.
pub uninterp spec fn emoji_of(shortcode: Seq<char>) -> Option<Seq<char>>;

/// Runs `emojis::get_by_shortcode` and gives the emoji found as the string
/// that `Emoji::as_str` returns.
#[verifier::external_body]
fn lookup_emoji(shortcode: &str) -> (emoji: Option<String>)
    ensures
        option_text(emoji) == emoji_of(shortcode@),
{
    emojis::get_by_shortcode(shortcode).map(|emoji| emoji.as_str().to_string())
}

/// The code points of `emoji` in hexadecimal, with `-` between them.
pub open spec fn codepoints(emoji: Seq<char>) -> Seq<char>
    decreases emoji.len(),
{
    if emoji.len() == 0 {
        Seq::empty()
    } else if emoji.len() == 1 {
        hexadecimal(emoji[0] as u32 as nat)
    } else {
        codepoints(emoji.drop_last()).push('-') + hexadecimal(emoji.last() as u32 as nat)
    }
}

/// The image tag that shows `emoji`.
pub open spec fn emoji_tag(emoji: Seq<char>) -> Seq<char> {
    "<img\n                src=\"https://cdn.jsdelivr.net/gh/jdecked/twemoji@latest/assets/svg/"@
        + codepoints(emoji)
        + ".svg\" \n                class=\"emoji\"\n                alt=\""@ + emoji
        + "\" \n                draggable=false\n            >"@
}

/// What stands for a shortcode that is no emoji's: the shortcode as it was
/// written, behind a comment that says so.
pub open spec fn unresolved_text(shortcode: Seq<char>) -> Seq<char> {
    "<!-- Unresolved emoji --> :"@ + shortcode + ":"@
}

/// What is put in the place of the shortcode `shortcode`.
pub open spec fn replacement_for(shortcode: Seq<char>) -> Seq<char> {
    match emoji_of(shortcode) {
        Some(emoji) => emoji_tag(emoji),
        None => unresolved_text(shortcode),
    }
}

/// What is put in the place of each of `shortcodes`.
pub open spec fn replacements(shortcodes: Seq<Seq<char>>) -> Seq<Seq<char>> {
    Seq::new(shortcodes.len(), |i: int| replacement_for(shortcodes[i]))
}

/// `text` with each shortcode that `pattern` finds replaced.
pub open spec fn replaced(pattern: Seq<char>, text: Seq<char>) -> Seq<char> {
    filled(pattern, text, replacements(used_names(pattern, text)))
}

/// Those of `shortcodes` that are no emoji's, in order.
pub open spec fn unresolved_of(shortcodes: Seq<Seq<char>>) -> Seq<Seq<char>>
    decreases shortcodes.len(),
{
    if shortcodes.len() == 0 {
        shortcodes
    } else if emoji_of(shortcodes.last()) is None {
        unresolved_of(shortcodes.drop_last()).push(shortcodes.last())
    } else {
        unresolved_of(shortcodes.drop_last())
    }
}

/// The pattern of a shortcode, or why there is none: letters, `_` and `-`
/// between two colons.
pub open spec fn shortcode_pattern() -> Result<Seq<char>, PlaceholderErrorModel> {
    built_pattern(":"@, ":"@, Some("[a-zA-Z_-]+"@))
}

/// The image tag that shows `emoji`.
pub fn emoji_to_html_tag(emoji: &str) -> (tag: String)
    ensures
        tag@ == emoji_tag(emoji@),
{
    let chars = chars_of(emoji);
    let mut points = String::new();
    let mut i: usize = 0;
    while i < chars.len()
        invariant
            i <= chars.len(),
            chars@ == emoji@,
            points@ == codepoints(emoji@.subrange(0, i as int)),
        decreases chars.len() - i,
    {
        proof {
            let upto = emoji@.subrange(0, i + 1);
            assert(upto.drop_last() =~= emoji@.subrange(0, i as int));
            assert(upto.last() == chars@[i as int]);
            assert(upto.len() == i + 1);
        }
        if i > 0 {
            points.push('-');
        }
        let hex = to_hexadecimal(chars[i] as u32 as u64);
        proof {
            if i == 0 {
                assert(points@ + hex@ =~= hex@);
            }
        }
        points.append(hex.as_str());
        i += 1;
    }
    proof {
        assert(emoji@.subrange(0, chars.len() as int) =~= emoji@);
    }
    let mut tag = String::from_str(
        "<img\n                src=\"https://cdn.jsdelivr.net/gh/jdecked/twemoji@latest/assets/svg/",
    );
    tag.append(points.as_str());
    tag.append(".svg\" \n                class=\"emoji\"\n                alt=\"");
    tag.append(emoji);
    tag.append("\" \n                draggable=false\n            >");
    tag
}

/// Replaces shortcodes, and remembers each shortcode it has met with what
/// it put in its place.
pub struct EmojiReplacer {
    placeholder: Placeholder,
    discovered_emojis: Vec<(String, String)>,
    unresolved: Vec<String>,
}

pub ghost struct EmojiModel {
    /// The pattern that finds shortcodes.
    pub pattern: Seq<char>,
    /// The shortcodes met so far, each once, in the order in which they
    /// were first met.
    pub seen: Seq<Seq<char>>,
}

/// The shortcodes that the entries of `v` are for.
pub open spec fn keys(v: Seq<(String, String)>) -> Seq<Seq<char>> {
    Seq::new(v.len(), |i: int| v[i].0@)
}

impl View for EmojiReplacer {
    type V = EmojiModel;

    closed spec fn view(&self) -> EmojiModel {
        EmojiModel { pattern: self.placeholder@, seen: keys(self.discovered_emojis@) }
    }
}

impl EmojiReplacer {
    /// Whether what the replacer remembers is what it would work out
    /// anew.
    pub closed spec fn wf(&self) -> bool {
        &&& forall|i: int|
            0 <= i < self.discovered_emojis@.len() ==> (#[trigger] self.discovered_emojis@[i]).1@
                == replacement_for(self.discovered_emojis@[i].0@)
        &&& keys(self.discovered_emojis@) == dedup(keys(self.discovered_emojis@))
        &&& texts(self.unresolved@) == unresolved_of(keys(self.discovered_emojis@))
    }

    /// A replacer that has met no shortcode yet; an error where the
    /// pattern of a shortcode cannot be built.
    pub fn new() -> (made: Result<EmojiReplacer, PlaceholderError>)
        ensures
            match made {
                Ok(replacer) => shortcode_pattern() == Ok::<Seq<char>, PlaceholderErrorModel>(
                    replacer@.pattern,
                ) && replacer@.seen.len() == 0 && replacer.wf(),
                Err(error) => shortcode_pattern() == Err::<Seq<char>, PlaceholderErrorModel>(
                    error@,
                ),
            },
    {
        match Placeholder::from_strs(":", ":", Some("[a-zA-Z_-]+")) {
            Ok(placeholder) => {
                let discovered_emojis: Vec<(String, String)> = Vec::new();
                let unresolved: Vec<String> = Vec::new();
                proof {
                    assert(keys(discovered_emojis@) =~= Seq::<Seq<char>>::empty());
                    assert(texts(unresolved@) =~= Seq::<Seq<char>>::empty());
                }
                Ok(EmojiReplacer { placeholder, discovered_emojis, unresolved })
            },
            Err(error) => Err(error),
        }
    }

    /// The place of `shortcode` among the shortcodes met, if it was met.
    fn find(&self, shortcode: &str) -> (place: Option<usize>)
        ensures
            match place {
                Some(k) => k < self.discovered_emojis@.len() && self.discovered_emojis@[k as int].0@
                    == shortcode@,
                None => !keys(self.discovered_emojis@).contains(shortcode@),
            },
    {
        let mut k: usize = 0;
        while k < self.discovered_emojis.len()
            invariant
                k <= self.discovered_emojis.len(),
                forall|j: int|
                    0 <= j < k ==> #[trigger] keys(self.discovered_emojis@)[j] != shortcode@,
            decreases self.discovered_emojis.len() - k,
        {
            if same_text(self.discovered_emojis[k].0.as_str(), shortcode) {
                return Some(k);
            }
            k += 1;
        }
        None
    }

    /// `text` with each shortcode in it replaced: by the image of its
    /// emoji, or, where it is no emoji's, by itself behind a comment.
    pub fn replace(&mut self, text: &str) -> (out: String)
        requires
            old(self).wf(),
        ensures
            final(self).wf(),
            out@ == replaced(old(self)@.pattern, text@),
            final(self)@.pattern == old(self)@.pattern,
            final(self)@.seen == dedup(old(self)@.seen + used_names(old(self)@.pattern, text@)),
    {
        let names = self.placeholder.parse_used_placeholders(text);
        let parts = self.placeholder.parse_surroundings(text);
        let ghost wanted = used_names(self@.pattern, text@);
        let ghost seen_before = self@.seen;
        let mut values: Vec<String> = Vec::new();
        let mut i: usize = 0;
        proof {
            assert(wanted.subrange(0, 0) =~= Seq::<Seq<char>>::empty());
            assert(seen_before + wanted.subrange(0, 0) =~= seen_before);
        }
        while i < names.len()
            invariant
                i <= names.len(),
                texts(names@) == wanted,
                self.placeholder == old(self).placeholder,
                values@.len() == i,
                forall|k: int| 0 <= k < i ==> (#[trigger] values@[k])@ == replacement_for(wanted[k]),
                forall|k: int|
                    0 <= k < self.discovered_emojis@.len() ==> (
                    #[trigger] self.discovered_emojis@[k]).1@ == replacement_for(
                        self.discovered_emojis@[k].0@,
                    ),
                keys(self.discovered_emojis@) == dedup(seen_before + wanted.subrange(0, i as int)),
                texts(self.unresolved@) == unresolved_of(keys(self.discovered_emojis@)),
            decreases names.len() - i,
        {
            let name = names[i].as_str();
            proof {
                assert(texts(names@)[i as int] == names@[i as int]@);
                let sofar = seen_before + wanted.subrange(0, i as int);
                let next = seen_before + wanted.subrange(0, i + 1);
                assert(next.drop_last() =~= sofar);
                assert(next.last() == name@);
            }
            let value = match self.find(name) {
                Some(k) => {
                    proof {
                        assert(keys(self.discovered_emojis@)[k as int] == name@);
                        assert(keys(self.discovered_emojis@).contains(name@));
                    }
                    self.discovered_emojis[k].1.clone()
                },
                None => {
                    let value = match lookup_emoji(name) {
                        Some(emoji) => emoji_to_html_tag(emoji.as_str()),
                        None => {
                            let mut text = String::from_str("<!-- Unresolved emoji --> :");
                            text.append(name);
                            text.append(":");
                            proof {
                                assert(texts(self.unresolved@.push(names@[i as int])) =~= texts(
                                    self.unresolved@,
                                ).push(name@));
                            }
                            self.unresolved.push(names[i].clone());
                            text
                        },
                    };
                    let entry = (names[i].clone(), value.clone());
                    proof {
                        assert(keys(self.discovered_emojis@.push(entry)) =~= keys(
                            self.discovered_emojis@,
                        ).push(name@));
                        assert(keys(self.discovered_emojis@).push(name@).drop_last() =~= keys(
                            self.discovered_emojis@,
                        ));
                    }
                    self.discovered_emojis.push(entry);
                    value
                },
            };
            values.push(value);
            i += 1;
        }
        proof {
            assert(wanted.subrange(0, names.len() as int) =~= wanted);
            assert(texts(values@) =~= replacements(wanted));
            lemma_dedup_idempotent(seen_before + wanted);
        }
        splice(&parts, &values)
    }

    /// The shortcodes met that are no emoji's, each once, in the order in
    /// which they were first met.
    pub fn unresolved(&self) -> (list: &Vec<String>)
        requires
            self.wf(),
        ensures
            texts(list@) == unresolved_of(self@.seen),
    {
        &self.unresolved
    }
}

/// Leaving out repetitions a second time changes nothing.
pub proof fn lemma_dedup_idempotent(s: Seq<Seq<char>>)
    ensures
        dedup(dedup(s)) == dedup(s),
    decreases s.len(),
{
    if s.len() > 0 {
        let front = s.drop_last();
        lemma_dedup_idempotent(front);
        lemma_dedup(front);
        if !dedup(front).contains(s.last()) {
            let d = dedup(front).push(s.last());
            assert(d.drop_last() =~= dedup(front));
        }
    }
}

/// A shortcode that is no emoji's is reported once, however often it
/// occurs: the list of them holds no shortcode twice, and holds exactly
/// those of the shortcodes met that are no emoji's.
pub proof fn lemma_unresolved_once(seen: Seq<Seq<char>>)
    requires
        seen.no_duplicates(),
    ensures
        unresolved_of(seen).no_duplicates(),
        forall|name: Seq<char>|
            unresolved_of(seen).contains(name) <==> seen.contains(name) && emoji_of(name) is None,
    decreases seen.len(),
{
    if seen.len() > 0 {
        let front = seen.drop_last();
        assert forall|i: int, j: int| 0 <= i < front.len() && 0 <= j < front.len() && i
            != j implies front[i] != front[j] by {
            assert(front[i] == seen[i] && front[j] == seen[j]);
        }
        lemma_unresolved_once(front);
        let rest = unresolved_of(front);
        let last = seen.last();
        assert(!front.contains(last)) by {
            if front.contains(last) {
                let k = choose|k: int| 0 <= k < front.len() && front[k] == last;
                assert(seen[k] == seen[seen.len() - 1]);
            }
        }
        assert(seen =~= front.push(last));
        assert forall|name: Seq<char>|
            unresolved_of(seen).contains(name) <==> seen.contains(name) && emoji_of(
                name,
            ) is None by {
            if seen.contains(name) {
                let k = choose|k: int| 0 <= k < seen.len() && seen[k] == name;
                if k < front.len() {
                    assert(front[k] == name);
                    assert(front.contains(name));
                }
            }
            if front.contains(name) {
                let k = choose|k: int| 0 <= k < front.len() && front[k] == name;
                assert(seen[k] == name);
            }
            if emoji_of(last) is None {
                let full = rest.push(last);
                if rest.contains(name) {
                    let k = choose|k: int| 0 <= k < rest.len() && rest[k] == name;
                    assert(full[k] == name);
                }
                if full.contains(name) {
                    let k = choose|k: int| 0 <= k < full.len() && full[k] == name;
                    if k < rest.len() {
                        assert(rest[k] == name);
                        assert(rest.contains(name));
                    }
                }
                assert(full[rest.len() as int] == last);
            }
        }
        if emoji_of(last) is None {
            assert(!rest.contains(last));
            let full = rest.push(last);
            assert forall|i: int, j: int| 0 <= i < full.len() && 0 <= j < full.len() && i
                != j implies full[i] != full[j] by {
                if i < rest.len() && j < rest.len() {
                    assert(full[i] == rest[i] && full[j] == rest[j]);
                } else if i < rest.len() {
                    assert(rest.contains(rest[i]));
                } else {
                    assert(rest.contains(rest[j]));
                }
            }
        }
    }
}

/// The sub-parser for literal text.
pub struct TextParser {
    emoji: EmojiReplacer,
}

impl View for TextParser {
    type V = EmojiModel;

    closed spec fn view(&self) -> EmojiModel {
        self.emoji@
    }
}

impl EmojiModel {
    /// The state after `event`.
    pub open spec fn after(self, event: EventModel) -> EmojiModel {
        match kind_of(event) {
            KindModel::Text(text) => EmojiModel {
                seen: dedup(self.seen + used_names(self.pattern, text)),
                ..self
            },
            _ => self,
        }
    }

    /// The answer to `event`: literal text becomes raw HTML with its
    /// shortcodes replaced, and a soft break that follows it at once is
    /// suppressed; all else is handed on.
    pub open spec fn answer(self, event: EventModel) -> ControlModel {
        match kind_of(event) {
            KindModel::Text(text) => ControlModel::Continue(
                NextModel {
                    replacement: Some(EventModel::Html(replaced(self.pattern, text))),
                    ignore: Some(Ignore::ForNextIf(1, EventPredicate::SoftBreak)),
                },
            ),
            _ => ControlModel::Continue(NextModel::unchanged()),
        }
    }
}

impl TextParser {
    /// Whether what the sub-parser remembers is what it would work out
    /// anew.
    pub closed spec fn wf(&self) -> bool {
        self.emoji.wf()
    }

    /// The sub-parser before the first event; an error where the pattern
    /// of a shortcode cannot be built.
    pub fn new() -> (made: Result<TextParser, PlaceholderError>)
        ensures
            match made {
                Ok(parser) => shortcode_pattern() == Ok::<Seq<char>, PlaceholderErrorModel>(
                    parser@.pattern,
                ) && parser@.seen.len() == 0 && parser.wf(),
                Err(error) => shortcode_pattern() == Err::<Seq<char>, PlaceholderErrorModel>(
                    error@,
                ),
            },
    {
        match EmojiReplacer::new() {
            Ok(emoji) => Ok(TextParser { emoji }),
            Err(error) => Err(error),
        }
    }

    /// Takes `event` in.
    pub fn receive_event(&mut self, event: &Event) -> (control: EventProcessControl)
        requires
            old(self).wf(),
        ensures
            final(self).wf(),
            final(self)@ == old(self)@.after(event@),
            control@ == old(self)@.answer(event@),
    {
        match event {
            Event::Source { kind: EventKind::Text(text), .. } => {
                let html = self.emoji.replace(text.as_str());
                use_next_with(
                    Next {
                        replacement: Some(Event::Html(html)),
                        ignore: Some(Ignore::ForNextIf(1, EventPredicate::SoftBreak)),
                    },
                )
            },
            _ => use_next(),
        }
    }

    /// Whether `event` is a soft line break.
    pub fn ignore_if_softbreak(event: &Event) -> (soft: bool)
        ensures
            soft == EventPredicate::SoftBreak.holds(event@),
    {
        event.is_soft_break()
    }

    /// The shortcodes met that are no emoji's, each once, in the order in
    /// which they were first met.
    pub fn compose_output(self) -> (unresolved: Vec<String>)
        requires
            self.wf(),
        ensures
            texts(unresolved@) == unresolved_of(self@.seen),
    {
        self.emoji.unresolved
    }
}

} // verus!
