//! The sub-parser that replaces the source of a fenced code block by
//! highlighted HTML.
use vstd::prelude::*;
use vstd::string::StringExecFns;
use syntect::highlighting::ThemeSet;
use syntect::html::highlighted_html_for_string;
use syntect::parsing::SyntaxSet;
use crate::markdown::control::discard;
use crate::markdown::control::use_html;
use crate::markdown::control::use_next;
use crate::markdown::control::ControlModel;
use crate::markdown::control::EventProcessControl;
use crate::markdown::control::NextModel;
use crate::markdown::event::kind_of;
use crate::markdown::event::Event;
use crate::markdown::event::EventKind;
use crate::markdown::event::EventModel;
use crate::markdown::event::KindModel;
use crate::text::option_text;
use crate::text::texts;

verus! {

/// Whether the default syntaxes hold one of exactly the name `name`.
pub uninterp spec fn syntax_known(name: Seq<char>) -> bool;

/// The name of the default syntax for files of the extension `extension`,
/// if there is one.
pub uninterp spec fn syntax_of_extension(extension: Seq<char>) -> Option<Seq<char>>;

/// The HTML that the highlighter writes for `code` read in the default
/// syntax of the name `syntax`, in the default theme of the name `theme`;
/// nothing where there is no such syntax or theme, or the highlighter
/// fails.
pub uninterp spec fn highlighted_source(
    syntax: Seq<char>,
    theme: Seq<char>,
    code: Seq<char>,
) -> Option<Seq<char>>;

/// Asks `SyntaxSet::find_syntax_by_name`, on the set that
/// `SyntaxSet::load_defaults_newlines` gives, whether it finds a syntax.
#[verifier::external_body]
fn has_syntax_named(name: &str) -> (known: bool)
    ensures
        known == syntax_known(name@),
{
    SyntaxSet::load_defaults_newlines().find_syntax_by_name(name).is_some()
}

/// Asks `SyntaxSet::find_syntax_by_extension`, on the set that
/// `SyntaxSet::load_defaults_newlines` gives, for the syntax of an
/// extension, and gives the name of the syntax found.
#[verifier::external_body]
fn syntax_for_extension(extension: &str) -> (name: Option<String>)
    ensures
        option_text(name) == syntax_of_extension(extension@),
{
    SyntaxSet::load_defaults_newlines().find_syntax_by_extension(extension).map(
        |syntax| syntax.name.clone(),
    )
}

/// Looks the syntax up by name in the set that
/// `SyntaxSet::load_defaults_newlines` gives and the theme by name in
/// what `ThemeSet::load_defaults` gives, and runs
/// `syntect::html::highlighted_html_for_string` with them over `code`.
/// Gives nothing where a lookup finds nothing or the highlighter returns
/// an error.
#[verifier::external_body]
fn highlight(syntax: &str, theme: &str, code: &str) -> (html: Option<String>)
    ensures
        option_text(html) == highlighted_source(syntax@, theme@, code@),
{
    let syntaxes = SyntaxSet::load_defaults_newlines();
    let themes = ThemeSet::load_defaults();
    let found = syntaxes.find_syntax_by_name(syntax)?;
    let colours = themes.themes.get(theme)?;
    highlighted_html_for_string(code, &syntaxes, found, colours).ok()
}

/// The name of the theme in which code is highlighted.
pub const THEME: &'static str = "Solarized (light)";

/// The name of the syntax for source that is no language's.
pub open spec fn plain_text() -> Seq<char> {
    "Plain Text"@
}

/// Whether no syntax is found for the declared language `lang`: neither
/// one of that name nor one for that extension.
pub open spec fn language_unknown(lang: Seq<char>) -> bool {
    lang.len() > 0 && !syntax_known(lang) && syntax_of_extension(lang) is None
}

/// The syntax in which a block that declares the language `lang` is read:
/// the one of that name, else the one for that extension, else plain text.
pub open spec fn syntax_for(lang: Seq<char>) -> Seq<char> {
    if lang.len() == 0 {
        plain_text()
    } else if syntax_known(lang) {
        lang
    } else {
        match syntax_of_extension(lang) {
            Some(name) => name,
            None => plain_text(),
        }
    }
}

/// The HTML for the source `code` of a block that declares the language
/// `lang`.
pub open spec fn highlighted_block(lang: Seq<char>, code: Seq<char>) -> Option<Seq<char>> {
    match highlighted_source(syntax_for(lang), THEME@, code) {
        Some(html) => Some("<code class=\"block\">"@ + html + "</code>"@),
        None => None,
    }
}

/// Finds the syntax for declared languages and highlights source in it.
pub struct SyntaxHighlighter {}

impl SyntaxHighlighter {
    /// The syntax for the declared language `lang`, and whether none was
    /// found for it, so that plain text stands in.
    pub fn find_language(&self, lang: &str) -> (found: (String, bool))
        ensures
            found.0@ == syntax_for(lang@),
            found.1 == language_unknown(lang@),
    {
        if lang.is_empty() {
            (String::from_str("Plain Text"), false)
        } else if has_syntax_named(lang) {
            (String::from_str(lang), false)
        } else {
            match syntax_for_extension(lang) {
                Some(name) => (name, false),
                None => (String::from_str("Plain Text"), true),
            }
        }
    }

    /// The HTML for the source `code` of a block that declares the
    /// language `lang`, if the highlighter can write it.
    pub fn generate_highlighted_html(&self, lang: &str, code: &str) -> (html: Option<String>)
        ensures
            option_text(html) == highlighted_block(lang@, code@),
    {
        let (syntax, _) = self.find_language(lang);
        match highlight(syntax.as_str(), THEME, code) {
            Some(inner) => {
                let mut html = String::from_str("<code class=\"block\">");
                html.append(inner.as_str());
                html.append("</code>");
                Some(html)
            },
            None => None,
        }
    }
}

/// The block being read: the language it declares, and whether source was
/// seen in it.
pub struct CodeBlockParseState {
    pub lang: String,
    pub has_content: bool,
}

/// The sub-parser for fenced code blocks.
pub struct CodeBlockSubParser {
    parse_state: Option<CodeBlockParseState>,
    unknown_languages: Vec<String>,
    highlighter: SyntaxHighlighter,
}

pub ghost struct CodeBlockModel {
    /// The block being read: its language, and whether source was seen.
    pub block: Option<(Seq<char>, bool)>,
    /// The declared languages for which no syntax was found, one for each
    /// piece of source highlighted as plain text because of it.
    pub unknown_languages: Seq<Seq<char>>,
}

impl CodeBlockModel {
    /// The state before the first event.
    pub open spec fn initial() -> CodeBlockModel {
        CodeBlockModel { block: None, unknown_languages: Seq::empty() }
    }

    /// Whether `event` may come in this state: in a block only source and
    /// the end of the block are expected, and the highlighter must be able
    /// to write what is asked of it.
    pub open spec fn accepts(self, event: EventModel) -> bool {
        match self.block {
            None => true,
            Some((lang, has_content)) => match kind_of(event) {
                KindModel::Text(code) => highlighted_block(lang, code) is Some,
                KindModel::CodeBlockEnd => has_content || highlighted_block(
                    Seq::empty(),
                    Seq::empty(),
                ) is Some,
                _ => false,
            },
        }
    }

    /// The state after `event`.
    pub open spec fn after(self, event: EventModel) -> CodeBlockModel {
        match self.block {
            None => match kind_of(event) {
                KindModel::FencedCodeStart(lang) => CodeBlockModel {
                    block: Some((lang, false)),
                    ..self
                },
                _ => self,
            },
            Some((lang, has_content)) => match kind_of(event) {
                KindModel::Text(_) => CodeBlockModel {
                    block: Some((lang, true)),
                    unknown_languages: if language_unknown(lang) {
                        self.unknown_languages.push(lang)
                    } else {
                        self.unknown_languages
                    },
                },
                KindModel::CodeBlockEnd => CodeBlockModel { block: None, ..self },
                _ => self,
            },
        }
    }

    /// The answer to `event`: the markers of a fenced block are dropped,
    /// its source becomes highlighted HTML, and a block without source
    /// becomes the HTML of an empty one; all else is handed on.
    pub open spec fn answer(self, event: EventModel) -> ControlModel {
        match self.block {
            None => match kind_of(event) {
                KindModel::FencedCodeStart(_) => ControlModel::Discard,
                _ => ControlModel::Continue(NextModel::unchanged()),
            },
            Some((lang, has_content)) => match kind_of(event) {
                KindModel::Text(code) => ControlModel::UseThisInstead(
                    seq![EventModel::Html(highlighted_block(lang, code)->0)],
                ),
                _ => if has_content {
                    ControlModel::Discard
                } else {
                    ControlModel::UseThisInstead(
                        seq![
                            EventModel::Html(highlighted_block(Seq::empty(), Seq::empty())->0),
                        ],
                    )
                },
            },
        }
    }
}

impl View for CodeBlockSubParser {
    type V = CodeBlockModel;

    closed spec fn view(&self) -> CodeBlockModel {
        CodeBlockModel {
            block: match self.parse_state {
                Some(state) => Some((state.lang@, state.has_content)),
                None => None,
            },
            unknown_languages: texts(self.unknown_languages@),
        }
    }
}

impl Default for CodeBlockSubParser {
    fn default() -> (parser: CodeBlockSubParser)
        ensures
            parser@ == CodeBlockModel::initial(),
    {
        let parser = CodeBlockSubParser {
            parse_state: None,
            unknown_languages: Vec::new(),
            highlighter: SyntaxHighlighter {  },
        };
        proof {
            assert(texts(parser.unknown_languages@) =~= Seq::<Seq<char>>::empty());
        }
        parser
    }
}

impl CodeBlockSubParser {
    /// Whether `event` may come now.
    pub fn can_receive(&self, event: &Event) -> (ok: bool)
        ensures
            ok == self@.accepts(event@),
    {
        match &self.parse_state {
            None => true,
            Some(state) => match event {
                Event::Source { kind: EventKind::Text(code), .. } => {
                    self.highlighter.generate_highlighted_html(
                        state.lang.as_str(),
                        code.as_str(),
                    ).is_some()
                },
                Event::Source { kind: EventKind::CodeBlockEnd, .. } => {
                    proof {
                        assert(""@ =~= Seq::<char>::empty()) by {
                            reveal_strlit("");
                        }
                    }
                    state.has_content || self.highlighter.generate_highlighted_html(
                        "",
                        "",
                    ).is_some()
                },
                _ => false,
            },
        }
    }

    /// Whether the chain goes on behind this sub-parser for `event`.
    pub fn hands_on(&self, event: &Event) -> (on: bool)
        ensures
            on == self@.answer(event@) is Continue,
    {
        match &self.parse_state {
            Some(_) => false,
            None => match event {
                Event::Source { kind: EventKind::FencedCodeStart(_), .. } => false,
                _ => true,
            },
        }
    }

    /// Takes `event` in.
    pub fn receive_event(&mut self, event: &Event) -> (control: EventProcessControl)
        requires
            old(self)@.accepts(event@),
        ensures
            final(self)@ == old(self)@.after(event@),
            control@ == old(self)@.answer(event@),
    {
        let state = self.parse_state.take();
        match state {
            None => match event {
                Event::Source { kind: EventKind::FencedCodeStart(lang), .. } => {
                    self.parse_state = Some(
                        CodeBlockParseState { lang: lang.clone(), has_content: false },
                    );
                    discard()
                },
                _ => use_next(),
            },
            Some(state) => match event {
                Event::Source { kind: EventKind::Text(code), .. } => {
                    let (_, unknown) = self.highlighter.find_language(state.lang.as_str());
                    let html = self.highlighter.generate_highlighted_html(
                        state.lang.as_str(),
                        code.as_str(),
                    );
                    if unknown {
                        proof {
                            assert(texts(self.unknown_languages@.push(state.lang)) =~= texts(
                                self.unknown_languages@,
                            ).push(state.lang@));
                        }
                        self.unknown_languages.push(state.lang.clone());
                    }
                    self.parse_state = Some(
                        CodeBlockParseState { lang: state.lang, has_content: true },
                    );
                    match html {
                        Some(html) => use_html(html.as_str()),
                        None => discard(),
                    }
                },
                _ => {
                    if state.has_content {
                        discard()
                    } else {
                        proof {
                            assert(""@ =~= Seq::<char>::empty()) by {
                                reveal_strlit("");
                            }
                        }
                        match self.highlighter.generate_highlighted_html("", "") {
                            Some(html) => use_html(html.as_str()),
                            None => discard(),
                        }
                    }
                },
            },
        }
    }

    /// The declared languages for which no syntax was found.
    pub fn compose_output(self) -> (unknown: Vec<String>)
        ensures
            texts(unknown@) == self@.unknown_languages,
    {
        self.unknown_languages
    }
}

} // verus!
