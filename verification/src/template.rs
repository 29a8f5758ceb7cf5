//! Placeholders in text: a pattern finds them, and what a filler gives for
//! their names is put in their place.
use vstd::prelude::*;
use vstd::string::StringExecFns;
use regex::Regex;
use crate::text::chars_of;
use crate::text::option_text;
use crate::text::same_text;
use crate::text::texts;

verus! {

/// The name of the group that captures the name of a placeholder.
pub const REGEX_CAPTURE_GROUP: &'static str = "name";

/// The message of the error with which the regex compiler refuses
/// `pattern`; nothing where it accepts the pattern.
pub uninterp spec fn pattern_error(pattern: Seq<char>) -> Option<Seq<char>>;

/// The groups of the regex `pattern`, the whole match first: for each its
/// name, if it has one.
pub uninterp spec fn capture_groups(pattern: Seq<char>) -> Seq<Option<Seq<char>>>;

/// For each match of the regex `pattern` in `haystack`, from left to right
/// and without overlap: what the group of the name `group` captured, if
/// there is such a group and it took part in the match.
pub uninterp spec fn captured(pattern: Seq<char>, group: Seq<char>, haystack: Seq<char>) -> Seq<
    Option<Seq<char>>,
>;

/// The parts of `haystack` that no match of the regex `pattern` covers,
/// from left to right: what stands before the first match, between each
/// match and the next, and behind the last.
pub uninterp spec fn unmatched(pattern: Seq<char>, haystack: Seq<char>) -> Seq<Seq<char>>;

/// What a list of optional strings holds.
pub open spec fn option_texts(v: Seq<Option<String>>) -> Seq<Option<Seq<char>>> {
    Seq::new(v.len(), |i: int| option_text(v[i]))
}

/// Runs `Regex::new` on `pattern` and gives the message of the error, if
/// it returns one.
#[verifier::external_body]
fn compiler_message(pattern: &str) -> (message: Option<String>)
    ensures
        option_text(message) == pattern_error(pattern@),
{
    Regex::new(pattern).err().map(|error| error.to_string())
}

/// Runs `Regex::capture_names` on the compiled `pattern`.
#[verifier::external_body]
fn group_names(pattern: &str) -> (names: Vec<Option<String>>)
    requires
        pattern_error(pattern@) is None,
    ensures
        option_texts(names@) == capture_groups(pattern@),
{
    Regex::new(pattern).unwrap().capture_names().map(|name| name.map(str::to_string)).collect()
}

/// Runs `Regex::captures_iter` with the compiled `pattern` over `haystack`
/// and takes from each match what `Captures::name` gives for `group`.
#[verifier::external_body]
fn find_captures(pattern: &str, group: &str, haystack: &str) -> (found: Vec<Option<String>>)
    requires
        pattern_error(pattern@) is None,
    ensures
        option_texts(found@) == captured(pattern@, group@, haystack@),
{
    Regex::new(pattern).unwrap().captures_iter(haystack).map(
        |capture| capture.name(group).map(|found| found.as_str().to_string()),
    ).collect()
}

/// Runs `Regex::split` with the compiled `pattern` over `haystack`. The
/// iterator yields the part before each match and the part behind the
/// last, so one part more than there are matches, whatever group is asked
/// for in them.
#[verifier::external_body]
fn split_around(pattern: &str, haystack: &str) -> (parts: Vec<String>)
    requires
        pattern_error(pattern@) is None,
    ensures
        texts(parts@) == unmatched(pattern@, haystack@),
        forall|group: Seq<char>|
            parts@.len() == (#[trigger] captured(pattern@, group, haystack@)).len() + 1,
{
    Regex::new(pattern).unwrap().split(haystack).map(str::to_string).collect()
}

/// Whether `c` is one of the characters that a delimiter has escaped when
/// it becomes part of a pattern: a bracket of any kind, `^` or `$`.
pub open spec fn is_special(c: char) -> bool {
    c == '[' || c == ']' || c == '{' || c == '}' || c == '(' || c == ')' || c == '^' || c == '$'
}

/// `s` with a backslash before each special character.
pub open spec fn escaped(s: Seq<char>) -> Seq<char>
    decreases s.len(),
{
    if s.len() == 0 {
        s
    } else if is_special(s.last()) {
        escaped(s.drop_last()).push('\\').push(s.last())
    } else {
        escaped(s.drop_last()).push(s.last())
    }
}

/// The pattern for what may stand in a placeholder that ends with `end`
/// when none is given: as few characters as will do, none of them from
/// `end`.
pub open spec fn default_content(end: Seq<char>) -> Seq<char> {
    "[^"@ + escaped(end) + "]*?"@
}

/// The pattern for a placeholder between `start` and `end` whose name
/// matches `content`: blanks around the name are no part of it.
pub open spec fn placeholder_pattern(start: Seq<char>, end: Seq<char>, content: Seq<char>) -> Seq<
    char,
> {
    escaped(start) + "\\s*(?<"@ + REGEX_CAPTURE_GROUP@ + ">"@ + content + ")\\s*"@ + escaped(end)
}

/// Why no placeholder could be made.
#[derive(Debug)]
pub enum PlaceholderError {
    /// A pattern was refused by the regex compiler: which one, and the
    /// compiler's message.
    InvalidRegex { context: String, regex: String },
    /// The pattern has no group of the name that captures the placeholder's
    /// name.
    CaptureGroupNotFound,
}

pub ghost enum PlaceholderErrorModel {
    InvalidRegex { context: Seq<char>, regex: Seq<char> },
    CaptureGroupNotFound,
}

impl View for PlaceholderError {
    type V = PlaceholderErrorModel;

    open spec fn view(&self) -> PlaceholderErrorModel {
        match self {
            PlaceholderError::InvalidRegex { context, regex } => PlaceholderErrorModel::InvalidRegex {
                context: context@,
                regex: regex@,
            },
            PlaceholderError::CaptureGroupNotFound => PlaceholderErrorModel::CaptureGroupNotFound,
        }
    }
}

/// What is said of a content pattern that the compiler refuses.
pub open spec fn content_context() -> Seq<char> {
    "The 'content_regex' could not be built. Specify a valid 'content_regex'."@
}

/// What is said of a default content pattern that the compiler refuses.
pub open spec fn default_content_context() -> Seq<char> {
    "Default 'content_regex' could not be built. Specify 'content_regex' manually."@
}

/// What is said of a placeholder pattern that the compiler refuses.
pub open spec fn pattern_context() -> Seq<char> {
    "Placeholder regex could not be built. You might have to use `Placeholder::from_regex` instead."@
}

/// Whether `pattern` can be the pattern of a placeholder, and if not, why.
pub open spec fn checked_pattern(pattern: Seq<char>) -> Result<Seq<char>, PlaceholderErrorModel> {
    if capture_groups(pattern).contains(Some(REGEX_CAPTURE_GROUP@)) {
        Ok(pattern)
    } else {
        Err(PlaceholderErrorModel::CaptureGroupNotFound)
    }
}

/// The pattern of the placeholder between `start` and `end` whose name
/// matches `content`, or the default where none is given; or why there is
/// none.
pub open spec fn built_pattern(
    start: Seq<char>,
    end: Seq<char>,
    content: Option<Seq<char>>,
) -> Result<Seq<char>, PlaceholderErrorModel> {
    let inner = match content {
        Some(content) => content,
        None => default_content(end),
    };
    let pattern = placeholder_pattern(start, end, inner);
    if pattern_error(inner) is Some {
        Err(
            PlaceholderErrorModel::InvalidRegex {
                context: if content is Some {
                    content_context()
                } else {
                    default_content_context()
                },
                regex: pattern_error(inner)->0,
            },
        )
    } else if pattern_error(pattern) is Some {
        Err(
            PlaceholderErrorModel::InvalidRegex {
                context: pattern_context(),
                regex: pattern_error(pattern)->0,
            },
        )
    } else {
        checked_pattern(pattern)
    }
}

/// The names of the placeholders in `haystack`, from left to right. A
/// match in which the name group took no part has the empty name.
pub open spec fn used_names(pattern: Seq<char>, haystack: Seq<char>) -> Seq<Seq<char>> {
    given(captured(pattern, REGEX_CAPTURE_GROUP@, haystack))
}

/// The first `n` of `values` put between the first `n + 1` of `parts`;
/// where there are not as many values or parts, only the first part.
pub open spec fn spliced(parts: Seq<Seq<char>>, values: Seq<Seq<char>>, n: nat) -> Seq<char>
    decreases n,
{
    if parts.len() == 0 {
        Seq::empty()
    } else if n == 0 || n > values.len() || n >= parts.len() {
        parts[0]
    } else {
        spliced(parts, values, (n - 1) as nat) + values[n - 1] + parts[n as int]
    }
}

/// `haystack` with `values` in the place of its placeholders, one for
/// each from left to right.
pub open spec fn filled(pattern: Seq<char>, haystack: Seq<char>, values: Seq<Seq<char>>) -> Seq<
    char,
> {
    spliced(unmatched(pattern, haystack), values, values.len())
}

/// What each of `answers` holds, with the empty text where one holds
/// nothing.
pub open spec fn given(answers: Seq<Option<Seq<char>>>) -> Seq<Seq<char>> {
    Seq::new(
        answers.len(),
        |i: int|
            match answers[i] {
                Some(value) => value,
                None => Seq::empty(),
            },
    )
}

/// Those of the first `n` of `names` for which the filler gave no value,
/// in order, each as often as it occurs.
pub open spec fn unfilled(names: Seq<Seq<char>>, answers: Seq<Option<Seq<char>>>, n: nat) -> Seq<
    Seq<char>,
>
    decreases n,
{
    if n == 0 || n > names.len() || n > answers.len() {
        Seq::empty()
    } else if answers[n - 1] is None {
        unfilled(names, answers, (n - 1) as nat).push(names[n - 1])
    } else {
        unfilled(names, answers, (n - 1) as nat)
    }
}

/// The filler `filler`, asked for the placeholder `name`, may answer
/// `value`.
pub open spec fn gives<F: Fn(&str) -> String>(filler: F, name: Seq<char>, value: String) -> bool {
    exists|asked: &str| asked@ == name && call_ensures(filler, (asked,), value)
}

/// The filler `filler`, asked for the placeholder `name`, may answer
/// `value`.
pub open spec fn answers<F: Fn(&str) -> Option<String>>(
    filler: F,
    name: Seq<char>,
    value: Option<String>,
) -> bool {
    exists|asked: &str| asked@ == name && call_ensures(filler, (asked,), value)
}

/// `values` are answers that `filler` may give for `names`, one for each.
pub open spec fn given_by<F: Fn(&str) -> String>(
    filler: F,
    names: Seq<Seq<char>>,
    values: Seq<String>,
) -> bool {
    &&& values.len() == names.len()
    &&& forall|i: int| 0 <= i < values.len() ==> gives(filler, names[i], #[trigger] values[i])
}

/// `replies` are answers that `filler` may give for `names`, one for each.
pub open spec fn answered_by<F: Fn(&str) -> Option<String>>(
    filler: F,
    names: Seq<Seq<char>>,
    replies: Seq<Option<String>>,
) -> bool {
    &&& replies.len() == names.len()
    &&& forall|i: int| 0 <= i < replies.len() ==> answers(filler, names[i], #[trigger] replies[i])
}

/// Every answer holds a value.
pub open spec fn all_given(replies: Seq<Option<Seq<char>>>) -> bool {
    forall|i: int| 0 <= i < replies.len() ==> (#[trigger] replies[i]) is Some
}

/// `s` with a backslash before each special character.
pub fn escape(s: &str) -> (out: String)
    ensures
        out@ == escaped(s@),
{
    let chars = chars_of(s);
    let mut out = String::new();
    let mut i: usize = 0;
    while i < chars.len()
        invariant
            i <= chars.len(),
            chars@ == s@,
            out@ == escaped(s@.subrange(0, i as int)),
        decreases chars.len() - i,
    {
        let c = chars[i];
        proof {
            assert(s@.subrange(0, i + 1).drop_last() =~= s@.subrange(0, i as int));
        }
        if c == '[' || c == ']' || c == '{' || c == '}' || c == '(' || c == ')' || c == '^' || c
            == '$' {
            out.push('\\');
        }
        out.push(c);
        i += 1;
    }
    proof {
        assert(s@.subrange(0, chars.len() as int) =~= s@);
    }
    out
}

/// `values` put between `parts`, of which there is one more.
pub fn splice(parts: &Vec<String>, values: &Vec<String>) -> (out: String)
    ensures
        out@ == spliced(texts(parts@), texts(values@), values@.len()),
{
    if parts.len() == 0 {
        return String::new();
    }
    let mut out = parts[0].clone();
    if values.len() >= parts.len() {
        return out;
    }
    let mut i: usize = 0;
    while i < values.len()
        invariant
            i <= values.len() < parts.len(),
            out@ == spliced(texts(parts@), texts(values@), i as nat),
        decreases values.len() - i,
    {
        out.append(values[i].as_str());
        out.append(parts[i + 1].as_str());
        i += 1;
    }
    out
}

/// A kind of placeholder: the pattern that finds its occurrences and
/// captures their names.
#[derive(Debug)]
pub struct Placeholder {
    pattern: String,
}

impl View for Placeholder {
    type V = Seq<char>;

    closed spec fn view(&self) -> Seq<char> {
        self.pattern@
    }
}

impl Placeholder {
    #[verifier::type_invariant]
    closed spec fn well_formed(self) -> bool {
        pattern_error(self.pattern@) is None
    }

    /// The placeholder that starts with `start` and ends with `end`, and
    /// whose name matches `content_regex`; without `content_regex`, any
    /// name without a character of `end` will do.
    pub fn from_strs(start: &str, end: &str, content_regex: Option<&str>) -> (made: Result<
        Placeholder,
        PlaceholderError,
    >)
        ensures
            match made {
                Ok(placeholder) => built_pattern(start@, end@, option_str(content_regex)) == Ok::<
                    Seq<char>,
                    PlaceholderErrorModel,
                >(placeholder@),
                Err(error) => built_pattern(start@, end@, option_str(content_regex)) == Err::<
                    Seq<char>,
                    PlaceholderErrorModel,
                >(error@),
            },
    {
        let escaped_end = escape(end);
        let content = match content_regex {
            Some(content) => String::from_str(content),
            None => {
                let mut content = String::from_str("[^");
                content.append(escaped_end.as_str());
                content.append("]*?");
                content
            },
        };
        if let Some(message) = compiler_message(content.as_str()) {
            let context = if content_regex.is_some() {
                String::from_str(
                    "The 'content_regex' could not be built. Specify a valid 'content_regex'.",
                )
            } else {
                String::from_str(
                    "Default 'content_regex' could not be built. Specify 'content_regex' manually.",
                )
            };
            return Err(PlaceholderError::InvalidRegex { context, regex: message });
        }
        let mut pattern = escape(start);
        pattern.append("\\s*(?<");
        pattern.append(REGEX_CAPTURE_GROUP);
        pattern.append(">");
        pattern.append(content.as_str());
        pattern.append(")\\s*");
        pattern.append(escaped_end.as_str());
        if let Some(message) = compiler_message(pattern.as_str()) {
            return Err(
                PlaceholderError::InvalidRegex {
                    context: String::from_str(
                        "Placeholder regex could not be built. You might have to use `Placeholder::from_regex` instead.",
                    ),
                    regex: message,
                },
            );
        }
        Placeholder::checked(pattern)
    }

    /// The placeholder that `regex` finds; the group `name` of `regex`
    /// captures a placeholder's name.
    pub fn from_regex(regex: &str) -> (made: Result<Placeholder, PlaceholderError>)
        ensures
            match made {
                Ok(placeholder) => pattern_error(regex@) is None && checked_pattern(regex@) == Ok::<
                    Seq<char>,
                    PlaceholderErrorModel,
                >(placeholder@),
                Err(PlaceholderError::InvalidRegex { context, regex: message }) => pattern_error(
                    regex@,
                ) == Some(message@) && context@ == pattern_context(),
                Err(PlaceholderError::CaptureGroupNotFound) => pattern_error(regex@) is None
                    && checked_pattern(regex@) is Err,
            },
    {
        if let Some(message) = compiler_message(regex) {
            return Err(
                PlaceholderError::InvalidRegex {
                    context: String::from_str(
                        "Placeholder regex could not be built. You might have to use `Placeholder::from_regex` instead.",
                    ),
                    regex: message,
                },
            );
        }
        Placeholder::checked(String::from_str(regex))
    }

    /// The placeholder that the compiling `pattern` finds, if the pattern
    /// has the group that captures names.
    fn checked(pattern: String) -> (made: Result<Placeholder, PlaceholderError>)
        requires
            pattern_error(pattern@) is None,
        ensures
            match made {
                Ok(placeholder) => checked_pattern(pattern@) == Ok::<
                    Seq<char>,
                    PlaceholderErrorModel,
                >(placeholder@),
                Err(error) => checked_pattern(pattern@) == Err::<Seq<char>, PlaceholderErrorModel>(
                    error@,
                ),
            },
    {
        let names = group_names(pattern.as_str());
        let mut i: usize = 0;
        while i < names.len()
            invariant
                i <= names.len(),
                pattern_error(pattern@) is None,
                option_texts(names@) == capture_groups(pattern@),
                forall|k: int|
                    0 <= k < i ==> (#[trigger] option_texts(names@)[k]) != Some(
                        REGEX_CAPTURE_GROUP@,
                    ),
            decreases names.len() - i,
        {
            let hit = match &names[i] {
                Some(name) => same_text(name.as_str(), REGEX_CAPTURE_GROUP),
                None => false,
            };
            if hit {
                assert(option_texts(names@)[i as int] == Some(REGEX_CAPTURE_GROUP@));
                return Ok(Placeholder { pattern });
            }
            i += 1;
        }
        Err(PlaceholderError::CaptureGroupNotFound)
    }

    /// The names of the placeholders in `haystack`, from left to right.
    pub fn parse_used_placeholders(&self, haystack: &str) -> (names: Vec<String>)
        ensures
            texts(names@) == used_names(self@, haystack@),
    {
        proof {
            use_type_invariant(self);
        }
        let found = find_captures(self.pattern.as_str(), REGEX_CAPTURE_GROUP, haystack);
        let mut names: Vec<String> = Vec::new();
        let mut i: usize = 0;
        while i < found.len()
            invariant
                i <= found.len(),
                option_texts(found@) == captured(self@, REGEX_CAPTURE_GROUP@, haystack@),
                names@.len() == i,
                forall|k: int|
                    0 <= k < i ==> (#[trigger] names@[k])@ == used_names(self@, haystack@)[k],
            decreases found.len() - i,
        {
            proof {
                assert(option_texts(found@)[i as int] == option_text(found@[i as int]));
            }
            let name = match &found[i] {
                Some(name) => name.clone(),
                None => String::new(),
            };
            names.push(name);
            i += 1;
        }
        proof {
            assert(texts(names@) =~= used_names(self@, haystack@));
        }
        names
    }

    /// The parts of `haystack` around its placeholders, from left to
    /// right: one more than there are placeholders.
    pub fn parse_surroundings(&self, haystack: &str) -> (parts: Vec<String>)
        ensures
            texts(parts@) == unmatched(self@, haystack@),
            parts@.len() == used_names(self@, haystack@).len() + 1,
    {
        proof {
            use_type_invariant(self);
        }
        let parts = split_around(self.pattern.as_str(), haystack);
        proof {
            assert(parts@.len() == captured(self@, REGEX_CAPTURE_GROUP@, haystack@).len() + 1);
        }
        parts
    }

    /// `haystack` with each placeholder replaced by what `filler` gives
    /// for its name.
    pub fn fill_placeholders<F: Fn(&str) -> String>(&self, haystack: &str, filler: F) -> (out:
        String)
        requires
            forall|name: &str| call_requires(filler, (name,)),
        ensures
            exists|values: Seq<String>| #[trigger]
                given_by(filler, used_names(self@, haystack@), values) && out@ == filled(
                    self@,
                    haystack@,
                    texts(values),
                ),
    {
        let names = self.parse_used_placeholders(haystack);
        let parts = self.parse_surroundings(haystack);
        let mut values: Vec<String> = Vec::new();
        let mut i: usize = 0;
        while i < names.len()
            invariant
                i <= names.len(),
                texts(names@) == used_names(self@, haystack@),
                forall|name: &str| call_requires(filler, (name,)),
                values@.len() == i,
                forall|k: int|
                    0 <= k < i ==> gives(
                        filler,
                        used_names(self@, haystack@)[k],
                        #[trigger] values@[k],
                    ),
            decreases names.len() - i,
        {
            let asked = names[i].as_str();
            let value = filler(asked);
            proof {
                assert(texts(names@)[i as int] == names@[i as int]@);
                assert(asked@ == used_names(self@, haystack@)[i as int] && call_ensures(
                    filler,
                    (asked,),
                    value,
                ));
            }
            values.push(value);
            i += 1;
        }
        proof {
            assert(given_by(filler, used_names(self@, haystack@), values@));
        }
        splice(&parts, &values)
    }

    /// `haystack` with each placeholder replaced by what `filler` gives
    /// for its name; where `filler` gives nothing for some of them, their
    /// names instead.
    pub fn partially_fill_placeholders<F: Fn(&str) -> Option<String>>(
        &self,
        haystack: &str,
        filler: F,
    ) -> (out: Result<String, Vec<String>>)
        requires
            forall|name: &str| call_requires(filler, (name,)),
        ensures
            exists|replies: Seq<Option<String>>| #[trigger]
                answered_by(filler, used_names(self@, haystack@), replies) && match out {
                    Ok(text) => all_given(option_texts(replies)) && text@ == filled(
                        self@,
                        haystack@,
                        given(option_texts(replies)),
                    ),
                    Err(failed) => !all_given(option_texts(replies)) && texts(failed@) == unfilled(
                        used_names(self@, haystack@),
                        option_texts(replies),
                        replies.len(),
                    ),
                },
    {
        let names = self.parse_used_placeholders(haystack);
        let parts = self.parse_surroundings(haystack);
        let mut values: Vec<String> = Vec::new();
        let mut failed: Vec<String> = Vec::new();
        let ghost mut replies: Seq<Option<String>> = Seq::empty();
        let ghost mut hole: int = -1;
        let mut i: usize = 0;
        while i < names.len()
            invariant
                i <= names.len(),
                texts(names@) == used_names(self@, haystack@),
                forall|name: &str| call_requires(filler, (name,)),
                values@.len() == i,
                replies.len() == i,
                forall|k: int|
                    0 <= k < i ==> answers(
                        filler,
                        used_names(self@, haystack@)[k],
                        #[trigger] replies[k],
                    ),
                texts(values@) == given(option_texts(replies)),
                texts(failed@) == unfilled(
                    used_names(self@, haystack@),
                    option_texts(replies),
                    i as nat,
                ),
                failed@.len() == 0 ==> all_given(option_texts(replies)),
                failed@.len() > 0 ==> 0 <= hole < i && replies[hole] is None,
            decreases names.len() - i,
        {
            let asked = names[i].as_str();
            let answer = filler(asked);
            let ghost before = replies;
            proof {
                assert(texts(names@)[i as int] == names@[i as int]@);
                assert(asked@ == used_names(self@, haystack@)[i as int] && call_ensures(
                    filler,
                    (asked,),
                    answer,
                ));
                replies = replies.push(answer);
                assert(option_texts(replies) =~= option_texts(before).push(option_text(answer)));
                lemma_unfilled_stable(
                    used_names(self@, haystack@),
                    option_texts(before),
                    option_texts(replies),
                    i as nat,
                );
            }
            match answer {
                Some(value) => {
                    proof {
                        assert(texts(values@.push(value)) =~= texts(values@).push(value@));
                        assert(given(option_texts(replies)) =~= given(option_texts(before)).push(
                            value@,
                        ));
                    }
                    values.push(value);
                },
                None => {
                    let empty = String::new();
                    proof {
                        hole = i as int;
                        assert(texts(values@.push(empty)) =~= texts(values@).push(empty@));
                        assert(given(option_texts(replies)) =~= given(option_texts(before)).push(
                            empty@,
                        ));
                        assert(texts(failed@.push(names@[i as int])) =~= texts(failed@).push(
                            names@[i as int]@,
                        ));
                    }
                    values.push(empty);
                    failed.push(names[i].clone());
                },
            }
            i += 1;
        }
        proof {
            assert(answered_by(filler, used_names(self@, haystack@), replies));
            if failed@.len() > 0 {
                assert(option_texts(replies)[hole] is None);
            }
        }
        if failed.len() == 0 {
            Ok(splice(&parts, &values))
        } else {
            Err(failed)
        }
    }
}

/// What was collected for the first `n` names does not depend on the
/// answers that follow.
pub proof fn lemma_unfilled_stable(
    names: Seq<Seq<char>>,
    first: Seq<Option<Seq<char>>>,
    second: Seq<Option<Seq<char>>>,
    n: nat,
)
    requires
        n <= first.len() <= second.len(),
        forall|i: int| 0 <= i < n ==> first[i] == second[i],
    ensures
        unfilled(names, first, n) == unfilled(names, second, n),
    decreases n,
{
    if n > 0 {
        lemma_unfilled_stable(names, first, second, (n - 1) as nat);
    }
}

/// What an optional string slice holds.
pub open spec fn option_str(s: Option<&str>) -> Option<Seq<char>> {
    match s {
        Some(s) => Some(s@),
        None => None,
    }
}

} // verus!
