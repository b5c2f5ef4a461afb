//! The regular-expression engine, as this library uses it: escaping,
//! compiling, testing and capturing, each behind a stated contract.
use vstd::prelude::*;

verus! {

#[verifier::external_type_specification]
#[verifier::external_body]
pub struct ExRegex(regex::Regex);

#[verifier::external_type_specification]
#[verifier::external_body]
pub struct ExRegexError(regex::Error);

/// The characters that have a meaning of their own in a regular expression.
pub open spec fn is_meta(c: char) -> bool {
    c == '\\' || c == '.' || c == '+' || c == '*' || c == '?' || c == '(' || c == ')' || c == '|'
        || c == '[' || c == ']' || c == '{' || c == '}' || c == '^' || c == '$' || c == '#'
        || c == '&' || c == '-' || c == '~'
}

/// `s` with a backslash put before each meta character.
pub open spec fn escaped(s: Seq<char>) -> Seq<char>
    decreases s.len(),
{
    if s.len() == 0 {
        Seq::empty()
    } else if is_meta(s.last()) {
        escaped(s.drop_last()).push('\\').push(s.last())
    } else {
        escaped(s.drop_last()).push(s.last())
    }
}

/// Whether `pattern` compiles, case-insensitively when asked, within the
/// engine's default limits.
pub uninterp spec fn regex_compiles(pattern: Seq<char>, case_insensitive: bool) -> bool;

/// Whether the compiled `pattern` finds a match anywhere in `text`.
pub uninterp spec fn regex_is_match(pattern: Seq<char>, case_insensitive: bool, text: Seq<char>) -> bool;

/// The leftmost-first match of the compiled `pattern` in `text`: its start
/// offset and the text of every group (the whole match first), or `None`.
pub uninterp spec fn regex_captures(
    pattern: Seq<char>,
    case_insensitive: bool,
    text: Seq<char>,
) -> Option<(nat, Seq<Option<Seq<char>>>)>;

/// Relies on `regex::escape`: a backslash goes before each meta character
/// of `regex_syntax::is_meta_character`, every other character is kept.
#[verifier::external_body]
pub(crate) fn escape(text: &str) -> (r: String)
    ensures
        r@ == escaped(text@),
{
    regex::escape(text)
}

/// Relies on `regex::RegexBuilder` (`new`, `case_insensitive`, `build`):
/// the pattern compiles or the engine's error comes back.
#[verifier::external_body]
fn build_regex(pattern: &str, case_insensitive: bool) -> (r: Result<regex::Regex, regex::Error>)
    ensures
        r.is_ok() == regex_compiles(pattern@, case_insensitive),
{
    regex::RegexBuilder::new(pattern).case_insensitive(case_insensitive).build()
}

/// A compiled regular expression together with the text and flag it was
/// compiled from. The fields are private: `compile` is the one way to make
/// one, so `regex` always comes from `source` and `case_insensitive`.
pub struct CompiledPattern {
    regex: regex::Regex,
    source: String,
    case_insensitive: bool,
}

impl CompiledPattern {
    /// The text this expression was compiled from.
    pub closed spec fn source_model(&self) -> Seq<char> {
        self.source@
    }

    /// Whether this expression ignores case.
    pub closed spec fn insensitive(&self) -> bool {
        self.case_insensitive
    }

    /// Compiles `source`; fails exactly when the engine refuses it.
    pub fn compile(source: String, case_insensitive: bool) -> (r: Result<CompiledPattern, regex::Error>)
        ensures
            r.is_ok() == regex_compiles(source@, case_insensitive),
            r matches Ok(p) ==> p.source_model() == source@ && p.insensitive() == case_insensitive,
    {
        match build_regex(source.as_str(), case_insensitive) {
            Ok(regex) => Ok(CompiledPattern { regex, source, case_insensitive }),
            Err(e) => Err(e),
        }
    }

    /// The text this expression was compiled from.
    pub fn as_str(&self) -> (r: &str)
        ensures
            r@ == self.source_model(),
    {
        self.source.as_str()
    }

    /// Relies on `regex::Regex::is_match`, which depends only on the
    /// compiled text, its flag and `text`.
    #[verifier::external_body]
    pub(crate) fn is_match(&self, text: &str) -> (r: bool)
        ensures
            r == regex_is_match(self.source_model(), self.insensitive(), text@),
    {
        self.regex.is_match(text)
    }

    /// Relies on `regex::Regex::captures`, which depends only on the
    /// compiled text, its flag and `text`: the start offset of the match and
    /// the text of each group, the whole match first.
    #[verifier::external_body]
    pub(crate) fn captures(&self, text: &str) -> (r: Option<(usize, Vec<Option<String>>)>)
        ensures
            match (r, regex_captures(self.source_model(), self.insensitive(), text@)) {
                (None, None) => true,
                (Some((start, groups)), Some((s, gs))) => start as nat == s && groups@.len()
                    == gs.len() && forall|i: int|
                    0 <= i < gs.len() ==> option_text(#[trigger] groups@[i]) == gs[i],
                _ => false,
            },
    {
        self.regex.captures(text).map(
            |c|
                (
                    c.get(0).map_or(0, |m| m.start()),
                    c.iter().map(|m| m.map(|m| m.as_str().to_string())).collect(),
                ),
        )
    }
}

/// The characters of an optional string.
pub open spec fn option_text(o: Option<String>) -> Option<Seq<char>> {
    match o {
        Some(s) => Some(s@),
        None => None,
    }
}

} // verus!
