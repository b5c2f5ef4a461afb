//! Turns a syntax tree into a regular expression and the directory of the
//! parameters it captures.
use vstd::prelude::*;
use crate::ast::{Key, KeyModel, Token, TokenModel, is_repeat, keys_model, tokens_model};
use crate::engine::{CompiledPattern, escape, escaped, regex_compiles};
use crate::error::{ErrorModel, PathError};
use crate::parser::{DEFAULT_DELIMITER, DEFAULT_PREFIXES, ParserOptions, parse_spec, parse_with_options};
use crate::text::{append_chars, append_str, chars_of, has_char, string_of};

verus! {

/// The settings of regular-expression generation.
#[derive(Clone, Debug)]
pub struct PathRegexOptions {
    /// The characters that separate path segments.
    pub delimiter: String,
    /// The characters that become a parameter's prefix when they stand
    /// right before it.
    pub prefixes: String,
    /// Whether the expression tells upper from lower case.
    pub sensitive: bool,
    /// Whether an optional trailing delimiter is refused.
    pub strict: bool,
    /// Whether the expression must match up to the end of the text.
    pub end: bool,
    /// Whether the expression must match from the start of the text.
    pub start: bool,
    /// Further characters that may end a match.
    pub ends_with: String,
}

impl PathRegexOptions {
    /// The default settings.
    pub fn new() -> (r: Self)
        ensures
            r.delimiter@ == DEFAULT_DELIMITER@,
            r.prefixes@ == DEFAULT_PREFIXES@,
            !r.sensitive,
            !r.strict,
            r.end,
            r.start,
            r.ends_with@ == Seq::<char>::empty(),
    {
        PathRegexOptions {
            delimiter: String::from_str(DEFAULT_DELIMITER),
            prefixes: String::from_str(DEFAULT_PREFIXES),
            sensitive: false,
            strict: false,
            end: true,
            start: true,
            ends_with: String::new(),
        }
    }

    /// A copy of these settings.
    pub fn duplicate(&self) -> (r: Self)
        ensures
            r == *self,
    {
        PathRegexOptions {
            delimiter: self.delimiter.clone(),
            prefixes: self.prefixes.clone(),
            sensitive: self.sensitive,
            strict: self.strict,
            end: self.end,
            start: self.start,
            ends_with: self.ends_with.clone(),
        }
    }

    /// The parser settings among these.
    pub fn parser_options(&self) -> (r: ParserOptions)
        ensures
            r.delimiter@ == self.delimiter@,
            r.prefixes@ == self.prefixes@,
    {
        ParserOptions { delimiter: self.delimiter.clone(), prefixes: self.prefixes.clone() }
    }
}

impl Default for PathRegexOptions {
    fn default() -> (r: Self)
        ensures
            r.delimiter@ == DEFAULT_DELIMITER@,
            r.prefixes@ == DEFAULT_PREFIXES@,
            !r.sensitive,
            !r.strict,
            r.end,
            r.start,
            r.ends_with@ == Seq::<char>::empty(),
    {
        PathRegexOptions::new()
    }
}

/// `(?:`
pub open spec fn nc() -> Seq<char> {
    seq!['(', '?', ':']
}

/// The regular expression for one token.
pub open spec fn route_piece(t: TokenModel) -> Seq<char> {
    match t {
        TokenModel::Static(s) => escaped(s),
        TokenModel::Key(k) => {
            let p = escaped(k.prefix);
            let s = escaped(k.suffix);
            let pat = k.pattern;
            let m = k.modifier;
            if pat.len() == 0 {
                nc() + p + s + seq![')'] + m
            } else if p.len() > 0 || s.len() > 0 {
                if is_repeat(m) {
                    nc() + p + seq!['('] + nc() + pat + seq![')'] + nc() + s + p + nc() + pat
                        + seq![')'] + seq![')'] + seq!['*'] + seq![')'] + s + seq![')'] + (if m[0] == '*' {
                        seq!['?']
                    } else {
                        Seq::empty()
                    })
                } else {
                    nc() + p + seq!['('] + pat + seq![')'] + s + seq![')'] + m
                }
            } else if is_repeat(m) {
                seq!['('] + nc() + pat + seq![')'] + m + seq![')']
            } else {
                seq!['('] + pat + seq![')'] + m
            }
        },
    }
}

/// The regular expressions of the tokens, in order.
pub open spec fn route_body(ts: Seq<TokenModel>) -> Seq<char>
    decreases ts.len(),
{
    if ts.len() == 0 {
        Seq::empty()
    } else {
        route_body(ts.drop_last()) + route_piece(ts.last())
    }
}

/// A class of the delimiter characters, or nothing when there are none.
pub open spec fn delimiter_class(d: Seq<char>) -> Seq<char> {
    if d.len() == 0 {
        Seq::empty()
    } else {
        seq!['['] + escaped(d) + seq![']']
    }
}

/// The end of the text, or one of the extra end characters.
pub open spec fn ends_with_alt(e: Seq<char>) -> Seq<char> {
    if e.len() == 0 {
        seq!['$']
    } else {
        seq!['['] + escaped(e) + seq![']'] + seq!['|'] + seq!['$']
    }
}

/// The name of the group that records a consumed trailing character.
pub open spec fn end_group_name() -> Seq<char> {
    seq!['E', 'N', 'D', '_', 'W', 'I', 'T', 'H', '_', 'D', 'E', 'L', 'I', 'M', 'I', 'T', 'E', 'R']
}

/// `(?P<` + the group name + `>`
pub open spec fn end_group_open() -> Seq<char> {
    seq!['(', '?', 'P', '<'] + end_group_name() + seq!['>']
}

/// Whether the tokens end with a literal whose last character is a delimiter
/// (an empty list counts as delimited).
pub open spec fn end_delimited(ts: Seq<TokenModel>, d: Seq<char>) -> bool {
    if ts.len() == 0 {
        true
    } else {
        match ts.last() {
            TokenModel::Static(s) => s.len() > 0 && d.contains(s.last()),
            TokenModel::Key(_) => false,
        }
    }
}

/// Whether the expression ends with the group that records a consumed
/// trailing character.
pub open spec fn has_end_group(ts: Seq<TokenModel>, end: bool, d: Seq<char>, e: Seq<char>) -> bool {
    if end {
        e.len() > 0
    } else {
        !end_delimited(ts, d)
    }
}

/// What follows the tokens' expressions.
pub open spec fn route_end(ts: Seq<TokenModel>, strict: bool, end: bool, d: Seq<char>, e: Seq<char>) -> Seq<char> {
    if end {
        (if !strict && d.len() > 0 {
            delimiter_class(d) + seq!['?']
        } else {
            Seq::empty()
        }) + (if e.len() == 0 {
            seq!['$']
        } else {
            end_group_open() + ends_with_alt(e) + seq![')']
        })
    } else {
        (if !strict {
            nc() + delimiter_class(d) + ends_with_alt(e) + seq![')'] + seq!['?']
        } else {
            Seq::empty()
        }) + (if !end_delimited(ts, d) {
            end_group_open() + delimiter_class(d) + seq!['|'] + ends_with_alt(e) + seq![')']
        } else {
            Seq::empty()
        })
    }
}

/// The whole regular expression for the tokens.
pub open spec fn route(
    ts: Seq<TokenModel>,
    start: bool,
    strict: bool,
    end: bool,
    d: Seq<char>,
    e: Seq<char>,
) -> Seq<char> {
    (if start {
        seq!['^']
    } else {
        Seq::empty()
    }) + route_body(ts) + route_end(ts, strict, end, d, e)
}

/// The keys that capture, in order: those with a non-empty pattern.
pub open spec fn capturing_keys(ts: Seq<TokenModel>) -> Seq<KeyModel>
    decreases ts.len(),
{
    if ts.len() == 0 {
        Seq::empty()
    } else {
        match ts.last() {
            TokenModel::Key(k) => if k.pattern.len() > 0 {
                capturing_keys(ts.drop_last()).push(k)
            } else {
                capturing_keys(ts.drop_last())
            },
            TokenModel::Static(_) => capturing_keys(ts.drop_last()),
        }
    }
}

/// The regular expression for the tokens under the given settings.
pub open spec fn route_for(ts: Seq<TokenModel>, o: PathRegexOptions) -> Seq<char> {
    route(ts, o.start, o.strict, o.end, o.delimiter@, o.ends_with@)
}

fn escaped_chars(s: &String) -> (r: Vec<char>)
    ensures
        r@ == escaped(s@),
{
    let e = escape(s.as_str());
    chars_of(e.as_str())
}

fn lit(c: char) -> (r: Vec<char>)
    ensures
        r@ == seq![c],
{
    let mut v: Vec<char> = Vec::new();
    v.push(c);
    assert(v@ =~= seq![c]);
    v
}

fn nc_chars() -> (r: Vec<char>)
    ensures
        r@ == nc(),
{
    let mut v: Vec<char> = Vec::new();
    v.push('(');
    v.push('?');
    v.push(':');
    assert(v@ =~= nc());
    v
}

fn cat(w: &mut Vec<char>, part: Vec<char>)
    ensures
        final(w)@ == old(w)@ + part@,
{
    append_chars(w, part.as_slice());
}

fn piece_chars(t: &Token) -> (r: Vec<char>)
    ensures
        r@ == route_piece(t@),
{
    match t {
        Token::Static(s) => escaped_chars(s),
        Token::Key(k) => {
            let p = escaped_chars(&k.prefix);
            let s = escaped_chars(&k.suffix);
            let pat = chars_of(k.pattern.as_str());
            let m = chars_of(k.modifier.as_str());
            if pat.len() == 0 {
                let mut w = nc_chars();
                cat(&mut w, p);
                cat(&mut w, s);
                cat(&mut w, lit(')'));
                cat(&mut w, m);
                w
            } else if p.len() > 0 || s.len() > 0 {
                if k.repeats() {
                    let mut w = nc_chars();
                    cat(&mut w, p.clone());
                    cat(&mut w, lit('('));
                    cat(&mut w, nc_chars());
                    cat(&mut w, pat.clone());
                    cat(&mut w, lit(')'));
                    cat(&mut w, nc_chars());
                    cat(&mut w, s.clone());
                    cat(&mut w, p);
                    cat(&mut w, nc_chars());
                    cat(&mut w, pat);
                    cat(&mut w, lit(')'));
                    cat(&mut w, lit(')'));
                    cat(&mut w, lit('*'));
                    cat(&mut w, lit(')'));
                    cat(&mut w, s);
                    cat(&mut w, lit(')'));
                    if m[0] == '*' {
                        cat(&mut w, lit('?'));
                    } else {
                        cat(&mut w, Vec::new());
                    }
                    w
                } else {
                    let mut w = nc_chars();
                    cat(&mut w, p);
                    cat(&mut w, lit('('));
                    cat(&mut w, pat);
                    cat(&mut w, lit(')'));
                    cat(&mut w, s);
                    cat(&mut w, lit(')'));
                    cat(&mut w, m);
                    w
                }
            } else if k.repeats() {
                let mut w = lit('(');
                cat(&mut w, nc_chars());
                cat(&mut w, pat);
                cat(&mut w, lit(')'));
                cat(&mut w, m);
                cat(&mut w, lit(')'));
                w
            } else {
                let mut w = lit('(');
                cat(&mut w, pat);
                cat(&mut w, lit(')'));
                cat(&mut w, m);
                w
            }
        },
    }
}

fn delimiter_class_chars(d: &String) -> (r: Vec<char>)
    ensures
        r@ == delimiter_class(d@),
{
    let dc = chars_of(d.as_str());
    if dc.len() == 0 {
        Vec::new()
    } else {
        let mut w = lit('[');
        cat(&mut w, escaped_chars(d));
        cat(&mut w, lit(']'));
        w
    }
}

fn ends_with_alt_chars(e: &String) -> (r: Vec<char>)
    ensures
        r@ == ends_with_alt(e@),
{
    let ec = chars_of(e.as_str());
    if ec.len() == 0 {
        lit('$')
    } else {
        let mut w = lit('[');
        cat(&mut w, escaped_chars(e));
        cat(&mut w, lit(']'));
        cat(&mut w, lit('|'));
        cat(&mut w, lit('$'));
        w
    }
}

fn end_group_open_chars() -> (r: Vec<char>)
    ensures
        r@ == end_group_open(),
{
    let mut v: Vec<char> = Vec::new();
    v.push('(');
    v.push('?');
    v.push('P');
    v.push('<');
    append_str(&mut v, "END_WITH_DELIMITER");
    proof {
        reveal_strlit("END_WITH_DELIMITER");
    }
    v.push('>');
    assert(v@ =~= end_group_open());
    v
}

fn route_end_chars(tokens: &Vec<Token>, options: &PathRegexOptions) -> (r: Vec<char>)
    ensures
        r@ == route_end(tokens_model(tokens@), options.strict, options.end, options.delimiter@, options.ends_with@),
{
    let d = chars_of(options.delimiter.as_str());
    let e = chars_of(options.ends_with.as_str());
    if options.end {
        let mut w = if !options.strict && d.len() > 0 {
            let mut x = delimiter_class_chars(&options.delimiter);
            cat(&mut x, lit('?'));
            x
        } else {
            Vec::new()
        };
        let tail = if e.len() == 0 {
            lit('$')
        } else {
            let mut x = end_group_open_chars();
            cat(&mut x, ends_with_alt_chars(&options.ends_with));
            cat(&mut x, lit(')'));
            x
        };
        cat(&mut w, tail);
        w
    } else {
        let mut w = if !options.strict {
            let mut x = nc_chars();
            cat(&mut x, delimiter_class_chars(&options.delimiter));
            cat(&mut x, ends_with_alt_chars(&options.ends_with));
            cat(&mut x, lit(')'));
            cat(&mut x, lit('?'));
            x
        } else {
            Vec::new()
        };
        let tail = if !ends_delimited(tokens, &options.delimiter) {
            let mut x = end_group_open_chars();
            cat(&mut x, delimiter_class_chars(&options.delimiter));
            cat(&mut x, lit('|'));
            cat(&mut x, ends_with_alt_chars(&options.ends_with));
            cat(&mut x, lit(')'));
            x
        } else {
            Vec::new()
        };
        cat(&mut w, tail);
        w
    }
}

/// Whether the tokens end with a literal whose last character is a delimiter.
pub fn ends_delimited(tokens: &Vec<Token>, delimiter: &String) -> (r: bool)
    ensures
        r == end_delimited(tokens_model(tokens@), delimiter@),
{
    let ghost m = tokens_model(tokens@);
    if tokens.len() == 0 {
        return true;
    }
    assert(m.last() == tokens@.last()@);
    match &tokens[tokens.len() - 1] {
        Token::Static(s) => {
            let cs = chars_of(s.as_str());
            if cs.len() == 0 {
                false
            } else {
                let d = chars_of(delimiter.as_str());
                has_char(d.as_slice(), cs[cs.len() - 1])
            }
        },
        Token::Key(_) => false,
    }
}

proof fn lemma_model_push(ts: Seq<Token>, i: int)
    requires
        0 <= i < ts.len(),
    ensures
        tokens_model(ts.take(i + 1)) == tokens_model(ts.take(i)).push(ts[i]@),
        tokens_model(ts.take(i + 1)).drop_last() == tokens_model(ts.take(i)),
        tokens_model(ts.take(i + 1)).last() == ts[i]@,
{
    assert(tokens_model(ts.take(i + 1)) =~= tokens_model(ts.take(i)).push(ts[i]@));
}

/// The regular expression for `tokens` under `options`, and the keys it
/// captures, in the order of their groups.
pub fn tokens_to_regex(tokens: &Vec<Token>, options: &PathRegexOptions) -> (r: (String, Vec<Key>))
    ensures
        r.0@ == route_for(tokens_model(tokens@), *options),
        keys_model(r.1@) == capturing_keys(tokens_model(tokens@)),
{
    let ghost m = tokens_model(tokens@);
    let mut v: Vec<char> = Vec::new();
    if options.start {
        v.push('^');
    }
    let ghost head = v@;
    let mut keys: Vec<Key> = Vec::new();
    let mut i: usize = 0;
    assert(tokens@.take(0) =~= Seq::<Token>::empty());
    assert(tokens_model(tokens@.take(0)) =~= Seq::<TokenModel>::empty());
    assert(keys_model(keys@) =~= Seq::<KeyModel>::empty());
    assert(v@ =~= head + route_body(Seq::empty()));
    while i < tokens.len()
        invariant
            i <= tokens@.len(),
            m == tokens_model(tokens@),
            head == (if options.start { seq!['^'] } else { Seq::<char>::empty() }),
            v@ == head + route_body(tokens_model(tokens@.take(i as int))),
            keys_model(keys@) == capturing_keys(tokens_model(tokens@.take(i as int))),
        decreases tokens@.len() - i,
    {
        proof {
            lemma_model_push(tokens@, i as int);
        }
        cat(&mut v, piece_chars(&tokens[i]));
        match &tokens[i] {
            Token::Key(k) => {
                if k.pattern.as_str().unicode_len() > 0 {
                    let ghost kb = keys_model(keys@);
                    keys.push(k.duplicate());
                    assert(keys_model(keys@) =~= kb.push(k@));
                }
            },
            Token::Static(_) => {},
        }
        i += 1;
    }
    assert(tokens@.take(tokens@.len() as int) =~= tokens@);
    cat(&mut v, route_end_chars(tokens, options));
    (string_of(v.as_slice()), keys)
}

} // verus!

verus! {

/// A compiled route pattern: its regular expression and the keys its
/// groups capture, in order.
pub struct PathRegex {
    re: CompiledPattern,
    keys: Vec<Key>,
    end_group: bool,
}

/// What compiling the tokens `ts` under `o` gives: the regular expression
/// of `route_for`, compiled case-insensitively unless `o.sensitive`, with
/// the capturing keys; or `RegexBuild` when the engine refuses it.
pub open spec fn compiled_from(r: Result<PathRegex, PathError>, ts: Seq<TokenModel>, o: PathRegexOptions) -> bool {
    &&& r.is_ok() == regex_compiles(route_for(ts, o), !o.sensitive)
    &&& r matches Err(e) ==> e@ == crate::error::ErrorModel::RegexBuild
    &&& r matches Ok(p) ==> {
        &&& p.source() == route_for(ts, o)
        &&& p.insensitive() == !o.sensitive
        &&& p.key_models() == capturing_keys(ts)
        &&& p.has_end_group() == has_end_group(ts, o.end, o.delimiter@, o.ends_with@)
    }
}

/// What compiling the pattern `s` under `o` gives: the parse error, or what
/// compiling its tokens gives.
pub open spec fn compiled_from_pattern(r: Result<PathRegex, PathError>, s: Seq<char>, o: PathRegexOptions) -> bool {
    match parse_spec(s, o.delimiter@, o.prefixes@) {
        Err(e) => r matches Err(x) && x@ == e,
        Ok(ts) => compiled_from(r, ts, o),
    }
}

impl PathRegex {
    /// The text of the regular expression.
    pub closed spec fn source(&self) -> Seq<char> {
        self.re.source_model()
    }

    /// Whether the expression ignores case.
    pub closed spec fn insensitive(&self) -> bool {
        self.re.insensitive()
    }

    /// The keys, in the order of their groups.
    pub closed spec fn key_models(&self) -> Seq<KeyModel> {
        keys_model(self.keys@)
    }

    /// The keys themselves, in the order of their groups.
    pub closed spec fn key_list(&self) -> Seq<Key> {
        self.keys@
    }

    /// Whether the expression ends with the group that records a consumed
    /// trailing character.
    pub closed spec fn has_end_group(&self) -> bool {
        self.end_group
    }

    /// Compiles a syntax tree.
    pub fn from_tokens(tokens: &Vec<Token>, options: &PathRegexOptions) -> (r: Result<PathRegex, PathError>)
        ensures
            compiled_from(r, tokens_model(tokens@), *options),
    {
        let (source, keys) = tokens_to_regex(tokens, options);
        let end_group = if options.end {
            chars_of(options.ends_with.as_str()).len() > 0
        } else {
            !ends_delimited(tokens, &options.delimiter)
        };
        match CompiledPattern::compile(source, !options.sensitive) {
            Ok(re) => Ok(PathRegex { re, keys, end_group }),
            Err(e) => Err(PathError::RegexBuild(e)),
        }
    }

    /// Parses and compiles a route pattern with the given settings.
    pub fn new_with_options(pattern: &str, options: PathRegexOptions) -> (r: Result<PathRegex, PathError>)
        ensures
            compiled_from_pattern(r, pattern@, options),
    {
        let tokens = match parse_with_options(pattern, &options.parser_options()) {
            Ok(ts) => ts,
            Err(e) => {
                return Err(e);
            },
        };
        PathRegex::from_tokens(&tokens, &options)
    }

    /// Parses and compiles a route pattern with the default settings.
    pub fn new(pattern: &str) -> (r: Result<PathRegex, PathError>)
        ensures
            forall|o: PathRegexOptions|
                o.delimiter@ == DEFAULT_DELIMITER@ && o.prefixes@ == DEFAULT_PREFIXES@ && !o.sensitive
                    && !o.strict && o.end && o.start && o.ends_with@ == Seq::<char>::empty()
                    ==> #[trigger] compiled_from_pattern(r, pattern@, o),
    {
        PathRegex::new_with_options(pattern, PathRegexOptions::new())
    }

    /// The keys, in the order of their groups.
    pub fn keys(&self) -> (r: &Vec<Key>)
        ensures
            keys_model(r@) == self.key_models(),
            r@ == self.key_list(),
    {
        &self.keys
    }

    /// The text of the regular expression.
    pub fn as_str(&self) -> (r: &str)
        ensures
            r@ == self.source(),
    {
        self.re.as_str()
    }

    /// Whether the expression ends with the group that records a consumed
    /// trailing character.
    pub fn ends_with_group(&self) -> (r: bool)
        ensures
            r == self.has_end_group(),
    {
        self.end_group
    }

    /// Whether the expression matches somewhere in `text`.
    pub fn is_match(&self, text: &str) -> (r: bool)
        ensures
            r == crate::engine::regex_is_match(self.source(), self.insensitive(), text@),
    {
        self.re.is_match(text)
    }

    /// The start offset and group texts of the first match in `text`.
    pub fn captures_at(&self, text: &str) -> (r: Option<(usize, Vec<Option<String>>)>)
        ensures
            match (r, crate::engine::regex_captures(self.source(), self.insensitive(), text@)) {
                (None, None) => true,
                (Some((start, groups)), Some((s, gs))) => start as nat == s && groups@.len()
                    == gs.len() && forall|i: int|
                    0 <= i < gs.len() ==> crate::engine::option_text(#[trigger] groups@[i]) == gs[i],
                _ => false,
            },
    {
        self.re.captures(text)
    }

    /// The group texts of the first match in `text`, the whole match first.
    pub fn captures(&self, text: &str) -> (r: Option<Vec<Option<String>>>)
        ensures
            match (r, crate::engine::regex_captures(self.source(), self.insensitive(), text@)) {
                (None, None) => true,
                (Some(groups), Some((s, gs))) => groups@.len() == gs.len() && forall|i: int|
                    0 <= i < gs.len() ==> crate::engine::option_text(#[trigger] groups@[i]) == gs[i],
                _ => false,
            },
    {
        match self.re.captures(text) {
            Some((_, groups)) => Some(groups),
            None => None,
        }
    }
}

/// Collects a route pattern and the settings to compile it with.
#[derive(Clone, Debug)]
pub struct PathRegexBuilder {
    pub source: String,
    pub options: PathRegexOptions,
}

impl PathRegexBuilder {
    /// A builder for `source` with the default settings.
    pub fn new(source: &str) -> (r: PathRegexBuilder)
        ensures
            r.source@ == source@,
            r.options.delimiter@ == DEFAULT_DELIMITER@,
            r.options.prefixes@ == DEFAULT_PREFIXES@,
            !r.options.sensitive,
            !r.options.strict,
            r.options.end,
            r.options.start,
            r.options.ends_with@ == Seq::<char>::empty(),
    {
        PathRegexBuilder { source: source.to_owned(), options: PathRegexOptions::new() }
    }

    /// A builder for `source` with the given settings.
    pub fn new_with_options(source: &str, options: PathRegexOptions) -> (r: PathRegexBuilder)
        ensures
            r.source@ == source@,
            r.options == options,
    {
        PathRegexBuilder { source: source.to_owned(), options }
    }

    /// Parses and compiles the pattern with the collected settings.
    pub fn build(&self) -> (r: Result<PathRegex, PathError>)
        ensures
            compiled_from_pattern(r, self.source@, self.options),
    {
        PathRegex::new_with_options(self.source.as_str(), self.options.duplicate())
    }

    /// Replaces all the settings.
    pub fn replace_options(&mut self, options: PathRegexOptions) -> (r: &mut Self)
        ensures
            r.source == old(self).source,
            r.options == options,
            *final(self) == *final(r),
    {
        self.options = options;
        self
    }

    /// Sets the characters that may serve as prefixes.
    pub fn set_prefixes(&mut self, prefixes: &str) -> (r: &mut Self)
        ensures
            r.options.prefixes@ == prefixes@,
            r.source == old(self).source,
            r.options == (PathRegexOptions { prefixes: r.options.prefixes, ..old(self).options }),
            *final(self) == *final(r),
    {
        self.options.prefixes = prefixes.to_owned();
        self
    }

    /// Sets whether case matters.
    pub fn set_sensitive(&mut self, yes: bool) -> (r: &mut Self)
        ensures
            r.source == old(self).source,
            r.options == (PathRegexOptions { sensitive: yes, ..old(self).options }),
            *final(self) == *final(r),
    {
        self.options.sensitive = yes;
        self
    }

    /// Sets whether an optional trailing delimiter is refused.
    pub fn set_strict(&mut self, yes: bool) -> (r: &mut Self)
        ensures
            r.source == old(self).source,
            r.options == (PathRegexOptions { strict: yes, ..old(self).options }),
            *final(self) == *final(r),
    {
        self.options.strict = yes;
        self
    }

    /// Sets whether the match must reach the end of the text.
    pub fn set_end(&mut self, yes: bool) -> (r: &mut Self)
        ensures
            r.source == old(self).source,
            r.options == (PathRegexOptions { end: yes, ..old(self).options }),
            *final(self) == *final(r),
    {
        self.options.end = yes;
        self
    }

    /// Sets whether the match must begin at the start of the text.
    pub fn set_start(&mut self, yes: bool) -> (r: &mut Self)
        ensures
            r.source == old(self).source,
            r.options == (PathRegexOptions { start: yes, ..old(self).options }),
            *final(self) == *final(r),
    {
        self.options.start = yes;
        self
    }

    /// Sets the delimiter characters.
    pub fn set_delimiter(&mut self, delimiter: &str) -> (r: &mut Self)
        ensures
            r.options.delimiter@ == delimiter@,
            r.source == old(self).source,
            r.options == (PathRegexOptions { delimiter: r.options.delimiter, ..old(self).options }),
            *final(self) == *final(r),
    {
        self.options.delimiter = delimiter.to_owned();
        self
    }

    /// Sets the extra characters that may end a match.
    pub fn set_ends_with(&mut self, ends_with: &str) -> (r: &mut Self)
        ensures
            r.options.ends_with@ == ends_with@,
            r.source == old(self).source,
            r.options == (PathRegexOptions { ends_with: r.options.ends_with, ..old(self).options }),
            *final(self) == *final(r),
    {
        self.options.ends_with = ends_with.to_owned();
        self
    }
}

} // verus!

verus! {

/// The first `>` at or after `j`.
pub open spec fn close_angle(s: Seq<char>, j: int) -> int
    decreases s.len() - j,
{
    if j < 0 || j >= s.len() || s[j] == '>' {
        j
    } else {
        close_angle(s, j + 1)
    }
}

/// A key with only a name.
pub open spec fn bare_key(name: Seq<char>) -> KeyModel {
    KeyModel { name, prefix: Seq::empty(), suffix: Seq::empty(), pattern: Seq::empty(), modifier: Seq::empty() }
}

/// Where the name of a `(?<name>` or `(?P<name>` group opening at `i` starts.
pub open spec fn group_name_start(s: Seq<char>, i: int) -> Option<int> {
    if i + 3 < s.len() && s[i + 1] == '?' && s[i + 2] == '<' {
        Some(i + 3)
    } else if i + 4 < s.len() && s[i + 1] == '?' && s[i + 2] == 'P' && s[i + 3] == '<' {
        Some(i + 4)
    } else {
        None
    }
}

/// The groups of a regular expression from `i` on, as keys: a named group
/// gives its name, a plain `(` the next position number, `(?` anything else
/// nothing; an escaped character is skipped.
pub open spec fn group_keys(s: Seq<char>, i: int, count: nat) -> Seq<KeyModel>
    decreases s.len() + 1 - i,
{
    if i < 0 || i >= s.len() {
        Seq::empty()
    } else if s[i] == '\\' {
        group_keys(s, i + 2, count)
    } else if s[i] == '(' {
        match group_name_start(s, i) {
            Some(st) => seq![bare_key(s.subrange(st, close_angle(s, st)))] + group_keys(s, i + 1, count),
            None => if i + 1 < s.len() && s[i + 1] == '?' {
                group_keys(s, i + 1, count)
            } else {
                seq![bare_key(crate::text::decimal(count))] + group_keys(s, i + 1, count + 1)
            },
        }
    } else {
        group_keys(s, i + 1, count)
    }
}

proof fn lemma_close_angle(s: Seq<char>, j: int)
    requires
        0 <= j <= s.len(),
    ensures
        j <= close_angle(s, j) <= s.len(),
    decreases s.len() - j,
{
    if j < s.len() && s[j] != '>' {
        lemma_close_angle(s, j + 1);
    }
}

fn close_angle_exec(s: &Vec<char>, j: usize) -> (r: usize)
    requires
        j <= s@.len(),
    ensures
        r as int == close_angle(s@, j as int),
        j <= r <= s@.len(),
{
    let mut k = j;
    while k < s.len() && s[k] != '>'
        invariant
            j <= k <= s@.len(),
            close_angle(s@, j as int) == close_angle(s@, k as int),
        decreases s@.len() - k,
    {
        k += 1;
    }
    k
}

fn bare_key_of(name: &Vec<char>) -> (r: Key)
    ensures
        r@ == bare_key(name@),
{
    Key {
        name: string_of(name.as_slice()),
        prefix: String::new(),
        suffix: String::new(),
        pattern: String::new(),
        modifier: String::new(),
    }
}

/// The keys of the groups of a regular expression's text.
pub fn scan_group_keys(s: &Vec<char>) -> (r: Vec<Key>)
    ensures
        keys_model(r@) == group_keys(s@, 0, 0),
{
    let mut out: Vec<Key> = Vec::new();
    let mut i: usize = 0;
    let mut count: usize = 0;
    assert(keys_model(out@) + group_keys(s@, 0, 0) =~= group_keys(s@, 0, 0));
    while i < s.len()
        invariant
            i <= s@.len() + 1,
            count <= i,
            keys_model(out@) + group_keys(s@, i as int, count as nat) == group_keys(s@, 0, 0),
        decreases s@.len() + 1 - i,
    {
        let ghost before = keys_model(out@);
        let ghost (i0, c0) = (i as int, count as nat);
        let n = s.len();
        if s[i] == '\\' {
            if n - i > 1 {
                i += 2;
            } else {
                i = n;
                assert(group_keys(s@, i0 + 2, c0) == Seq::<KeyModel>::empty());
            }
            assert(group_keys(s@, i0, c0) == group_keys(s@, i as int, count as nat));
        } else if s[i] == '(' {
            let start = if n - i > 3 && s[i + 1] == '?' && s[i + 2] == '<' {
                Some(i + 3)
            } else if n - i > 4 && s[i + 1] == '?' && s[i + 2] == 'P' && s[i + 3] == '<' {
                Some(i + 4)
            } else {
                None
            };
            match start {
                Some(st) => {
                    let e = close_angle_exec(s, st);
                    let mut name: Vec<char> = Vec::new();
                    let mut k = st;
                    while k < e
                        invariant
                            st <= k <= e <= s@.len(),
                            name@ == s@.subrange(st as int, k as int),
                        decreases e - k,
                    {
                        name.push(s[k]);
                        k += 1;
                        assert(name@ =~= s@.subrange(st as int, k as int));
                    }
                    out.push(bare_key_of(&name));
                    assert(keys_model(out@) =~= before.push(bare_key(name@)));
                    assert(keys_model(out@) + group_keys(s@, i + 1, count as nat) =~= before + group_keys(s@, i0, c0));
                },
                None => {
                    if n - i > 1 && s[i + 1] == '?' {
                        assert(group_keys(s@, i0, c0) == group_keys(s@, i0 + 1, c0));
                    } else {
                        let mut name: Vec<char> = Vec::new();
                        crate::text::push_decimal(&mut name, count);
                        assert(name@ =~= crate::text::decimal(count as nat));
                        out.push(bare_key_of(&name));
                        assert(keys_model(out@) =~= before.push(bare_key(name@)));
                        count += 1;
                        assert(keys_model(out@) + group_keys(s@, i + 1, count as nat) =~= before + group_keys(s@, i0, c0));
                    }
                },
            }
            i += 1;
        } else {
            i += 1;
            assert(group_keys(s@, i0, c0) == group_keys(s@, i as int, count as nat));
        }
    }
    assert(group_keys(s@, i as int, count as nat) == Seq::<KeyModel>::empty());
    assert(keys_model(out@) =~= keys_model(out@) + Seq::<KeyModel>::empty());
    out
}

impl PathRegex {
    /// Compiles a regular expression given as text, case-sensitively; its
    /// keys are read from its groups.
    pub fn from_source(source: &str) -> (r: Result<PathRegex, PathError>)
        ensures
            r.is_ok() == regex_compiles(source@, false),
            r matches Ok(p) ==> p.source() == source@ && !p.insensitive() && p.key_models() == group_keys(source@, 0, 0) && !p.has_end_group(),
            r matches Err(e) ==> e@ == crate::error::ErrorModel::RegexBuild,
    {
        let cs = chars_of(source);
        let keys = scan_group_keys(&cs);
        match CompiledPattern::compile(source.to_owned(), false) {
            Ok(re) => Ok(PathRegex { re, keys, end_group: false }),
            Err(e) => Err(PathError::RegexBuild(e)),
        }
    }
}

} // verus!

verus! {

/// The characters of each string.
pub open spec fn strings_model(v: Seq<String>) -> Seq<Seq<char>> {
    v.map_values(|s: String| s@)
}

/// The expressions of the patterns joined by `|`, with their keys in
/// order, or the first parse error.
pub open spec fn alternatives(ps: Seq<Seq<char>>, o: PathRegexOptions) -> Result<(Seq<char>, Seq<KeyModel>), ErrorModel>
    decreases ps.len(),
{
    if ps.len() == 0 {
        Ok((Seq::empty(), Seq::empty()))
    } else {
        match alternatives(ps.drop_last(), o) {
            Err(e) => Err(e),
            Ok((src, keys)) => match parse_spec(ps.last(), o.delimiter@, o.prefixes@) {
                Err(e) => Err(e),
                Ok(ts) => Ok((
                    if ps.len() == 1 {
                        route_for(ts, o)
                    } else {
                        src + seq!['|'] + route_for(ts, o)
                    },
                    keys + capturing_keys(ts),
                )),
            },
        }
    }
}

impl PathRegex {
    /// Compiles several patterns into one expression that matches any of
    /// them, `(?:` + their expressions joined by `|` + `)`, with all their
    /// keys in order. The joined expression records no end group.
    pub fn from_patterns_with_options(patterns: &Vec<String>, options: &PathRegexOptions) -> (r: Result<PathRegex, PathError>)
        ensures
            match alternatives(strings_model(patterns@), *options) {
                Err(e) => r matches Err(x) && x@ == e,
                Ok((src, keys)) => {
                    &&& r.is_ok() == regex_compiles(nc() + src + seq![')'], !options.sensitive)
                    &&& r matches Err(x) ==> x@ == ErrorModel::RegexBuild
                    &&& r matches Ok(p) ==> p.source() == nc() + src + seq![')'] && p.insensitive()
                        == !options.sensitive && p.key_models() == keys && !p.has_end_group()
                },
            },
    {
        let ghost pm = strings_model(patterns@);
        let po = options.parser_options();
        let mut src: Vec<char> = Vec::new();
        let mut keys: Vec<Key> = Vec::new();
        let mut i: usize = 0;
        assert(pm.take(0) =~= Seq::<Seq<char>>::empty());
        assert(keys_model(keys@) =~= Seq::<KeyModel>::empty());
        while i < patterns.len()
            invariant
                i <= patterns@.len(),
                pm == strings_model(patterns@),
                po.delimiter@ == options.delimiter@,
                po.prefixes@ == options.prefixes@,
                alternatives(pm.take(i as int), *options) == Ok::<(Seq<char>, Seq<KeyModel>), ErrorModel>((src@, keys_model(keys@))),
            decreases patterns@.len() - i,
        {
            assert(pm.take(i + 1).drop_last() =~= pm.take(i as int));
            assert(pm.take(i + 1).last() == patterns@[i as int]@);
            let tokens = match parse_with_options(patterns[i].as_str(), &po) {
                Ok(ts) => ts,
                Err(e) => {
                    proof {
                        lemma_alternatives_error(pm, i as int, *options);
                    }
                    return Err(e);
                },
            };
            let (part, part_keys) = tokens_to_regex(&tokens, options);
            let ghost old_src = src@;
            if i > 0 {
                src.push('|');
            }
            let pc = chars_of(part.as_str());
            append_chars(&mut src, pc.as_slice());
            let ghost kb = keys_model(keys@);
            let mut j: usize = 0;
            while j < part_keys.len()
                invariant
                    j <= part_keys@.len(),
                    keys_model(keys@) == kb + keys_model(part_keys@).take(j as int),
                decreases part_keys@.len() - j,
            {
                let ghost kk = keys_model(keys@);
                keys.push(part_keys[j].duplicate());
                assert(keys_model(keys@) =~= kk.push(part_keys@[j as int]@));
                assert(keys_model(part_keys@).take(j + 1) =~= keys_model(part_keys@).take(j as int).push(part_keys@[j as int]@));
                j += 1;
            }
            assert(keys_model(part_keys@).take(part_keys@.len() as int) =~= keys_model(part_keys@));
            proof {
                let ts = tokens_model(tokens@);
                assert(parse_spec(pm.take(i + 1).last(), options.delimiter@, options.prefixes@) == Ok::<Seq<TokenModel>, ErrorModel>(ts));
                if i == 0 {
                    assert(src@ =~= route_for(ts, *options));
                } else {
                    assert(src@ =~= old_src + seq!['|'] + route_for(ts, *options));
                }
            }
            i += 1;
        }
        assert(pm.take(patterns@.len() as int) =~= pm);
        let mut full: Vec<char> = Vec::new();
        full.push('(');
        full.push('?');
        full.push(':');
        append_chars(&mut full, src.as_slice());
        full.push(')');
        assert(full@ =~= nc() + src@ + seq![')']);
        match CompiledPattern::compile(string_of(full.as_slice()), !options.sensitive) {
            Ok(re) => Ok(PathRegex { re, keys, end_group: false }),
            Err(e) => Err(PathError::RegexBuild(e)),
        }
    }

    /// Compiles several patterns, with the default settings, into one
    /// expression that matches any of them.
    pub fn from_patterns(patterns: &Vec<String>) -> (r: Result<PathRegex, PathError>)
        ensures
            forall|o: PathRegexOptions|
                o.delimiter@ == DEFAULT_DELIMITER@ && o.prefixes@ == DEFAULT_PREFIXES@ && !o.sensitive
                    && !o.strict && o.end && o.start && o.ends_with@ == Seq::<char>::empty()
                    ==> match #[trigger] alternatives(strings_model(patterns@), o) {
                    Err(e) => r matches Err(x) && x@ == e,
                    Ok((src, keys)) => {
                        &&& r.is_ok() == regex_compiles(nc() + src + seq![')'], true)
                        &&& r matches Ok(p) ==> p.source() == nc() + src + seq![')'] && p.key_models() == keys
                    },
                },
    {
        let o = PathRegexOptions::new();
        let r = PathRegex::from_patterns_with_options(patterns, &o);
        proof {
            assert forall|o2: PathRegexOptions|
                o2.delimiter@ == DEFAULT_DELIMITER@ && o2.prefixes@ == DEFAULT_PREFIXES@ && !o2.sensitive
                    && !o2.strict && o2.end && o2.start && o2.ends_with@ == Seq::<char>::empty()
                implies alternatives(strings_model(patterns@), o2) == alternatives(strings_model(patterns@), o) by {
                lemma_alternatives_same(strings_model(patterns@), o, o2);
            }
        }
        r
    }
}

proof fn lemma_alternatives_error(ps: Seq<Seq<char>>, i: int, o: PathRegexOptions)
    requires
        0 <= i < ps.len(),
        alternatives(ps.take(i), o) is Ok,
        parse_spec(ps[i], o.delimiter@, o.prefixes@) is Err,
    ensures
        alternatives(ps, o) == Err::<(Seq<char>, Seq<KeyModel>), ErrorModel>(parse_spec(ps[i], o.delimiter@, o.prefixes@)->Err_0),
    decreases ps.len() - i,
{
    assert(ps.take(i + 1).drop_last() =~= ps.take(i));
    if i + 1 < ps.len() {
        lemma_alternatives_err_extends(ps, i + 1, o);
    } else {
        assert(ps.take(i + 1) =~= ps);
    }
}

proof fn lemma_alternatives_err_extends(ps: Seq<Seq<char>>, j: int, o: PathRegexOptions)
    requires
        0 < j <= ps.len(),
        alternatives(ps.take(j), o) is Err,
    ensures
        alternatives(ps, o) == alternatives(ps.take(j), o),
    decreases ps.len() - j,
{
    if j < ps.len() {
        assert(ps.take(j + 1).drop_last() =~= ps.take(j));
        lemma_alternatives_err_extends(ps, j + 1, o);
    } else {
        assert(ps.take(j) =~= ps);
    }
}

proof fn lemma_alternatives_same(ps: Seq<Seq<char>>, a: PathRegexOptions, b: PathRegexOptions)
    requires
        a.delimiter@ == b.delimiter@,
        a.prefixes@ == b.prefixes@,
        a.strict == b.strict,
        a.end == b.end,
        a.start == b.start,
        a.ends_with@ == b.ends_with@,
    ensures
        alternatives(ps, a) == alternatives(ps, b),
    decreases ps.len(),
{
    if ps.len() > 0 {
        lemma_alternatives_same(ps.drop_last(), a, b);
    }
}

} // verus!

verus! {

/// Whether `b` is a text that `encode` may give for the text `a`.
pub open spec fn encodes_to<F: Fn(&String) -> String>(encode: F, a: Seq<char>, b: Seq<char>) -> bool {
    exists|x: String, y: String| x@ == a && y@ == b && #[trigger] encode.ensures((&x,), y)
}

/// Whether the token `b` is `a` with its literal text, or its prefix and
/// suffix, passed through `encode`.
pub open spec fn encoded_token<F: Fn(&String) -> String>(encode: F, a: TokenModel, b: TokenModel) -> bool {
    match (a, b) {
        (TokenModel::Static(x), TokenModel::Static(y)) => encodes_to(encode, x, y),
        (TokenModel::Key(k), TokenModel::Key(j)) => j.name == k.name && j.pattern == k.pattern
            && j.modifier == k.modifier && encodes_to(encode, k.prefix, j.prefix) && encodes_to(
            encode,
            k.suffix,
            j.suffix,
        ),
        _ => false,
    }
}

fn encode_text<F: Fn(&String) -> String>(s: &String, encode: &F) -> (r: String)
    requires
        forall|x: &String| encode.requires((x,)),
    ensures
        encodes_to(*encode, s@, r@),
{
    let y = encode(s);
    assert(encode.ensures((s,), y));
    y
}

/// The tokens with their literal text, and each key's prefix and suffix,
/// passed through `encode`.
pub fn encode_tokens<F: Fn(&String) -> String>(tokens: &Vec<Token>, encode: &F) -> (r: Vec<Token>)
    requires
        forall|x: &String| encode.requires((x,)),
    ensures
        r@.len() == tokens@.len(),
        forall|i: int| 0 <= i < tokens@.len() ==> #[trigger] encoded_token(*encode, tokens@[i]@, r@[i]@),
{
    let mut out: Vec<Token> = Vec::new();
    let mut i: usize = 0;
    while i < tokens.len()
        invariant
            i <= tokens@.len(),
            out@.len() == i,
            forall|x: &String| encode.requires((x,)),
            forall|q: int| 0 <= q < i ==> #[trigger] encoded_token(*encode, tokens@[q]@, out@[q]@),
        decreases tokens@.len() - i,
    {
        let t = match &tokens[i] {
            Token::Static(s) => Token::Static(encode_text(s, encode)),
            Token::Key(k) => Token::Key(Key {
                name: k.name.clone(),
                prefix: encode_text(&k.prefix, encode),
                suffix: encode_text(&k.suffix, encode),
                pattern: k.pattern.clone(),
                modifier: k.modifier.clone(),
            }),
        };
        out.push(t);
        i += 1;
    }
    out
}

impl PathRegex {
    /// Compiles the expression of `encoded` (the tokens with their text
    /// already encoded) with the keys of `tokens` as the directory.
    pub fn from_encoded_tokens(tokens: &Vec<Token>, encoded: &Vec<Token>, options: &PathRegexOptions) -> (r: Result<PathRegex, PathError>)
        ensures
            r.is_ok() == regex_compiles(route_for(tokens_model(encoded@), *options), !options.sensitive),
            r matches Err(e) ==> e@ == ErrorModel::RegexBuild,
            r matches Ok(p) ==> {
                &&& p.source() == route_for(tokens_model(encoded@), *options)
                &&& p.insensitive() == !options.sensitive
                &&& p.key_models() == capturing_keys(tokens_model(tokens@))
                &&& p.has_end_group() == has_end_group(tokens_model(encoded@), options.end, options.delimiter@, options.ends_with@)
            },
    {
        let (source, _) = tokens_to_regex(encoded, options);
        let (_, keys) = tokens_to_regex(tokens, options);
        let end_group = if options.end {
            chars_of(options.ends_with.as_str()).len() > 0
        } else {
            !ends_delimited(encoded, &options.delimiter)
        };
        match CompiledPattern::compile(source, !options.sensitive) {
            Ok(re) => Ok(PathRegex { re, keys, end_group }),
            Err(e) => Err(PathError::RegexBuild(e)),
        }
    }
}

} // verus!
