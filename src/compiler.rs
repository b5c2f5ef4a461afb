//! Renders a concrete path from a syntax tree and parameter values.
use vstd::prelude::*;
use crate::ast::{Key, KeyModel, Token, TokenModel, is_optional, is_repeat, tokens_model};
use crate::engine::{CompiledPattern, regex_compiles, regex_is_match};
use crate::error::{ErrorModel, PathError};
use crate::matcher::{ParamValue, ValueModel, map_value, mapped_value, params_model, texts_model};
use crate::parser::{DEFAULT_DELIMITER, DEFAULT_PREFIXES, ParserOptions, parse_spec, parse_with_options};
use crate::re::nc;
use crate::text::{append_str, string_of};

verus! {

/// The settings of rendering.
#[derive(Clone, Debug)]
pub struct CompilerOptions {
    /// The characters that separate path segments.
    pub delimiter: String,
    /// The characters that become a parameter's prefix when they stand
    /// right before it.
    pub prefixes: String,
    /// Whether values are checked with case taken into account.
    pub sensitive: bool,
    /// Whether each value must match its parameter's pattern.
    pub validate: bool,
}

impl CompilerOptions {
    /// The default settings.
    pub fn new() -> (r: Self)
        ensures
            r.delimiter@ == DEFAULT_DELIMITER@,
            r.prefixes@ == DEFAULT_PREFIXES@,
            !r.sensitive,
            r.validate,
    {
        CompilerOptions {
            delimiter: String::from_str(DEFAULT_DELIMITER),
            prefixes: String::from_str(DEFAULT_PREFIXES),
            sensitive: false,
            validate: true,
        }
    }

    /// A copy of these settings.
    pub fn duplicate(&self) -> (r: Self)
        ensures
            r == *self,
    {
        CompilerOptions {
            delimiter: self.delimiter.clone(),
            prefixes: self.prefixes.clone(),
            sensitive: self.sensitive,
            validate: self.validate,
        }
    }
}

impl Default for CompilerOptions {
    fn default() -> (r: Self)
        ensures
            r.delimiter@ == DEFAULT_DELIMITER@,
            r.prefixes@ == DEFAULT_PREFIXES@,
            !r.sensitive,
            r.validate,
    {
        CompilerOptions::new()
    }
}

/// `^(?:` + pattern + `)$`: the pattern over a whole value.
pub open spec fn anchored(pattern: Seq<char>) -> Seq<char> {
    seq!['^'] + nc() + pattern + seq![')'] + seq!['$']
}

/// The value given for `name`: the first entry with that name.
pub open spec fn lookup(values: Seq<(Seq<char>, ValueModel)>, name: Seq<char>) -> Option<ValueModel>
    decreases values.len(),
{
    if values.len() == 0 {
        None
    } else if values[0].0 == name {
        Some(values[0].1)
    } else {
        lookup(values.drop_first(), name)
    }
}

/// Whether `t` is accepted as a value of `k`.
pub open spec fn accepts(k: KeyModel, t: Seq<char>, validate: bool, ci: bool) -> bool {
    !validate || regex_is_match(anchored(k.pattern), ci, t)
}

/// `t` wrapped in the key's prefix and suffix.
pub open spec fn wrapped(k: KeyModel, t: Seq<char>) -> Seq<char> {
    k.prefix + t + k.suffix
}

/// The items of a repeated value from `i` on, each wrapped, or the
/// mismatch of the first item that is not accepted.
pub open spec fn render_items(k: KeyModel, items: Seq<Seq<char>>, i: int, validate: bool, ci: bool) -> Result<
    Seq<char>,
    ErrorModel,
>
    decreases items.len() - i,
{
    if i < 0 || i >= items.len() {
        Ok(Seq::empty())
    } else if !accepts(k, items[i], validate, ci) {
        Err(ErrorModel::PatternMismatch { name: k.name, pattern: k.pattern, got: items[i] })
    } else {
        match render_items(k, items, i + 1, validate, ci) {
            Ok(rest) => Ok(wrapped(k, items[i]) + rest),
            Err(e) => Err(e),
        }
    }
}

/// What a repeating parameter expects, as error messages name it.
pub const ARRAY_TYPE_NAME: &'static str = "an array containing only strings or numbers";

/// What any other parameter expects, as error messages name it.
pub const ITEM_TYPE_NAME: &'static str = "a string or a number";

/// What one token contributes to the path.
pub open spec fn render_token(t: TokenModel, values: Seq<(Seq<char>, ValueModel)>, validate: bool, ci: bool) -> Result<
    Seq<char>,
    ErrorModel,
> {
    match t {
        TokenModel::Static(s) => Ok(s),
        TokenModel::Key(k) => {
            let repeat = is_repeat(k.modifier);
            let optional = is_optional(k.modifier);
            match lookup(values, k.name) {
                Some(ValueModel::List(items)) => if !repeat {
                    Err(ErrorModel::UnexpectedArray { name: k.name })
                } else if items.len() == 0 {
                    if optional {
                        Ok(Seq::empty())
                    } else {
                        Err(ErrorModel::EmptyRepeat { name: k.name })
                    }
                } else {
                    render_items(k, items, 0, validate, ci)
                },
                Some(ValueModel::Text(t)) => if repeat {
                    Err(ErrorModel::ExpectedArray { name: k.name })
                } else if !accepts(k, t, validate, ci) {
                    Err(ErrorModel::PatternMismatch { name: k.name, pattern: k.pattern, got: t })
                } else {
                    Ok(wrapped(k, t))
                },
                None => if optional {
                    Ok(Seq::empty())
                } else {
                    Err(ErrorModel::MissingRequiredValue {
                        name: k.name,
                        expected_type: if repeat { ARRAY_TYPE_NAME@ } else { ITEM_TYPE_NAME@ },
                    })
                },
            }
        },
    }
}

/// The path rendered from the tokens from `i` on, or the error of the
/// first token that fails.
pub open spec fn render_from(
    ts: Seq<TokenModel>,
    values: Seq<(Seq<char>, ValueModel)>,
    validate: bool,
    ci: bool,
    i: int,
) -> Result<Seq<char>, ErrorModel>
    decreases ts.len() - i,
{
    if i < 0 || i >= ts.len() {
        Ok(Seq::empty())
    } else {
        match render_token(ts[i], values, validate, ci) {
            Err(e) => Err(e),
            Ok(p) => match render_from(ts, values, validate, ci, i + 1) {
                Ok(rest) => Ok(p + rest),
                Err(e) => Err(e),
            },
        }
    }
}

/// The path rendered from all the tokens.
pub open spec fn render_spec(
    ts: Seq<TokenModel>,
    values: Seq<(Seq<char>, ValueModel)>,
    validate: bool,
    ci: bool,
) -> Result<Seq<char>, ErrorModel> {
    render_from(ts, values, validate, ci, 0)
}

/// The prefix of `r` put in front of what `rest` renders, or its error.
pub open spec fn after(pre: Seq<char>, rest: Result<Seq<char>, ErrorModel>) -> Result<Seq<char>, ErrorModel> {
    match rest {
        Ok(t) => Ok(pre + t),
        Err(e) => Err(e),
    }
}

/// The model of a rendering result.
pub open spec fn rendered_model(r: Result<String, PathError>) -> Result<Seq<char>, ErrorModel> {
    match r {
        Ok(s) => Ok(s@),
        Err(e) => Err(e@),
    }
}

/// Whether every key's anchored pattern compiles.
pub open spec fn validators_compile(ts: Seq<TokenModel>, ci: bool) -> bool {
    forall|i: int| 0 <= i < ts.len() ==> (#[trigger] ts[i] matches TokenModel::Key(k) ==> regex_compiles(anchored(k.pattern), ci))
}

/// The validator of each token: for a key, its anchored pattern compiled
/// with the given flag.
pub open spec fn validators_fit(vs: Seq<Option<CompiledPattern>>, ts: Seq<TokenModel>, ci: bool) -> bool {
    &&& vs.len() == ts.len()
    &&& forall|i: int| 0 <= i < ts.len() ==> (#[trigger] ts[i] matches TokenModel::Key(k) ==> vs[i] matches Some(p) && p.source_model() == anchored(k.pattern) && p.insensitive() == ci)
}

/// Renders paths from one syntax tree.
pub struct Compiler {
    tokens: Vec<Token>,
    validators: Vec<Option<CompiledPattern>>,
    options: CompilerOptions,
}

/// Whether two settings hold the same characters and flags.
pub open spec fn same_settings(a: CompilerOptions, b: CompilerOptions) -> bool {
    a.delimiter@ == b.delimiter@ && a.prefixes@ == b.prefixes@ && a.sensitive == b.sensitive
        && a.validate == b.validate
}

/// What building a compiler for the tokens `ts` under `o` gives: it
/// succeeds exactly when every key's anchored pattern compiles.
pub open spec fn built_from(r: Result<Compiler, PathError>, ts: Seq<TokenModel>, o: CompilerOptions) -> bool {
    &&& r.is_ok() == validators_compile(ts, !o.sensitive)
    &&& r matches Err(e) ==> e@ == ErrorModel::RegexBuild
    &&& r matches Ok(c) ==> c.token_models() == ts && same_settings(c.options(), o)
}

/// What building a compiler for the pattern `s` under `o` gives: the parse
/// error, or what building one for its tokens gives.
pub open spec fn built_from_pattern(r: Result<Compiler, PathError>, s: Seq<char>, o: CompilerOptions) -> bool {
    match parse_spec(s, o.delimiter@, o.prefixes@) {
        Err(e) => r matches Err(x) && x@ == e,
        Ok(ts) => built_from(r, ts, o),
    }
}

fn anchored_of(pattern: &String) -> (r: String)
    ensures
        r@ == anchored(pattern@),
{
    let mut v: Vec<char> = Vec::new();
    v.push('^');
    v.push('(');
    v.push('?');
    v.push(':');
    append_str(&mut v, pattern.as_str());
    v.push(')');
    v.push('$');
    assert(v@ =~= anchored(pattern@));
    string_of(v.as_slice())
}

fn lookup_exec<'a>(values: &'a Vec<(String, ParamValue)>, name: &String) -> (r: Option<&'a ParamValue>)
    ensures
        match (r, lookup(params_model(values@), name@)) {
            (None, None) => true,
            (Some(v), Some(m)) => v@ == m,
            _ => false,
        },
{
    let ghost pm = params_model(values@);
    let mut i: usize = 0;
    assert(pm.skip(0) =~= pm);
    while i < values.len()
        invariant
            i <= values@.len(),
            pm == params_model(values@),
            lookup(pm, name@) == lookup(pm.skip(i as int), name@),
        decreases values@.len() - i,
    {
        assert(pm.skip(i as int)[0] == pm[i as int]);
        assert(pm.skip(i as int).drop_first() =~= pm.skip(i + 1));
        if values[i].0 == *name {
            return Some(&values[i].1);
        }
        i += 1;
    }
    assert(pm.skip(i as int).len() == 0);
    None
}

impl Compiler {
    /// The tokens this compiler renders.
    pub closed spec fn token_models(&self) -> Seq<TokenModel> {
        tokens_model(self.tokens@)
    }

    /// The tokens themselves.
    pub closed spec fn token_list(&self) -> Seq<Token> {
        self.tokens@
    }

    /// The settings of this compiler.
    pub closed spec fn options(&self) -> CompilerOptions {
        self.options
    }

    /// Whether the validators belong to the tokens.
    pub closed spec fn wf(&self) -> bool {
        validators_fit(self.validators@, tokens_model(self.tokens@), !self.options.sensitive)
    }

    /// A compiler for a syntax tree; fails when a key's pattern does not
    /// compile.
    pub fn from_tokens(tokens: Vec<Token>, options: CompilerOptions) -> (r: Result<Compiler, PathError>)
        ensures
            built_from(r, tokens_model(tokens@), options),
            r matches Ok(c) ==> c.wf(),
    {
        let ghost tm = tokens_model(tokens@);
        let mut validators: Vec<Option<CompiledPattern>> = Vec::new();
        let mut i: usize = 0;
        while i < tokens.len()
            invariant
                i <= tokens@.len(),
                tm == tokens_model(tokens@),
                validators@.len() == i,
                validators_compile(tm.take(i as int), !options.sensitive),
                forall|j: int| 0 <= j < i ==> (#[trigger] tm[j] matches TokenModel::Key(k) ==> validators@[j] matches Some(p) && p.source_model() == anchored(k.pattern) && p.insensitive() == !options.sensitive),
            decreases tokens@.len() - i,
        {
            assert(tm[i as int] == tokens@[i as int]@);
            match &tokens[i] {
                Token::Static(_) => {
                    validators.push(None);
                },
                Token::Key(k) => {
                    match CompiledPattern::compile(anchored_of(&k.pattern), !options.sensitive) {
                        Ok(p) => {
                            validators.push(Some(p));
                        },
                        Err(e) => {
                            assert(!validators_compile(tm, !options.sensitive)) by {
                                assert(tm[i as int] matches TokenModel::Key(_));
                            }
                            return Err(PathError::RegexBuild(e));
                        },
                    }
                },
            }
            assert(forall|j: int| 0 <= j < i + 1 ==> #[trigger] tm.take(i + 1)[j] == tm[j]);
            i += 1;
        }
        assert(tm.take(tokens@.len() as int) =~= tm);
        Ok(Compiler { tokens, validators, options })
    }

    /// A compiler for a syntax tree with the default settings; fails when a
    /// key's pattern does not compile.
    pub fn from(tokens: Vec<Token>) -> (r: Result<Compiler, PathError>)
        ensures
            forall|o: CompilerOptions|
                o.delimiter@ == DEFAULT_DELIMITER@ && o.prefixes@ == DEFAULT_PREFIXES@ && !o.sensitive
                    && o.validate ==> #[trigger] built_from(r, tokens_model(tokens@), o),
            r matches Ok(c) ==> c.wf(),
    {
        let o = CompilerOptions::new();
        let ghost tm = tokens_model(tokens@);
        let r = Compiler::from_tokens(tokens, o);
        proof {
            assert forall|o2: CompilerOptions|
                o2.delimiter@ == DEFAULT_DELIMITER@ && o2.prefixes@ == DEFAULT_PREFIXES@ && !o2.sensitive
                    && o2.validate implies #[trigger] built_from(r, tm, o2) by {
                assert(o2.delimiter@ == o.delimiter@);
                assert(o2.prefixes@ == o.prefixes@);
            }
        }
        r
    }

    /// Parses `pattern` and builds a compiler for it.
    pub fn new_with_options(pattern: &str, options: CompilerOptions) -> (r: Result<Compiler, PathError>)
        ensures
            built_from_pattern(r, pattern@, options),
            r matches Ok(c) ==> c.wf(),
    {
        let po = ParserOptions { delimiter: options.delimiter.clone(), prefixes: options.prefixes.clone() };
        match parse_with_options(pattern, &po) {
            Ok(tokens) => Compiler::from_tokens(tokens, options),
            Err(e) => Err(e),
        }
    }

    /// Parses `pattern` and builds a compiler for it with the default settings.
    pub fn new(pattern: &str) -> (r: Result<Compiler, PathError>)
        ensures
            forall|o: CompilerOptions|
                o.delimiter@ == DEFAULT_DELIMITER@ && o.prefixes@ == DEFAULT_PREFIXES@ && !o.sensitive
                    && o.validate ==> #[trigger] built_from_pattern(r, pattern@, o),
            r matches Ok(c) ==> c.wf(),
    {
        let o = CompilerOptions::new();
        let r = Compiler::new_with_options(pattern, o);
        proof {
            assert forall|o2: CompilerOptions|
                o2.delimiter@ == DEFAULT_DELIMITER@ && o2.prefixes@ == DEFAULT_PREFIXES@ && !o2.sensitive
                    && o2.validate implies #[trigger] built_from_pattern(r, pattern@, o2) by {
                assert(o2.delimiter@ == o.delimiter@);
                assert(o2.prefixes@ == o.prefixes@);
            }
        }
        r
    }

    /// Whether `t` is accepted as a value of the key at `i`.
    fn accepts_exec(&self, i: usize, k: &Key, t: &String) -> (r: bool)
        requires
            self.wf(),
            i < self.tokens@.len(),
            self.token_models()[i as int] == TokenModel::Key(k@),
        ensures
            r == accepts(k@, t@, self.options().validate, !self.options().sensitive),
    {
        if !self.options.validate {
            return true;
        }
        assert(self.token_models()[i as int] matches TokenModel::Key(_));
        match &self.validators[i] {
            Some(p) => p.is_match(t.as_str()),
            None => true,
        }
    }

    /// Renders the items of a repeated value for the key at `i`.
    fn render_list(&self, i: usize, k: &Key, items: &Vec<String>, out: &mut Vec<char>) -> (r: Result<(), PathError>)
        requires
            self.wf(),
            i < self.tokens@.len(),
            self.token_models()[i as int] == TokenModel::Key(k@),
        ensures
            match render_items(k@, texts_model(items@), 0, self.options().validate, !self.options().sensitive) {
                Ok(t) => r is Ok && final(out)@ == old(out)@ + t,
                Err(e) => r matches Err(x) && x@ == e,
            },
    {
        let ghost im = texts_model(items@);
        let ghost validate = self.options().validate;
        let ghost ci = !self.options().sensitive;
        let ghost start = out@;
        let mut j: usize = 0;
        assert(out@ =~= start + Seq::<char>::empty());
        while j < items.len()
            invariant
                j <= items@.len(),
                im == texts_model(items@),
                self.wf(),
                i < self.tokens@.len(),
                self.token_models()[i as int] == TokenModel::Key(k@),
                validate == self.options().validate,
                ci == !self.options().sensitive,
                exists|done: Seq<char>| out@ == start + done && render_items(k@, im, 0, validate, ci) == after(done, render_items(k@, im, j as int, validate, ci)),
            decreases items@.len() - j,
        {
            let ghost done = choose|done: Seq<char>| out@ == start + done && render_items(k@, im, 0, validate, ci) == after(done, render_items(k@, im, j as int, validate, ci));
            assert(im[j as int] == items@[j as int]@);
            if !self.accepts_exec(i, k, &items[j]) {
                return Err(PathError::PatternMismatch {
                    name: k.name.clone(),
                    pattern: k.pattern.clone(),
                    got: items[j].clone(),
                });
            }
            let ghost before = out@;
            append_str(out, k.prefix.as_str());
            append_str(out, items[j].as_str());
            append_str(out, k.suffix.as_str());
            proof {
                let piece = wrapped(k@, im[j as int]);
                assert(out@ =~= start + (done + piece));
                match render_items(k@, im, j + 1, validate, ci) {
                    Ok(rest) => {
                        assert(done + (piece + rest) =~= (done + piece) + rest);
                    },
                    Err(_) => {},
                }
            }
            j += 1;
        }
        proof {
            let done = choose|done: Seq<char>| out@ == start + done && render_items(k@, im, 0, validate, ci) == after(done, render_items(k@, im, j as int, validate, ci));
            assert(done + Seq::<char>::empty() =~= done);
        }
        Ok(())
    }

    /// Renders the token at `i` into `out`.
    fn render_one(&self, i: usize, values: &Vec<(String, ParamValue)>, out: &mut Vec<char>) -> (r: Result<(), PathError>)
        requires
            self.wf(),
            i < self.tokens@.len(),
        ensures
            match render_token(self.token_models()[i as int], params_model(values@), self.options().validate, !self.options().sensitive) {
                Ok(t) => r is Ok && final(out)@ == old(out)@ + t,
                Err(e) => r matches Err(x) && x@ == e,
            },
    {
        assert(self.token_models()[i as int] == self.tokens@[i as int]@);
        match &self.tokens[i] {
            Token::Static(s) => {
                append_str(out, s.as_str());
                Ok(())
            },
            Token::Key(k) => {
                let repeat = k.repeats();
                let optional = k.optional();
                match lookup_exec(values, &k.name) {
                    Some(ParamValue::List(items)) => {
                        if !repeat {
                            return Err(PathError::UnexpectedArray { name: k.name.clone() });
                        }
                        if items.len() == 0 {
                            if optional {
                                assert(out@ =~= out@ + Seq::<char>::empty());
                                return Ok(());
                            }
                            return Err(PathError::EmptyRepeat { name: k.name.clone() });
                        }
                        self.render_list(i, k, items, out)
                    },
                    Some(ParamValue::Text(t)) => {
                        if repeat {
                            return Err(PathError::ExpectedArray { name: k.name.clone() });
                        }
                        if !self.accepts_exec(i, k, t) {
                            return Err(PathError::PatternMismatch {
                                name: k.name.clone(),
                                pattern: k.pattern.clone(),
                                got: t.clone(),
                            });
                        }
                        let ghost before = out@;
                        append_str(out, k.prefix.as_str());
                        append_str(out, t.as_str());
                        append_str(out, k.suffix.as_str());
                        assert(out@ =~= before + wrapped(k@, t@));
                        Ok(())
                    },
                    None => {
                        if optional {
                            assert(out@ =~= out@ + Seq::<char>::empty());
                            return Ok(());
                        }
                        let expected = if repeat {
                            String::from_str(ARRAY_TYPE_NAME)
                        } else {
                            String::from_str(ITEM_TYPE_NAME)
                        };
                        Err(PathError::MissingRequiredValue { name: k.name.clone(), expected_type: expected })
                    },
                }
            },
        }
    }

    /// Renders a path from parameter values: literal text as it is, each
    /// key's value (or each item of a repeated key's list) wrapped in its
    /// prefix and suffix; the first token that cannot be rendered gives
    /// the error.
    pub fn render(&self, values: &Vec<(String, ParamValue)>) -> (r: Result<String, PathError>)
        requires
            self.wf(),
        ensures
            rendered_model(r) == render_spec(self.token_models(), params_model(values@), self.options().validate, !self.options().sensitive),
    {
        let ghost tm = self.token_models();
        let ghost vm = params_model(values@);
        let ghost validate = self.options().validate;
        let ghost ci = !self.options().sensitive;
        let mut out: Vec<char> = Vec::new();
        let mut i: usize = 0;
        assert(render_spec(tm, vm, validate, ci) == after(out@, render_from(tm, vm, validate, ci, 0))) by {
            match render_from(tm, vm, validate, ci, 0) {
                Ok(t) => {
                    assert(out@ + t =~= t);
                },
                Err(_) => {},
            }
        }
        while i < self.tokens.len()
            invariant
                i <= self.tokens@.len(),
                self.wf(),
                tm == self.token_models(),
                vm == params_model(values@),
                validate == self.options().validate,
                ci == !self.options().sensitive,
                render_spec(tm, vm, validate, ci) == after(out@, render_from(tm, vm, validate, ci, i as int)),
            decreases self.tokens@.len() - i,
        {
            let ghost before = out@;
            match self.render_one(i, values, &mut out) {
                Ok(()) => {},
                Err(e) => {
                    return Err(e);
                },
            }
            proof {
                assert(tm[i as int] == self.token_models()[i as int]);
                match render_token(tm[i as int], vm, validate, ci) {
                    Ok(t) => {
                        assert(out@ == before + t);
                        match render_from(tm, vm, validate, ci, i + 1) {
                            Ok(rest) => {
                                assert(before + (t + rest) =~= out@ + rest);
                            },
                            Err(_) => {},
                        }
                    },
                    Err(_) => {},
                }
            }
            i += 1;
        }
        proof {
            assert(out@ + Seq::<char>::empty() =~= out@);
        }
        Ok(string_of(out.as_slice()))
    }
}

/// Collects a route pattern and the settings of a compiler for it.
#[derive(Clone, Debug)]
pub struct CompilerBuilder {
    pub source: String,
    pub options: CompilerOptions,
}

impl CompilerBuilder {
    /// A builder for `source` with the default settings.
    pub fn new(source: &str) -> (r: CompilerBuilder)
        ensures
            r.source@ == source@,
            r.options.delimiter@ == DEFAULT_DELIMITER@,
            r.options.prefixes@ == DEFAULT_PREFIXES@,
            !r.options.sensitive,
            r.options.validate,
    {
        CompilerBuilder { source: source.to_owned(), options: CompilerOptions::new() }
    }

    /// A builder for `source` with the given settings.
    pub fn new_with_options(source: &str, options: CompilerOptions) -> (r: CompilerBuilder)
        ensures
            r.source@ == source@,
            r.options == options,
    {
        CompilerBuilder { source: source.to_owned(), options }
    }

    /// Parses the pattern and builds a compiler with the collected settings.
    pub fn build(&self) -> (r: Result<Compiler, PathError>)
        ensures
            built_from_pattern(r, self.source@, self.options),
            r matches Ok(c) ==> c.wf(),
    {
        Compiler::new_with_options(self.source.as_str(), self.options.duplicate())
    }

    /// Sets the delimiter characters.
    pub fn set_delimiter(&mut self, delimiter: &str) -> (r: &mut Self)
        ensures
            r.options.delimiter@ == delimiter@,
            r.source == old(self).source,
            r.options == (CompilerOptions { delimiter: r.options.delimiter, ..old(self).options }),
            *final(self) == *final(r),
    {
        self.options.delimiter = delimiter.to_owned();
        self
    }

    /// Sets the characters that may serve as prefixes.
    pub fn set_prefixes(&mut self, prefixes: &str) -> (r: &mut Self)
        ensures
            r.options.prefixes@ == prefixes@,
            r.source == old(self).source,
            r.options == (CompilerOptions { prefixes: r.options.prefixes, ..old(self).options }),
            *final(self) == *final(r),
    {
        self.options.prefixes = prefixes.to_owned();
        self
    }

    /// Sets whether case matters when values are checked.
    pub fn set_sensitive(&mut self, yes: bool) -> (r: &mut Self)
        ensures
            r.source == old(self).source,
            r.options == (CompilerOptions { sensitive: yes, ..old(self).options }),
            *final(self) == *final(r),
    {
        self.options.sensitive = yes;
        self
    }

    /// Sets whether values are checked against their patterns.
    pub fn set_validate(&mut self, yes: bool) -> (r: &mut Self)
        ensures
            r.source == old(self).source,
            r.options == (CompilerOptions { validate: yes, ..old(self).options }),
            *final(self) == *final(r),
    {
        self.options.validate = yes;
        self
    }
}

/// The first key among the tokens from `i` on with the given name.
pub open spec fn first_key(ts: Seq<Token>, name: Seq<char>, i: int) -> Option<Key>
    decreases ts.len() - i,
{
    if i < 0 || i >= ts.len() {
        None
    } else {
        match ts[i] {
            Token::Key(k) => if k.name@ == name {
                Some(k)
            } else {
                first_key(ts, name, i + 1)
            },
            Token::Static(_) => first_key(ts, name, i + 1),
        }
    }
}

impl Compiler {
    /// The first key of the tokens with the given name.
    fn key_named(&self, name: &String) -> (r: Option<&Key>)
        ensures
            match (r, first_key(self.token_list(), name@, 0)) {
                (None, None) => true,
                (Some(k), Some(j)) => *k == j,
                _ => false,
            },
    {
        let mut i: usize = 0;
        while i < self.tokens.len()
            invariant
                i <= self.tokens@.len(),
                first_key(self.token_list(), name@, 0) == first_key(self.token_list(), name@, i as int),
            decreases self.tokens@.len() - i,
        {
            match &self.tokens[i] {
                Token::Key(k) => {
                    if k.name == *name {
                        return Some(k);
                    }
                },
                Token::Static(_) => {},
            }
            i += 1;
        }
        None
    }

    /// The values with each text passed through `encode`, together with the
    /// first key that bears the value's name; values no key names stay as
    /// they are.
    pub fn encode_values<F: Fn(&String, &Key) -> String>(&self, values: &Vec<(String, ParamValue)>, encode: &F) -> (r: Vec<(String, ParamValue)>)
        requires
            forall|s: &String, key: &Key| encode.requires((s, key)),
        ensures
            r@.len() == values@.len(),
            forall|i: int| 0 <= i < values@.len() ==> (#[trigger] r@[i]).0@ == values@[i].0@ && match first_key(self.token_list(), values@[i].0@, 0) {
                Some(k) => mapped_value(*encode, k, values@[i].1@, r@[i].1@),
                None => r@[i].1@ == values@[i].1@,
            },
    {
        let mut out: Vec<(String, ParamValue)> = Vec::new();
        let mut i: usize = 0;
        while i < values.len()
            invariant
                i <= values@.len(),
                out@.len() == i,
                forall|s: &String, key: &Key| encode.requires((s, key)),
                forall|q: int| 0 <= q < i ==> (#[trigger] out@[q]).0@ == values@[q].0@ && match first_key(self.token_list(), values@[q].0@, 0) {
                    Some(k) => mapped_value(*encode, k, values@[q].1@, out@[q].1@),
                    None => out@[q].1@ == values@[q].1@,
                },
            decreases values@.len() - i,
        {
            let (name, value) = &values[i];
            let v = match self.key_named(name) {
                Some(k) => map_value(value, k, encode),
                None => value.clone_value(),
            };
            out.push((name.clone(), v));
            i += 1;
        }
        out
    }
}

} // verus!
