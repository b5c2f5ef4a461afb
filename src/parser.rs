//! Builds the syntax tree of a route pattern from its lexical tokens.
use vstd::prelude::*;
use crate::ast::{Key, KeyModel, Token, TokenModel, tokens_model};
use crate::engine::{escape, escaped};
use crate::error::{ErrorModel, LexTokenKind, PathError};
use crate::lexer::{LexTok, LexToken, lex, lex_model, lex_spec};
use crate::text::{append_chars, append_str, chars_of, decimal, has_char, push_decimal, string_of};

verus! {

/// The characters that separate path segments by default.
pub const DEFAULT_DELIMITER: &'static str = "/#?";

/// The characters that may serve as a parameter's prefix by default.
pub const DEFAULT_PREFIXES: &'static str = "./";

/// The settings of the parser.
#[derive(Clone, Debug)]
pub struct ParserOptions {
    /// The characters that separate path segments; a parameter without a
    /// pattern matches a run of any other characters.
    pub delimiter: String,
    /// The characters that become a parameter's prefix when they stand
    /// right before it.
    pub prefixes: String,
}

impl Default for ParserOptions {
    fn default() -> (r: Self)
        ensures
            r.delimiter@ == DEFAULT_DELIMITER@,
            r.prefixes@ == DEFAULT_PREFIXES@,
    {
        ParserOptions {
            delimiter: String::from_str(DEFAULT_DELIMITER),
            prefixes: String::from_str(DEFAULT_PREFIXES),
        }
    }
}

/// `[^` + the escaped delimiter characters + `]+?`: a lazy run of
/// characters other than the delimiters.
pub open spec fn default_pattern(delimiter: Seq<char>) -> Seq<char> {
    seq!['[', '^'] + escaped(delimiter) + seq![']', '+', '?']
}

/// The literal text collected so far, added as a `Static` token unless empty.
pub open spec fn flush(out: Seq<TokenModel>, path: Seq<char>) -> Seq<TokenModel> {
    if path.len() == 0 {
        out
    } else {
        out.push(TokenModel::Static(path))
    }
}

/// Whether the token at `p` exists and has kind `k`.
pub open spec fn at(ts: Seq<LexTok>, p: int, k: LexTokenKind) -> bool {
    0 <= p < ts.len() && ts[p].kind == k
}

/// The kind of the token at `p` (`End` past the last one).
pub open spec fn kind_at(ts: Seq<LexTok>, p: int) -> LexTokenKind {
    if 0 <= p < ts.len() {
        ts[p].kind
    } else {
        LexTokenKind::End
    }
}

/// The offset of the token at `p` (0 past the last one).
pub open spec fn index_at(ts: Seq<LexTok>, p: int) -> nat {
    if 0 <= p < ts.len() {
        ts[p].index
    } else {
        0
    }
}

/// The end of the run of `Char` and `EscapedChar` tokens that starts at `p`.
pub open spec fn text_end(ts: Seq<LexTok>, p: int) -> int
    decreases ts.len() - p,
{
    if at(ts, p, LexTokenKind::Char) || at(ts, p, LexTokenKind::EscapedChar) {
        text_end(ts, p + 1)
    } else {
        p
    }
}

/// The values of the tokens from `p` up to `e`, joined.
pub open spec fn joined(ts: Seq<LexTok>, p: int, e: int) -> Seq<char>
    decreases e - p,
{
    if e <= p || e > ts.len() || p < 0 {
        Seq::empty()
    } else {
        joined(ts, p, e - 1) + ts[e - 1].value
    }
}

/// Whether a character read before a parameter is taken as its prefix.
pub open spec fn takes_prefix(prefixes: Seq<char>, pre: Seq<char>) -> bool {
    pre.len() == 0 || (pre.len() == 1 && prefixes.contains(pre[0]))
}

/// The parse of the tokens from `pos` on, given the number of unnamed keys
/// so far, the pending literal text and the tokens already produced.
pub open spec fn parse_from(
    ts: Seq<LexTok>,
    dp: Seq<char>,
    prefixes: Seq<char>,
    pos: int,
    key: nat,
    path: Seq<char>,
    out: Seq<TokenModel>,
) -> Result<Seq<TokenModel>, ErrorModel>
    decreases ts.len() - pos,
    via parse_from_decreases
{
    if pos < 0 || pos >= ts.len() {
        Ok(flush(out, path))
    } else {
        let i1 = if at(ts, pos, LexTokenKind::Char) { pos + 1 } else { pos };
        let i2 = if at(ts, i1, LexTokenKind::Name) { i1 + 1 } else { i1 };
        let i3 = if at(ts, i2, LexTokenKind::Pattern) { i2 + 1 } else { i2 };
        if i2 > i1 || i3 > i2 {
            let pre = if i1 > pos { ts[pos].value } else { Seq::empty() };
            let is_pre = takes_prefix(prefixes, pre);
            let path2 = if is_pre { path } else { path + pre };
            let prefix = if is_pre { pre } else { Seq::empty() };
            let name = if i2 > i1 { ts[i1].value } else { decimal(key) };
            let key2 = if i2 > i1 { key } else { key + 1 };
            let pattern = if i3 > i2 { ts[i2].value } else { dp };
            let i4 = if at(ts, i3, LexTokenKind::Modifier) { i3 + 1 } else { i3 };
            let modifier = if i4 > i3 { ts[i3].value } else { Seq::empty() };
            let k = KeyModel { name, prefix, suffix: Seq::empty(), pattern, modifier };
            parse_from(ts, dp, prefixes, i4, key2, Seq::empty(), flush(out, path2).push(TokenModel::Key(k)))
        } else if i1 > pos {
            parse_from(ts, dp, prefixes, i1, key, path + ts[pos].value, out)
        } else if at(ts, pos, LexTokenKind::EscapedChar) {
            parse_from(ts, dp, prefixes, pos + 1, key, path + ts[pos].value, out)
        } else {
            let out2 = flush(out, path);
            if at(ts, pos, LexTokenKind::Open) {
                let q2 = text_end(ts, pos + 1);
                let prefix = joined(ts, pos + 1, q2);
                let q3 = if at(ts, q2, LexTokenKind::Name) { q2 + 1 } else { q2 };
                let q4 = if at(ts, q3, LexTokenKind::Pattern) { q3 + 1 } else { q3 };
                let q5 = text_end(ts, q4);
                let suffix = joined(ts, q4, q5);
                if !at(ts, q5, LexTokenKind::Close) {
                    Err(ErrorModel::UnexpectedToken {
                        found: kind_at(ts, q5),
                        index: index_at(ts, q5),
                        expected: LexTokenKind::Close,
                    })
                } else {
                    let has_name = q3 > q2;
                    let has_pattern = q4 > q3;
                    let name = if has_name {
                        ts[q2].value
                    } else if has_pattern {
                        decimal(key)
                    } else {
                        Seq::empty()
                    };
                    let key2 = if !has_name && has_pattern { key + 1 } else { key };
                    let pattern = if has_pattern {
                        ts[q3].value
                    } else if has_name {
                        dp
                    } else {
                        Seq::empty()
                    };
                    let q7 = if at(ts, q5 + 1, LexTokenKind::Modifier) { q5 + 2 } else { q5 + 1 };
                    let modifier = if q7 > q5 + 1 { ts[q5 + 1].value } else { Seq::empty() };
                    let k = KeyModel { name, prefix, suffix, pattern, modifier };
                    parse_from(ts, dp, prefixes, q7, key2, Seq::empty(), out2.push(TokenModel::Key(k)))
                }
            } else if at(ts, pos, LexTokenKind::End) {
                parse_from(ts, dp, prefixes, pos + 1, key, Seq::empty(), out2)
            } else {
                Err(ErrorModel::UnexpectedToken {
                    found: ts[pos].kind,
                    index: ts[pos].index,
                    expected: LexTokenKind::End,
                })
            }
        }
    }
}

proof fn lemma_text_end(ts: Seq<LexTok>, p: int)
    requires
        0 <= p,
    ensures
        p <= text_end(ts, p),
        p <= ts.len() ==> text_end(ts, p) <= ts.len(),
    decreases ts.len() - p,
{
    if at(ts, p, LexTokenKind::Char) || at(ts, p, LexTokenKind::EscapedChar) {
        lemma_text_end(ts, p + 1);
    }
}

#[via_fn]
proof fn parse_from_decreases(
    ts: Seq<LexTok>,
    dp: Seq<char>,
    prefixes: Seq<char>,
    pos: int,
    key: nat,
    path: Seq<char>,
    out: Seq<TokenModel>,
) {
    if 0 <= pos < ts.len() {
        lemma_text_end(ts, pos + 1);
        lemma_text_end(ts, if at(ts, text_end(ts, pos + 1), LexTokenKind::Name) { text_end(ts, pos + 1) + 1 } else { text_end(ts, pos + 1) });
        let q2 = text_end(ts, pos + 1);
        let q3 = if at(ts, q2, LexTokenKind::Name) { q2 + 1 } else { q2 };
        let q4 = if at(ts, q3, LexTokenKind::Pattern) { q3 + 1 } else { q3 };
        lemma_text_end(ts, q4);
    }
}

/// The syntax tree of lexical tokens.
pub open spec fn parse_tokens_spec(ts: Seq<LexTok>, delimiter: Seq<char>, prefixes: Seq<char>) -> Result<
    Seq<TokenModel>,
    ErrorModel,
> {
    parse_from(ts, default_pattern(delimiter), prefixes, 0, 0, Seq::empty(), Seq::empty())
}

/// The syntax tree of a pattern, or the first lexical or syntax error.
pub open spec fn parse_spec(s: Seq<char>, delimiter: Seq<char>, prefixes: Seq<char>) -> Result<
    Seq<TokenModel>,
    ErrorModel,
> {
    match lex_spec(s) {
        Err(e) => Err(e),
        Ok(ts) => parse_tokens_spec(ts, delimiter, prefixes),
    }
}

/// The model of a parse result.
pub open spec fn parse_model(r: Result<Vec<Token>, PathError>) -> Result<Seq<TokenModel>, ErrorModel> {
    match r {
        Ok(ts) => Ok(tokens_model(ts@)),
        Err(e) => Err(e@),
    }
}

fn at_exec(ts: &Vec<LexToken>, p: usize, k: LexTokenKind) -> (r: bool)
    ensures
        r == at(lex_model(ts@), p as int, k),
{
    p < ts.len() && ts[p].kind == k
}

fn text_run(ts: &Vec<LexToken>, p: usize, acc: &mut Vec<char>) -> (e: usize)
    requires
        p <= ts@.len(),
    ensures
        e as int == text_end(lex_model(ts@), p as int),
        p <= e <= ts@.len(),
        final(acc)@ == old(acc)@ + joined(lex_model(ts@), p as int, e as int),
{
    let ghost m = lex_model(ts@);
    let mut e = p;
    while e < ts.len() && (ts[e].kind == LexTokenKind::Char || ts[e].kind == LexTokenKind::EscapedChar)
        invariant
            p <= e <= ts@.len(),
            m == lex_model(ts@),
            m.len() == ts@.len(),
            text_end(m, p as int) == text_end(m, e as int),
            acc@ == old(acc)@ + joined(m, p as int, e as int),
        decreases ts@.len() - e,
    {
        append_chars(acc, ts[e].value.as_slice());
        e += 1;
        assert(acc@ =~= old(acc)@ + joined(m, p as int, e as int));
    }
    e
}

fn key_token(name: &Vec<char>, prefix: &Vec<char>, suffix: &Vec<char>, pattern: &Vec<char>, modifier: &Vec<char>) -> (r: Token)
    ensures
        r@ == TokenModel::Key(KeyModel { name: name@, prefix: prefix@, suffix: suffix@, pattern: pattern@, modifier: modifier@ }),
{
    Token::Key(Key {
        name: string_of(name.as_slice()),
        prefix: string_of(prefix.as_slice()),
        suffix: string_of(suffix.as_slice()),
        pattern: string_of(pattern.as_slice()),
        modifier: string_of(modifier.as_slice()),
    })
}

fn flush_exec(out: &mut Vec<Token>, path: &mut Vec<char>)
    ensures
        tokens_model(final(out)@) == flush(tokens_model(old(out)@), old(path)@),
        final(path)@ == Seq::<char>::empty(),
{
    if path.len() > 0 {
        let ghost before = tokens_model(out@);
        out.push(Token::Static(string_of(path.as_slice())));
        assert(tokens_model(out@) =~= before.push(TokenModel::Static(old(path)@)));
        *path = Vec::new();
    }
    assert(path@ =~= Seq::<char>::empty());
}

fn value_of(ts: &Vec<LexToken>, p: usize) -> (r: Vec<char>)
    requires
        p < ts@.len(),
    ensures
        r@ == lex_model(ts@)[p as int].value,
{
    ts[p].value.clone()
}

fn decimal_chars(n: usize) -> (r: Vec<char>)
    ensures
        r@ == decimal(n as nat),
{
    let mut v: Vec<char> = Vec::new();
    push_decimal(&mut v, n);
    assert(v@ =~= decimal(n as nat));
    v
}

/// Builds the syntax tree from lexical tokens: literal runs become `Static`
/// tokens, `:name`, `(pattern)` and `{...}` groups become keys.
pub fn parse_lexed(ts: &Vec<LexToken>, dp: &Vec<char>, prefixes: &Vec<char>) -> (r: Result<Vec<Token>, PathError>)
    ensures
        parse_model(r) == parse_from(lex_model(ts@), dp@, prefixes@, 0, 0, Seq::empty(), Seq::empty()),
{
    let ghost m = lex_model(ts@);
    let mut out: Vec<Token> = Vec::new();
    let mut path: Vec<char> = Vec::new();
    let mut key: usize = 0;
    let mut pos: usize = 0;
    let empty: Vec<char> = Vec::new();
    assert(tokens_model(out@) =~= Seq::<TokenModel>::empty());
    assert(path@ =~= Seq::<char>::empty());
    assert(empty@ =~= Seq::<char>::empty());
    while pos < ts.len()
        invariant
            m == lex_model(ts@),
            key <= pos <= ts@.len(),
            empty@ == Seq::<char>::empty(),
            parse_from(m, dp@, prefixes@, 0, 0, Seq::empty(), Seq::empty())
                == parse_from(m, dp@, prefixes@, pos as int, key as nat, path@, tokens_model(out@)),
        decreases ts@.len() - pos,
    {
        let i1 = if at_exec(ts, pos, LexTokenKind::Char) { pos + 1 } else { pos };
        let i2 = if at_exec(ts, i1, LexTokenKind::Name) { i1 + 1 } else { i1 };
        let i3 = if at_exec(ts, i2, LexTokenKind::Pattern) { i2 + 1 } else { i2 };
        if i2 > i1 || i3 > i2 {
            let pre = if i1 > pos { value_of(ts, pos) } else { Vec::new() };
            let is_pre = pre.len() == 0 || (pre.len() == 1 && has_char(prefixes.as_slice(), pre[0]));
            if !is_pre {
                append_chars(&mut path, pre.as_slice());
            }
            let prefix = if is_pre { pre } else { Vec::new() };
            let name = if i2 > i1 { value_of(ts, i1) } else { decimal_chars(key) };
            let key2 = if i2 > i1 { key } else { key + 1 };
            let pattern = if i3 > i2 { value_of(ts, i2) } else { dp.clone() };
            let i4 = if at_exec(ts, i3, LexTokenKind::Modifier) { i3 + 1 } else { i3 };
            let modifier = if i4 > i3 { value_of(ts, i3) } else { Vec::new() };
            flush_exec(&mut out, &mut path);
            let ghost before = tokens_model(out@);
            out.push(key_token(&name, &prefix, &empty, &pattern, &modifier));
            assert(tokens_model(out@) =~= before.push(out@.last()@));
            pos = i4;
            key = key2;
        } else if i1 > pos {
            let v = value_of(ts, pos);
            append_chars(&mut path, v.as_slice());
            pos = i1;
        } else if at_exec(ts, pos, LexTokenKind::EscapedChar) {
            let v = value_of(ts, pos);
            append_chars(&mut path, v.as_slice());
            pos = pos + 1;
        } else {
            flush_exec(&mut out, &mut path);
            if at_exec(ts, pos, LexTokenKind::Open) {
                let mut prefix: Vec<char> = Vec::new();
                let q2 = text_run(ts, pos + 1, &mut prefix);
                assert(prefix@ =~= joined(m, pos + 1, q2 as int));
                let q3 = if at_exec(ts, q2, LexTokenKind::Name) { q2 + 1 } else { q2 };
                let q4 = if at_exec(ts, q3, LexTokenKind::Pattern) { q3 + 1 } else { q3 };
                let mut suffix: Vec<char> = Vec::new();
                let q5 = text_run(ts, q4, &mut suffix);
                assert(suffix@ =~= joined(m, q4 as int, q5 as int));
                if !at_exec(ts, q5, LexTokenKind::Close) {
                    if q5 < ts.len() {
                        return Err(PathError::UnexpectedToken {
                            found: ts[q5].kind,
                            index: ts[q5].index,
                            expected: LexTokenKind::Close,
                        });
                    } else {
                        return Err(PathError::UnexpectedToken {
                            found: LexTokenKind::End,
                            index: 0,
                            expected: LexTokenKind::Close,
                        });
                    }
                }
                let has_name = q3 > q2;
                let has_pattern = q4 > q3;
                let name = if has_name {
                    value_of(ts, q2)
                } else if has_pattern {
                    decimal_chars(key)
                } else {
                    Vec::new()
                };
                let key2 = if !has_name && has_pattern { key + 1 } else { key };
                let pattern = if has_pattern {
                    value_of(ts, q3)
                } else if has_name {
                    dp.clone()
                } else {
                    Vec::new()
                };
                let q7 = if at_exec(ts, q5 + 1, LexTokenKind::Modifier) { q5 + 2 } else { q5 + 1 };
                let modifier = if q7 > q5 + 1 { value_of(ts, q5 + 1) } else { Vec::new() };
                let ghost before = tokens_model(out@);
                out.push(key_token(&name, &prefix, &suffix, &pattern, &modifier));
                assert(tokens_model(out@) =~= before.push(out@.last()@));
                pos = q7;
                key = key2;
            } else if at_exec(ts, pos, LexTokenKind::End) {
                pos = pos + 1;
            } else {
                return Err(PathError::UnexpectedToken {
                    found: ts[pos].kind,
                    index: ts[pos].index,
                    expected: LexTokenKind::End,
                });
            }
        }
    }
    flush_exec(&mut out, &mut path);
    Ok(out)
}

/// The default pattern for the given delimiter characters.
pub fn default_pattern_of(delimiter: &str) -> (r: Vec<char>)
    ensures
        r@ == default_pattern(delimiter@),
{
    let mut v: Vec<char> = Vec::new();
    v.push('[');
    v.push('^');
    let esc = escape(delimiter);
    append_str(&mut v, esc.as_str());
    v.push(']');
    v.push('+');
    v.push('?');
    assert(v@ =~= default_pattern(delimiter@));
    v
}

/// Parses a route pattern into its syntax tree.
pub fn parse_with_options(input: &str, options: &ParserOptions) -> (r: Result<Vec<Token>, PathError>)
    ensures
        parse_model(r) == parse_spec(input@, options.delimiter@, options.prefixes@),
{
    let s = chars_of(input);
    let ts = match lex(&s) {
        Ok(ts) => ts,
        Err(e) => {
            return Err(e);
        },
    };
    let dp = default_pattern_of(options.delimiter.as_str());
    let prefixes = chars_of(options.prefixes.as_str());
    parse_lexed(&ts, &dp, &prefixes)
}

} // verus!

verus! {

/// A parser of route patterns with fixed settings.
#[derive(Clone, Debug)]
pub struct Parser {
    options: ParserOptions,
}

impl Parser {
    /// A parser with the default settings.
    pub fn new() -> (r: Parser)
        ensures
            r.options().delimiter@ == DEFAULT_DELIMITER@,
            r.options().prefixes@ == DEFAULT_PREFIXES@,
    {
        Parser { options: ParserOptions::default() }
    }

    /// A parser with the given settings.
    pub fn new_with_options(options: ParserOptions) -> (r: Parser)
        ensures
            r.options() == options,
    {
        Parser { options }
    }

    /// The settings of this parser.
    pub closed spec fn options(&self) -> ParserOptions {
        self.options
    }

    /// Parses a route pattern into its syntax tree.
    pub fn parse_str(&self, input: &str) -> (r: Result<Vec<Token>, PathError>)
        ensures
            parse_model(r) == parse_spec(input@, self.options().delimiter@, self.options().prefixes@),
    {
        parse_with_options(input, &self.options)
    }

    /// Parses a route pattern into its syntax tree.
    pub fn parse(&self, input: &str) -> (r: Result<Vec<Token>, PathError>)
        ensures
            parse_model(r) == parse_spec(input@, self.options().delimiter@, self.options().prefixes@),
    {
        self.parse_str(input)
    }
}

impl Default for Parser {
    fn default() -> (r: Parser)
        ensures
            r.options().delimiter@ == DEFAULT_DELIMITER@,
            r.options().prefixes@ == DEFAULT_PREFIXES@,
    {
        Parser::new()
    }
}

/// Collects the settings of a `Parser`.
#[derive(Clone, Debug)]
pub struct ParserBuilder {
    pub options: ParserOptions,
}

impl ParserBuilder {
    /// A builder with the default settings.
    pub fn new() -> (r: ParserBuilder)
        ensures
            r.options.delimiter@ == DEFAULT_DELIMITER@,
            r.options.prefixes@ == DEFAULT_PREFIXES@,
    {
        ParserBuilder { options: ParserOptions::default() }
    }

    /// The parser with the collected settings.
    pub fn build(&self) -> (r: Parser)
        ensures
            r.options().delimiter@ == self.options.delimiter@,
            r.options().prefixes@ == self.options.prefixes@,
    {
        Parser {
            options: ParserOptions {
                delimiter: self.options.delimiter.clone(),
                prefixes: self.options.prefixes.clone(),
            },
        }
    }

    /// Sets the delimiter characters.
    pub fn set_delimiter(&mut self, delimiter: &str) -> (r: &mut Self)
        ensures
            r.options.delimiter@ == delimiter@,
            r.options.prefixes == old(self).options.prefixes,
            *final(self) == *final(r),
    {
        self.options.delimiter = delimiter.to_owned();
        self
    }

    /// Sets the characters that may serve as prefixes.
    pub fn set_prefixes(&mut self, prefixes: &str) -> (r: &mut Self)
        ensures
            r.options.prefixes@ == prefixes@,
            r.options.delimiter == old(self).options.delimiter,
            *final(self) == *final(r),
    {
        self.options.prefixes = prefixes.to_owned();
        self
    }
}

} // verus!
