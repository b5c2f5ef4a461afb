//! Properties that hold of every input, proved over the specifications.
use vstd::prelude::*;
use crate::ast::TokenModel;
use crate::compiler::{render_from, render_items, render_spec, render_token};
use crate::error::{ErrorModel, LexTokenKind};
use crate::lexer::{LexTok, lex_from, lex_spec, tok};
use crate::matcher::ValueModel;
use crate::parser::{default_pattern, flush, parse_from, parse_spec};

verus! {

/// Whether `c` has a meaning of its own in a route pattern.
pub open spec fn is_special(c: char) -> bool {
    c == ':' || c == '(' || c == '{' || c == '}' || c == '*' || c == '+' || c == '?' || c == '\\'
}

/// Whether `s` holds no character with a meaning of its own.
pub open spec fn is_plain(s: Seq<char>) -> bool {
    forall|i: int| 0 <= i < s.len() ==> !is_special(#[trigger] s[i])
}

/// The tokens of a plain text from `i` on: one `Char` per character, then `End`.
pub open spec fn plain_tokens(s: Seq<char>, i: int) -> Seq<LexTok> {
    Seq::new((s.len() - i) as nat, |k: int| tok(LexTokenKind::Char, i + k, seq![s[i + k]])).push(
        tok(LexTokenKind::End, s.len() as int, Seq::empty()),
    )
}

proof fn lemma_lex_plain(s: Seq<char>, i: int)
    requires
        is_plain(s),
        0 <= i <= s.len(),
    ensures
        lex_from(s, i) == Ok::<Seq<LexTok>, ErrorModel>(plain_tokens(s, i)),
    decreases s.len() - i,
{
    if i < s.len() {
        lemma_lex_plain(s, i + 1);
        assert(!is_special(s[i]));
        assert(plain_tokens(s, i) =~= seq![tok(LexTokenKind::Char, i, seq![s[i]])] + plain_tokens(s, i + 1));
    } else {
        assert(plain_tokens(s, i) =~= seq![tok(LexTokenKind::End, s.len() as int, Seq::empty())]);
    }
}

proof fn lemma_parse_plain(s: Seq<char>, dp: Seq<char>, prefixes: Seq<char>, pos: int)
    requires
        is_plain(s),
        s.len() > 0,
        0 <= pos <= s.len(),
    ensures
        parse_from(plain_tokens(s, 0), dp, prefixes, pos, 0, s.take(pos), Seq::empty())
            == Ok::<Seq<TokenModel>, ErrorModel>(seq![TokenModel::Static(s)]),
    decreases s.len() - pos,
{
    let ts = plain_tokens(s, 0);
    assert(ts.len() == s.len() + 1);
    if pos < s.len() {
        assert(ts[pos].kind == LexTokenKind::Char);
        assert(ts[pos].value == seq![s[pos]]);
        if pos + 1 < s.len() {
            assert(ts[pos + 1].kind == LexTokenKind::Char);
        } else {
            assert(ts[pos + 1].kind == LexTokenKind::End);
        }
        assert(s.take(pos) + seq![s[pos]] =~= s.take(pos + 1));
        lemma_parse_plain(s, dp, prefixes, pos + 1);
    } else {
        assert(ts[pos].kind == LexTokenKind::End);
        assert(s.take(pos) =~= s);
        let out2 = flush(Seq::empty(), s);
        assert(out2 =~= seq![TokenModel::Static(s)]);
        assert(parse_from(ts, dp, prefixes, pos + 1, 0, Seq::empty(), out2) == Ok::<Seq<TokenModel>, ErrorModel>(flush(out2, Seq::empty())));
    }
}

/// A non-empty pattern with no `:`, `(`, `{`, `}`, `*`, `+`, `?` or `\`
/// parses to exactly one `Static` token holding the whole pattern.
pub proof fn plain_pattern_is_one_static(s: Seq<char>, delimiter: Seq<char>, prefixes: Seq<char>)
    requires
        s.len() > 0,
        is_plain(s),
    ensures
        parse_spec(s, delimiter, prefixes) == Ok::<Seq<TokenModel>, ErrorModel>(seq![TokenModel::Static(s)]),
{
    lemma_lex_plain(s, 0);
    assert(lex_spec(s) == Ok::<Seq<LexTok>, ErrorModel>(plain_tokens(s, 0)));
    assert(s.take(0) =~= Seq::<char>::empty());
    lemma_parse_plain(s, default_pattern(delimiter), prefixes, 0);
}

/// Whether an error is a value that fails its key's pattern.
pub open spec fn is_mismatch(r: Result<Seq<char>, ErrorModel>) -> bool {
    r matches Err(ErrorModel::PatternMismatch { .. })
}

proof fn lemma_items_validate(k: crate::ast::KeyModel, items: Seq<Seq<char>>, i: int, ci: bool)
    ensures
        !is_mismatch(render_items(k, items, i, false, ci)),
        render_items(k, items, i, false, ci) is Ok,
        render_items(k, items, i, true, ci) == render_items(k, items, i, false, ci)
            || is_mismatch(render_items(k, items, i, true, ci)),
    decreases items.len() - i,
{
    if 0 <= i < items.len() {
        lemma_items_validate(k, items, i + 1, ci);
    }
}

proof fn lemma_token_validate(t: TokenModel, values: Seq<(Seq<char>, ValueModel)>, ci: bool)
    ensures
        !is_mismatch(render_token(t, values, false, ci)),
        render_token(t, values, false, ci) is Ok ==> (render_token(t, values, true, ci)
            == render_token(t, values, false, ci) || is_mismatch(render_token(t, values, true, ci))),
        render_token(t, values, true, ci) is Ok ==> render_token(t, values, true, ci)
            == render_token(t, values, false, ci),
{
    match t {
        TokenModel::Key(k) => {
            lemma_items_validate(k, Seq::empty(), 0, ci);
            match crate::compiler::lookup(values, k.name) {
                Some(ValueModel::List(items)) => {
                    lemma_items_validate(k, items, 0, ci);
                },
                _ => {},
            }
        },
        _ => {},
    }
}

proof fn lemma_render_validate(ts: Seq<TokenModel>, values: Seq<(Seq<char>, ValueModel)>, ci: bool, i: int)
    ensures
        !is_mismatch(render_from(ts, values, false, ci, i)),
        render_from(ts, values, false, ci, i) is Ok ==> (render_from(ts, values, true, ci, i)
            == render_from(ts, values, false, ci, i) || is_mismatch(render_from(ts, values, true, ci, i))),
        render_from(ts, values, true, ci, i) is Ok ==> render_from(ts, values, true, ci, i)
            == render_from(ts, values, false, ci, i),
    decreases ts.len() - i,
{
    if 0 <= i < ts.len() {
        lemma_render_validate(ts, values, ci, i + 1);
        lemma_token_validate(ts[i], values, ci);
    }
}

/// Turning validation off never makes rendering fail: without it no value
/// is rejected for its pattern; where rendering without it succeeds,
/// rendering with it gives the same path or rejects a value for its
/// pattern; and where rendering with it succeeds, both give the same path.
pub proof fn validation_only_rejects_mismatches(
    ts: Seq<TokenModel>,
    values: Seq<(Seq<char>, ValueModel)>,
    ci: bool,
)
    ensures
        !is_mismatch(render_spec(ts, values, false, ci)),
        render_spec(ts, values, false, ci) is Ok ==> (render_spec(ts, values, true, ci)
            == render_spec(ts, values, false, ci) || is_mismatch(render_spec(ts, values, true, ci))),
        render_spec(ts, values, true, ci) is Ok ==> render_spec(ts, values, true, ci)
            == render_spec(ts, values, false, ci),
{
    lemma_render_validate(ts, values, ci, 0);
}

} // verus!
