//! Splits a route pattern into lexical tokens with their offsets.
use vstd::prelude::*;
use crate::error::{ErrorModel, LexTokenKind, PathError};

verus! {

/// A lexical token: its kind, the character offset where it starts, and
/// the text it stands for.
pub struct LexToken {
    pub kind: LexTokenKind,
    pub index: usize,
    pub value: Vec<char>,
}

/// A `LexToken` as plain values.
pub struct LexTok {
    pub kind: LexTokenKind,
    pub index: nat,
    pub value: Seq<char>,
}

impl View for LexToken {
    type V = LexTok;

    open spec fn view(&self) -> LexTok {
        LexTok { kind: self.kind, index: self.index as nat, value: self.value@ }
    }
}

/// The models of a list of lexical tokens.
pub open spec fn lex_model(ts: Seq<LexToken>) -> Seq<LexTok> {
    ts.map_values(|t: LexToken| t@)
}

/// Characters that may form a parameter name.
pub open spec fn is_name_char(c: char) -> bool {
    ('0' <= c && c <= '9') || ('A' <= c && c <= 'Z') || ('a' <= c && c <= 'z') || c == '_'
}

/// The end of the run of name characters that starts at `j`.
pub open spec fn name_end(s: Seq<char>, j: int) -> int
    decreases s.len() - j,
{
    if 0 <= j < s.len() && is_name_char(s[j]) {
        name_end(s, j + 1)
    } else {
        j
    }
}

/// How the scan of a `(...)` pattern ends.
pub enum PatternScan {
    /// At the offset of the closing `)`.
    Closed(int),
    /// At the offset of a `(` that does not open `(?`.
    Capturing(int),
    /// The input ended with groups still open.
    Unbalanced,
}

/// Scans a pattern from `j` with `depth` groups open.
pub open spec fn scan_pattern(s: Seq<char>, j: int, depth: nat) -> PatternScan
    decreases s.len() - j,
{
    if j < 0 || j >= s.len() {
        PatternScan::Unbalanced
    } else if s[j] == '\\' {
        if j + 1 >= s.len() {
            PatternScan::Unbalanced
        } else {
            scan_pattern(s, j + 2, depth)
        }
    } else if s[j] == ')' {
        if depth <= 1 {
            PatternScan::Closed(j)
        } else {
            scan_pattern(s, j + 1, (depth - 1) as nat)
        }
    } else if s[j] == '(' {
        if j + 1 < s.len() && s[j + 1] == '?' {
            scan_pattern(s, j + 1, depth + 1)
        } else {
            PatternScan::Capturing(j)
        }
    } else {
        scan_pattern(s, j + 1, depth)
    }
}

/// A token of the given kind.
pub open spec fn tok(kind: LexTokenKind, index: int, value: Seq<char>) -> LexTok {
    LexTok { kind, index: index as nat, value }
}

/// `t` put in front of the tokens of `rest`, or the error of `rest`.
pub open spec fn cons(t: LexTok, rest: Result<Seq<LexTok>, ErrorModel>) -> Result<Seq<LexTok>, ErrorModel> {
    match rest {
        Ok(ts) => Ok(seq![t] + ts),
        Err(e) => Err(e),
    }
}

/// The tokens of `s` from offset `i` on, ending with an `End` token, or the
/// first error met.
pub open spec fn lex_from(s: Seq<char>, i: int) -> Result<Seq<LexTok>, ErrorModel>
    decreases s.len() - i,
{
    if i < 0 || i >= s.len() {
        Ok(seq![tok(LexTokenKind::End, s.len() as int, Seq::empty())])
    } else {
        let c = s[i];
        if c == '*' || c == '+' || c == '?' {
            cons(tok(LexTokenKind::Modifier, i, seq![c]), lex_from(s, i + 1))
        } else if c == '\\' {
            if i + 1 >= s.len() {
                Err(ErrorModel::UnexpectedEnd { index: i as nat })
            } else {
                cons(tok(LexTokenKind::EscapedChar, i, seq![s[i + 1]]), lex_from(s, i + 2))
            }
        } else if c == '{' {
            cons(tok(LexTokenKind::Open, i, seq![c]), lex_from(s, i + 1))
        } else if c == '}' {
            cons(tok(LexTokenKind::Close, i, seq![c]), lex_from(s, i + 1))
        } else if c == ':' {
            let e = name_end(s, i + 1);
            if e <= i + 1 || e > s.len() {
                Err(ErrorModel::MissingParameterName { index: i as nat })
            } else {
                cons(tok(LexTokenKind::Name, i, s.subrange(i + 1, e)), lex_from(s, e))
            }
        } else if c == '(' {
            if i + 1 < s.len() && s[i + 1] == '?' {
                Err(ErrorModel::PatternCannotStartWithQuestionMark { index: (i + 1) as nat })
            } else {
                match scan_pattern(s, i + 1, 1) {
                    PatternScan::Unbalanced => Err(ErrorModel::UnbalancedPattern { index: i as nat }),
                    PatternScan::Capturing(j) => Err(
                        ErrorModel::CapturingGroupNotAllowed { index: j as nat },
                    ),
                    PatternScan::Closed(j) => if j <= i + 1 || j >= s.len() {
                        Err(ErrorModel::MissingPattern { index: i as nat })
                    } else {
                        cons(tok(LexTokenKind::Pattern, i, s.subrange(i + 1, j)), lex_from(s, j + 1))
                    },
                }
            }
        } else {
            cons(tok(LexTokenKind::Char, i, seq![c]), lex_from(s, i + 1))
        }
    }
}

/// The tokens of a whole pattern.
pub open spec fn lex_spec(s: Seq<char>) -> Result<Seq<LexTok>, ErrorModel> {
    lex_from(s, 0)
}

proof fn lemma_name_end_bounds(s: Seq<char>, j: int)
    requires
        0 <= j <= s.len(),
    ensures
        j <= name_end(s, j) <= s.len(),
        forall|k: int| j <= k < name_end(s, j) ==> is_name_char(#[trigger] s[k]),
        name_end(s, j) < s.len() ==> !is_name_char(s[name_end(s, j)]),
    decreases s.len() - j,
{
    if j < s.len() && is_name_char(s[j]) {
        lemma_name_end_bounds(s, j + 1);
    }
}

proof fn lemma_scan_bounds(s: Seq<char>, j: int, depth: nat)
    requires
        0 <= j,
    ensures
        scan_pattern(s, j, depth) matches PatternScan::Closed(k) ==> j <= k < s.len(),
        scan_pattern(s, j, depth) matches PatternScan::Capturing(k) ==> j <= k < s.len(),
    decreases s.len() - j,
{
    if j < s.len() {
        if s[j] == '\\' {
            if j + 1 < s.len() {
                lemma_scan_bounds(s, j + 2, depth);
            }
        } else if s[j] == ')' {
            if depth > 1 {
                lemma_scan_bounds(s, j + 1, (depth - 1) as nat);
            }
        } else if s[j] == '(' {
            if j + 1 < s.len() && s[j + 1] == '?' {
                lemma_scan_bounds(s, j + 1, depth + 1);
            }
        } else {
            lemma_scan_bounds(s, j + 1, depth);
        }
    }
}

fn is_name_char_exec(c: char) -> (r: bool)
    ensures
        r == is_name_char(c),
{
    ('0' <= c && c <= '9') || ('A' <= c && c <= 'Z') || ('a' <= c && c <= 'z') || c == '_'
}

/// The end of the run of name characters that starts at `j`.
fn scan_name(s: &Vec<char>, j: usize) -> (r: usize)
    requires
        j <= s@.len(),
    ensures
        r as int == name_end(s@, j as int),
{
    let mut k = j;
    while k < s.len() && is_name_char_exec(s[k])
        invariant
            j <= k <= s@.len(),
            name_end(s@, j as int) == name_end(s@, k as int),
        decreases s@.len() - k,
    {
        k += 1;
    }
    k
}

/// Scans a pattern that starts at `start`, one group open.
fn scan_pattern_exec(s: &Vec<char>, start: usize) -> (r: Result<usize, Option<usize>>)
    requires
        start <= s@.len(),
    ensures
        match scan_pattern(s@, start as int, 1) {
            PatternScan::Closed(k) => r == Ok::<usize, Option<usize>>(k as usize),
            PatternScan::Capturing(k) => r == Err::<usize, Option<usize>>(Some(k as usize)),
            PatternScan::Unbalanced => r == Err::<usize, Option<usize>>(None),
        },
{
    proof {
        lemma_scan_bounds(s@, start as int, 1);
    }
    let mut j = start;
    let mut depth: usize = 1;
    while j < s.len()
        invariant
            start <= j,
            1 <= depth <= j - start + 1,
            scan_pattern(s@, start as int, 1) == scan_pattern(s@, j as int, depth as nat),
        decreases s@.len() - j,
    {
        proof {
            lemma_scan_bounds(s@, j as int, depth as nat);
        }
        let c = s[j];
        if c == '\\' {
            if j + 1 >= s.len() {
                return Err(None);
            }
            j += 2;
        } else if c == ')' {
            if depth <= 1 {
                return Ok(j);
            }
            depth -= 1;
            j += 1;
        } else if c == '(' {
            if j + 1 < s.len() && s[j + 1] == '?' {
                depth += 1;
                j += 1;
            } else {
                return Err(Some(j));
            }
        } else {
            j += 1;
        }
    }
    Err(None)
}

fn one(c: char) -> (r: Vec<char>)
    ensures
        r@ == seq![c],
{
    let mut v: Vec<char> = Vec::new();
    v.push(c);
    v
}

fn slice_chars(s: &Vec<char>, from: usize, to: usize) -> (r: Vec<char>)
    requires
        from <= to <= s@.len(),
    ensures
        r@ == s@.subrange(from as int, to as int),
{
    let mut v: Vec<char> = Vec::new();
    let mut k = from;
    while k < to
        invariant
            from <= k <= to,
            to <= s@.len(),
            v@ == s@.subrange(from as int, k as int),
        decreases to - k,
    {
        v.push(s[k]);
        k += 1;
        assert(v@ =~= s@.subrange(from as int, k as int));
    }
    v
}

/// Splits the characters of a pattern into lexical tokens: modifiers,
/// escaped characters, braces, `:name`, `(pattern)` and single characters,
/// then an `End` token at the input's length.
pub fn lex(s: &Vec<char>) -> (r: Result<Vec<LexToken>, PathError>)
    ensures
        match (r, lex_spec(s@)) {
            (Ok(ts), Ok(m)) => lex_model(ts@) == m,
            (Err(e), Err(m)) => e@ == m,
            _ => false,
        },
{
    let mut out: Vec<LexToken> = Vec::new();
    let mut i: usize = 0;
    while i < s.len()
        invariant
            i <= s@.len(),
            lex_spec(s@) == cons_all(lex_model(out@), lex_from(s@, i as int)),
        decreases s@.len() - i,
    {
        let c = s[i];
        let ghost before = lex_model(out@);
        let ghost i0 = i as int;
        if c == '*' || c == '+' || c == '?' {
            out.push(LexToken { kind: LexTokenKind::Modifier, index: i, value: one(c) });
            i += 1;
        } else if c == '\\' {
            if i + 1 >= s.len() {
                return Err(PathError::UnexpectedEnd { index: i });
            }
            out.push(LexToken { kind: LexTokenKind::EscapedChar, index: i, value: one(s[i + 1]) });
            i += 2;
        } else if c == '{' {
            out.push(LexToken { kind: LexTokenKind::Open, index: i, value: one(c) });
            i += 1;
        } else if c == '}' {
            out.push(LexToken { kind: LexTokenKind::Close, index: i, value: one(c) });
            i += 1;
        } else if c == ':' {
            proof {
                lemma_name_end_bounds(s@, i + 1);
            }
            let e = scan_name(s, i + 1);
            if e <= i + 1 {
                return Err(PathError::MissingParameterName { index: i });
            }
            out.push(LexToken { kind: LexTokenKind::Name, index: i, value: slice_chars(s, i + 1, e) });
            i = e;
        } else if c == '(' {
            if i + 1 < s.len() && s[i + 1] == '?' {
                return Err(PathError::PatternCannotStartWithQuestionMark { index: i + 1 });
            }
            proof {
                lemma_scan_bounds(s@, i + 1, 1);
            }
            match scan_pattern_exec(s, i + 1) {
                Err(None) => {
                    return Err(PathError::UnbalancedPattern { index: i });
                },
                Err(Some(j)) => {
                    return Err(PathError::CapturingGroupNotAllowed { index: j });
                },
                Ok(j) => {
                    if j <= i + 1 {
                        return Err(PathError::MissingPattern { index: i });
                    }
                    out.push(
                        LexToken { kind: LexTokenKind::Pattern, index: i, value: slice_chars(s, i + 1, j) },
                    );
                    i = j + 1;
                },
            }
        } else {
            out.push(LexToken { kind: LexTokenKind::Char, index: i, value: one(c) });
            i += 1;
        }
        proof {
            let t = lex_model(out@).last();
            assert(lex_model(out@) =~= before.push(t));
            lemma_cons_all_push(before, t, lex_from(s@, i as int));
        }
    }
    out.push(LexToken { kind: LexTokenKind::End, index: i, value: Vec::new() });
    proof {
        let ghost before = lex_model(out@).drop_last();
        assert(lex_model(out@) =~= before.push(lex_model(out@).last()));
        assert(lex_model(out@) =~= before + seq![tok(LexTokenKind::End, s@.len() as int, Seq::empty())]);
    }
    Ok(out)
}

/// The tokens `pre` put in front of the tokens of `rest`, or the error of `rest`.
pub open spec fn cons_all(pre: Seq<LexTok>, rest: Result<Seq<LexTok>, ErrorModel>) -> Result<Seq<LexTok>, ErrorModel> {
    match rest {
        Ok(ts) => Ok(pre + ts),
        Err(e) => Err(e),
    }
}

proof fn lemma_cons_all_push(pre: Seq<LexTok>, t: LexTok, rest: Result<Seq<LexTok>, ErrorModel>)
    ensures
        cons_all(pre, cons(t, rest)) == cons_all(pre.push(t), rest),
{
    match rest {
        Ok(ts) => {
            assert(pre + (seq![t] + ts) =~= pre.push(t) + ts);
        },
        Err(_) => {},
    }
}

} // verus!
