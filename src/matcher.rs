//! Matches a path against a compiled route and reads its parameters.
use vstd::prelude::*;
use crate::ast::{Key, KeyModel, is_repeat, keys_model};
use crate::engine::{option_text, regex_captures};
use crate::error::PathError;
use crate::parser::{DEFAULT_DELIMITER, DEFAULT_PREFIXES};
use crate::re::{PathRegex, PathRegexOptions, compiled_from_pattern};
use crate::text::{chars_of, find_from, occurs_at, split_on, string_of};

verus! {

/// The value of a parameter: one text, or a list of texts for a repeating
/// parameter.
#[derive(Clone, Debug, PartialEq, Eq)]
pub enum ParamValue {
    Text(String),
    List(Vec<String>),
}

/// A `ParamValue` as plain values.
pub enum ValueModel {
    Text(Seq<char>),
    List(Seq<Seq<char>>),
}

/// The characters of each string in a list.
pub open spec fn texts_model(v: Seq<String>) -> Seq<Seq<char>> {
    v.map_values(|s: String| s@)
}

impl View for ParamValue {
    type V = ValueModel;

    open spec fn view(&self) -> ValueModel {
        match self {
            ParamValue::Text(s) => ValueModel::Text(s@),
            ParamValue::List(v) => ValueModel::List(texts_model(v@)),
        }
    }
}

/// Named parameter values as plain values.
pub open spec fn params_model(ps: Seq<(String, ParamValue)>) -> Seq<(Seq<char>, ValueModel)> {
    ps.map_values(|p: (String, ParamValue)| (p.0@, p.1@))
}

/// The outcome of a successful match.
#[derive(Clone, Debug, PartialEq, Eq)]
pub struct MatchResult {
    /// The matched text, without a trailing character that only marked
    /// the end of the match.
    pub path: String,
    /// The offset where the match starts.
    pub index: usize,
    /// The value of each key, in the order of the keys.
    pub params: Vec<(String, ParamValue)>,
}

/// A `MatchResult` as plain values.
pub struct MatchModel {
    pub path: Seq<char>,
    pub index: nat,
    pub params: Seq<(Seq<char>, ValueModel)>,
}

impl View for MatchResult {
    type V = MatchModel;

    open spec fn view(&self) -> MatchModel {
        MatchModel { path: self.path@, index: self.index as nat, params: params_model(self.params@) }
    }
}

/// The text a repeated key's value is cut at: its prefix, or its suffix
/// when it has no prefix.
pub open spec fn separator(k: KeyModel) -> Seq<char> {
    if k.prefix.len() > 0 {
        k.prefix
    } else {
        k.suffix
    }
}

/// The text of group `i`, empty when the group did not take part.
pub open spec fn group_text(groups: Seq<Option<Seq<char>>>, i: int) -> Seq<char> {
    if 0 <= i < groups.len() {
        match groups[i] {
            Some(t) => t,
            None => Seq::empty(),
        }
    } else {
        Seq::empty()
    }
}

/// The value of key `k` read from the text its group captured.
pub open spec fn key_value(k: KeyModel, t: Seq<char>) -> ValueModel {
    if is_repeat(k.modifier) {
        ValueModel::List(split_on(t, separator(k)))
    } else {
        ValueModel::Text(t)
    }
}

/// The parameters: each key's name with the value of group `i + 1`.
pub open spec fn match_params(keys: Seq<KeyModel>, groups: Seq<Option<Seq<char>>>) -> Seq<(Seq<char>, ValueModel)> {
    Seq::new(keys.len(), |i: int| (keys[i].name, key_value(keys[i], group_text(groups, i + 1))))
}

/// How many trailing characters to drop from the whole match: the length
/// of the last group's text when the expression ends with the end group.
pub open spec fn trailing_len(groups: Seq<Option<Seq<char>>>, end_group: bool) -> nat {
    if end_group && groups.len() >= 2 && group_text(groups, groups.len() - 1).len() <= group_text(groups, 0).len() {
        group_text(groups, groups.len() - 1).len()
    } else {
        0
    }
}

/// The match read from a start offset and group texts (the whole match first).
pub open spec fn match_model(keys: Seq<KeyModel>, start: nat, groups: Seq<Option<Seq<char>>>, end_group: bool) -> MatchModel {
    let whole = group_text(groups, 0);
    MatchModel {
        path: whole.take(whole.len() - trailing_len(groups, end_group)),
        index: start,
        params: match_params(keys, groups),
    }
}

/// The match, if any, read from what the engine captured.
pub open spec fn find_model(keys: Seq<KeyModel>, caps: Option<(nat, Seq<Option<Seq<char>>>)>, end_group: bool) -> Option<MatchModel> {
    match caps {
        None => None,
        Some((start, groups)) => Some(match_model(keys, start, groups, end_group)),
    }
}

/// The characters of each optional group text.
pub open spec fn groups_model(gs: Seq<Option<String>>) -> Seq<Option<Seq<char>>> {
    gs.map_values(|g: Option<String>| option_text(g))
}

fn occurs_at_exec(s: &Vec<char>, sep: &Vec<char>, i: usize) -> (r: bool)
    ensures
        r == occurs_at(s@, sep@, i as int),
{
    let n = s.len();
    if i > n || sep.len() > n - i {
        return false;
    }
    let mut k: usize = 0;
    while k < sep.len()
        invariant
            n == s@.len(),
            i + sep@.len() <= n,
            k <= sep@.len(),
            forall|j: int| 0 <= j < k ==> s@[i + j] == sep@[j],
        decreases sep@.len() - k,
    {
        if s[i + k] != sep[k] {
            assert(s@.subrange(i as int, i + sep@.len())[k as int] != sep@[k as int]);
            return false;
        }
        k += 1;
    }
    assert(s@.subrange(i as int, i + sep@.len()) =~= sep@);
    true
}

fn find_first(s: &Vec<char>, sep: &Vec<char>) -> (r: Option<usize>)
    ensures
        match find_from(s@, sep@, 0) {
            None => r is None,
            Some(k) => r == Some(k as usize),
        },
        r matches Some(k) ==> k + sep@.len() <= s@.len(),
{
    if sep.len() > s.len() {
        return None;
    }
    let last = s.len() - sep.len();
    let mut i: usize = 0;
    while i <= last
        invariant
            last + sep@.len() == s@.len(),
            i <= last + 1,
            find_from(s@, sep@, 0) == find_from(s@, sep@, i as int),
        decreases last + 1 - i,
    {
        if occurs_at_exec(s, sep, i) {
            return Some(i);
        }
        if i == last {
            assert(find_from(s@, sep@, i + 1) is None);
            return None;
        }
        i += 1;
    }
    None
}

fn skip_chars(s: &Vec<char>, from: usize) -> (r: Vec<char>)
    requires
        from <= s@.len(),
    ensures
        r@ == s@.skip(from as int),
{
    let mut v: Vec<char> = Vec::new();
    let mut k = from;
    while k < s.len()
        invariant
            from <= k <= s@.len(),
            v@ == s@.subrange(from as int, k as int),
        decreases s@.len() - k,
    {
        v.push(s[k]);
        k += 1;
        assert(v@ =~= s@.subrange(from as int, k as int));
    }
    v
}

fn take_chars(s: &Vec<char>, n: usize) -> (r: Vec<char>)
    requires
        n <= s@.len(),
    ensures
        r@ == s@.take(n as int),
{
    let mut v: Vec<char> = Vec::new();
    let mut k: usize = 0;
    while k < n
        invariant
            k <= n <= s@.len(),
            v@ == s@.take(k as int),
        decreases n - k,
    {
        v.push(s[k]);
        k += 1;
        assert(v@ =~= s@.take(k as int));
    }
    v
}

proof fn lemma_find_bounds(s: Seq<char>, sep: Seq<char>, from: int)
    ensures
        find_from(s, sep, from) matches Some(k) ==> from <= k && k + sep.len() <= s.len() && 0 <= k,
    decreases s.len() + 1 - from,
{
    if !(from < 0 || from + sep.len() > s.len()) && !occurs_at(s, sep, from) {
        lemma_find_bounds(s, sep, from + 1);
    }
}

/// `s` cut at every occurrence of `sep`.
pub fn split_text(s: &Vec<char>, sep: &Vec<char>) -> (r: Vec<String>)
    ensures
        texts_model(r@) == split_on(s@, sep@),
{
    let mut out: Vec<String> = Vec::new();
    if sep.len() == 0 {
        out.push(string_of(s.as_slice()));
        assert(texts_model(out@) =~= split_on(s@, sep@));
        return out;
    }
    let mut rest = s.clone();
    assert(texts_model(out@) + split_on(rest@, sep@) =~= split_on(s@, sep@));
    while true
        invariant
            sep@.len() > 0,
            texts_model(out@) + split_on(rest@, sep@) == split_on(s@, sep@),
        decreases rest@.len(),
    {
        proof {
            lemma_find_bounds(rest@, sep@, 0);
        }
        let n = rest.len();
        let found = find_first(&rest, sep);
        match found {
            None => {
                let ghost before = texts_model(out@);
                out.push(string_of(rest.as_slice()));
                assert(texts_model(out@) =~= before.push(rest@));
                assert(texts_model(out@) =~= before + split_on(rest@, sep@));
                return out;
            },
            Some(k) => {
                let ghost before = texts_model(out@);
                let ghost old_rest = rest@;
                assert(k + sep@.len() <= rest@.len());
                assert(find_from(old_rest, sep@, 0) == Some(k as int));
                let head = take_chars(&rest, k);
                out.push(string_of(head.as_slice()));
                rest = skip_chars(&rest, k + sep.len());
                assert(texts_model(out@) =~= before.push(old_rest.take(k as int)));
                assert(split_on(old_rest, sep@) == seq![old_rest.take(k as int)] + split_on(rest@, sep@));
                assert(texts_model(out@) + split_on(rest@, sep@) =~= before + split_on(old_rest, sep@));
            },
        }
    }
    out
}

fn text_of_group(groups: &Vec<Option<String>>, i: usize) -> (r: Vec<char>)
    ensures
        r@ == group_text(groups_model(groups@), i as int),
{
    if i < groups.len() {
        match &groups[i] {
            Some(t) => chars_of(t.as_str()),
            None => Vec::new(),
        }
    } else {
        Vec::new()
    }
}

/// The match read from a start offset and the group texts of a match (the
/// whole match first): each key's name with the text of its group, cut at
/// its separator when it repeats, and the whole match without the text of
/// the end group when the expression has one.
pub fn match_captures(keys: &Vec<Key>, start: usize, groups: &Vec<Option<String>>, end_group: bool) -> (r: MatchResult)
    ensures
        r@ == match_model(keys_model(keys@), start as nat, groups_model(groups@), end_group),
{
    let ghost km = keys_model(keys@);
    let ghost gm = groups_model(groups@);
    let mut params: Vec<(String, ParamValue)> = Vec::new();
    let mut i: usize = 0;
    while i < keys.len()
        invariant
            i <= keys@.len(),
            km == keys_model(keys@),
            gm == groups_model(groups@),
            params_model(params@) == match_params(km, gm).take(i as int),
        decreases keys@.len() - i,
    {
        let k = &keys[i];
        let t = text_of_group(groups, i + 1);
        let value = if k.repeats() {
            let sep = if k.prefix.as_str().unicode_len() > 0 {
                chars_of(k.prefix.as_str())
            } else {
                chars_of(k.suffix.as_str())
            };
            ParamValue::List(split_text(&t, &sep))
        } else {
            ParamValue::Text(string_of(t.as_slice()))
        };
        let ghost before = params_model(params@);
        params.push((k.name.clone(), value));
        assert(params_model(params@) =~= before.push((km[i as int].name, key_value(km[i as int], group_text(gm, i + 1)))));
        assert(match_params(km, gm).take(i + 1) =~= match_params(km, gm).take(i as int).push(match_params(km, gm)[i as int]));
        i += 1;
    }
    assert(match_params(km, gm).take(keys@.len() as int) =~= match_params(km, gm));
    let whole = text_of_group(groups, 0);
    let mut cut: usize = 0;
    if end_group && groups.len() >= 2 {
        let last = text_of_group(groups, groups.len() - 1);
        if last.len() <= whole.len() {
            cut = last.len();
        }
    }
    let path = take_chars(&whole, whole.len() - cut);
    MatchResult { path: string_of(path.as_slice()), index: start, params }
}

/// The settings of a matcher.
#[derive(Clone, Debug)]
pub struct MatcherOptions {
    /// The characters that separate path segments.
    pub delimiter: String,
    /// The characters that become a parameter's prefix when they stand
    /// right before it.
    pub prefixes: String,
    /// Whether matching tells upper from lower case.
    pub sensitive: bool,
    /// Whether an optional trailing delimiter is refused.
    pub strict: bool,
    /// Whether the match must reach the end of the path.
    pub end: bool,
    /// Whether the match must begin at the start of the path.
    pub start: bool,
    /// Further characters that may end a match.
    pub ends_with: String,
}

impl MatcherOptions {
    /// The default settings.
    pub fn new() -> (r: Self)
        ensures
            r.delimiter@ == DEFAULT_DELIMITER@,
            r.prefixes@ == DEFAULT_PREFIXES@,
            !r.sensitive,
            !r.strict,
            r.end,
            r.start,
            r.ends_with@ == Seq::<char>::empty(),
    {
        MatcherOptions {
            delimiter: String::from_str(DEFAULT_DELIMITER),
            prefixes: String::from_str(DEFAULT_PREFIXES),
            sensitive: false,
            strict: false,
            end: true,
            start: true,
            ends_with: String::new(),
        }
    }

    /// The same settings for regular-expression generation.
    pub fn regex_options(&self) -> (r: PathRegexOptions)
        ensures
            r == regex_options_of(*self),
    {
        PathRegexOptions {
            delimiter: self.delimiter.clone(),
            prefixes: self.prefixes.clone(),
            sensitive: self.sensitive,
            strict: self.strict,
            end: self.end,
            start: self.start,
            ends_with: self.ends_with.clone(),
        }
    }
}

impl Default for MatcherOptions {
    fn default() -> (r: Self)
        ensures
            r.delimiter@ == DEFAULT_DELIMITER@,
            r.prefixes@ == DEFAULT_PREFIXES@,
            !r.sensitive,
            !r.strict,
            r.end,
            r.start,
            r.ends_with@ == Seq::<char>::empty(),
    {
        MatcherOptions::new()
    }
}

/// Matcher settings as regular-expression settings.
pub open spec fn regex_options_of(o: MatcherOptions) -> PathRegexOptions {
    PathRegexOptions {
        delimiter: o.delimiter,
        prefixes: o.prefixes,
        sensitive: o.sensitive,
        strict: o.strict,
        end: o.end,
        start: o.start,
        ends_with: o.ends_with,
    }
}

/// The compiled route of a matcher result, or its error.
pub open spec fn route_result(r: Result<Matcher, PathError>) -> Result<PathRegex, PathError> {
    match r {
        Ok(m) => Ok(m.route()),
        Err(e) => Err(e),
    }
}

/// Matches paths against one compiled route.
pub struct Matcher {
    re: PathRegex,
}

impl Matcher {
    /// The compiled route.
    pub closed spec fn route(&self) -> PathRegex {
        self.re
    }

    /// A matcher for an already compiled route.
    pub fn from_path_regex(re: PathRegex) -> (r: Matcher)
        ensures
            r.route() == re,
    {
        Matcher { re }
    }

    /// Compiles `pattern` with the given settings.
    pub fn new_with_options(pattern: &str, options: MatcherOptions) -> (r: Result<Matcher, PathError>)
        ensures
            compiled_from_pattern(
                route_result(r),
                pattern@,
                regex_options_of(options),
            ),
    {
        match PathRegex::new_with_options(pattern, options.regex_options()) {
            Ok(re) => Ok(Matcher { re }),
            Err(e) => Err(e),
        }
    }

    /// Compiles `pattern` with the default settings.
    pub fn new(pattern: &str) -> (r: Result<Matcher, PathError>)
        ensures
            forall|o: MatcherOptions|
                o.delimiter@ == DEFAULT_DELIMITER@ && o.prefixes@ == DEFAULT_PREFIXES@ && !o.sensitive
                    && !o.strict && o.end && o.start && o.ends_with@ == Seq::<char>::empty()
                    ==> #[trigger] compiled_from_pattern(
                    route_result(r),
                    pattern@,
                    regex_options_of(o),
                ),
    {
        let o = MatcherOptions::new();
        let r = Matcher::new_with_options(pattern, o);
        proof {
            assert forall|o2: MatcherOptions|
                o2.delimiter@ == DEFAULT_DELIMITER@ && o2.prefixes@ == DEFAULT_PREFIXES@ && !o2.sensitive
                    && !o2.strict && o2.end && o2.start && o2.ends_with@ == Seq::<char>::empty()
                implies #[trigger] compiled_from_pattern(
                    route_result(r),
                    pattern@,
                    regex_options_of(o2),
                ) by {
                assert(o2.delimiter@ == o.delimiter@);
                assert(o2.prefixes@ == o.prefixes@);
                assert(o2.ends_with@ == o.ends_with@);
            }
        }
        r
    }

    /// Matches `path`: `None` when the route's expression finds no match,
    /// else the match with its parameters.
    pub fn find(&self, path: &str) -> (r: Option<MatchResult>)
        ensures
            match (r, find_model(
                self.route().key_models(),
                regex_captures(self.route().source(), self.route().insensitive(), path@),
                self.route().has_end_group(),
            )) {
                (None, None) => true,
                (Some(m), Some(mm)) => m@ == mm,
                _ => false,
            },
    {
        match self.re.captures_at(path) {
            None => None,
            Some((start, groups)) => {
                let ghost gs = regex_captures(self.re.source(), self.re.insensitive(), path@).unwrap().1;
                assert(groups_model(groups@) =~= gs);
                Some(match_captures(self.re.keys(), start, &groups, self.re.ends_with_group()))
            },
        }
    }

    /// The keys of the route, in the order of their groups.
    pub fn keys(&self) -> (r: &Vec<Key>)
        ensures
            keys_model(r@) == self.route().key_models(),
            r@ == self.route().key_list(),
    {
        self.re.keys()
    }
}

/// Collects a route pattern and the settings of a matcher for it.
#[derive(Clone, Debug)]
pub struct MatcherBuilder {
    pub source: String,
    pub options: MatcherOptions,
}

impl MatcherBuilder {
    /// A builder for `source` with the default settings.
    pub fn new(source: &str) -> (r: MatcherBuilder)
        ensures
            r.source@ == source@,
            r.options.delimiter@ == DEFAULT_DELIMITER@,
            r.options.prefixes@ == DEFAULT_PREFIXES@,
            !r.options.sensitive,
            !r.options.strict,
            r.options.end,
            r.options.start,
            r.options.ends_with@ == Seq::<char>::empty(),
    {
        MatcherBuilder { source: source.to_owned(), options: MatcherOptions::new() }
    }

    /// A builder for `source` with the given settings.
    pub fn new_with_options(source: &str, options: MatcherOptions) -> (r: MatcherBuilder)
        ensures
            r.source@ == source@,
            r.options == options,
    {
        MatcherBuilder { source: source.to_owned(), options }
    }

    /// Compiles the pattern with the collected settings.
    pub fn build(&self) -> (r: Result<Matcher, PathError>)
        ensures
            compiled_from_pattern(
                route_result(r),
                self.source@,
                regex_options_of(self.options),
            ),
    {
        let o = MatcherOptions {
            delimiter: self.options.delimiter.clone(),
            prefixes: self.options.prefixes.clone(),
            sensitive: self.options.sensitive,
            strict: self.options.strict,
            end: self.options.end,
            start: self.options.start,
            ends_with: self.options.ends_with.clone(),
        };
        Matcher::new_with_options(self.source.as_str(), o)
    }

    /// Sets the characters that may serve as prefixes.
    pub fn set_prefixes(&mut self, prefixes: &str) -> (r: &mut Self)
        ensures
            r.options.prefixes@ == prefixes@,
            r.source == old(self).source,
            r.options == (MatcherOptions { prefixes: r.options.prefixes, ..old(self).options }),
            *final(self) == *final(r),
    {
        self.options.prefixes = prefixes.to_owned();
        self
    }

    /// Sets whether case matters.
    pub fn set_sensitive(&mut self, yes: bool) -> (r: &mut Self)
        ensures
            r.source == old(self).source,
            r.options == (MatcherOptions { sensitive: yes, ..old(self).options }),
            *final(self) == *final(r),
    {
        self.options.sensitive = yes;
        self
    }

    /// Sets whether an optional trailing delimiter is refused.
    pub fn set_strict(&mut self, yes: bool) -> (r: &mut Self)
        ensures
            r.source == old(self).source,
            r.options == (MatcherOptions { strict: yes, ..old(self).options }),
            *final(self) == *final(r),
    {
        self.options.strict = yes;
        self
    }

    /// Sets whether the match must reach the end of the path.
    pub fn set_end(&mut self, yes: bool) -> (r: &mut Self)
        ensures
            r.source == old(self).source,
            r.options == (MatcherOptions { end: yes, ..old(self).options }),
            *final(self) == *final(r),
    {
        self.options.end = yes;
        self
    }

    /// Sets whether the match must begin at the start of the path.
    pub fn set_start(&mut self, yes: bool) -> (r: &mut Self)
        ensures
            r.source == old(self).source,
            r.options == (MatcherOptions { start: yes, ..old(self).options }),
            *final(self) == *final(r),
    {
        self.options.start = yes;
        self
    }

    /// Sets the delimiter characters.
    pub fn set_delimiter(&mut self, delimiter: &str) -> (r: &mut Self)
        ensures
            r.options.delimiter@ == delimiter@,
            r.source == old(self).source,
            r.options == (MatcherOptions { delimiter: r.options.delimiter, ..old(self).options }),
            *final(self) == *final(r),
    {
        self.options.delimiter = delimiter.to_owned();
        self
    }

    /// Sets the extra characters that may end a match.
    pub fn set_ends_with(&mut self, ends_with: &str) -> (r: &mut Self)
        ensures
            r.options.ends_with@ == ends_with@,
            r.source == old(self).source,
            r.options == (MatcherOptions { ends_with: r.options.ends_with, ..old(self).options }),
            *final(self) == *final(r),
    {
        self.options.ends_with = ends_with.to_owned();
        self
    }
}

} // verus!

verus! {

/// Whether `b` is a text that `f` may give for the text `a` of key `k`.
pub open spec fn maps_to<F: Fn(&String, &Key) -> String>(f: F, k: Key, a: Seq<char>, b: Seq<char>) -> bool {
    exists|x: String, y: String| x@ == a && y@ == b && #[trigger] f.ensures((&x, &k), y)
}

/// Whether the value `b` is `a` with each text passed through `f` for key `k`.
pub open spec fn mapped_value<F: Fn(&String, &Key) -> String>(f: F, k: Key, a: ValueModel, b: ValueModel) -> bool {
    match (a, b) {
        (ValueModel::Text(x), ValueModel::Text(y)) => maps_to(f, k, x, y),
        (ValueModel::List(xs), ValueModel::List(ys)) => xs.len() == ys.len() && forall|j: int|
            0 <= j < xs.len() ==> #[trigger] maps_to(f, k, xs[j], ys[j]),
        _ => false,
    }
}

/// Whether `b` is the match `a` with the value of parameter `i` decoded
/// for key `i`; parameters without a key stay as they are.
pub open spec fn decoded_match<F: Fn(&String, &Key) -> String>(decode: F, keys: Seq<Key>, a: MatchModel, b: MatchModel) -> bool {
    &&& b.path == a.path
    &&& b.index == a.index
    &&& b.params.len() == a.params.len()
    &&& forall|i: int| 0 <= i < a.params.len() ==> (#[trigger] b.params[i]).0 == a.params[i].0 && if i < keys.len() {
        mapped_value(decode, keys[i], a.params[i].1, b.params[i].1)
    } else {
        b.params[i].1 == a.params[i].1
    }
}

/// The value with each text passed through `f` together with the key `k`.
pub(crate) fn map_value<F: Fn(&String, &Key) -> String>(v: &ParamValue, k: &Key, decode: &F) -> (r: ParamValue)
    requires
        forall|s: &String, key: &Key| decode.requires((s, key)),
    ensures
        mapped_value(*decode, *k, v@, r@),
{
    match v {
        ParamValue::Text(t) => {
            let y = decode(t, k);
            assert(decode.ensures((t, k), y));
            ParamValue::Text(y)
        },
        ParamValue::List(items) => {
            let mut out: Vec<String> = Vec::new();
            let mut j: usize = 0;
            while j < items.len()
                invariant
                    j <= items@.len(),
                    out@.len() == j,
                    forall|s: &String, key: &Key| decode.requires((s, key)),
                    forall|q: int| 0 <= q < j ==> #[trigger] maps_to(*decode, *k, items@[q]@, out@[q]@),
                decreases items@.len() - j,
            {
                let y = decode(&items[j], k);
                assert(decode.ensures((&items[j as int], k), y));
                assert(maps_to(*decode, *k, items@[j as int]@, y@));
                out.push(y);
                j += 1;
            }
            let r = ParamValue::List(out);
            assert forall|q: int| 0 <= q < items@.len() implies #[trigger] maps_to(*decode, *k, texts_model(items@)[q], texts_model(out@)[q]) by {
                assert(texts_model(items@)[q] == items@[q]@);
                assert(texts_model(out@)[q] == out@[q]@);
            }
            r
        },
    }
}

/// The match with each parameter's value (each item of a list) passed
/// through `decode`, together with the key of that parameter.
pub fn decode_match<F: Fn(&String, &Key) -> String>(m: &MatchResult, keys: &Vec<Key>, decode: &F) -> (r: MatchResult)
    requires
        forall|s: &String, key: &Key| decode.requires((s, key)),
    ensures
        decoded_match(*decode, keys@, m@, r@),
{
    let ghost pm = params_model(m.params@);
    let mut params: Vec<(String, ParamValue)> = Vec::new();
    let mut i: usize = 0;
    while i < m.params.len()
        invariant
            i <= m.params@.len(),
            pm == params_model(m.params@),
            params@.len() == i,
            forall|s: &String, key: &Key| decode.requires((s, key)),
            forall|q: int| 0 <= q < i ==> (#[trigger] params_model(params@)[q]).0 == pm[q].0 && if q < keys@.len() {
                mapped_value(*decode, keys@[q], pm[q].1, params_model(params@)[q].1)
            } else {
                params_model(params@)[q].1 == pm[q].1
            },
        decreases m.params@.len() - i,
    {
        let (name, value) = &m.params[i];
        let v = if i < keys.len() {
            map_value(value, &keys[i], decode)
        } else {
            value.clone_value()
        };
        let ghost before = params@;
        params.push((name.clone(), v));
        proof {
            assert forall|q: int| 0 <= q < i + 1 implies (#[trigger] params_model(params@)[q]).0 == pm[q].0 && if q < keys@.len() {
                mapped_value(*decode, keys@[q], pm[q].1, params_model(params@)[q].1)
            } else {
                params_model(params@)[q].1 == pm[q].1
            } by {
                if q < i {
                    assert(params_model(params@)[q] == params_model(before)[q]);
                }
            }
        }
        i += 1;
    }
    MatchResult { path: m.path.clone(), index: m.index, params }
}

impl ParamValue {
    /// A copy of this value.
    pub fn clone_value(&self) -> (r: ParamValue)
        ensures
            r@ == self@,
    {
        match self {
            ParamValue::Text(t) => ParamValue::Text(t.clone()),
            ParamValue::List(items) => {
                let mut out: Vec<String> = Vec::new();
                let mut j: usize = 0;
                while j < items.len()
                    invariant
                        j <= items@.len(),
                        out@.len() == j,
                        forall|q: int| 0 <= q < j ==> out@[q] == items@[q],
                    decreases items@.len() - j,
                {
                    out.push(items[j].clone());
                    j += 1;
                }
                assert(out@ =~= items@);
                ParamValue::List(out)
            },
        }
    }
}

impl Matcher {
    /// Matches `path` like `find`, then passes each parameter's value (each
    /// item of a list) through `decode` with the parameter's key.
    pub fn find_with<F: Fn(&String, &Key) -> String>(&self, path: &str, decode: &F) -> (r: Option<MatchResult>)
        requires
            forall|s: &String, key: &Key| decode.requires((s, key)),
        ensures
            r is None <==> find_model(
                self.route().key_models(),
                regex_captures(self.route().source(), self.route().insensitive(), path@),
                self.route().has_end_group(),
            ) is None,
            r is Some ==> decoded_match(*decode, self.route().key_list(), find_model(
                self.route().key_models(),
                regex_captures(self.route().source(), self.route().insensitive(), path@),
                self.route().has_end_group(),
            )->Some_0, r->Some_0@),
    {
        let found = self.find(path);
        match found {
            None => {
                assert(find_model(
                    self.route().key_models(),
                    regex_captures(self.route().source(), self.route().insensitive(), path@),
                    self.route().has_end_group(),
                ) is None);
                None
            },
            Some(m) => {
                let keys = self.keys();
                let d = decode_match(&m, keys, decode);
                proof {
                    let mm = find_model(
                        self.route().key_models(),
                        regex_captures(self.route().source(), self.route().insensitive(), path@),
                        self.route().has_end_group(),
                    ).unwrap();
                    assert(m@ == mm);
                }
                Some(d)
            },
        }
    }
}

} // verus!
