//! The syntax tree of a route pattern: literal text and parameter keys.
use vstd::prelude::*;

verus! {

/// A parameter of a route pattern.
#[derive(Eq, PartialEq, Clone, Default, Debug)]
pub struct Key {
    /// The name of the parameter, or its position for an unnamed one.
    pub name: String,
    /// Literal text that stands before the parameter.
    pub prefix: String,
    /// Literal text that stands after the parameter.
    pub suffix: String,
    /// The regular expression the parameter's value must match.
    pub pattern: String,
    /// One of "", "?", "+" or "*".
    pub modifier: String,
}

/// A `Key` as plain character sequences.
pub struct KeyModel {
    pub name: Seq<char>,
    pub prefix: Seq<char>,
    pub suffix: Seq<char>,
    pub pattern: Seq<char>,
    pub modifier: Seq<char>,
}

impl View for Key {
    type V = KeyModel;

    open spec fn view(&self) -> KeyModel {
        KeyModel {
            name: self.name@,
            prefix: self.prefix@,
            suffix: self.suffix@,
            pattern: self.pattern@,
            modifier: self.modifier@,
        }
    }
}

/// A node of the syntax tree.
#[derive(Clone, PartialEq, Eq, Debug)]
pub enum Token {
    /// Literal text, already unescaped.
    Static(String),
    /// A parameter.
    Key(Key),
}

/// A `Token` as plain values.
pub enum TokenModel {
    Static(Seq<char>),
    Key(KeyModel),
}

impl View for Token {
    type V = TokenModel;

    open spec fn view(&self) -> TokenModel {
        match self {
            Token::Static(s) => TokenModel::Static(s@),
            Token::Key(k) => TokenModel::Key(k@),
        }
    }
}

/// The models of a list of tokens.
pub open spec fn tokens_model(ts: Seq<Token>) -> Seq<TokenModel> {
    ts.map_values(|t: Token| t@)
}

/// The models of a list of keys.
pub open spec fn keys_model(ks: Seq<Key>) -> Seq<KeyModel> {
    ks.map_values(|k: Key| k@)
}

/// Whether a modifier repeats its parameter.
pub open spec fn is_repeat(m: Seq<char>) -> bool {
    m.len() == 1 && (m[0] == '+' || m[0] == '*')
}

/// Whether a modifier lets its parameter be left out.
pub open spec fn is_optional(m: Seq<char>) -> bool {
    m.len() == 1 && (m[0] == '?' || m[0] == '*')
}

impl Key {
    /// A copy of this key, field by field.
    pub fn duplicate(&self) -> (r: Key)
        ensures
            r@ == self@,
    {
        Key {
            name: self.name.clone(),
            prefix: self.prefix.clone(),
            suffix: self.suffix.clone(),
            pattern: self.pattern.clone(),
            modifier: self.modifier.clone(),
        }
    }

    /// Whether the modifier is "+" or "*".
    pub fn repeats(&self) -> (r: bool)
        ensures
            r == is_repeat(self.modifier@),
    {
        let m = crate::text::chars_of(self.modifier.as_str());
        m.len() == 1 && (m[0] == '+' || m[0] == '*')
    }

    /// Whether the modifier is "?" or "*".
    pub fn optional(&self) -> (r: bool)
        ensures
            r == is_optional(self.modifier@),
    {
        let m = crate::text::chars_of(self.modifier.as_str());
        m.len() == 1 && (m[0] == '?' || m[0] == '*')
    }
}

impl Token {
    /// A copy of this token, field by field.
    pub fn duplicate(&self) -> (r: Token)
        ensures
            r@ == self@,
    {
        match self {
            Token::Static(s) => Token::Static(s.clone()),
            Token::Key(k) => Token::Key(k.duplicate()),
        }
    }
}

} // verus!
