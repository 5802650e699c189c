use vstd::prelude::*;

verus! {

/// The lexical category of a token.
#[derive(Debug, Clone, Copy, PartialEq, Eq, Structural)]
pub enum TokenType {
    Illegal,
    EOF,
    Ident,
    Int,
    Assign,
    Plus,
    Minus,
    Bang,
    Asterisk,
    Slash,
    LessThan,
    GreaterThan,
    Eq,
    NotEq,
    Comma,
    Semicolon,
    LParen,
    RParen,
    LBrace,
    RBrace,
    Function,
    Let,
    True,
    False,
    If,
    Else,
    Return,
}

/// A token: its kind and the exact text it was read from.
#[derive(Debug, Clone, PartialEq, Eq, Default)]
pub struct Token {
    pub t: TokenType,
    pub v: String,
}

impl Default for TokenType {
    fn default() -> (r: TokenType)
        ensures
            r == TokenType::Illegal,
    {
        TokenType::Illegal
    }
}

/// The keyword named by `s`, or `Ident` when `s` is no keyword.
pub open spec fn keyword_kind(s: Seq<char>) -> TokenType {
    if s == seq!['f', 'n'] {
        TokenType::Function
    } else if s == seq!['l', 'e', 't'] {
        TokenType::Let
    } else if s == seq!['t', 'r', 'u', 'e'] {
        TokenType::True
    } else if s == seq!['f', 'a', 'l', 's', 'e'] {
        TokenType::False
    } else if s == seq!['i', 'f'] {
        TokenType::If
    } else if s == seq!['e', 'l', 's', 'e'] {
        TokenType::Else
    } else if s == seq!['r', 'e', 't', 'u', 'r', 'n'] {
        TokenType::Return
    } else {
        TokenType::Ident
    }
}

/// Relies on String::push: appends one character at the end.
#[verifier::external_body]
pub(crate) fn push_char(s: &mut String, c: char)
    ensures
        final(s)@ == old(s)@.push(c),
{
    s.push(c)
}

/// A string holding the characters of `v`, in order.
pub fn string_of(v: &Vec<char>) -> (r: String)
    ensures
        r@ == v@,
{
    let mut r = String::new();
    let mut i: usize = 0;
    while i < v.len()
        invariant
            i <= v.len(),
            r@ == v@.subrange(0, i as int),
        decreases v.len() - i,
    {
        push_char(&mut r, v[i]);
        i = i + 1;
        assert(r@ =~= v@.subrange(0, i as int));
    }
    assert(r@ =~= v@);
    r
}

fn seq_eq(a: &Vec<char>, b: &[char]) -> (r: bool)
    ensures
        r == (a@ == b@),
{
    if a.len() != b.len() {
        return false;
    }
    let mut i: usize = 0;
    while i < a.len()
        invariant
            a.len() == b@.len(),
            i <= a.len(),
            forall|k: int| 0 <= k < i ==> a@[k] == b@[k],
        decreases a.len() - i,
    {
        if a[i] != b[i] {
            return false;
        }
        i = i + 1;
    }
    assert(a@ =~= b@);
    true
}

impl Token {
    /// A copy of this token.
    pub fn duplicate(&self) -> (r: Token)
        ensures
            r.t == self.t,
            r.v@ == self.v@,
    {
        Token { t: self.t, v: self.v.clone() }
    }

    pub fn new(t: TokenType, v: String) -> (r: Token)
        ensures
            r.t == t,
            r.v@ == v@,
    {
        Token { t, v }
    }

    /// The token for a word read from the source: a keyword or an identifier.
    pub fn from_word(word: &Vec<char>) -> (r: Token)
        ensures
            r.t == keyword_kind(word@),
            r.v@ == word@,
    {
        let t = if seq_eq(word, &['f', 'n']) {
            TokenType::Function
        } else if seq_eq(word, &['l', 'e', 't']) {
            TokenType::Let
        } else if seq_eq(word, &['t', 'r', 'u', 'e']) {
            TokenType::True
        } else if seq_eq(word, &['f', 'a', 'l', 's', 'e']) {
            TokenType::False
        } else if seq_eq(word, &['i', 'f']) {
            TokenType::If
        } else if seq_eq(word, &['e', 'l', 's', 'e']) {
            TokenType::Else
        } else if seq_eq(word, &['r', 'e', 't', 'u', 'r', 'n']) {
            TokenType::Return
        } else {
            TokenType::Ident
        };
        proof {
            assert(seq!['f', 'n'] =~= (['f', 'n'])@);
        }
        Token { t, v: string_of(word) }
    }
}

} // verus!
