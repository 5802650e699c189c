use vstd::prelude::*;
use crate::token::{Token, TokenType, keyword_kind, push_char};
use vstd::std_specs::iter::IteratorSpec;

verus! {

broadcast use vstd::string::group_string_axioms, vstd::string::next_postcondition, vstd::string::axiom_spec_iter;

pub open spec fn is_whitespace(c: char) -> bool {
    c == ' ' || c == '\t' || c == '\n' || c == '\r'
}

pub open spec fn spec_is_letter(c: char) -> bool {
    ('a' <= c && c <= 'z') || ('A' <= c && c <= 'Z') || c == '_'
}

pub open spec fn spec_is_digit(c: char) -> bool {
    '0' <= c && c <= '9'
}

/// The kind of a token made of the single character `c`, if any.
pub open spec fn single_kind(c: char) -> Option<TokenType> {
    if c == '=' {
        Some(TokenType::Assign)
    } else if c == '+' {
        Some(TokenType::Plus)
    } else if c == '-' {
        Some(TokenType::Minus)
    } else if c == '!' {
        Some(TokenType::Bang)
    } else if c == '*' {
        Some(TokenType::Asterisk)
    } else if c == '/' {
        Some(TokenType::Slash)
    } else if c == '<' {
        Some(TokenType::LessThan)
    } else if c == '>' {
        Some(TokenType::GreaterThan)
    } else if c == ',' {
        Some(TokenType::Comma)
    } else if c == ';' {
        Some(TokenType::Semicolon)
    } else if c == '(' {
        Some(TokenType::LParen)
    } else if c == ')' {
        Some(TokenType::RParen)
    } else if c == '{' {
        Some(TokenType::LBrace)
    } else if c == '}' {
        Some(TokenType::RBrace)
    } else {
        None
    }
}

/// The first position at or after `i` that holds no whitespace.
pub open spec fn skip_ws(s: Seq<char>, i: int) -> int
    decreases s.len() - i,
{
    if 0 <= i < s.len() && is_whitespace(s[i]) {
        skip_ws(s, i + 1)
    } else {
        i
    }
}

/// The end of the maximal run, from `i`, of letters (`letters`) or of digits.
pub open spec fn run_end(s: Seq<char>, i: int, letters: bool) -> int
    decreases s.len() - i,
{
    if 0 <= i < s.len() && (if letters { spec_is_letter(s[i]) } else { spec_is_digit(s[i]) }) {
        run_end(s, i + 1, letters)
    } else {
        i
    }
}

/// The token read from position `i` of `s`: its kind, its text, and the position after it.
pub open spec fn lex(s: Seq<char>, i: int) -> (TokenType, Seq<char>, int) {
    let j = skip_ws(s, i);
    if j >= s.len() {
        (TokenType::EOF, Seq::empty(), j)
    } else if s[j] == '=' && j + 1 < s.len() && s[j + 1] == '=' {
        (TokenType::Eq, seq!['=', '='], j + 2)
    } else if s[j] == '!' && j + 1 < s.len() && s[j + 1] == '=' {
        (TokenType::NotEq, seq!['!', '='], j + 2)
    } else if single_kind(s[j]) is Some {
        (single_kind(s[j])->0, seq![s[j]], j + 1)
    } else if spec_is_letter(s[j]) {
        let e = run_end(s, j, true);
        (keyword_kind(s.subrange(j, e)), s.subrange(j, e), e)
    } else if spec_is_digit(s[j]) {
        let e = run_end(s, j, false);
        (TokenType::Int, s.subrange(j, e), e)
    } else {
        (TokenType::Illegal, seq![s[j]], j + 1)
    }
}

pub proof fn lemma_skip_ws(s: Seq<char>, i: int)
    requires
        0 <= i <= s.len(),
    ensures
        i <= skip_ws(s, i) <= s.len(),
        skip_ws(s, i) < s.len() ==> !is_whitespace(s[skip_ws(s, i)]),
        forall|k: int| i <= k < skip_ws(s, i) ==> is_whitespace(s[k]),
    decreases s.len() - i,
{
    if 0 <= i < s.len() && is_whitespace(s[i]) {
        lemma_skip_ws(s, i + 1);
    }
}

pub proof fn lemma_run_end(s: Seq<char>, i: int, letters: bool)
    requires
        0 <= i <= s.len(),
    ensures
        i <= run_end(s, i, letters) <= s.len(),
        forall|k: int|
            i <= k < run_end(s, i, letters) ==> (if letters {
                spec_is_letter(#[trigger] s[k])
            } else {
                spec_is_digit(s[k])
            }),
    decreases s.len() - i,
{
    if 0 <= i < s.len() && (if letters { spec_is_letter(s[i]) } else { spec_is_digit(s[i]) }) {
        lemma_run_end(s, i + 1, letters);
    }
}

/// Reading a token never moves backwards and stays within the input; a token
/// other than the end of input consumes at least one character, and the end of
/// input is read again at the position it leaves.
pub proof fn lemma_lex(s: Seq<char>, i: int)
    requires
        0 <= i <= s.len(),
    ensures
        i <= lex(s, i).2 <= s.len(),
        lex(s, i).0 != TokenType::EOF ==> lex(s, i).2 > i,
        lex(s, i).0 == TokenType::EOF ==> lex(s, lex(s, i).2).0 == TokenType::EOF
            && lex(s, lex(s, i).2).2 == lex(s, i).2,
        lex(s, i).0 == TokenType::Int ==> forall|k: int|
            0 <= k < lex(s, i).1.len() ==> spec_is_digit(#[trigger] lex(s, i).1[k]),
{
    lemma_skip_ws(s, i);
    let j = skip_ws(s, i);
    if j < s.len() && spec_is_letter(s[j]) {
        lemma_run_end(s, j, true);
        lemma_run_end(s, j + 1, true);
    }
    if j < s.len() && spec_is_digit(s[j]) {
        lemma_run_end(s, j, false);
        lemma_run_end(s, j + 1, false);
    }
    if j >= s.len() {
        lemma_skip_ws(s, j);
    }
}

/// A character cursor over the source text.
pub struct Lexer {
    pub input: Vec<char>,
    pub pos: usize,
}

pub fn is_letter(ch: char) -> (r: bool)
    ensures
        r == spec_is_letter(ch),
{
    ('a' <= ch && ch <= 'z') || ('A' <= ch && ch <= 'Z') || ch == '_'
}

pub fn is_digit(ch: char) -> (r: bool)
    ensures
        r == spec_is_digit(ch),
{
    '0' <= ch && ch <= '9'
}

fn single_token(t: TokenType, c: char) -> (r: Token)
    ensures
        r.t == t,
        r.v@ == seq![c],
{
    let mut v = String::new();
    push_char(&mut v, c);
    Token::new(t, v)
}

impl Lexer {
    pub open spec fn wf(&self) -> bool {
        self.pos <= self.input@.len()
    }

    /// The characters of `input`, in order.
    pub fn new(input: &str) -> (r: Lexer)
        ensures
            r.input@ == input@,
            r.pos == 0,
            r.wf(),
    {
        let mut chars = input.chars();
        let mut v: Vec<char> = Vec::new();
        loop
            invariant
                v@ + chars.remaining() == input@,
                chars.decrease() is Some,
            ensures
                v@ == input@,
            decreases chars.decrease()->0,
        {
            match chars.next() {
                Some(c) => {
                    v.push(c);
                },
                None => {
                    assert(chars.remaining().len() == 0);
                    assert(v@ =~= input@);
                    break ;
                },
            }
        }
        Lexer { input: v, pos: 0 }
    }

    fn current(&self) -> (r: Option<char>)
        requires
            self.wf(),
        ensures
            self.pos < self.input@.len() ==> r == Some(self.input@[self.pos as int]),
            self.pos >= self.input@.len() ==> r is None,
    {
        if self.pos < self.input.len() {
            Some(self.input[self.pos])
        } else {
            None
        }
    }

    fn read_char(&mut self)
        requires
            old(self).wf(),
            old(self).pos < old(self).input@.len(),
        ensures
            final(self).wf(),
            final(self).input == old(self).input,
            final(self).pos == old(self).pos + 1,
    {
        let n = self.input.len();
        assert(self.pos < n);
        self.pos = self.pos + 1;
    }

    fn eat_whitespace(&mut self)
        requires
            old(self).wf(),
        ensures
            final(self).wf(),
            final(self).input == old(self).input,
            final(self).pos == skip_ws(old(self).input@, old(self).pos as int),
    {
        proof {
            lemma_skip_ws(self.input@, self.pos as int);
        }
        while self.pos < self.input.len() && (self.input[self.pos] == ' ' || self.input[self.pos]
            == '\t' || self.input[self.pos] == '\n' || self.input[self.pos] == '\r')
            invariant
                self.wf(),
                self.input == old(self).input,
                skip_ws(self.input@, self.pos as int) == skip_ws(
                    old(self).input@,
                    old(self).pos as int,
                ),
            decreases self.input@.len() - self.pos,
        {
            self.read_char();
        }
    }

    /// Reads the maximal run of letters (`letters`) or digits from the cursor.
    fn read_ident(&mut self, letters: bool) -> (r: Vec<char>)
        requires
            old(self).wf(),
        ensures
            final(self).wf(),
            final(self).input == old(self).input,
            final(self).pos == run_end(old(self).input@, old(self).pos as int, letters),
            r@ == old(self).input@.subrange(old(self).pos as int, final(self).pos as int),
    {
        let mut ident: Vec<char> = Vec::new();
        let start: usize = self.pos;
        loop
            invariant
                self.wf(),
                self.input == old(self).input,
                start == old(self).pos,
                start <= self.pos,
                run_end(self.input@, self.pos as int, letters) == run_end(
                    self.input@,
                    start as int,
                    letters,
                ),
                ident@ == self.input@.subrange(start as int, self.pos as int),
            ensures
                self.pos == run_end(self.input@, start as int, letters),
            decreases self.input@.len() - self.pos,
        {
            if self.pos >= self.input.len() {
                assert(run_end(self.input@, self.pos as int, letters) == self.pos as int);
                break ;
            }
            let c = self.input[self.pos];
            let ok = if letters {
                is_letter(c)
            } else {
                is_digit(c)
            };
            if !ok {
                assert(run_end(self.input@, self.pos as int, letters) == self.pos as int);
                break ;
            }
            ident.push(c);
            self.read_char();
            assert(ident@ =~= self.input@.subrange(start as int, self.pos as int));
        }
        ident
    }

    /// Reads the next token and moves the cursor past it; at the end of the
    /// input it yields `EOF` with empty text, as often as it is asked.
    pub fn next_token(&mut self) -> (r: Token)
        requires
            old(self).wf(),
        ensures
            final(self).wf(),
            final(self).input == old(self).input,
            (r.t, r.v@, final(self).pos as int) == lex(old(self).input@, old(self).pos as int),
    {
        self.eat_whitespace();
        let j = self.pos;
        proof {
            lemma_skip_ws(self.input@, old(self).pos as int);
        }
        let c = match self.current() {
            Some(c) => c,
            None => {
                return Token::new(TokenType::EOF, String::new());
            },
        };
        if c == '=' && self.input.len() - j > 1 && self.input[j + 1] == '=' {
            self.pos = j + 2;
            let mut v = String::new();
            push_char(&mut v, '=');
            push_char(&mut v, '=');
            return Token::new(TokenType::Eq, v);
        }
        if c == '!' && self.input.len() - j > 1 && self.input[j + 1] == '=' {
            self.pos = j + 2;
            let mut v = String::new();
            push_char(&mut v, '!');
            push_char(&mut v, '=');
            return Token::new(TokenType::NotEq, v);
        }
        let single = match c {
            '=' => Some(TokenType::Assign),
            '+' => Some(TokenType::Plus),
            '-' => Some(TokenType::Minus),
            '!' => Some(TokenType::Bang),
            '*' => Some(TokenType::Asterisk),
            '/' => Some(TokenType::Slash),
            '<' => Some(TokenType::LessThan),
            '>' => Some(TokenType::GreaterThan),
            ',' => Some(TokenType::Comma),
            ';' => Some(TokenType::Semicolon),
            '(' => Some(TokenType::LParen),
            ')' => Some(TokenType::RParen),
            '{' => Some(TokenType::LBrace),
            '}' => Some(TokenType::RBrace),
            _ => None,
        };
        assert(single == single_kind(c));
        if let Some(t) = single {
            self.read_char();
            return single_token(t, c);
        }
        if is_letter(c) {
            let word = self.read_ident(true);
            return Token::from_word(&word);
        }
        if is_digit(c) {
            let digits = self.read_ident(false);
            return Token::new(TokenType::Int, crate::token::string_of(&digits));
        }
        self.read_char();
        single_token(TokenType::Illegal, c)
    }
}

} // verus!
