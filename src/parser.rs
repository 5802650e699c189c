use vstd::prelude::*;
use crate::token::{Token, TokenType};
use vstd::string::StrSliceExecFns;
use crate::lexer::{Lexer, lex, lemma_lex};
use crate::ast::{
    BlockStatement, Expression, ExpressionStatement, Identifier, LetStatement, Program,
    ReturnStatement, Statement, render_expr, render_stmt, render_stmts, render_args,
    render_params,
};
use crate::grammar::{
    lemma_step, after, kind_at, text_at, lowest, sp_expression, sp_infix_loop, sp_prefix, sp_prefix_op,
    sp_group, sp_if, sp_fn, sp_params, sp_params_loop, sp_call_args, sp_args_loop, sp_block,
    sp_block_loop, sp_statement, sp_let, sp_return, sp_expression_statement, sp_program,
};

verus! {

/// Binding strength of operators, from loosest to tightest.
#[derive(Debug, Clone, Copy, PartialEq, Eq, Structural, PartialOrd, Ord)]
pub enum Precedence {
    Lowest,
    Equals,
    LessGreater,
    Sum,
    Product,
    Prefix,
    Call,
}

/// The grammar expectation that a statement failed to meet.
#[derive(Debug, Clone, Copy, PartialEq, Eq, Structural)]
pub enum ParserError {
    TokenUnrecognized,
    IdentExpected,
    AssignExpected,
    IntegerParsingFailed,
    BooleanParsingFailed,
    GroupExpressionParsingFailed,
    IncorrectIfStatement,
    IncorrectFunctionDeclaration,
}

pub open spec fn spec_rank(p: Precedence) -> nat {
    match p {
        Precedence::Lowest => 0,
        Precedence::Equals => 1,
        Precedence::LessGreater => 2,
        Precedence::Sum => 3,
        Precedence::Product => 4,
        Precedence::Prefix => 5,
        Precedence::Call => 6,
    }
}

/// The infix precedence of a token kind; `Lowest` for a kind that is no infix operator.
pub open spec fn token_precedence(t: TokenType) -> Precedence {
    match t {
        TokenType::Eq | TokenType::NotEq => Precedence::Equals,
        TokenType::LessThan | TokenType::GreaterThan => Precedence::LessGreater,
        TokenType::Plus | TokenType::Minus => Precedence::Sum,
        TokenType::Asterisk | TokenType::Slash => Precedence::Product,
        TokenType::LParen => Precedence::Call,
        _ => Precedence::Lowest,
    }
}

/// Whether an expression can start with a token of kind `t`.
pub open spec fn starts_expression(t: TokenType) -> bool {
    t == TokenType::Ident || t == TokenType::Int || t == TokenType::True || t == TokenType::False
        || t == TokenType::Bang || t == TokenType::Minus || t == TokenType::LParen || t
        == TokenType::If || t == TokenType::Function
}

/// A parse outcome with the tree replaced by its canonical text.
pub open spec fn expr_outcome(r: Result<Expression, ParserError>) -> Result<Seq<char>, ParserError> {
    match r {
        Ok(e) => Ok(render_expr(e)),
        Err(x) => Err(x),
    }
}

pub open spec fn stmt_outcome(r: Result<Statement, ParserError>) -> Result<Seq<char>, ParserError> {
    match r {
        Ok(st) => Ok(render_stmt(st)),
        Err(x) => Err(x),
    }
}

pub open spec fn block_outcome(r: Result<BlockStatement, ParserError>) -> Result<
    Seq<char>,
    ParserError,
> {
    match r {
        Ok(b) => Ok(render_stmts(b.statements@)),
        Err(x) => Err(x),
    }
}

pub open spec fn args_outcome(r: Result<Vec<Expression>, ParserError>) -> Result<
    Seq<char>,
    ParserError,
> {
    match r {
        Ok(v) => Ok(render_args(v@)),
        Err(x) => Err(x),
    }
}

pub open spec fn params_outcome(r: Result<Vec<Identifier>, ParserError>) -> Result<
    Seq<char>,
    ParserError,
> {
    match r {
        Ok(v) => Ok(render_params(v@)),
        Err(x) => Err(x),
    }
}

/// The value of a run of decimal digits.
pub open spec fn digits_value(s: Seq<char>) -> int
    decreases s.len(),
{
    if s.len() == 0 {
        0
    } else {
        digits_value(s.drop_last()) * 10 + (s.last() as int - '0' as int)
    }
}

pub open spec fn all_digits(s: Seq<char>) -> bool {
    forall|i: int| 0 <= i < s.len() ==> '0' <= #[trigger] s[i] && s[i] <= '9'
}

proof fn lemma_digits_grow(s: Seq<char>, i: int)
    requires
        all_digits(s),
        0 <= i <= s.len(),
    ensures
        0 <= digits_value(s.take(i)) <= digits_value(s),
    decreases s.len() - i,
{
    if i < s.len() {
        lemma_digits_grow(s, i + 1);
        assert(s.take(i + 1).drop_last() =~= s.take(i));
        assert(s.take(i + 1).last() == s[i]);
    } else {
        assert(s.take(i) =~= s);
    }
    lemma_digits_nonneg(s.take(i));
}

proof fn lemma_digits_nonneg(s: Seq<char>)
    requires
        all_digits(s),
    ensures
        digits_value(s) >= 0,
    decreases s.len(),
{
    if s.len() > 0 {
        assert(all_digits(s.drop_last()));
        lemma_digits_nonneg(s.drop_last());
    }
}

/// The value of a run of decimal digits as an `i64`, or `None` when it exceeds `i64::MAX`.
pub fn parse_digits(s: &String) -> (r: Option<i64>)
    requires
        all_digits(s@),
    ensures
        r is Some <==> digits_value(s@) <= i64::MAX,
        r is Some ==> r->0 == digits_value(s@),
{
    let cs = s.as_str();
    let n = cs.unicode_len();
    let mut v: i64 = 0;
    let mut i: usize = 0;
    proof {
        lemma_digits_grow(s@, 0);
    }
    while i < n
        invariant
            n == s@.len(),
            cs@ == s@,
            i <= n,
            all_digits(s@),
            v == digits_value(s@.take(i as int)),
        decreases n - i,
    {
        let c = cs.get_char(i);
        assert('0' <= s@[i as int] && s@[i as int] <= '9');
        let d: i64 = (c as u32 - '0' as u32) as i64;
        assert(s@.take(i + 1).drop_last() =~= s@.take(i as int));
        assert(s@.take(i + 1).last() == c);
        assert(digits_value(s@.take(i + 1)) == v * 10 + d);
        proof {
            lemma_digits_grow(s@, i + 1);
            lemma_digits_grow(s@, i as int);
        }
        match v.checked_mul(10) {
            Some(m) => match m.checked_add(d) {
                Some(w) => {
                    v = w;
                },
                None => {
                    return None;
                },
            },
            None => {
                return None;
            },
        }
        i = i + 1;
    }
    assert(s@.take(i as int) =~= s@);
    Some(v)
}


/// A parser over the tokens of one source text: the current token and the one after it.
pub struct Parser {
    lexer: Lexer,
    curr_token: Token,
    peek_token: Token,
    pub errors: Vec<ParserError>,
    cursor: Ghost<int>,
}

impl Parser {
    /// The source text being parsed.
    pub closed spec fn input(&self) -> Seq<char> {
        self.lexer.input@
    }

    /// The errors recorded so far, in order.
    pub closed spec fn errs(&self) -> Seq<ParserError> {
        self.errors@
    }

    /// The position from which the current token was read.
    pub closed spec fn cursor(&self) -> int {
        self.cursor@
    }

    pub closed spec fn curr_kind(&self) -> TokenType {
        self.curr_token.t
    }

    pub closed spec fn curr_text(&self) -> Seq<char> {
        self.curr_token.v@
    }

    pub closed spec fn peek_kind(&self) -> TokenType {
        self.peek_token.t
    }

    /// The current token is the one read at the cursor, the next token the one after it.
    pub closed spec fn wf(&self) -> bool {
        let s = self.input();
        let q = self.cursor();
        &&& self.lexer.wf()
        &&& 0 <= q <= s.len()
        &&& self.curr_token.t == kind_at(s, q)
        &&& self.curr_token.v@ == text_at(s, q)
        &&& self.peek_token.t == kind_at(s, after(s, q))
        &&& self.peek_token.v@ == text_at(s, after(s, q))
        &&& self.lexer.pos == after(s, after(s, q))
    }

    /// `next` is reached from `self` by reading on, with the errors unchanged.
    pub closed spec fn steps_to(&self, next: &Parser) -> bool {
        &&& next.wf()
        &&& next.input() == self.input()
        &&& next.errors@ == self.errors@
        &&& next.cursor() >= self.cursor()
    }

    pub closed spec fn measure(&self) -> int {
        self.input().len() - self.cursor()
    }

    proof fn lemma_wf(&self)
        requires
            self.wf(),
        ensures
            self.curr_kind() == TokenType::EOF ==> self.peek_kind() == TokenType::EOF,
            self.curr_kind() == TokenType::Int ==> crate::parser::all_digits(self.curr_text()),
    {
        reveal(kind_at);
        reveal(text_at);
        reveal(after);
        lemma_lex(self.input(), self.cursor());
        let a = lex(self.input(), self.cursor());
        if self.curr_kind() == TokenType::Int {
            assert forall|k: int| 0 <= k < self.curr_text().len() implies '0'
                <= #[trigger] self.curr_text()[k] && self.curr_text()[k] <= '9' by {
                assert(crate::lexer::spec_is_digit(a.1[k]));
            }
        }
    }

    /// Reads the first two tokens of the lexer's input.
    pub fn new(lexer: Lexer) -> (r: Parser)
        requires
            lexer.wf(),
        ensures
            r.wf(),
            r.input() == lexer.input@,
            r.cursor() == lexer.pos,
            r.errs().len() == 0,
    {
        let mut lexer = lexer;
        let ghost start = lexer.pos as int;
        let curr_token = lexer.next_token();
        proof {
            lemma_lex(lexer.input@, start);
        }
        let peek_token = lexer.next_token();
        proof {
            reveal(kind_at);
            reveal(text_at);
            reveal(after);
        }
        Parser { lexer, curr_token, peek_token, errors: Vec::new(), cursor: Ghost(start) }
    }

    /// Moves to the next token.
    fn next_token(&mut self)
        requires
            old(self).wf(),
        ensures
            old(self).steps_to(final(self)),
            final(self).cursor() == after(old(self).input(), old(self).cursor()),
            final(self).curr_kind() == old(self).peek_kind(),
            final(self).curr_text() == old(self).peek_text(),
            final(self).peek_kind() == old(self).third_kind(),
            old(self).curr_kind() != TokenType::EOF || old(self).peek_kind() != TokenType::EOF
                ==> final(self).cursor() > old(self).cursor(),
            old(self).curr_kind() == TokenType::EOF ==> final(self).curr_kind() == TokenType::EOF,
    {
        proof {
            lemma_step(self.input(), self.cursor());
            lemma_step(self.input(), after(self.input(), self.cursor()));
        }
        let next = self.lexer.next_token();
        self.curr_token = self.peek_token.duplicate();
        self.peek_token = next;
        self.cursor = Ghost(after(self.input(), self.cursor()));
        proof {
            reveal(kind_at);
            reveal(text_at);
            reveal(after);
        }
    }

    fn finished(&self) -> (r: bool)
        requires
            self.wf(),
        ensures
            r == (self.curr_kind() == TokenType::EOF),
    {
        self.curr_token.t == TokenType::EOF
    }

    fn curr_is(&self, t: TokenType) -> (r: bool)
        ensures
            r == (self.curr_kind() == t),
    {
        self.curr_token.t == t
    }

    fn peek_is(&self, t: TokenType) -> (r: bool)
        ensures
            r == (self.peek_kind() == t),
    {
        self.peek_token.t == t
    }

    /// Moves on when the next token has kind `t`.
    fn expect_peek(&mut self, t: TokenType) -> (r: bool)
        requires
            old(self).wf(),
        ensures
            old(self).steps_to(final(self)),
            r == (old(self).peek_kind() == t),
            r ==> final(self).cursor() == after(old(self).input(), old(self).cursor()),
            r ==> final(self).curr_kind() == t && final(self).curr_text() == old(self).peek_text()
                && final(self).peek_kind() == old(self).third_kind(),
            r && t != TokenType::EOF ==> final(self).cursor() > old(self).cursor(),
            !r ==> *final(self) == *old(self),
    {
        if self.peek_is(t) {
            self.next_token();
            true
        } else {
            false
        }
    }
}


/// The precedence that `t` binds with as an infix operator.
pub fn precedence_of(t: TokenType) -> (r: Precedence)
    ensures
        r == token_precedence(t),
{
    match t {
        TokenType::Eq | TokenType::NotEq => Precedence::Equals,
        TokenType::LessThan | TokenType::GreaterThan => Precedence::LessGreater,
        TokenType::Plus | TokenType::Minus => Precedence::Sum,
        TokenType::Asterisk | TokenType::Slash => Precedence::Product,
        TokenType::LParen => Precedence::Call,
        _ => Precedence::Lowest,
    }
}

impl Precedence {
    /// The level of this precedence: 0 for `Lowest` up to 6 for `Call`.
    pub fn rank(&self) -> (r: u8)
        ensures
            r == spec_rank(*self),
    {
        match self {
            Precedence::Lowest => 0,
            Precedence::Equals => 1,
            Precedence::LessGreater => 2,
            Precedence::Sum => 3,
            Precedence::Product => 4,
            Precedence::Prefix => 5,
            Precedence::Call => 6,
        }
    }
}

impl Parser {
    pub closed spec fn peek_text(&self) -> Seq<char> {
        self.peek_token.v@
    }

    /// The kind of the token after the next one.
    pub closed spec fn third_kind(&self) -> TokenType {
        kind_at(self.input(), self.lexer.pos as int)
    }

    fn parse_identifier(&self) -> (r: Identifier)
        ensures
            r.token.t == self.curr_kind(),
            r.token.v@ == self.curr_text(),
            r.v@ == self.curr_text(),
    {
        Identifier::new(self.curr_token.duplicate(), self.curr_token.v.clone())
    }

    fn parse_integer_literal(&self) -> (r: Result<Expression, ParserError>)
        requires
            self.wf(),
            self.curr_kind() == TokenType::Int,
        ensures
            r is Ok <==> digits_value(self.curr_text()) <= i64::MAX,
            r is Err ==> r == Err::<Expression, ParserError>(ParserError::IntegerParsingFailed),
            r matches Ok(Expression::IntegerLiteral { token, value }) && value == digits_value(
                self.curr_text(),
            ) && token.v@ == self.curr_text() || r is Err,
    {
        proof {
            self.lemma_wf();
        }
        match parse_digits(&self.curr_token.v) {
            Some(value) => Ok(Expression::IntegerLiteral { token: self.curr_token.duplicate(), value }),
            None => Err(ParserError::IntegerParsingFailed),
        }
    }

    fn parse_boolean(&self) -> (r: Result<Expression, ParserError>)
        ensures
            r is Err <==> (self.curr_kind() != TokenType::True && self.curr_kind()
                != TokenType::False),
            r is Err ==> r == Err::<Expression, ParserError>(ParserError::BooleanParsingFailed),
            r matches Ok(Expression::Boolean { token, value }) && value == (self.curr_kind()
                == TokenType::True) && token.v@ == self.curr_text() || r is Err,
    {
        match self.curr_token.t {
            TokenType::True => Ok(Expression::Boolean { token: self.curr_token.duplicate(), value: true }),
            TokenType::False => Ok(
                Expression::Boolean { token: self.curr_token.duplicate(), value: false },
            ),
            _ => Err(ParserError::BooleanParsingFailed),
        }
    }

    /// Parses the expression that starts at the current token, binding operators
    /// tighter than `precedence`; leaves the current token on its last token.
    fn parse_expression(&mut self, precedence: Precedence) -> (r: Result<Expression, ParserError>)
        requires
            old(self).wf(),
        ensures
            (expr_outcome(r), final(self).cursor()) == sp_expression(
                old(self).input(),
                old(self).cursor(),
                spec_rank(precedence),
            ),
            old(self).steps_to(final(self)),
            !starts_expression(old(self).curr_kind()) ==> r == Err::<Expression, ParserError>(
                ParserError::TokenUnrecognized,
            ),
        decreases old(self).measure(), 4nat,
    {
        let mut left = match self.parse_prefix() {
            Ok(e) => e,
            Err(e) => {
                return Err(e);
            },
        };
        loop
            invariant
                old(self).steps_to(self),
                starts_expression(old(self).curr_kind()),
                sp_expression(old(self).input(), old(self).cursor(), spec_rank(precedence))
                    == sp_infix_loop(self.input(), self.cursor(), spec_rank(precedence), render_expr(left)),
            ensures
                self.peek_kind() == TokenType::Semicolon || spec_rank(
                    token_precedence(self.peek_kind()),
                ) <= spec_rank(precedence),
            decreases self.measure(),
        {
            if self.peek_is(TokenType::Semicolon) {
                break ;
            }
            let p = precedence_of(self.peek_token.t);
            if p.rank() <= precedence.rank() {
                break ;
            }
            let ghost q = self.cursor();
            let ghost lt = render_expr(left);
            self.next_token();
            proof {
                lemma_step(self.input(), self.cursor());
            }
            left = if self.curr_is(TokenType::LParen) {
                match self.parse_call_expression(left) {
                    Ok(e) => e,
                    Err(e) => {
                        return Err(e);
                    },
                }
            } else {
                match self.parse_infix_expression(left) {
                    Ok(e) => e,
                    Err(e) => {
                        return Err(e);
                    },
                }
            };
            assert(sp_infix_loop(self.input(), q, spec_rank(precedence), lt) == sp_infix_loop(
                self.input(),
                self.cursor(),
                spec_rank(precedence),
                render_expr(left),
            ));
        }
        Ok(left)
    }

    fn parse_prefix(&mut self) -> (r: Result<Expression, ParserError>)
        requires
            old(self).wf(),
        ensures
            (expr_outcome(r), final(self).cursor()) == sp_prefix(old(self).input(), old(self).cursor()),
            old(self).steps_to(final(self)),
            !starts_expression(old(self).curr_kind()) ==> r == Err::<Expression, ParserError>(
                ParserError::TokenUnrecognized,
            ),
            r is Ok ==> starts_expression(old(self).curr_kind()),
        decreases old(self).measure(), 3nat,
    {
        match self.curr_token.t {
            TokenType::Ident => Ok(Expression::Identifier(self.parse_identifier())),
            TokenType::Int => self.parse_integer_literal(),
            TokenType::True | TokenType::False => self.parse_boolean(),
            TokenType::Bang | TokenType::Minus => self.parse_prefix_expression(),
            TokenType::LParen => self.parse_grouped_expression(),
            TokenType::If => self.parse_if_expression(),
            TokenType::Function => self.parse_function_literal(),
            _ => Err(ParserError::TokenUnrecognized),
        }
    }

    fn parse_prefix_expression(&mut self) -> (r: Result<Expression, ParserError>)
        requires
            old(self).wf(),
            old(self).curr_kind() != TokenType::EOF,
        ensures
            (expr_outcome(r), final(self).cursor()) == sp_prefix_op(
                old(self).input(),
                old(self).cursor(),
            ),
            old(self).steps_to(final(self)),
            r matches Ok(Expression::Prefix { operator, .. }) && operator@ == old(self).curr_text()
                || r is Err,
        decreases old(self).measure(), 2nat,
    {
        let token = self.curr_token.duplicate();
        let operator = self.curr_token.v.clone();
        self.next_token();
        match self.parse_expression(Precedence::Prefix) {
            Ok(right) => Ok(Expression::Prefix { token, operator, right: Box::new(right) }),
            Err(e) => Err(e),
        }
    }

    fn parse_infix_expression(&mut self, left: Expression) -> (r: Result<Expression, ParserError>)
        requires
            old(self).wf(),
            old(self).curr_kind() != TokenType::EOF,
        ensures
            ({
                let s = old(self).input();
                let q = old(self).cursor();
                let (e, q5) = sp_expression(s, after(s, q), spec_rank(token_precedence(kind_at(s, q))));
                &&& final(self).cursor() == q5
                &&& q5 >= after(s, q)
                &&& e is Err ==> r == Err::<Expression, ParserError>(e->Err_0)
                &&& e is Ok ==> r is Ok && render_expr(r->Ok_0) == seq!['('] + render_expr(left)
                    + seq![' '] + text_at(s, q) + seq![' '] + e->Ok_0 + seq![')']
            }),
            old(self).steps_to(final(self)),
            r matches Ok(Expression::Infix { left: l, operator, .. }) && operator@ == old(
                self,
            ).curr_text() && *l == left || r is Err,
        decreases old(self).measure(), 2nat,
    {
        let token = self.curr_token.duplicate();
        let operator = self.curr_token.v.clone();
        let precedence = precedence_of(self.curr_token.t);
        self.next_token();
        match self.parse_expression(precedence) {
            Ok(right) => Ok(
                Expression::Infix { token, left: Box::new(left), operator, right: Box::new(right) },
            ),
            Err(e) => Err(e),
        }
    }

    fn parse_grouped_expression(&mut self) -> (r: Result<Expression, ParserError>)
        requires
            old(self).wf(),
            old(self).curr_kind() == TokenType::LParen,
        ensures
            (expr_outcome(r), final(self).cursor()) == sp_group(old(self).input(), old(self).cursor()),
            old(self).steps_to(final(self)),
        decreases old(self).measure(), 2nat,
    {
        self.next_token();
        let e = match self.parse_expression(Precedence::Lowest) {
            Ok(e) => e,
            Err(e) => {
                return Err(e);
            },
        };
        if !self.expect_peek(TokenType::RParen) {
            return Err(ParserError::GroupExpressionParsingFailed);
        }
        Ok(e)
    }

    fn parse_if_expression(&mut self) -> (r: Result<Expression, ParserError>)
        requires
            old(self).wf(),
            old(self).curr_kind() == TokenType::If,
        ensures
            (expr_outcome(r), final(self).cursor()) == sp_if(old(self).input(), old(self).cursor()),
            old(self).steps_to(final(self)),
        decreases old(self).measure(), 2nat,
    {
        let token = self.curr_token.duplicate();
        self.next_token();
        let condition = match self.parse_expression(Precedence::Lowest) {
            Ok(e) => e,
            Err(e) => {
                return Err(e);
            },
        };
        if !self.expect_peek(TokenType::LBrace) {
            return Err(ParserError::IncorrectIfStatement);
        }
        let consequence = match self.parse_block_statement() {
            Ok(b) => b,
            Err(e) => {
                return Err(e);
            },
        };
        let mut alternative: Option<BlockStatement> = None;
        if self.peek_is(TokenType::Else) {
            self.next_token();
            if !self.expect_peek(TokenType::LBrace) {
                return Err(ParserError::IncorrectIfStatement);
            }
            match self.parse_block_statement() {
                Ok(b) => {
                    alternative = Some(b);
                },
                Err(e) => {
                    return Err(e);
                },
            }
        }
        let r = Expression::If { token, condition: Box::new(condition), consequence, alternative };
        proof {
            let head = seq!['i', 'f', ' '] + render_expr(*r->condition) + seq![' ', '{', ' ']
                + render_stmts(r->consequence.statements@) + seq![' ', '}'];
            match r->alternative {
                Some(alt) => {
                    assert(render_expr(r) =~= head + seq![' ', 'e', 'l', 's', 'e', ' ', '{', ' ']
                        + render_stmts(alt.statements@) + seq![' ', '}']);
                },
                None => {
                    assert(render_expr(r) =~= head);
                },
            }
        }
        Ok(r)
    }

    fn parse_function_literal(&mut self) -> (r: Result<Expression, ParserError>)
        requires
            old(self).wf(),
            old(self).curr_kind() == TokenType::Function,
        ensures
            (expr_outcome(r), final(self).cursor()) == sp_fn(old(self).input(), old(self).cursor()),
            old(self).steps_to(final(self)),
            old(self).peek_kind() != TokenType::LParen ==> r == Err::<Expression, ParserError>(
                ParserError::IncorrectFunctionDeclaration,
            ),
        decreases old(self).measure(), 2nat,
    {
        let token = self.curr_token.duplicate();
        if !self.expect_peek(TokenType::LParen) {
            return Err(ParserError::IncorrectFunctionDeclaration);
        }
        let parameters = match self.parse_function_parameters() {
            Ok(p) => p,
            Err(e) => {
                return Err(e);
            },
        };
        if !self.expect_peek(TokenType::LBrace) {
            return Err(ParserError::IncorrectFunctionDeclaration);
        }
        match self.parse_block_statement() {
            Ok(body) => Ok(Expression::FunctionLiteral { token, parameters, body }),
            Err(e) => Err(e),
        }
    }

    /// Parses `ident, ident, ...)` after an opening parenthesis; leaves the
    /// current token on the closing one.
    fn parse_function_parameters(&mut self) -> (r: Result<Vec<Identifier>, ParserError>)
        requires
            old(self).wf(),
        ensures
            (params_outcome(r), final(self).cursor()) == sp_params(
                old(self).input(),
                old(self).cursor(),
            ),
            old(self).steps_to(final(self)),
            r is Ok ==> final(self).curr_kind() == TokenType::RParen,
    {
        let mut params: Vec<Identifier> = Vec::new();
        self.next_token();
        while !self.curr_is(TokenType::RParen)
            invariant
                old(self).steps_to(self),
                sp_params(old(self).input(), old(self).cursor()) == sp_params_loop(
                    self.input(),
                    self.cursor(),
                    render_params(params@),
                    params@.len() == 0,
                ),
            decreases self.measure(),
        {
            let ghost start = self.cursor();
            let ghost before = params@;
            if self.curr_is(TokenType::Comma) {
                self.next_token();
            }
            if !self.curr_is(TokenType::Ident) {
                return Err(ParserError::IdentExpected);
            }
            params.push(self.parse_identifier());
            assert(params@.drop_last() =~= before);
            self.next_token();
        }
        Ok(params)
    }

    fn parse_call_expression(&mut self, function: Expression) -> (r: Result<
        Expression,
        ParserError,
    >)
        requires
            old(self).wf(),
            old(self).curr_kind() == TokenType::LParen,
        ensures
            ({
                let (a, q3) = sp_call_args(old(self).input(), old(self).cursor());
                &&& final(self).cursor() == q3
                &&& a is Err ==> r == Err::<Expression, ParserError>(a->Err_0)
                &&& a is Ok ==> r is Ok && render_expr(r->Ok_0) == render_expr(function) + seq!['(']
                    + a->Ok_0 + seq![')']
            }),
            old(self).steps_to(final(self)),
            r matches Ok(Expression::Call { function: f, .. }) && *f == function || r is Err,
        decreases old(self).measure(), 2nat,
    {
        let token = self.curr_token.duplicate();
        match self.parse_call_arguments() {
            Ok(arguments) => Ok(Expression::Call { token, function: Box::new(function), arguments }),
            Err(e) => Err(e),
        }
    }

    /// Parses `expr, expr, ...)` after an opening parenthesis; leaves the
    /// current token on the closing one.
    fn parse_call_arguments(&mut self) -> (r: Result<Vec<Expression>, ParserError>)
        requires
            old(self).wf(),
            old(self).curr_kind() == TokenType::LParen,
        ensures
            (args_outcome(r), final(self).cursor()) == sp_call_args(
                old(self).input(),
                old(self).cursor(),
            ),
            old(self).steps_to(final(self)),
            r is Ok ==> final(self).curr_kind() == TokenType::RParen,
        decreases old(self).measure(), 1nat,
    {
        let mut arguments: Vec<Expression> = Vec::new();
        self.next_token();
        while !self.curr_is(TokenType::RParen)
            invariant
                old(self).steps_to(self),
                self.cursor() > old(self).cursor(),
                sp_call_args(old(self).input(), old(self).cursor()) == sp_args_loop(
                    self.input(),
                    self.cursor(),
                    render_args(arguments@),
                    arguments@.len() == 0,
                ),
            decreases self.measure(),
        {
            let ghost start = self.cursor();
            let ghost before = arguments@;
            if self.curr_is(TokenType::Comma) {
                self.next_token();
            }
            match self.parse_expression(Precedence::Lowest) {
                Ok(e) => {
                    arguments.push(e);
                    assert(arguments@.drop_last() =~= before);
                },
                Err(e) => {
                    return Err(e);
                },
            }
            self.next_token();
        }
        Ok(arguments)
    }

    /// Parses the statements after `{` up to the matching `}` (or the end of
    /// input); leaves the current token on that `}`.
    #[verifier::rlimit(50)]
    fn parse_block_statement(&mut self) -> (r: Result<BlockStatement, ParserError>)
        requires
            old(self).wf(),
            old(self).curr_kind() == TokenType::LBrace,
        ensures
            (block_outcome(r), final(self).cursor()) == sp_block(old(self).input(), old(self).cursor()),
            old(self).steps_to(final(self)),
        decreases old(self).measure(), 1nat,
    {
        let token = self.curr_token.duplicate();
        let mut statements: Vec<Statement> = Vec::new();
        self.next_token();
        while !self.curr_is(TokenType::RBrace) && !self.curr_is(TokenType::EOF)
            invariant
                old(self).steps_to(self),
                self.cursor() > old(self).cursor(),
                sp_block(old(self).input(), old(self).cursor()) == sp_block_loop(
                    self.input(),
                    self.cursor(),
                    render_stmts(statements@),
                ),
            decreases self.measure(),
        {
            let ghost before = statements@;
            let ghost start = self.cursor();
            let ghost s = self.input();
            match self.parse_statement() {
                Ok(st) => {
                    statements.push(st);
                    assert(statements@.drop_last() =~= before);
                    assert(render_stmts(statements@) == render_stmts(before) + render_stmt(st));
                },
                Err(e) => {
                    return Err(e);
                },
            }
            let ghost q2 = self.cursor();
            self.next_token();
            assert(self.cursor() > start);
            assert(sp_block_loop(s, start, render_stmts(before)) == sp_block_loop(
                s,
                self.cursor(),
                render_stmts(statements@),
            ));
        }
        Ok(BlockStatement { token, statements })
    }

    fn parse_statement(&mut self) -> (r: Result<Statement, ParserError>)
        requires
            old(self).wf(),
        ensures
            (stmt_outcome(r), final(self).cursor()) == sp_statement(
                old(self).input(),
                old(self).cursor(),
            ),
            old(self).steps_to(final(self)),
            !starts_expression(old(self).curr_kind()) && old(self).curr_kind() != TokenType::Let
                && old(self).curr_kind() != TokenType::Return ==> r == Err::<Statement, ParserError>(
                ParserError::TokenUnrecognized,
            ),
        decreases old(self).measure(), 6nat,
    {
        match self.curr_token.t {
            TokenType::Let => self.parse_let_statement(),
            TokenType::Return => self.parse_return_statement(),
            _ => self.parse_expression_statement(),
        }
    }

    fn parse_let_statement(&mut self) -> (r: Result<Statement, ParserError>)
        requires
            old(self).wf(),
        ensures
            (stmt_outcome(r), final(self).cursor()) == sp_let(old(self).input(), old(self).cursor()),
            old(self).steps_to(final(self)),
            old(self).peek_kind() != TokenType::Ident ==> r == Err::<Statement, ParserError>(
                ParserError::IdentExpected,
            ),
            old(self).peek_kind() == TokenType::Ident && old(self).third_kind() != TokenType::Assign
                ==> r == Err::<Statement, ParserError>(ParserError::AssignExpected),
            r matches Ok(Statement::Let(l)) && l.name.v@ == old(self).peek_text() && l.value is Some
                || r is Err,
        decreases old(self).measure(), 5nat,
    {
        let token = self.curr_token.duplicate();
        if !self.expect_peek(TokenType::Ident) {
            return Err(ParserError::IdentExpected);
        }
        let name = self.parse_identifier();
        if !self.expect_peek(TokenType::Assign) {
            return Err(ParserError::AssignExpected);
        }
        self.next_token();
        let value = match self.parse_expression(Precedence::Lowest) {
            Ok(e) => e,
            Err(e) => {
                return Err(e);
            },
        };
        if self.peek_is(TokenType::Semicolon) {
            self.next_token();
        }
        Ok(Statement::Let(LetStatement::new(token, name, Some(value))))
    }

    fn parse_return_statement(&mut self) -> (r: Result<Statement, ParserError>)
        requires
            old(self).wf(),
            old(self).curr_kind() == TokenType::Return,
        ensures
            (stmt_outcome(r), final(self).cursor()) == sp_return(old(self).input(), old(self).cursor()),
            old(self).steps_to(final(self)),
            r matches Ok(Statement::Return(rs)) && rs.value is Some || r is Err,
        decreases old(self).measure(), 5nat,
    {
        let token = self.curr_token.duplicate();
        self.next_token();
        let value = match self.parse_expression(Precedence::Lowest) {
            Ok(e) => e,
            Err(e) => {
                return Err(e);
            },
        };
        if self.peek_is(TokenType::Semicolon) {
            self.next_token();
        }
        Ok(Statement::Return(ReturnStatement::new(token, Some(value))))
    }

    fn parse_expression_statement(&mut self) -> (r: Result<Statement, ParserError>)
        requires
            old(self).wf(),
        ensures
            (stmt_outcome(r), final(self).cursor()) == sp_expression_statement(
                old(self).input(),
                old(self).cursor(),
            ),
            old(self).steps_to(final(self)),
            !starts_expression(old(self).curr_kind()) ==> r == Err::<Statement, ParserError>(
                ParserError::TokenUnrecognized,
            ),
        decreases old(self).measure(), 5nat,
    {
        let token = self.curr_token.duplicate();
        let expression = match self.parse_expression(Precedence::Lowest) {
            Ok(e) => e,
            Err(e) => {
                return Err(e);
            },
        };
        if self.peek_is(TokenType::Semicolon) {
            self.next_token();
        }
        Ok(Statement::Expression(ExpressionStatement { token, expression }))
    }
}


/// Whether every character of `s` is whitespace.
pub open spec fn all_whitespace(s: Seq<char>) -> bool {
    forall|i: int| 0 <= i < s.len() ==> crate::lexer::is_whitespace(#[trigger] s[i])
}

/// Text made only of whitespace holds no token: the first one read is the end of input.
pub proof fn lemma_whitespace_is_empty(s: Seq<char>)
    requires
        all_whitespace(s),
    ensures
        kind_at(s, 0) == TokenType::EOF,
{
    reveal(kind_at);
    crate::lexer::lemma_skip_ws(s, 0);
}

impl Parser {
    /// Parses statements up to the end of input. A statement that fails adds
    /// its error to `errors`, in order, and parsing goes on from the next token.
    pub fn parse_program(&mut self) -> (r: Program)
        requires
            old(self).wf(),
        ensures
            final(self).wf(),
            final(self).input() == old(self).input(),
            final(self).curr_kind() == TokenType::EOF,
            render_stmts(r.statements@) == sp_program(old(self).input(), old(self).cursor()).0,
            final(self).errs() == old(self).errs() + sp_program(
                old(self).input(),
                old(self).cursor(),
            ).1,
            old(self).curr_kind() == TokenType::EOF ==> r.statements@.len() == 0
                && final(self).errs() == old(self).errs(),
    {
        let mut statements: Vec<Statement> = Vec::new();
        let ghost s = self.input();
        let ghost q0 = self.cursor();
        proof {
            assert(render_stmts(statements@) + sp_program(s, q0).0 =~= sp_program(s, q0).0);
            assert(old(self).errs() + sp_program(s, q0).1 =~= self.errs() + sp_program(s, q0).1);
        }
        while !self.finished()
            invariant
                self.wf(),
                self.input() == s,
                s == old(self).input(),
                q0 == old(self).cursor(),
                self.cursor() >= q0,
                self.cursor() == q0 ==> statements@.len() == 0 && self.errs() == old(self).errs(),
                self.cursor() == q0 ==> self.curr_kind() == old(self).curr_kind(),
                old(self).curr_kind() == TokenType::EOF ==> self.cursor() == q0,
                sp_program(s, q0).0 == render_stmts(statements@) + sp_program(s, self.cursor()).0,
                old(self).errs() + sp_program(s, q0).1 == self.errs() + sp_program(
                    s,
                    self.cursor(),
                ).1,
            decreases self.measure(),
        {
            let ghost start = self.cursor();
            let ghost before = statements@;
            let ghost errs_before = self.errs();
            let res = self.parse_statement();
            let ghost q2 = self.cursor();
            let ghost out = stmt_outcome(res);
            match res {
                Ok(st) => {
                    statements.push(st);
                    assert(statements@.drop_last() =~= before);
                },
                Err(e) => {
                    self.errors.push(e);
                },
            }
            self.next_token();
            assert(self.cursor() > start);
            proof {
                let rest = sp_program(s, self.cursor());
                assert(self.cursor() == after(s, q2));
                match out {
                    Ok(t) => {
                        assert(render_stmts(statements@) =~= render_stmts(before) + t);
                        assert(render_stmts(before) + (t + rest.0) =~= render_stmts(statements@)
                            + rest.0);
                    },
                    Err(e) => {
                        assert(errs_before + (seq![e] + rest.1) =~= self.errs() + rest.1);
                    },
                }
            }
        }
        Program { statements }
    }
}

/// Parses a whole source text: the program and the errors met, in order.
pub fn parse(input: &str) -> (r: (Program, Vec<ParserError>))
    ensures
        render_stmts(r.0.statements@) == sp_program(input@, 0).0,
        r.1@ == sp_program(input@, 0).1,
        all_whitespace(input@) ==> r.0.statements@.len() == 0 && r.1@.len() == 0,
{
    let lexer = Lexer::new(input);
    let mut parser = Parser::new(lexer);
    proof {
        if all_whitespace(input@) {
            lemma_whitespace_is_empty(input@);
        }
    }
    let program = parser.parse_program();
    let errors = parser.take_errors();
    assert(errors@ =~= sp_program(input@, 0).1);
    (program, errors)
}

impl Parser {
    /// Hands out the errors recorded so far, leaving none.
    pub fn take_errors(&mut self) -> (r: Vec<ParserError>)
        ensures
            r@ == old(self).errs(),
            final(self).errs().len() == 0,
    {
        let mut errors: Vec<ParserError> = Vec::new();
        std::mem::swap(&mut errors, &mut self.errors);
        errors
    }
}

} // verus!
