use vstd::prelude::*;
use crate::token::TokenType;
use crate::lexer::{lex, lemma_lex};
use crate::parser::{ParserError, Precedence, spec_rank, token_precedence, digits_value};

verus! {

// What the parser produces, read off the token stream: for each grammar
// rule, the canonical text of what it parses (or the error it meets) and the
// position of the token it stops on.

/// A rule's outcome: the canonical text or the error, and the position of the
/// token it stops on.
pub type Parsed = (Result<Seq<char>, ParserError>, int);

/// The kind of the token read at `q`.
#[verifier::opaque]
pub open spec fn kind_at(s: Seq<char>, q: int) -> TokenType {
    lex(s, q).0
}

/// The text of the token read at `q`.
#[verifier::opaque]
pub open spec fn text_at(s: Seq<char>, q: int) -> Seq<char> {
    lex(s, q).1
}

/// The position of the token after the one read at `q`.
#[verifier::opaque]
pub open spec fn after(s: Seq<char>, q: int) -> int {
    lex(s, q).2
}

/// Reading a token moves forward within the input, by at least one character
/// unless it is the end of input, which is then read again in place.
pub proof fn lemma_step(s: Seq<char>, q: int)
    requires
        0 <= q <= s.len(),
    ensures
        q <= after(s, q) <= s.len(),
        kind_at(s, q) != TokenType::EOF ==> after(s, q) > q,
        kind_at(s, q) == TokenType::EOF ==> kind_at(s, after(s, q)) == TokenType::EOF && after(
            s,
            after(s, q),
        ) == after(s, q),
{
    reveal(kind_at);
    reveal(after);
    lemma_lex(s, q);
}

/// Whether `a < b <= s.len()`: `b` lies strictly further on in `s`.
pub open spec fn further(s: Seq<char>, a: int, b: int) -> bool {
    a < b <= s.len()
}

/// Where a statement ending at `q` stops: on a following `;`, if there is one.
pub open spec fn past_semicolon(s: Seq<char>, q: int) -> int {
    if kind_at(s, after(s, q)) == TokenType::Semicolon {
        after(s, q)
    } else {
        q
    }
}

pub open spec fn lowest() -> nat {
    spec_rank(Precedence::Lowest)
}

/// An expression at `q`, binding operators of precedence above `prec`.
pub open spec fn sp_expression(s: Seq<char>, q: int, prec: nat) -> Parsed
    decreases s.len() - q, 7nat,
{
    let (p, q1) = sp_prefix(s, q);
    match p {
        Err(e) => (Err(e), q1),
        Ok(left) => if q <= q1 <= s.len() {
            sp_infix_loop(s, q1, prec, left)
        } else {
            (Err(ParserError::TokenUnrecognized), q1)
        },
    }
}

/// Folds the infix operators and calls that follow `left`, which ends at `q`.
pub open spec fn sp_infix_loop(s: Seq<char>, q: int, prec: nat, left: Seq<char>) -> Parsed
    decreases s.len() - q, 6nat,
{
    let pq = after(s, q);
    let pk = kind_at(s, pq);
    if pk == TokenType::Semicolon || spec_rank(token_precedence(pk)) <= prec || !further(s, q, pq) {
        (Ok(left), q)
    } else if pk == TokenType::LParen {
        let (a, q3) = sp_call_args(s, pq);
        match a {
            Err(e) => (Err(e), q3),
            Ok(args) => if pq <= q3 <= s.len() {
                sp_infix_loop(s, q3, prec, left + seq!['('] + args + seq![')'])
            } else {
                (Err(ParserError::TokenUnrecognized), q3)
            },
        }
    } else {
        let q4 = after(s, pq);
        if !further(s, pq, q4) {
            (Err(ParserError::TokenUnrecognized), q)
        } else {
            let (r, q5) = sp_expression(s, q4, spec_rank(token_precedence(pk)));
            match r {
                Err(e) => (Err(e), q5),
                Ok(right) => if q4 <= q5 <= s.len() {
                    sp_infix_loop(
                        s,
                        q5,
                        prec,
                        seq!['('] + left + seq![' '] + text_at(s, pq) + seq![' '] + right + seq![
                            ')',
                        ],
                    )
                } else {
                    (Err(ParserError::TokenUnrecognized), q5)
                },
            }
        }
    }
}

/// The expression that starts with the token at `q`, before any infix operator.
pub open spec fn sp_prefix(s: Seq<char>, q: int) -> Parsed
    decreases s.len() - q, 6nat,
{
    let k = kind_at(s, q);
    let t = text_at(s, q);
    if k == TokenType::Ident || k == TokenType::True || k == TokenType::False {
        (Ok(t), q)
    } else if k == TokenType::Int {
        if digits_value(t) <= i64::MAX {
            (Ok(t), q)
        } else {
            (Err(ParserError::IntegerParsingFailed), q)
        }
    } else if k == TokenType::Bang || k == TokenType::Minus {
        sp_prefix_op(s, q)
    } else if k == TokenType::LParen {
        sp_group(s, q)
    } else if k == TokenType::If {
        sp_if(s, q)
    } else if k == TokenType::Function {
        sp_fn(s, q)
    } else {
        (Err(ParserError::TokenUnrecognized), q)
    }
}

/// `-x` or `!x`, the operator at `q`.
pub open spec fn sp_prefix_op(s: Seq<char>, q: int) -> Parsed
    decreases s.len() - q, 5nat,
{
    let q1 = after(s, q);
    if !further(s, q, q1) {
        (Err(ParserError::TokenUnrecognized), q)
    } else {
        let (r, q2) = sp_expression(s, q1, spec_rank(Precedence::Prefix));
        match r {
            Err(e) => (Err(e), q2),
            Ok(right) => (Ok(seq!['('] + text_at(s, q) + right + seq![')']), q2),
        }
    }
}

/// `( expr )`, the `(` at `q`.
pub open spec fn sp_group(s: Seq<char>, q: int) -> Parsed
    decreases s.len() - q, 5nat,
{
    let q1 = after(s, q);
    if !further(s, q, q1) {
        (Err(ParserError::TokenUnrecognized), q)
    } else {
        let (r, q2) = sp_expression(s, q1, lowest());
        match r {
            Err(e) => (Err(e), q2),
            Ok(inner) => if kind_at(s, after(s, q2)) == TokenType::RParen {
                (Ok(inner), after(s, q2))
            } else {
                (Err(ParserError::GroupExpressionParsingFailed), q2)
            },
        }
    }
}

/// `if cond { ... }` with an optional `else { ... }`, the `if` at `q`.
pub open spec fn sp_if(s: Seq<char>, q: int) -> Parsed
    decreases s.len() - q, 5nat,
{
    let q1 = after(s, q);
    if !further(s, q, q1) {
        (Err(ParserError::TokenUnrecognized), q)
    } else {
        let (c, q2) = sp_expression(s, q1, lowest());
        match c {
            Err(e) => (Err(e), q2),
            Ok(cond) => {
                let q3 = after(s, q2);
                if kind_at(s, q3) != TokenType::LBrace {
                    (Err(ParserError::IncorrectIfStatement), q2)
                } else if !further(s, q, q3) {
                    (Err(ParserError::TokenUnrecognized), q)
                } else {
                    let (b, q4) = sp_block(s, q3);
                    match b {
                        Err(e) => (Err(e), q4),
                        Ok(cons) => {
                            let head = seq!['i', 'f', ' '] + cond + seq![' ', '{', ' '] + cons
                                + seq![' ', '}'];
                            let q5 = after(s, q4);
                            if kind_at(s, q5) != TokenType::Else {
                                (Ok(head), q4)
                            } else {
                                let q6 = after(s, q5);
                                if kind_at(s, q6) != TokenType::LBrace {
                                    (Err(ParserError::IncorrectIfStatement), q5)
                                } else if !further(s, q, q6) {
                                    (Err(ParserError::TokenUnrecognized), q)
                                } else {
                                    let (a, q7) = sp_block(s, q6);
                                    match a {
                                        Err(e) => (Err(e), q7),
                                        Ok(alt) => (
                                            Ok(
                                                head + seq![' ', 'e', 'l', 's', 'e', ' ', '{', ' ']
                                                    + alt + seq![' ', '}'],
                                            ),
                                            q7,
                                        ),
                                    }
                                }
                            }
                        },
                    }
                }
            },
        }
    }
}

/// `fn(params) { ... }`, the `fn` at `q`.
pub open spec fn sp_fn(s: Seq<char>, q: int) -> Parsed
    decreases s.len() - q, 5nat,
{
    let q1 = after(s, q);
    if kind_at(s, q1) != TokenType::LParen {
        (Err(ParserError::IncorrectFunctionDeclaration), q)
    } else {
        let (p, q2) = sp_params(s, q1);
        match p {
            Err(e) => (Err(e), q2),
            Ok(params) => {
                let q3 = after(s, q2);
                if kind_at(s, q3) != TokenType::LBrace {
                    (Err(ParserError::IncorrectFunctionDeclaration), q2)
                } else if !further(s, q, q3) {
                    (Err(ParserError::TokenUnrecognized), q)
                } else {
                    let (b, q4) = sp_block(s, q3);
                    match b {
                        Err(e) => (Err(e), q4),
                        Ok(body) => (
                            Ok(
                                seq!['f', 'n', '('] + params + seq![')', ' ', '{', ' '] + body
                                    + seq![' ', '}'],
                            ),
                            q4,
                        ),
                    }
                }
            },
        }
    }
}

/// Parameter names after the `(` at `q`, up to the `)`.
pub open spec fn sp_params(s: Seq<char>, q: int) -> Parsed {
    let q1 = after(s, q);
    if !(q <= q1 <= s.len()) {
        (Err(ParserError::TokenUnrecognized), q)
    } else {
        sp_params_loop(s, q1, Seq::empty(), true)
    }
}

pub open spec fn sp_params_loop(s: Seq<char>, q: int, acc: Seq<char>, first: bool) -> Parsed
    decreases s.len() - q,
{
    if kind_at(s, q) == TokenType::RParen {
        (Ok(acc), q)
    } else {
        let q1 = if kind_at(s, q) == TokenType::Comma {
            after(s, q)
        } else {
            q
        };
        if kind_at(s, q1) != TokenType::Ident {
            (Err(ParserError::IdentExpected), q1)
        } else {
            let q2 = after(s, q1);
            let acc2 = if first {
                text_at(s, q1)
            } else {
                acc + seq![',', ' '] + text_at(s, q1)
            };
            if further(s, q, q2) {
                sp_params_loop(s, q2, acc2, false)
            } else {
                (Err(ParserError::TokenUnrecognized), q2)
            }
        }
    }
}

/// Call arguments after the `(` at `q`, up to the `)`.
pub open spec fn sp_call_args(s: Seq<char>, q: int) -> Parsed
    decreases s.len() - q, 5nat,
{
    let q1 = after(s, q);
    if !further(s, q, q1) {
        (Err(ParserError::TokenUnrecognized), q)
    } else {
        sp_args_loop(s, q1, Seq::empty(), true)
    }
}

pub open spec fn sp_args_loop(s: Seq<char>, q: int, acc: Seq<char>, first: bool) -> Parsed
    decreases s.len() - q, 10nat,
{
    if kind_at(s, q) == TokenType::RParen {
        (Ok(acc), q)
    } else {
        let q1 = if kind_at(s, q) == TokenType::Comma {
            after(s, q)
        } else {
            q
        };
        if !(q <= q1 <= s.len()) {
            (Err(ParserError::TokenUnrecognized), q)
        } else {
            let (e, q2) = sp_expression(s, q1, lowest());
            match e {
                Err(x) => (Err(x), q2),
                Ok(t) => {
                    let q3 = after(s, q2);
                    let acc2 = if first {
                        t
                    } else {
                        acc + seq![',', ' '] + t
                    };
                    if further(s, q, q3) {
                        sp_args_loop(s, q3, acc2, false)
                    } else {
                        (Err(ParserError::TokenUnrecognized), q3)
                    }
                },
            }
        }
    }
}

/// The statements after the `{` at `q`, up to the `}` or the end of input.
pub open spec fn sp_block(s: Seq<char>, q: int) -> Parsed
    decreases s.len() - q, 5nat,
{
    let q1 = after(s, q);
    if !further(s, q, q1) {
        (Err(ParserError::TokenUnrecognized), q)
    } else {
        sp_block_loop(s, q1, Seq::empty())
    }
}

pub open spec fn sp_block_loop(s: Seq<char>, q: int, acc: Seq<char>) -> Parsed
    decreases s.len() - q, 10nat,
{
    let k = kind_at(s, q);
    if k == TokenType::RBrace || k == TokenType::EOF {
        (Ok(acc), q)
    } else {
        let (r, q2) = sp_statement(s, q);
        match r {
            Err(e) => (Err(e), q2),
            Ok(t) => {
                let q3 = after(s, q2);
                if further(s, q, q3) {
                    sp_block_loop(s, q3, acc + t)
                } else {
                    (Err(ParserError::TokenUnrecognized), q3)
                }
            },
        }
    }
}

/// The statement that starts at `q`.
pub open spec fn sp_statement(s: Seq<char>, q: int) -> Parsed
    decreases s.len() - q, 9nat,
{
    let k = kind_at(s, q);
    if k == TokenType::Let {
        sp_let(s, q)
    } else if k == TokenType::Return {
        sp_return(s, q)
    } else {
        sp_expression_statement(s, q)
    }
}

/// `let name = value;`, the `let` at `q`.
pub open spec fn sp_let(s: Seq<char>, q: int) -> Parsed
    decreases s.len() - q, 8nat,
{
    let q1 = after(s, q);
    if kind_at(s, q1) != TokenType::Ident {
        (Err(ParserError::IdentExpected), q)
    } else {
        let q2 = after(s, q1);
        if kind_at(s, q2) != TokenType::Assign {
            (Err(ParserError::AssignExpected), q1)
        } else {
            let q3 = after(s, q2);
            if !further(s, q, q3) {
                (Err(ParserError::TokenUnrecognized), q)
            } else {
                let (v, q4) = sp_expression(s, q3, lowest());
                match v {
                    Err(e) => (Err(e), q4),
                    Ok(t) => (
                        Ok(seq!['l', 'e', 't', ' '] + text_at(s, q1) + seq![' ', '=', ' '] + t
                            + seq![';']),
                        past_semicolon(s, q4),
                    ),
                }
            }
        }
    }
}

/// `return value;`, the `return` at `q`.
pub open spec fn sp_return(s: Seq<char>, q: int) -> Parsed
    decreases s.len() - q, 8nat,
{
    let q1 = after(s, q);
    if !further(s, q, q1) {
        (Err(ParserError::TokenUnrecognized), q)
    } else {
        let (v, q2) = sp_expression(s, q1, lowest());
        match v {
            Err(e) => (Err(e), q2),
            Ok(t) => (
                Ok(seq!['r', 'e', 't', 'u', 'r', 'n', ' '] + t + seq![';']),
                past_semicolon(s, q2),
            ),
        }
    }
}

/// An expression used as a statement, starting at `q`.
pub open spec fn sp_expression_statement(s: Seq<char>, q: int) -> Parsed
    decreases s.len() - q, 8nat,
{
    let (v, q1) = sp_expression(s, q, lowest());
    match v {
        Err(e) => (Err(e), q1),
        Ok(t) => (Ok(t + seq![';']), past_semicolon(s, q1)),
    }
}

/// The program from `q` on: the canonical text of the statements that parse,
/// and the errors of those that do not, in order.
pub open spec fn sp_program(s: Seq<char>, q: int) -> (Seq<char>, Seq<ParserError>)
    decreases s.len() - q,
{
    if kind_at(s, q) == TokenType::EOF {
        (Seq::empty(), Seq::empty())
    } else {
        let (r, q2) = sp_statement(s, q);
        let q3 = after(s, q2);
        if !further(s, q, q3) {
            (Seq::empty(), Seq::empty())
        } else {
            let rest = sp_program(s, q3);
            match r {
                Ok(t) => (t + rest.0, rest.1),
                Err(e) => (rest.0, seq![e] + rest.1),
            }
        }
    }
}

/// A `let` whose name is not followed by `=` fails with `AssignExpected`,
/// stopping on the name.
pub proof fn lemma_let_needs_assign(s: Seq<char>, q: int)
    requires
        kind_at(s, after(s, q)) == TokenType::Ident,
        kind_at(s, after(s, after(s, q))) != TokenType::Assign,
    ensures
        sp_let(s, q) == (Err::<Seq<char>, ParserError>(ParserError::AssignExpected), after(s, q)),
{
}

/// An `if` whose condition is not followed by `{` fails with
/// `IncorrectIfStatement`, stopping on the condition's last token.
pub proof fn lemma_if_needs_brace(s: Seq<char>, q: int)
    requires
        further(s, q, after(s, q)),
        sp_expression(s, after(s, q), lowest()).0 is Ok,
        kind_at(s, after(s, sp_expression(s, after(s, q), lowest()).1)) != TokenType::LBrace,
    ensures
        sp_if(s, q) == (
            Err::<Seq<char>, ParserError>(ParserError::IncorrectIfStatement),
            sp_expression(s, after(s, q), lowest()).1,
        ),
{
}

/// An `else` not followed by `{` fails with `IncorrectIfStatement`,
/// stopping on the `else`.
pub proof fn lemma_else_needs_brace(s: Seq<char>, q: int)
    requires
        further(s, q, after(s, q)),
        sp_expression(s, after(s, q), lowest()).0 is Ok,
        ({
            let q2 = sp_expression(s, after(s, q), lowest()).1;
            let q3 = after(s, q2);
            &&& kind_at(s, q3) == TokenType::LBrace
            &&& further(s, q, q3)
            &&& sp_block(s, q3).0 is Ok
            &&& kind_at(s, after(s, sp_block(s, q3).1)) == TokenType::Else
            &&& kind_at(s, after(s, after(s, sp_block(s, q3).1))) != TokenType::LBrace
        }),
    ensures
        sp_if(s, q).0 == Err::<Seq<char>, ParserError>(ParserError::IncorrectIfStatement),
{
}

/// A group whose inner expression is not followed by `)` fails with
/// `GroupExpressionParsingFailed`, stopping on the inner expression's last token.
pub proof fn lemma_group_needs_close(s: Seq<char>, q: int)
    requires
        further(s, q, after(s, q)),
        sp_expression(s, after(s, q), lowest()).0 is Ok,
        kind_at(s, after(s, sp_expression(s, after(s, q), lowest()).1)) != TokenType::RParen,
    ensures
        sp_group(s, q) == (
            Err::<Seq<char>, ParserError>(ParserError::GroupExpressionParsingFailed),
            sp_expression(s, after(s, q), lowest()).1,
        ),
{
}

} // verus!
