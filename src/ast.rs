use vstd::prelude::*;
use crate::token::{Token, push_char};
use vstd::string::StringExecFns;

verus! {

broadcast use vstd::std_specs::vec::group_vec_axioms, vstd::seq::group_seq_axioms;

/// A name, with the token it was read from.
#[derive(Debug, Clone, PartialEq, Eq, Default)]
pub struct Identifier {
    pub token: Token,
    pub v: String,
}

/// An expression node.
#[derive(Debug, PartialEq, Eq)]
pub enum Expression {
    Identifier(Identifier),
    IntegerLiteral { token: Token, value: i64 },
    Boolean { token: Token, value: bool },
    Prefix { token: Token, operator: String, right: Box<Expression> },
    Infix { token: Token, left: Box<Expression>, operator: String, right: Box<Expression> },
    If {
        token: Token,
        condition: Box<Expression>,
        consequence: BlockStatement,
        alternative: Option<BlockStatement>,
    },
    FunctionLiteral { token: Token, parameters: Vec<Identifier>, body: BlockStatement },
    Call { token: Token, function: Box<Expression>, arguments: Vec<Expression> },
}

/// A statement sequence delimited by braces.
#[derive(Debug, PartialEq, Eq)]
pub struct BlockStatement {
    pub token: Token,
    pub statements: Vec<Statement>,
}

/// `let <name> = <value>;`
#[derive(Debug, PartialEq, Eq)]
pub struct LetStatement {
    pub token: Token,
    pub name: Identifier,
    pub value: Option<Expression>,
}

/// `return <value>;`
#[derive(Debug, PartialEq, Eq)]
pub struct ReturnStatement {
    pub token: Token,
    pub value: Option<Expression>,
}

/// An expression used as a statement.
#[derive(Debug, PartialEq, Eq)]
pub struct ExpressionStatement {
    pub token: Token,
    pub expression: Expression,
}

/// A statement node.
#[derive(Debug, PartialEq, Eq)]
pub enum Statement {
    Let(LetStatement),
    Return(ReturnStatement),
    Expression(ExpressionStatement),
}

/// The root of a parsed program: its statements in source order.
#[derive(Debug, PartialEq, Eq, Default)]
pub struct Program {
    pub statements: Vec<Statement>,
}

pub open spec fn comma_sep() -> Seq<char> {
    seq![',', ' ']
}

/// Canonical text of an expression: every operator application parenthesized.
pub open spec fn render_expr(e: Expression) -> Seq<char>
    decreases e,
{
    match e {
        Expression::Identifier(id) => id.v@,
        Expression::IntegerLiteral { token, .. } => token.v@,
        Expression::Boolean { token, .. } => token.v@,
        Expression::Prefix { operator, right, .. } => seq!['('] + operator@ + render_expr(*right)
            + seq![')'],
        Expression::Infix { left, operator, right, .. } => seq!['('] + render_expr(*left) + seq![
            ' ',
        ] + operator@ + seq![' '] + render_expr(*right) + seq![')'],
        Expression::If { condition, consequence, alternative, .. } => seq!['i', 'f', ' ']
            + render_expr(*condition) + seq![' ', '{', ' '] + render_stmts(consequence.statements@)
            + seq![' ', '}'] + (match alternative {
            Some(alt) => seq![' ', 'e', 'l', 's', 'e', ' ', '{', ' '] + render_stmts(
                alt.statements@,
            ) + seq![' ', '}'],
            None => Seq::empty(),
        }),
        Expression::FunctionLiteral { parameters, body, .. } => seq!['f', 'n', '(']
            + render_params(parameters@) + seq![')', ' ', '{', ' '] + render_stmts(body.statements@)
            + seq![' ', '}'],
        Expression::Call { function, arguments, .. } => render_expr(*function) + seq!['(']
            + render_args(arguments@) + seq![')'],
    }
}

/// Argument texts separated by `", "`.
pub open spec fn render_args(s: Seq<Expression>) -> Seq<char>
    decreases s,
{
    if s.len() == 0 {
        Seq::empty()
    } else if s.len() == 1 {
        render_expr(s[0])
    } else {
        render_args(s.drop_last()) + comma_sep() + render_expr(s.last())
    }
}

/// Parameter names separated by `", "`.
pub open spec fn render_params(s: Seq<Identifier>) -> Seq<char>
    decreases s.len(),
{
    if s.len() == 0 {
        Seq::empty()
    } else if s.len() == 1 {
        s[0].v@
    } else {
        render_params(s.drop_last()) + comma_sep() + s.last().v@
    }
}

/// Canonical text of a statement.
pub open spec fn render_stmt(st: Statement) -> Seq<char>
    decreases st,
{
    match st {
        Statement::Let(l) => seq!['l', 'e', 't', ' '] + l.name.v@ + seq![' ', '=', ' '] + (match l.value {
            Some(e) => render_expr(e),
            None => Seq::empty(),
        }) + seq![';'],
        Statement::Return(r) => (match r.value {
            Some(e) => seq!['r', 'e', 't', 'u', 'r', 'n', ' '] + render_expr(e),
            None => seq!['r', 'e', 't', 'u', 'r', 'n'],
        }) + seq![';'],
        Statement::Expression(es) => render_expr(es.expression) + seq![';'],
    }
}

/// The statements' texts, concatenated.
pub open spec fn render_stmts(s: Seq<Statement>) -> Seq<char>
    decreases s,
{
    if s.len() == 0 {
        Seq::empty()
    } else {
        render_stmts(s.drop_last()) + render_stmt(s.last())
    }
}


/// The spec of a node's leading token text.
pub open spec fn expr_literal(e: Expression) -> Seq<char> {
    match e {
        Expression::Identifier(id) => id.token.v@,
        Expression::IntegerLiteral { token, .. } => token.v@,
        Expression::Boolean { token, .. } => token.v@,
        Expression::Prefix { token, .. } => token.v@,
        Expression::Infix { token, .. } => token.v@,
        Expression::If { token, .. } => token.v@,
        Expression::FunctionLiteral { token, .. } => token.v@,
        Expression::Call { token, .. } => token.v@,
    }
}

pub open spec fn stmt_literal(st: Statement) -> Seq<char> {
    match st {
        Statement::Let(l) => l.token.v@,
        Statement::Return(r) => r.token.v@,
        Statement::Expression(es) => es.token.v@,
    }
}

/// A node of the tree: it can tell the text of the token it starts with.
pub trait Node {
    spec fn literal(&self) -> Seq<char>;

    fn token_literal(&self) -> (r: String)
        ensures
            r@ == self.literal(),
    ;
}

impl Node for Identifier {
    open spec fn literal(&self) -> Seq<char> {
        self.token.v@
    }

    fn token_literal(&self) -> (r: String) {
        self.token.v.clone()
    }
}

impl Node for Expression {
    open spec fn literal(&self) -> Seq<char> {
        expr_literal(*self)
    }

    fn token_literal(&self) -> (r: String) {
        match self {
            Expression::Identifier(id) => id.token.v.clone(),
            Expression::IntegerLiteral { token, .. } => token.v.clone(),
            Expression::Boolean { token, .. } => token.v.clone(),
            Expression::Prefix { token, .. } => token.v.clone(),
            Expression::Infix { token, .. } => token.v.clone(),
            Expression::If { token, .. } => token.v.clone(),
            Expression::FunctionLiteral { token, .. } => token.v.clone(),
            Expression::Call { token, .. } => token.v.clone(),
        }
    }
}

impl Node for Statement {
    open spec fn literal(&self) -> Seq<char> {
        stmt_literal(*self)
    }

    fn token_literal(&self) -> (r: String) {
        match self {
            Statement::Let(l) => l.token.v.clone(),
            Statement::Return(r) => r.token.v.clone(),
            Statement::Expression(es) => es.token.v.clone(),
        }
    }
}

impl Node for LetStatement {
    open spec fn literal(&self) -> Seq<char> {
        self.token.v@
    }

    fn token_literal(&self) -> (r: String) {
        self.token.v.clone()
    }
}

impl Node for ReturnStatement {
    open spec fn literal(&self) -> Seq<char> {
        self.token.v@
    }

    fn token_literal(&self) -> (r: String) {
        self.token.v.clone()
    }
}

impl Node for Program {
    /// The first statement's leading token text; empty for an empty program.
    open spec fn literal(&self) -> Seq<char> {
        if self.statements@.len() == 0 {
            Seq::empty()
        } else {
            stmt_literal(self.statements@[0])
        }
    }

    fn token_literal(&self) -> (r: String) {
        if self.statements.len() == 0 {
            String::new()
        } else {
            self.statements[0].token_literal()
        }
    }
}

impl Identifier {
    pub fn new(token: Token, v: String) -> (r: Identifier)
        ensures
            r.token == token,
            r.v == v,
    {
        Identifier { token, v }
    }
}

impl LetStatement {
    pub fn new(token: Token, name: Identifier, value: Option<Expression>) -> (r: LetStatement)
        ensures
            r.token == token,
            r.name == name,
            r.value == value,
    {
        LetStatement { token, name, value }
    }
}

impl LetStatement {
    /// The bound name's token text.
    pub fn name(&self) -> (r: String)
        ensures
            r@ == self.name.token.v@,
    {
        self.name.token_literal()
    }

    /// The leading token text of the bound value, if any.
    pub fn value(&self) -> (r: Option<String>)
        ensures
            r is Some <==> self.value is Some,
            r is Some ==> r->0@ == expr_literal(self.value->0),
    {
        match &self.value {
            Some(v) => Some(v.token_literal()),
            None => None,
        }
    }
}

impl ReturnStatement {
    /// A return statement binds no name: always empty.
    pub fn name(&self) -> (r: String)
        ensures
            r@ == Seq::<char>::empty(),
    {
        String::new()
    }

    /// The leading token text of the returned value, if any.
    pub fn value(&self) -> (r: Option<String>)
        ensures
            r is Some <==> self.value is Some,
            r is Some ==> r->0@ == expr_literal(self.value->0),
    {
        match &self.value {
            Some(v) => Some(v.token_literal()),
            None => None,
        }
    }

    pub fn new(token: Token, value: Option<Expression>) -> (r: ReturnStatement)
        ensures
            r.token == token,
            r.value == value,
    {
        ReturnStatement { token, value }
    }
}

pub(crate) fn push_all(s: &mut String, cs: &[char])
    ensures
        final(s)@ == old(s)@ + cs@,
{
    let mut i: usize = 0;
    while i < cs.len()
        invariant
            i <= cs@.len(),
            s@ == old(s)@ + cs@.subrange(0, i as int),
        decreases cs@.len() - i,
    {
        push_char(s, cs[i]);
        i = i + 1;
        assert(s@ =~= old(s)@ + cs@.subrange(0, i as int));
    }
    assert(cs@.subrange(0, i as int) =~= cs@);
}

/// Parameter names separated by `", "`.
pub fn params_string(params: &Vec<Identifier>) -> (r: String)
    ensures
        r@ == render_params(params@),
{
    let mut r = String::new();
    let mut i: usize = 0;
    while i < params.len()
        invariant
            i <= params@.len(),
            r@ == render_params(params@.take(i as int)),
        decreases params@.len() - i,
    {
        if i > 0 {
            push_all(&mut r, &[',', ' ']);
        }
        r.append(params[i].v.as_str());
        assert(params@.take(i + 1).drop_last() =~= params@.take(i as int));
        i = i + 1;
    }
    assert(params@.take(i as int) =~= params@);
    r
}

/// Argument texts separated by `", "`.
pub fn args_string(args: &Vec<Expression>) -> (r: String)
    ensures
        r@ == render_args(args@),
    decreases args,
{
    let mut r = String::new();
    let mut i: usize = 0;
    while i < args.len()
        invariant
            i <= args@.len(),
            r@ == render_args(args@.take(i as int)),
        decreases args@.len() - i,
    {
        if i > 0 {
            push_all(&mut r, &[',', ' ']);
        }
        let a = args[i].as_string();
        r.append(a.as_str());
        assert(args@.take(i + 1).drop_last() =~= args@.take(i as int));
        i = i + 1;
    }
    assert(args@.take(i as int) =~= args@);
    r
}

/// The statements' texts, concatenated.
pub fn stmts_string(stmts: &Vec<Statement>) -> (r: String)
    ensures
        r@ == render_stmts(stmts@),
    decreases stmts,
{
    let mut r = String::new();
    let mut i: usize = 0;
    while i < stmts.len()
        invariant
            i <= stmts@.len(),
            r@ == render_stmts(stmts@.take(i as int)),
        decreases stmts@.len() - i,
    {
        let a = stmts[i].as_string();
        r.append(a.as_str());
        assert(stmts@.take(i + 1).drop_last() =~= stmts@.take(i as int));
        i = i + 1;
    }
    assert(stmts@.take(i as int) =~= stmts@);
    r
}

impl Expression {
    /// Canonical text of this expression.
    pub fn as_string(&self) -> (r: String)
        ensures
            r@ == render_expr(*self),
        decreases self,
    {
        match self {
            Expression::Identifier(id) => id.v.clone(),
            Expression::IntegerLiteral { token, .. } => token.v.clone(),
            Expression::Boolean { token, .. } => token.v.clone(),
            Expression::Prefix { operator, right, .. } => {
                let mut r = String::new();
                push_char(&mut r, '(');
                r.append(operator.as_str());
                let inner = right.as_string();
                r.append(inner.as_str());
                push_char(&mut r, ')');
                r
            },
            Expression::Infix { left, operator, right, .. } => {
                let mut r = String::new();
                push_char(&mut r, '(');
                let l = left.as_string();
                r.append(l.as_str());
                push_char(&mut r, ' ');
                r.append(operator.as_str());
                push_char(&mut r, ' ');
                let rt = right.as_string();
                r.append(rt.as_str());
                push_char(&mut r, ')');
                r
            },
            Expression::If { condition, consequence, alternative, .. } => {
                let mut r = String::new();
                push_all(&mut r, &['i', 'f', ' ']);
                let c = condition.as_string();
                r.append(c.as_str());
                push_all(&mut r, &[' ', '{', ' ']);
                let b = stmts_string(&consequence.statements);
                r.append(b.as_str());
                push_all(&mut r, &[' ', '}']);
                match alternative {
                    Some(alt) => {
                        push_all(&mut r, &[' ', 'e', 'l', 's', 'e', ' ', '{', ' ']);
                        let a = stmts_string(&alt.statements);
                        r.append(a.as_str());
                        push_all(&mut r, &[' ', '}']);
                    },
                    None => {},
                }
                r
            },
            Expression::FunctionLiteral { parameters, body, .. } => {
                let mut r = String::new();
                push_all(&mut r, &['f', 'n', '(']);
                let p = params_string(parameters);
                r.append(p.as_str());
                push_all(&mut r, &[')', ' ', '{', ' ']);
                let b = stmts_string(&body.statements);
                r.append(b.as_str());
                push_all(&mut r, &[' ', '}']);
                r
            },
            Expression::Call { function, arguments, .. } => {
                let mut r = function.as_string();
                push_char(&mut r, '(');
                let a = args_string(arguments);
                r.append(a.as_str());
                push_char(&mut r, ')');
                r
            },
        }
    }
}

impl Statement {
    /// Canonical text of this statement, ending in `;`.
    pub fn as_string(&self) -> (r: String)
        ensures
            r@ == render_stmt(*self),
        decreases self,
    {
        let mut r = String::new();
        match self {
            Statement::Let(l) => {
                push_all(&mut r, &['l', 'e', 't', ' ']);
                r.append(l.name.v.as_str());
                push_all(&mut r, &[' ', '=', ' ']);
                match &l.value {
                    Some(e) => {
                        let t = e.as_string();
                        r.append(t.as_str());
                    },
                    None => {},
                }
            },
            Statement::Return(rs) => {
                match &rs.value {
                    Some(e) => {
                        push_all(&mut r, &['r', 'e', 't', 'u', 'r', 'n', ' ']);
                        let t = e.as_string();
                        r.append(t.as_str());
                    },
                    None => {
                        push_all(&mut r, &['r', 'e', 't', 'u', 'r', 'n']);
                    },
                }
            },
            Statement::Expression(es) => {
                let t = es.expression.as_string();
                r.append(t.as_str());
            },
        }
        push_char(&mut r, ';');
        r
    }
}

impl BlockStatement {
    /// The statements' texts, concatenated.
    pub fn as_string(&self) -> (r: String)
        ensures
            r@ == render_stmts(self.statements@),
    {
        stmts_string(&self.statements)
    }
}

impl Program {
    /// Canonical text of the program: its statements' texts, concatenated.
    pub fn as_string(&self) -> (r: String)
        ensures
            r@ == render_stmts(self.statements@),
    {
        stmts_string(&self.statements)
    }
}

} // verus!
