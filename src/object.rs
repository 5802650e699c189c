use vstd::prelude::*;
use crate::ast::{BlockStatement, Identifier, render_params, render_stmts, params_string, push_all};
use crate::token::push_char;
use vstd::string::StringExecFns;

verus! {

/// A value produced by evaluating a program.
#[derive(Debug, PartialEq, Eq)]
pub enum Object {
    Integer { value: i64 },
    Boolean { value: bool },
    ReturnValue { value: Box<Object> },
    Error { value: String },
    Function { parameters: Vec<Identifier>, body: BlockStatement },
    Null,
}

pub open spec fn digit_char(d: int) -> char {
    seq!['0', '1', '2', '3', '4', '5', '6', '7', '8', '9'][d]
}

/// Decimal digits of `n`, most significant first, with no leading zero.
pub open spec fn nat_text(n: nat) -> Seq<char>
    decreases n,
{
    if n < 10 {
        seq![digit_char(n as int)]
    } else {
        nat_text(n / 10) + seq![digit_char((n % 10) as int)]
    }
}

/// Decimal text of `i`, with a leading `-` when it is negative.
pub open spec fn int_text(i: int) -> Seq<char> {
    if i < 0 {
        seq!['-'] + nat_text((-i) as nat)
    } else {
        nat_text(i as nat)
    }
}

/// What `inspect` shows of an object.
pub open spec fn inspect_text(o: Object) -> Seq<char>
    decreases o,
{
    match o {
        Object::Integer { value } => int_text(value as int),
        Object::Boolean { value } => if value {
            seq!['t', 'r', 'u', 'e']
        } else {
            seq!['f', 'a', 'l', 's', 'e']
        },
        Object::ReturnValue { value } => inspect_text(*value),
        Object::Error { value } => seq!['E', 'R', 'R', 'O', 'R', ':', ' '] + value@,
        Object::Function { parameters, body } => seq!['f', 'n', '('] + render_params(parameters@)
            + seq![')', ' ', '{', '\n'] + render_stmts(body.statements@) + seq!['\n', '}'],
        Object::Null => seq!['n', 'u', 'l', 'l'],
    }
}

/// The name of an object's type.
pub open spec fn kind_name(o: Object) -> Seq<char> {
    match o {
        Object::Integer { .. } => seq!['I', 'N', 'T', 'E', 'G', 'E', 'R'],
        Object::Boolean { .. } => seq!['B', 'O', 'O', 'L', 'E', 'A', 'N'],
        Object::ReturnValue { .. } => seq![
            'R', 'E', 'T', 'U', 'R', 'N', '_', 'V', 'A', 'L', 'U', 'E',
        ],
        Object::Error { .. } => seq!['E', 'R', 'R', 'O', 'R'],
        Object::Function { .. } => seq!['F', 'U', 'N', 'C', 'T', 'I', 'O', 'N'],
        Object::Null => seq!['N', 'U', 'L', 'L'],
    }
}

fn push_decimal(s: &mut String, n: u64)
    ensures
        final(s)@ == old(s)@ + nat_text(n as nat),
    decreases n,
{
    if n >= 10 {
        push_decimal(s, n / 10);
    }
    let digits = ['0', '1', '2', '3', '4', '5', '6', '7', '8', '9'];
    let d = (n % 10) as usize;
    assert(digits@ =~= seq!['0', '1', '2', '3', '4', '5', '6', '7', '8', '9']);
    push_char(s, digits[d]);
    assert(n < 10 ==> n % 10 == n);
}

impl Object {
    /// A readable rendering of the value.
    pub fn inspect(&self) -> (r: String)
        ensures
            r@ == inspect_text(*self),
        decreases self,
    {
        let mut r = String::new();
        match self {
            Object::Integer { value } => {
                let v: i64 = *value;
                if v < 0 {
                    push_char(&mut r, '-');
                    let m: i128 = 0i128 - (v as i128);
                    push_decimal(&mut r, m as u64);
                } else {
                    push_decimal(&mut r, v as u64);
                }
            },
            Object::Boolean { value } => {
                if *value {
                    push_all(&mut r, &['t', 'r', 'u', 'e']);
                } else {
                    push_all(&mut r, &['f', 'a', 'l', 's', 'e']);
                }
            },
            Object::ReturnValue { value } => {
                r = value.inspect();
            },
            Object::Error { value } => {
                push_all(&mut r, &['E', 'R', 'R', 'O', 'R', ':', ' ']);
                r.append(value.as_str());
            },
            Object::Function { parameters, body } => {
                push_all(&mut r, &['f', 'n', '(']);
                let p = params_string(parameters);
                r.append(p.as_str());
                push_all(&mut r, &[')', ' ', '{', '\n']);
                let b = body.as_string();
                r.append(b.as_str());
                push_all(&mut r, &['\n', '}']);
            },
            Object::Null => {
                push_all(&mut r, &['n', 'u', 'l', 'l']);
            },
        }
        r
    }

    /// The name of this value's type.
    pub fn name(&self) -> (r: String)
        ensures
            r@ == kind_name(*self),
    {
        let mut r = String::new();
        match self {
            Object::Integer { .. } => push_all(&mut r, &['I', 'N', 'T', 'E', 'G', 'E', 'R']),
            Object::Boolean { .. } => push_all(&mut r, &['B', 'O', 'O', 'L', 'E', 'A', 'N']),
            Object::ReturnValue { .. } => push_all(
                &mut r,
                &['R', 'E', 'T', 'U', 'R', 'N', '_', 'V', 'A', 'L', 'U', 'E'],
            ),
            Object::Error { .. } => push_all(&mut r, &['E', 'R', 'R', 'O', 'R']),
            Object::Function { .. } => push_all(&mut r, &['F', 'U', 'N', 'C', 'T', 'I', 'O', 'N']),
            Object::Null => push_all(&mut r, &['N', 'U', 'L', 'L']),
        }
        r
    }
}

} // verus!
