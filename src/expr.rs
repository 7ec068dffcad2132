//! The arithmetic expression grammar:
//!
//! ```text
//! expr   := term (('+' | '-') term)*
//! term   := factor (('*' | '/') factor)*
//! factor := spaces atom spaces
//! atom   := '(' expr ')' | 'sin(' expr ')' | 'cos(' expr ')' | 'time' | variable | number
//! ```
//!
//! Operators of one level fold to the left. A variable is a word of ASCII
//! letters that is not a reserved word; in particular `true` and `false` are
//! never variables.
use vstd::prelude::*;
use vstd::string::StrSliceExecFns;
use crate::ast::{view_operation, Builtin, Factor, FactorV, Operation, OperationV};
use crate::lexer::{
    chars_of, is_reserved, keyword, number_exec, reserved_exec, span,
    span_exec, spec_number, word_is, Class, Keyword,
};

verus! {

broadcast use vstd::std_specs::vec::group_vec_axioms, vstd::seq::group_seq_axioms;

/// A parse that fails on the input.
#[derive(Debug, PartialEq, Eq, Clone, Copy, Structural)]
pub struct SyntaxError;

/// The view of a parse result: the value and the position just after it.
pub open spec fn view_parsed(r: Option<(Operation, usize)>) -> Option<(OperationV, int)> {
    match r {
        Some((o, k)) => Some((o@, k as int)),
        None => None,
    }
}

/// `s[a..b]` as a string, where `s` holds the characters of `src`.
pub fn name_of(src: &str, a: usize, b: usize) -> (r: String)
    requires
        a <= b <= src@.len(),
    ensures
        r@ == src@.subrange(a as int, b as int),
{
    src.substring_char(a, b).to_owned()
}

/// A variable name at `i`: a word that is not reserved.
pub open spec fn spec_variable(s: Seq<char>, i: int) -> Option<(Seq<char>, int)> {
    let w = span(s, i, Class::Alpha);
    if 0 <= i < w && !is_reserved(s.subrange(i, w)) {
        Some((s.subrange(i, w), w))
    } else {
        None
    }
}

pub fn variable_at(src: &str, s: &Vec<char>, i: usize) -> (r: Option<(String, usize)>)
    requires
        s@ == src@,
        i <= s.len(),
    ensures
        match r {
            Some((name, k)) => spec_variable(s@, i as int) == Some((name@, k as int)) && i < k
                <= s.len(),
            None => spec_variable(s@, i as int) is None,
        },
{
    let w = span_exec(s, i, Class::Alpha);
    if i < w && !reserved_exec(s, i, w) {
        Some((name_of(src, i, w), w))
    } else {
        None
    }
}

/// One operand at `j`, blanks not included.
pub open spec fn spec_atom(s: Seq<char>, j: int) -> Option<(OperationV, int)>
    decreases s.len() - j, 0int,
{
    if !(0 <= j <= s.len()) {
        None
    } else if j < s.len() && s[j] == '(' {
        match spec_expr(s, j + 1) {
            Some((e, k)) => if 0 <= k < s.len() && s[k] == ')' {
                Some((e, k + 1))
            } else {
                None
            },
            None => None,
        }
    } else {
        let w = span(s, j, Class::Alpha);
        let word = s.subrange(j, w);
        if w <= j {
            match spec_number(s, j) {
                Some((d, k)) => Some((OperationV::Identity(FactorV::Number(d)), k)),
                None => None,
            }
        } else if word == keyword(Keyword::Time) {
            Some((OperationV::Identity(FactorV::Time), w))
        } else if (word == keyword(Keyword::Sin) || word == keyword(Keyword::Cos)) && w < s.len()
            && s[w] == '(' {
            match spec_expr(s, w + 1) {
                Some((e, k)) => if 0 <= k < s.len() && s[k] == ')' {
                    if word == keyword(Keyword::Sin) {
                        Some((OperationV::Identity(FactorV::Sin(Box::new(e))), k + 1))
                    } else {
                        Some((OperationV::Identity(FactorV::Cos(Box::new(e))), k + 1))
                    }
                } else {
                    None
                },
                None => None,
            }
        } else if is_reserved(word) {
            None
        } else {
            Some((OperationV::Identity(FactorV::Variable(word)), w))
        }
    }
}

/// One operand at `i` with the spaces around it.
pub open spec fn spec_factor(s: Seq<char>, i: int) -> Option<(OperationV, int)>
    decreases s.len() - i, 1int,
{
    let j = span(s, i, Class::Space);
    if !(0 <= i <= j <= s.len()) {
        None
    } else {
        match spec_atom(s, j) {
            Some((o, k)) => if j < k <= s.len() {
                Some((o, span(s, k, Class::Space)))
            } else {
                None
            },
            None => None,
        }
    }
}

pub open spec fn spec_term(s: Seq<char>, i: int) -> Option<(OperationV, int)>
    decreases s.len() - i, 2int,
{
    if !(0 <= i <= s.len()) {
        None
    } else {
        match spec_factor(s, i) {
            Some((f, k)) => if i < k <= s.len() {
                Some(spec_term_rest(s, k, f))
            } else {
                None
            },
            None => None,
        }
    }
}

/// Folds further `* factor` and `/ factor` at `k` onto `acc`.
pub open spec fn spec_term_rest(s: Seq<char>, k: int, acc: OperationV) -> (OperationV, int)
    decreases s.len() - k, 2int,
{
    if 0 <= k < s.len() && (s[k] == '*' || s[k] == '/') {
        let op = if s[k] == '*' {
            Builtin::Mult
        } else {
            Builtin::Div
        };
        match spec_factor(s, k + 1) {
            Some((g, m)) => if k + 1 < m <= s.len() {
                spec_term_rest(s, m, OperationV::Calculation(Box::new(acc), op, Box::new(g)))
            } else {
                (acc, k)
            },
            None => (acc, k),
        }
    } else {
        (acc, k)
    }
}

pub open spec fn spec_expr(s: Seq<char>, i: int) -> Option<(OperationV, int)>
    decreases s.len() - i, 3int,
{
    if !(0 <= i <= s.len()) {
        None
    } else {
        match spec_term(s, i) {
            Some((t, k)) => if i < k <= s.len() {
                Some(spec_expr_rest(s, k, t))
            } else {
                None
            },
            None => None,
        }
    }
}

/// Folds further `+ term` and `- term` at `k` onto `acc`.
pub open spec fn spec_expr_rest(s: Seq<char>, k: int, acc: OperationV) -> (OperationV, int)
    decreases s.len() - k, 3int,
{
    if 0 <= k < s.len() && (s[k] == '+' || s[k] == '-') {
        let op = if s[k] == '+' {
            Builtin::Plus
        } else {
            Builtin::Minus
        };
        match spec_term(s, k + 1) {
            Some((g, m)) => if k + 1 < m <= s.len() {
                spec_expr_rest(s, m, OperationV::Calculation(Box::new(acc), op, Box::new(g)))
            } else {
                (acc, k)
            },
            None => (acc, k),
        }
    } else {
        (acc, k)
    }
}

/// Closes a parenthesised expression parsed from `start`: `)` must follow it.
fn close_paren(s: &Vec<char>, e: Option<(Operation, usize)>) -> (r: Option<(Operation, usize)>)
    requires
        e matches Some((_, k)) ==> k <= s.len(),
    ensures
        r == match e {
            Some((o, k)) => if k < s.len() && s@[k as int] == ')' {
                Some((o, (k + 1) as usize))
            } else {
                None
            },
            None => None,
        },
{
    match e {
        Some((o, k)) => if k < s.len() && s[k] == ')' {
            Some((o, k + 1))
        } else {
            None
        },
        None => None,
    }
}

fn atom_at(src: &str, s: &Vec<char>, j: usize) -> (r: Option<(Operation, usize)>)
    requires
        s@ == src@,
        j <= s.len(),
    ensures
        view_parsed(r) == spec_atom(s@, j as int),
        r matches Some((_, k)) ==> j < k <= s.len(),
    decreases s.len() - j, 0int,
{
    proof {
        reveal_with_fuel(view_operation, 2);
    }
    if j < s.len() && s[j] == '(' {
        let e = expr_at(src, s, j + 1);
        close_paren(s, e)
    } else {
        let w = span_exec(s, j, Class::Alpha);
        if w <= j {
            match number_exec(s, j) {
                Some((d, k)) => Some((Operation::Identity(Factor::Number(d)), k)),
                None => None,
            }
        } else if word_is(s, j, w, Keyword::Time) {
            Some((Operation::Identity(Factor::Time), w))
        } else if (word_is(s, j, w, Keyword::Sin) || word_is(s, j, w, Keyword::Cos)) && w < s.len()
            && s[w] == '(' {
            let is_sin = word_is(s, j, w, Keyword::Sin);
            let e = expr_at(src, s, w + 1);
            match close_paren(s, e) {
                Some((e, k)) => if is_sin {
                    Some((Operation::Identity(Factor::Sin(Box::new(e))), k))
                } else {
                    Some((Operation::Identity(Factor::Cos(Box::new(e))), k))
                },
                None => None,
            }
        } else if reserved_exec(s, j, w) {
            None
        } else {
            Some((Operation::Identity(Factor::Variable(name_of(src, j, w))), w))
        }
    }
}

pub fn factor_at(src: &str, s: &Vec<char>, i: usize) -> (r: Option<(Operation, usize)>)
    requires
        s@ == src@,
        i <= s.len(),
    ensures
        view_parsed(r) == spec_factor(s@, i as int),
        r matches Some((_, k)) ==> i < k <= s.len(),
    decreases s.len() - i, 1int,
{
    let j = span_exec(s, i, Class::Space);
    match atom_at(src, s, j) {
        Some((o, k)) => {
            let e = span_exec(s, k, Class::Space);
            Some((o, e))
        },
        None => None,
    }
}

fn term_rest_at(src: &str, s: &Vec<char>, k: usize, acc: Operation) -> (r: (Operation, usize))
    requires
        s@ == src@,
        k <= s.len(),
    ensures
        (r.0@, r.1 as int) == spec_term_rest(s@, k as int, acc@),
        k <= r.1 <= s.len(),
    decreases s.len() - k, 2int,
{
    if k < s.len() && (s[k] == '*' || s[k] == '/') {
        let op = if s[k] == '*' {
            Builtin::Mult
        } else {
            Builtin::Div
        };
        match factor_at(src, s, k + 1) {
            Some((g, m)) => term_rest_at(
                src,
                s,
                m,
                Operation::Calculation((Box::new(acc), op, Box::new(g))),
            ),
            None => (acc, k),
        }
    } else {
        (acc, k)
    }
}

pub fn term_at(src: &str, s: &Vec<char>, i: usize) -> (r: Option<(Operation, usize)>)
    requires
        s@ == src@,
        i <= s.len(),
    ensures
        view_parsed(r) == spec_term(s@, i as int),
        r matches Some((_, k)) ==> i < k <= s.len(),
    decreases s.len() - i, 2int,
{
    match factor_at(src, s, i) {
        Some((f, k)) => Some(term_rest_at(src, s, k, f)),
        None => None,
    }
}

fn expr_rest_at(src: &str, s: &Vec<char>, k: usize, acc: Operation) -> (r: (Operation, usize))
    requires
        s@ == src@,
        k <= s.len(),
    ensures
        (r.0@, r.1 as int) == spec_expr_rest(s@, k as int, acc@),
        k <= r.1 <= s.len(),
    decreases s.len() - k, 3int,
{
    if k < s.len() && (s[k] == '+' || s[k] == '-') {
        let op = if s[k] == '+' {
            Builtin::Plus
        } else {
            Builtin::Minus
        };
        match term_at(src, s, k + 1) {
            Some((g, m)) => expr_rest_at(
                src,
                s,
                m,
                Operation::Calculation((Box::new(acc), op, Box::new(g))),
            ),
            None => (acc, k),
        }
    } else {
        (acc, k)
    }
}

pub fn expr_at(src: &str, s: &Vec<char>, i: usize) -> (r: Option<(Operation, usize)>)
    requires
        s@ == src@,
        i <= s.len(),
    ensures
        view_parsed(r) == spec_expr(s@, i as int),
        r matches Some((_, k)) ==> i < k <= s.len(),
    decreases s.len() - i, 3int,
{
    match term_at(src, s, i) {
        Some((t, k)) => Some(expr_rest_at(src, s, k, t)),
        None => None,
    }
}

/// `*` or `/` as the first character of `input`.
pub fn mult(input: &str) -> (r: Result<(&str, Builtin), SyntaxError>)
    ensures
        match r {
            Ok((rest, op)) => input@.len() > 0 && rest@ == input@.drop_first() && (
            (input@[0] == '*' && op == Builtin::Mult) || (input@[0] == '/' && op == Builtin::Div)),
            Err(_) => input@.len() == 0 || (input@[0] != '*' && input@[0] != '/'),
        },
{
    let s = chars_of(input);
    if s.len() > 0 && (s[0] == '*' || s[0] == '/') {
        let op = if s[0] == '*' {
            Builtin::Mult
        } else {
            Builtin::Div
        };
        Ok((input.substring_char(1, s.len()), op))
    } else {
        Err(SyntaxError)
    }
}

/// `+` or `-` as the first character of `input`.
pub fn sum(input: &str) -> (r: Result<(&str, Builtin), SyntaxError>)
    ensures
        match r {
            Ok((rest, op)) => input@.len() > 0 && rest@ == input@.drop_first() && (
            (input@[0] == '+' && op == Builtin::Plus) || (input@[0] == '-' && op == Builtin::Minus)),
            Err(_) => input@.len() == 0 || (input@[0] != '+' && input@[0] != '-'),
        },
{
    let s = chars_of(input);
    if s.len() > 0 && (s[0] == '+' || s[0] == '-') {
        let op = if s[0] == '+' {
            Builtin::Plus
        } else {
            Builtin::Minus
        };
        Ok((input.substring_char(1, s.len()), op))
    } else {
        Err(SyntaxError)
    }
}

/// A variable reference at the start of `input`.
pub fn variable(input: &str) -> (r: Result<(&str, Factor), SyntaxError>)
    ensures
        match r {
            Ok((rest, f)) => spec_variable(input@, 0) matches Some((name, k)) && f@
                == FactorV::Variable(name) && rest@ == input@.subrange(k, input@.len() as int),
            Err(_) => spec_variable(input@, 0) is None,
        },
{
    let s = chars_of(input);
    match variable_at(input, &s, 0) {
        Some((name, k)) => Ok((input.substring_char(k, s.len()), Factor::Variable(name))),
        None => Err(SyntaxError),
    }
}

/// A numeric literal at the start of `input`.
pub fn number(input: &str) -> (r: Result<(&str, Factor), SyntaxError>)
    ensures
        match r {
            Ok((rest, f)) => spec_number(input@, 0) matches Some((d, k)) && f@ == FactorV::Number(
                d,
            ) && rest@ == input@.subrange(k, input@.len() as int),
            Err(_) => spec_number(input@, 0) is None,
        },
{
    let s = chars_of(input);
    match number_exec(&s, 0) {
        Some((d, k)) => Ok((input.substring_char(k, s.len()), Factor::Number(d))),
        None => Err(SyntaxError),
    }
}

/// One operand, with the spaces around it, at the start of `input`.
pub fn factor(input: &str) -> (r: Result<(&str, Operation), SyntaxError>)
    ensures
        match r {
            Ok((rest, o)) => spec_factor(input@, 0) matches Some((v, k)) && o@ == v && rest@
                == input@.subrange(k, input@.len() as int),
            Err(_) => spec_factor(input@, 0) is None,
        },
{
    let s = chars_of(input);
    match factor_at(input, &s, 0) {
        Some((o, k)) => Ok((input.substring_char(k, s.len()), o)),
        None => Err(SyntaxError),
    }
}

/// An arithmetic expression at the start of `input`.
pub fn expr(input: &str) -> (r: Result<(&str, Operation), SyntaxError>)
    ensures
        match r {
            Ok((rest, o)) => spec_expr(input@, 0) matches Some((v, k)) && o@ == v && rest@
                == input@.subrange(k, input@.len() as int),
            Err(_) => spec_expr(input@, 0) is None,
        },
{
    let s = chars_of(input);
    match expr_at(input, &s, 0) {
        Some((o, k)) => Ok((input.substring_char(k, s.len()), o)),
        None => Err(SyntaxError),
    }
}

} // verus!
