//! The boolean condition grammar:
//!
//! ```text
//! bool_expr   := bool_term ('or' bool_term)*
//! bool_term   := bool_factor ('and' bool_factor)*
//! bool_factor := spaces ('(' bool_expr ')' | comparison | 'true' | 'false') spaces
//! comparison  := expr ('<=' | '>=' | '=' | '<' | '>') expr
//! ```
//!
//! Both connectives fold to the left and `and` binds tighter than `or`.
use vstd::prelude::*;
use vstd::string::StrSliceExecFns;
use crate::ast::{view_operation, Builtin, Factor, FactorV, Operation, OperationV};
use crate::expr::{expr_at, spec_expr, view_parsed, SyntaxError};
use crate::lexer::{chars_of, keyword, span, span_exec, word_is, Class, Keyword};

verus! {

broadcast use vstd::std_specs::vec::group_vec_axioms, vstd::seq::group_seq_axioms;

/// A comparison operator at `k`.
pub open spec fn spec_comparator(s: Seq<char>, k: int) -> Option<(Builtin, int)> {
    if !(0 <= k < s.len()) {
        None
    } else if k + 1 < s.len() && s[k] == '<' && s[k + 1] == '=' {
        Some((Builtin::LesserOrEqual, k + 2))
    } else if k + 1 < s.len() && s[k] == '>' && s[k + 1] == '=' {
        Some((Builtin::GreaterOrEqual, k + 2))
    } else if s[k] == '=' {
        Some((Builtin::Equal, k + 1))
    } else if s[k] == '<' {
        Some((Builtin::Lesser, k + 1))
    } else if s[k] == '>' {
        Some((Builtin::Greater, k + 1))
    } else {
        None
    }
}

fn comparator_at(s: &Vec<char>, k: usize) -> (r: Option<(Builtin, usize)>)
    requires
        k <= s.len(),
    ensures
        match r {
            Some((op, m)) => spec_comparator(s@, k as int) == Some((op, m as int)) && k < m
                <= s.len(),
            None => spec_comparator(s@, k as int) is None,
        },
{
    if k >= s.len() {
        None
    } else if k + 1 < s.len() && s[k] == '<' && s[k + 1] == '=' {
        Some((Builtin::LesserOrEqual, k + 2))
    } else if k + 1 < s.len() && s[k] == '>' && s[k + 1] == '=' {
        Some((Builtin::GreaterOrEqual, k + 2))
    } else if s[k] == '=' {
        Some((Builtin::Equal, k + 1))
    } else if s[k] == '<' {
        Some((Builtin::Lesser, k + 1))
    } else if s[k] == '>' {
        Some((Builtin::Greater, k + 1))
    } else {
        None
    }
}

/// Two arithmetic expressions around a comparison operator, at `j`.
pub open spec fn spec_comparison(s: Seq<char>, j: int) -> Option<(OperationV, int)> {
    match spec_expr(s, j) {
        Some((l, k)) => match spec_comparator(s, k) {
            Some((op, m)) => match spec_expr(s, m) {
                Some((r, n)) => Some((OperationV::Condition(Box::new(l), op, Box::new(r)), n)),
                None => None,
            },
            None => None,
        },
        None => None,
    }
}

fn comparison_at(src: &str, s: &Vec<char>, j: usize) -> (r: Option<(Operation, usize)>)
    requires
        s@ == src@,
        j <= s.len(),
    ensures
        view_parsed(r) == spec_comparison(s@, j as int),
        r matches Some((_, k)) ==> j < k <= s.len(),
{
    match expr_at(src, s, j) {
        Some((l, k)) => match comparator_at(s, k) {
            Some((op, m)) => match expr_at(src, s, m) {
                Some((r, n)) => Some((Operation::Condition((Box::new(l), op, Box::new(r))), n)),
                None => None,
            },
            None => None,
        },
        None => None,
    }
}

/// One operand of a connective at `j`, blanks not included.
pub open spec fn spec_bool_atom(s: Seq<char>, j: int) -> Option<(OperationV, int)>
    decreases s.len() - j, 0int,
{
    if !(0 <= j <= s.len()) {
        None
    } else {
        let nested = if j < s.len() && s[j] == '(' {
            match spec_bool_expr(s, j + 1) {
                Some((e, k)) => if 0 <= k < s.len() && s[k] == ')' {
                    Some((e, k + 1))
                } else {
                    None
                },
                None => None,
            }
        } else {
            None
        };
        if nested is Some {
            nested
        } else if spec_comparison(s, j) is Some {
            spec_comparison(s, j)
        } else {
            let w = span(s, j, Class::Alpha);
            if s.subrange(j, w) == keyword(Keyword::True) {
                Some((OperationV::Identity(FactorV::Boolean(true)), w))
            } else if s.subrange(j, w) == keyword(Keyword::False) {
                Some((OperationV::Identity(FactorV::Boolean(false)), w))
            } else {
                None
            }
        }
    }
}

/// One operand of a connective at `i`, with the spaces around it.
pub open spec fn spec_bool_factor(s: Seq<char>, i: int) -> Option<(OperationV, int)>
    decreases s.len() - i, 1int,
{
    let j = span(s, i, Class::Space);
    if !(0 <= i <= j <= s.len()) {
        None
    } else {
        match spec_bool_atom(s, j) {
            Some((o, k)) => if j < k <= s.len() {
                Some((o, span(s, k, Class::Space)))
            } else {
                None
            },
            None => None,
        }
    }
}

pub open spec fn spec_bool_term(s: Seq<char>, i: int) -> Option<(OperationV, int)>
    decreases s.len() - i, 2int,
{
    if !(0 <= i <= s.len()) {
        None
    } else {
        match spec_bool_factor(s, i) {
            Some((f, k)) => if i < k <= s.len() {
                Some(spec_bool_term_rest(s, k, f))
            } else {
                None
            },
            None => None,
        }
    }
}

/// Folds further `and` operands at `k` onto `acc`.
pub open spec fn spec_bool_term_rest(s: Seq<char>, k: int, acc: OperationV) -> (OperationV, int)
    decreases s.len() - k, 2int,
{
    let w = span(s, k, Class::Alpha);
    if 0 <= k < w <= s.len() && s.subrange(k, w) == keyword(Keyword::And) {
        match spec_bool_factor(s, w) {
            Some((g, m)) => if w < m <= s.len() {
                spec_bool_term_rest(
                    s,
                    m,
                    OperationV::Condition(Box::new(acc), Builtin::And, Box::new(g)),
                )
            } else {
                (acc, k)
            },
            None => (acc, k),
        }
    } else {
        (acc, k)
    }
}

pub open spec fn spec_bool_expr(s: Seq<char>, i: int) -> Option<(OperationV, int)>
    decreases s.len() - i, 3int,
{
    if !(0 <= i <= s.len()) {
        None
    } else {
        match spec_bool_term(s, i) {
            Some((t, k)) => if i < k <= s.len() {
                Some(spec_bool_expr_rest(s, k, t))
            } else {
                None
            },
            None => None,
        }
    }
}

/// Folds further `or` operands at `k` onto `acc`.
pub open spec fn spec_bool_expr_rest(s: Seq<char>, k: int, acc: OperationV) -> (OperationV, int)
    decreases s.len() - k, 3int,
{
    let w = span(s, k, Class::Alpha);
    if 0 <= k < w <= s.len() && s.subrange(k, w) == keyword(Keyword::Or) {
        match spec_bool_term(s, w) {
            Some((g, m)) => if w < m <= s.len() {
                spec_bool_expr_rest(
                    s,
                    m,
                    OperationV::Condition(Box::new(acc), Builtin::Or, Box::new(g)),
                )
            } else {
                (acc, k)
            },
            None => (acc, k),
        }
    } else {
        (acc, k)
    }
}

fn bool_atom_at(src: &str, s: &Vec<char>, j: usize) -> (r: Option<(Operation, usize)>)
    requires
        s@ == src@,
        j <= s.len(),
    ensures
        view_parsed(r) == spec_bool_atom(s@, j as int),
        r matches Some((_, k)) ==> j < k <= s.len(),
    decreases s.len() - j, 0int,
{
    proof {
        reveal_with_fuel(view_operation, 2);
    }
    let nested: Option<(Operation, usize)> = if j < s.len() && s[j] == '(' {
        match bool_expr_at(src, s, j + 1) {
            Some((e, k)) => if k < s.len() && s[k] == ')' {
                Some((e, k + 1))
            } else {
                None
            },
            None => None,
        }
    } else {
        None
    };
    if nested.is_some() {
        return nested;
    }
    let cmp = comparison_at(src, s, j);
    if cmp.is_some() {
        return cmp;
    }
    let w = span_exec(s, j, Class::Alpha);
    assert(keyword(Keyword::True).len() == 4 && keyword(Keyword::False).len() == 5);
    if word_is(s, j, w, Keyword::True) {
        Some((Operation::Identity(Factor::Boolean(true)), w))
    } else if word_is(s, j, w, Keyword::False) {
        Some((Operation::Identity(Factor::Boolean(false)), w))
    } else {
        None
    }
}

fn bool_factor_at(src: &str, s: &Vec<char>, i: usize) -> (r: Option<(Operation, usize)>)
    requires
        s@ == src@,
        i <= s.len(),
    ensures
        view_parsed(r) == spec_bool_factor(s@, i as int),
        r matches Some((_, k)) ==> i < k <= s.len(),
    decreases s.len() - i, 1int,
{
    let j = span_exec(s, i, Class::Space);
    match bool_atom_at(src, s, j) {
        Some((o, k)) => {
            let e = span_exec(s, k, Class::Space);
            Some((o, e))
        },
        None => None,
    }
}

fn bool_term_rest_at(src: &str, s: &Vec<char>, k: usize, acc: Operation) -> (r: (
    Operation,
    usize,
))
    requires
        s@ == src@,
        k <= s.len(),
    ensures
        (r.0@, r.1 as int) == spec_bool_term_rest(s@, k as int, acc@),
        k <= r.1 <= s.len(),
    decreases s.len() - k, 2int,
{
    let w = span_exec(s, k, Class::Alpha);
    if k < w && word_is(s, k, w, Keyword::And) {
        match bool_factor_at(src, s, w) {
            Some((g, m)) => bool_term_rest_at(
                src,
                s,
                m,
                Operation::Condition((Box::new(acc), Builtin::And, Box::new(g))),
            ),
            None => (acc, k),
        }
    } else {
        (acc, k)
    }
}

fn bool_term_at(src: &str, s: &Vec<char>, i: usize) -> (r: Option<(Operation, usize)>)
    requires
        s@ == src@,
        i <= s.len(),
    ensures
        view_parsed(r) == spec_bool_term(s@, i as int),
        r matches Some((_, k)) ==> i < k <= s.len(),
    decreases s.len() - i, 2int,
{
    match bool_factor_at(src, s, i) {
        Some((f, k)) => Some(bool_term_rest_at(src, s, k, f)),
        None => None,
    }
}

fn bool_expr_rest_at(src: &str, s: &Vec<char>, k: usize, acc: Operation) -> (r: (
    Operation,
    usize,
))
    requires
        s@ == src@,
        k <= s.len(),
    ensures
        (r.0@, r.1 as int) == spec_bool_expr_rest(s@, k as int, acc@),
        k <= r.1 <= s.len(),
    decreases s.len() - k, 3int,
{
    let w = span_exec(s, k, Class::Alpha);
    if k < w && word_is(s, k, w, Keyword::Or) {
        match bool_term_at(src, s, w) {
            Some((g, m)) => bool_expr_rest_at(
                src,
                s,
                m,
                Operation::Condition((Box::new(acc), Builtin::Or, Box::new(g))),
            ),
            None => (acc, k),
        }
    } else {
        (acc, k)
    }
}

pub fn bool_expr_at(src: &str, s: &Vec<char>, i: usize) -> (r: Option<(Operation, usize)>)
    requires
        s@ == src@,
        i <= s.len(),
    ensures
        view_parsed(r) == spec_bool_expr(s@, i as int),
        r matches Some((_, k)) ==> i < k <= s.len(),
    decreases s.len() - i, 3int,
{
    match bool_term_at(src, s, i) {
        Some((t, k)) => Some(bool_expr_rest_at(src, s, k, t)),
        None => None,
    }
}

/// A boolean condition at the start of `input`.
pub fn boolean_expr(input: &str) -> (r: Result<(&str, Operation), SyntaxError>)
    ensures
        match r {
            Ok((rest, o)) => spec_bool_expr(input@, 0) matches Some((v, k)) && o@ == v && rest@
                == input@.subrange(k, input@.len() as int),
            Err(_) => spec_bool_expr(input@, 0) is None,
        },
{
    let s = chars_of(input);
    match bool_expr_at(input, &s, 0) {
        Some((o, k)) => Ok((input.substring_char(k, s.len()), o)),
        None => Err(SyntaxError),
    }
}

} // verus!
