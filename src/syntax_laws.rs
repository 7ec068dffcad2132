//! What holds of the expression and condition grammars on every input.
use vstd::prelude::*;
use crate::ast::{Builtin, OperationV};
use crate::condition::{spec_bool_expr, spec_bool_factor, spec_bool_term};
use crate::expr::{spec_atom, spec_expr, spec_factor, spec_term};
use crate::lexer::{in_class, keyword, lemma_span, span, Class, Keyword};

verus! {

/// An operand ends after it has consumed at least one character and all the
/// spaces that follow it.
pub proof fn law_operand_extent(s: Seq<char>, i: int)
    requires
        spec_factor(s, i) is Some,
    ensures
        spec_factor(s, i) matches Some((_, k)) && i < k <= s.len() && (k == s.len() || !in_class(
            s[k],
            Class::Space,
        )),
{
    let j = span(s, i, Class::Space);
    lemma_span(s, i, Class::Space);
    match spec_atom(s, j) {
        Some((_, k0)) => lemma_span(s, k0, Class::Space),
        None => {},
    }
}

/// The same for an operand of `and` and `or`.
pub proof fn law_bool_operand_extent(s: Seq<char>, i: int)
    requires
        spec_bool_factor(s, i) is Some,
    ensures
        spec_bool_factor(s, i) matches Some((_, k)) && i < k <= s.len() && (k == s.len()
            || !in_class(s[k], Class::Space)),
{
    let j = span(s, i, Class::Space);
    lemma_span(s, i, Class::Space);
    match crate::condition::spec_bool_atom(s, j) {
        Some((_, k0)) => lemma_span(s, k0, Class::Space),
        None => {},
    }
}

proof fn lemma_term_rest_extent(s: Seq<char>, k: int, acc: OperationV)
    requires
        0 <= k <= s.len(),
    ensures
        k <= crate::expr::spec_term_rest(s, k, acc).1 <= s.len(),
    decreases s.len() - k,
{
    if 0 <= k < s.len() && (s[k] == '*' || s[k] == '/') {
        let op = if s[k] == '*' {
            Builtin::Mult
        } else {
            Builtin::Div
        };
        match spec_factor(s, k + 1) {
            Some((g, m)) => if k + 1 < m <= s.len() {
                lemma_term_rest_extent(
                    s,
                    m,
                    OperationV::Calculation(Box::new(acc), op, Box::new(g)),
                );
            },
            None => {},
        }
    }
}

/// A term ends after it has consumed at least one character.
pub proof fn law_term_extent(s: Seq<char>, i: int)
    requires
        spec_term(s, i) is Some,
    ensures
        spec_term(s, i) matches Some((_, k)) && i < k <= s.len(),
{
    match spec_factor(s, i) {
        Some((f, k)) => lemma_term_rest_extent(s, k, f),
        None => {},
    }
}

proof fn lemma_bool_term_rest_extent(s: Seq<char>, k: int, acc: OperationV)
    requires
        0 <= k <= s.len(),
    ensures
        k <= crate::condition::spec_bool_term_rest(s, k, acc).1 <= s.len(),
    decreases s.len() - k,
{
    let w = span(s, k, Class::Alpha);
    if 0 <= k < w <= s.len() && s.subrange(k, w) == crate::lexer::keyword(
        crate::lexer::Keyword::And,
    ) {
        match spec_bool_factor(s, w) {
            Some((g, m)) => if w < m <= s.len() {
                lemma_bool_term_rest_extent(
                    s,
                    m,
                    OperationV::Condition(Box::new(acc), Builtin::And, Box::new(g)),
                );
            },
            None => {},
        }
    }
}

/// An operand of `or` ends after it has consumed at least one character.
pub proof fn law_bool_term_extent(s: Seq<char>, i: int)
    requires
        spec_bool_term(s, i) is Some,
    ensures
        spec_bool_term(s, i) matches Some((_, k)) && i < k <= s.len(),
{
    match spec_bool_factor(s, i) {
        Some((f, k)) => lemma_bool_term_rest_extent(s, k, f),
        None => {},
    }
}

/// Spaces and tabs before an arithmetic expression change nothing: it parses
/// to the same tree and ends at the same place, and so does each of its parts.
pub proof fn law_leading_spaces_before_expression(s: Seq<char>, i: int)
    requires
        0 <= i < s.len(),
        in_class(s[i], Class::Space),
    ensures
        spec_factor(s, i) == spec_factor(s, i + 1),
        spec_term(s, i) == spec_term(s, i + 1),
        spec_expr(s, i) == spec_expr(s, i + 1),
{
    assert(span(s, i, Class::Space) == span(s, i + 1, Class::Space));
    lemma_span(s, i + 1, Class::Space);
    assert(spec_factor(s, i) == spec_factor(s, i + 1));
    if spec_factor(s, i + 1) is Some {
        law_operand_extent(s, i + 1);
    }
    assert(spec_term(s, i) == spec_term(s, i + 1));
    if spec_term(s, i + 1) is Some {
        law_term_extent(s, i + 1);
    }
}

/// Spaces and tabs before a condition change nothing: it parses to the same
/// tree and ends at the same place, and so does each of its parts.
pub proof fn law_leading_spaces_before_condition(s: Seq<char>, i: int)
    requires
        0 <= i < s.len(),
        in_class(s[i], Class::Space),
    ensures
        spec_bool_factor(s, i) == spec_bool_factor(s, i + 1),
        spec_bool_term(s, i) == spec_bool_term(s, i + 1),
        spec_bool_expr(s, i) == spec_bool_expr(s, i + 1),
{
    assert(span(s, i, Class::Space) == span(s, i + 1, Class::Space));
    lemma_span(s, i + 1, Class::Space);
    assert(spec_bool_factor(s, i) == spec_bool_factor(s, i + 1));
    if spec_bool_factor(s, i + 1) is Some {
        law_bool_operand_extent(s, i + 1);
    }
    assert(spec_bool_term(s, i) == spec_bool_term(s, i + 1));
    if spec_bool_term(s, i + 1) is Some {
        law_bool_term_extent(s, i + 1);
    }
}

/// The additive operator written as `c`, if any.
pub open spec fn additive(c: char) -> Option<Builtin> {
    if c == '+' {
        Some(Builtin::Plus)
    } else if c == '-' {
        Some(Builtin::Minus)
    } else {
        None
    }
}

/// No operator of either level stands at `k`.
pub open spec fn no_operator_at(s: Seq<char>, k: int) -> bool {
    k == s.len() || (s[k] != '+' && s[k] != '-' && s[k] != '*' && s[k] != '/')
}

/// Sums and differences fold to the left: three terms joined by `+` or `-`
/// form `(a op1 b) op2 c`, never `a op1 (b op2 c)`.
pub proof fn law_sums_fold_left(
    s: Seq<char>,
    i: int,
    a: OperationV,
    b: OperationV,
    c: OperationV,
    k1: int,
    k2: int,
    k3: int,
)
    requires
        spec_term(s, i) == Some((a, k1)),
        0 <= i,
        k1 < s.len(),
        additive(s[k1]) is Some,
        spec_term(s, k1 + 1) == Some((b, k2)),
        k2 < s.len(),
        additive(s[k2]) is Some,
        spec_term(s, k2 + 1) == Some((c, k3)),
        no_operator_at(s, k3),
    ensures
        spec_expr(s, i) == Some(
            (
                OperationV::Calculation(
                    Box::new(
                        OperationV::Calculation(
                            Box::new(a),
                            additive(s[k1])->0,
                            Box::new(b),
                        ),
                    ),
                    additive(s[k2])->0,
                    Box::new(c),
                ),
                k3,
            ),
        ),
{
    law_term_extent(s, i);
    law_term_extent(s, k1 + 1);
    law_term_extent(s, k2 + 1);
    reveal_with_fuel(crate::expr::spec_expr_rest, 4);
}

/// Products bind tighter than sums: `a + b * c` is `a + (b * c)`, and
/// `a * b + c` is `(a * b) + c`, for any operands `a`, `b` and `c`.
pub proof fn law_products_bind_tighter(
    s: Seq<char>,
    i: int,
    a: OperationV,
    b: OperationV,
    c: OperationV,
    k1: int,
    k2: int,
    k3: int,
)
    requires
        spec_factor(s, i) == Some((a, k1)),
        0 <= i,
        k1 < s.len(),
        spec_factor(s, k1 + 1) == Some((b, k2)),
        k2 < s.len(),
        spec_factor(s, k2 + 1) == Some((c, k3)),
        no_operator_at(s, k3),
    ensures
        s[k1] == '+' && s[k2] == '*' ==> spec_expr(s, i) == Some(
            (
                OperationV::Calculation(
                    Box::new(a),
                    Builtin::Plus,
                    Box::new(OperationV::Calculation(Box::new(b), Builtin::Mult, Box::new(c))),
                ),
                k3,
            ),
        ),
        s[k1] == '*' && s[k2] == '+' ==> spec_expr(s, i) == Some(
            (
                OperationV::Calculation(
                    Box::new(OperationV::Calculation(Box::new(a), Builtin::Mult, Box::new(b))),
                    Builtin::Plus,
                    Box::new(c),
                ),
                k3,
            ),
        ),
{
    law_operand_extent(s, i);
    law_operand_extent(s, k1 + 1);
    law_operand_extent(s, k2 + 1);
    reveal_with_fuel(crate::expr::spec_term_rest, 3);
    reveal_with_fuel(crate::expr::spec_expr_rest, 3);
    if s[k1] == '+' && s[k2] == '*' {
        assert(spec_term(s, i) == Some((a, k1)));
        assert(spec_term(s, k1 + 1) == Some(
            (OperationV::Calculation(Box::new(b), Builtin::Mult, Box::new(c)), k3),
        ));
    }
    if s[k1] == '*' && s[k2] == '+' {
        assert(spec_term(s, i) == Some(
            (OperationV::Calculation(Box::new(a), Builtin::Mult, Box::new(b)), k2),
        ));
        assert(spec_term(s, k2 + 1) == Some((c, k3)));
    }
}

/// Whether the word of letters at `k` is the keyword `kw`.
pub open spec fn connective_at(s: Seq<char>, k: int, kw: Keyword) -> bool {
    0 <= k < span(s, k, Class::Alpha) <= s.len() && s.subrange(k, span(s, k, Class::Alpha))
        == keyword(kw)
}

/// `and` binds tighter than `or`: `a or b and c` is `a or (b and c)`, and
/// `a and b or c` is `(a and b) or c`, for any operands `a`, `b` and `c`.
pub proof fn law_and_binds_tighter_than_or(
    s: Seq<char>,
    i: int,
    a: OperationV,
    b: OperationV,
    c: OperationV,
    k1: int,
    k2: int,
    k3: int,
)
    requires
        0 <= i,
        spec_bool_factor(s, i) == Some((a, k1)),
        spec_bool_factor(s, span(s, k1, Class::Alpha)) == Some((b, k2)),
        spec_bool_factor(s, span(s, k2, Class::Alpha)) == Some((c, k3)),
        !connective_at(s, k3, Keyword::And) && !connective_at(s, k3, Keyword::Or),
    ensures
        connective_at(s, k1, Keyword::Or) && connective_at(s, k2, Keyword::And) ==> spec_bool_expr(
            s,
            i,
        ) == Some(
            (
                OperationV::Condition(
                    Box::new(a),
                    Builtin::Or,
                    Box::new(OperationV::Condition(Box::new(b), Builtin::And, Box::new(c))),
                ),
                k3,
            ),
        ),
        connective_at(s, k1, Keyword::And) && connective_at(s, k2, Keyword::Or) ==> spec_bool_expr(
            s,
            i,
        ) == Some(
            (
                OperationV::Condition(
                    Box::new(OperationV::Condition(Box::new(a), Builtin::And, Box::new(b))),
                    Builtin::Or,
                    Box::new(c),
                ),
                k3,
            ),
        ),
{
    law_bool_operand_extent(s, i);
    lemma_span(s, k1, Class::Alpha);
    law_bool_operand_extent(s, span(s, k1, Class::Alpha));
    lemma_span(s, k2, Class::Alpha);
    law_bool_operand_extent(s, span(s, k2, Class::Alpha));
    assert(keyword(Keyword::And) != keyword(Keyword::Or)) by {
        assert(keyword(Keyword::And).len() != keyword(Keyword::Or).len());
    }
    reveal_with_fuel(crate::condition::spec_bool_term_rest, 3);
    reveal_with_fuel(crate::condition::spec_bool_expr_rest, 3);
    if connective_at(s, k1, Keyword::Or) && connective_at(s, k2, Keyword::And) {
        assert(spec_bool_term(s, i) == Some((a, k1)));
        assert(spec_bool_term(s, span(s, k1, Class::Alpha)) == Some(
            (OperationV::Condition(Box::new(b), Builtin::And, Box::new(c)), k3),
        ));
    }
    if connective_at(s, k1, Keyword::And) && connective_at(s, k2, Keyword::Or) {
        assert(spec_bool_term(s, i) == Some(
            (OperationV::Condition(Box::new(a), Builtin::And, Box::new(b)), k2),
        ));
        assert(spec_bool_term(s, span(s, k2, Class::Alpha)) == Some((c, k3)));
    }
}

} // verus!
