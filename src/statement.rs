//! The statement grammar and the program parser.
//!
//! ```text
//! program     := (blanks statement)* blanks
//! statement   := declaration | shape | move | 'reset_m' | color | for | conditional
//! declaration := variable ':' expr
//! shape       := 'circle' [expr] | 'square' [expr [expr]]
//! move        := 'move' expr ',' expr
//! color       := 'color' expr expr expr
//! for         := 'for' count blanks '{' program '}'
//! conditional := 'if' bool_expr program ('else' 'if' bool_expr program)*
//!                ['else' program] 'end' 'if'
//! ```
//!
//! The alternatives of a statement are tried in the order above and the first
//! that matches wins. A shape without a size gets size `1`; a square with one
//! size gets it for both sides. The program parser never fails: it stops at
//! the first position where no statement matches and reports that position.
use vstd::prelude::*;
use vstd::string::StrSliceExecFns;
use crate::ast::{
    lemma_view_branches_concat, lemma_view_branches_push, lemma_view_commands_push, view_branches, view_commands,
    view_operation, BranchV, Command, CommandV, ConditionalBuiltin, Decimal, DecimalV, Factor,
    FactorV, Node, NodeV, Operation, OperationV,
};
use crate::condition::{bool_expr_at, spec_bool_expr};
use crate::expr::{expr_at, spec_expr, spec_variable, variable_at, SyntaxError};
use crate::lexer::{
    chars_of, in_class, keyword, keyword_chars, lemma_span, range_is, span, span_exec, word_is, Class,
    Keyword,
};

verus! {

broadcast use vstd::std_specs::vec::group_vec_axioms, vstd::seq::group_seq_axioms;

/// The default size of a shape: the literal `1`.
pub open spec fn unit_size() -> OperationV {
    OperationV::Identity(
        FactorV::Number(DecimalV { negative: false, whole: seq!['1'], fraction: seq![] }),
    )
}

/// The predicate of an `else` branch, which always holds.
pub open spec fn always() -> OperationV {
    OperationV::Identity(FactorV::Boolean(true))
}

fn unit_size_exec() -> (r: Operation)
    ensures
        r@ == unit_size(),
{
    proof {
        reveal_with_fuel(view_operation, 2);
    }
    Operation::Identity(Factor::Number(Decimal::one()))
}

/// Whether the word at `j` is the keyword `k`; the word ends at `span(s, j, Alpha)`.
pub open spec fn word_at_is(s: Seq<char>, j: int, k: Keyword) -> bool {
    s.subrange(j, span(s, j, Class::Alpha)) == keyword(k)
}

pub open spec fn view_command_parsed(r: Option<(Command, usize)>) -> Option<(CommandV, int)> {
    match r {
        Some((c, k)) => Some((c@, k as int)),
        None => None,
    }
}

pub open spec fn view_node_parsed(r: Option<(Node, usize)>) -> Option<(NodeV, int)> {
    match r {
        Some((n, k)) => Some((n@, k as int)),
        None => None,
    }
}

/// The value of the decimal digits `s[a..b]`.
pub open spec fn digits_value(s: Seq<char>, a: int, b: int) -> int
    decreases b - a,
{
    if a < b {
        digits_value(s, a, b - 1) * 10 + ((s[b - 1] as u32) as int - 48)
    } else {
        0
    }
}

proof fn lemma_digits_value_grows(s: Seq<char>, a: int, t: int, b: int)
    requires
        0 <= a <= t <= b <= s.len(),
        forall|x: int| a <= x < b ==> in_class(#[trigger] s[x], Class::Digit),
    ensures
        0 <= digits_value(s, a, t) <= digits_value(s, a, b),
    decreases b - t,
{
    if t < b {
        lemma_digits_value_grows(s, a, t, b - 1);
        lemma_digits_value_grows(s, a, b - 1, b - 1);
        assert(in_class(s[b - 1], Class::Digit));
    } else {
        lemma_digits_nonneg(s, a, t);
    }
}

proof fn lemma_digits_nonneg(s: Seq<char>, a: int, b: int)
    requires
        0 <= a <= b <= s.len(),
        forall|x: int| a <= x < b ==> in_class(#[trigger] s[x], Class::Digit),
    ensures
        0 <= digits_value(s, a, b),
    decreases b - a,
{
    if a < b {
        lemma_digits_nonneg(s, a, b - 1);
        assert(in_class(s[b - 1], Class::Digit));
    }
}

/// The repetition count of a `for`: an optional `-` and decimal digits whose
/// value fits in an `i32`.
pub open spec fn spec_count(s: Seq<char>, p: int) -> Option<(int, int)> {
    let negative = 0 <= p < s.len() && s[p] == '-';
    let a = if negative {
        p + 1
    } else {
        p
    };
    let b = span(s, a, Class::Digit);
    if 0 <= a < b <= s.len() && digits_value(s, a, b) <= i32::MAX {
        if negative {
            Some((-digits_value(s, a, b), b))
        } else {
            Some((digits_value(s, a, b), b))
        }
    } else {
        None
    }
}

fn count_at(s: &Vec<char>, p: usize) -> (r: Option<(i32, usize)>)
    requires
        p <= s.len(),
    ensures
        match r {
            Some((n, b)) => spec_count(s@, p as int) == Some((n as int, b as int)) && p < b
                <= s.len(),
            None => spec_count(s@, p as int) is None,
        },
{
    let negative = p < s.len() && s[p] == '-';
    let a = if negative {
        p + 1
    } else {
        p
    };
    let b = span_exec(s, a, Class::Digit);
    if a >= b {
        return None;
    }
    proof {
        lemma_span(s@, a as int, Class::Digit);
    }
    let mut v: i64 = 0;
    let mut t = a;
    while t < b
        invariant
            a <= t <= b <= s.len(),
            b == span(s@, a as int, Class::Digit),
            forall|x: int| a <= x < b ==> in_class(#[trigger] s@[x], Class::Digit),
            v == digits_value(s@, a as int, t as int),
            0 <= v <= i32::MAX,
            p <= s.len(),
            negative == (p < s.len() && s@[p as int] == '-'),
            a as int == (if negative {
                p as int + 1
            } else {
                p as int
            }),
        decreases b - t,
    {
        assert(in_class(s@[t as int], Class::Digit));
        let d = (s[t] as u32 - 48) as i64;
        assert(digits_value(s@, a as int, t + 1) == v * 10 + d);
        if v * 10 + d > i32::MAX as i64 {
            proof {
                lemma_digits_value_grows(s@, a as int, t + 1, b as int);
                assert(digits_value(s@, a as int, b as int) > i32::MAX);
            }
            return None;
        }
        v = v * 10 + d;
        t = t + 1;
    }
    if negative {
        Some(((-v) as i32, b))
    } else {
        Some((v as i32, b))
    }
}

/// `name ':' expr` at `j`.
pub open spec fn spec_declaration(s: Seq<char>, j: int) -> Option<(CommandV, int)> {
    match spec_variable(s, j) {
        Some((name, w)) => {
            let p = span(s, w, Class::Space);
            if 0 <= p < s.len() && s[p] == ':' {
                match spec_expr(s, p + 1) {
                    Some((e, k)) => Some((CommandV::Declaration(name, e), k)),
                    None => None,
                }
            } else {
                None
            }
        },
        None => None,
    }
}

fn declaration_at(src: &str, s: &Vec<char>, j: usize) -> (r: Option<(Command, usize)>)
    requires
        s@ == src@,
        j <= s.len(),
    ensures
        view_command_parsed(r) == spec_declaration(s@, j as int),
        r matches Some((_, k)) ==> j < k <= s.len(),
{
    match variable_at(src, s, j) {
        Some((name, w)) => {
            let p = span_exec(s, w, Class::Space);
            if p < s.len() && s[p] == ':' {
                match expr_at(src, s, p + 1) {
                    Some((e, k)) => Some((Command::Declaration((name, e)), k)),
                    None => None,
                }
            } else {
                None
            }
        },
        None => None,
    }
}

/// Whether the text at `j` begins with the keyword `k` (another letter may follow it).
pub open spec fn prefix_at_is(s: Seq<char>, j: int, k: Keyword) -> bool {
    0 <= j && j + keyword(k).len() <= s.len() && s.subrange(j, j + keyword(k).len()) == keyword(k)
}

fn prefix_is(s: &Vec<char>, j: usize, k: Keyword) -> (r: bool)
    requires
        j <= s.len(),
    ensures
        r == prefix_at_is(s@, j as int, k),
{
    let w = keyword_chars(k);
    if w.len() > s.len() - j {
        return false;
    }
    range_is(s, j, j + w.len(), &w)
}

/// `circle [expr]` or `square [expr [expr]]` at `j`. The keyword is matched as
/// written, so `circlex` is a circle of size `x`.
pub open spec fn spec_shape(s: Seq<char>, j: int) -> Option<(NodeV, int)> {
    let w = j + 6;
    if prefix_at_is(s, j, Keyword::Circle) {
        match spec_expr(s, w) {
            Some((e, k)) => Some((NodeV::Circle(e), k)),
            None => Some((NodeV::Circle(unit_size()), w)),
        }
    } else if prefix_at_is(s, j, Keyword::Square) {
        match spec_expr(s, w) {
            Some((a, k)) => match spec_expr(s, k) {
                Some((b, m)) => Some((NodeV::Square(a, b), m)),
                None => Some((NodeV::Square(a, a), k)),
            },
            None => Some((NodeV::Square(unit_size(), unit_size()), w)),
        }
    } else {
        None
    }
}

fn shape_at(src: &str, s: &Vec<char>, j: usize) -> (r: Option<(Node, usize)>)
    requires
        s@ == src@,
        j <= s.len(),
    ensures
        view_node_parsed(r) == spec_shape(s@, j as int),
        r matches Some((_, k)) ==> j < k <= s.len(),
{
    assert(keyword(Keyword::Circle).len() == 6 && keyword(Keyword::Square).len() == 6);
    if prefix_is(s, j, Keyword::Circle) {
        let w = j + 6;
        match expr_at(src, s, w) {
            Some((e, k)) => Some((Node::Circle(e), k)),
            None => Some((Node::Circle(unit_size_exec()), w)),
        }
    } else if prefix_is(s, j, Keyword::Square) {
        let w = j + 6;
        match expr_at(src, s, w) {
            Some((a, k)) => match expr_at(src, s, k) {
                Some((b, m)) => Some((Node::Square((a, b)), m)),
                None => {
                    let b = a.clone();
                    Some((Node::Square((a, b)), k))
                },
            },
            None => Some((Node::Square((unit_size_exec(), unit_size_exec())), w)),
        }
    } else {
        None
    }
}

/// `move expr ',' expr` at `j`.
pub open spec fn spec_move(s: Seq<char>, j: int) -> Option<(CommandV, int)> {
    let w = span(s, j, Class::Alpha);
    if 0 <= j <= w <= s.len() && word_at_is(s, j, Keyword::Move) {
        match spec_expr(s, w) {
            Some((x, k)) => if 0 <= k < s.len() && s[k] == ',' {
                match spec_expr(s, k + 1) {
                    Some((y, m)) => Some((CommandV::Move(x, y), m)),
                    None => None,
                }
            } else {
                None
            },
            None => None,
        }
    } else {
        None
    }
}

fn move_at(src: &str, s: &Vec<char>, j: usize) -> (r: Option<(Command, usize)>)
    requires
        s@ == src@,
        j <= s.len(),
    ensures
        view_command_parsed(r) == spec_move(s@, j as int),
        r matches Some((_, k)) ==> j < k <= s.len(),
{
    let w = span_exec(s, j, Class::Alpha);
    if word_is(s, j, w, Keyword::Move) {
        match expr_at(src, s, w) {
            Some((x, k)) => if k < s.len() && s[k] == ',' {
                match expr_at(src, s, k + 1) {
                    Some((y, m)) => Some((Command::Move((x, y)), m)),
                    None => None,
                }
            } else {
                None
            },
            None => None,
        }
    } else {
        None
    }
}

pub open spec fn reset_word() -> Seq<char> {
    seq!['r', 'e', 's', 'e', 't', '_', 'm']
}

/// `reset_m` at `j`.
pub open spec fn spec_reset(s: Seq<char>, j: int) -> Option<(CommandV, int)> {
    if 0 <= j && j + 7 <= s.len() && s.subrange(j, j + 7) == reset_word() {
        Some((CommandV::ResetMove, j + 7))
    } else {
        None
    }
}

fn reset_at(s: &Vec<char>, j: usize) -> (r: Option<(Command, usize)>)
    requires
        j <= s.len(),
    ensures
        view_command_parsed(r) == spec_reset(s@, j as int),
        r matches Some((_, k)) ==> j < k <= s.len(),
{
    let w = vec!['r', 'e', 's', 'e', 't', '_', 'm'];
    assert(w@ =~= reset_word());
    if s.len() >= 7 && j <= s.len() - 7 && range_is(s, j, j + 7, &w) {
        Some((Command::ResetMove, j + 7))
    } else {
        None
    }
}

/// `color expr expr expr` at `j`.
pub open spec fn spec_color(s: Seq<char>, j: int) -> Option<(CommandV, int)> {
    let w = span(s, j, Class::Alpha);
    if 0 <= j <= w <= s.len() && word_at_is(s, j, Keyword::Color) {
        match spec_expr(s, w) {
            Some((r, k1)) => match spec_expr(s, k1) {
                Some((g, k2)) => match spec_expr(s, k2) {
                    Some((b, k3)) => Some((CommandV::Color(r, g, b), k3)),
                    None => None,
                },
                None => None,
            },
            None => None,
        }
    } else {
        None
    }
}

fn color_at(src: &str, s: &Vec<char>, j: usize) -> (r: Option<(Command, usize)>)
    requires
        s@ == src@,
        j <= s.len(),
    ensures
        view_command_parsed(r) == spec_color(s@, j as int),
        r matches Some((_, k)) ==> j < k <= s.len(),
{
    let w = span_exec(s, j, Class::Alpha);
    if word_is(s, j, w, Keyword::Color) {
        match expr_at(src, s, w) {
            Some((r, k1)) => match expr_at(src, s, k1) {
                Some((g, k2)) => match expr_at(src, s, k2) {
                    Some((b, k3)) => Some((Command::Color((r, g, b)), k3)),
                    None => None,
                },
                None => None,
            },
            None => None,
        }
    } else {
        None
    }
}

/// `end if` at `e`: the position after it.
pub open spec fn spec_end_if(s: Seq<char>, e: int) -> Option<int> {
    let w1 = span(s, e, Class::Alpha);
    let p = span(s, w1, Class::Space);
    let w2 = span(s, p, Class::Alpha);
    if 0 <= e <= w1 <= p <= w2 <= s.len() && word_at_is(s, e, Keyword::End) && word_at_is(
        s,
        p,
        Keyword::If,
    ) {
        Some(w2)
    } else {
        None
    }
}

fn end_if_at(s: &Vec<char>, e: usize) -> (r: Option<usize>)
    requires
        e <= s.len(),
    ensures
        match r {
            Some(k) => spec_end_if(s@, e as int) == Some(k as int) && e < k <= s.len(),
            None => spec_end_if(s@, e as int) is None,
        },
{
    let w1 = span_exec(s, e, Class::Alpha);
    let p = span_exec(s, w1, Class::Space);
    let w2 = span_exec(s, p, Class::Alpha);
    assert(keyword(Keyword::End).len() == 3);
    if word_is(s, e, w1, Keyword::End) && word_is(s, p, w2, Keyword::If) {
        Some(w2)
    } else {
        None
    }
}

/// The branches that follow the `if` branch of a conditional, up to and
/// including `end if`, at `e`.
pub open spec fn spec_else_chain(s: Seq<char>, e: int) -> Option<(Seq<BranchV>, int)>
    decreases s.len() - e, 0int,
{
    let w1 = span(s, e, Class::Alpha);
    let p = span(s, w1, Class::Space);
    let w2 = span(s, p, Class::Alpha);
    if !(0 <= e <= w1 <= p <= w2 <= s.len()) {
        None
    } else if word_at_is(s, e, Keyword::End) {
        match spec_end_if(s, e) {
            Some(k) => Some((seq![], k)),
            None => None,
        }
    } else if !word_at_is(s, e, Keyword::Else) || w1 <= e {
        None
    } else if word_at_is(s, p, Keyword::If) && w2 > p {
        match spec_bool_expr(s, w2) {
            Some((c, k)) => if w2 < k <= s.len() {
                let (body, e2) = spec_program(s, k);
                if k <= e2 <= s.len() {
                    match spec_else_chain(s, e2) {
                        Some((rest, end)) => Some(
                            (
                                seq![
                                    BranchV {
                                        kind: ConditionalBuiltin::ElseIfB,
                                        pred: c,
                                        body,
                                    },
                                ] + rest,
                                end,
                            ),
                        ),
                        None => None,
                    }
                } else {
                    None
                }
            } else {
                None
            },
            None => None,
        }
    } else {
        let (body, e2) = spec_program(s, w1);
        if w1 <= e2 <= s.len() {
            match spec_end_if(s, e2) {
                Some(k) => Some(
                    (
                        seq![BranchV { kind: ConditionalBuiltin::ElseB, pred: always(), body }],
                        k,
                    ),
                ),
                None => None,
            }
        } else {
            None
        }
    }
}

/// One statement at `j`.
pub open spec fn spec_statement(s: Seq<char>, j: int) -> Option<(CommandV, int)>
    decreases s.len() - j, 1int,
{
    let w = span(s, j, Class::Alpha);
    if !(0 <= j <= w <= s.len()) {
        None
    } else if spec_declaration(s, j) is Some {
        spec_declaration(s, j)
    } else if spec_shape(s, j) is Some {
        match spec_shape(s, j) {
            Some((node, k)) => Some((CommandV::Instantiation(node), k)),
            None => None,
        }
    } else if spec_move(s, j) is Some {
        spec_move(s, j)
    } else if spec_reset(s, j) is Some {
        spec_reset(s, j)
    } else if spec_color(s, j) is Some {
        spec_color(s, j)
    } else if word_at_is(s, j, Keyword::For) {
        let p = span(s, w, Class::Space);
        match spec_count(s, p) {
            Some((n, q)) => {
                let r = span(s, q, Class::Blank);
                if j <= r < s.len() && s[r] == '{' {
                    let (body, e) = spec_program(s, r + 1);
                    if r + 1 <= e < s.len() && s[e] == '}' {
                        Some((CommandV::For(n, body), e + 1))
                    } else {
                        None
                    }
                } else {
                    None
                }
            },
            None => None,
        }
    } else if word_at_is(s, j, Keyword::If) {
        match spec_bool_expr(s, w) {
            Some((c, k)) => if j < k <= s.len() {
                let (body, e) = spec_program(s, k);
                if k <= e <= s.len() {
                    match spec_else_chain(s, e) {
                        Some((rest, end)) => Some(
                            (
                                CommandV::ConditionalBlock(
                                    seq![
                                        BranchV {
                                            kind: ConditionalBuiltin::IfB,
                                            pred: c,
                                            body,
                                        },
                                    ] + rest,
                                ),
                                end,
                            ),
                        ),
                        None => None,
                    }
                } else {
                    None
                }
            } else {
                None
            },
            None => None,
        }
    } else {
        None
    }
}

/// Statements from `i` on, each after optional blanks, for as long as one
/// matches; with the position where the next one would have started.
pub open spec fn spec_program(s: Seq<char>, i: int) -> (Seq<CommandV>, int)
    decreases s.len() - i, 2int,
{
    let j = span(s, i, Class::Blank);
    if !(0 <= i <= j <= s.len()) {
        (seq![], i)
    } else {
        match spec_statement(s, j) {
            Some((c, k)) => if j < k <= s.len() {
                let (rest, e) = spec_program(s, k);
                (seq![c] + rest, e)
            } else {
                (seq![], j)
            },
            None => (seq![], j),
        }
    }
}

fn else_chain_at(src: &str, s: &Vec<char>, e: usize) -> (r: Option<
    (Vec<(ConditionalBuiltin, Operation, Vec<Command>)>, usize),
>)
    requires
        s@ == src@,
        e <= s.len(),
    ensures
        match r {
            Some((bs, k)) => spec_else_chain(s@, e as int) == Some(
                (view_branches(bs@), k as int),
            ) && e < k <= s.len(),
            None => spec_else_chain(s@, e as int) is None,
        },
    decreases s.len() - e, 0int,
{
    let w1 = span_exec(s, e, Class::Alpha);
    let p = span_exec(s, w1, Class::Space);
    let w2 = span_exec(s, p, Class::Alpha);
    if word_is(s, e, w1, Keyword::End) {
        match end_if_at(s, e) {
            Some(k) => {
                let bs: Vec<(ConditionalBuiltin, Operation, Vec<Command>)> = Vec::new();
                assert(view_branches(bs@) =~= Seq::<BranchV>::empty());
                Some((bs, k))
            },
            None => None,
        }
    } else if !word_is(s, e, w1, Keyword::Else) || w1 <= e {
        None
    } else if word_is(s, p, w2, Keyword::If) && w2 > p {
        match bool_expr_at(src, s, w2) {
            Some((c, k)) => {
                let (body, e2) = program_at(src, s, k);
                match else_chain_at(src, s, e2) {
                    Some((rest, end)) => {
                        let mut bs: Vec<(ConditionalBuiltin, Operation, Vec<Command>)> =
                            Vec::new();
                        proof {
                            lemma_view_branches_push(bs@, (ConditionalBuiltin::ElseIfB, c, body));
                        }
                        bs.push((ConditionalBuiltin::ElseIfB, c, body));
                        let all = join_branches(bs, rest);
                        Some((all, end))
                    },
                    None => None,
                }
            },
            None => None,
        }
    } else {
        let (body, e2) = program_at(src, s, w1);
        match end_if_at(s, e2) {
            Some(k) => {
                let mut bs: Vec<(ConditionalBuiltin, Operation, Vec<Command>)> = Vec::new();
                let t = Operation::Identity(Factor::Boolean(true));
                proof {
                    reveal_with_fuel(view_operation, 2);
                    lemma_view_branches_push(bs@, (ConditionalBuiltin::ElseB, t, body));
                }
                bs.push((ConditionalBuiltin::ElseB, t, body));
                assert(view_branches(bs@) =~= seq![
                    BranchV {
                        kind: ConditionalBuiltin::ElseB,
                        pred: always(),
                        body: view_commands(body@),
                    },
                ]);
                Some((bs, k))
            },
            None => None,
        }
    }
}

/// Appends the branches of `rest` to those of `bs`.
fn join_branches(
    bs: Vec<(ConditionalBuiltin, Operation, Vec<Command>)>,
    rest: Vec<(ConditionalBuiltin, Operation, Vec<Command>)>,
) -> (r: Vec<(ConditionalBuiltin, Operation, Vec<Command>)>)
    ensures
        view_branches(r@) == view_branches(bs@) + view_branches(rest@),
{
    let mut r = bs;
    let mut rest = rest;
    proof {
        lemma_view_branches_concat(r@, rest@);
    }
    r.append(&mut rest);
    r
}

fn statement_at(src: &str, s: &Vec<char>, j: usize) -> (r: Option<(Command, usize)>)
    requires
        s@ == src@,
        j <= s.len(),
    ensures
        view_command_parsed(r) == spec_statement(s@, j as int),
        r matches Some((_, k)) ==> j < k <= s.len(),
    decreases s.len() - j, 1int,
{
    let w = span_exec(s, j, Class::Alpha);
    let d = declaration_at(src, s, j);
    if d.is_some() {
        return d;
    }
    match shape_at(src, s, j) {
        Some((node, k)) => {
            return Some((Command::Instantiation(node), k));
        },
        None => {},
    }
    let m = move_at(src, s, j);
    if m.is_some() {
        return m;
    }
    let r = reset_at(s, j);
    if r.is_some() {
        return r;
    }
    let c = color_at(src, s, j);
    if c.is_some() {
        return c;
    }
    if word_is(s, j, w, Keyword::For) {
        let p = span_exec(s, w, Class::Space);
        match count_at(s, p) {
            Some((n, q)) => {
                let r = span_exec(s, q, Class::Blank);
                if r < s.len() && s[r] == '{' {
                    let (body, e) = program_at(src, s, r + 1);
                    if e < s.len() && s[e] == '}' {
                        Some((Command::For((n, body)), e + 1))
                    } else {
                        None
                    }
                } else {
                    None
                }
            },
            None => None,
        }
    } else if word_is(s, j, w, Keyword::If) {
        match bool_expr_at(src, s, w) {
            Some((c, k)) => {
                let (body, e) = program_at(src, s, k);
                match else_chain_at(src, s, e) {
                    Some((rest, end)) => {
                        let mut bs: Vec<(ConditionalBuiltin, Operation, Vec<Command>)> =
                            Vec::new();
                        proof {
                            lemma_view_branches_push(bs@, (ConditionalBuiltin::IfB, c, body));
                        }
                        bs.push((ConditionalBuiltin::IfB, c, body));
                        let all = join_branches(bs, rest);
                        Some((Command::ConditionalBlock(all), end))
                    },
                    None => None,
                }
            },
            None => None,
        }
    } else {
        None
    }
}

pub fn program_at(src: &str, s: &Vec<char>, i: usize) -> (r: (Vec<Command>, usize))
    requires
        s@ == src@,
        i <= s.len(),
    ensures
        spec_program(s@, i as int) == (view_commands(r.0@), r.1 as int),
        i <= r.1 <= s.len(),
    decreases s.len() - i, 2int,
{
    let mut cmds: Vec<Command> = Vec::new();
    let mut k = i;
    assert(view_commands(cmds@) =~= Seq::<CommandV>::empty());
    loop
        invariant
            i <= k <= s.len(),
            s@ == src@,
            spec_program(s@, i as int) == (
                view_commands(cmds@) + spec_program(s@, k as int).0,
                spec_program(s@, k as int).1,
            ),
        decreases s.len() - k,
    {
        let j = span_exec(s, k, Class::Blank);
        match statement_at(src, s, j) {
            Some((c, m)) => {
                proof {
                    lemma_view_commands_push(cmds@, c);
                    let rest = spec_program(s@, m as int).0;
                    assert(view_commands(cmds@).push(c@) + rest =~= view_commands(cmds@) + (
                    seq![c@] + rest));
                }
                cmds.push(c);
                k = m;
            },
            None => {
                assert(view_commands(cmds@) + Seq::<CommandV>::empty() =~= view_commands(
                    cmds@,
                ));
                return (cmds, j);
            },
        }
    }
}

/// A variable name at the start of `input`.
pub fn variable_name(input: &str) -> (r: Result<(&str, String), SyntaxError>)
    ensures
        match r {
            Ok((rest, name)) => spec_variable(input@, 0) matches Some((v, k)) && name@ == v
                && rest@ == input@.subrange(k, input@.len() as int),
            Err(_) => spec_variable(input@, 0) is None,
        },
{
    let s = chars_of(input);
    match variable_at(input, &s, 0) {
        Some((name, k)) => Ok((input.substring_char(k, s.len()), name)),
        None => Err(SyntaxError),
    }
}

/// A declaration `name: expr` at the start of `input`.
pub fn assignment(input: &str) -> (r: Result<(&str, Command), SyntaxError>)
    ensures
        match r {
            Ok((rest, c)) => spec_declaration(input@, 0) matches Some((v, k)) && c@ == v && rest@
                == input@.subrange(k, input@.len() as int),
            Err(_) => spec_declaration(input@, 0) is None,
        },
{
    let s = chars_of(input);
    match declaration_at(input, &s, 0) {
        Some((c, k)) => Ok((input.substring_char(k, s.len()), c)),
        None => Err(SyntaxError),
    }
}

fn shape_of_kind(input: &str, k: Keyword) -> (r: Result<(&str, Node), SyntaxError>)
    ensures
        match r {
            Ok((rest, n)) => spec_shape(input@, 0) matches Some((v, e)) && prefix_at_is(
                input@,
                0,
                k,
            ) && n@ == v && rest@ == input@.subrange(e, input@.len() as int),
            Err(_) => !prefix_at_is(input@, 0, k) || spec_shape(input@, 0) is None,
        },
{
    let s = chars_of(input);
    if !prefix_is(&s, 0, k) {
        return Err(SyntaxError);
    }
    match shape_at(input, &s, 0) {
        Some((n, e)) => Ok((input.substring_char(e, s.len()), n)),
        None => Err(SyntaxError),
    }
}

/// `square`, with up to two sizes, at the start of `input`; it fails exactly
/// when `input` does not begin with `square`.
pub fn square(input: &str) -> (r: Result<(&str, Node), SyntaxError>)
    ensures
        match r {
            Ok((rest, n)) => spec_shape(input@, 0) matches Some((v, e)) && prefix_at_is(
                input@,
                0,
                Keyword::Square,
            ) && n@ == v && rest@ == input@.subrange(e, input@.len() as int),
            Err(_) => !prefix_at_is(input@, 0, Keyword::Square),
        },
{
    shape_of_kind(input, Keyword::Square)
}

/// `circle`, with an optional size, at the start of `input`; it fails exactly
/// when `input` does not begin with `circle`.
pub fn circle(input: &str) -> (r: Result<(&str, Node), SyntaxError>)
    ensures
        match r {
            Ok((rest, n)) => spec_shape(input@, 0) matches Some((v, e)) && prefix_at_is(
                input@,
                0,
                Keyword::Circle,
            ) && n@ == v && rest@ == input@.subrange(e, input@.len() as int),
            Err(_) => !prefix_at_is(input@, 0, Keyword::Circle),
        },
{
    shape_of_kind(input, Keyword::Circle)
}

/// A shape instantiation at the start of `input`.
pub fn draw_shape(input: &str) -> (r: Result<(&str, Command), SyntaxError>)
    ensures
        match r {
            Ok((rest, c)) => spec_shape(input@, 0) matches Some((v, k)) && c@
                == CommandV::Instantiation(v) && rest@ == input@.subrange(k, input@.len() as int),
            Err(_) => spec_shape(input@, 0) is None,
        },
{
    let s = chars_of(input);
    match shape_at(input, &s, 0) {
        Some((n, k)) => Ok((input.substring_char(k, s.len()), Command::Instantiation(n))),
        None => Err(SyntaxError),
    }
}

/// One statement at the start of `input`.
pub fn statement(input: &str) -> (r: Result<(&str, Command), SyntaxError>)
    ensures
        match r {
            Ok((rest, c)) => spec_statement(input@, 0) matches Some((v, k)) && c@ == v && rest@
                == input@.subrange(k, input@.len() as int),
            Err(_) => spec_statement(input@, 0) is None,
        },
{
    let s = chars_of(input);
    match statement_at(input, &s, 0) {
        Some((c, k)) => Ok((input.substring_char(k, s.len()), c)),
        None => Err(SyntaxError),
    }
}

/// A conditional block `if ... end if` at the start of `input`.
pub fn command_if(input: &str) -> (r: Result<(&str, Command), SyntaxError>)
    ensures
        match r {
            Ok((rest, c)) => spec_statement(input@, 0) matches Some((v, k)) && word_at_is(input@, 0, Keyword::If)
                && c@ == v && rest@ == input@.subrange(k, input@.len() as int),
            Err(_) => !word_at_is(input@, 0, Keyword::If) || spec_statement(input@, 0) is None,
        },
{
    let s = chars_of(input);
    let w = span_exec(&s, 0, Class::Alpha);
    if !word_is(&s, 0, w, Keyword::If) {
        return Err(SyntaxError);
    }
    match statement_at(input, &s, 0) {
        Some((c, k)) => Ok((input.substring_char(k, s.len()), c)),
        None => Err(SyntaxError),
    }
}

/// A loop `for n { ... }` at the start of `input`.
pub fn command_for(input: &str) -> (r: Result<(&str, Command), SyntaxError>)
    ensures
        match r {
            Ok((rest, c)) => spec_statement(input@, 0) matches Some((v, k)) && word_at_is(input@, 0, Keyword::For)
                && c@ == v && rest@ == input@.subrange(k, input@.len() as int),
            Err(_) => !word_at_is(input@, 0, Keyword::For) || spec_statement(input@, 0) is None,
        },
{
    let s = chars_of(input);
    let w = span_exec(&s, 0, Class::Alpha);
    if !word_is(&s, 0, w, Keyword::For) {
        return Err(SyntaxError);
    }
    match statement_at(input, &s, 0) {
        Some((c, k)) => Ok((input.substring_char(k, s.len()), c)),
        None => Err(SyntaxError),
    }
}

/// The whole program: the statements that parse, one after the other, and
/// the text from the first position where none does. This never fails; the
/// input was accepted in full exactly when the remainder is empty.
pub fn parser(input: &str) -> (r: Result<(&str, Vec<Command>), SyntaxError>)
    ensures
        r matches Ok((rest, cmds)) && view_commands(cmds@) == spec_program(input@, 0).0 && rest@
            == input@.subrange(spec_program(input@, 0).1, input@.len() as int),
{
    let s = chars_of(input);
    let (cmds, k) = program_at(input, &s, 0);
    Ok((input.substring_char(k, s.len()), cmds))
}

} // verus!
