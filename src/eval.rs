//! The evaluator's control flow: a step machine that flattens a program into
//! leaf commands.
//!
//! Arithmetic is not done here. The host runs the machine: it hands on every
//! `Emit`, binds every `Declare` to the value of its expression, and answers
//! every `Test` (one comparison of two arithmetic expressions) with its truth
//! through `resume`. The machine decides everything else: which statement
//! comes next, how often a loop body runs, the truth of a predicate from the
//! truths of its comparisons (literals as written, `and` and `or` over both
//! sides, see `decide`), which branch of a conditional block is taken (the
//! first whose predicate holds; an `else` branch always holds; later
//! predicates are never asked), whether a variable is referenced before any
//! declaration of the pass has bound it, and whether an expression is used in
//! the wrong context (a boolean as a number, a number as a condition).
//! Declarations are not scoped: a name bound inside a loop or a branch stays
//! bound for the rest of the pass.
use vstd::prelude::*;
use crate::ast::{
    copy_branches, copy_commands, lemma_view_branches, lemma_view_commands, view_branches, view_commands, view_operation, BranchV, Builtin, Command, CommandV, ConditionalBuiltin,
    Factor, FactorV, Node, NodeV, Operation, OperationV,
};

verus! {

broadcast use vstd::std_specs::vec::group_vec_axioms, vstd::seq::group_seq_axioms;

/// Work still to do, innermost last.
pub enum Work {
    /// The commands of a block, from the given index on.
    Run(Vec<Command>, usize),
    /// A loop body that still has to run the given number of times.
    Repeat(Vec<Command>, i32),
    /// The branches of a conditional block, from the given index on.
    Select(Vec<(ConditionalBuiltin, Operation, Vec<Command>)>, usize),
}

pub ghost enum WorkV {
    Run(Seq<CommandV>, int),
    Repeat(Seq<CommandV>, int),
    Select(Seq<BranchV>, int),
}

impl View for Work {
    type V = WorkV;

    open spec fn view(&self) -> WorkV {
        match self {
            Work::Run(cs, i) => WorkV::Run(view_commands(cs@), *i as int),
            Work::Repeat(cs, n) => WorkV::Repeat(view_commands(cs@), *n as int),
            Work::Select(bs, i) => WorkV::Select(view_branches(bs@), *i as int),
        }
    }
}

/// What the host has to do after a step of the machine.
#[derive(Debug)]
pub enum Step {
    /// Hand on this leaf command (a shape, a move, a color or a reset).
    Emit(Command),
    /// Bind the name to the value of the expression, replacing any earlier value.
    Declare(String, Operation),
    /// Decide the comparison and report its truth with `resume`.
    Test(Operation),
    /// The pass fails: the variable is referenced before it is declared. The
    /// leaves handed on earlier in the pass are void: no partial list of them
    /// may be drawn.
    UnboundVariable(String),
    /// The pass fails: a boolean stands where a number is needed, or a number
    /// where a condition is needed. The leaves handed on earlier are void.
    TypeMismatch,
    /// Nothing to do; ask for the next step.
    Skip,
    /// The pass is over.
    Done,
}

pub ghost enum StepV {
    Emit(CommandV),
    Declare(Seq<char>, OperationV),
    Test(OperationV),
    UnboundVariable(Seq<char>),
    TypeMismatch,
    Skip,
    Done,
}

impl View for Step {
    type V = StepV;

    open spec fn view(&self) -> StepV {
        match self {
            Step::Emit(c) => StepV::Emit(c@),
            Step::Declare(name, op) => StepV::Declare(name@, op@),
            Step::Test(op) => StepV::Test(op@),
            Step::UnboundVariable(name) => StepV::UnboundVariable(name@),
            Step::TypeMismatch => StepV::TypeMismatch,
            Step::Skip => StepV::Skip,
            Step::Done => StepV::Done,
        }
    }
}

/// The state of one evaluation pass.
pub struct Evaluator {
    stack: Vec<Work>,
    bound: Vec<String>,
    answers: Vec<bool>,
    waiting: bool,
    failed: bool,
}

pub ghost struct EvaluatorV {
    /// Work still to do, innermost last.
    pub stack: Seq<WorkV>,
    /// The names declared so far in this pass.
    pub bound: Seq<Seq<char>>,
    /// The truths reported so far for the comparisons of the predicate being decided.
    pub answers: Seq<bool>,
    /// A `Test` was handed out and not yet answered.
    pub waiting: bool,
    /// The pass has failed on an unbound variable.
    pub failed: bool,
}

impl View for Evaluator {
    type V = EvaluatorV;

    closed spec fn view(&self) -> EvaluatorV {
        EvaluatorV {
            stack: self.stack@.map_values(|w: Work| w@),
            bound: self.bound@.map_values(|s: String| s@),
            answers: self.answers@,
            waiting: self.waiting,
            failed: self.failed,
        }
    }
}

/// The first variable of `o`, left to right, that `bound` does not hold.
pub open spec fn first_unbound(o: OperationV, bound: Seq<Seq<char>>) -> Option<Seq<char>>
    decreases o,
{
    match o {
        OperationV::Identity(f) => match f {
            FactorV::Variable(name) => if bound.contains(name) {
                None
            } else {
                Some(name)
            },
            FactorV::Sin(b) => first_unbound(*b, bound),
            FactorV::Cos(b) => first_unbound(*b, bound),
            _ => None,
        },
        OperationV::Calculation(l, _, r) => match first_unbound(*l, bound) {
            Some(name) => Some(name),
            None => first_unbound(*r, bound),
        },
        OperationV::Condition(l, _, r) => match first_unbound(*l, bound) {
            Some(name) => Some(name),
            None => first_unbound(*r, bound),
        },
    }
}

/// The first variable of the operands `ops`, in order, that `bound` does not hold.
pub open spec fn first_unbound_in(ops: Seq<OperationV>, bound: Seq<Seq<char>>) -> Option<
    Seq<char>,
>
    decreases ops.len(),
{
    if ops.len() == 0 {
        None
    } else {
        match first_unbound(ops[0], bound) {
            Some(name) => Some(name),
            None => first_unbound_in(ops.subrange(1, ops.len() as int), bound),
        }
    }
}

/// The expressions that a leaf command carries.
pub open spec fn operands(c: CommandV) -> Seq<OperationV> {
    match c {
        CommandV::Instantiation(NodeV::Circle(r)) => seq![r],
        CommandV::Instantiation(NodeV::Square(w, h)) => seq![w, h],
        CommandV::Move(x, y) => seq![x, y],
        CommandV::Color(r, g, b) => seq![r, g, b],
        _ => seq![],
    }
}

/// `bound` with `name` added, unless it holds it already.
pub open spec fn bind(bound: Seq<Seq<char>>, name: Seq<char>) -> Seq<Seq<char>> {
    if bound.contains(name) {
        bound
    } else {
        bound.push(name)
    }
}

/// The machine with its stack replaced.
pub open spec fn with_stack(m: EvaluatorV, stack: Seq<WorkV>) -> EvaluatorV {
    EvaluatorV { stack, ..m }
}

/// The machine after it failed.
pub open spec fn failing(m: EvaluatorV) -> EvaluatorV {
    EvaluatorV { failed: true, ..m }
}

/// The operators that compare two numbers.
pub open spec fn is_comparator(op: Builtin) -> bool {
    op == Builtin::Greater || op == Builtin::Lesser || op == Builtin::GreaterOrEqual || op
        == Builtin::LesserOrEqual || op == Builtin::Equal
}

/// The arithmetic operators.
pub open spec fn is_arithmetic(op: Builtin) -> bool {
    op == Builtin::Plus || op == Builtin::Minus || op == Builtin::Mult || op == Builtin::Div
}

/// `o` denotes a number: no boolean and no condition stands in it.
pub open spec fn is_numeric(o: OperationV) -> bool
    decreases o,
{
    match o {
        OperationV::Identity(f) => match f {
            FactorV::Boolean(_) => false,
            FactorV::Sin(b) => is_numeric(*b),
            FactorV::Cos(b) => is_numeric(*b),
            _ => true,
        },
        OperationV::Calculation(l, op, r) => is_arithmetic(op) && is_numeric(*l) && is_numeric(*r),
        OperationV::Condition(_, _, _) => false,
    }
}

/// `o` denotes a truth: literals, comparisons of numbers, and `and` / `or` of
/// conditions.
pub open spec fn is_condition(o: OperationV) -> bool
    decreases o,
{
    match o {
        OperationV::Identity(FactorV::Boolean(_)) => true,
        OperationV::Condition(l, op, r) => if op == Builtin::And || op == Builtin::Or {
            is_condition(*l) && is_condition(*r)
        } else {
            is_comparator(op) && is_numeric(*l) && is_numeric(*r)
        },
        _ => false,
    }
}

/// The comparisons in `p`, left to right: all that the host must decide.
pub open spec fn comparisons(p: OperationV) -> Seq<OperationV>
    decreases p,
{
    match p {
        OperationV::Condition(l, op, r) => if op == Builtin::And || op == Builtin::Or {
            comparisons(*l) + comparisons(*r)
        } else if is_comparator(op) {
            seq![p]
        } else {
            seq![]
        },
        _ => seq![],
    }
}

/// The truth of `p` when its comparisons hold as `answers` says, in order:
/// literals as written, `and` and `or` over both sides.
pub open spec fn truth(p: OperationV, answers: Seq<bool>) -> bool
    decreases p,
{
    match p {
        OperationV::Identity(FactorV::Boolean(b)) => b,
        OperationV::Condition(l, op, r) => if op == Builtin::And || op == Builtin::Or {
            let n = comparisons(*l).len() as int;
            let a = truth(*l, answers.subrange(0, n));
            let b = truth(*r, answers.subrange(n, answers.len() as int));
            if op == Builtin::And {
                a && b
            } else {
                a || b
            }
        } else if is_comparator(op) {
            answers.len() > 0 && answers[0]
        } else {
            false
        },
        _ => false,
    }
}

/// What running the command `c` asks of the host, the work it adds, the names
/// bound after it, and whether the pass fails on it.
pub open spec fn command_effect(c: CommandV, bound: Seq<Seq<char>>) -> (
    StepV,
    Option<WorkV>,
    Seq<Seq<char>>,
    bool,
) {
    match c {
        CommandV::Declaration(name, op) => match first_unbound(op, bound) {
            Some(x) => (StepV::UnboundVariable(x), None, bound, true),
            None => if is_numeric(op) {
                (StepV::Declare(name, op), None, bind(bound, name), false)
            } else {
                (StepV::TypeMismatch, None, bound, true)
            },
        },
        CommandV::For(n, body) => if n > 0 {
            (StepV::Skip, Some(WorkV::Repeat(body, n)), bound, false)
        } else {
            (StepV::Skip, None, bound, false)
        },
        CommandV::ConditionalBlock(bs) => (StepV::Skip, Some(WorkV::Select(bs, 0)), bound, false),
        _ => match first_unbound_in(operands(c), bound) {
            Some(x) => (StepV::UnboundVariable(x), None, bound, true),
            None => if all_numeric(operands(c)) {
                (StepV::Emit(c), None, bound, false)
            } else {
                (StepV::TypeMismatch, None, bound, true)
            },
        },
    }
}

pub open spec fn all_numeric(ops: Seq<OperationV>) -> bool {
    forall|j: int| 0 <= j < ops.len() ==> is_numeric(#[trigger] ops[j])
}

/// One step of the machine: what the host is asked to do, and the new state.
pub open spec fn spec_next(m: EvaluatorV) -> (StepV, EvaluatorV) {
    if m.failed || m.stack.len() == 0 {
        (StepV::Done, m)
    } else {
        let rest = m.stack.drop_last();
        match m.stack.last() {
            WorkV::Run(cs, i) => if !(0 <= i < cs.len()) {
                (StepV::Skip, with_stack(m, rest))
            } else {
                let (step, pushed, bound, failed) = command_effect(cs[i], m.bound);
                let stack = rest.push(WorkV::Run(cs, i + 1));
                (
                    step,
                    EvaluatorV {
                        stack: match pushed {
                            Some(w) => stack.push(w),
                            None => stack,
                        },
                        bound,
                        answers: m.answers,
                        failed,
                        waiting: m.waiting,
                    },
                )
            },
            WorkV::Repeat(body, n) => if n <= 0 {
                (StepV::Skip, with_stack(m, rest))
            } else {
                (
                    StepV::Skip,
                    with_stack(m, rest.push(WorkV::Repeat(body, n - 1)).push(WorkV::Run(body, 0))),
                )
            },
            WorkV::Select(bs, i) => if !(0 <= i < bs.len()) {
                (StepV::Skip, with_stack(m, rest))
            } else if bs[i].kind == ConditionalBuiltin::ElseB {
                (StepV::Skip, with_stack(m, rest.push(WorkV::Run(bs[i].body, 0))))
            } else {
                let p = bs[i].pred;
                let cs = comparisons(p);
                match first_unbound(p, m.bound) {
                    Some(x) => (StepV::UnboundVariable(x), failing(m)),
                    None => if !is_condition(p) {
                        (StepV::TypeMismatch, failing(m))
                    } else if m.answers.len() < cs.len() {
                        (StepV::Test(cs[m.answers.len() as int]), EvaluatorV { waiting: true, ..m })
                    } else if truth(p, m.answers.subrange(0, cs.len() as int)) {
                        (
                            StepV::Skip,
                            EvaluatorV {
                                stack: rest.push(WorkV::Run(bs[i].body, 0)),
                                answers: seq![],
                                ..m
                            },
                        )
                    } else {
                        (
                            StepV::Skip,
                            EvaluatorV {
                                stack: rest.push(WorkV::Select(bs, i + 1)),
                                answers: seq![],
                                ..m
                            },
                        )
                    },
                }
            },
        }
    }
}

/// The machine once the comparison it asked for is known to be `truth`.
pub open spec fn spec_resume(m: EvaluatorV, truth: bool) -> EvaluatorV {
    if !m.waiting || m.failed {
        m
    } else {
        EvaluatorV { answers: m.answers.push(truth), waiting: false, ..m }
    }
}

/// The machine at the start of a pass over `program`.
pub open spec fn initial(program: Seq<CommandV>) -> EvaluatorV {
    EvaluatorV {
        stack: seq![WorkV::Run(program, 0)],
        bound: seq![],
        answers: seq![],
        waiting: false,
        failed: false,
    }
}

fn is_bound(bound: &Vec<String>, name: &String) -> (r: bool)
    ensures
        r == bound@.map_values(|s: String| s@).contains(name@),
{
    let ghost names = bound@.map_values(|s: String| s@);
    let mut j: usize = 0;
    while j < bound.len()
        invariant
            j <= bound.len(),
            names == bound@.map_values(|s: String| s@),
            forall|t: int| 0 <= t < j ==> names[t] != name@,
        decreases bound.len() - j,
    {
        if bound[j] == *name {
            assert(names[j as int] == name@);
            return true;
        }
        j = j + 1;
    }
    false
}

fn first_unbound_exec(o: &Operation, bound: &Vec<String>) -> (r: Option<String>)
    ensures
        match r {
            Some(name) => first_unbound(o@, bound@.map_values(|s: String| s@)) == Some(name@),
            None => first_unbound(o@, bound@.map_values(|s: String| s@)) is None,
        },
    decreases o,
{
    proof {
        reveal_with_fuel(view_operation, 2);
    }
    match o {
        Operation::Identity(f) => match f {
            Factor::Variable(name) => if is_bound(bound, name) {
                None
            } else {
                Some(name.clone())
            },
            Factor::Sin(b) => first_unbound_exec(b, bound),
            Factor::Cos(b) => first_unbound_exec(b, bound),
            _ => None,
        },
        Operation::Calculation((l, _, r)) => match first_unbound_exec(l, bound) {
            Some(name) => Some(name),
            None => first_unbound_exec(r, bound),
        },
        Operation::Condition((l, _, r)) => match first_unbound_exec(l, bound) {
            Some(name) => Some(name),
            None => first_unbound_exec(r, bound),
        },
    }
}

/// The first unbound variable among the operands of the leaf command `c`.
fn leaf_unbound(c: &Command, bound: &Vec<String>) -> (r: Option<String>)
    requires
        c is Instantiation || c is Move || c is Color || c is ResetMove,
    ensures
        match r {
            Some(name) => first_unbound_in(operands(c@), bound@.map_values(|s: String| s@))
                == Some(name@),
            None => first_unbound_in(operands(c@), bound@.map_values(|s: String| s@)) is None,
        },
{
    let ghost b = bound@.map_values(|s: String| s@);
    proof {
        reveal_with_fuel(first_unbound_in, 4);
    }
    match c {
        Command::Instantiation(Node::Circle(r)) => {
            assert(seq![r@].subrange(1, 1) =~= Seq::<OperationV>::empty());
            first_unbound_exec(r, bound)
        },
        Command::Instantiation(Node::Square((w, h))) => {
            assert(seq![w@, h@].subrange(1, 2) =~= seq![h@]);
            assert(seq![h@].subrange(1, 1) =~= Seq::<OperationV>::empty());
            match first_unbound_exec(w, bound) {
                Some(name) => Some(name),
                None => first_unbound_exec(h, bound),
            }
        },
        Command::Move((x, y)) => {
            assert(seq![x@, y@].subrange(1, 2) =~= seq![y@]);
            assert(seq![y@].subrange(1, 1) =~= Seq::<OperationV>::empty());
            match first_unbound_exec(x, bound) {
                Some(name) => Some(name),
                None => first_unbound_exec(y, bound),
            }
        },
        Command::Color((r, g, bl)) => {
            assert(seq![r@, g@, bl@].subrange(1, 3) =~= seq![g@, bl@]);
            assert(seq![g@, bl@].subrange(1, 2) =~= seq![bl@]);
            assert(seq![bl@].subrange(1, 1) =~= Seq::<OperationV>::empty());
            match first_unbound_exec(r, bound) {
                Some(name) => Some(name),
                None => match first_unbound_exec(g, bound) {
                    Some(name) => Some(name),
                    None => first_unbound_exec(bl, bound),
                },
            }
        },
        _ => None,
    }
}

fn is_comparator_exec(op: Builtin) -> (r: bool)
    ensures
        r == is_comparator(op),
{
    op == Builtin::Greater || op == Builtin::Lesser || op == Builtin::GreaterOrEqual || op
        == Builtin::LesserOrEqual || op == Builtin::Equal
}

fn is_numeric_exec(o: &Operation) -> (r: bool)
    ensures
        r == is_numeric(o@),
    decreases o,
{
    proof {
        reveal_with_fuel(view_operation, 2);
    }
    match o {
        Operation::Identity(f) => match f {
            Factor::Boolean(_) => false,
            Factor::Sin(b) => is_numeric_exec(b),
            Factor::Cos(b) => is_numeric_exec(b),
            _ => true,
        },
        Operation::Calculation((l, op, r)) => {
            let arith = *op == Builtin::Plus || *op == Builtin::Minus || *op == Builtin::Mult
                || *op == Builtin::Div;
            arith && is_numeric_exec(l) && is_numeric_exec(r)
        },
        Operation::Condition(_) => false,
    }
}

fn is_condition_exec(o: &Operation) -> (r: bool)
    ensures
        r == is_condition(o@),
    decreases o,
{
    proof {
        reveal_with_fuel(view_operation, 2);
    }
    match o {
        Operation::Identity(Factor::Boolean(_)) => true,
        Operation::Condition((l, op, r)) => if *op == Builtin::And || *op == Builtin::Or {
            is_condition_exec(l) && is_condition_exec(r)
        } else {
            is_comparator_exec(*op) && is_numeric_exec(l) && is_numeric_exec(r)
        },
        _ => false,
    }
}

/// Whether every operand of the leaf command `c` denotes a number.
fn leaf_numeric(c: &Command) -> (r: bool)
    ensures
        r == all_numeric(operands(c@)),
{
    match c {
        Command::Instantiation(Node::Circle(r)) => {
            let a = is_numeric_exec(r);
            assert(a == all_numeric(seq![r@])) by {
                if a {
                    assert forall|j: int| 0 <= j < 1 implies is_numeric(#[trigger] seq![r@][j]) by {
                        assert(seq![r@][j] == r@);
                    }
                } else {
                    assert(seq![r@][0] == r@);
                }
            }
            a
        },
        Command::Instantiation(Node::Square((w, h))) => {
            let a = is_numeric_exec(w) && is_numeric_exec(h);
            let ghost ops = seq![w@, h@];
            assert(a == all_numeric(ops)) by {
                assert(ops[0] == w@ && ops[1] == h@);
            }
            a
        },
        Command::Move((x, y)) => {
            let a = is_numeric_exec(x) && is_numeric_exec(y);
            let ghost ops = seq![x@, y@];
            assert(a == all_numeric(ops)) by {
                assert(ops[0] == x@ && ops[1] == y@);
            }
            a
        },
        Command::Color((r, g, b)) => {
            let a = is_numeric_exec(r) && is_numeric_exec(g) && is_numeric_exec(b);
            let ghost ops = seq![r@, g@, b@];
            assert(a == all_numeric(ops)) by {
                assert(ops[0] == r@ && ops[1] == g@ && ops[2] == b@);
            }
            a
        },
        _ => {
            assert(operands(c@) =~= Seq::<OperationV>::empty());
            true
        },
    }
}

/// The comparisons in `p`, left to right.
fn comparisons_exec(p: &Operation) -> (r: Vec<Operation>)
    ensures
        r@.map_values(|o: Operation| o@) == comparisons(p@),
    decreases p,
{
    proof {
        reveal_with_fuel(view_operation, 2);
    }
    match p {
        Operation::Condition((l, op, r)) => if *op == Builtin::And || *op == Builtin::Or {
            let mut a = comparisons_exec(l);
            let mut b = comparisons_exec(r);
            let ghost va = a@;
            let ghost vb = b@;
            a.append(&mut b);
            assert(a@.map_values(|o: Operation| o@) =~= va.map_values(|o: Operation| o@)
                + vb.map_values(|o: Operation| o@));
            a
        } else if is_comparator_exec(*op) {
            let mut a: Vec<Operation> = Vec::new();
            a.push(p.clone());
            assert(a@.map_values(|o: Operation| o@) =~= seq![p@]);
            a
        } else {
            let a: Vec<Operation> = Vec::new();
            assert(a@.map_values(|o: Operation| o@) =~= Seq::<OperationV>::empty());
            a
        },
        _ => {
            let a: Vec<Operation> = Vec::new();
            assert(a@.map_values(|o: Operation| o@) =~= Seq::<OperationV>::empty());
            a
        },
    }
}

/// The truth of `p` read from `answers[start..]`, and where its answers end.
fn decide_from(p: &Operation, answers: &Vec<bool>, start: usize) -> (r: (bool, usize))
    requires
        start + comparisons(p@).len() <= answers.len(),
    ensures
        r.1 == start + comparisons(p@).len(),
        r.0 == truth(p@, answers@.subrange(start as int, r.1 as int)),
    decreases p,
{
    proof {
        reveal_with_fuel(view_operation, 2);
    }
    match p {
        Operation::Identity(Factor::Boolean(b)) => (*b, start),
        Operation::Condition((l, op, r)) => if *op == Builtin::And || *op == Builtin::Or {
            let (a, mid) = decide_from(l, answers, start);
            let (b, end) = decide_from(r, answers, mid);
            let ghost sub = answers@.subrange(start as int, end as int);
            let ghost n = comparisons(l@).len() as int;
            assert(sub.subrange(0, n) =~= answers@.subrange(start as int, mid as int));
            assert(sub.subrange(n, sub.len() as int) =~= answers@.subrange(mid as int, end as int));
            if *op == Builtin::And {
                (a && b, end)
            } else {
                (a || b, end)
            }
        } else if is_comparator_exec(*op) {
            (answers[start], start + 1)
        } else {
            (false, start)
        },
        _ => (false, start),
    }
}

/// The truth of the condition `p` when its comparisons, left to right, hold
/// as `answers` says: literals as written, `and` and `or` over both sides.
pub fn decide(p: &Operation, answers: &Vec<bool>) -> (r: bool)
    requires
        answers@.len() == comparisons(p@).len(),
    ensures
        r == truth(p@, answers@),
{
    let (r, _) = decide_from(p, answers, 0);
    assert(answers@.subrange(0, answers@.len() as int) =~= answers@);
    r
}

/// Runs the command `c`: what the host is asked to do, the work to add, and
/// whether the pass fails; declared names are added to `bound`.
fn command_effect_exec(c: &Command, bound: &mut Vec<String>) -> (r: (Step, Option<Work>, bool))
    ensures
        ({
            let (step, pushed, b, failed) = command_effect(
                c@,
                old(bound)@.map_values(|s: String| s@),
            );
            &&& r.0@ == step
            &&& r.2 == failed
            &&& final(bound)@.map_values(|s: String| s@) == b
            &&& match r.1 {
                Some(w) => pushed == Some(w@),
                None => pushed is None,
            }
        }),
{
    match c {
        Command::Declaration((name, op)) => match first_unbound_exec(op, bound) {
            Some(x) => (Step::UnboundVariable(x), None, true),
            None => {
                if !is_numeric_exec(op) {
                    return (Step::TypeMismatch, None, true);
                }
                if !is_bound(bound, name) {
                    let ghost before = bound@;
                    bound.push(name.clone());
                    assert(bound@.map_values(|s: String| s@) =~= before.map_values(
                        |s: String| s@,
                    ).push(name@));
                }
                (Step::Declare(name.clone(), op.clone()), None, false)
            },
        },
        Command::For((n, body)) => if *n > 0 {
            (Step::Skip, Some(Work::Repeat(copy_commands(body), *n)), false)
        } else {
            (Step::Skip, None, false)
        },
        Command::ConditionalBlock(bs) => (Step::Skip, Some(Work::Select(copy_branches(bs), 0)), false),
        _ => match leaf_unbound(c, bound) {
            Some(x) => (Step::UnboundVariable(x), None, true),
            None => if leaf_numeric(c) {
                (Step::Emit(c.clone()), None, false)
            } else {
                (Step::TypeMismatch, None, true)
            },
        },
    }
}

impl Evaluator {
    /// A pass over `program` that has not taken a step yet.
    pub fn new(program: &Vec<Command>) -> (r: Evaluator)
        ensures
            r@ == initial(view_commands(program@)),
    {
        let mut stack: Vec<Work> = Vec::new();
        stack.push(Work::Run(copy_commands(program), 0));
        let r = Evaluator {
            stack,
            bound: Vec::new(),
            answers: Vec::new(),
            waiting: false,
            failed: false,
        };
        assert(r@.stack =~= seq![WorkV::Run(view_commands(program@), 0)]);
        assert(r@.answers =~= Seq::<bool>::empty());
        assert(r@.bound =~= Seq::<Seq<char>>::empty());
        r
    }

    /// Takes one step.
    pub fn next(&mut self) -> (r: Step)
        ensures
            (r@, final(self)@) == spec_next(old(self)@),
    {
        if self.failed || self.stack.len() == 0 {
            return Step::Done;
        }
        let ghost old_stack = self.stack@;
        let top = self.stack.pop().unwrap();
        let ghost rest = self.stack@.map_values(|w: Work| w@);
        proof {
            assert(rest =~= old_stack.map_values(|w: Work| w@).drop_last());
        }
        assert(old(self)@.stack.last() == top@);
        match top {
            Work::Run(cs, i) => {
                proof {
                    lemma_view_commands(cs@);
                }
                if i >= cs.len() {
                    return Step::Skip;
                }
                let ghost cs_view = view_commands(cs@);
                let (step, pushed, failed) = command_effect_exec(&cs[i], &mut self.bound);
                self.failed = failed;
                self.stack.push(Work::Run(cs, i + 1));
                let ghost run_next = rest.push(WorkV::Run(cs_view, i + 1));
                assert(self.stack@.map_values(|w: Work| w@) =~= run_next);
                match pushed {
                    Some(w) => {
                        self.stack.push(w);
                        assert(self.stack@.map_values(|w: Work| w@) =~= run_next.push(w@));
                    },
                    None => {},
                }
                step
            },
            Work::Repeat(body, n) => {
                if n <= 0 {
                    return Step::Skip;
                }
                let ghost body_view = view_commands(body@);
                let again = copy_commands(&body);
                self.stack.push(Work::Repeat(body, n - 1));
                self.stack.push(Work::Run(again, 0));
                assert(self.stack@.map_values(|w: Work| w@) =~= rest.push(
                    WorkV::Repeat(body_view, n - 1),
                ).push(WorkV::Run(body_view, 0)));
                Step::Skip
            },
            Work::Select(bs, i) => {
                proof {
                    lemma_view_branches(bs@);
                }
                if i >= bs.len() {
                    return Step::Skip;
                }
                let ghost bs_view = view_branches(bs@);
                if bs[i].0 == ConditionalBuiltin::ElseB {
                    let body = copy_commands(&bs[i].2);
                    self.stack.push(Work::Run(body, 0));
                    assert(self.stack@.map_values(|w: Work| w@) =~= rest.push(
                        WorkV::Run(bs_view[i as int].body, 0),
                    ));
                    return Step::Skip;
                }
                let ghost p = bs_view[i as int].pred;
                match first_unbound_exec(&bs[i].1, &self.bound) {
                    Some(x) => {
                        self.stack.push(Work::Select(bs, i));
                        assert(self.stack@.map_values(|w: Work| w@) =~= old_stack.map_values(
                            |w: Work| w@,
                        ));
                        self.failed = true;
                        return Step::UnboundVariable(x);
                    },
                    None => {},
                }
                if !is_condition_exec(&bs[i].1) {
                    self.stack.push(Work::Select(bs, i));
                    assert(self.stack@.map_values(|w: Work| w@) =~= old_stack.map_values(
                        |w: Work| w@,
                    ));
                    self.failed = true;
                    return Step::TypeMismatch;
                }
                let cs = comparisons_exec(&bs[i].1);
                proof {
                    assert(cs@.map_values(|o: Operation| o@).len() == cs@.len());
                }
                if self.answers.len() < cs.len() {
                    let q = cs[self.answers.len()].clone();
                    assert(q@ == cs@.map_values(|o: Operation| o@)[self.answers.len() as int]);
                    self.stack.push(Work::Select(bs, i));
                    assert(self.stack@.map_values(|w: Work| w@) =~= old_stack.map_values(
                        |w: Work| w@,
                    ));
                    self.waiting = true;
                    return Step::Test(q);
                }
                let (holds, _) = decide_from(&bs[i].1, &self.answers, 0);
                self.answers = Vec::new();
                assert(self.answers@ =~= Seq::<bool>::empty());
                if holds {
                    let body = copy_commands(&bs[i].2);
                    self.stack.push(Work::Run(body, 0));
                    assert(self.stack@.map_values(|w: Work| w@) =~= rest.push(
                        WorkV::Run(bs_view[i as int].body, 0),
                    ));
                } else {
                    self.stack.push(Work::Select(bs, i + 1));
                    assert(self.stack@.map_values(|w: Work| w@) =~= rest.push(
                        WorkV::Select(bs_view, i + 1),
                    ));
                }
                Step::Skip
            },
        }
    }

    /// Reports the truth of the comparison of the last `Test`.
    pub fn resume(&mut self, truth: bool)
        ensures
            final(self)@ == spec_resume(old(self)@, truth),
    {
        if !self.waiting || self.failed {
            return;
        }
        self.waiting = false;
        self.answers.push(truth);
    }
}

} // verus!
