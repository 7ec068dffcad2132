//! Whole passes of the evaluator, and what holds of them.
use vstd::prelude::*;
use crate::ast::{BranchV, CommandV, ConditionalBuiltin, OperationV};
use crate::eval::{
    all_numeric, comparisons, is_condition, truth,
    first_unbound, first_unbound_in, operands, spec_next, spec_resume, EvaluatorV,
    StepV, WorkV,
};

verus! {

broadcast use vstd::seq::group_seq_axioms;

/// The steps of at most `fuel` calls of `next` from `m`, where the host
/// answers the `Test`s in turn with `truths`; it ends at `Done`, or at a
/// `Test` that `truths` has no answer left for.
pub open spec fn run(m: EvaluatorV, truths: Seq<bool>, fuel: nat) -> Seq<StepV>
    decreases fuel,
{
    if fuel == 0 {
        seq![]
    } else {
        let (step, m2) = spec_next(m);
        match step {
            StepV::Done => seq![step],
            StepV::Test(_) => if truths.len() > 0 {
                seq![step] + run(spec_resume(m2, truths[0]), truths.drop_first(), (fuel - 1) as nat)
            } else {
                seq![step]
            },
            _ => seq![step] + run(m2, truths, (fuel - 1) as nat),
        }
    }
}

/// The leaf commands among `steps`, in order.
pub open spec fn leaves(steps: Seq<StepV>) -> Seq<CommandV>
    decreases steps.len(),
{
    if steps.len() == 0 {
        seq![]
    } else {
        let first = match steps[0] {
            StepV::Emit(c) => seq![c],
            _ => seq![],
        };
        first + leaves(steps.drop_first())
    }
}

pub proof fn lemma_leaves_concat(a: Seq<StepV>, b: Seq<StepV>)
    ensures
        leaves(a + b) == leaves(a) + leaves(b),
    decreases a.len(),
{
    if a.len() == 0 {
        assert(a + b =~= b);
        assert(leaves(a) + leaves(b) =~= leaves(b));
    } else {
        lemma_leaves_concat(a.drop_first(), b);
        assert((a + b).drop_first() =~= a.drop_first() + b);
        let first = match a[0] {
            StepV::Emit(c) => seq![c],
            _ => seq![],
        };
        assert(first + (leaves(a.drop_first()) + leaves(b)) =~= (first + leaves(a.drop_first()))
            + leaves(b));
    }
}

/// A loop whose count is not positive contributes nothing: the pass moves
/// past it and ends.
pub proof fn law_loop_without_positive_count(
    n: int,
    body: Seq<CommandV>,
    bound: Seq<Seq<char>>,
)
    requires
        n <= 0,
    ensures
        run(
            EvaluatorV {
                stack: seq![WorkV::Run(seq![CommandV::For(n, body)], 0)],
                bound,
                answers: seq![],
                waiting: false,
                failed: false,
            },
            seq![],
            3,
        ) == seq![StepV::Skip, StepV::Skip, StepV::Done],
{
    reveal_with_fuel(run, 4);
    let m = EvaluatorV {
        stack: seq![WorkV::Run(seq![CommandV::For(n, body)], 0)],
        bound,
        answers: seq![],
        waiting: false,
        failed: false,
    };
    let m1 = spec_next(m).1;
    assert(m1.stack =~= seq![WorkV::Run(seq![CommandV::For(n, body)], 1)]);
    let m2 = spec_next(m1).1;
    assert(m2.stack =~= Seq::<WorkV>::empty());
    assert(run(m2, seq![], 1) == seq![StepV::Done]);
    assert(run(m1, seq![], 2) =~= seq![StepV::Skip, StepV::Done]);
    assert(run(m, seq![], 3) =~= seq![StepV::Skip, StepV::Skip, StepV::Done]);
}

/// A loop body of one leaf command whose variables are all bound and whose
/// operands are all numbers, still to
/// run `n` times, hands that command on exactly `n` times.
pub proof fn law_loop_unrolls(c: CommandV, n: int, bound: Seq<Seq<char>>)
    requires
        n >= 0,
        c is Instantiation || c is Move || c is Color || c is ResetMove,
        first_unbound_in(operands(c), bound) is None,
        all_numeric(operands(c)),
    ensures
        leaves(
            run(
                EvaluatorV {
                    stack: seq![WorkV::Repeat(seq![c], n)],
                    bound,
                    answers: seq![],
                    waiting: false,
                    failed: false,
                },
                seq![],
                (3 * n + 1) as nat,
            ),
        ) == Seq::new(n as nat, |i: int| c),
    decreases n,
{
    let m = EvaluatorV {
        stack: seq![WorkV::Repeat(seq![c], n)],
        bound,
        answers: seq![],
        waiting: false,
        failed: false,
    };
    if n == 0 {
        reveal_with_fuel(run, 2);
        let m1 = spec_next(m).1;
        assert(m1.stack =~= Seq::<WorkV>::empty());
        assert(run(m, seq![], 1) =~= seq![StepV::Skip]);
        reveal_with_fuel(leaves, 2);
        assert(leaves(seq![StepV::Skip]) =~= Seq::<CommandV>::empty());
        assert(Seq::new(0, |i: int| c) =~= Seq::<CommandV>::empty());
    } else {
        let next = EvaluatorV {
            stack: seq![WorkV::Repeat(seq![c], n - 1)],
            bound,
            answers: seq![],
            waiting: false,
            failed: false,
        };
        law_loop_unrolls(c, n - 1, bound);
        let m1 = spec_next(m).1;
        assert(m1.stack =~= seq![WorkV::Repeat(seq![c], n - 1), WorkV::Run(seq![c], 0)]);
        let m2 = spec_next(m1).1;
        assert(spec_next(m1).0 == StepV::Emit(c));
        assert(m2.stack =~= seq![WorkV::Repeat(seq![c], n - 1), WorkV::Run(seq![c], 1)]);
        let m3 = spec_next(m2).1;
        assert(m3.stack =~= seq![WorkV::Repeat(seq![c], n - 1)]);
        assert(m3 == next);
        let tail = run(next, seq![], (3 * (n - 1) + 1) as nat);
        assert(run(m2, seq![], (3 * n - 1) as nat) == seq![StepV::Skip] + tail);
        assert(run(m1, seq![], (3 * n) as nat) == seq![StepV::Emit(c)] + (seq![StepV::Skip]
            + tail));
        assert(run(m, seq![], (3 * n + 1) as nat) == seq![StepV::Skip] + (seq![StepV::Emit(c)]
            + (seq![StepV::Skip] + tail)));
        let head = seq![StepV::Skip, StepV::Emit(c), StepV::Skip];
        assert(seq![StepV::Skip] + (seq![StepV::Emit(c)] + (seq![StepV::Skip] + tail)) =~= head
            + tail);
        lemma_leaves_concat(head, tail);
        reveal_with_fuel(leaves, 4);
        assert(head.drop_first() =~= seq![StepV::Emit(c), StepV::Skip]);
        assert(head.drop_first().drop_first() =~= seq![StepV::Skip]);
        assert(head.drop_first().drop_first().drop_first() =~= Seq::<StepV>::empty());
        assert(leaves(head) =~= seq![c]);
        assert(seq![c] + Seq::new((n - 1) as nat, |i: int| c) =~= Seq::new(n as nat, |i: int| c));
    }
}

/// The machine deciding the predicate of branch `i` of `bs`, with the truths
/// `answers` reported so far for its comparisons.
pub open spec fn deciding(
    bs: Seq<BranchV>,
    i: int,
    bound: Seq<Seq<char>>,
    answers: Seq<bool>,
) -> EvaluatorV {
    EvaluatorV { stack: seq![WorkV::Select(bs, i)], bound, answers, waiting: false, failed: false }
}

/// The machine about to run `body`.
pub open spec fn running(body: Seq<CommandV>, bound: Seq<Seq<char>>) -> EvaluatorV {
    EvaluatorV { stack: seq![WorkV::Run(body, 0)], bound, answers: seq![], waiting: false, failed: false }
}

/// A `Test` step for each of `ops`, in order.
pub open spec fn tests(ops: Seq<OperationV>) -> Seq<StepV> {
    ops.map_values(|o: OperationV| StepV::Test(o))
}

/// The blocks of truths one after the other.
pub open spec fn flat(blocks: Seq<Seq<bool>>) -> Seq<bool>
    decreases blocks.len(),
{
    if blocks.len() == 0 {
        seq![]
    } else {
        blocks[0] + flat(blocks.drop_first())
    }
}

/// The steps of deciding the predicates of branches `i` to `k`: the tests of
/// each one's comparisons, then a step that settles it.
pub open spec fn asked(bs: Seq<BranchV>, i: int, k: int) -> Seq<StepV>
    decreases k + 1 - i,
{
    if i > k {
        seq![]
    } else {
        tests(comparisons(bs[i].pred)) + seq![StepV::Skip] + asked(bs, i + 1, k)
    }
}

/// The number of those steps.
pub open spec fn cost(bs: Seq<BranchV>, i: int, k: int) -> nat
    decreases k + 1 - i,
{
    if i > k {
        0
    } else {
        comparisons(bs[i].pred).len() + 1 + cost(bs, i + 1, k)
    }
}

proof fn lemma_decides_predicate(
    bs: Seq<BranchV>,
    i: int,
    bound: Seq<Seq<char>>,
    a: Seq<bool>,
    b: Seq<bool>,
    rest: Seq<bool>,
    f: nat,
)
    requires
        0 <= i < bs.len(),
        bs[i].kind != ConditionalBuiltin::ElseB,
        first_unbound(bs[i].pred, bound) is None,
        is_condition(bs[i].pred),
        a.len() + b.len() == comparisons(bs[i].pred).len(),
    ensures
        run(deciding(bs, i, bound, a), b + rest, (b.len() + 1 + f) as nat) == tests(
            comparisons(bs[i].pred).subrange(a.len() as int, comparisons(bs[i].pred).len() as int),
        ) + seq![StepV::Skip] + run(
            if truth(bs[i].pred, a + b) {
                running(bs[i].body, bound)
            } else {
                deciding(bs, i + 1, bound, seq![])
            },
            rest,
            f,
        ),
    decreases b.len(),
{
    let p = bs[i].pred;
    let cs = comparisons(p);
    let m = deciding(bs, i, bound, a);
    let (step, m1) = spec_next(m);
    if b.len() == 0 {
        assert(a.subrange(0, cs.len() as int) =~= a + b);
        assert(b + rest =~= rest);
        let next = if truth(p, a + b) {
            running(bs[i].body, bound)
        } else {
            deciding(bs, i + 1, bound, seq![])
        };
        assert(m1.stack =~= next.stack);
        assert(m1 == next);
        assert(step == StepV::Skip);
        assert(tests(cs.subrange(a.len() as int, cs.len() as int)) =~= Seq::<StepV>::empty());
        assert(run(m, b + rest, (1 + f) as nat) == seq![StepV::Skip] + run(next, rest, f));
        assert(Seq::<StepV>::empty() + seq![StepV::Skip] =~= seq![StepV::Skip]);
    } else {
        assert(step == StepV::Test(cs[a.len() as int]));
        assert((b + rest)[0] == b[0]);
        let m2 = spec_resume(m1, b[0]);
        assert(m2 == deciding(bs, i, bound, a.push(b[0])));
        assert((b + rest).drop_first() =~= b.drop_first() + rest);
        lemma_decides_predicate(bs, i, bound, a.push(b[0]), b.drop_first(), rest, f);
        assert(a.push(b[0]) + b.drop_first() =~= a + b);
        assert(tests(cs.subrange(a.len() as int, cs.len() as int)) =~= seq![
            StepV::Test(cs[a.len() as int]),
        ] + tests(cs.subrange(a.len() as int + 1, cs.len() as int)));
        let tail = run(
            if truth(p, a + b) {
                running(bs[i].body, bound)
            } else {
                deciding(bs, i + 1, bound, seq![])
            },
            rest,
            f,
        );
        assert(run(m, b + rest, (b.len() + 1 + f) as nat) == seq![step] + run(
            m2,
            (b + rest).drop_first(),
            (b.len() + f) as nat,
        ));
        assert(seq![step] + (tests(cs.subrange(a.len() as int + 1, cs.len() as int)) + seq![StepV::Skip]
            + tail) =~= tests(cs.subrange(a.len() as int, cs.len() as int)) + seq![StepV::Skip]
            + tail);
    }
}

/// A conditional block takes its first branch whose predicate holds. When the
/// host answers the comparisons of the predicates of branches `i` to `k` with
/// the blocks of truths `blocks`, under which those predicates are false but
/// the last is true, the pass asks for exactly those comparisons, in order,
/// settles each predicate itself, and then runs the body of branch `k`; no
/// later predicate is looked at.
pub proof fn law_first_true_branch(
    bs: Seq<BranchV>,
    i: int,
    k: int,
    bound: Seq<Seq<char>>,
    blocks: Seq<Seq<bool>>,
    truths: Seq<bool>,
    fuel: nat,
)
    requires
        0 <= i <= k < bs.len(),
        blocks.len() == k - i + 1,
        forall|j: int|
            i <= j <= k ==> {
                &&& (#[trigger] bs[j]).kind != ConditionalBuiltin::ElseB
                &&& first_unbound(bs[j].pred, bound) is None
                &&& is_condition(bs[j].pred)
                &&& blocks[j - i].len() == comparisons(bs[j].pred).len()
                &&& truth(bs[j].pred, blocks[j - i]) == (j == k)
            },
    ensures
        run(deciding(bs, i, bound, seq![]), flat(blocks) + truths, cost(bs, i, k) + fuel) == asked(
            bs,
            i,
            k,
        ) + run(running(bs[k].body, bound), truths, fuel),
    decreases k - i,
{
    let rest_blocks = blocks.drop_first();
    let later = flat(rest_blocks) + truths;
    assert(bs[i].kind != ConditionalBuiltin::ElseB);
    assert(flat(blocks) + truths =~= blocks[0] + later);
    assert(seq![] + blocks[0] =~= blocks[0]);
    let cs = comparisons(bs[i].pred);
    assert(cs.subrange(0, cs.len() as int) =~= cs);
    if i == k {
        assert(rest_blocks =~= Seq::<Seq<bool>>::empty());
        assert(later =~= truths);
        lemma_decides_predicate(bs, i, bound, seq![], blocks[0], later, fuel);
        assert(asked(bs, i + 1, k) =~= Seq::<StepV>::empty());
        assert(asked(bs, i, k) =~= tests(cs) + seq![StepV::Skip]);
    } else {
        let f = cost(bs, i + 1, k) + fuel;
        lemma_decides_predicate(bs, i, bound, seq![], blocks[0], later, f);
        assert forall|j: int| i + 1 <= j <= k implies {
            &&& (#[trigger] bs[j]).kind != ConditionalBuiltin::ElseB
            &&& first_unbound(bs[j].pred, bound) is None
            &&& is_condition(bs[j].pred)
            &&& rest_blocks[j - (i + 1)].len() == comparisons(bs[j].pred).len()
            &&& truth(bs[j].pred, rest_blocks[j - (i + 1)]) == (j == k)
        } by {
            assert(rest_blocks[j - (i + 1)] == blocks[j - i]);
        }
        law_first_true_branch(bs, i + 1, k, bound, rest_blocks, truths, fuel);
        assert(tests(cs) + seq![StepV::Skip] + (asked(bs, i + 1, k) + run(
            running(bs[k].body, bound),
            truths,
            fuel,
        )) =~= asked(bs, i, k) + run(running(bs[k].body, bound), truths, fuel));
    }
}

/// An unbound variable ends the whole pass: once the machine has failed it
/// hands on nothing more, whatever the host answers.
pub proof fn law_failure_is_final(m: EvaluatorV, truths: Seq<bool>, fuel: nat)
    requires
        m.failed,
        fuel > 0,
    ensures
        run(m, truths, fuel) == seq![StepV::Done],
{
    reveal_with_fuel(run, 1);
}

} // verus!
