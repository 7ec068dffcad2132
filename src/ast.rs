//! The syntax tree of a scene program, and its mathematical model.
//!
//! Every executable type has a ghost counterpart (suffix `V`) in which strings
//! are `Seq<char>` and vectors are `Seq`s; contracts speak of those.
use vstd::prelude::*;

verus! {

broadcast use vstd::std_specs::vec::group_vec_axioms, vstd::seq::group_seq_axioms;

/// Arithmetic operators, comparison operators and the two connectives.
#[derive(Debug, PartialEq, Eq, Clone, Copy, Structural)]
pub enum Builtin {
    Plus,
    Minus,
    Mult,
    Div,
    Greater,
    Lesser,
    GreaterOrEqual,
    LesserOrEqual,
    Equal,
    And,
    Or,
}

/// The tag of one branch of a conditional block.
#[derive(Debug, PartialEq, Eq, Clone, Copy, Structural)]
pub enum ConditionalBuiltin {
    IfB,
    ElseIfB,
    ElseB,
}

/// A numeric literal, kept exactly as written: a sign, the digits before the
/// point without leading zeros, and the digits after it without trailing
/// zeros. `2`, `02` and `2.0` are the same literal.
#[derive(Debug, PartialEq)]
pub struct Decimal {
    pub negative: bool,
    pub whole: Vec<char>,
    pub fraction: Vec<char>,
}

pub ghost struct DecimalV {
    pub negative: bool,
    pub whole: Seq<char>,
    pub fraction: Seq<char>,
}

impl View for Decimal {
    type V = DecimalV;

    open spec fn view(&self) -> DecimalV {
        DecimalV { negative: self.negative, whole: self.whole@, fraction: self.fraction@ }
    }
}

#[derive(Debug, PartialEq)]
pub enum Factor {
    Variable(String),
    Number(Decimal),
    Boolean(bool),
    Sin(Box<Operation>),
    Cos(Box<Operation>),
    Time,
}

#[derive(Debug, PartialEq)]
pub enum Operation {
    Identity(Factor),
    Calculation((Box<Operation>, Builtin, Box<Operation>)),
    Condition((Box<Operation>, Builtin, Box<Operation>)),
}

/// A shape request: a circle of one size, a square of a width and a height.
#[derive(Debug, PartialEq)]
pub enum Node {
    Square((Operation, Operation)),
    Circle(Operation),
}

#[derive(Debug, PartialEq)]
pub enum Command {
    Declaration((String, Operation)),
    Instantiation(Node),
    ConditionalBlock(Vec<(ConditionalBuiltin, Operation, Vec<Command>)>),
    For((i32, Vec<Command>)),
    Move((Operation, Operation)),
    ResetMove,
    Color((Operation, Operation, Operation)),
}

pub ghost enum FactorV {
    Variable(Seq<char>),
    Number(DecimalV),
    Boolean(bool),
    Sin(Box<OperationV>),
    Cos(Box<OperationV>),
    Time,
}

pub ghost enum OperationV {
    Identity(FactorV),
    Calculation(Box<OperationV>, Builtin, Box<OperationV>),
    Condition(Box<OperationV>, Builtin, Box<OperationV>),
}

pub ghost enum NodeV {
    Square(OperationV, OperationV),
    Circle(OperationV),
}

pub ghost struct BranchV {
    pub kind: ConditionalBuiltin,
    pub pred: OperationV,
    pub body: Seq<CommandV>,
}

pub ghost enum CommandV {
    Declaration(Seq<char>, OperationV),
    Instantiation(NodeV),
    ConditionalBlock(Seq<BranchV>),
    For(int, Seq<CommandV>),
    Move(OperationV, OperationV),
    ResetMove,
    Color(OperationV, OperationV, OperationV),
}

pub open spec fn view_factor(f: Factor) -> FactorV
    decreases f,
{
    match f {
        Factor::Variable(name) => FactorV::Variable(name@),
        Factor::Number(d) => FactorV::Number(d@),
        Factor::Boolean(b) => FactorV::Boolean(b),
        Factor::Sin(op) => FactorV::Sin(Box::new(view_operation(*op))),
        Factor::Cos(op) => FactorV::Cos(Box::new(view_operation(*op))),
        Factor::Time => FactorV::Time,
    }
}

pub open spec fn view_operation(o: Operation) -> OperationV
    decreases o,
{
    match o {
        Operation::Identity(f) => OperationV::Identity(view_factor(f)),
        Operation::Calculation((l, op, r)) => OperationV::Calculation(
            Box::new(view_operation(*l)),
            op,
            Box::new(view_operation(*r)),
        ),
        Operation::Condition((l, op, r)) => OperationV::Condition(
            Box::new(view_operation(*l)),
            op,
            Box::new(view_operation(*r)),
        ),
    }
}

impl View for Factor {
    type V = FactorV;

    open spec fn view(&self) -> FactorV {
        view_factor(*self)
    }
}

impl View for Operation {
    type V = OperationV;

    open spec fn view(&self) -> OperationV {
        view_operation(*self)
    }
}

impl View for Node {
    type V = NodeV;

    open spec fn view(&self) -> NodeV {
        match *self {
            Node::Square((w, h)) => NodeV::Square(w@, h@),
            Node::Circle(r) => NodeV::Circle(r@),
        }
    }
}

pub open spec fn view_command(c: Command) -> CommandV
    decreases c,
{
    match c {
        Command::Declaration((name, op)) => CommandV::Declaration(name@, op@),
        Command::Instantiation(node) => CommandV::Instantiation(node@),
        Command::ConditionalBlock(branches) => CommandV::ConditionalBlock(
            view_branches(branches@),
        ),
        Command::For((n, body)) => CommandV::For(n as int, view_commands(body@)),
        Command::Move((x, y)) => CommandV::Move(x@, y@),
        Command::ResetMove => CommandV::ResetMove,
        Command::Color((r, g, b)) => CommandV::Color(r@, g@, b@),
    }
}

pub open spec fn view_commands(cs: Seq<Command>) -> Seq<CommandV>
    decreases cs,
{
    if cs.len() == 0 {
        seq![]
    } else {
        view_commands(cs.subrange(0, cs.len() - 1)).push(view_command(cs[cs.len() - 1]))
    }
}

pub open spec fn view_branches(bs: Seq<(ConditionalBuiltin, Operation, Vec<Command>)>) -> Seq<
    BranchV,
>
    decreases bs,
{
    if bs.len() == 0 {
        seq![]
    } else {
        let b = bs[bs.len() - 1];
        view_branches(bs.subrange(0, bs.len() - 1)).push(
            BranchV { kind: b.0, pred: b.1@, body: view_commands(b.2@) },
        )
    }
}

impl View for Command {
    type V = CommandV;

    open spec fn view(&self) -> CommandV {
        view_command(*self)
    }
}

fn copy_chars(v: &Vec<char>) -> (r: Vec<char>)
    ensures
        r@ == v@,
{
    let r = v.clone();
    assert(r@ =~= v@);
    r
}

impl Decimal {
    /// The literal `1`, the default size of a shape.
    pub fn one() -> (r: Decimal)
        ensures
            r@ == (DecimalV { negative: false, whole: seq!['1'], fraction: seq![] }),
    {
        let r = Decimal { negative: false, whole: vec!['1'], fraction: Vec::new() };
        assert(r.whole@ =~= seq!['1']);
        assert(r.fraction@ =~= Seq::<char>::empty());
        r
    }
}

impl Clone for Decimal {
    fn clone(&self) -> (r: Self)
        ensures
            r@ == self@,
    {
        Decimal {
            negative: self.negative,
            whole: copy_chars(&self.whole),
            fraction: copy_chars(&self.fraction),
        }
    }
}

fn copy_string(s: &String) -> (r: String)
    ensures
        r@ == s@,
{
    s.clone()
}

fn copy_factor(f: &Factor) -> (r: Factor)
    ensures
        r@ == f@,
    decreases f,
{
    proof {
        reveal_with_fuel(view_factor, 2);
    }
    match f {
        Factor::Variable(name) => Factor::Variable(copy_string(name)),
        Factor::Number(d) => Factor::Number(d.clone()),
        Factor::Boolean(b) => Factor::Boolean(*b),
        Factor::Sin(op) => Factor::Sin(Box::new(copy_operation(op))),
        Factor::Cos(op) => Factor::Cos(Box::new(copy_operation(op))),
        Factor::Time => Factor::Time,
    }
}

fn copy_operation(o: &Operation) -> (r: Operation)
    ensures
        r@ == o@,
    decreases o,
{
    proof {
        reveal_with_fuel(view_operation, 2);
    }
    match o {
        Operation::Identity(f) => Operation::Identity(copy_factor(f)),
        Operation::Calculation((l, op, r)) => Operation::Calculation(
            (Box::new(copy_operation(l)), *op, Box::new(copy_operation(r))),
        ),
        Operation::Condition((l, op, r)) => Operation::Condition(
            (Box::new(copy_operation(l)), *op, Box::new(copy_operation(r))),
        ),
    }
}

impl Clone for Factor {
    fn clone(&self) -> (r: Self)
        ensures
            r@ == self@,
    {
        copy_factor(self)
    }
}

impl Clone for Operation {
    fn clone(&self) -> (r: Self)
        ensures
            r@ == self@,
    {
        copy_operation(self)
    }
}

impl Clone for Node {
    fn clone(&self) -> (r: Self)
        ensures
            r@ == self@,
    {
        match self {
            Node::Square((w, h)) => Node::Square((copy_operation(w), copy_operation(h))),
            Node::Circle(r) => Node::Circle(copy_operation(r)),
        }
    }
}

/// The view of a command list has one entry per command, in order.
pub proof fn lemma_view_commands(cs: Seq<Command>)
    ensures
        view_commands(cs).len() == cs.len(),
        forall|i: int| 0 <= i < cs.len() ==> #[trigger] view_commands(cs)[i] == cs[i]@,
    decreases cs.len(),
{
    if cs.len() > 0 {
        lemma_view_commands(cs.subrange(0, cs.len() - 1));
    }
}

/// The view of a branch list has one entry per branch, in order.
pub proof fn lemma_view_branches(bs: Seq<(ConditionalBuiltin, Operation, Vec<Command>)>)
    ensures
        view_branches(bs).len() == bs.len(),
        forall|i: int|
            0 <= i < bs.len() ==> #[trigger] view_branches(bs)[i] == (BranchV {
                kind: bs[i].0,
                pred: bs[i].1@,
                body: view_commands(bs[i].2@),
            }),
    decreases bs.len(),
{
    if bs.len() > 0 {
        lemma_view_branches(bs.subrange(0, bs.len() - 1));
    }
}

pub proof fn lemma_view_commands_push(cs: Seq<Command>, c: Command)
    ensures
        view_commands(cs.push(c)) == view_commands(cs).push(c@),
{
    assert(cs.push(c).subrange(0, cs.len() as int) =~= cs);
}

pub proof fn lemma_view_branches_push(
    bs: Seq<(ConditionalBuiltin, Operation, Vec<Command>)>,
    b: (ConditionalBuiltin, Operation, Vec<Command>),
)
    ensures
        view_branches(bs.push(b)) == view_branches(bs).push(
            BranchV { kind: b.0, pred: b.1@, body: view_commands(b.2@) },
        ),
{
    assert(bs.push(b).subrange(0, bs.len() as int) =~= bs);
}

pub proof fn lemma_view_branches_concat(
    a: Seq<(ConditionalBuiltin, Operation, Vec<Command>)>,
    b: Seq<(ConditionalBuiltin, Operation, Vec<Command>)>,
)
    ensures
        view_branches(a + b) == view_branches(a) + view_branches(b),
    decreases b.len(),
{
    if b.len() == 0 {
        assert(a + b =~= a);
        assert(view_branches(a) + view_branches(b) =~= view_branches(a));
    } else {
        let b1 = b.subrange(0, b.len() - 1);
        lemma_view_branches_concat(a, b1);
        assert((a + b).subrange(0, (a + b).len() - 1) =~= a + b1);
        let x = b[b.len() - 1];
        let bx = BranchV { kind: x.0, pred: x.1@, body: view_commands(x.2@) };
        assert(view_branches(a) + view_branches(b1).push(bx) =~= (view_branches(a)
            + view_branches(b1)).push(bx));
    }
}

pub fn copy_commands(cs: &Vec<Command>) -> (r: Vec<Command>)
    ensures
        view_commands(r@) == view_commands(cs@),
    decreases cs, 0int,
{
    let mut r: Vec<Command> = Vec::new();
    let mut i: usize = 0;
    while i < cs.len()
        invariant
            i <= cs.len(),
            view_commands(r@) == view_commands(cs@.subrange(0, i as int)),
        decreases cs.len() - i,
    {
        let c = copy_command(&cs[i]);
        proof {
            lemma_view_commands_push(r@, c);
            lemma_view_commands_push(cs@.subrange(0, i as int), cs@[i as int]);
            assert(cs@.subrange(0, i as int).push(cs@[i as int]) =~= cs@.subrange(0, i + 1));
        }
        r.push(c);
        i = i + 1;
    }
    assert(cs@.subrange(0, cs.len() as int) =~= cs@);
    r
}

pub fn copy_branches(bs: &Vec<(ConditionalBuiltin, Operation, Vec<Command>)>) -> (r: Vec<
    (ConditionalBuiltin, Operation, Vec<Command>),
>)
    ensures
        view_branches(r@) == view_branches(bs@),
    decreases bs, 0int,
{
    let mut r: Vec<(ConditionalBuiltin, Operation, Vec<Command>)> = Vec::new();
    let mut i: usize = 0;
    while i < bs.len()
        invariant
            i <= bs.len(),
            view_branches(r@) == view_branches(bs@.subrange(0, i as int)),
        decreases bs.len() - i,
    {
        let b = (bs[i].0, copy_operation(&bs[i].1), copy_commands(&bs[i].2));
        proof {
            lemma_view_branches_push(r@, b);
            lemma_view_branches_push(bs@.subrange(0, i as int), bs@[i as int]);
            assert(bs@.subrange(0, i as int).push(bs@[i as int]) =~= bs@.subrange(0, i + 1));
        }
        r.push(b);
        i = i + 1;
    }
    assert(bs@.subrange(0, bs.len() as int) =~= bs@);
    r
}

fn copy_command(c: &Command) -> (r: Command)
    ensures
        r@ == c@,
    decreases c, 0int,
{
    match c {
        Command::Declaration((name, op)) => Command::Declaration(
            (copy_string(name), copy_operation(op)),
        ),
        Command::Instantiation(node) => Command::Instantiation(node.clone()),
        Command::ConditionalBlock(bs) => Command::ConditionalBlock(copy_branches(bs)),
        Command::For((n, body)) => Command::For((*n, copy_commands(body))),
        Command::Move((x, y)) => Command::Move((copy_operation(x), copy_operation(y))),
        Command::ResetMove => Command::ResetMove,
        Command::Color((r, g, b)) => Command::Color(
            (copy_operation(r), copy_operation(g), copy_operation(b)),
        ),
    }
}

impl Clone for Command {
    fn clone(&self) -> (r: Self)
        ensures
            r@ == self@,
    {
        copy_command(self)
    }
}

} // verus!
