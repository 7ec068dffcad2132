use livecode::{
    decide, assignment, boolean_expr, circle, command_for, draw_shape, expr, factor, mult, number, parser,
    square, statement, sum, variable, variable_name, Builtin, Command, ConditionalBuiltin,
    Decimal, Evaluator, Factor, Node, Operation, Step,
};
use std::collections::HashMap;

#[derive(Debug, PartialEq)]
enum Leaf {
    Circle(f32),
    Square(f32, f32),
    Move(f32, f32),
    Color(f32, f32, f32),
    Reset,
}

fn literal(d: &Decimal) -> f32 {
    let whole: String = d.whole.iter().collect();
    let fraction: String = d.fraction.iter().collect();
    let sign = if d.negative { "-" } else { "" };
    format!("{}0{}.{}0", sign, whole, fraction).parse().unwrap()
}

fn fold(op: &Operation, env: &HashMap<String, f32>, time: f32) -> f32 {
    match op {
        Operation::Identity(Factor::Number(d)) => literal(d),
        Operation::Identity(Factor::Variable(name)) => env[name],
        Operation::Identity(Factor::Sin(o)) => fold(o, env, time).sin(),
        Operation::Identity(Factor::Cos(o)) => fold(o, env, time).cos(),
        Operation::Identity(Factor::Time) => time,
        Operation::Calculation((l, op, r)) => {
            let (l, r) = (fold(l, env, time), fold(r, env, time));
            match op {
                Builtin::Plus => l + r,
                Builtin::Minus => l - r,
                Builtin::Mult => l * r,
                Builtin::Div => l / r,
                _ => panic!("not an arithmetic operator"),
            }
        }
        _ => panic!("not a number"),
    }
}

fn compare(cmp: &Operation, env: &HashMap<String, f32>, time: f32) -> bool {
    match cmp {
        Operation::Condition((l, op, r)) => {
            let (l, r) = (fold(l, env, time), fold(r, env, time));
            match op {
                Builtin::Greater => l > r,
                Builtin::Lesser => l < r,
                Builtin::GreaterOrEqual => l >= r,
                Builtin::LesserOrEqual => l <= r,
                Builtin::Equal => l == r,
                _ => panic!("not a comparison"),
            }
        }
        _ => panic!("not a comparison"),
    }
}

#[derive(Debug, PartialEq)]
enum Failure {
    Unbound(String),
    Mistyped,
}

fn run(text: &str, time: f32) -> Result<Vec<Leaf>, Failure> {
    let (rest, program) = parser(text).unwrap();
    assert_eq!(rest, "");
    run_program(&program, time)
}

fn run_program(program: &Vec<Command>, time: f32) -> Result<Vec<Leaf>, Failure> {
    let mut env: HashMap<String, f32> = HashMap::new();
    let mut leaves = Vec::new();
    let mut pass = Evaluator::new(program);
    loop {
        match pass.next() {
            Step::Emit(c) => leaves.push(match c {
                Command::Instantiation(Node::Circle(r)) => Leaf::Circle(fold(&r, &env, time)),
                Command::Instantiation(Node::Square((w, h))) => {
                    Leaf::Square(fold(&w, &env, time), fold(&h, &env, time))
                }
                Command::Move((x, y)) => Leaf::Move(fold(&x, &env, time), fold(&y, &env, time)),
                Command::Color((r, g, b)) => Leaf::Color(
                    fold(&r, &env, time),
                    fold(&g, &env, time),
                    fold(&b, &env, time),
                ),
                Command::ResetMove => Leaf::Reset,
                other => panic!("not a leaf: {:?}", other),
            }),
            Step::Declare(name, op) => {
                let v = fold(&op, &env, time);
                env.insert(name, v);
            }
            Step::Test(cmp) => {
                let truth = compare(&cmp, &env, time);
                pass.resume(truth);
            }
            Step::UnboundVariable(name) => return Err(Failure::Unbound(name)),
            Step::TypeMismatch => return Err(Failure::Mistyped),
            Step::Skip => {}
            Step::Done => return Ok(leaves),
        }
    }
}

#[test]
fn multiplication_binds_tighter_than_addition() {
    let (rest, op) = expr("2+3*4").unwrap();
    assert_eq!(rest, "");
    assert_eq!(fold(&op, &HashMap::new(), 0.0), 14.0);
}

#[test]
fn parentheses_group_first() {
    let (rest, op) = expr("(2+3)*4").unwrap();
    assert_eq!(rest, "");
    assert_eq!(fold(&op, &HashMap::new(), 0.0), 20.0);
}

#[test]
fn subtraction_and_division_fold_left() {
    let (_, op) = expr("8-2-1").unwrap();
    assert_eq!(fold(&op, &HashMap::new(), 0.0), 5.0);
    let (_, op) = expr("8/2/2").unwrap();
    assert_eq!(fold(&op, &HashMap::new(), 0.0), 2.0);
}

#[test]
fn a_pass_is_a_function_of_text_and_time() {
    let text = "x: time * 2\nfor 2 { circle x\nmove 1, x }\nif x > 1 square else circle end if";
    assert_eq!(run(text, 0.75), run(text, 0.75));
    assert_eq!(parser(text).unwrap().1, parser(text).unwrap().1);
}

#[test]
fn later_declaration_shadows_earlier() {
    assert_eq!(run("x: 1\nx: 2\nsquare x", 0.0), Ok(vec![Leaf::Square(2.0, 2.0)]));
}

#[test]
fn first_true_branch_is_taken() {
    let leaves = run("if false square\nelse if true circle\nelse square 9\nend if", 0.0);
    assert_eq!(leaves, Ok(vec![Leaf::Circle(1.0)]));
}

#[test]
fn else_branch_when_nothing_holds() {
    let leaves = run("if false square\nelse if false circle\nelse square 9\nend if", 0.0);
    assert_eq!(leaves, Ok(vec![Leaf::Square(9.0, 9.0)]));
}

#[test]
fn no_branch_when_nothing_holds_and_no_else() {
    assert_eq!(run("if 1 > 2 circle end if", 0.0), Ok(vec![]));
}

#[test]
fn loop_unrolls_its_body() {
    assert_eq!(
        run("for 3 { circle }", 0.0),
        Ok(vec![Leaf::Circle(1.0), Leaf::Circle(1.0), Leaf::Circle(1.0)])
    );
}

#[test]
fn loop_without_positive_count_adds_nothing() {
    assert_eq!(run("for 0 { circle }\nfor -2 { square }", 0.0), Ok(vec![]));
}

#[test]
fn loop_carries_declarations_between_iterations() {
    assert_eq!(
        run("x: 0\nfor 3 { x: x + 1\ncircle x }", 0.0),
        Ok(vec![Leaf::Circle(1.0), Leaf::Circle(2.0), Leaf::Circle(3.0)])
    );
}

#[test]
fn declarations_leak_out_of_blocks() {
    assert_eq!(
        run("if true x: 4 end if\nfor 1 { y: x }\nsquare x y", 0.0),
        Ok(vec![Leaf::Square(4.0, 4.0)])
    );
}

#[test]
fn nested_loops_inside_conditionals() {
    let leaves = run("for 2 { if true for 2 { circle } end if }", 0.0).unwrap();
    assert_eq!(leaves.len(), 4);
}

#[test]
fn unparsed_remainder_keeps_previous_program() {
    let (_, held) = parser("circle 2").unwrap();
    let (rest, fresh) = parser("x: 1\n bogus!!").unwrap();
    assert_eq!(rest, "bogus!!");
    let held = if rest.is_empty() { fresh } else { held };
    assert_eq!(held, vec![Command::Instantiation(Node::Circle(num("2")))]);
}

#[test]
fn unbound_variable_fails_the_pass() {
    assert_eq!(run("square y", 0.0), Err(Failure::Unbound("y".to_string())));
    assert_eq!(run("circle\nsquare y\ncircle", 0.0), Err(Failure::Unbound("y".to_string())));
}

#[test]
fn unbound_variable_in_a_branch_not_taken_is_harmless() {
    assert_eq!(run("if true circle else square y end if", 0.0), Ok(vec![Leaf::Circle(1.0)]));
    assert_eq!(run("if z > 1 circle end if", 0.0), Err(Failure::Unbound("z".to_string())));
}

#[test]
fn and_binds_tighter_than_or() {
    let (rest, op) = boolean_expr("true or false and false").unwrap();
    assert_eq!(rest, "");
    assert!(decide(&op, &vec![]));
    assert_eq!(
        op,
        Operation::Condition((
            Box::new(boolean(true)),
            Builtin::Or,
            Box::new(Operation::Condition((
                Box::new(boolean(false)),
                Builtin::And,
                Box::new(boolean(false))
            )))
        ))
    );
}

#[test]
fn movement_color_and_reset() {
    assert_eq!(
        run("move 1, 2\ncolor 1 0.5 0\nreset_m\ncircle", 0.0),
        Ok(vec![
            Leaf::Move(1.0, 2.0),
            Leaf::Color(1.0, 0.5, 0.0),
            Leaf::Reset,
            Leaf::Circle(1.0)
        ])
    );
}

#[test]
fn intrinsics_read_time() {
    let (_, op) = expr("sin(time) + cos(0)").unwrap();
    assert_eq!(fold(&op, &HashMap::new(), 0.0), 1.0);
}

#[test]
fn empty_and_blank_programs() {
    assert_eq!(parser("").unwrap(), ("", vec![]));
    assert_eq!(parser(" \n\t ").unwrap(), ("", vec![]));
}

#[test]
fn reserved_words_are_not_variables() {
    assert!(variable("true").is_err());
    assert!(variable_name("circle").is_err());
    assert!(assignment("true: 71.7").is_err());
    let (rest, _) = parser("true: 71.7").unwrap();
    assert_eq!(rest, "true: 71.7");
}

#[test]
fn literal_forms() {
    let (rest, f) = number("-01.500x").unwrap();
    assert_eq!(rest, "x");
    assert_eq!(f, Factor::Number(Decimal::from_parts(true, "1", "5")));
    let (rest, f) = number(".25").unwrap();
    assert_eq!(rest, "");
    assert_eq!(f, Factor::Number(Decimal::from_parts(false, "", "25")));
    let (rest, _) = number("2e3").unwrap();
    assert_eq!(rest, "e3");
    assert!(number("x").is_err());
    assert!(number("-").is_err());
}

#[test]
fn operator_atoms() {
    assert_eq!(mult("*2").unwrap(), ("2", Builtin::Mult));
    assert_eq!(mult("/").unwrap(), ("", Builtin::Div));
    assert!(mult("+").is_err());
    assert_eq!(sum("-x").unwrap(), ("x", Builtin::Minus));
    assert!(sum("").is_err());
}

#[test]
fn syntax_errors() {
    assert!(expr("").is_err());
    assert!(expr("(1 + 2").is_err());
    assert!(factor(")").is_err());
    assert!(boolean_expr("1 + 2").is_err());
    assert!(statement("bogus!!").is_err());
    assert!(command_for("for 99999999999 { circle }").is_err());
    assert!(command_for("for 2 { circle").is_err());
}

#[test]
fn shapes_by_kind() {
    assert_eq!(circle("circle 3").unwrap().1, Node::Circle(num("3")));
    assert!(circle("square 3").is_err());
    assert_eq!(square("square 2 4").unwrap().1, Node::Square((num("2"), num("4"))));
    assert_eq!(
        draw_shape("square").unwrap().1,
        Command::Instantiation(Node::Square((num("1"), num("1"))))
    );
}

#[test]
fn loop_and_branch_structure() {
    let (rest, c) = command_for("for 2 {\n circle\n}").unwrap();
    assert_eq!(rest, "");
    assert_eq!(
        c,
        Command::For((2, vec![Command::Instantiation(Node::Circle(num("1")))]))
    );
    let (rest, c) = statement("if a < 1 circle else if a < 2 square else reset_m end if").unwrap();
    assert_eq!(rest, "");
    match c {
        Command::ConditionalBlock(branches) => {
            let kinds: Vec<ConditionalBuiltin> = branches.iter().map(|b| b.0).collect();
            assert_eq!(
                kinds,
                vec![ConditionalBuiltin::IfB, ConditionalBuiltin::ElseIfB, ConditionalBuiltin::ElseB]
            );
            assert_eq!(branches[2].1, boolean(true));
            assert_eq!(branches[2].2, vec![Command::ResetMove]);
        }
        other => panic!("not a conditional block: {:?}", other),
    }
}

fn num(whole: &str) -> Operation {
    Operation::Identity(Factor::Number(Decimal::from_parts(false, whole, "")))
}

fn boolean(b: bool) -> Operation {
    Operation::Identity(Factor::Boolean(b))
}

#[test]
fn literal_predicates_need_no_host() {
    let (_, program) = parser("if false square\nelse if true circle\nelse square 9\nend if").unwrap();
    let mut pass = Evaluator::new(&program);
    let mut steps = Vec::new();
    loop {
        match pass.next() {
            Step::Done => break,
            Step::Test(_) => panic!("a literal predicate was handed to the host"),
            Step::Skip => {}
            other => steps.push(other),
        }
    }
    assert_eq!(steps.len(), 1);
    assert!(matches!(&steps[0], Step::Emit(Command::Instantiation(Node::Circle(_)))));
}

#[test]
fn host_answers_each_comparison_once() {
    let (_, program) = parser("x: 2\nif x > 1 and (x < 0 or true) circle end if").unwrap();
    let mut pass = Evaluator::new(&program);
    let mut asked = 0;
    let mut drawn = 0;
    loop {
        match pass.next() {
            Step::Done => break,
            Step::Test(cmp) => {
                asked += 1;
                let env: HashMap<String, f32> = [("x".to_string(), 2.0)].into_iter().collect();
                let truth = compare(&cmp, &env, 0.0);
                pass.resume(truth);
            }
            Step::Emit(_) => drawn += 1,
            _ => {}
        }
    }
    assert_eq!(asked, 2);
    assert_eq!(drawn, 1);
}

#[test]
fn decide_folds_connectives_over_answers() {
    let (_, p) = boolean_expr("1 < 2 and 3 < 4 or false").unwrap();
    assert!(decide(&p, &vec![true, true]));
    assert!(!decide(&p, &vec![true, false]));
    let (_, p) = boolean_expr("false or 1 = 1").unwrap();
    assert!(decide(&p, &vec![true]));
    assert!(!decide(&p, &vec![false]));
}

#[test]
fn boolean_in_numeric_context_fails_the_pass() {
    let program = vec![Command::Instantiation(Node::Circle(boolean(true)))];
    assert_eq!(run_program(&program, 0.0), Err(Failure::Mistyped));
    let program = vec![Command::ConditionalBlock(vec![(
        ConditionalBuiltin::IfB,
        num("1"),
        vec![Command::ResetMove],
    )])];
    assert_eq!(run_program(&program, 0.0), Err(Failure::Mistyped));
}

#[test]
fn shape_keywords_need_no_word_boundary() {
    assert_eq!(
        square("squarex").unwrap(),
        ("", Node::Square((var("x"), var("x"))))
    );
    assert_eq!(circle("circlex").unwrap(), ("", Node::Circle(var("x"))));
    assert_eq!(circle("circle 5 2").unwrap(), ("2", Node::Circle(num("5"))));
    let (rest, program) = parser("squarex: 1\nsquarex").unwrap();
    assert_eq!(rest, "");
    assert_eq!(
        program,
        vec![
            Command::Declaration(("squarex".to_string(), num("1"))),
            Command::Instantiation(Node::Square((var("x"), var("x"))))
        ]
    );
}

fn var(name: &str) -> Operation {
    Operation::Identity(Factor::Variable(name.to_string()))
}
