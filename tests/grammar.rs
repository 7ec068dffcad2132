use livecode::{
    boolean_expr, command_if, expr, parser, Builtin, Command, ConditionalBuiltin, Decimal,
    Factor, Node, Operation,
};

fn num(whole: &str, fraction: &str) -> Operation {
    Operation::Identity(Factor::Number(Decimal::from_parts(false, whole, fraction)))
}

fn var(name: &str) -> Operation {
    Operation::Identity(Factor::Variable(name.to_string()))
}

fn calc(left: Operation, op: Builtin, right: Operation) -> Operation {
    Operation::Calculation((Box::new(left), op, Box::new(right)))
}

fn cond(left: Operation, op: Builtin, right: Operation) -> Operation {
    Operation::Condition((Box::new(left), op, Box::new(right)))
}

#[test]
fn parser_declare_variable() {
    let (rest, commands) = parser("x: 2").unwrap();
    assert_eq!(
        commands[0],
        Command::Declaration(("x".to_string(), num("2", "0")))
    );
    assert_eq!(rest, "");
}

#[test]
fn parser_declare_variable_with_expression_only_sum_of_two_elements() {
    let expression = "z: y + 2.0\n";
    let (rest, ast) = parser(expression).unwrap();
    assert_eq!(rest, "");
    assert_eq!(
        ast[0],
        Command::Declaration(("z".to_string(), calc(var("y"), Builtin::Plus, num("2", "0"))))
    );
}

#[test]
fn parser_declare_variable_with_expression_only_sum() {
    let expression = "z: y + 2.0 + x\n";
    let (rest, ast) = parser(expression).unwrap();
    assert_eq!(rest, "");
    assert_eq!(
        ast[0],
        Command::Declaration((
            "z".to_string(),
            calc(
                calc(var("y"), Builtin::Plus, num("2", "0")),
                Builtin::Plus,
                var("x")
            )
        ))
    );
}

#[test]
fn parser_declare_variable_with_expression() {
    let expression = "z: y + 2.0 * x + 3\n";
    let (rest, ast) = parser(expression).unwrap();
    assert_eq!(rest, "");
    assert_eq!(
        ast[0],
        Command::Declaration((
            "z".to_string(),
            calc(
                calc(var("y"), Builtin::Plus, calc(num("2", "0"), Builtin::Mult, var("x"))),
                Builtin::Plus,
                num("3", "0")
            )
        ))
    );
}

#[test]
fn parser_declare_variable_with_expression_and_parenthesis() {
    let expression = "z: (y + 2.0) * x + 3";
    let (rest, ast) = parser(expression).unwrap();

    assert_eq!(rest, "");
    assert_eq!(
        ast[0],
        Command::Declaration((
            "z".to_string(),
            calc(
                calc(calc(var("y"), Builtin::Plus, num("2", "0")), Builtin::Mult, var("x")),
                Builtin::Plus,
                num("3", "0")
            )
        ))
    )
}

#[test]
fn parser_declare_variable_with_complicate_expression() {
    let expression = "z: (1 * (2.0 + 5 / (4 - 2))) ";
    let (rest, _ast) = parser(expression).unwrap();

    assert_eq!(rest, "");
}

#[test]
fn parser_square_with_no_params() {
    let expression = "square";
    let (rest, ast) = parser(expression).unwrap();
    assert_eq!(rest, "");
    assert_eq!(
        ast[0],
        Command::Instantiation(Node::Square((num("1", "0"), num("1", "0"))))
    );
}

#[test]
fn parser_circle_with_no_params() {
    let expression = "circle";
    let (rest, ast) = parser(expression).unwrap();
    assert_eq!(rest, "");
    assert_eq!(ast[0], Command::Instantiation(Node::Circle(num("1", "0"))));
}

#[test]
fn parser_square_with_one_params() {
    let expression = "square 17.22";
    let (rest, ast) = parser(expression).unwrap();
    assert_eq!(rest, "");
    assert_eq!(
        ast[0],
        Command::Instantiation(Node::Square((num("17", "22"), num("17", "22"))))
    );
}

#[test]
fn parser_circle_with_one_params() {
    let expression = "circle 29.93";
    let (rest, ast) = parser(expression).unwrap();
    assert_eq!(rest, "");
    assert_eq!(ast[0], Command::Instantiation(Node::Circle(num("29", "93"))));
}

#[test]
fn parser_square_with_two_params() {
    let expression = "square 17.22 22.17";
    let (rest, ast) = parser(expression).unwrap();
    assert_eq!(rest, "");
    assert_eq!(
        ast[0],
        Command::Instantiation(Node::Square((num("17", "22"), num("22", "17"))))
    );
}

#[test]
fn parser_declaration_and_instantiation() {
    let expression = "x: 1\n square x x + 3";
    let (rest, ast) = parser(expression).unwrap();
    assert_eq!(rest, "");
    assert_eq!(
        ast[1],
        Command::Instantiation(Node::Square((
            var("x"),
            Operation::Calculation((
                Box::new(var("x")),
                Builtin::Plus,
                Box::new(num("3", "0"))
            ))
        )))
    );
}

#[test]
fn parser_shapes() {
    let expression = "z: (1 * (2.0 + 5 / (4 - 2)))\n square x\nsquare x+(13.2) 9.2\n circle x+23.9\n circle z\n circle (12.93*(2+(9-7.6/129.92)))\n circle";
    let (rest, _ast) = parser(expression).unwrap();

    assert_eq!(rest, "");
}

#[test]
fn tests_declare_variable() {
    let (rest, commands) = parser("x: 2").unwrap();
    assert_eq!(
        commands[0],
        Command::Declaration(("x".to_string(), num("2", "0")))
    );
    assert_eq!(rest, "");
}

#[test]
fn tests_declare_variable_with_expression_only_sum_of_two_elements() {
    let expression = "z: y + 2.0\n";
    let (rest, ast) = parser(expression).unwrap();
    assert_eq!(rest, "");
    assert_eq!(
        ast[0],
        Command::Declaration(("z".to_string(), calc(var("y"), Builtin::Plus, num("2", "0"))))
    );
}

#[test]
fn tests_declare_variable_with_expression_only_sum() {
    let expression = "z: y + 2.0 + x\n";
    let (rest, ast) = parser(expression).unwrap();
    assert_eq!(rest, "");
    assert_eq!(
        ast[0],
        Command::Declaration((
            "z".to_string(),
            calc(
                calc(var("y"), Builtin::Plus, num("2", "0")),
                Builtin::Plus,
                var("x")
            )
        ))
    );
}

#[test]
fn tests_declare_variable_with_expression() {
    let expression = "z: y + 2.0 * x + 3\n";
    let (rest, ast) = parser(expression).unwrap();
    assert_eq!(rest, "");
    assert_eq!(
        ast[0],
        Command::Declaration((
            "z".to_string(),
            calc(
                calc(var("y"), Builtin::Plus, calc(num("2", "0"), Builtin::Mult, var("x"))),
                Builtin::Plus,
                num("3", "0")
            )
        ))
    );
}

#[test]
fn tests_declare_variable_with_expression_and_parenthesis() {
    let expression = "z: (y + 2.0) * x + 3";
    let (rest, ast) = parser(expression).unwrap();

    assert_eq!(rest, "");
    assert_eq!(
        ast[0],
        Command::Declaration((
            "z".to_string(),
            calc(
                calc(calc(var("y"), Builtin::Plus, num("2", "0")), Builtin::Mult, var("x")),
                Builtin::Plus,
                num("3", "0")
            )
        ))
    )
}

#[test]
fn tests_declare_variable_with_complicate_expression() {
    let expression = "z: (1 * (2.0 + 5 / (4 - 2))) ";
    let (rest, _ast) = parser(expression).unwrap();

    assert_eq!(rest, "");
}

#[test]
fn tests_square_with_no_params() {
    let expression = "square";
    let (rest, ast) = parser(expression).unwrap();
    assert_eq!(rest, "");
    assert_eq!(
        ast[0],
        Command::Instantiation(Node::Square((num("1", "0"), num("1", "0"))))
    );
}

#[test]
fn tests_circle_with_no_params() {
    let expression = "circle";
    let (rest, ast) = parser(expression).unwrap();
    assert_eq!(rest, "");
    assert_eq!(ast[0], Command::Instantiation(Node::Circle(num("1", "0"))));
}

#[test]
fn tests_square_with_one_params() {
    let expression = "square 17.22";
    let (rest, ast) = parser(expression).unwrap();
    assert_eq!(rest, "");
    assert_eq!(
        ast[0],
        Command::Instantiation(Node::Square((num("17", "22"), num("17", "22"))))
    );
}

#[test]
fn tests_circle_with_one_params() {
    let expression = "circle 29.93";
    let (rest, ast) = parser(expression).unwrap();
    assert_eq!(rest, "");
    assert_eq!(ast[0], Command::Instantiation(Node::Circle(num("29", "93"))));
}

#[test]
fn tests_square_with_two_params() {
    let expression = "square 17.22 22.17";
    let (rest, ast) = parser(expression).unwrap();
    assert_eq!(rest, "");
    assert_eq!(
        ast[0],
        Command::Instantiation(Node::Square((num("17", "22"), num("22", "17"))))
    );
}

#[test]
fn tests_declaration_and_instantiation() {
    let expression = "x: 1\n square x x + 3";
    let (rest, ast) = parser(expression).unwrap();
    assert_eq!(rest, "");
    assert_eq!(
        ast[1],
        Command::Instantiation(Node::Square((
            var("x"),
            Operation::Calculation((
                Box::new(var("x")),
                Builtin::Plus,
                Box::new(num("3", "0"))
            ))
        )))
    );
}

#[test]
fn tests_shapes() {
    let expression = "z: (1 * (2.0 + 5 / (4 - 2)))\n square x\nsquare x+(13.2) 9.2\n circle x+23.9\n circle z\n circle (12.93*(2+(9-7.6/129.92)))\n circle";
    let (rest, _ast) = parser(expression).unwrap();

    assert_eq!(rest, "");
}

#[test]
fn left_recursive() {
    let (rest, expr) = expr("1+2+3+4").unwrap();
    assert_eq!(rest, "");
    assert_eq!(
        expr,
        Operation::Calculation((
            Box::new(Operation::Calculation((
                Box::new(Operation::Calculation((
                    Box::new(num("1", "0")),
                    Builtin::Plus,
                    Box::new(num("2", "0"))
                ))),
                Builtin::Plus,
                Box::new(num("3", "0"))
            ))),
            Builtin::Plus,
            Box::new(num("4", "0"))
        ))
    );
}

#[test]
fn boolean_expression() {
    let content = "2 > 1";
    let (rest, ast) = boolean_expr(content).unwrap();
    assert_eq!(ast, cond(num("2", "0"), Builtin::Greater, num("1", "0")));
    assert_eq!(rest, "");
}

#[test]
fn boolean_expression_with_variables() {
    let content = " x <= y ";
    let (rest, ast) = boolean_expr(content).unwrap();
    assert_eq!(ast, cond(var("x"), Builtin::LesserOrEqual, var("y")));
    assert_eq!(rest, "");
}

#[test]
fn boolean_expression2() {
    let content = " 2 < 1 and  3 > 2";
    let (rest, ast) = boolean_expr(content).unwrap();
    assert_eq!(
        ast,
        cond(
            cond(num("2", "0"), Builtin::Lesser, num("1", "0")),
            Builtin::And,
            cond(num("3", "0"), Builtin::Greater, num("2", "0"))
        )
    );
    assert_eq!(rest, "");
}

#[test]
fn if_command() {
    let content = "if x = 1 and (y >= x or x > 3) circle \n end if";
    let (rest, ast) = command_if(content).unwrap();
    assert_eq!(rest, "");
    assert_eq!(
        ast,
        Command::ConditionalBlock(vec![(
            ConditionalBuiltin::IfB,
            cond(
                cond(var("x"), Builtin::Equal, num("1", "0")),
                Builtin::And,
                cond(
                    cond(var("y"), Builtin::GreaterOrEqual, var("x")),
                    Builtin::Or,
                    cond(var("x"), Builtin::Greater, num("3", "0"))
                )
            ),
            vec![Command::Instantiation(Node::Circle(num("1", "0")))]
        )])
    );
}
