use syntax::parser::NESTING_LIMIT;
use syntax::{
    ErrorKind, Expression, Function, Operand, ParseError, Parser, Statement, Token, TokenType,
    Traveler, Value,
};

fn token(token_type: TokenType, text: &str) -> Token {
    Token::new(token_type, text.to_string())
}

fn id(text: &str) -> Token {
    token(TokenType::Identifier, text)
}

fn kw(text: &str) -> Token {
    token(TokenType::Keyword, text)
}

fn op(text: &str) -> Token {
    token(TokenType::Operator, text)
}

fn sym(text: &str) -> Token {
    token(TokenType::Symbol, text)
}

fn num(text: &str) -> Token {
    token(TokenType::IntLiteral, text)
}

fn block(inner: Vec<Token>) -> Token {
    token(TokenType::Block(inner), "{")
}

fn parse(tokens: Vec<Token>) -> Result<Vec<Statement>, ParseError> {
    Parser::new(Traveler::new(tokens)).parse()
}

fn one(tokens: Vec<Token>) -> Expression {
    let mut statements = parse(tokens).unwrap();
    assert_eq!(statements.len(), 1);
    match statements.remove(0) {
        Statement::Expression(value) => *value,
        other => panic!("no bare expression: {:?}", other),
    }
}

fn failure(tokens: Vec<Token>) -> ParseError {
    parse(tokens).unwrap_err()
}

fn name(text: &str) -> Expression {
    Expression::Identifier(text.to_string())
}

fn lit(n: i64) -> Expression {
    Expression::Atom(Value::IntLiteral(n))
}

fn binary(left: Expression, op: Operand, right: Expression) -> Expression {
    Expression::Operation(Box::new(left), op, Box::new(right))
}

fn call(items: Vec<Expression>) -> Expression {
    Expression::Call(Box::new(items))
}

fn bare(value: Expression) -> Statement {
    Statement::Expression(Box::new(value))
}

#[test]
fn no_tokens_make_no_statements() {
    assert_eq!(parse(Vec::new()), Ok(Vec::new()));
}

#[test]
fn tighter_operator_first_groups_to_the_left() {
    let parsed = one(vec![id("a"), op("*"), id("b"), op("+"), id("c")]);
    assert_eq!(
        parsed,
        binary(binary(name("a"), Operand::Mul, name("b")), Operand::Plus, name("c"))
    );
    let parsed = one(vec![num("1"), op("/"), num("2"), op("=="), num("3")]);
    assert_eq!(parsed, binary(binary(lit(1), Operand::Div, lit(2)), Operand::Equals, lit(3)));
}

#[test]
fn tighter_operator_second_groups_to_the_right() {
    let parsed = one(vec![id("a"), op("+"), id("b"), op("*"), id("c")]);
    assert_eq!(
        parsed,
        binary(name("a"), Operand::Plus, binary(name("b"), Operand::Mul, name("c")))
    );
    let parsed = one(vec![num("1"), op("<"), num("2"), op("-"), num("3")]);
    assert_eq!(parsed, binary(lit(1), Operand::Lt, binary(lit(2), Operand::Minus, lit(3))));
}

#[test]
fn parentheses_override_binding_strength() {
    let parsed = one(vec![
        sym("("),
        id("a"),
        op("+"),
        id("b"),
        sym(")"),
        op("*"),
        id("c"),
    ]);
    assert_eq!(
        parsed,
        binary(binary(name("a"), Operand::Plus, name("b")), Operand::Mul, name("c"))
    );
}

#[test]
fn parentheses_on_the_right_are_one_operand() {
    let parsed = one(vec![
        id("a"),
        op("*"),
        sym("("),
        id("b"),
        op("+"),
        id("c"),
        sym(")"),
    ]);
    assert_eq!(
        parsed,
        binary(name("a"), Operand::Mul, binary(name("b"), Operand::Plus, name("c")))
    );
}

#[test]
fn operators_of_one_strength_group_to_the_right() {
    let parsed = one(vec![id("a"), op("-"), id("b"), op("-"), id("c")]);
    assert_eq!(
        parsed,
        binary(name("a"), Operand::Minus, binary(name("b"), Operand::Minus, name("c")))
    );
}

#[test]
fn single_operation_keeps_the_order_of_its_operands() {
    let parsed = one(vec![num("1"), op("-"), num("2")]);
    assert_eq!(parsed, binary(lit(1), Operand::Minus, lit(2)));
}

#[test]
fn falling_strength_matches_the_usual_precedence() {
    let parsed = one(vec![
        id("a"),
        op("*"),
        id("b"),
        op("+"),
        id("c"),
        op("=="),
        id("d"),
        op("<"),
        id("e"),
    ]);
    let product = binary(name("a"), Operand::Mul, name("b"));
    let sum = binary(product, Operand::Plus, name("c"));
    let equal = binary(sum, Operand::Equals, name("d"));
    assert_eq!(parsed, binary(equal, Operand::Lt, name("e")));
}

#[test]
fn rising_strength_nests_to_the_right() {
    let parsed = one(vec![
        id("a"),
        op("=="),
        id("b"),
        op("+"),
        id("c"),
        op("*"),
        id("d"),
    ]);
    let product = binary(name("c"), Operand::Mul, name("d"));
    let sum = binary(name("b"), Operand::Plus, product);
    assert_eq!(parsed, binary(name("a"), Operand::Equals, sum));
}

#[test]
fn weaker_operator_joins_only_the_last_pending_pair() {
    let parsed = one(vec![
        num("1"),
        op("*"),
        num("2"),
        op("*"),
        num("3"),
        op("+"),
        num("4"),
    ]);
    let product = binary(lit(2), Operand::Mul, lit(3));
    let sum = binary(product, Operand::Plus, lit(4));
    assert_eq!(parsed, binary(lit(1), Operand::Mul, sum));
}

#[test]
fn operation_of_calls_takes_each_call_as_an_operand() {
    let parsed = one(vec![
        id("f"),
        sym("("),
        id("x"),
        sym(")"),
        op("*"),
        id("g"),
        sym("~"),
        op("+"),
        num("1"),
    ]);
    let product = binary(
        call(vec![name("f"), name("x")]),
        Operand::Mul,
        call(vec![name("g")]),
    );
    assert_eq!(parsed, binary(product, Operand::Plus, lit(1)));
}

#[test]
fn definition_binds_a_name_to_a_literal() {
    let parsed = parse(vec![kw("var"), id("x"), sym("="), num("5")]);
    assert_eq!(
        parsed,
        Ok(vec![Statement::Definition("x".to_string(), Box::new(lit(5)))])
    );
}

#[test]
fn assignment_rebinds_a_name() {
    let parsed = parse(vec![id("x"), sym("="), num("5")]);
    assert_eq!(
        parsed,
        Ok(vec![Statement::Assignment("x".to_string(), Box::new(lit(5)))])
    );
}

#[test]
fn definition_takes_a_whole_expression() {
    let parsed = parse(vec![kw("var"), id("x"), sym("="), num("1"), op("+"), id("y")]);
    assert_eq!(
        parsed,
        Ok(vec![Statement::Definition(
            "x".to_string(),
            Box::new(binary(lit(1), Operand::Plus, name("y")))
        )])
    );
}

#[test]
fn statements_follow_one_another() {
    let parsed = parse(vec![
        kw("var"),
        id("x"),
        sym("="),
        num("1"),
        id("x"),
        sym("="),
        id("y"),
        id("f"),
        sym("("),
        id("x"),
        sym(")"),
        num("7"),
    ]);
    assert_eq!(
        parsed,
        Ok(vec![
            Statement::Definition("x".to_string(), Box::new(lit(1))),
            Statement::Assignment("x".to_string(), Box::new(name("y"))),
            bare(call(vec![name("f"), name("x")])),
            bare(lit(7)),
        ])
    );
}

#[test]
fn conditional_with_single_expression_bodies() {
    let parsed = parse(vec![kw("if"), id("a"), id("b"), kw("else"), id("c")]);
    assert_eq!(
        parsed,
        Ok(vec![Statement::IfElse(
            Box::new(name("a")),
            Box::new(vec![bare(name("b"))]),
            Box::new(vec![bare(name("c"))]),
        )])
    );
}

#[test]
fn conditional_without_else() {
    let parsed = parse(vec![kw("if"), id("a"), id("b"), id("c")]);
    assert_eq!(
        parsed,
        Ok(vec![
            Statement::If(Box::new(name("a")), Box::new(vec![bare(name("b"))])),
            bare(name("c")),
        ])
    );
}

#[test]
fn conditional_with_block_bodies() {
    let then = block(vec![id("x"), sym("="), num("1"), id("y"), sym("="), num("2")]);
    let otherwise = block(vec![]);
    let parsed = parse(vec![
        kw("if"),
        id("a"),
        op("<"),
        num("3"),
        then,
        kw("else"),
        otherwise,
    ]);
    assert_eq!(
        parsed,
        Ok(vec![Statement::IfElse(
            Box::new(binary(name("a"), Operand::Lt, lit(3))),
            Box::new(vec![
                Statement::Assignment("x".to_string(), Box::new(lit(1))),
                Statement::Assignment("y".to_string(), Box::new(lit(2))),
            ]),
            Box::new(vec![]),
        )])
    );
}

#[test]
fn conditional_nested_in_a_block() {
    let inner = block(vec![kw("return"), id("b")]);
    let outer = block(vec![kw("if"), id("b"), inner]);
    let parsed = parse(vec![kw("if"), id("a"), outer]);
    let innermost = Statement::If(
        Box::new(name("b")),
        Box::new(vec![bare(Expression::Return(Some(Box::new(name("b")))))]),
    );
    assert_eq!(
        parsed,
        Ok(vec![Statement::If(Box::new(name("a")), Box::new(vec![innermost]))])
    );
}

#[test]
fn call_with_arguments() {
    let parsed = one(vec![id("f"), sym("("), id("a"), sym(","), id("b"), sym(")")]);
    assert_eq!(parsed, call(vec![name("f"), name("a"), name("b")]));
}

#[test]
fn call_without_arguments() {
    let parsed = one(vec![id("f"), sym("("), sym(")")]);
    assert_eq!(parsed, call(vec![name("f")]));
}

#[test]
fn tilde_calls_without_arguments() {
    let parsed = one(vec![id("f"), sym("~")]);
    assert_eq!(parsed, call(vec![name("f")]));
    assert_eq!(parsed, one(vec![id("f"), sym("("), sym(")")]));
}

#[test]
fn call_arguments_are_whole_expressions() {
    let parsed = one(vec![
        id("f"),
        sym("("),
        num("1"),
        op("+"),
        num("2"),
        sym(","),
        id("g"),
        sym("("),
        id("x"),
        sym(")"),
        sym(","),
        sym(")"),
    ]);
    assert_eq!(
        parsed,
        call(vec![
            name("f"),
            binary(lit(1), Operand::Plus, lit(2)),
            call(vec![name("g"), name("x")]),
        ])
    );
}

#[test]
fn call_arguments_need_no_comma() {
    let parsed = one(vec![id("f"), sym("("), num("1"), num("2"), sym(")")]);
    assert_eq!(parsed, call(vec![name("f"), lit(1), lit(2)]));
}

#[test]
fn parenthesized_expression_can_be_called() {
    let parsed = one(vec![sym("("), id("f"), sym(")"), sym("("), id("x"), sym(")")]);
    assert_eq!(parsed, call(vec![name("f"), name("x")]));
}

#[test]
fn parenthesized_atom_is_the_atom() {
    assert_eq!(one(vec![sym("("), num("5"), sym(")")]), lit(5));
}

#[test]
fn literals_become_atoms() {
    assert_eq!(one(vec![num("-12")]), lit(-12));
    assert_eq!(
        one(vec![token(TokenType::FloatLiteral, "1.50")]),
        Expression::Atom(Value::FloatLiteral("1.50".to_string()))
    );
    assert_eq!(
        one(vec![token(TokenType::BoolLiteral, "yes")]),
        Expression::Atom(Value::BoolLiteral(true))
    );
    assert_eq!(
        one(vec![token(TokenType::BoolLiteral, "no")]),
        Expression::Atom(Value::BoolLiteral(false))
    );
    assert_eq!(
        one(vec![token(TokenType::BoolLiteral, "true")]),
        Expression::Atom(Value::BoolLiteral(false))
    );
    assert_eq!(
        one(vec![token(TokenType::StringLiteral, "hello there")]),
        Expression::Atom(Value::StringLiteral("hello there".to_string()))
    );
    assert_eq!(
        one(vec![token(TokenType::CharLiteral, "é")]),
        Expression::Atom(Value::CharLiteral('é'))
    );
    assert_eq!(
        one(vec![token(TokenType::CharLiteral, "ab")]),
        Expression::Atom(Value::CharLiteral('a'))
    );
}

#[test]
fn integer_literal_out_of_range_fails() {
    let error = failure(vec![num("9223372036854775808")]);
    assert_eq!(error.kind, ErrorKind::UnexpectedText);
    assert_eq!(error.position, 0);
    assert_eq!(error.expected, "integer literal");
    assert_eq!(error.found, "9223372036854775808");
}

#[test]
fn empty_character_literal_fails() {
    let error = failure(vec![id("x"), sym("="), token(TokenType::CharLiteral, "")]);
    assert_eq!(error.kind, ErrorKind::UnexpectedText);
    assert_eq!(error.position, 2);
    assert_eq!(error.expected, "character literal");
    assert_eq!(error.found, "");
}

#[test]
fn return_of_nothing() {
    assert_eq!(one(vec![kw("return"), sym("~")]), Expression::Return(None));
}

#[test]
fn return_of_an_expression() {
    let parsed = one(vec![kw("return"), id("a"), op("+"), num("1")]);
    assert_eq!(
        parsed,
        Expression::Return(Some(Box::new(binary(name("a"), Operand::Plus, lit(1)))))
    );
}

#[test]
fn return_at_the_end_of_the_tokens_fails() {
    let error = failure(vec![kw("return")]);
    assert_eq!(error.kind, ErrorKind::PrematureEnd);
    assert_eq!(error.position, 1);
    assert_eq!(error.expected, "expression");
}

#[test]
fn named_function_with_parameters_and_block() {
    let body = block(vec![kw("return"), id("a"), op("+"), id("b")]);
    let parsed = one(vec![
        kw("fun"),
        id("add"),
        sym("("),
        id("a"),
        sym(","),
        id("b"),
        sym(")"),
        body,
    ]);
    let sum = binary(name("a"), Operand::Plus, name("b"));
    assert_eq!(
        parsed,
        Expression::Function(Function {
            name: Some("add".to_string()),
            args: vec!["a".to_string(), "b".to_string()],
            body: Some(vec![bare(Expression::Return(Some(Box::new(sum))))]),
        })
    );
}

#[test]
fn anonymous_function_with_expression_body() {
    let parsed = one(vec![kw("fun"), sym("("), id("a"), sym(")"), id("a"), op("*"), num("2")]);
    assert_eq!(
        parsed,
        Expression::Function(Function {
            name: None,
            args: vec!["a".to_string()],
            body: Some(vec![bare(binary(name("a"), Operand::Mul, lit(2)))]),
        })
    );
}

#[test]
fn function_without_parameter_list() {
    let parsed = one(vec![kw("fun"), id("main"), block(vec![id("run"), sym("~")])]);
    assert_eq!(
        parsed,
        Expression::Function(Function {
            name: Some("main".to_string()),
            args: vec![],
            body: Some(vec![bare(call(vec![name("run")]))]),
        })
    );
    let parsed = one(vec![kw("fun"), num("1")]);
    assert_eq!(
        parsed,
        Expression::Function(Function {
            name: None,
            args: vec![],
            body: Some(vec![bare(lit(1))]),
        })
    );
}

#[test]
fn function_without_body_is_an_outside_binding() {
    let parsed = one(vec![kw("fun"), id("print"), sym("("), id("text"), sym(")")]);
    assert_eq!(
        parsed,
        Expression::Function(Function {
            name: Some("print".to_string()),
            args: vec!["text".to_string()],
            body: None,
        })
    );
}

#[test]
fn function_without_body_before_another_statement() {
    let parsed = parse(vec![
        kw("var"),
        id("p"),
        sym("="),
        kw("fun"),
        sym("("),
        sym(")"),
        kw("var"),
        id("x"),
        sym("="),
        num("1"),
    ]);
    assert_eq!(
        parsed,
        Ok(vec![
            Statement::Definition(
                "p".to_string(),
                Box::new(Expression::Function(Function {
                    name: None,
                    args: vec![],
                    body: None
                }))
            ),
            Statement::Definition("x".to_string(), Box::new(lit(1))),
        ])
    );
}

#[test]
fn function_parameters_need_no_comma() {
    let parsed = one(vec![
        kw("fun"),
        sym("("),
        id("a"),
        id("b"),
        sym(","),
        sym(")"),
        block(vec![]),
    ]);
    assert_eq!(
        parsed,
        Expression::Function(Function {
            name: None,
            args: vec!["a".to_string(), "b".to_string()],
            body: Some(vec![]),
        })
    );
}

#[test]
fn function_as_an_argument() {
    let parsed = one(vec![
        id("map"),
        sym("("),
        kw("fun"),
        sym("("),
        id("x"),
        sym(")"),
        sym(","),
        id("xs"),
        sym(")"),
    ]);
    let binding = Expression::Function(Function {
        name: None,
        args: vec!["x".to_string()],
        body: None,
    });
    assert_eq!(parsed, call(vec![name("map"), binding, name("xs")]));
}

#[test]
fn function_parameter_list_must_close() {
    let error = failure(vec![kw("fun"), sym("("), id("a"), num("1"), sym(")")]);
    assert_eq!(error.kind, ErrorKind::UnexpectedText);
    assert_eq!(error.position, 3);
    assert_eq!(error.expected, ")");
    assert_eq!(error.found, "1");
    let error = failure(vec![kw("fun"), sym("("), id("a"), sym(",")]);
    assert_eq!(error.kind, ErrorKind::PrematureEnd);
    assert_eq!(error.position, 4);
    assert_eq!(error.expected, ")");
}

#[test]
fn function_needs_a_list_or_a_body() {
    let error = failure(vec![kw("fun"), id("f")]);
    assert_eq!(error.kind, ErrorKind::PrematureEnd);
    assert_eq!(error.position, 2);
    assert_eq!(error.expected, "function body");
    let error = failure(vec![kw("fun"), sym(")")]);
    assert_eq!(error.kind, ErrorKind::Unrecognized);
    assert_eq!(error.position, 1);
    assert_eq!(error.expected, "(");
    assert_eq!(error.found, ")");
}

#[test]
fn same_tokens_parse_to_the_same_tree() {
    let tokens = || {
        vec![
            kw("if"),
            id("a"),
            op("=="),
            num("1"),
            block(vec![id("f"), sym("("), id("a"), sym(")")]),
            kw("else"),
            id("g"),
            sym("~"),
            kw("var"),
            id("x"),
            sym("="),
            num("2"),
            op("*"),
            id("a"),
        ]
    };
    let first = parse(tokens());
    let second = parse(tokens());
    assert!(first.is_ok());
    assert_eq!(first, second);
    let broken = || vec![kw("var"), id("x"), num("2")];
    assert_eq!(parse(broken()), parse(broken()));
    assert!(parse(broken()).is_err());
}

#[test]
fn parser_leaves_the_cursor_past_the_last_token() {
    let mut traveler = Traveler::new(vec![id("a"), id("b"), id("c")]);
    traveler.next();
    let mut parser = Parser::new(traveler);
    assert_eq!(parser.parse(), Ok(vec![bare(name("b")), bare(name("c"))]));
    assert_eq!(parser.parse(), Ok(vec![]));
}

#[test]
fn var_without_identifier_fails() {
    let error = failure(vec![kw("var"), num("5"), sym("="), num("3")]);
    assert_eq!(error.kind, ErrorKind::UnexpectedCategory);
    assert_eq!(error.position, 1);
    assert_eq!(error.path, Vec::<usize>::new());
    assert_eq!(error.expected, "identifier");
    assert_eq!(error.found, "5");
    assert_eq!(error.message(), "expected 'identifier', found '5'");
}

#[test]
fn var_at_the_end_of_the_tokens_fails() {
    let error = failure(vec![id("a"), kw("var")]);
    assert_eq!(error.kind, ErrorKind::PrematureEnd);
    assert_eq!(error.position, 2);
    assert_eq!(error.expected, "identifier");
    assert_eq!(error.found, "");
}

#[test]
fn var_without_assignment_sign_fails() {
    let error = failure(vec![kw("var"), id("x"), num("3")]);
    assert_eq!(error.kind, ErrorKind::UnexpectedText);
    assert_eq!(error.position, 2);
    assert_eq!(error.expected, "=");
    assert_eq!(error.found, "3");
    let error = failure(vec![kw("var"), id("x")]);
    assert_eq!(error.kind, ErrorKind::PrematureEnd);
    assert_eq!(error.position, 2);
    assert_eq!(error.expected, "=");
}

#[test]
fn var_without_value_fails() {
    let error = failure(vec![kw("var"), id("x"), sym("=")]);
    assert_eq!(error.kind, ErrorKind::PrematureEnd);
    assert_eq!(error.position, 3);
    assert_eq!(error.expected, "expression");
}

#[test]
fn unmatched_parenthesis_fails() {
    let error = failure(vec![sym("("), id("a"), op("+"), id("b")]);
    assert_eq!(error.kind, ErrorKind::PrematureEnd);
    assert_eq!(error.position, 4);
    assert_eq!(error.expected, ")");
    assert_eq!(error.message(), "expected ')', found end of source >:(");
    let error = failure(vec![sym("("), id("a"), id("b"), sym(")")]);
    assert_eq!(error.kind, ErrorKind::UnexpectedText);
    assert_eq!(error.position, 2);
    assert_eq!(error.expected, ")");
    assert_eq!(error.found, "b");
}

#[test]
fn unmatched_call_parenthesis_fails() {
    let error = failure(vec![id("f"), sym("("), num("1")]);
    assert_eq!(error.kind, ErrorKind::PrematureEnd);
    assert_eq!(error.position, 3);
    assert_eq!(error.expected, ")");
    let error = failure(vec![id("f"), sym("("), num("1"), sym(",")]);
    assert_eq!(error.kind, ErrorKind::PrematureEnd);
    assert_eq!(error.position, 4);
    let error = failure(vec![id("f"), sym("(")]);
    assert_eq!(error.kind, ErrorKind::PrematureEnd);
    assert_eq!(error.position, 2);
}

#[test]
fn failure_hands_out_no_statement() {
    let parsed = parse(vec![id("x"), sym("="), num("1"), kw("var"), num("5")]);
    let error = parsed.unwrap_err();
    assert_eq!(error.kind, ErrorKind::UnexpectedCategory);
    assert_eq!(error.position, 4);
}

#[test]
fn unknown_keyword_fails() {
    let error = failure(vec![kw("kill")]);
    assert_eq!(error.kind, ErrorKind::Unrecognized);
    assert_eq!(error.position, 0);
    assert_eq!(error.expected, "statement");
    assert_eq!(error.found, "kill");
    let error = failure(vec![id("x"), sym("="), kw("else")]);
    assert_eq!(error.kind, ErrorKind::Unrecognized);
    assert_eq!(error.position, 2);
    assert_eq!(error.expected, "expression");
    assert_eq!(error.found, "else");
}

#[test]
fn unknown_symbol_fails() {
    let error = failure(vec![sym(";")]);
    assert_eq!(error.kind, ErrorKind::Unrecognized);
    assert_eq!(error.position, 0);
    assert_eq!(error.expected, "expression");
    let error = failure(vec![id("a"), sym(";")]);
    assert_eq!(error.kind, ErrorKind::Unrecognized);
    assert_eq!(error.position, 1);
    assert_eq!(error.expected, "call or separator");
    assert_eq!(error.found, ";");
}

#[test]
fn operator_in_place_of_an_atom_fails() {
    let error = failure(vec![num("1"), op("+"), op("*"), num("2")]);
    assert_eq!(error.kind, ErrorKind::UnexpectedCategory);
    assert_eq!(error.position, 2);
    assert_eq!(error.expected, "expression");
    assert_eq!(error.found, "*");
    let error = failure(vec![num("1"), op("+")]);
    assert_eq!(error.kind, ErrorKind::PrematureEnd);
    assert_eq!(error.position, 2);
}

#[test]
fn block_in_place_of_a_statement_fails() {
    let error = failure(vec![block(vec![id("a")])]);
    assert_eq!(error.kind, ErrorKind::UnexpectedCategory);
    assert_eq!(error.position, 0);
    assert_eq!(error.expected, "expression");
}

#[test]
fn operator_token_outside_the_table_fails() {
    let error = failure(vec![num("1"), op("**"), num("2")]);
    assert_eq!(error.kind, ErrorKind::Unrecognized);
    assert_eq!(error.position, 1);
    assert_eq!(error.expected, "operator");
    assert_eq!(error.found, "**");
    let error = failure(vec![num("1"), op("+"), num("2"), op("%"), num("3")]);
    assert_eq!(error.kind, ErrorKind::Unrecognized);
    assert_eq!(error.position, 3);
    assert_eq!(error.found, "%");
}

#[test]
fn failure_in_a_block_names_the_block() {
    let inner = block(vec![kw("var"), num("5")]);
    let error = failure(vec![id("x"), sym("~"), kw("if"), id("a"), inner]);
    assert_eq!(error.kind, ErrorKind::UnexpectedCategory);
    assert_eq!(error.position, 1);
    assert_eq!(error.path, vec![4]);
    assert_eq!(error.expected, "identifier");
    let innermost = block(vec![id("a"), sym("("), id("b")]);
    let inner = block(vec![id("y"), kw("if"), id("c"), innermost]);
    let error = failure(vec![kw("fun"), id("f"), sym("("), sym(")"), inner]);
    assert_eq!(error.kind, ErrorKind::PrematureEnd);
    assert_eq!(error.position, 3);
    assert_eq!(error.path, vec![3, 4]);
    assert_eq!(error.expected, ")");
}

#[test]
fn failure_leaves_the_cursor_on_the_offending_token() {
    let mut parser = Parser::new(Traveler::new(vec![
        id("a"),
        kw("var"),
        num("5"),
        id("b"),
    ]));
    let error = parser.parse().unwrap_err();
    assert_eq!(error.position, 2);
    assert_eq!(parser.parse(), Ok(vec![bare(lit(5)), bare(name("b"))]));
}

fn nested_groups(levels: usize) -> Vec<Token> {
    let mut tokens = Vec::new();
    for _ in 0..levels {
        tokens.push(sym("("));
    }
    tokens.push(num("1"));
    for _ in 0..levels {
        tokens.push(sym(")"));
    }
    tokens
}

#[test]
fn nesting_up_to_the_limit_parses() {
    assert_eq!(parse(nested_groups(NESTING_LIMIT)), Ok(vec![bare(lit(1))]));
}

#[test]
fn nesting_beyond_the_limit_fails() {
    let error = failure(nested_groups(NESTING_LIMIT + 1));
    assert_eq!(error.kind, ErrorKind::TooDeep);
    assert_eq!(error.position, NESTING_LIMIT);
    assert_eq!(error.found, "(");
    assert_eq!(error.message(), "nesting too deep at '('");
}

#[test]
fn blocks_nested_beyond_the_limit_fail() {
    let mut tokens = vec![id("x")];
    for _ in 0..NESTING_LIMIT + 1 {
        tokens = vec![kw("if"), id("a"), block(tokens)];
    }
    let error = failure(tokens);
    assert_eq!(error.kind, ErrorKind::TooDeep);
    assert_eq!(error.position, 2);
    assert_eq!(error.path, vec![2; NESTING_LIMIT]);
    let mut tokens = vec![id("x")];
    for _ in 0..NESTING_LIMIT {
        tokens = vec![kw("if"), id("a"), block(tokens)];
    }
    assert!(parse(tokens).is_ok());
}

#[test]
fn long_flat_input_is_not_nesting() {
    let mut tokens = vec![num("0")];
    let mut expected = Vec::new();
    for _ in 0..1000 {
        tokens.push(op("+"));
        tokens.push(num("1"));
    }
    for _ in 0..500 {
        tokens.push(id("f"));
        tokens.push(sym("~"));
        expected.push(bare(call(vec![name("f")])));
    }
    let parsed = parse(tokens).unwrap();
    assert_eq!(parsed.len(), 501);
    assert_eq!(&parsed[1..], &expected[..]);
}

#[test]
fn cloned_tree_equals_its_source() {
    let body = block(vec![
        kw("if"),
        id("a"),
        block(vec![kw("return"), sym("~")]),
        kw("else"),
        id("g"),
        sym("("),
        token(TokenType::StringLiteral, "s"),
        sym(","),
        num("2"),
        op("*"),
        id("a"),
        sym(")"),
        kw("var"),
        id("x"),
        sym("="),
        kw("return"),
        id("a"),
    ]);
    let statements = parse(vec![
        id("f"),
        sym("="),
        kw("fun"),
        id("f"),
        sym("("),
        id("a"),
        sym(")"),
        body,
        id("f"),
        sym("~"),
    ])
    .unwrap();
    assert_eq!(statements.len(), 2);
    assert_eq!(statements.clone(), statements);
    assert_eq!(statements[0].clone(), statements[0]);
}

#[test]
fn atom_leaves_the_operator_after_it() {
    let mut parser = Parser::new(Traveler::new(vec![id("a"), op("+"), id("b")]));
    assert_eq!(parser.atom(), Ok(name("a")));
    assert_eq!(parser.position(), 0);
    let mut parser = Parser::new(Traveler::new(vec![id("f"), sym("~"), op("+"), id("b")]));
    assert_eq!(parser.atom(), Ok(call(vec![name("f")])));
    assert_eq!(parser.position(), 1);
}

#[test]
fn expression_rests_on_its_last_token() {
    let mut parser = Parser::new(Traveler::new(vec![id("a"), op("+"), id("b"), id("c")]));
    assert_eq!(parser.expression(), Ok(binary(name("a"), Operand::Plus, name("b"))));
    assert_eq!(parser.position(), 2);
    assert_eq!(parser.expression(), Ok(name("b")));
    assert_eq!(parser.position(), 2);
}

#[test]
fn operation_takes_its_first_operand_from_the_caller() {
    let mut traveler = Traveler::new(vec![id("a"), op("*"), id("b"), op("+"), id("c")]);
    traveler.next();
    let mut parser = Parser::new(traveler);
    let expected = binary(binary(lit(7), Operand::Mul, name("b")), Operand::Plus, name("c"));
    assert_eq!(parser.operation(lit(7)), Ok(expected));
    assert_eq!(parser.position(), 4);
    let mut traveler = Traveler::new(vec![id("a"), op("+"), id("b"), op("*"), id("c"), id("d")]);
    traveler.next();
    let mut parser = Parser::new(traveler);
    let expected = binary(name("a"), Operand::Plus, binary(name("b"), Operand::Mul, name("c")));
    assert_eq!(parser.operation(name("a")), Ok(expected));
    assert_eq!(parser.position(), 4);
}

#[test]
fn operation_on_no_operator_fails() {
    let mut parser = Parser::new(Traveler::new(vec![id("a"), id("b")]));
    let error = parser.operation(lit(1)).unwrap_err();
    assert_eq!(error.kind, ErrorKind::Unrecognized);
    assert_eq!(error.position, 0);
    assert_eq!(error.expected, "operator");
    assert_eq!(error.found, "a");
    assert_eq!(parser.position(), 0);
}

#[test]
fn call_rests_on_the_closing_parenthesis() {
    let mut traveler = Traveler::new(vec![
        id("f"),
        sym("("),
        id("x"),
        sym(","),
        num("2"),
        sym(")"),
        id("g"),
    ]);
    traveler.next();
    let mut parser = Parser::new(traveler);
    assert_eq!(parser.call(name("h")), Ok(call(vec![name("h"), name("x"), lit(2)])));
    assert_eq!(parser.position(), 5);
}

#[test]
fn statement_rests_on_its_last_token() {
    let mut parser = Parser::new(Traveler::new(vec![
        kw("if"),
        id("a"),
        id("b"),
        kw("else"),
        id("c"),
        id("d"),
    ]));
    assert_eq!(
        parser.statement(),
        Ok(Statement::IfElse(
            Box::new(name("a")),
            Box::new(vec![bare(name("b"))]),
            Box::new(vec![bare(name("c"))]),
        ))
    );
    assert_eq!(parser.position(), 4);
}

#[test]
fn statement_past_the_last_token_fails() {
    let mut parser = Parser::new(Traveler::new(Vec::new()));
    let error = parser.statement().unwrap_err();
    assert_eq!(error.kind, ErrorKind::PrematureEnd);
    assert_eq!(error.position, 0);
    assert_eq!(error.expected, "expression");
    assert_eq!(error.message(), "expected 'expression', found end of source >:(");
}

#[test]
fn block_reads_its_own_tokens_and_moves_nothing() {
    let inner = block(vec![id("x"), sym("="), num("1")]);
    let mut traveler = Traveler::new(vec![id("a"), inner, id("b")]);
    traveler.next();
    let parser = Parser::new(traveler);
    assert_eq!(
        parser.block(),
        Ok(vec![Statement::Assignment("x".to_string(), Box::new(lit(1)))])
    );
    assert_eq!(parser.position(), 1);
}

#[test]
fn block_where_no_block_stands_fails() {
    let parser = Parser::new(Traveler::new(vec![id("a")]));
    let error = parser.block().unwrap_err();
    assert_eq!(error.kind, ErrorKind::UnexpectedCategory);
    assert_eq!(error.position, 0);
    assert_eq!(error.expected, "block");
    assert_eq!(error.found, "a");
    let error = Parser::new(Traveler::new(Vec::new())).block().unwrap_err();
    assert_eq!(error.kind, ErrorKind::UnexpectedCategory);
    assert_eq!(error.position, 0);
    assert_eq!(error.found, "");
}

#[test]
fn steps_leave_the_depth_as_it_was() {
    let mut tokens = nested_groups(NESTING_LIMIT);
    tokens.push(num("2"));
    tokens.extend(nested_groups(NESTING_LIMIT));
    let mut parser = Parser::new(Traveler::new(tokens.clone()));
    assert_eq!(parser.expression(), Ok(lit(1)));
    assert_eq!(parser.position(), 2 * NESTING_LIMIT);
    let mut parser = Parser::new(Traveler::new(tokens));
    assert_eq!(parser.parse(), Ok(vec![bare(lit(1)), bare(lit(2)), bare(lit(1))]));
    let mut tokens = vec![sym("("), sym("("), num("1")];
    tokens.extend(nested_groups(NESTING_LIMIT));
    let mut parser = Parser::new(Traveler::new(tokens));
    let error = parser.expression().unwrap_err();
    assert_eq!(error.kind, ErrorKind::UnexpectedText);
    assert_eq!(error.position, 3);
    assert_eq!(parser.position(), 3);
    assert_eq!(parser.parse(), Ok(vec![bare(lit(1))]));
}
