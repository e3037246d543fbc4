use shape_script::script::ast::{
    UnaryOpType,
    Assign, BinaryOperator, Call, Expr, ExpressionStmt, Get, Literal, PrintStmt, SetProperty,
    Stmt, Variable, VarStmt, WhileStmt, Block, UnaryOperator, Logical,
};
use shape_script::script::parser::{parse_ast, ParseError, ParseErrorType, Parser};
use shape_script::script::scanner::tokenize;
use shape_script::script::tokens::{Token, TokenType};

fn tok(type_: TokenType, lexeme: &str) -> Token {
    Token::new(type_, lexeme, 1, 0)
}

fn num(lexeme: &str) -> Expr {
    Literal::new(tok(TokenType::Number, lexeme))
}

fn read(name: &str) -> Expr {
    Variable::new(tok(TokenType::Identifier, name)).as_expr()
}

fn parse(source: &str) -> Result<Vec<Stmt>, Vec<ParseError>> {
    let tokens = tokenize(source).unwrap();
    parse_ast(tokens).map(|ast| ast.stmts)
}

fn error_types(source: &str) -> Vec<String> {
    match parse(source) {
        Ok(_) => vec![],
        Err(errs) => errs.iter().map(|e| format!("{:?}", e.type_)).collect(),
    }
}

#[test]
fn parser_empty_program() {
    assert_eq!(parse("").unwrap().len(), 0);
}

#[test]
fn parser_precedence_of_binary_operators() {
    let stmts = parse("print 1 + 2 * 3;").unwrap();
    let expected = PrintStmt::new(BinaryOperator::new(
        num("1"),
        tok(TokenType::Plus, "+"),
        BinaryOperator::new(num("2"), tok(TokenType::Star, "*"), num("3")),
    ));
    assert_eq!(stmts, vec![expected]);
}

#[test]
fn parser_left_associative_subtraction() {
    let stmts = parse("1 - 2 - 3;").unwrap();
    let expected = ExpressionStmt::new(BinaryOperator::new(
        BinaryOperator::new(num("1"), tok(TokenType::Minus, "-"), num("2")),
        tok(TokenType::Minus, "-"),
        num("3"),
    ));
    assert_eq!(stmts, vec![expected]);
}

#[test]
fn parser_grouping_leaves_no_node() {
    let stmts = parse("(1 + 2) * 3;").unwrap();
    let expected = ExpressionStmt::new(BinaryOperator::new(
        BinaryOperator::new(num("1"), tok(TokenType::Plus, "+"), num("2")),
        tok(TokenType::Star, "*"),
        num("3"),
    ));
    assert_eq!(stmts, vec![expected]);
}

#[test]
fn parser_unary_and_logical() {
    let stmts = parse("!a and -b or c;").unwrap();
    let expected = ExpressionStmt::new(Logical::new(
        Logical::new(
            UnaryOperator::new(tok(TokenType::Bang, "!"), read("a")),
            tok(TokenType::And, "and"),
            UnaryOperator::new(tok(TokenType::Minus, "-"), read("b")),
        ),
        tok(TokenType::Or, "or"),
        read("c"),
    ));
    assert_eq!(stmts, vec![expected]);
}

#[test]
fn parser_variable_declaration_and_assignment() {
    let stmts = parse("var x = 1; x = 2;").unwrap();
    assert_eq!(
        stmts,
        vec![
            VarStmt::new(tok(TokenType::Identifier, "x"), Some(num("1"))),
            ExpressionStmt::new(Assign::new(Variable::new(tok(TokenType::Identifier, "x")), num("2"))),
        ]
    );
}

#[test]
fn parser_call_collapses_its_callee() {
    let stmts = parse("f(1);").unwrap();
    let expected = ExpressionStmt::new(Call::new(
        Variable::new(tok(TokenType::Identifier, "f")).as_expr(),
        tok(TokenType::RightParen, ")"),
        vec![num("1")],
    ));
    assert_eq!(stmts, vec![expected]);
}

#[test]
fn parser_comma_has_no_rule_in_an_argument_list() {
    let errs = parse("f(1, 2);").unwrap_err();
    match &errs[0].type_ {
        ParseErrorType::MissingExpression(t) => assert_eq!(t.lexeme, "1"),
        other => panic!("unexpected error {:?}", other),
    }
}

#[test]
fn parser_property_read_and_write() {
    let stmts = parse("a.b; a.b = c; a.b = c.d;").unwrap();
    let a = Variable::new(tok(TokenType::Identifier, "a")).as_expr();
    assert_eq!(
        stmts,
        vec![
            ExpressionStmt::new(Get::new(a, tok(TokenType::Identifier, "b"))),
            ExpressionStmt::new(Assign::new(Variable::new(tok(TokenType::Identifier, "b")), read("c"))),
            ExpressionStmt::new(SetProperty::new(read("a"), tok(TokenType::Identifier, "b"), read("c"))),
        ]
    );
}

#[test]
fn parser_bare_name_is_a_variable() {
    let stmts = parse("print a; a = 1;").unwrap();
    assert_eq!(
        stmts,
        vec![
            PrintStmt::new(Expr::Variable(Variable::new(tok(TokenType::Identifier, "a")))),
            ExpressionStmt::new(Assign::new(Variable::new(tok(TokenType::Identifier, "a")), num("1"))),
        ]
    );
}

#[test]
fn parser_while_loop() {
    let stmts = parse("while (x) { print x; }").unwrap();
    let expected = WhileStmt::new(read("x"), Block::new(vec![PrintStmt::new(read("x"))]));
    assert_eq!(stmts, vec![expected]);
}

#[test]
fn parser_missing_semicolon_is_reported_at_last_token() {
    let errs = parse("print 1 }").unwrap_err();
    assert_eq!(errs.len(), 1);
    assert!(matches!(errs[0].type_, ParseErrorType::MissingPrintSemicolon));
    assert_eq!(errs[0].token.lexeme, "1");
}

#[test]
fn parser_recovers_after_an_error() {
    assert_eq!(error_types("print 1 } print 2;"), vec!["MissingPrintSemicolon".to_owned()]);
    assert_eq!(
        error_types("var ; var ;"),
        vec!["MissingVariableIdentifier".to_owned(), "MissingVariableIdentifier".to_owned()]
    );
}

#[test]
fn parser_token_without_rule_is_a_missing_expression() {
    let errs = parse("1 = 2;").unwrap_err();
    assert_eq!(errs.len(), 1);
    match &errs[0].type_ {
        ParseErrorType::MissingExpression(t) => assert_eq!(t.lexeme, "1"),
        other => panic!("unexpected error {:?}", other),
    }
}

#[test]
fn parser_for_loop_condition_needs_its_delimiter() {
    let errs = parse("for (x = 0; x < 3; x = x + 1) print x;").unwrap_err();
    assert!(matches!(errs[0].type_, ParseErrorType::MissingForConditionDelimiter));
}

#[test]
fn parser_class_and_function_declarations() {
    let stmts = parse("class A < B { m(x, y) { return x; } } fun f() { }").unwrap();
    assert_eq!(stmts.len(), 2);
    match &stmts[0] {
        Stmt::Class(c) => {
            assert_eq!(c.name.lexeme, "A");
            assert_eq!(c.superclass.as_ref().unwrap().name.lexeme, "B");
            assert_eq!(c.methods.len(), 1);
            assert_eq!(c.methods[0].params.len(), 2);
            assert_eq!(c.methods[0].body.len(), 1);
        },
        other => panic!("unexpected statement {:?}", other),
    }
    match &stmts[1] {
        Stmt::Function(f) => {
            assert_eq!(f.name.lexeme, "f");
            assert_eq!(f.params.len(), 0);
        },
        other => panic!("unexpected statement {:?}", other),
    }
}

#[test]
fn parser_example_program() {
    let example = shape_script::script::sample::get_example_001();
    let stmts = parse(&example.source).unwrap();
    assert_eq!(stmts.len(), 3);
}

#[test]
fn parser_advance_then_roll_back() {
    let mut parser = Parser::new(tokenize("a b").unwrap());
    assert!(parser.check(TokenType::Identifier));
    let t = parser.advance();
    assert_eq!(t.lexeme, "a");
    assert_eq!(parser.current, 1);
    parser.roll_back();
    assert_eq!(parser.current, 0);
    assert!(parser.match_(&[TokenType::Identifier]));
    assert!(!parser.match_(&[TokenType::Comma]));
    assert_eq!(parser.peek().lexeme, "b");
    assert_eq!(parser.previous().lexeme, "a");
    let b = parser.consume(TokenType::Identifier, ParseErrorType::MissingVariableIdentifier).unwrap();
    assert_eq!(b.lexeme, "b");
    assert!(parser.is_eof());
    // At the end of file, advance does not move.
    parser.advance();
    assert_eq!(parser.current, 2);
    assert!(!parser.check(TokenType::EOF));
    let e = parser.consume(TokenType::Semicolon, ParseErrorType::MissingPrintSemicolon).unwrap_err();
    assert_eq!(e.token.lexeme, "b");
    assert!(matches!(parser.error(ParseErrorType::MissingBlockCloseBrace).type_, ParseErrorType::MissingBlockCloseBrace));
}

#[test]
fn parser_at_most_256_parameters() {
    let params: Vec<String> = (0..256).map(|i| format!("p{}", i)).collect();
    let ok = format!("fun f({}) {{ }}", params.join(", "));
    assert!(parse(&ok).is_ok());
    let params: Vec<String> = (0..257).map(|i| format!("p{}", i)).collect();
    let too_many = format!("fun f({}) {{ }}", params.join(", "));
    assert_eq!(error_types(&too_many)[0], "FunctionTooManyParameters");
}

#[test]
fn parser_each_error_kind() {
    let cases = [
        ("class {", "MissingClassIdentifier"),
        ("class A < {", "MissingSuperclassIdentifier"),
        ("class A ;", "MissingClassOpenCurly"),
        ("class A {", "MissingClassCloseCurly"),
        ("fun (", "MissingFunctionIdentifier(Function)"),
        ("class A { 1 }", "MissingFunctionIdentifier(Method)"),
        ("fun f {", "MissingFunctionOpenParen(Function)"),
        ("fun f() ;", "MissingFunctionOpenBrace(Function)"),
        ("fun f(a {", "MissingFunctionCloseParen"),
        ("fun f(1) {}", "MissingParameterIdentifier"),
        ("var ;", "MissingVariableIdentifier"),
        ("var a }", "MissingVariableSemicolon"),
        ("for x", "MissingForOpenParen"),
        ("for (x = 0; x < 3)", "MissingForConditionDelimiter"),
        ("if x", "MissingIfOpenParen"),
        ("if (x;", "MissingIfCloseParen"),
        ("print 1 }", "MissingPrintSemicolon"),
        ("return 1 }", "MissingReturnSemicolon"),
        ("while x", "MissingWhileOpenParen"),
        ("while (x;", "MissingWhileCloseParen"),
        ("x }", "MissingExpressionStmtSemicolon"),
        ("{ print 1;", "MissingBlockCloseBrace"),
        ("a.b = 1;", "InvalidAssignmentTarget(Dot)"),
        ("a.;", "MissingPropertyIdentifier"),
        ("super;", "MissingSuperDot"),
        ("super.;", "MissingSuperPropertyIdentifier"),
        ("(1;", "MissingGroupingCloseParen"),
    ];
    for (source, expected) in cases {
        let errs = error_types(source);
        assert!(!errs.is_empty(), "no error for {:?}", source);
        assert_eq!(errs[0], expected, "first error for {:?}", source);
    }
}

#[test]
fn parser_errors_name_the_token_read_last() {
    let errs = parse("while x").unwrap_err();
    assert_eq!(errs[0].token.lexeme, "while");
    let errs = parse("{ print 1;").unwrap_err();
    assert_eq!(errs[0].token.lexeme, ";");
}

#[test]
fn parser_every_unary_operator_is_recorded_as_logical_not() {
    let stmts = parse("-x; !y;").unwrap();
    for stmt in &stmts {
        match stmt {
            Stmt::Expression(e) => match &e.expr {
                Expr::Unary(u) => assert_eq!(u.type_, UnaryOpType::LogicalNot),
                other => panic!("unexpected expression {:?}", other),
            },
            other => panic!("unexpected statement {:?}", other),
        }
    }
}
