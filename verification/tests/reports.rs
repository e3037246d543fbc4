use shape_script::script::errors::{display_error, display_parser_err, display_runtime_err, display_scanner_err};
use shape_script::script::interpreter::Interpreter;
use shape_script::script::parser::{AssignmentTarget, FunctionType, ParseError, ParseErrorType};
use shape_script::script::runner::{run, RunnerError};
use shape_script::script::runtime::ScriptRuntime;
use shape_script::script::scanner::ScannerError;
use shape_script::script::tokens::{Token, TokenType};
use shape_script::script::vm::debug::right_adjust;
use shape_script::script::vm::gc::ObjectId;
use shape_script::script::vm::object::{ObjClass, ObjString};
use shape_script::script::vm::vm_shape::VmShape;
use shape_script::script::vm::{CompileError, RuntimeError};
use shape_script::script::RunError;
use shape_script::shape_tree::{NodeOrShape, ShapeTree, ShapeTreeNode};
use shape_script::shapes::{Cube, Rect, Shape};

#[test]
fn token_to_string() {
    let t = Token::new(TokenType::Number, "4", 11, 3);
    assert_eq!(t.to_string(), "Number 4 11 3");
    assert_eq!(Token::new_true().to_string(), "True true 0 0");
    assert_eq!(TokenType::LeftParen.name(), "LeftParen");
}

#[test]
fn token_equality_ignores_position() {
    let a = Token::new(TokenType::Identifier, "x", 1, 2);
    let b = Token::new(TokenType::Identifier, "x", 7, 9);
    assert_eq!(a, b);
    assert!(!a._strict_eq(&b));
    assert!(a._strict_eq(&Token::new(TokenType::Identifier, "x", 1, 40)));
    assert_ne!(a, Token::new(TokenType::String, "x", 1, 2));
}

#[test]
fn report_scanner_errors() {
    let errs = vec![
        ScannerError::UnterminatedString { line: 3, col: 14 },
        ScannerError::UnexpectedChar { line: 1, col: 2, ch: '@' },
    ];
    assert_eq!(
        display_scanner_err(&errs),
        "Compile Error: Line 3 - Col 14 - \n> Unterminated String\nCompile Error: Line 1 - Col 2 - \n> Unexpected character: '@'\n"
    );
}

#[test]
fn report_parse_errors() {
    let tok = Token::new(TokenType::Identifier, "x", 2, 5);
    let errs = vec![
        ParseError { type_: ParseErrorType::MissingPrintSemicolon, token: tok.clone() },
        ParseError { type_: ParseErrorType::MissingFunctionOpenBrace(FunctionType::Method), token: tok.clone() },
        ParseError { type_: ParseErrorType::MissingExpression(tok.clone()), token: tok.clone() },
    ];
    assert_eq!(
        display_parser_err(&errs),
        "Compile Error: Line 2 - Col 5 - \n> Expect ';' after print\n\
         Compile Error: Line 2 - Col 5 - \n> Expect '}' before method name\n\
         Compile Error: Line 2 - Col 5 - \n> Expect expression (Identifier x 2 5)\n"
    );
}

#[test]
fn report_invalid_assignment_targets() {
    let tok = Token::new(TokenType::Equal, "=", 1, 4);
    let errs = vec![
        ParseError { type_: ParseErrorType::InvalidAssignmentTarget(AssignmentTarget::Dot), token: tok.clone() },
        ParseError { type_: ParseErrorType::InvalidAssignmentTarget(AssignmentTarget::Expr), token: tok.clone() },
    ];
    assert_eq!(
        display_parser_err(&errs),
        "Compile Error: Line 1 - Col 4 - \n> Invalid assignment target for '.'\n\
         Compile Error: Line 1 - Col 4 - \n> Invalid assignment target for expression\n"
    );
}

#[test]
fn report_run_errors() {
    assert_eq!(display_error(&RunError::IOError), "Unable to read source file");
    let err = RuntimeError { stack_trace: "at main".to_owned(), msg: "boom".to_owned(), line: 12 };
    assert_eq!(display_runtime_err(&err), "Runtime error: [line 12] boom \nat main");
    assert_eq!(display_error(&RunError::RuntimeError(err)), "Runtime error: [line 12] boom \nat main");
    let scan = RunError::ScannerError(vec![ScannerError::UnterminatedString { line: 1, col: 1 }]);
    assert_eq!(display_error(&scan), "Compile Error: Line 1 - Col 1 - \n> Unterminated String\n");
    let compile = CompileError { msg: "bad".to_owned() };
    assert_eq!(compile.msg, "bad");
}

#[test]
fn runtime_reports_errors() {
    let mut runtime = ScriptRuntime::new();
    assert!(!runtime.had_error);
    runtime.run_prompt();
    assert!(!runtime.had_error);
    assert_eq!(runtime.error_tokenizing(4, "bad char"), "[line 4] Error : bad char");
    assert!(runtime.had_error);
    let mut runtime = ScriptRuntime::new();
    let eof = Token::new(TokenType::EOF, "", 9, 1);
    assert_eq!(runtime.error_parsing(eof, "oops"), "[line 9] Error  at end of file: oops");
    let semi = Token::new(TokenType::Semicolon, ";", 2, 3);
    assert_eq!(runtime.error_parsing(semi, "oops"), "[line 2] Error  at 'oops': oops");
    assert!(runtime.had_error);
    assert!(!runtime.had_runtime_error);
    let interpreter = Interpreter::new(&runtime, vec![]);
    assert_eq!(interpreter.stmts.len(), 0);
    Interpreter::interpret(&runtime, vec![]);
}

#[test]
fn runner_shows_tokens() {
    let lines = run("var x;").unwrap();
    assert_eq!(lines, vec!["Var var 1 1", "Identifier x 1 5", "Semicolon ; 1 6", "EOF  1 7"]);
    match run("\"abc") {
        Err(RunnerError::ParserError(errs)) => {
            assert_eq!(errs, vec![ScannerError::UnterminatedString { line: 1, col: 5 }])
        }
        _ => panic!("expected a scanner error"),
    }
}

#[test]
fn right_adjust_pads_to_the_column() {
    let s = right_adjust("OP_RETURN");
    assert_eq!(s.len(), 9 + 1 + 51 + 2);
    assert!(s.starts_with("OP_RETURN "));
    assert!(s.ends_with(" | "));
    assert_eq!(right_adjust(""), format!(" {}| ", " ".repeat(60)));
}

#[test]
fn vm_values() {
    assert_eq!(VmShape::Rect.to_string(), "Rect");
    assert_eq!(ObjString::new("s".to_owned()).string, "s");
    assert_eq!(ObjClass::new("C".to_owned()).name, "C");
    assert_eq!(ObjectId(3), ObjectId(3));
}

#[test]
fn shape_tree_keeps_shapes_in_order() {
    let mut tree = ShapeTree::new();
    tree.add_shape(Shape::Rect(Rect {}));
    tree.add_shape(Shape::Cube(Cube {}));
    let mut node = ShapeTreeNode::new();
    assert_eq!(node.children.len(), 0);
    node.add_shape(Shape::Cube(Cube {}));
    node.add_shape(Shape::Rect(Rect {}));
    assert_eq!(node.children.len(), 2);
    assert!(matches!(node.children[0], NodeOrShape::Shape(Shape::Cube(_))));
    assert!(matches!(node.children[1], NodeOrShape::Shape(Shape::Rect(_))));
}

#[test]
fn token_constructors() {
    let f = Token::new_false();
    assert_eq!(f.type_, TokenType::False);
    assert_eq!(f.lexeme, "false");
    assert_eq!((f.line, f.col), (0, 0));
}
