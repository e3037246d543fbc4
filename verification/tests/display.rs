use shape_script::script::ast::display::{display, is_displayable, spaces, AstRef};
use shape_script::script::ast::{Ast, Expr, VarType, Variable};
use shape_script::script::tokens::{Token, TokenType};
use shape_script::script::vm::chunk::{StackOffset, UpvalueIndex};
use shape_script::script::parser::parse_ast;
use shape_script::script::scanner::tokenize;

fn ast(source: &str) -> Ast {
    parse_ast(tokenize(source).unwrap()).unwrap()
}

#[test]
fn display_binary_expression_with_labels() {
    let text = ast("print 1 + 2;").to_string();
    assert_eq!(
        text,
        "Ast\n    Print Stmt\n        Binary op (+)\n            Left:  Literal (1)\n            Right: Literal (2)\n"
    );
}

#[test]
fn display_variable_read() {
    let text = ast("x;").to_string();
    assert_eq!(text, "Ast\n    Expr Stmt\n        Variable (x, type: Global)\n");
}

#[test]
fn display_declarations() {
    let text = ast("var a = 1; var b; fun f() { }").to_string();
    assert_eq!(
        text,
        "Ast\n    Variable (a)\n        Initializer: Literal (1)\n    Variable (b)\n    Function (f, type: Global)\n"
    );
}

#[test]
fn display_while_loop() {
    let text = ast("while (x) print 1;").to_string();
    assert_eq!(
        text,
        "Ast\n    While Stmt\n        Condition: Variable (x, type: Global)\n        Body:      Print Stmt\n            Literal (1)\n"
    );
}

#[test]
fn display_call_and_class() {
    let text = ast("class A { m() { return this; } } f(1);").to_string();
    assert_eq!(
        text,
        "Ast\n    Class (A)\n        Method: Function (m, type: Global)\n            Return Stmt\n                This\n    Expr Stmt\n        Call\n            Callee: Variable (f, type: Global)\n            Arg:    Literal (1)\n"
    );
}

#[test]
fn display_class_with_superclass_cannot_be_shown() {
    let tree = ast("class A < B { }");
    assert!(!tree.is_displayable());
    assert!(!is_displayable(tree.stmts[0].as_ast()));
    assert!(ast("class A { }").is_displayable());
}

#[test]
fn display_single_node_at_depth() {
    let tree = ast("print -x;");
    let mut out = String::new();
    display(&mut out, tree.stmts[0].as_ast(), 2, Some("Label: ".to_owned()));
    assert_eq!(
        out,
        "        Label: Print Stmt\n            Unary op (-)\n                Right: Variable (x, type: Global)\n"
    );
}

#[test]
fn display_spaces_per_level() {
    assert_eq!(spaces(0), "");
    assert_eq!(spaces(3), "            ");
}

#[test]
fn display_empty_program() {
    assert_eq!(ast("").to_string(), "Ast\n");
}

#[test]
fn display_resolved_variables_show_their_slot() {
    let name = Token::new(TokenType::Identifier, "x", 1, 0);
    let local = Expr::Variable(Variable { name: name.clone(), var_type: VarType::Local(StackOffset(3)) });
    let mut out = String::new();
    display(&mut out, AstRef::Expr(&local), 0, None);
    assert_eq!(out, "Variable (x, type: Local, index: 3)\n");

    let upvalue = Expr::Variable(Variable { name, var_type: VarType::Upvalue(UpvalueIndex(120)) });
    let mut out = String::new();
    display(&mut out, AstRef::Expr(&upvalue), 1, None);
    assert_eq!(out, "    Variable (x, type: Upvalue, index: 120)\n");
}
