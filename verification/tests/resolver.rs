use shape_script::script::ast::var_type::{VarDeclType, VarType};
use shape_script::script::ast::{Call, Expr, Stmt, Variable};
use shape_script::script::parser::parse_ast;
use shape_script::script::scanner::tokenize;
use shape_script::script::resolver::{LocalType, Resolver};
use shape_script::script::tokens::{Token, TokenType};
use shape_script::script::vm::chunk::{StackIndex, StackOffset, UpvalueIndex};

fn var(name: &str) -> Variable {
    Variable::new(Token::new(TokenType::Identifier, name, 1, 0))
}

fn declare(r: &mut Resolver, name: &str) -> usize {
    let slot = r.record_decl(VarDeclType::Local);
    r.push_local(name.to_string(), LocalType::Local(slot));
    slot
}

#[test]
fn resolver_global_scope_keeps_names_global() {
    let mut r = Resolver::new();
    assert!(r.is_global_scope());
    let mut v = var("a");
    r.resolve_var_expr(&mut v);
    assert_eq!(v.var_type, VarType::Global);
    assert_eq!(r.temporaries, 1);
}

#[test]
fn resolver_unknown_name_stays_global() {
    let mut r = Resolver::new();
    r.begin_scope();
    declare(&mut r, "a");
    let mut v = var("b");
    r.resolve_var_expr(&mut v);
    assert_eq!(v.var_type, VarType::Global);
}

#[test]
fn resolver_local_offsets_count_from_the_top() {
    let mut r = Resolver::new();
    r.begin_func();
    r.begin_scope();
    declare(&mut r, "e");
    declare(&mut r, "f");
    let mut f = var("f");
    r.resolve_var_expr(&mut f);
    assert_eq!(f.var_type, VarType::Local(StackOffset(0)));
    // One temporary now sits above the locals.
    let mut e = var("e");
    r.resolve_var_expr(&mut e);
    assert_eq!(e.var_type, VarType::Local(StackOffset(2)));
    assert_eq!(r.temporaries, 2);
}

#[test]
fn resolver_later_declaration_shadows() {
    let mut r = Resolver::new();
    r.begin_scope();
    declare(&mut r, "a");
    r.begin_scope();
    declare(&mut r, "a");
    declare(&mut r, "b");
    let mut a = var("a");
    r.resolve_var_expr(&mut a);
    assert_eq!(a.var_type, VarType::Local(StackOffset(1)));
}

#[test]
fn resolver_enclosing_function_local_is_captured() {
    let mut r = Resolver::new();
    r.begin_func();
    r.begin_scope();
    let d = declare(&mut r, "d");
    r.begin_func();
    r.begin_scope();
    declare(&mut r, "e");
    let mut v = var("d");
    r.resolve_var_expr(&mut v);
    assert_eq!(v.var_type, VarType::Upvalue(UpvalueIndex(0)));
    assert_eq!(r.decl_types[d], VarDeclType::Upvalue);
    assert_eq!(r.funcs[1].upvalues.len(), 1);
    assert_eq!(r.funcs[0].upvalues.len(), 0);
    let mut w = var("d");
    r.resolve_var_expr(&mut w);
    assert_eq!(w.var_type, VarType::Upvalue(UpvalueIndex(1)));
}

#[test]
fn resolver_scopes_and_counts() {
    let mut r = Resolver::new();
    assert_eq!(r.local_count(), 1);
    r.begin_scope();
    declare(&mut r, "a");
    r.begin_scope();
    declare(&mut r, "b");
    declare(&mut r, "c");
    assert_eq!(r.scopes[1].depth, 1);
    assert_eq!(r.local_count(), 4);
    assert_eq!(r.stack_index(), StackIndex(4));
    assert_eq!(r.end_scope(), 2);
    assert_eq!(r.local_count(), 2);
    r.begin_func();
    declare(&mut r, "g");
    assert_eq!(r.scopes[0].locals[1].function_depth, Some(0));
    assert_eq!(r.scopes[0].locals[0].function_depth, None);
    r.end_func();
    assert!(r.funcs.is_empty());
}

fn expression(source: &str) -> Expr {
    let mut ast = parse_ast(tokenize(source).unwrap()).unwrap();
    match ast.stmts.remove(0) {
        Stmt::Expression(e) => e.expr,
        _ => panic!("not an expression statement"),
    }
}

fn var_type_of(e: &Expr) -> VarType {
    match e {
        Expr::Variable(v) => v.var_type,
        _ => panic!("not a variable"),
    }
}

/// Inside `fun rec(n) { var m; ... return n + rec(n - 1); }`: the call slot
/// `rec`, the parameter `n` and the local `m` are on the stack.
fn function_with_local() -> Resolver {
    let mut r = Resolver::new();
    r.begin_func();
    r.begin_scope();
    r.push_local("rec".to_string(), LocalType::Call(VarDeclType::Local));
    declare(&mut r, "n");
    declare(&mut r, "m");
    r
}

#[test]
fn resolver_expression_counts_temporaries() {
    let mut r = function_with_local();
    let mut e = expression("n + rec(n - 1);");
    r.resolve_expr(&mut e);
    let b = match &e {
        Expr::Binary(b) => b,
        _ => panic!("not a binary expression"),
    };
    assert_eq!(var_type_of(&b.left), VarType::Local(StackOffset(1)));
    let call = match &*b.right {
        Expr::Call(c) => c,
        _ => panic!("not a call"),
    };
    assert_eq!(var_type_of(&call.callee), VarType::Local(StackOffset(3)));
    let arg = match &call.args[0] {
        Expr::Binary(b) => b,
        _ => panic!("not a binary expression"),
    };
    assert_eq!(var_type_of(&arg.left), VarType::Local(StackOffset(3)));
    // After the expression, the two operands of `+` are counted.
    assert_eq!(r.temporaries, 2);
}

#[test]
fn resolver_expression_leaves_property_reads() {
    let mut r = function_with_local();
    let mut e = expression("n.x;");
    r.resolve_expr(&mut e);
    match &e {
        Expr::Get(g) => assert_eq!(var_type_of(&g.expr), VarType::Global),
        _ => panic!("not a property read"),
    }
    assert_eq!(r.temporaries, 0);
}

#[test]
fn resolver_expression_arguments_reset_temporaries() {
    let mut r = function_with_local();
    let read = |name: &str| var(name).as_expr();
    let paren = Token::new(TokenType::RightParen, ")", 1, 0);
    let mut e = Call::new(read("rec"), paren, vec![read("m"), read("n"), read("m")]);
    r.resolve_expr(&mut e);
    let call = match &e {
        Expr::Call(c) => c,
        _ => panic!("not a call"),
    };
    // The callee is read with no temporary, each argument after the ones
    // before it: one temporary for the callee, then the argument's index.
    assert_eq!(var_type_of(&call.callee), VarType::Local(StackOffset(2)));
    assert_eq!(var_type_of(&call.args[0]), VarType::Local(StackOffset(1)));
    assert_eq!(var_type_of(&call.args[1]), VarType::Local(StackOffset(1)));
    assert_eq!(var_type_of(&call.args[2]), VarType::Local(StackOffset(1)));
    assert_eq!(r.temporaries, 2);
}
