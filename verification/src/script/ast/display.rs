use vstd::prelude::*;

use crate::script::ast::expr::{
    exprs_view, lemma_exprs_view_index, lemma_exprs_view_len, Expr, SExpr, SVariable, Variable,
};
use crate::script::ast::stmt::{
    functions_view, lemma_functions_view_index, lemma_functions_view_len, lemma_stmts_view_index,
    lemma_stmts_view_len, stmts_view, Class, FunctionStmt, IfStmt, SFunction, SStmt, Stmt,
};
use crate::script::ast::var_type::VarType;
use crate::script::ast::{Ast, AstDisplay, DisplayArgs, WalkArgs};
use crate::script::text::{decimal, push_decimal, push_spaces, push_str, spaces_seq};

verus! {

// ---------------------------------------------------------------------------
// The tree as it is shown: each node on a line of its own, indented four
// spaces per level, after the label its parent gives it.
// ---------------------------------------------------------------------------

/// A node of the syntax tree, as a mathematical value.
pub enum SNode {
    Stmt(SStmt),
    Expr(SExpr),
    Function(SFunction),
    Variable(SVariable),
}

pub open spec fn var_type_text(v: VarType) -> Seq<char> {
    match v {
        VarType::Global => "Global"@,
        VarType::Upvalue(_) => "Upvalue"@,
        VarType::Local(_) => "Local"@,
    }
}

/// The slot of a variable that is not global.
pub open spec fn var_index_text(v: VarType) -> Seq<char> {
    match v {
        VarType::Global => Seq::empty(),
        VarType::Upvalue(i) => ", index: "@ + decimal(i.0 as nat),
        VarType::Local(i) => ", index: "@ + decimal(i.0 as nat),
    }
}

pub open spec fn variable_primary(v: SVariable) -> Seq<char> {
    "Variable ("@ + v.name.lexeme + ", type: "@ + var_type_text(v.var_type) + var_index_text(
        v.var_type,
    ) + ")"@
}

pub open spec fn function_primary(f: SFunction) -> Seq<char> {
    "Function ("@ + f.name.lexeme + ", type: "@ + var_type_text(f.var_type) + ")"@
}

/// The line a node is shown on, without indentation and label.
pub open spec fn node_primary(n: SNode) -> Seq<char> {
    match n {
        SNode::Stmt(s) => match s {
            SStmt::Block { .. } => "Block"@,
            SStmt::Class { name, .. } => "Class ("@ + name.lexeme + ")"@,
            SStmt::Expression { .. } => "Expr Stmt"@,
            SStmt::Function { func } => function_primary(func),
            SStmt::If { .. } => "If Stmt"@,
            SStmt::Print { .. } => "Print Stmt"@,
            SStmt::Return { .. } => "Return Stmt"@,
            SStmt::Var { name, .. } => "Variable ("@ + name.lexeme + ")"@,
            SStmt::While { .. } => "While Stmt"@,
        },
        SNode::Expr(e) => match e {
            SExpr::Assign { .. } => "Assign"@,
            SExpr::Binary { operator, .. } => "Binary op ("@ + operator.lexeme + ")"@,
            SExpr::Call { .. } => "Call"@,
            SExpr::Get { name, .. } => "Get "@ + name.lexeme,
            SExpr::Grouping { .. } => "Grouping"@,
            SExpr::Literal { value, .. } => "Literal ("@ + value.lexeme + ")"@,
            SExpr::Logical { operator, .. } => "Logical op ("@ + operator.lexeme + ")"@,
            SExpr::Rect { .. } => "Rect decl"@,
            SExpr::SetProperty { .. } => "Set"@,
            SExpr::Super { .. } => "Super"@,
            SExpr::This { .. } => "This"@,
            SExpr::Unary { operator, .. } => "Unary op ("@ + operator.lexeme + ")"@,
            SExpr::Variable { var } => variable_primary(var),
        },
        SNode::Function(f) => function_primary(f),
        SNode::Variable(v) => variable_primary(v),
    }
}

/// `n` copies of `label`.
pub open spec fn repeated(n: nat, label: Seq<char>) -> Seq<Seq<char>> {
    Seq::new(n, |i: int| label)
}

/// The labels a node gives its children, where it gives any.
pub open spec fn node_labels(n: SNode) -> Option<Seq<Seq<char>>> {
    match n {
        SNode::Stmt(s) => match s {
            SStmt::Class { methods, .. } => Some(repeated(methods.len(), "Method: "@)),
            SStmt::Var { initializer, .. } => match initializer {
                Some(_) => Some(seq!["Initializer: "@]),
                None => None,
            },
            SStmt::While { .. } => Some(seq!["Condition: "@, "Body:      "@]),
            _ => None,
        },
        SNode::Expr(e) => match e {
            SExpr::Assign { .. } => Some(seq!["= "@]),
            SExpr::Binary { .. } => Some(seq!["Left:  "@, "Right: "@]),
            SExpr::Call { args, .. } => Some(seq!["Callee: "@] + repeated(args.len(), "Arg:    "@)),
            SExpr::Logical { .. } => Some(seq!["Left:  "@, "Right: "@]),
            SExpr::Unary { .. } => Some(seq!["Right: "@]),
            _ => None,
        },
        _ => None,
    }
}

pub open spec fn stmt_nodes(s: Seq<SStmt>) -> Seq<SNode> {
    s.map_values(|x: SStmt| SNode::Stmt(x))
}

pub open spec fn expr_nodes(s: Seq<SExpr>) -> Seq<SNode> {
    s.map_values(|x: SExpr| SNode::Expr(x))
}

pub open spec fn function_nodes(s: Seq<SFunction>) -> Seq<SNode> {
    s.map_values(|x: SFunction| SNode::Function(x))
}

/// The children of a node, in the order they are shown.
pub open spec fn node_children(n: SNode) -> Seq<SNode> {
    match n {
        SNode::Stmt(s) => match s {
            SStmt::Block { stmts, .. } => stmt_nodes(stmts),
            SStmt::Class { superclass, methods, .. } => match superclass {
                Some(v) => seq![SNode::Variable(v)] + function_nodes(methods),
                None => function_nodes(methods),
            },
            SStmt::Expression { expr } => seq![SNode::Expr(expr)],
            SStmt::Function { func } => stmt_nodes(func.body),
            SStmt::If { condition, then_branch, else_branch } => match else_branch {
                Some(e) => seq![SNode::Expr(condition), SNode::Stmt(*then_branch), SNode::Stmt(*e)],
                None => seq![SNode::Expr(condition), SNode::Stmt(*then_branch)],
            },
            SStmt::Print { expr } => seq![SNode::Expr(expr)],
            SStmt::Return { value, .. } => match value {
                Some(v) => seq![SNode::Expr(v)],
                None => Seq::empty(),
            },
            SStmt::Var { initializer, .. } => match initializer {
                Some(v) => seq![SNode::Expr(v)],
                None => Seq::empty(),
            },
            SStmt::While { condition, body } => seq![SNode::Expr(condition), SNode::Stmt(*body)],
        },
        SNode::Expr(e) => match e {
            SExpr::Assign { value, .. } => seq![SNode::Expr(*value)],
            SExpr::Binary { left, right, .. } => seq![SNode::Expr(*left), SNode::Expr(*right)],
            SExpr::Call { callee, args, .. } => seq![SNode::Expr(*callee)] + expr_nodes(args),
            SExpr::Get { expr, .. } => seq![SNode::Expr(*expr)],
            SExpr::Grouping { expr } => seq![SNode::Expr(*expr)],
            SExpr::Logical { left, right, .. } => seq![SNode::Expr(*left), SNode::Expr(*right)],
            SExpr::SetProperty { target, value, .. } => seq![
                SNode::Expr(*target),
                SNode::Expr(*value),
            ],
            SExpr::Unary { right, .. } => seq![SNode::Expr(*right)],
            _ => Seq::empty(),
        },
        SNode::Function(f) => stmt_nodes(f.body),
        SNode::Variable(_) => Seq::empty(),
    }
}

// ---------------------------------------------------------------------------
// Sizes: every child is smaller than its parent.
// ---------------------------------------------------------------------------

pub open spec fn expr_size(e: SExpr) -> nat
    decreases e, 0nat,
{
    1 + match e {
        SExpr::Assign { value, .. } => expr_size(*value),
        SExpr::Binary { left, right, .. } => expr_size(*left) + expr_size(*right),
        SExpr::Call { callee, args, .. } => expr_size(*callee) + exprs_size(args),
        SExpr::Get { expr, .. } => expr_size(*expr),
        SExpr::Grouping { expr } => expr_size(*expr),
        SExpr::Logical { left, right, .. } => expr_size(*left) + expr_size(*right),
        SExpr::SetProperty { target, value, .. } => expr_size(*target) + expr_size(*value),
        SExpr::Unary { right, .. } => expr_size(*right),
        _ => 0,
    }
}

pub open spec fn exprs_size(s: Seq<SExpr>) -> nat
    decreases s, 1nat,
{
    if s.len() == 0 {
        0
    } else {
        exprs_size(s.subrange(0, s.len() - 1)) + expr_size(s[s.len() - 1])
    }
}

pub open spec fn stmt_size(s: SStmt) -> nat
    decreases s, 0nat,
{
    1 + match s {
        SStmt::Block { stmts, .. } => stmts_size(stmts),
        SStmt::Class { superclass, methods, .. } => functions_size(methods) + if superclass is Some {
            1nat
        } else {
            0nat
        },
        SStmt::Expression { expr } => expr_size(expr),
        SStmt::Function { func } => function_size(func),
        SStmt::If { condition, then_branch, else_branch } => expr_size(condition) + stmt_size(
            *then_branch,
        ) + match else_branch {
            Some(e) => stmt_size(*e),
            None => 0,
        },
        SStmt::Print { expr } => expr_size(expr),
        SStmt::Return { value, .. } => match value {
            Some(v) => expr_size(v),
            None => 0,
        },
        SStmt::Var { initializer, .. } => match initializer {
            Some(v) => expr_size(v),
            None => 0,
        },
        SStmt::While { condition, body } => expr_size(condition) + stmt_size(*body),
    }
}

pub open spec fn stmts_size(s: Seq<SStmt>) -> nat
    decreases s, 1nat,
{
    if s.len() == 0 {
        0
    } else {
        stmts_size(s.subrange(0, s.len() - 1)) + stmt_size(s[s.len() - 1])
    }
}

pub open spec fn function_size(f: SFunction) -> nat
    decreases f, 0nat,
{
    1 + stmts_size(f.body)
}

pub open spec fn functions_size(s: Seq<SFunction>) -> nat
    decreases s, 1nat,
{
    if s.len() == 0 {
        0
    } else {
        functions_size(s.subrange(0, s.len() - 1)) + function_size(s[s.len() - 1])
    }
}

/// The number of nodes under and including `n`.
pub open spec fn node_size(n: SNode) -> nat {
    match n {
        SNode::Stmt(s) => stmt_size(s),
        SNode::Expr(e) => expr_size(e),
        SNode::Function(f) => function_size(f),
        SNode::Variable(_) => 1,
    }
}

proof fn lemma_exprs_size_elem(s: Seq<SExpr>, i: int)
    requires
        0 <= i < s.len(),
    ensures
        expr_size(s[i]) <= exprs_size(s),
    decreases s.len(),
{
    if i < s.len() - 1 {
        lemma_exprs_size_elem(s.subrange(0, s.len() - 1), i);
    }
}

proof fn lemma_stmts_size_elem(s: Seq<SStmt>, i: int)
    requires
        0 <= i < s.len(),
    ensures
        stmt_size(s[i]) <= stmts_size(s),
    decreases s.len(),
{
    if i < s.len() - 1 {
        lemma_stmts_size_elem(s.subrange(0, s.len() - 1), i);
    }
}

proof fn lemma_functions_size_elem(s: Seq<SFunction>, i: int)
    requires
        0 <= i < s.len(),
    ensures
        function_size(s[i]) <= functions_size(s),
    decreases s.len(),
{
    if i < s.len() - 1 {
        lemma_functions_size_elem(s.subrange(0, s.len() - 1), i);
    }
}

/// Every child of a node is smaller than the node.
pub proof fn lemma_children_smaller(n: SNode, i: int)
    requires
        0 <= i < node_children(n).len(),
    ensures
        node_size(node_children(n)[i]) < node_size(n),
{
    let c = node_children(n)[i];
    match n {
        SNode::Stmt(s) => match s {
            SStmt::Block { stmts, .. } => {
                lemma_stmts_size_elem(stmts, i);
                assert(c == SNode::Stmt(stmts[i]));
                assert(node_size(c) < node_size(n));
            },
            SStmt::Class { superclass, methods, .. } => {
                if superclass is Some {
                    if i > 0 {
                        lemma_functions_size_elem(methods, i - 1);
                        assert(c == SNode::Function(methods[i - 1]));
                    } else {
                        assert(c == SNode::Variable(superclass->0));
                    }
                } else {
                    lemma_functions_size_elem(methods, i);
                    assert(c == SNode::Function(methods[i]));
                }
                assert(node_size(c) < node_size(n));
            },
            SStmt::Function { func } => {
                lemma_stmts_size_elem(func.body, i);
                assert(c == SNode::Stmt(func.body[i]));
                assert(function_size(func) == 1 + stmts_size(func.body));
                assert(node_size(c) < node_size(n));
            },
            _ => {
                assert(node_size(c) < node_size(n));
            },
        },
        SNode::Expr(e) => match e {
            SExpr::Call { callee, args, .. } => {
                if i > 0 {
                    lemma_exprs_size_elem(args, i - 1);
                    assert(c == SNode::Expr(args[i - 1]));
                } else {
                    assert(c == SNode::Expr(*callee));
                }
                assert(node_size(c) < node_size(n));
            },
            _ => {
                assert(node_size(c) < node_size(n));
            },
        },
        SNode::Function(f) => {
            lemma_stmts_size_elem(f.body, i);
            assert(c == SNode::Stmt(f.body[i]));
            assert(node_size(c) < node_size(n));
        },
        SNode::Variable(_) => {},
    }
}

// ---------------------------------------------------------------------------
// The text of a tree.
// ---------------------------------------------------------------------------

/// Every node of the tree that gives labels gives one per child; a class
/// with a superclass does not (it labels its methods only), and showing it
/// fails.
pub open spec fn displayable(n: SNode) -> bool
    decreases node_size(n), 1nat, 0nat,
{
    &&& (node_labels(n) matches Some(ls) ==> ls.len() == node_children(n).len())
    &&& children_displayable(n, 0)
}

/// The children of `n` from the `i`-th on can be shown.
pub open spec fn children_displayable(n: SNode, i: nat) -> bool
    decreases node_size(n), 0nat, node_children(n).len() - i,
{
    if i >= node_children(n).len() {
        true
    } else {
        proof {
            lemma_children_smaller(n, i as int);
        }
        displayable(node_children(n)[i as int]) && children_displayable(n, i + 1)
    }
}

proof fn lemma_children_displayable(n: SNode, k: nat, i: int)
    requires
        children_displayable(n, k),
        k <= i < node_children(n).len(),
    ensures
        displayable(node_children(n)[i]),
    decreases i - k,
{
    if k < i {
        lemma_children_displayable(n, k + 1, i);
    }
}

/// The label of child `i`, or nothing.
pub open spec fn child_prefix(n: SNode, i: int) -> Seq<char> {
    match node_labels(n) {
        Some(ls) => ls[i],
        None => Seq::empty(),
    }
}

/// The line of a node at `depth`, after `prefix`.
pub open spec fn node_line(n: SNode, depth: nat, prefix: Seq<char>) -> Seq<char> {
    spaces_seq(depth * 4) + prefix + node_primary(n) + "\n"@
}

/// A node and, under it, its children from the first.
pub open spec fn node_text(n: SNode, depth: nat, prefix: Seq<char>) -> Seq<char>
    decreases node_size(n), 1nat, 0nat,
{
    node_line(n, depth, prefix) + children_text(n, depth + 1, 0)
}

/// The children of `n` from the `i`-th on, at `depth`.
pub open spec fn children_text(n: SNode, depth: nat, i: nat) -> Seq<char>
    decreases node_size(n), 0nat, node_children(n).len() - i,
{
    if i >= node_children(n).len() {
        Seq::empty()
    } else {
        proof {
            lemma_children_smaller(n, i as int);
        }
        node_text(node_children(n)[i as int], depth, child_prefix(n, i as int)) + children_text(
            n,
            depth,
            i + 1,
        )
    }
}

/// A node shown with two children, `a` under the label `la` and then `b`
/// under the label `lb`, one level down.
pub open spec fn shown_with_two(
    n: SNode,
    depth: nat,
    prefix: Seq<char>,
    a: SNode,
    la: Seq<char>,
    b: SNode,
    lb: Seq<char>,
) -> Seq<char> {
    node_line(n, depth, prefix) + node_text(a, depth + 1, la) + node_text(b, depth + 1, lb)
}

/// Law: a node with two parts shows them one level down in the order they
/// stand in the source, each under its own label: a binary or logical
/// operation its left operand under `Left:  ` and then its right operand under
/// `Right: `; a property assignment its object and then the value; a `while`
/// loop its condition under `Condition: ` and then its body under `Body:      `;
/// an `if` without `else` its condition and then its branch.
pub proof fn law_parts_in_source_order(n: SNode, depth: nat, prefix: Seq<char>)
    ensures
        n matches SNode::Expr(SExpr::Binary { left, right, .. }) ==> node_text(n, depth, prefix)
            == shown_with_two(
            n,
            depth,
            prefix,
            SNode::Expr(*left),
            "Left:  "@,
            SNode::Expr(*right),
            "Right: "@,
        ),
        n matches SNode::Expr(SExpr::Logical { left, right, .. }) ==> node_text(n, depth, prefix)
            == shown_with_two(
            n,
            depth,
            prefix,
            SNode::Expr(*left),
            "Left:  "@,
            SNode::Expr(*right),
            "Right: "@,
        ),
        n matches SNode::Expr(SExpr::SetProperty { target, value, .. }) ==> node_text(
            n,
            depth,
            prefix,
        ) == shown_with_two(
            n,
            depth,
            prefix,
            SNode::Expr(*target),
            Seq::empty(),
            SNode::Expr(*value),
            Seq::empty(),
        ),
        n matches SNode::Stmt(SStmt::While { condition, body }) ==> node_text(n, depth, prefix)
            == shown_with_two(
            n,
            depth,
            prefix,
            SNode::Expr(condition),
            "Condition: "@,
            SNode::Stmt(*body),
            "Body:      "@,
        ),
        n matches SNode::Stmt(SStmt::If { condition, then_branch, else_branch: None })
            ==> node_text(n, depth, prefix) == shown_with_two(
            n,
            depth,
            prefix,
            SNode::Expr(condition),
            Seq::empty(),
            SNode::Stmt(*then_branch),
            Seq::empty(),
        ),
{
    if node_children(n).len() == 2 {
        lemma_two_children(n, depth, prefix);
    }
}

/// Law: a node with one part shows it one level down under its label: an
/// assignment its value under `= `, a unary operation its operand under
/// `Right: `, a grouping, a property read, an expression statement and a
/// `print` statement their expression; an `if` with `else` shows its
/// condition, then its branch, then its `else` branch.
pub proof fn law_single_part_and_if_else(n: SNode, depth: nat, prefix: Seq<char>)
    ensures
        n matches SNode::Expr(SExpr::Assign { value, .. }) ==> node_text(n, depth, prefix)
            == node_line(n, depth, prefix) + node_text(SNode::Expr(*value), depth + 1, "= "@),
        n matches SNode::Expr(SExpr::Unary { right, .. }) ==> node_text(n, depth, prefix)
            == node_line(n, depth, prefix) + node_text(SNode::Expr(*right), depth + 1, "Right: "@),
        n matches SNode::Expr(SExpr::Grouping { expr }) ==> node_text(n, depth, prefix)
            == node_line(n, depth, prefix) + node_text(SNode::Expr(*expr), depth + 1, Seq::empty()),
        n matches SNode::Expr(SExpr::Get { expr, .. }) ==> node_text(n, depth, prefix)
            == node_line(n, depth, prefix) + node_text(SNode::Expr(*expr), depth + 1, Seq::empty()),
        n matches SNode::Stmt(SStmt::Expression { expr }) ==> node_text(n, depth, prefix)
            == node_line(n, depth, prefix) + node_text(SNode::Expr(expr), depth + 1, Seq::empty()),
        n matches SNode::Stmt(SStmt::Print { expr }) ==> node_text(n, depth, prefix)
            == node_line(n, depth, prefix) + node_text(SNode::Expr(expr), depth + 1, Seq::empty()),
        n matches SNode::Stmt(SStmt::If { condition, then_branch, else_branch: Some(e) })
            ==> node_text(n, depth, prefix) == node_line(n, depth, prefix) + node_text(
            SNode::Expr(condition),
            depth + 1,
            Seq::empty(),
        ) + node_text(SNode::Stmt(*then_branch), depth + 1, Seq::empty()) + node_text(
            SNode::Stmt(*e),
            depth + 1,
            Seq::empty(),
        ),
{
    let c = node_children(n);
    let d = depth + 1;
    if c.len() == 1 {
        assert(children_text(n, d, 1) == Seq::<char>::empty());
        assert(children_text(n, d, 0) == node_text(c[0], d, child_prefix(n, 0)) + children_text(n, d, 1));
        assert(children_text(n, d, 0) =~= node_text(c[0], d, child_prefix(n, 0)));
    }
    if c.len() == 3 {
        assert(children_text(n, d, 3) == Seq::<char>::empty());
        assert(children_text(n, d, 2) == node_text(c[2], d, child_prefix(n, 2)) + children_text(n, d, 3));
        assert(children_text(n, d, 1) == node_text(c[1], d, child_prefix(n, 1)) + children_text(n, d, 2));
        assert(children_text(n, d, 0) == node_text(c[0], d, child_prefix(n, 0)) + children_text(n, d, 1));
        assert(node_line(n, depth, prefix) + children_text(n, d, 0) =~= node_line(n, depth, prefix)
            + node_text(c[0], d, child_prefix(n, 0)) + node_text(c[1], d, child_prefix(n, 1))
            + node_text(c[2], d, child_prefix(n, 2)));
    }
}

/// The nodes of `nodes` from the `i`-th on, each shown at `depth` under
/// `label`, one after the other.
pub open spec fn labelled_texts(nodes: Seq<SNode>, depth: nat, label: Seq<char>, i: nat) -> Seq<char>
    decreases nodes.len() - i,
{
    if i >= nodes.len() {
        Seq::empty()
    } else {
        node_text(nodes[i as int], depth, label) + labelled_texts(nodes, depth, label, i + 1)
    }
}

proof fn lemma_call_children(n: SNode, d: nat, i: nat)
    requires
        n matches SNode::Expr(SExpr::Call { .. }),
        1 <= i <= node_children(n).len(),
    ensures
        children_text(n, d, i) == labelled_texts(
            expr_nodes(n->Expr_0->Call_args),
            d,
            "Arg:    "@,
            (i - 1) as nat,
        ),
    decreases node_children(n).len() - i,
{
    let args = n->Expr_0->Call_args;
    let c = node_children(n);
    let a = expr_nodes(args);
    assert(c.len() == a.len() + 1);
    if i < c.len() {
        lemma_call_children(n, d, i + 1);
        assert(c[i as int] == a[i - 1]);
        assert(child_prefix(n, i as int) == "Arg:    "@);
    }
}

/// Law: a call shows its callee under `Callee: ` and then its arguments in
/// the order they are written, each under `Arg:    `.
pub proof fn law_call_parts_in_order(n: SNode, depth: nat, prefix: Seq<char>)
    ensures
        n matches SNode::Expr(SExpr::Call { callee, args, .. }) ==> node_text(n, depth, prefix)
            == node_line(n, depth, prefix) + node_text(SNode::Expr(*callee), depth + 1, "Callee: "@)
            + labelled_texts(expr_nodes(args), depth + 1, "Arg:    "@, 0),
{
    if n matches SNode::Expr(SExpr::Call { .. }) {
        let d = depth + 1;
        let c = node_children(n);
        lemma_call_children(n, d, 1);
        assert(children_text(n, d, 0) == node_text(c[0], d, child_prefix(n, 0)) + children_text(n, d, 1));
        assert(node_line(n, depth, prefix) + children_text(n, d, 0) =~= node_line(n, depth, prefix)
            + node_text(c[0], d, child_prefix(n, 0)) + children_text(n, d, 1));
    }
}

/// A node with two children is shown as its line and then each child under
/// its label.
proof fn lemma_two_children(n: SNode, depth: nat, prefix: Seq<char>)
    requires
        node_children(n).len() == 2,
    ensures
        node_text(n, depth, prefix) == node_line(n, depth, prefix) + node_text(
            node_children(n)[0],
            depth + 1,
            child_prefix(n, 0),
        ) + node_text(node_children(n)[1], depth + 1, child_prefix(n, 1)),
{
    let c = node_children(n);
    let d = depth + 1;
    assert(children_text(n, d, 2) == Seq::<char>::empty());
    assert(children_text(n, d, 1) == node_text(c[1], d, child_prefix(n, 1)) + children_text(n, d, 2));
    assert(children_text(n, d, 0) == node_text(c[0], d, child_prefix(n, 0)) + children_text(n, d, 1));
    assert(children_text(n, d, 1) =~= node_text(c[1], d, child_prefix(n, 1)));
    assert(node_line(n, depth, prefix) + children_text(n, d, 0) =~= node_line(n, depth, prefix)
        + node_text(c[0], d, child_prefix(n, 0)) + node_text(c[1], d, child_prefix(n, 1)));
}

/// A program: `Ast` and then each statement, one level down.
pub open spec fn ast_text(stmts: Seq<SStmt>) -> Seq<char> {
    "Ast\n"@ + stmts_text(stmts)
}

pub open spec fn stmts_text(stmts: Seq<SStmt>) -> Seq<char>
    decreases stmts.len(),
{
    if stmts.len() == 0 {
        Seq::empty()
    } else {
        stmts_text(stmts.drop_last()) + node_text(SNode::Stmt(stmts.last()), 1, Seq::empty())
    }
}


// ---------------------------------------------------------------------------
// Showing a tree.
// ---------------------------------------------------------------------------

/// A node of the syntax tree, borrowed.
#[derive(Clone, Copy)]
pub enum AstRef<'a> {
    Stmt(&'a Stmt),
    Expr(&'a Expr),
    Function(&'a FunctionStmt),
    Variable(&'a Variable),
}

impl<'a> View for AstRef<'a> {
    type V = SNode;

    open spec fn view(&self) -> SNode {
        match *self {
            AstRef::Stmt(s) => SNode::Stmt(s@),
            AstRef::Expr(e) => SNode::Expr(e@),
            AstRef::Function(f) => SNode::Function(f@),
            AstRef::Variable(v) => SNode::Variable(v@),
        }
    }
}

pub open spec fn refs_view<'a>(v: Seq<AstRef<'a>>) -> Seq<SNode> {
    v.map_values(|a: AstRef<'a>| a@)
}

proof fn lemma_refs_view_push<'a>(s: Seq<AstRef<'a>>, x: AstRef<'a>)
    ensures
        refs_view(s.push(x)) == refs_view(s).push(x@),
{
    assert(refs_view(s.push(x)) =~= refs_view(s).push(x@));
}

/// `v` holds the labels `ls`, where there are any.
pub open spec fn labels_agree(v: Option<Vec<String>>, ls: Option<Seq<Seq<char>>>) -> bool {
    match v {
        Some(v) => ls matches Some(ls) && v@.len() == ls.len() && forall|i: int|
            0 <= i < ls.len() ==> (#[trigger] v@[i])@ == ls[i],
        None => ls is None,
    }
}

impl Stmt {
    pub fn as_ast(&self) -> (r: AstRef<'_>)
        ensures
            r@ == SNode::Stmt(self@),
    {
        AstRef::Stmt(self)
    }
}

impl Expr {
    pub fn as_ast(&self) -> (r: AstRef<'_>)
        ensures
            r@ == SNode::Expr(self@),
    {
        AstRef::Expr(self)
    }
}

fn owned(s: &str) -> (r: String)
    ensures
        r@ == s@,
{
    s.to_owned()
}

/// `n` copies of `label`.
fn repeated_labels(n: usize, label: &str) -> (r: Vec<String>)
    ensures
        r@.len() == n,
        forall|i: int| 0 <= i < n ==> (#[trigger] r@[i])@ == label@,
{
    let mut v: Vec<String> = Vec::new();
    let mut i: usize = 0;
    while i < n
        invariant
            i <= n,
            v@.len() == i,
            forall|j: int| 0 <= j < i ==> (#[trigger] v@[j])@ == label@,
        decreases n - i,
    {
        v.push(owned(label));
        i = i + 1;
    }
    v
}

fn one_label(a: &str) -> (r: Option<Vec<String>>)
    ensures
        labels_agree(r, Some(seq![a@])),
{
    let mut v: Vec<String> = Vec::new();
    v.push(owned(a));
    Some(v)
}

fn two_labels(a: &str, b: &str) -> (r: Option<Vec<String>>)
    ensures
        labels_agree(r, Some(seq![a@, b@])),
{
    let mut v: Vec<String> = Vec::new();
    v.push(owned(a));
    v.push(owned(b));
    Some(v)
}

/// `before`, the lexeme of `name`, and `after`.
fn framed(before: &str, name: &String, after: &str) -> (r: String)
    ensures
        r@ == before@ + name@ + after@,
{
    let mut s = String::new();
    push_str(&mut s, before);
    push_str(&mut s, name.as_str());
    push_str(&mut s, after);
    s
}

fn push_var_type(s: &mut String, v: VarType)
    ensures
        final(s)@ == old(s)@ + var_type_text(v),
{
    push_str(s, v.display_name());
}

fn variable_line(v: &Variable) -> (r: String)
    ensures
        r@ == variable_primary(v@),
{
    let mut s = String::new();
    push_str(&mut s, "Variable (");
    push_str(&mut s, v.name.lexeme.as_str());
    push_str(&mut s, ", type: ");
    push_var_type(&mut s, v.var_type);
    match v.var_type {
        VarType::Global => {},
        VarType::Upvalue(index) => {
            push_str(&mut s, ", index: ");
            push_decimal(&mut s, index.0);
        },
        VarType::Local(index) => {
            push_str(&mut s, ", index: ");
            push_decimal(&mut s, index.0);
        },
    }
    push_str(&mut s, ")");
    assert(s@ =~= variable_primary(v@));
    s
}

fn function_line(f: &FunctionStmt) -> (r: String)
    ensures
        r@ == function_primary(f@),
{
    let mut s = String::new();
    push_str(&mut s, "Function (");
    push_str(&mut s, f.name.lexeme.as_str());
    push_str(&mut s, ", type: ");
    push_var_type(&mut s, f.var_type);
    push_str(&mut s, ")");
    s
}

fn stmt_display(s: &Stmt) -> (r: (String, Option<Vec<String>>))
    ensures
        r.0@ == node_primary(SNode::Stmt(s@)),
        labels_agree(r.1, node_labels(SNode::Stmt(s@))),
{
    match s {
        Stmt::Block(_) => (owned("Block"), None),
        Stmt::Class(c) => {
            proof {
                lemma_functions_view_len((*c.methods)@);
            }
            let labels = repeated_labels(c.methods.len(), "Method: ");
            assert(labels_agree(Some(labels), node_labels(SNode::Stmt(s@))));
            (framed("Class (", &c.name.lexeme, ")"), Some(labels))
        },
        Stmt::Expression(_) => (owned("Expr Stmt"), None),
        Stmt::Function(f) => (function_line(f), None),
        Stmt::If(_) => (owned("If Stmt"), None),
        Stmt::Print(_) => (owned("Print Stmt"), None),
        Stmt::Return(_) => (owned("Return Stmt"), None),
        Stmt::Var(v) => {
            let labels = match v.initializer {
                Some(_) => one_label("Initializer: "),
                None => None,
            };
            (framed("Variable (", &v.name.lexeme, ")"), labels)
        },
        Stmt::While(_) => (owned("While Stmt"), two_labels("Condition: ", "Body:      ")),
    }
}

fn expr_display(e: &Expr) -> (r: (String, Option<Vec<String>>))
    ensures
        r.0@ == node_primary(SNode::Expr(e@)),
        labels_agree(r.1, node_labels(SNode::Expr(e@))),
{
    match e {
        Expr::Assign(_) => (owned("Assign"), one_label("= ")),
        Expr::Binary(b) => (
            framed("Binary op (", &b.operator.lexeme, ")"),
            two_labels("Left:  ", "Right: "),
        ),
        Expr::Call(c) => {
            proof {
                lemma_exprs_view_len((*c.args)@);
            }
            let mut labels: Vec<String> = Vec::new();
            labels.push(owned("Callee: "));
            let mut i: usize = 0;
            while i < c.args.len()
                invariant
                    i <= c.args@.len(),
                    labels@.len() == i + 1,
                    labels@[0]@ == "Callee: "@,
                    forall|j: int| 1 <= j <= i ==> (#[trigger] labels@[j])@ == "Arg:    "@,
                decreases c.args@.len() - i,
            {
                labels.push(owned("Arg:    "));
                i = i + 1;
            }
            let ghost ls = seq!["Callee: "@] + repeated(c.args@.len(), "Arg:    "@);
            assert forall|j: int| 0 <= j < ls.len() implies (#[trigger] labels@[j])@ == ls[j] by {
                if j > 0 {
                    assert(labels@[j]@ == "Arg:    "@);
                }
            }
            (owned("Call"), Some(labels))
        },
        Expr::Get(g) => {
            let mut line = String::new();
            push_str(&mut line, "Get ");
            push_str(&mut line, g.name.lexeme.as_str());
            (line, None)
        },
        Expr::Grouping(_) => (owned("Grouping"), None),
        Expr::Literal(l) => (framed("Literal (", &l.value.lexeme, ")"), None),
        Expr::Logical(l) => (
            framed("Logical op (", &l.operator.lexeme, ")"),
            two_labels("Left:  ", "Right: "),
        ),
        Expr::Rect(_) => (owned("Rect decl"), None),
        Expr::SetProperty(_) => (owned("Set"), None),
        Expr::Super(_) => (owned("Super"), None),
        Expr::This(_) => (owned("This"), None),
        Expr::Unary(u) => (framed("Unary op (", &u.operator.lexeme, ")"), one_label("Right: ")),
        Expr::Variable(v) => (variable_line(v), None),
    }
}

/// Appends a node for each statement of `stmts`.
fn push_stmt_refs<'a>(out: &mut Vec<AstRef<'a>>, stmts: &'a Vec<Stmt>)
    ensures
        refs_view(final(out)@) == refs_view(old(out)@) + stmt_nodes(stmts_view(stmts@)),
{
    let ghost start = refs_view(out@);
    proof {
        lemma_stmts_view_len(stmts@);
    }
    let mut i: usize = 0;
    while i < stmts.len()
        invariant
            i <= stmts@.len(),
            stmts_view(stmts@).len() == stmts@.len(),
            refs_view(out@) == start + stmt_nodes(stmts_view(stmts@)).take(i as int),
        decreases stmts@.len() - i,
    {
        let node = AstRef::Stmt(&stmts[i]);
        let ghost before = out@;
        out.push(node);
        proof {
            lemma_stmts_view_index(stmts@, i as int);
            lemma_refs_view_push(before, node);
            assert(stmt_nodes(stmts_view(stmts@)).take(i + 1) =~= stmt_nodes(stmts_view(stmts@)).take(
                i as int,
            ).push(stmt_nodes(stmts_view(stmts@))[i as int]));
        }
        i = i + 1;
        assert(refs_view(out@) =~= start + stmt_nodes(stmts_view(stmts@)).take(i as int));
    }
    assert(stmt_nodes(stmts_view(stmts@)).take(i as int) =~= stmt_nodes(stmts_view(stmts@)));
}

fn push_expr_refs<'a>(out: &mut Vec<AstRef<'a>>, exprs: &'a Vec<Expr>)
    ensures
        refs_view(final(out)@) == refs_view(old(out)@) + expr_nodes(exprs_view(exprs@)),
{
    let ghost start = refs_view(out@);
    proof {
        lemma_exprs_view_len(exprs@);
    }
    let mut i: usize = 0;
    while i < exprs.len()
        invariant
            i <= exprs@.len(),
            exprs_view(exprs@).len() == exprs@.len(),
            refs_view(out@) == start + expr_nodes(exprs_view(exprs@)).take(i as int),
        decreases exprs@.len() - i,
    {
        let node = AstRef::Expr(&exprs[i]);
        let ghost before = out@;
        out.push(node);
        proof {
            lemma_exprs_view_index(exprs@, i as int);
            lemma_refs_view_push(before, node);
            assert(expr_nodes(exprs_view(exprs@)).take(i + 1) =~= expr_nodes(exprs_view(exprs@)).take(
                i as int,
            ).push(expr_nodes(exprs_view(exprs@))[i as int]));
        }
        i = i + 1;
        assert(refs_view(out@) =~= start + expr_nodes(exprs_view(exprs@)).take(i as int));
    }
    assert(expr_nodes(exprs_view(exprs@)).take(i as int) =~= expr_nodes(exprs_view(exprs@)));
}

fn push_function_refs<'a>(out: &mut Vec<AstRef<'a>>, functions: &'a Vec<FunctionStmt>)
    ensures
        refs_view(final(out)@) == refs_view(old(out)@) + function_nodes(functions_view(functions@)),
{
    let ghost start = refs_view(out@);
    proof {
        lemma_functions_view_len(functions@);
    }
    let mut i: usize = 0;
    while i < functions.len()
        invariant
            i <= functions@.len(),
            functions_view(functions@).len() == functions@.len(),
            refs_view(out@) == start + function_nodes(functions_view(functions@)).take(i as int),
        decreases functions@.len() - i,
    {
        let node = AstRef::Function(&functions[i]);
        let ghost before = out@;
        out.push(node);
        proof {
            lemma_functions_view_index(functions@, i as int);
            lemma_refs_view_push(before, node);
            assert(function_nodes(functions_view(functions@)).take(i + 1) =~= function_nodes(functions_view(functions@)).take(
                i as int,
            ).push(function_nodes(functions_view(functions@))[i as int]));
        }
        i = i + 1;
        assert(refs_view(out@) =~= start + function_nodes(functions_view(functions@)).take(
            i as int,
        ));
    }
    assert(function_nodes(functions_view(functions@)).take(i as int) =~= function_nodes(
        functions_view(functions@),
    ));
}

fn one_ref<'a>(a: AstRef<'a>) -> (r: Vec<AstRef<'a>>)
    ensures
        refs_view(r@) == seq![a@],
{
    let mut v: Vec<AstRef<'a>> = Vec::new();
    v.push(a);
    assert(refs_view(v@) =~= seq![a@]);
    v
}

fn two_refs<'a>(a: AstRef<'a>, b: AstRef<'a>) -> (r: Vec<AstRef<'a>>)
    ensures
        refs_view(r@) == seq![a@, b@],
{
    let mut v: Vec<AstRef<'a>> = Vec::new();
    v.push(a);
    v.push(b);
    assert(refs_view(v@) =~= seq![a@, b@]);
    v
}

fn no_refs<'a>() -> (r: Vec<AstRef<'a>>)
    ensures
        refs_view(r@) == Seq::<SNode>::empty(),
{
    let v: Vec<AstRef<'a>> = Vec::new();
    assert(refs_view(v@) =~= Seq::<SNode>::empty());
    v
}

/// The nodes of a sequence of statements.
fn stmts_walk<'a>(stmts: &'a Vec<Stmt>) -> (r: Vec<AstRef<'a>>)
    ensures
        refs_view(r@) == stmt_nodes(stmts_view(stmts@)),
{
    let mut v = no_refs();
    push_stmt_refs(&mut v, stmts);
    assert(refs_view(v@) =~= stmt_nodes(stmts_view(stmts@)));
    v
}

fn class_walk<'a>(c: &'a Class) -> (r: Vec<AstRef<'a>>)
    ensures
        refs_view(r@) == node_children(SNode::Stmt(Stmt::Class(*c)@)),
{
    let mut v = match &c.superclass {
        Some(sup) => one_ref(AstRef::Variable(sup)),
        None => no_refs(),
    };
    push_function_refs(&mut v, &c.methods);
    assert(refs_view(v@) =~= node_children(SNode::Stmt(Stmt::Class(*c)@)));
    v
}

fn if_walk<'a>(i: &'a IfStmt) -> (r: Vec<AstRef<'a>>)
    ensures
        refs_view(r@) == node_children(SNode::Stmt(Stmt::If(*i)@)),
{
    let mut v = two_refs(i.condition.as_ast(), i.then_branch.as_ast());
    if let Some(else_branch) = &i.else_branch {
        let ghost before = v@;
        let node = else_branch.as_ast();
        v.push(node);
        proof {
            lemma_refs_view_push(before, node);
        }
    }
    assert(refs_view(v@) =~= node_children(SNode::Stmt(Stmt::If(*i)@)));
    v
}

fn stmt_walk<'a>(s: &'a Stmt) -> (r: Vec<AstRef<'a>>)
    ensures
        refs_view(r@) == node_children(SNode::Stmt(s@)),
{
    let r = match s {
        Stmt::Block(b) => {
            let r = stmts_walk(&b.stmts);
            assert(refs_view(r@) == node_children(SNode::Stmt(s@)));
            r
        },
        Stmt::Class(c) => class_walk(c),
        Stmt::Expression(e) => {
            let r = one_ref(e.expr.as_ast());
            assert(refs_view(r@) == node_children(SNode::Stmt(s@)));
            r
        },
        Stmt::Function(f) => {
            let r = stmts_walk(&f.body);
            assert(f@.body == stmts_view(f.body@));
            r
        },
        Stmt::If(i) => if_walk(i),
        Stmt::Print(p) => {
            let r = one_ref(p.expr.as_ast());
            assert(refs_view(r@) == node_children(SNode::Stmt(s@)));
            r
        },
        Stmt::Return(r) => match &r.value {
            Some(value) => one_ref(value.as_ast()),
            None => no_refs(),
        },
        Stmt::Var(v) => match &v.initializer {
            Some(init) => one_ref(init.as_ast()),
            None => no_refs(),
        },
        Stmt::While(w) => {
            let r = two_refs(w.condition.as_ast(), w.body.as_ast());
            assert(refs_view(r@) == node_children(SNode::Stmt(s@)));
            r
        },
    };
    r
}

fn expr_walk<'a>(e: &'a Expr) -> (r: Vec<AstRef<'a>>)
    ensures
        refs_view(r@) == node_children(SNode::Expr(e@)),
{
    match e {
        Expr::Assign(a) => one_ref(a.value.as_ast()),
        Expr::Binary(b) => two_refs(b.left.as_ast(), b.right.as_ast()),
        Expr::Call(c) => {
            let mut v = one_ref(c.callee.as_ast());
            push_expr_refs(&mut v, &c.args);
            assert(refs_view(v@) =~= node_children(SNode::Expr(e@)));
            v
        },
        Expr::Get(g) => one_ref(g.expr.as_ast()),
        Expr::Grouping(g) => one_ref(g.expr.as_ast()),
        Expr::Logical(l) => two_refs(l.left.as_ast(), l.right.as_ast()),
        Expr::SetProperty(s) => two_refs(s.target.as_ast(), s.value.as_ast()),
        Expr::Unary(u) => one_ref(u.right.as_ast()),
        _ => no_refs(),
    }
}

impl<'a> AstRef<'a> {
    /// How the node is shown at the depth given.
    pub fn display(&self, args: DisplayArgs) -> (r: AstDisplay)
        ensures
            r.depth == args.depth,
            r.primary@ == node_primary(self@),
            labels_agree(r.labels, node_labels(self@)),
    {
        let (primary, labels) = match *self {
            AstRef::Stmt(s) => stmt_display(s),
            AstRef::Expr(e) => expr_display(e),
            AstRef::Function(f) => (function_line(f), None),
            AstRef::Variable(v) => (variable_line(v), None),
        };
        AstDisplay { depth: args.depth, primary, labels }
    }

    /// The children of the node, in the order they are shown.
    pub fn walk(&self, args: WalkArgs) -> (r: Vec<AstRef<'a>>)
        ensures
            refs_view(r@) == node_children(self@),
    {
        match *self {
            AstRef::Stmt(s) => stmt_walk(s),
            AstRef::Expr(e) => expr_walk(e),
            AstRef::Function(f) => {
                let r = stmts_walk(&f.body);
                assert(f@.body == stmts_view(f.body@));
                r
            },
            AstRef::Variable(_) => no_refs(),
        }
    }
}

/// Four spaces per level of depth.
pub fn spaces(depth: usize) -> (r: String)
    requires
        depth <= usize::MAX / 4,
    ensures
        r@ == spaces_seq(depth as nat * 4),
{
    let mut s = String::new();
    push_spaces(&mut s, depth * 4);
    s
}


/// The text of an optional label.
pub open spec fn opt_text(p: Option<String>) -> Seq<char> {
    match p {
        Some(p) => p@,
        None => Seq::empty(),
    }
}

proof fn lemma_child_facts(n: SNode, i: int)
    requires
        displayable(n),
        0 <= i < node_children(n).len(),
    ensures
        node_size(node_children(n)[i]) < node_size(n),
        displayable(node_children(n)[i]),
{
    lemma_children_smaller(n, i);
    lemma_children_displayable(n, 0, i);
}

/// Appends the line of `node` at `depth`, after `prefix`, and under it the
/// lines of its children, each after the label the node gives it.
pub fn display(out: &mut String, node: AstRef<'_>, depth: usize, prefix: Option<String>)
    requires
        displayable(node@),
        depth + node_size(node@) <= usize::MAX / 4,
    ensures
        final(out)@ == old(out)@ + node_text(node@, depth as nat, opt_text(prefix)),
    decreases node_size(node@),
{
    let ghost n = node@;
    let ghost target = old(out)@ + node_text(n, depth as nat, opt_text(prefix));
    let disp = node.display(DisplayArgs { depth });
    let spaces = spaces(disp.depth);
    push_str(out, spaces.as_str());
    match &prefix {
        Some(p) => push_str(out, p.as_str()),
        None => {},
    }
    push_str(out, disp.primary.as_str());
    push_str(out, "\n");
    assert(out@ =~= old(out)@ + node_line(n, depth as nat, opt_text(prefix)));
    let children = node.walk(WalkArgs);
    assert(children@.len() == node_children(n).len());
    let depth = depth + 1;
    assert(target =~= out@ + children_text(n, depth as nat, 0));
    let labels = disp.labels;
    let mut i: usize = 0;
    while i < children.len()
        invariant
            n == node@,
            displayable(n),
            depth + node_size(n) <= usize::MAX / 4 + 1,
            depth >= 1,
            refs_view(children@) == node_children(n),
            labels_agree(labels, node_labels(n)),
            i <= children@.len(),
            target == out@ + children_text(n, depth as nat, i as nat),
        decreases children@.len() - i,
    {
        let child = children[i];
        proof {
            lemma_child_facts(n, i as int);
            assert(child@ == node_children(n)[i as int]);
        }
        let ghost before = out@;
        let label = match &labels {
            Some(fields) => Some(fields[i].clone()),
            None => None,
        };
        assert(opt_text(label) == child_prefix(n, i as int));
        display(out, child, depth, label);
        assert(target =~= out@ + children_text(n, depth as nat, (i + 1) as nat));
        i = i + 1;
    }
    assert(out@ =~= target);
}

impl Ast {
    /// The tree of the program: `Ast`, then each statement one level down.
    pub fn to_string(&self) -> (r: String)
        requires
            forall|i: int|
                0 <= i < self.stmts@.len() ==> {
                    &&& #[trigger] displayable(SNode::Stmt(self.stmts@[i]@))
                    &&& 1 + node_size(SNode::Stmt(self.stmts@[i]@)) <= usize::MAX / 4
                },
        ensures
            r@ == ast_text(self@),
    {
        let mut s = String::new();
        push_str(&mut s, "Ast\n");
        proof {
            lemma_stmts_view_len(self.stmts@);
        }
        let mut i: usize = 0;
        while i < self.stmts.len()
            invariant
                i <= self.stmts@.len(),
                stmts_view(self.stmts@).len() == self.stmts@.len(),
                forall|i: int|
                    0 <= i < self.stmts@.len() ==> {
                        &&& #[trigger] displayable(SNode::Stmt(self.stmts@[i]@))
                        &&& 1 + node_size(SNode::Stmt(self.stmts@[i]@)) <= usize::MAX / 4
                    },
                s@ == "Ast\n"@ + stmts_text(stmts_view(self.stmts@).take(i as int)),
            decreases self.stmts@.len() - i,
        {
            proof {
                lemma_stmts_view_index(self.stmts@, i as int);
                let taken = stmts_view(self.stmts@).take(i + 1);
                assert(taken.drop_last() =~= stmts_view(self.stmts@).take(i as int));
                assert(taken.last() == self.stmts@[i as int]@);
            }
            let node = self.stmts[i].as_ast();
            assert(displayable(SNode::Stmt(self.stmts@[i as int]@)));
            display(&mut s, node, 1, None);
            i = i + 1;
            assert(s@ =~= "Ast\n"@ + stmts_text(stmts_view(self.stmts@).take(i as int)));
        }
        assert(stmts_view(self.stmts@).take(i as int) =~= stmts_view(self.stmts@));
        s
    }
}


/// Whether the tree under `node` can be shown: every node that labels its
/// children gives one label per child.
pub fn is_displayable(node: AstRef<'_>) -> (r: bool)
    ensures
        r == displayable(node@),
    decreases node_size(node@),
{
    let ghost n = node@;
    let disp = node.display(DisplayArgs { depth: 0 });
    let children = node.walk(WalkArgs);
    assert(children@.len() == node_children(n).len());
    match &disp.labels {
        Some(fields) => {
            if fields.len() != children.len() {
                return false;
            }
        },
        None => {},
    }
    let mut i: usize = 0;
    while i < children.len()
        invariant
            n == node@,
            refs_view(children@) == node_children(n),
            node_labels(n) matches Some(ls) ==> ls.len() == node_children(n).len(),
            i <= children@.len(),
            children_displayable(n, 0) == children_displayable(n, i as nat),
        decreases children@.len() - i,
    {
        let child = children[i];
        proof {
            lemma_children_smaller(n, i as int);
            assert(child@ == node_children(n)[i as int]);
        }
        if !is_displayable(child) {
            return false;
        }
        i = i + 1;
    }
    true
}

impl Ast {
    /// Whether every statement of the program can be shown.
    pub fn is_displayable(&self) -> (r: bool)
        ensures
            r == forall|i: int|
                0 <= i < self.stmts@.len() ==> #[trigger] displayable(SNode::Stmt(self.stmts@[i]@)),
    {
        let mut i: usize = 0;
        while i < self.stmts.len()
            invariant
                i <= self.stmts@.len(),
                forall|j: int| 0 <= j < i ==> #[trigger] displayable(SNode::Stmt(self.stmts@[j]@)),
            decreases self.stmts@.len() - i,
        {
            if !is_displayable(self.stmts[i].as_ast()) {
                return false;
            }
            i = i + 1;
        }
        true
    }
}

} // verus!
