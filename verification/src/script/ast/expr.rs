use vstd::prelude::*;

use crate::script::ast::var_type::VarType;
use crate::script::tokens::{SpecToken, Token, TokenType};

verus! {

/// An expression of the language.
#[derive(Debug, Eq, PartialEq)]
pub enum Expr {
    Assign(Assign),
    Binary(BinaryOperator),
    Call(Call),
    Get(Get),
    Grouping(Grouping),
    Literal(Literal),
    Logical(Logical),
    Rect(Rect),
    SetProperty(SetProperty),
    Super(Super),
    This(This),
    Unary(UnaryOperator),
    Variable(Variable),
}

/// `name = value`.
#[derive(Debug, Eq, PartialEq, Clone)]
pub struct Assign {
    pub target: Variable,
    pub value: Box<Expr>,
}

#[derive(Debug, Eq, PartialEq, Clone)]
pub struct BinaryOperator {
    pub left: Box<Expr>,
    pub operator: Token,
    pub right: Box<Expr>,
    pub type_: BinaryOpType,
}

#[derive(Debug, Eq, PartialEq, Clone, Copy, Structural)]
pub enum BinaryOpType {
    NotEqual,
    Equal,
    Greater,
    GreaterEqual,
    Less,
    LessEqual,
    Add,
    Subtract,
    Multiply,
    Divide,
}

#[derive(Debug, Eq, PartialEq, Clone)]
pub struct Call {
    pub callee: Box<Expr>,
    pub paren: Token,
    pub args: Box<Vec<Expr>>,
}

/// `expr.name`.
#[derive(Debug, Eq, PartialEq, Clone)]
pub struct Get {
    pub expr: Box<Expr>,
    pub name: Token,
}

#[derive(Debug, Eq, PartialEq, Clone)]
pub struct Grouping {
    pub expr: Box<Expr>,
}

#[derive(Debug, Eq, PartialEq, Clone)]
pub struct Literal {
    pub value: Token,
    pub type_: LiteralType,
}

#[derive(Debug, Eq, PartialEq, Clone, Copy, Structural)]
pub enum LiteralType {
    Nil,
    Number,
    True,
    False,
    String,
}

#[derive(Debug, Eq, PartialEq, Clone)]
pub struct Logical {
    pub left: Box<Expr>,
    pub operator: Token,
    pub right: Box<Expr>,
    pub type_: LogicalType,
}

#[derive(Debug, Eq, PartialEq, Clone, Copy, Structural)]
pub enum LogicalType {
    And,
    Or,
}

/// A rectangle declaration: named parameters with their values.
#[derive(Debug, Eq, PartialEq, Clone)]
pub struct Rect {
    pub params: Vec<(Token, Expr)>,
}

/// `target.name = value`.
#[derive(Debug, Eq, PartialEq, Clone)]
pub struct SetProperty {
    pub target: Box<Expr>,
    pub name: Token,
    pub value: Box<Expr>,
}

#[derive(Debug, Eq, PartialEq, Clone)]
pub struct Super {
    pub keyword: Token,
    pub method: Token,
}

#[derive(Debug, Eq, PartialEq, Clone)]
pub struct This {
    pub keyword: Token,
}

#[derive(Debug, Eq, PartialEq, Clone)]
pub struct UnaryOperator {
    pub operator: Token,
    pub right: Box<Expr>,
    pub type_: UnaryOpType,
}

#[derive(Debug, Eq, PartialEq, Clone, Copy, Structural)]
pub enum UnaryOpType {
    LogicalNot,
    Negate,
}

#[derive(Debug, Eq, PartialEq, Clone)]
pub struct Variable {
    pub name: Token,
    pub var_type: VarType,
}

/// An expression as a mathematical value: as `Expr`, with sequences in place
/// of vectors.
pub enum SExpr {
    Assign { target: SVariable, value: Box<SExpr> },
    Binary { left: Box<SExpr>, operator: SpecToken, right: Box<SExpr>, type_: BinaryOpType },
    Call { callee: Box<SExpr>, paren: SpecToken, args: Seq<SExpr> },
    Get { expr: Box<SExpr>, name: SpecToken },
    Grouping { expr: Box<SExpr> },
    Literal { value: SpecToken, type_: LiteralType },
    Logical { left: Box<SExpr>, operator: SpecToken, right: Box<SExpr>, type_: LogicalType },
    Rect { params: Seq<(SpecToken, SExpr)> },
    SetProperty { target: Box<SExpr>, name: SpecToken, value: Box<SExpr> },
    Super { keyword: SpecToken, method: SpecToken },
    This { keyword: SpecToken },
    Unary { operator: SpecToken, right: Box<SExpr>, type_: UnaryOpType },
    Variable { var: SVariable },
}

/// A variable as a mathematical value.
pub struct SVariable {
    pub name: SpecToken,
    pub var_type: VarType,
}

impl View for Variable {
    type V = SVariable;

    open spec fn view(&self) -> SVariable {
        SVariable { name: self.name@, var_type: self.var_type }
    }
}

pub open spec fn expr_view(e: Expr) -> SExpr
    decreases e, 0nat,
{
    match e {
        Expr::Assign(a) => SExpr::Assign { target: a.target@, value: Box::new(expr_view(*a.value)) },
        Expr::Binary(b) => SExpr::Binary {
            left: Box::new(expr_view(*b.left)),
            operator: b.operator@,
            right: Box::new(expr_view(*b.right)),
            type_: b.type_,
        },
        Expr::Call(c) => SExpr::Call {
            callee: Box::new(expr_view(*c.callee)),
            paren: c.paren@,
            args: exprs_view((*c.args)@),
        },
        Expr::Get(g) => SExpr::Get { expr: Box::new(expr_view(*g.expr)), name: g.name@ },
        Expr::Grouping(g) => SExpr::Grouping { expr: Box::new(expr_view(*g.expr)) },
        Expr::Literal(l) => SExpr::Literal { value: l.value@, type_: l.type_ },
        Expr::Logical(l) => SExpr::Logical {
            left: Box::new(expr_view(*l.left)),
            operator: l.operator@,
            right: Box::new(expr_view(*l.right)),
            type_: l.type_,
        },
        Expr::Rect(r) => SExpr::Rect { params: params_view(r.params@) },
        Expr::SetProperty(s) => SExpr::SetProperty {
            target: Box::new(expr_view(*s.target)),
            name: s.name@,
            value: Box::new(expr_view(*s.value)),
        },
        Expr::Super(s) => SExpr::Super { keyword: s.keyword@, method: s.method@ },
        Expr::This(t) => SExpr::This { keyword: t.keyword@ },
        Expr::Unary(u) => SExpr::Unary {
            operator: u.operator@,
            right: Box::new(expr_view(*u.right)),
            type_: u.type_,
        },
        Expr::Variable(v) => SExpr::Variable { var: v@ },
    }
}

pub open spec fn exprs_view(s: Seq<Expr>) -> Seq<SExpr>
    decreases s, 1nat,
{
    if s.len() == 0 {
        Seq::empty()
    } else {
        exprs_view(s.subrange(0, s.len() - 1)).push(expr_view(s[s.len() - 1]))
    }
}

pub open spec fn params_view(s: Seq<(Token, Expr)>) -> Seq<(SpecToken, SExpr)>
    decreases s, 1nat,
{
    if s.len() == 0 {
        Seq::empty()
    } else {
        params_view(s.subrange(0, s.len() - 1)).push((s[s.len() - 1].0@, expr_view(s[s.len() - 1].1)))
    }
}

pub proof fn lemma_exprs_view_push(s: Seq<Expr>, e: Expr)
    ensures
        exprs_view(s.push(e)) == exprs_view(s).push(expr_view(e)),
{
    assert(s.push(e).subrange(0, s.len() as int) =~= s);
}

pub proof fn lemma_params_view_push(s: Seq<(Token, Expr)>, p: (Token, Expr))
    ensures
        params_view(s.push(p)) == params_view(s).push((p.0@, expr_view(p.1))),
{
    assert(s.push(p).subrange(0, s.len() as int) =~= s);
}

impl View for Expr {
    type V = SExpr;

    open spec fn view(&self) -> SExpr {
        expr_view(*self)
    }
}

/// The operator kind of a binary operator token, if it is one.
pub open spec fn spec_binary_op_type(t: TokenType) -> Option<BinaryOpType> {
    match t {
        TokenType::BangEqual => Some(BinaryOpType::NotEqual),
        TokenType::EqualEqual => Some(BinaryOpType::Equal),
        TokenType::Greater => Some(BinaryOpType::Greater),
        TokenType::GreaterEqual => Some(BinaryOpType::GreaterEqual),
        TokenType::Less => Some(BinaryOpType::Less),
        TokenType::LessEqual => Some(BinaryOpType::LessEqual),
        TokenType::Plus => Some(BinaryOpType::Add),
        TokenType::Minus => Some(BinaryOpType::Subtract),
        TokenType::Star => Some(BinaryOpType::Multiply),
        TokenType::Slash => Some(BinaryOpType::Divide),
        _ => None,
    }
}

/// The literal kind of a literal token, if it is one.
pub open spec fn spec_literal_type(t: TokenType) -> Option<LiteralType> {
    match t {
        TokenType::Number => Some(LiteralType::Number),
        TokenType::True => Some(LiteralType::True),
        TokenType::False => Some(LiteralType::False),
        TokenType::String => Some(LiteralType::String),
        TokenType::Nil => Some(LiteralType::Nil),
        _ => None,
    }
}

/// The operator kind of a logical operator token, if it is one.
pub open spec fn spec_logical_type(t: TokenType) -> Option<LogicalType> {
    match t {
        TokenType::And => Some(LogicalType::And),
        TokenType::Or => Some(LogicalType::Or),
        _ => None,
    }
}

/// The operator kind recorded for a unary operation: every operator token is
/// taken for a logical not, whatever its kind.
pub open spec fn spec_unary_op_type(t: TokenType) -> UnaryOpType {
    UnaryOpType::LogicalNot
}

fn binary_op_type(token: &Token) -> (r: BinaryOpType)
    requires
        spec_binary_op_type(token.type_) is Some,
    ensures
        spec_binary_op_type(token.type_) == Some(r),
{
    match token.type_ {
        TokenType::BangEqual => BinaryOpType::NotEqual,
        TokenType::EqualEqual => BinaryOpType::Equal,
        TokenType::Greater => BinaryOpType::Greater,
        TokenType::GreaterEqual => BinaryOpType::GreaterEqual,
        TokenType::Less => BinaryOpType::Less,
        TokenType::LessEqual => BinaryOpType::LessEqual,
        TokenType::Plus => BinaryOpType::Add,
        TokenType::Minus => BinaryOpType::Subtract,
        TokenType::Star => BinaryOpType::Multiply,
        _ => BinaryOpType::Divide,
    }
}

fn literal_type(token: &Token) -> (r: LiteralType)
    requires
        spec_literal_type(token.type_) is Some,
    ensures
        spec_literal_type(token.type_) == Some(r),
{
    match token.type_ {
        TokenType::Number => LiteralType::Number,
        TokenType::True => LiteralType::True,
        TokenType::False => LiteralType::False,
        TokenType::String => LiteralType::String,
        _ => LiteralType::Nil,
    }
}

fn logical_type(token: &Token) -> (r: LogicalType)
    requires
        spec_logical_type(token.type_) is Some,
    ensures
        spec_logical_type(token.type_) == Some(r),
{
    match token.type_ {
        TokenType::And => LogicalType::And,
        _ => LogicalType::Or,
    }
}

fn unary_op_type(token: &Token) -> (r: UnaryOpType)
    ensures
        r == spec_unary_op_type(token.type_),
{
    UnaryOpType::LogicalNot
}

impl Assign {
    pub fn new(target: Variable, value: Expr) -> (r: Expr)
        ensures
            r == Expr::Assign(Assign { target, value: Box::new(value) }),
    {
        Expr::Assign(Assign { target, value: Box::new(value) })
    }
}

impl BinaryOperator {
    /// A binary operation; the operator token must be one of the binary operators.
    pub fn new(left: Expr, operator: Token, right: Expr) -> (r: Expr)
        requires
            spec_binary_op_type(operator.type_) is Some,
        ensures
            r == Expr::Binary(
                BinaryOperator {
                    left: Box::new(left),
                    operator,
                    right: Box::new(right),
                    type_: spec_binary_op_type(operator.type_)->0,
                },
            ),
    {
        let type_ = binary_op_type(&operator);
        Expr::Binary(
            BinaryOperator { type_, left: Box::new(left), operator, right: Box::new(right) },
        )
    }
}

impl Call {
    pub fn new(callee: Expr, paren: Token, args: Vec<Expr>) -> (r: Expr)
        ensures
            r == Expr::Call(Call { callee: Box::new(callee), paren, args: Box::new(args) }),
    {
        Expr::Call(Call { callee: Box::new(callee), paren, args: Box::new(args) })
    }
}

impl Get {
    pub fn new(expr: Expr, name: Token) -> (r: Expr)
        ensures
            r == Expr::Get(Get { expr: Box::new(expr), name }),
    {
        Expr::Get(Get { expr: Box::new(expr), name })
    }
}

impl Grouping {
    pub fn new(expr: Expr) -> (r: Expr)
        ensures
            r == Expr::Grouping(Grouping { expr: Box::new(expr) }),
    {
        Expr::Grouping(Grouping { expr: Box::new(expr) })
    }
}

impl Literal {
    /// A literal; the token must be a number, string, `true`, `false` or `nil`.
    pub fn new(value: Token) -> (r: Expr)
        requires
            spec_literal_type(value.type_) is Some,
        ensures
            r == Expr::Literal(Literal { value, type_: spec_literal_type(value.type_)->0 }),
    {
        let type_ = literal_type(&value);
        Expr::Literal(Literal { type_, value })
    }
}

impl Logical {
    /// A logical operation; the operator token must be `and` or `or`.
    pub fn new(left: Expr, operator: Token, right: Expr) -> (r: Expr)
        requires
            spec_logical_type(operator.type_) is Some,
        ensures
            r == Expr::Logical(
                Logical {
                    left: Box::new(left),
                    operator,
                    right: Box::new(right),
                    type_: spec_logical_type(operator.type_)->0,
                },
            ),
    {
        let type_ = logical_type(&operator);
        Expr::Logical(Logical { type_, left: Box::new(left), operator, right: Box::new(right) })
    }
}

impl Rect {
    pub fn new(params: Vec<(Token, Expr)>) -> (r: Expr)
        ensures
            r == Expr::Rect(Rect { params }),
    {
        Expr::Rect(Rect { params })
    }
}

impl SetProperty {
    pub fn new(target: Expr, name: Token, value: Expr) -> (r: Expr)
        ensures
            r == Expr::SetProperty(SetProperty { target: Box::new(target), name, value: Box::new(value) }),
    {
        Expr::SetProperty(SetProperty { target: Box::new(target), name, value: Box::new(value) })
    }
}

impl Super {
    pub fn new(keyword: Token, method: Token) -> (r: Expr)
        ensures
            r == Expr::Super(Super { keyword, method }),
    {
        Expr::Super(Super { keyword, method })
    }
}

impl This {
    pub fn new(keyword: Token) -> (r: Expr)
        ensures
            r == Expr::This(This { keyword }),
    {
        Expr::This(This { keyword })
    }
}

impl UnaryOperator {
    /// A unary operation; it is recorded as a logical not whatever the
    /// operator.
    pub fn new(operator: Token, right: Expr) -> (r: Expr)
        ensures
            r == Expr::Unary(
                UnaryOperator {
                    operator,
                    right: Box::new(right),
                    type_: spec_unary_op_type(operator.type_),
                },
            ),
    {
        let type_ = unary_op_type(&operator);
        Expr::Unary(UnaryOperator { type_, operator, right: Box::new(right) })
    }
}

impl Variable {
    /// A variable, not yet resolved: it is taken to be global.
    pub fn new(name: Token) -> (r: Variable)
        ensures
            r == (Variable { name, var_type: VarType::Global }),
    {
        Variable { name, var_type: VarType::Global }
    }

    pub fn as_expr(self) -> (r: Expr)
        ensures
            r == Expr::Variable(self),
    {
        Expr::Variable(self)
    }
}

/// The innermost expression under a chain of property reads.
pub open spec fn spec_collapse_get(expr: Expr) -> Expr
    decreases expr,
{
    match expr {
        Expr::Get(get) => spec_collapse_get(*get.expr),
        _ => expr,
    }
}

/// The innermost expression under a chain of property reads, on views.
pub open spec fn spec_collapse_sget(e: SExpr) -> SExpr
    decreases e,
{
    match e {
        SExpr::Get { expr, name } => spec_collapse_sget(*expr),
        _ => e,
    }
}

pub proof fn lemma_collapse_get_view(e: Expr)
    ensures
        expr_view(spec_collapse_get(e)) == spec_collapse_sget(expr_view(e)),
    decreases e,
{
    if let Expr::Get(g) = e {
        lemma_collapse_get_view(*g.expr);
    }
}

pub proof fn lemma_exprs_view_index(s: Seq<Expr>, i: int)
    requires
        0 <= i < s.len(),
    ensures
        exprs_view(s).len() == s.len(),
        exprs_view(s)[i] == expr_view(s[i]),
    decreases s.len(),
{
    lemma_exprs_view_len(s);
    if i < s.len() - 1 {
        lemma_exprs_view_index(s.subrange(0, s.len() - 1), i);
    }
}

pub proof fn lemma_exprs_view_len(s: Seq<Expr>)
    ensures
        exprs_view(s).len() == s.len(),
    decreases s.len(),
{
    if s.len() > 0 {
        lemma_exprs_view_len(s.subrange(0, s.len() - 1));
    }
}

/// Strips property reads off `expr` until something else is left.
pub fn collapse_get(expr: Expr) -> (r: Expr)
    ensures
        r == spec_collapse_get(expr),
    decreases expr,
{
    match expr {
        Expr::Get(get) => collapse_get(*get.expr),
        _ => expr,
    }
}

impl Clone for Expr {
    fn clone(&self) -> (r: Self)
        ensures
            r@ == self@,
    {
        clone_expr(self)
    }
}

/// A copy of `expr`.
pub fn clone_expr(expr: &Expr) -> (r: Expr)
    ensures
        r@ == expr@,
    decreases expr,
{
    match expr {
        Expr::Assign(e) => Expr::Assign(
            Assign {
                target: Variable { name: e.target.name.clone(), var_type: e.target.var_type },
                value: Box::new(clone_expr(&e.value)),
            },
        ),
        Expr::Binary(e) => Expr::Binary(
            BinaryOperator {
                left: Box::new(clone_expr(&e.left)),
                operator: e.operator.clone(),
                right: Box::new(clone_expr(&e.right)),
                type_: e.type_,
            },
        ),
        Expr::Call(e) => Expr::Call(
            Call {
                callee: Box::new(clone_expr(&e.callee)),
                paren: e.paren.clone(),
                args: Box::new(clone_exprs(&e.args)),
            },
        ),
        Expr::Get(e) => Expr::Get(Get { expr: Box::new(clone_expr(&e.expr)), name: e.name.clone() }),
        Expr::Grouping(e) => Expr::Grouping(Grouping { expr: Box::new(clone_expr(&e.expr)) }),
        Expr::Literal(e) => Expr::Literal(Literal { value: e.value.clone(), type_: e.type_ }),
        Expr::Logical(e) => Expr::Logical(
            Logical {
                left: Box::new(clone_expr(&e.left)),
                operator: e.operator.clone(),
                right: Box::new(clone_expr(&e.right)),
                type_: e.type_,
            },
        ),
        Expr::Rect(e) => Expr::Rect(Rect { params: clone_params(&e.params) }),
        Expr::SetProperty(e) => Expr::SetProperty(
            SetProperty {
                target: Box::new(clone_expr(&e.target)),
                name: e.name.clone(),
                value: Box::new(clone_expr(&e.value)),
            },
        ),
        Expr::Super(e) => Expr::Super(Super { keyword: e.keyword.clone(), method: e.method.clone() }),
        Expr::This(e) => Expr::This(This { keyword: e.keyword.clone() }),
        Expr::Unary(e) => Expr::Unary(
            UnaryOperator {
                operator: e.operator.clone(),
                right: Box::new(clone_expr(&e.right)),
                type_: e.type_,
            },
        ),
        Expr::Variable(e) => Expr::Variable(
            Variable { name: e.name.clone(), var_type: e.var_type },
        ),
    }
}

fn clone_exprs(exprs: &Vec<Expr>) -> (r: Vec<Expr>)
    ensures
        exprs_view(r@) == exprs_view(exprs@),
    decreases exprs,
{
    let mut r: Vec<Expr> = Vec::new();
    let mut i: usize = 0;
    while i < exprs.len()
        invariant
            i <= exprs@.len(),
            exprs_view(r@) == exprs_view(exprs@.take(i as int)),
        decreases exprs@.len() - i,
    {
        assert(decreases_to!(exprs => exprs@[i as int]));
        let e = clone_expr(&exprs[i]);
        proof {
            lemma_exprs_view_push(r@, e);
            lemma_exprs_view_push(exprs@.take(i as int), exprs@[i as int]);
        }
        r.push(e);
        assert(exprs@.take(i + 1) =~= exprs@.take(i as int).push(exprs@[i as int]));
        i = i + 1;
    }
    assert(exprs@.take(i as int) =~= exprs@);
    r
}

fn clone_params(params: &Vec<(Token, Expr)>) -> (r: Vec<(Token, Expr)>)
    ensures
        params_view(r@) == params_view(params@),
    decreases params,
{
    let mut r: Vec<(Token, Expr)> = Vec::new();
    let mut i: usize = 0;
    while i < params.len()
        invariant
            i <= params@.len(),
            params_view(r@) == params_view(params@.take(i as int)),
        decreases params@.len() - i,
    {
        assert(decreases_to!(params => params@[i as int]));
        let name = params[i].0.clone();
        let value = clone_expr(&params[i].1);
        proof {
            lemma_params_view_push(r@, (name, value));
            lemma_params_view_push(params@.take(i as int), params@[i as int]);
        }
        r.push((name, value));
        assert(params@.take(i + 1) =~= params@.take(i as int).push(params@[i as int]));
        i = i + 1;
    }
    assert(params@.take(i as int) =~= params@);
    r
}

} // verus!
