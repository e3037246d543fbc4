use vstd::prelude::*;

use crate::script::ast::expr::{Expr, SExpr, SVariable, Variable};
use crate::script::ast::var_type::VarType;
use crate::script::tokens::{SpecToken, Token};

verus! {

/// A statement of the language.
#[derive(Debug, PartialEq, Eq)]
pub enum Stmt {
    Block(Block),
    Class(Class),
    Expression(ExpressionStmt),
    Function(FunctionStmt),
    If(IfStmt),
    Print(PrintStmt),
    Return(ReturnStmt),
    Var(VarStmt),
    While(WhileStmt),
}

#[derive(Debug, PartialEq, Eq)]
pub struct Block {
    pub stmts: Box<Vec<Stmt>>,
    pub locals: usize,
}

#[derive(Debug, PartialEq, Eq)]
pub struct Class {
    pub name: Token,
    pub superclass: Option<Variable>,
    pub methods: Box<Vec<FunctionStmt>>,
    pub var_type: VarType,
}

#[derive(Debug, PartialEq, Eq)]
pub struct ExpressionStmt {
    pub expr: Expr,
}

#[derive(Debug, PartialEq, Eq)]
pub struct FunctionStmt {
    pub name: Token,
    pub params: Vec<FunctionParam>,
    pub body: Box<Vec<Stmt>>,
    pub var_type: VarType,
}

#[derive(Debug, PartialEq, Eq, Clone)]
pub struct FunctionParam {
    pub name: Token,
    pub var_type: VarType,
}

#[derive(Debug, PartialEq, Eq)]
pub struct IfStmt {
    pub condition: Expr,
    pub then_branch: Box<Stmt>,
    pub else_branch: Option<Box<Stmt>>,
}

#[derive(Debug, PartialEq, Eq)]
pub struct PrintStmt {
    pub expr: Expr,
}

#[derive(Debug, PartialEq, Eq)]
pub struct ReturnStmt {
    pub keyword: Token,
    pub value: Option<Expr>,
}

#[derive(Debug, PartialEq, Eq)]
pub struct VarStmt {
    pub name: Token,
    pub initializer: Option<Expr>,
}

#[derive(Debug, PartialEq, Eq)]
pub struct WhileStmt {
    pub condition: Expr,
    pub body: Box<Stmt>,
}

/// A function declaration as a mathematical value.
pub struct SFunction {
    pub name: SpecToken,
    pub params: Seq<SParam>,
    pub body: Seq<SStmt>,
    pub var_type: VarType,
}

/// A statement as a mathematical value: as `Stmt`, with sequences in place of
/// vectors and expressions by their views.
pub enum SStmt {
    Block { stmts: Seq<SStmt>, locals: usize },
    Class { name: SpecToken, superclass: Option<SVariable>, methods: Seq<SFunction>, var_type: VarType },
    Expression { expr: SExpr },
    Function { func: SFunction },
    If { condition: SExpr, then_branch: Box<SStmt>, else_branch: Option<Box<SStmt>> },
    Print { expr: SExpr },
    Return { keyword: SpecToken, value: Option<SExpr> },
    Var { name: SpecToken, initializer: Option<SExpr> },
    While { condition: SExpr, body: Box<SStmt> },
}

/// A function parameter as a mathematical value.
pub struct SParam {
    pub name: SpecToken,
    pub var_type: VarType,
}

impl View for FunctionParam {
    type V = SParam;

    open spec fn view(&self) -> SParam {
        SParam { name: self.name@, var_type: self.var_type }
    }
}

pub open spec fn opt_var_view(v: Option<Variable>) -> Option<SVariable> {
    match v {
        Some(v) => Some(v@),
        None => None,
    }
}

pub open spec fn opt_expr_view(e: Option<Expr>) -> Option<SExpr> {
    match e {
        Some(e) => Some(e@),
        None => None,
    }
}

pub open spec fn stmt_view(s: Stmt) -> SStmt
    decreases s, 0nat,
{
    match s {
        Stmt::Block(b) => SStmt::Block { stmts: stmts_view((*b.stmts)@), locals: b.locals },
        Stmt::Class(c) => SStmt::Class {
            name: c.name@,
            superclass: opt_var_view(c.superclass),
            methods: functions_view((*c.methods)@),
            var_type: c.var_type,
        },
        Stmt::Expression(e) => SStmt::Expression { expr: e.expr@ },
        Stmt::Function(f) => SStmt::Function { func: function_view(f) },
        Stmt::If(i) => SStmt::If {
            condition: i.condition@,
            then_branch: Box::new(stmt_view(*i.then_branch)),
            else_branch: match i.else_branch {
                Some(b) => Some(Box::new(stmt_view(*b))),
                None => None,
            },
        },
        Stmt::Print(p) => SStmt::Print { expr: p.expr@ },
        Stmt::Return(r) => SStmt::Return { keyword: r.keyword@, value: opt_expr_view(r.value) },
        Stmt::Var(v) => SStmt::Var { name: v.name@, initializer: opt_expr_view(v.initializer) },
        Stmt::While(w) => SStmt::While { condition: w.condition@, body: Box::new(stmt_view(*w.body)) },
    }
}

pub open spec fn function_view(f: FunctionStmt) -> SFunction
    decreases f, 0nat,
{
    SFunction {
        name: f.name@,
        params: f.params@.map_values(|p: FunctionParam| p@),
        body: stmts_view((*f.body)@),
        var_type: f.var_type,
    }
}

pub open spec fn stmts_view(s: Seq<Stmt>) -> Seq<SStmt>
    decreases s, 1nat,
{
    if s.len() == 0 {
        Seq::empty()
    } else {
        stmts_view(s.subrange(0, s.len() - 1)).push(stmt_view(s[s.len() - 1]))
    }
}

pub open spec fn functions_view(s: Seq<FunctionStmt>) -> Seq<SFunction>
    decreases s, 1nat,
{
    if s.len() == 0 {
        Seq::empty()
    } else {
        functions_view(s.subrange(0, s.len() - 1)).push(function_view(s[s.len() - 1]))
    }
}

pub proof fn lemma_stmts_view_push(s: Seq<Stmt>, e: Stmt)
    ensures
        stmts_view(s.push(e)) == stmts_view(s).push(stmt_view(e)),
{
    assert(s.push(e).subrange(0, s.len() as int) =~= s);
}

pub proof fn lemma_functions_view_push(s: Seq<FunctionStmt>, e: FunctionStmt)
    ensures
        functions_view(s.push(e)) == functions_view(s).push(function_view(e)),
{
    assert(s.push(e).subrange(0, s.len() as int) =~= s);
}

pub proof fn lemma_stmts_view_index(s: Seq<Stmt>, i: int)
    requires
        0 <= i < s.len(),
    ensures
        stmts_view(s).len() == s.len(),
        stmts_view(s)[i] == stmt_view(s[i]),
    decreases s.len(),
{
    lemma_stmts_view_len(s);
    if i < s.len() - 1 {
        lemma_stmts_view_index(s.subrange(0, s.len() - 1), i);
    }
}

pub proof fn lemma_stmts_view_len(s: Seq<Stmt>)
    ensures
        stmts_view(s).len() == s.len(),
    decreases s.len(),
{
    if s.len() > 0 {
        lemma_stmts_view_len(s.subrange(0, s.len() - 1));
    }
}

pub proof fn lemma_functions_view_index(s: Seq<FunctionStmt>, i: int)
    requires
        0 <= i < s.len(),
    ensures
        functions_view(s).len() == s.len(),
        functions_view(s)[i] == function_view(s[i]),
    decreases s.len(),
{
    lemma_functions_view_len(s);
    if i < s.len() - 1 {
        lemma_functions_view_index(s.subrange(0, s.len() - 1), i);
    }
}

pub proof fn lemma_functions_view_len(s: Seq<FunctionStmt>)
    ensures
        functions_view(s).len() == s.len(),
    decreases s.len(),
{
    if s.len() > 0 {
        lemma_functions_view_len(s.subrange(0, s.len() - 1));
    }
}

impl View for Stmt {
    type V = SStmt;

    open spec fn view(&self) -> SStmt {
        stmt_view(*self)
    }
}

impl View for FunctionStmt {
    type V = SFunction;

    open spec fn view(&self) -> SFunction {
        function_view(*self)
    }
}

/// The parameters of a function, each taken to be global until resolved.
pub open spec fn spec_params(names: Seq<Token>) -> Seq<FunctionParam> {
    names.map_values(|n: Token| FunctionParam { name: n, var_type: VarType::Global })
}


impl Block {
    /// A block statement holding `stmts`, with no locals counted yet.
    pub fn new(stmts: Vec<Stmt>) -> (r: Stmt)
        ensures
            r == Stmt::Block(Block { stmts: Box::new(stmts), locals: 0 }),
    {
        Stmt::Block(Block { stmts: Box::new(stmts), locals: 0 })
    }
}

impl Class {
    pub fn new(name: Token, superclass: Option<Variable>, methods: Vec<FunctionStmt>) -> (r: Stmt)
        ensures
            r == Stmt::Class(
                Class { name, superclass, methods: Box::new(methods), var_type: VarType::Global },
            ),
    {
        Stmt::Class(Class { name, superclass, methods: Box::new(methods), var_type: VarType::Global })
    }
}

impl ExpressionStmt {
    pub fn new(expr: Expr) -> (r: Stmt)
        ensures
            r == Stmt::Expression(ExpressionStmt { expr }),
    {
        Stmt::Expression(ExpressionStmt { expr })
    }
}

impl FunctionStmt {
    /// A function declaration; each parameter is taken to be global until resolved.
    pub fn new(name: Token, params: Vec<Token>, body: Vec<Stmt>) -> (r: Self)
        ensures
            r.name == name,
            r.params@ == spec_params(params@),
            r.body == Box::new(body),
            r.var_type == VarType::Global,
    {
        let mut ps: Vec<FunctionParam> = Vec::new();
        let mut i: usize = 0;
        while i < params.len()
            invariant
                i <= params@.len(),
                ps@ == spec_params(params@.take(i as int)),
            decreases params@.len() - i,
        {
            ps.push(FunctionParam::new(params[i].clone()));
            i = i + 1;
            assert(ps@ =~= spec_params(params@.take(i as int)));
        }
        assert(params@.take(i as int) =~= params@);
        FunctionStmt { name, params: ps, body: Box::new(body), var_type: VarType::Global }
    }
}

impl FunctionParam {
    pub fn new(name: Token) -> (r: Self)
        ensures
            r == (FunctionParam { name, var_type: VarType::Global }),
    {
        FunctionParam { name, var_type: VarType::Global }
    }
}

impl IfStmt {
    pub fn new(condition: Expr, then_branch: Stmt, else_branch: Option<Stmt>) -> (r: Stmt)
        ensures
            r == Stmt::If(
                IfStmt {
                    condition,
                    then_branch: Box::new(then_branch),
                    else_branch: match else_branch {
                        Some(x) => Some(Box::new(x)),
                        None => None,
                    },
                },
            ),
    {
        let else_branch = match else_branch {
            Some(x) => Some(Box::new(x)),
            None => None,
        };
        Stmt::If(IfStmt { condition, then_branch: Box::new(then_branch), else_branch })
    }
}

impl PrintStmt {
    pub fn new(expr: Expr) -> (r: Stmt)
        ensures
            r == Stmt::Print(PrintStmt { expr }),
    {
        Stmt::Print(PrintStmt { expr })
    }
}

impl ReturnStmt {
    pub fn new(keyword: Token, value: Option<Expr>) -> (r: Stmt)
        ensures
            r == Stmt::Return(ReturnStmt { keyword, value }),
    {
        Stmt::Return(ReturnStmt { keyword, value })
    }
}

impl VarStmt {
    pub fn new(name: Token, initializer: Option<Expr>) -> (r: Stmt)
        ensures
            r == Stmt::Var(VarStmt { name, initializer }),
    {
        Stmt::Var(VarStmt { name, initializer })
    }
}

impl WhileStmt {
    pub fn new(condition: Expr, body: Stmt) -> (r: Stmt)
        ensures
            r == Stmt::While(WhileStmt { condition, body: Box::new(body) }),
    {
        Stmt::While(WhileStmt { condition, body: Box::new(body) })
    }
}

} // verus!
