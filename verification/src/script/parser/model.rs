use vstd::prelude::*;

use crate::script::ast::expr::{
    spec_collapse_sget,
    spec_binary_op_type, spec_literal_type, spec_logical_type, spec_unary_op_type, SExpr, SVariable,
};
use crate::script::ast::expr::LiteralType;
use crate::script::ast::stmt::{spec_params, FunctionParam, SFunction, SParam, SStmt};
use crate::script::ast::var_type::VarType;
use crate::script::tokens::{SpecToken, Token, TokenType};

verus! {

/// A parse error: what was expected, and the token read last.
#[derive(Debug)]
pub struct ParseError {
    pub type_: ParseErrorType,
    pub token: Token,
}

#[derive(Debug)]
pub enum ParseErrorType {
    MissingClassIdentifier,
    MissingSuperclassIdentifier,
    MissingClassOpenCurly,
    MissingClassCloseCurly,
    MissingFunctionIdentifier(FunctionType),
    MissingFunctionOpenParen(FunctionType),
    MissingFunctionOpenBrace(FunctionType),
    MissingFunctionCloseParen,
    FunctionTooManyParameters,
    MissingParameterIdentifier,
    MissingVariableIdentifier,
    MissingVariableSemicolon,
    MissingForOpenParen,
    MissingForCloseParen,
    MissingForConditionDelimiter,
    MissingIfOpenParen,
    MissingIfCloseParen,
    MissingPrintSemicolon,
    MissingReturnSemicolon,
    MissingWhileOpenParen,
    MissingWhileCloseParen,
    MissingExpressionStmtSemicolon,
    MissingBlockCloseBrace,
    InvalidAssignmentTarget(AssignmentTarget),
    MissingPropertyIdentifier,
    MissingSuperDot,
    MissingSuperPropertyIdentifier,
    MissingGroupingCloseParen,
    MissingExpression(Token),
}

/// Where an assignment to something that cannot be assigned was found: after
/// a property read (`a.b = 1`), or after any other expression (`1 = 2`).
#[derive(Debug, Clone, Copy, PartialEq, Eq, Structural)]
pub enum AssignmentTarget {
    Dot,
    Expr,
}

/// Whether a function is declared at top level or as a method.
#[derive(Debug, Clone, Copy, PartialEq, Eq, Structural)]
pub enum FunctionType {
    Function,
    Method,
}

impl FunctionType {
    pub fn to_string(&self) -> (r: &'static str)
        ensures
            r@ == match self {
                FunctionType::Function => "function"@,
                FunctionType::Method => "method"@,
            },
    {
        match self {
            FunctionType::Function => "function",
            FunctionType::Method => "method",
        }
    }
}

/// Binding strength of operators, from weakest to strongest.
#[derive(Debug, PartialEq, Eq, Clone, Copy, Structural)]
pub enum Precidence {
    Lowest,
    Assignment,
    Or,
    And,
    Equality,
    Comparison,
    Term,
    Factor,
    Unary,
    Call,
    Primary,
}

pub open spec fn prec_level(p: Precidence) -> int {
    match p {
        Precidence::Lowest => 0,
        Precidence::Assignment => 1,
        Precidence::Or => 2,
        Precidence::And => 3,
        Precidence::Equality => 4,
        Precidence::Comparison => 5,
        Precidence::Term => 6,
        Precidence::Factor => 7,
        Precidence::Unary => 8,
        Precidence::Call => 9,
        Precidence::Primary => 10,
    }
}

/// The next stronger level; there is none above `Primary`.
pub open spec fn spec_prec_next(p: Precidence) -> Option<Precidence> {
    match p {
        Precidence::Lowest => Some(Precidence::Assignment),
        Precidence::Assignment => Some(Precidence::Or),
        Precidence::Or => Some(Precidence::And),
        Precidence::And => Some(Precidence::Equality),
        Precidence::Equality => Some(Precidence::Comparison),
        Precidence::Comparison => Some(Precidence::Term),
        Precidence::Term => Some(Precidence::Factor),
        Precidence::Factor => Some(Precidence::Unary),
        Precidence::Unary => Some(Precidence::Call),
        Precidence::Call => Some(Precidence::Primary),
        Precidence::Primary => None,
    }
}

/// How a token starts an expression.
#[derive(Debug, PartialEq, Eq, Clone, Copy, Structural)]
pub enum PrefixRule {
    Grouping,
    Unary,
    Variable,
    Literal,
    Super,
    This,
}

/// How a token continues an expression.
#[derive(Debug, PartialEq, Eq, Clone, Copy, Structural)]
pub enum InfixRule {
    Call,
    Dot,
    Binary,
    And,
    Or,
}

#[derive(Debug, PartialEq, Eq, Clone, Copy, Structural)]
pub struct ParseRule {
    pub prefix: Option<PrefixRule>,
    pub infix: Option<InfixRule>,
    pub precidence: Precidence,
}

/// The rule table of the expression parser; tokens without an entry cannot
/// appear in an expression.
pub open spec fn spec_rule(t: TokenType) -> Option<ParseRule> {
    match t {
        TokenType::LeftParen => Some(
            ParseRule {
                prefix: Some(PrefixRule::Grouping),
                infix: Some(InfixRule::Call),
                precidence: Precidence::Call,
            },
        ),
        TokenType::Dot => Some(
            ParseRule { prefix: None, infix: Some(InfixRule::Dot), precidence: Precidence::Call },
        ),
        TokenType::Minus => Some(
            ParseRule {
                prefix: Some(PrefixRule::Unary),
                infix: Some(InfixRule::Binary),
                precidence: Precidence::Term,
            },
        ),
        TokenType::Plus => Some(
            ParseRule { prefix: None, infix: Some(InfixRule::Binary), precidence: Precidence::Term },
        ),
        TokenType::Slash => Some(
            ParseRule {
                prefix: None,
                infix: Some(InfixRule::Binary),
                precidence: Precidence::Factor,
            },
        ),
        TokenType::Star => Some(
            ParseRule {
                prefix: None,
                infix: Some(InfixRule::Binary),
                precidence: Precidence::Factor,
            },
        ),
        TokenType::Bang => Some(
            ParseRule { prefix: Some(PrefixRule::Unary), infix: None, precidence: Precidence::Lowest },
        ),
        TokenType::BangEqual => Some(
            ParseRule {
                prefix: None,
                infix: Some(InfixRule::Binary),
                precidence: Precidence::Equality,
            },
        ),
        TokenType::EqualEqual => Some(
            ParseRule {
                prefix: None,
                infix: Some(InfixRule::Binary),
                precidence: Precidence::Equality,
            },
        ),
        TokenType::Greater => Some(
            ParseRule {
                prefix: None,
                infix: Some(InfixRule::Binary),
                precidence: Precidence::Comparison,
            },
        ),
        TokenType::GreaterEqual => Some(
            ParseRule {
                prefix: None,
                infix: Some(InfixRule::Binary),
                precidence: Precidence::Comparison,
            },
        ),
        TokenType::Less => Some(
            ParseRule {
                prefix: None,
                infix: Some(InfixRule::Binary),
                precidence: Precidence::Comparison,
            },
        ),
        TokenType::LessEqual => Some(
            ParseRule {
                prefix: None,
                infix: Some(InfixRule::Binary),
                precidence: Precidence::Comparison,
            },
        ),
        TokenType::Identifier => Some(
            ParseRule { prefix: Some(PrefixRule::Variable), infix: None, precidence: Precidence::Lowest },
        ),
        TokenType::String => Some(
            ParseRule { prefix: Some(PrefixRule::Literal), infix: None, precidence: Precidence::Lowest },
        ),
        TokenType::Number => Some(
            ParseRule { prefix: Some(PrefixRule::Literal), infix: None, precidence: Precidence::Lowest },
        ),
        TokenType::And => Some(
            ParseRule { prefix: None, infix: Some(InfixRule::And), precidence: Precidence::And },
        ),
        TokenType::Or => Some(
            ParseRule { prefix: None, infix: Some(InfixRule::Or), precidence: Precidence::Or },
        ),
        TokenType::True => Some(
            ParseRule { prefix: Some(PrefixRule::Literal), infix: None, precidence: Precidence::Lowest },
        ),
        TokenType::False => Some(
            ParseRule { prefix: Some(PrefixRule::Literal), infix: None, precidence: Precidence::Lowest },
        ),
        TokenType::Nil => Some(
            ParseRule { prefix: Some(PrefixRule::Literal), infix: None, precidence: Precidence::Lowest },
        ),
        TokenType::Super => Some(
            ParseRule { prefix: Some(PrefixRule::Super), infix: None, precidence: Precidence::Lowest },
        ),
        TokenType::This => Some(
            ParseRule { prefix: Some(PrefixRule::This), infix: None, precidence: Precidence::Lowest },
        ),
        TokenType::Semicolon => Some(
            ParseRule { prefix: None, infix: None, precidence: Precidence::Lowest },
        ),
        TokenType::RightBrace => Some(
            ParseRule { prefix: None, infix: None, precidence: Precidence::Lowest },
        ),
        TokenType::RightParen => Some(
            ParseRule { prefix: None, infix: None, precidence: Precidence::Lowest },
        ),
        _ => None,
    }
}

// ---------------------------------------------------------------------------
// The parser as a function of the token sequence.
//
// Each function takes a fuel bound (spent by every nested call and every loop
// round), the tokens and the position of the next token, and gives its result
// and the position after it. `Abort` stands for the inputs on which the parser
// panics, and for running out of fuel: the parser does not terminate on an
// input exactly when every fuel bound runs out.
// ---------------------------------------------------------------------------

pub enum Res<T> {
    Parsed(T),
    Error(ParseError),
    Abort,
}

/// Passes on an error or an abort.
pub open spec fn fail<A, B>(r: Res<A>) -> Res<B> {
    match r {
        Res::Error(e) => Res::Error(e),
        _ => Res::Abort,
    }
}

pub open spec fn sp_is_eof(t: Seq<Token>, p: int) -> bool {
    t[p].type_ == TokenType::EOF
}

pub open spec fn sp_check(t: Seq<Token>, p: int, ty: TokenType) -> bool {
    !sp_is_eof(t, p) && t[p].type_ == ty
}

/// Position after `advance`: it does not move past the end of file.
pub open spec fn sp_advance(t: Seq<Token>, p: int) -> int {
    if sp_is_eof(t, p) {
        p
    } else {
        p + 1
    }
}

/// Position after `match_` on one kind.
pub open spec fn sp_match(t: Seq<Token>, p: int, ty: TokenType) -> int {
    if sp_check(t, p, ty) {
        p + 1
    } else {
        p
    }
}

/// The error of kind `ty`, reported at the token read last.
pub open spec fn sp_error(t: Seq<Token>, p: int, ty: ParseErrorType) -> ParseError {
    ParseError { type_: ty, token: t[p - 1] }
}

/// Reading an error needs a token read before.
pub open spec fn sp_fail_with<T>(t: Seq<Token>, p: int, ty: ParseErrorType) -> Res<T> {
    if p >= 1 {
        Res::Error(sp_error(t, p, ty))
    } else {
        Res::Abort
    }
}

pub open spec fn sp_consume(t: Seq<Token>, p: int, ty: TokenType, err: ParseErrorType) -> (Res<Token>, int) {
    if sp_check(t, p, ty) {
        (Res::Parsed(t[p]), p + 1)
    } else {
        (sp_fail_with(t, p, err), p)
    }
}

/// The rule of `ty`; the error for a missing rule is built (from the token
/// read last) even when it is not used.
pub open spec fn sp_get_rule(t: Seq<Token>, p: int, ty: TokenType) -> Res<ParseRule> {
    if p < 1 {
        Res::Abort
    } else {
        match spec_rule(ty) {
            Some(r) => Res::Parsed(r),
            None => Res::Error(sp_error(t, p, ParseErrorType::MissingExpression(t[p - 1]))),
        }
    }
}

pub open spec fn true_token_view() -> SpecToken {
    SpecToken { type_: TokenType::True, lexeme: "true"@, line: 0, col: 0 }
}

pub open spec fn is_stmt_start(ty: TokenType) -> bool {
    ty == TokenType::Class || ty == TokenType::Fun || ty == TokenType::Var || ty == TokenType::For
        || ty == TokenType::If || ty == TokenType::While || ty == TokenType::Print || ty
        == TokenType::Return
}

/// Position where parsing resumes after an error: past the next `;`, or at
/// the next token that starts a statement, or at the end of file.
pub open spec fn sp_synchronize(f: nat, t: Seq<Token>, p: int) -> Option<int>
    decreases f,
{
    if f == 0 {
        None
    } else if sp_is_eof(t, p) {
        Some(p)
    } else if p < 1 {
        None
    } else if t[p - 1].type_ == TokenType::Semicolon {
        Some(p)
    } else if is_stmt_start(t[p].type_) {
        Some(p)
    } else {
        sp_synchronize((f - 1) as nat, t, p + 1)
    }
}

pub open spec fn sp_literal(t: Seq<Token>, p: int) -> (Res<SExpr>, int) {
    if p < 1 || spec_literal_type(t[p - 1].type_) is None {
        (Res::Abort, p)
    } else {
        (Res::Parsed(SExpr::Literal { value: t[p - 1]@, type_: spec_literal_type(t[p - 1].type_)->0 }), p)
    }
}

pub open spec fn sp_this(t: Seq<Token>, p: int) -> (Res<SExpr>, int) {
    if p < 1 {
        (Res::Abort, p)
    } else {
        (Res::Parsed(SExpr::This { keyword: t[p - 1]@ }), p)
    }
}

pub open spec fn sp_super(t: Seq<Token>, p: int) -> (Res<SExpr>, int) {
    if p < 1 {
        (Res::Abort, p)
    } else {
        let (r1, p1) = sp_consume(t, p, TokenType::Dot, ParseErrorType::MissingSuperDot);
        match r1 {
            Res::Parsed(_) => {
                let (r2, p2) = sp_consume(
                    t,
                    p1,
                    TokenType::Identifier,
                    ParseErrorType::MissingSuperPropertyIdentifier,
                );
                match r2 {
                    Res::Parsed(method) => (
                        Res::Parsed(SExpr::Super { keyword: t[p - 1]@, method: method@ }),
                        p2,
                    ),
                    _ => (fail(r2), p2),
                }
            },
            _ => (fail(r1), p1),
        }
    }
}

pub open spec fn sp_expression(f: nat, t: Seq<Token>, p: int) -> (Res<SExpr>, int)
    decreases f, 0nat,
{
    if f == 0 {
        (Res::Abort, p)
    } else {
        sp_precedence((f - 1) as nat, t, p, Precidence::Assignment)
    }
}

pub open spec fn sp_precedence(f: nat, t: Seq<Token>, p: int, prec: Precidence) -> (Res<SExpr>, int)
    decreases f, 0nat,
{
    if f == 0 {
        (Res::Abort, p)
    } else {
        let p1 = sp_advance(t, p);
        match sp_get_rule(t, p1, t[p1 - 1].type_) {
            Res::Parsed(rule) => {
                let can_assign = prec_level(prec) <= prec_level(Precidence::Assignment);
                match rule.prefix {
                    Some(pr) => {
                        let (r, p2) = sp_prefix((f - 1) as nat, t, p1, pr, can_assign);
                        match r {
                            Res::Parsed(target) => sp_infix_loop(
                                (f - 1) as nat,
                                t,
                                p2,
                                prec,
                                can_assign,
                                target,
                            ),
                            _ => (fail(r), p2),
                        }
                    },
                    None => (Res::Abort, p1),
                }
            },
            r => (fail(r), p1),
        }
    }
}

/// The loop of `parse_precedence` that applies infix rules while they bind at
/// least as strongly as `prec`, then refuses a trailing `=` where assignment
/// would be allowed.
pub open spec fn sp_infix_loop(
    f: nat,
    t: Seq<Token>,
    p: int,
    prec: Precidence,
    can_assign: bool,
    target: SExpr,
) -> (Res<SExpr>, int)
    decreases f, 0nat,
{
    if f == 0 {
        (Res::Abort, p)
    } else {
        match sp_get_rule(t, p, t[p].type_) {
            Res::Parsed(rule) => if prec_level(prec) <= prec_level(rule.precidence) {
                let p1 = sp_advance(t, p);
                match sp_get_rule(t, p1, t[p1 - 1].type_) {
                    Res::Parsed(rule2) => match rule2.infix {
                        Some(ir) => {
                            let (r, p2) = sp_infix((f - 1) as nat, t, p1, ir, can_assign, target);
                            match r {
                                Res::Parsed(t2) => sp_infix_loop(
                                    (f - 1) as nat,
                                    t,
                                    p2,
                                    prec,
                                    can_assign,
                                    t2,
                                ),
                                _ => (fail(r), p2),
                            }
                        },
                        None => (Res::Abort, p1),
                    },
                    r => (fail(r), p1),
                }
            } else if can_assign && sp_check(t, p, TokenType::Equal) {
                (Res::Error(sp_error(t, p + 1, ParseErrorType::InvalidAssignmentTarget(AssignmentTarget::Expr))), p + 1)
            } else {
                (Res::Parsed(target), p)
            },
            r => (fail(r), p),
        }
    }
}

pub open spec fn sp_prefix(f: nat, t: Seq<Token>, p: int, rule: PrefixRule, can_assign: bool) -> (
    Res<SExpr>,
    int,
)
    decreases f, 0nat,
{
    if f == 0 {
        (Res::Abort, p)
    } else {
        match rule {
            PrefixRule::Grouping => sp_grouping((f - 1) as nat, t, p),
            PrefixRule::Unary => sp_unary((f - 1) as nat, t, p),
            PrefixRule::Variable => sp_variable((f - 1) as nat, t, p, can_assign),
            PrefixRule::Literal => sp_literal(t, p),
            PrefixRule::Super => sp_super(t, p),
            PrefixRule::This => sp_this(t, p),
        }
    }
}

pub open spec fn sp_infix(
    f: nat,
    t: Seq<Token>,
    p: int,
    rule: InfixRule,
    can_assign: bool,
    target: SExpr,
) -> (Res<SExpr>, int)
    decreases f, 0nat,
{
    if f == 0 {
        (Res::Abort, p)
    } else {
        match rule {
            InfixRule::Call => sp_call((f - 1) as nat, t, p, target),
            InfixRule::Dot => sp_dot((f - 1) as nat, t, p, can_assign, target),
            InfixRule::Binary => sp_binary((f - 1) as nat, t, p, target),
            InfixRule::And => sp_logical((f - 1) as nat, t, p, target, Precidence::And),
            InfixRule::Or => sp_logical((f - 1) as nat, t, p, target, Precidence::Or),
        }
    }
}

/// A parenthesized expression; the parentheses leave no node behind.
pub open spec fn sp_grouping(f: nat, t: Seq<Token>, p: int) -> (Res<SExpr>, int)
    decreases f, 0nat,
{
    if f == 0 {
        (Res::Abort, p)
    } else {
        let (r, p1) = sp_expression((f - 1) as nat, t, p);
        match r {
            Res::Parsed(e) => {
                let (r2, p2) = sp_consume(
                    t,
                    p1,
                    TokenType::RightParen,
                    ParseErrorType::MissingGroupingCloseParen,
                );
                match r2 {
                    Res::Parsed(_) => (Res::Parsed(e), p2),
                    _ => (fail(r2), p2),
                }
            },
            _ => (fail(r), p1),
        }
    }
}

pub open spec fn sp_unary(f: nat, t: Seq<Token>, p: int) -> (Res<SExpr>, int)
    decreases f, 0nat,
{
    if f == 0 || p < 1 {
        (Res::Abort, p)
    } else {
        let operator = t[p - 1];
        let (r, p1) = sp_precedence((f - 1) as nat, t, p, Precidence::Unary);
        match r {
            Res::Parsed(right) => (
                Res::Parsed(
                    SExpr::Unary {
                        operator: operator@,
                        right: Box::new(right),
                        type_: spec_unary_op_type(operator.type_),
                    },
                ),
                p1,
            ),
            _ => (fail(r), p1),
        }
    }
}

/// A name: an assignment to it when one may stand here and `=` follows, else a
/// read of it.
pub open spec fn sp_variable(f: nat, t: Seq<Token>, p: int, can_assign: bool) -> (Res<SExpr>, int)
    decreases f, 0nat,
{
    if f == 0 || p < 1 {
        (Res::Abort, p)
    } else {
        let name = t[p - 1];
        let target = SVariable { name: name@, var_type: VarType::Global };
        if can_assign && sp_check(t, p, TokenType::Equal) {
            let (r, p1) = sp_expression((f - 1) as nat, t, p + 1);
            match r {
                Res::Parsed(value) => (Res::Parsed(SExpr::Assign { target, value: Box::new(value) }), p1),
                _ => (fail(r), p1),
            }
        } else {
            (Res::Parsed(SExpr::Variable { var: target }), p)
        }
    }
}

pub open spec fn sp_call(f: nat, t: Seq<Token>, p: int, target: SExpr) -> (Res<SExpr>, int)
    decreases f, 0nat,
{
    if f == 0 {
        (Res::Abort, p)
    } else {
        let callee = spec_collapse_sget(target);
        let (r, p1) = sp_arglist((f - 1) as nat, t, p);
        match r {
            Res::Parsed(pa) => (
                Res::Parsed(SExpr::Call { callee: Box::new(callee), paren: pa.0, args: pa.1 }),
                p1,
            ),
            _ => (fail(r), p1),
        }
    }
}

/// `target.name`, possibly followed by an assignment or a call.
pub open spec fn sp_dot(f: nat, t: Seq<Token>, p: int, can_assign: bool, target: SExpr) -> (
    Res<SExpr>,
    int,
)
    decreases f, 0nat,
{
    if f == 0 {
        (Res::Abort, p)
    } else {
        let (r1, p1) = sp_consume(
            t,
            p,
            TokenType::Identifier,
            ParseErrorType::MissingPropertyIdentifier,
        );
        match r1 {
            Res::Parsed(name) => if can_assign && sp_check(t, p1, TokenType::Equal) {
                let (r2, p2) = sp_expression((f - 1) as nat, t, p1 + 1);
                match r2 {
                    Res::Parsed(value) => match value {
                        SExpr::Variable { .. } => (
                            Res::Parsed(
                                SExpr::Assign {
                                    target: SVariable { name: name@, var_type: VarType::Global },
                                    value: Box::new(value),
                                },
                            ),
                            p2,
                        ),
                        SExpr::Get { expr, .. } => (
                            Res::Parsed(
                                SExpr::SetProperty {
                                    target: Box::new(target),
                                    name: name@,
                                    value: expr,
                                },
                            ),
                            p2,
                        ),
                        _ => (sp_fail_with(t, p2, ParseErrorType::InvalidAssignmentTarget(AssignmentTarget::Dot)), p2),
                    },
                    _ => (fail(r2), p2),
                }
            } else if sp_check(t, p1, TokenType::LeftParen) {
                let (r2, p2) = sp_arglist((f - 1) as nat, t, p1 + 1);
                match r2 {
                    Res::Parsed(pa) => (
                        Res::Parsed(SExpr::Call { callee: Box::new(target), paren: pa.0, args: pa.1 }),
                        p2,
                    ),
                    _ => (fail(r2), p2),
                }
            } else {
                match target {
                    SExpr::Get { expr, .. } => (Res::Parsed(SExpr::Get { expr, name: name@ }), p1),
                    _ => (Res::Parsed(SExpr::Get { expr: Box::new(target), name: name@ }), p1),
                }
            },
            _ => (fail(r1), p1),
        }
    }
}

pub open spec fn sp_binary(f: nat, t: Seq<Token>, p: int, left: SExpr) -> (Res<SExpr>, int)
    decreases f, 0nat,
{
    if f == 0 || p < 1 {
        (Res::Abort, p)
    } else {
        let op = t[p - 1];
        match sp_get_rule(t, p, op.type_) {
            Res::Parsed(rule) => match spec_prec_next(rule.precidence) {
                Some(next) => {
                    let (r, p1) = sp_precedence((f - 1) as nat, t, p, next);
                    match r {
                        Res::Parsed(right) => match spec_binary_op_type(op.type_) {
                            Some(ty) => (
                                Res::Parsed(
                                    SExpr::Binary {
                                        left: Box::new(left),
                                        operator: op@,
                                        right: Box::new(right),
                                        type_: ty,
                                    },
                                ),
                                p1,
                            ),
                            None => (Res::Abort, p1),
                        },
                        _ => (fail(r), p1),
                    }
                },
                None => (Res::Abort, p),
            },
            r => (fail(r), p),
        }
    }
}

pub open spec fn sp_logical(f: nat, t: Seq<Token>, p: int, left: SExpr, prec: Precidence) -> (
    Res<SExpr>,
    int,
)
    decreases f, 0nat,
{
    if f == 0 || p < 1 {
        (Res::Abort, p)
    } else {
        let operator = t[p - 1];
        let (r, p1) = sp_precedence((f - 1) as nat, t, p, prec);
        match r {
            Res::Parsed(right) => match spec_logical_type(operator.type_) {
                Some(ty) => (
                    Res::Parsed(
                        SExpr::Logical {
                            left: Box::new(left),
                            operator: operator@,
                            right: Box::new(right),
                            type_: ty,
                        },
                    ),
                    p1,
                ),
                None => (Res::Abort, p1),
            },
            _ => (fail(r), p1),
        }
    }
}

/// The arguments of a call up to and including the closing parenthesis,
/// which is returned with them.
pub open spec fn sp_arglist(f: nat, t: Seq<Token>, p: int) -> (Res<(SpecToken, Seq<SExpr>)>, int)
    decreases f, 0nat,
{
    if f == 0 {
        (Res::Abort, p)
    } else {
        let (r, p1) = if !sp_check(t, p, TokenType::RightParen) {
            let (r0, q) = sp_expression((f - 1) as nat, t, p);
            match r0 {
                Res::Parsed(e) => sp_arglist_loop((f - 1) as nat, t, q, seq![e]),
                _ => (fail(r0), q),
            }
        } else {
            (Res::Parsed(Seq::empty()), p)
        };
        match r {
            Res::Parsed(args) => {
                let (r2, p2) = sp_consume(
                    t,
                    p1,
                    TokenType::RightParen,
                    ParseErrorType::MissingFunctionCloseParen,
                );
                match r2 {
                    Res::Parsed(paren) => (Res::Parsed((paren@, args)), p2),
                    _ => (fail(r2), p2),
                }
            },
            _ => (fail(r), p1),
        }
    }
}

/// Further arguments, each after a comma; more than 256 are refused.
pub open spec fn sp_arglist_loop(f: nat, t: Seq<Token>, p: int, acc: Seq<SExpr>) -> (
    Res<Seq<SExpr>>,
    int,
)
    decreases f, 0nat,
{
    if f == 0 {
        (Res::Abort, p)
    } else if sp_check(t, p, TokenType::Comma) {
        if acc.len() > 255 {
            (Res::Error(sp_error(t, p + 1, ParseErrorType::FunctionTooManyParameters)), p + 1)
        } else {
            let (r, p1) = sp_expression((f - 1) as nat, t, p + 1);
            match r {
                Res::Parsed(e) => sp_arglist_loop((f - 1) as nat, t, p1, acc.push(e)),
                _ => (fail(r), p1),
            }
        }
    } else {
        (Res::Parsed(acc), p)
    }
}


// ---------------------------------------------------------------------------
// Declarations and statements.
// ---------------------------------------------------------------------------

/// A declaration; after an error, parsing resumes where `sp_synchronize`
/// says.
pub open spec fn sp_declaration(f: nat, t: Seq<Token>, p: int) -> (Res<SStmt>, int)
    decreases f, 0nat,
{
    if f == 0 {
        (Res::Abort, p)
    } else {
        let p1 = sp_advance(t, p);
        if p1 < 1 {
            (Res::Abort, p1)
        } else {
            let ty = t[p1 - 1].type_;
            let (r, q) = if ty == TokenType::Class {
                sp_class_decl((f - 1) as nat, t, p1)
            } else if ty == TokenType::Fun {
                let (rf, qf) = sp_function_decl((f - 1) as nat, t, p1, FunctionType::Function);
                match rf {
                    Res::Parsed(func) => (Res::Parsed(SStmt::Function { func }), qf),
                    _ => (fail(rf), qf),
                }
            } else if ty == TokenType::Var {
                sp_var_decl((f - 1) as nat, t, p1)
            } else {
                sp_statement((f - 1) as nat, t, p1 - 1)
            };
            match r {
                Res::Error(e) => match sp_synchronize((f - 1) as nat, t, q) {
                    Some(q2) => (Res::Error(e), q2),
                    None => (Res::Abort, q),
                },
                _ => (r, q),
            }
        }
    }
}

/// `class Name [< Super] { methods }`, after the keyword.
pub open spec fn sp_class_decl(f: nat, t: Seq<Token>, p: int) -> (Res<SStmt>, int)
    decreases f, 0nat,
{
    if f == 0 {
        (Res::Abort, p)
    } else {
        let (r1, p1) = sp_consume(t, p, TokenType::Identifier, ParseErrorType::MissingClassIdentifier);
        match r1 {
            Res::Parsed(name) => {
                let (rs, p2) = if sp_check(t, p1, TokenType::Less) {
                    let (r2, q) = sp_consume(
                        t,
                        p1 + 1,
                        TokenType::Identifier,
                        ParseErrorType::MissingSuperclassIdentifier,
                    );
                    match r2 {
                        Res::Parsed(sup) => (
                            Res::Parsed(Some(SVariable { name: sup@, var_type: VarType::Global })),
                            q,
                        ),
                        _ => (fail(r2), q),
                    }
                } else {
                    (Res::Parsed(None), p1)
                };
                match rs {
                    Res::Parsed(superclass) => {
                        let (r3, p3) = sp_consume(
                            t,
                            p2,
                            TokenType::LeftBrace,
                            ParseErrorType::MissingClassOpenCurly,
                        );
                        match r3 {
                            Res::Parsed(_) => {
                                let (r4, p4) = sp_methods((f - 1) as nat, t, p3, Seq::empty());
                                match r4 {
                                    Res::Parsed(methods) => {
                                        let (r5, p5) = sp_consume(
                                            t,
                                            p4,
                                            TokenType::RightBrace,
                                            ParseErrorType::MissingClassCloseCurly,
                                        );
                                        match r5 {
                                            Res::Parsed(_) => (
                                                Res::Parsed(
                                                    SStmt::Class {
                                                        name: name@,
                                                        superclass,
                                                        methods,
                                                        var_type: VarType::Global,
                                                    },
                                                ),
                                                p5,
                                            ),
                                            _ => (fail(r5), p5),
                                        }
                                    },
                                    _ => (fail(r4), p4),
                                }
                            },
                            _ => (fail(r3), p3),
                        }
                    },
                    _ => (fail(rs), p2),
                }
            },
            _ => (fail(r1), p1),
        }
    }
}

/// Methods of a class body, up to the closing brace or the end of file.
pub open spec fn sp_methods(f: nat, t: Seq<Token>, p: int, acc: Seq<SFunction>) -> (
    Res<Seq<SFunction>>,
    int,
)
    decreases f, 0nat,
{
    if f == 0 {
        (Res::Abort, p)
    } else if !sp_check(t, p, TokenType::RightBrace) && !sp_is_eof(t, p) {
        let (r, q) = sp_function_decl((f - 1) as nat, t, p, FunctionType::Method);
        match r {
            Res::Parsed(m) => sp_methods((f - 1) as nat, t, q, acc.push(m)),
            _ => (fail(r), q),
        }
    } else {
        (Res::Parsed(acc), p)
    }
}

/// `name(params) { body }`, after `fun` or at a method.
pub open spec fn sp_function_decl(f: nat, t: Seq<Token>, p: int, ft: FunctionType) -> (
    Res<SFunction>,
    int,
)
    decreases f, 0nat,
{
    if f == 0 {
        (Res::Abort, p)
    } else {
        let (r1, p1) = sp_consume(
            t,
            p,
            TokenType::Identifier,
            ParseErrorType::MissingFunctionIdentifier(ft),
        );
        match r1 {
            Res::Parsed(name) => {
                let (r2, p2) = sp_consume(
                    t,
                    p1,
                    TokenType::LeftParen,
                    ParseErrorType::MissingFunctionOpenParen(ft),
                );
                match r2 {
                    Res::Parsed(_) => {
                        let (r3, p3) = if !sp_check(t, p2, TokenType::RightParen) {
                            let (r0, q) = sp_consume(
                                t,
                                p2,
                                TokenType::Identifier,
                                ParseErrorType::MissingParameterIdentifier,
                            );
                            match r0 {
                                Res::Parsed(first) => sp_params((f - 1) as nat, t, q, seq![first]),
                                _ => (fail(r0), q),
                            }
                        } else {
                            (Res::Parsed(Seq::empty()), p2)
                        };
                        match r3 {
                            Res::Parsed(params) => {
                                let (r4, p4) = sp_consume(
                                    t,
                                    p3,
                                    TokenType::RightParen,
                                    ParseErrorType::MissingFunctionCloseParen,
                                );
                                match r4 {
                                    Res::Parsed(_) => {
                                        let (r5, p5) = sp_consume(
                                            t,
                                            p4,
                                            TokenType::LeftBrace,
                                            ParseErrorType::MissingFunctionOpenBrace(ft),
                                        );
                                        match r5 {
                                            Res::Parsed(_) => {
                                                let (r6, p6) = sp_block((f - 1) as nat, t, p5);
                                                match r6 {
                                                    Res::Parsed(body) => (
                                                        Res::Parsed(
                                                            SFunction {
                                                                name: name@,
                                                                params: spec_param_list(params),
                                                                body,
                                                                var_type: VarType::Global,
                                                            },
                                                        ),
                                                        p6,
                                                    ),
                                                    _ => (fail(r6), p6),
                                                }
                                            },
                                            _ => (fail(r5), p5),
                                        }
                                    },
                                    _ => (fail(r4), p4),
                                }
                            },
                            _ => (fail(r3), p3),
                        }
                    },
                    _ => (fail(r2), p2),
                }
            },
            _ => (fail(r1), p1),
        }
    }
}

/// The views of parameters declared with the given names.
pub open spec fn spec_param_list(names: Seq<Token>) -> Seq<SParam> {
    spec_params(names).map_values(|p: FunctionParam| p@)
}

/// Further parameters, each after a comma; more than 256 are refused.
pub open spec fn sp_params(f: nat, t: Seq<Token>, p: int, acc: Seq<Token>) -> (Res<Seq<Token>>, int)
    decreases f, 0nat,
{
    if f == 0 {
        (Res::Abort, p)
    } else if sp_check(t, p, TokenType::Comma) {
        if acc.len() > 255 {
            (Res::Error(sp_error(t, p + 1, ParseErrorType::FunctionTooManyParameters)), p + 1)
        } else {
            let (r, q) = sp_consume(
                t,
                p + 1,
                TokenType::Identifier,
                ParseErrorType::MissingParameterIdentifier,
            );
            match r {
                Res::Parsed(name) => sp_params((f - 1) as nat, t, q, acc.push(name)),
                _ => (fail(r), q),
            }
        }
    } else {
        (Res::Parsed(acc), p)
    }
}

/// `var name [= value];`, after the keyword.
pub open spec fn sp_var_decl(f: nat, t: Seq<Token>, p: int) -> (Res<SStmt>, int)
    decreases f, 0nat,
{
    if f == 0 {
        (Res::Abort, p)
    } else {
        let (r1, p1) = sp_consume(t, p, TokenType::Identifier, ParseErrorType::MissingVariableIdentifier);
        match r1 {
            Res::Parsed(name) => {
                let (r2, p2) = if sp_check(t, p1, TokenType::Equal) {
                    let (r, q) = sp_expression((f - 1) as nat, t, p1 + 1);
                    match r {
                        Res::Parsed(e) => (Res::Parsed(Some(e)), q),
                        _ => (fail(r), q),
                    }
                } else {
                    (Res::Parsed(None), p1)
                };
                match r2 {
                    Res::Parsed(initializer) => {
                        let (r3, p3) = sp_consume(
                            t,
                            p2,
                            TokenType::Semicolon,
                            ParseErrorType::MissingVariableSemicolon,
                        );
                        match r3 {
                            Res::Parsed(_) => (Res::Parsed(SStmt::Var { name: name@, initializer }), p3),
                            _ => (fail(r3), p3),
                        }
                    },
                    _ => (fail(r2), p2),
                }
            },
            _ => (fail(r1), p1),
        }
    }
}

pub open spec fn sp_statement(f: nat, t: Seq<Token>, p: int) -> (Res<SStmt>, int)
    decreases f, 0nat,
{
    if f == 0 {
        (Res::Abort, p)
    } else {
        let p1 = sp_advance(t, p);
        if p1 < 1 {
            (Res::Abort, p1)
        } else {
            let ty = t[p1 - 1].type_;
            if ty == TokenType::For {
                sp_for((f - 1) as nat, t, p1)
            } else if ty == TokenType::If {
                sp_if((f - 1) as nat, t, p1)
            } else if ty == TokenType::Print {
                sp_print((f - 1) as nat, t, p1)
            } else if ty == TokenType::Return {
                sp_return((f - 1) as nat, t, p1)
            } else if ty == TokenType::While {
                sp_while((f - 1) as nat, t, p1)
            } else if ty == TokenType::LeftBrace {
                let (r, q) = sp_block((f - 1) as nat, t, p1);
                match r {
                    Res::Parsed(stmts) => (Res::Parsed(SStmt::Block { stmts, locals: 0 }), q),
                    _ => (fail(r), q),
                }
            } else {
                sp_expression_statement((f - 1) as nat, t, p1 - 1)
            }
        }
    }
}

/// The declarations of a block up to and including its closing brace.
pub open spec fn sp_block(f: nat, t: Seq<Token>, p: int) -> (Res<Seq<SStmt>>, int)
    decreases f, 0nat,
{
    if f == 0 {
        (Res::Abort, p)
    } else {
        let (r, p1) = sp_block_items((f - 1) as nat, t, p, Seq::empty());
        match r {
            Res::Parsed(stmts) => {
                let (r2, p2) = sp_consume(
                    t,
                    p1,
                    TokenType::RightBrace,
                    ParseErrorType::MissingBlockCloseBrace,
                );
                match r2 {
                    Res::Parsed(_) => (Res::Parsed(stmts), p2),
                    _ => (fail(r2), p2),
                }
            },
            _ => (fail(r), p1),
        }
    }
}

pub open spec fn sp_block_items(f: nat, t: Seq<Token>, p: int, acc: Seq<SStmt>) -> (
    Res<Seq<SStmt>>,
    int,
)
    decreases f, 0nat,
{
    if f == 0 {
        (Res::Abort, p)
    } else if !sp_check(t, p, TokenType::RightBrace) && !sp_is_eof(t, p) {
        let (r, q) = sp_declaration((f - 1) as nat, t, p);
        match r {
            Res::Parsed(s) => sp_block_items((f - 1) as nat, t, q, acc.push(s)),
            _ => (fail(r), q),
        }
    } else {
        (Res::Parsed(acc), p)
    }
}

/// `for (init; cond; incr) body`, after the keyword, rewritten into a
/// `while` loop. The condition is read only where the token after the
/// initializer is `;`, and the increment only where the token after the
/// condition's `;` is `)`.
pub open spec fn sp_for(f: nat, t: Seq<Token>, p: int) -> (Res<SStmt>, int)
    decreases f, 0nat,
{
    if f == 0 {
        (Res::Abort, p)
    } else {
        let (r1, p1) = sp_consume(t, p, TokenType::LeftParen, ParseErrorType::MissingForOpenParen);
        match r1 {
            Res::Parsed(_) => {
                let (ri, p2) = if t[p1].type_ == TokenType::Semicolon {
                    (Res::Parsed(None), p1)
                } else if t[p1].type_ == TokenType::Var {
                    let (r, q) = sp_var_decl((f - 1) as nat, t, p1);
                    match r {
                        Res::Parsed(s) => (Res::Parsed(Some(s)), q),
                        _ => (fail(r), q),
                    }
                } else {
                    let (r, q) = sp_expression_statement((f - 1) as nat, t, p1);
                    match r {
                        Res::Parsed(s) => (Res::Parsed(Some(s)), q),
                        _ => (fail(r), q),
                    }
                };
                match ri {
                    Res::Parsed(initializer) => {
                        let (rc, p3) = sp_opt_expression((f - 1) as nat, t, p2, TokenType::Semicolon);
                        match rc {
                            Res::Parsed(condition) => {
                                let (r4, p4) = sp_consume(
                                    t,
                                    p3,
                                    TokenType::Semicolon,
                                    ParseErrorType::MissingForConditionDelimiter,
                                );
                                match r4 {
                                    Res::Parsed(_) => {
                                        let (rn, p5) = sp_opt_expression(
                                            (f - 1) as nat,
                                            t,
                                            p4,
                                            TokenType::RightParen,
                                        );
                                        match rn {
                                            Res::Parsed(increment) => {
                                                let (r6, p6) = sp_consume(
                                                    t,
                                                    p5,
                                                    TokenType::RightParen,
                                                    ParseErrorType::MissingForCloseParen,
                                                );
                                                match r6 {
                                                    Res::Parsed(_) => {
                                                        let (rb, p7) = sp_statement(
                                                            (f - 1) as nat,
                                                            t,
                                                            p6,
                                                        );
                                                        match rb {
                                                            Res::Parsed(body) => (
                                                                Res::Parsed(
                                                                    spec_for_loop(
                                                                        initializer,
                                                                        condition,
                                                                        increment,
                                                                        body,
                                                                    ),
                                                                ),
                                                                p7,
                                                            ),
                                                            _ => (fail(rb), p7),
                                                        }
                                                    },
                                                    _ => (fail(r6), p6),
                                                }
                                            },
                                            _ => (fail(rn), p5),
                                        }
                                    },
                                    _ => (fail(r4), p4),
                                }
                            },
                            _ => (fail(rc), p3),
                        }
                    },
                    _ => (fail(ri), p2),
                }
            },
            _ => (fail(r1), p1),
        }
    }
}

/// An expression, read only where the next token is `ty`.
pub open spec fn sp_opt_expression(f: nat, t: Seq<Token>, p: int, ty: TokenType) -> (
    Res<Option<SExpr>>,
    int,
)
    decreases f, 0nat,
{
    if f == 0 {
        (Res::Abort, p)
    } else if sp_check(t, p, ty) {
        let (r, q) = sp_expression((f - 1) as nat, t, p);
        match r {
            Res::Parsed(e) => (Res::Parsed(Some(e)), q),
            _ => (fail(r), q),
        }
    } else {
        (Res::Parsed(None), p)
    }
}

/// The statement a `for` loop stands for: the body followed by the increment,
/// repeated while the condition (`true` if there is none) holds, after the
/// initializer.
pub open spec fn spec_for_loop(
    initializer: Option<SStmt>,
    condition: Option<SExpr>,
    increment: Option<SExpr>,
    body: SStmt,
) -> SStmt {
    let body = match increment {
        Some(inc) => SStmt::Block { stmts: seq![body, SStmt::Expression { expr: inc }], locals: 0 },
        None => body,
    };
    let condition = match condition {
        Some(c) => c,
        None => SExpr::Literal { value: true_token_view(), type_: LiteralType::True },
    };
    let lp = SStmt::While { condition, body: Box::new(body) };
    match initializer {
        Some(init) => SStmt::Block { stmts: seq![init, lp], locals: 0 },
        None => lp,
    }
}

/// `if (cond) then [else other]`, after the keyword.
pub open spec fn sp_if(f: nat, t: Seq<Token>, p: int) -> (Res<SStmt>, int)
    decreases f, 0nat,
{
    if f == 0 {
        (Res::Abort, p)
    } else {
        let (r1, p1) = sp_consume(t, p, TokenType::LeftParen, ParseErrorType::MissingIfOpenParen);
        match r1 {
            Res::Parsed(_) => {
                let (r2, p2) = sp_expression((f - 1) as nat, t, p1);
                match r2 {
                    Res::Parsed(condition) => {
                        let (r3, p3) = sp_consume(
                            t,
                            p2,
                            TokenType::RightParen,
                            ParseErrorType::MissingIfCloseParen,
                        );
                        match r3 {
                            Res::Parsed(_) => {
                                let (r4, p4) = sp_statement((f - 1) as nat, t, p3);
                                match r4 {
                                    Res::Parsed(then_branch) => {
                                        if sp_check(t, p4, TokenType::Else) {
                                            let (r5, p5) = sp_statement((f - 1) as nat, t, p4 + 1);
                                            match r5 {
                                                Res::Parsed(other) => (
                                                    Res::Parsed(
                                                        SStmt::If {
                                                            condition,
                                                            then_branch: Box::new(then_branch),
                                                            else_branch: Some(Box::new(other)),
                                                        },
                                                    ),
                                                    p5,
                                                ),
                                                _ => (fail(r5), p5),
                                            }
                                        } else {
                                            (
                                                Res::Parsed(
                                                    SStmt::If {
                                                        condition,
                                                        then_branch: Box::new(then_branch),
                                                        else_branch: None,
                                                    },
                                                ),
                                                p4,
                                            )
                                        }
                                    },
                                    _ => (fail(r4), p4),
                                }
                            },
                            _ => (fail(r3), p3),
                        }
                    },
                    _ => (fail(r2), p2),
                }
            },
            _ => (fail(r1), p1),
        }
    }
}

/// `print value;`, after the keyword.
pub open spec fn sp_print(f: nat, t: Seq<Token>, p: int) -> (Res<SStmt>, int)
    decreases f, 0nat,
{
    if f == 0 {
        (Res::Abort, p)
    } else {
        let (r1, p1) = sp_expression((f - 1) as nat, t, p);
        match r1 {
            Res::Parsed(e) => {
                let (r2, p2) = sp_consume(t, p1, TokenType::Semicolon, ParseErrorType::MissingPrintSemicolon);
                match r2 {
                    Res::Parsed(_) => (Res::Parsed(SStmt::Print { expr: e }), p2),
                    _ => (fail(r2), p2),
                }
            },
            _ => (fail(r1), p1),
        }
    }
}

/// `return [value];`, after the keyword.
pub open spec fn sp_return(f: nat, t: Seq<Token>, p: int) -> (Res<SStmt>, int)
    decreases f, 0nat,
{
    if f == 0 || p < 1 {
        (Res::Abort, p)
    } else {
        let keyword = t[p - 1];
        let (r1, p1) = if !sp_check(t, p, TokenType::Semicolon) {
            let (r, q) = sp_expression((f - 1) as nat, t, p);
            match r {
                Res::Parsed(e) => (Res::Parsed(Some(e)), q),
                _ => (fail(r), q),
            }
        } else {
            (Res::Parsed(None), p)
        };
        match r1 {
            Res::Parsed(value) => {
                let (r2, p2) = sp_consume(t, p1, TokenType::Semicolon, ParseErrorType::MissingReturnSemicolon);
                match r2 {
                    Res::Parsed(_) => (Res::Parsed(SStmt::Return { keyword: keyword@, value }), p2),
                    _ => (fail(r2), p2),
                }
            },
            _ => (fail(r1), p1),
        }
    }
}

/// `while (cond) body`, after the keyword.
pub open spec fn sp_while(f: nat, t: Seq<Token>, p: int) -> (Res<SStmt>, int)
    decreases f, 0nat,
{
    if f == 0 {
        (Res::Abort, p)
    } else {
        let (r1, p1) = sp_consume(t, p, TokenType::LeftParen, ParseErrorType::MissingWhileOpenParen);
        match r1 {
            Res::Parsed(_) => {
                let (r2, p2) = sp_expression((f - 1) as nat, t, p1);
                match r2 {
                    Res::Parsed(condition) => {
                        let (r3, p3) = sp_consume(
                            t,
                            p2,
                            TokenType::RightParen,
                            ParseErrorType::MissingWhileCloseParen,
                        );
                        match r3 {
                            Res::Parsed(_) => {
                                let (r4, p4) = sp_statement((f - 1) as nat, t, p3);
                                match r4 {
                                    Res::Parsed(body) => (
                                        Res::Parsed(SStmt::While { condition, body: Box::new(body) }),
                                        p4,
                                    ),
                                    _ => (fail(r4), p4),
                                }
                            },
                            _ => (fail(r3), p3),
                        }
                    },
                    _ => (fail(r2), p2),
                }
            },
            _ => (fail(r1), p1),
        }
    }
}

pub open spec fn sp_expression_statement(f: nat, t: Seq<Token>, p: int) -> (Res<SStmt>, int)
    decreases f, 0nat,
{
    if f == 0 {
        (Res::Abort, p)
    } else {
        let (r1, p1) = sp_expression((f - 1) as nat, t, p);
        match r1 {
            Res::Parsed(e) => {
                let (r2, p2) = sp_consume(
                    t,
                    p1,
                    TokenType::Semicolon,
                    ParseErrorType::MissingExpressionStmtSemicolon,
                );
                match r2 {
                    Res::Parsed(_) => (Res::Parsed(SStmt::Expression { expr: e }), p2),
                    _ => (fail(r2), p2),
                }
            },
            _ => (fail(r1), p1),
        }
    }
}

// ---------------------------------------------------------------------------
// A whole program.
// ---------------------------------------------------------------------------

/// What parsing a program gives: its statements, or every error found, or
/// nothing where the parser panics or does not terminate.
pub enum ProgramOutcome {
    Parsed(Seq<SStmt>),
    Errors(Seq<ParseError>),
    Abort,
}

/// Declarations until the end of file, gathering statements and errors.
pub open spec fn sp_program(
    f: nat,
    t: Seq<Token>,
    p: int,
    stmts: Seq<SStmt>,
    errs: Seq<ParseError>,
) -> ProgramOutcome
    decreases f,
{
    if f == 0 {
        ProgramOutcome::Abort
    } else if sp_is_eof(t, p) {
        if errs.len() > 0 {
            ProgramOutcome::Errors(errs)
        } else {
            ProgramOutcome::Parsed(stmts)
        }
    } else {
        let (r, q) = sp_declaration((f - 1) as nat, t, p);
        match r {
            Res::Parsed(s) => sp_program((f - 1) as nat, t, q, stmts.push(s), errs),
            Res::Error(e) => sp_program((f - 1) as nat, t, q, stmts, errs.push(e)),
            Res::Abort => ProgramOutcome::Abort,
        }
    }
}

/// Some fuel bound suffices: the parser terminates on `t` without a panic.
pub open spec fn parse_terminates(t: Seq<Token>) -> bool {
    exists|f: nat| !(#[trigger] sp_program(f, t, 0, Seq::empty(), Seq::empty()) is Abort)
}

/// A fuel bound that suffices for `t`, where there is one.
pub open spec fn parse_fuel(t: Seq<Token>) -> nat {
    choose|f: nat| !(#[trigger] sp_program(f, t, 0, Seq::empty(), Seq::empty()) is Abort)
}

/// What `parse_ast` gives on `t`, where it terminates.
pub open spec fn spec_parse_ast(t: Seq<Token>) -> ProgramOutcome {
    sp_program(parse_fuel(t), t, 0, Seq::empty(), Seq::empty())
}

} // verus!
