use vstd::prelude::*;

use crate::script::ast::expr::{SExpr, SVariable};
use crate::script::ast::stmt::{SFunction, SStmt};
use crate::script::ast::var_type::VarType;
use crate::script::parser::model::{
    prec_level, sp_advance, sp_arglist, sp_arglist_loop, sp_binary, sp_block, sp_block_items,
    sp_call, sp_check, sp_class_decl, sp_consume, sp_declaration, sp_dot, sp_expression,
    sp_expression_statement, sp_for, sp_function_decl, sp_get_rule, sp_grouping, sp_if, sp_infix,
    sp_infix_loop, sp_logical, sp_methods, sp_opt_expression, sp_params, sp_precedence, sp_prefix,
    sp_print, sp_program, sp_return, sp_statement, sp_synchronize, sp_unary, sp_var_decl,
    sp_variable, sp_while, spec_parse_ast, parse_fuel, spec_prec_next, fail, is_stmt_start,
    sp_is_eof, FunctionType, InfixRule, ParseError, ParseErrorType, Precidence, PrefixRule,
    ProgramOutcome, Res,
};
use crate::script::tokens::{Token, TokenType};

verus! {

// ---------------------------------------------------------------------------
// More fuel never changes an outcome that less fuel reached: the model of the
// parser is a function of the tokens alone wherever the parser terminates.
// ---------------------------------------------------------------------------

proof fn mono_synchronize(f: nat, g: nat, t: Seq<Token>, p: int)
    requires
        f <= g,
        sp_synchronize(f, t, p) is Some,
    ensures
        sp_synchronize(g, t, p) == sp_synchronize(f, t, p),
    decreases f,
{
    if f > 0 && !sp_is_eof(t, p) && p >= 1 && t[p - 1].type_
        != TokenType::Semicolon && !is_stmt_start(t[p].type_) {
        mono_synchronize((f - 1) as nat, (g - 1) as nat, t, p + 1);
    }
}

proof fn mono_expression(f: nat, g: nat, t: Seq<Token>, p: int)
    requires
        f <= g,
        !(sp_expression(f, t, p).0 is Abort),
    ensures
        sp_expression(g, t, p) == sp_expression(f, t, p),
    decreases f, 0nat,
{
    mono_precedence((f - 1) as nat, (g - 1) as nat, t, p, Precidence::Assignment);
}

proof fn mono_precedence(f: nat, g: nat, t: Seq<Token>, p: int, prec: Precidence)
    requires
        f <= g,
        !(sp_precedence(f, t, p, prec).0 is Abort),
    ensures
        sp_precedence(g, t, p, prec) == sp_precedence(f, t, p, prec),
    decreases f, 0nat,
{
    let p1 = sp_advance(t, p);
    if let Res::Parsed(rule) = sp_get_rule(t, p1, t[p1 - 1].type_) {
        if let Some(pr) = rule.prefix {
            let can_assign = prec_level(prec) <= prec_level(Precidence::Assignment);
            let (r, p2) = sp_prefix((f - 1) as nat, t, p1, pr, can_assign);
            mono_prefix((f - 1) as nat, (g - 1) as nat, t, p1, pr, can_assign);
            if let Res::Parsed(target) = r {
                mono_infix_loop((f - 1) as nat, (g - 1) as nat, t, p2, prec, can_assign, target);
            }
        }
    }
}

proof fn mono_infix_loop(
    f: nat,
    g: nat,
    t: Seq<Token>,
    p: int,
    prec: Precidence,
    can_assign: bool,
    target: SExpr,
)
    requires
        f <= g,
        !(sp_infix_loop(f, t, p, prec, can_assign, target).0 is Abort),
    ensures
        sp_infix_loop(g, t, p, prec, can_assign, target) == sp_infix_loop(
            f,
            t,
            p,
            prec,
            can_assign,
            target,
        ),
    decreases f, 0nat,
{
    if let Res::Parsed(rule) = sp_get_rule(t, p, t[p].type_) {
        if prec_level(prec) <= prec_level(rule.precidence) {
            let p1 = sp_advance(t, p);
            if let Res::Parsed(rule2) = sp_get_rule(t, p1, t[p1 - 1].type_) {
                if let Some(ir) = rule2.infix {
                    let (r, p2) = sp_infix((f - 1) as nat, t, p1, ir, can_assign, target);
                    mono_infix((f - 1) as nat, (g - 1) as nat, t, p1, ir, can_assign, target);
                    if let Res::Parsed(t2) = r {
                        mono_infix_loop((f - 1) as nat, (g - 1) as nat, t, p2, prec, can_assign, t2);
                    }
                }
            }
        }
    }
}

proof fn mono_prefix(f: nat, g: nat, t: Seq<Token>, p: int, rule: PrefixRule, can_assign: bool)
    requires
        f <= g,
        !(sp_prefix(f, t, p, rule, can_assign).0 is Abort),
    ensures
        sp_prefix(g, t, p, rule, can_assign) == sp_prefix(f, t, p, rule, can_assign),
    decreases f, 0nat,
{
    match rule {
        PrefixRule::Grouping => mono_grouping((f - 1) as nat, (g - 1) as nat, t, p),
        PrefixRule::Unary => mono_unary((f - 1) as nat, (g - 1) as nat, t, p),
        PrefixRule::Variable => mono_variable((f - 1) as nat, (g - 1) as nat, t, p, can_assign),
        _ => {},
    }
}

proof fn mono_infix(
    f: nat,
    g: nat,
    t: Seq<Token>,
    p: int,
    rule: InfixRule,
    can_assign: bool,
    target: SExpr,
)
    requires
        f <= g,
        !(sp_infix(f, t, p, rule, can_assign, target).0 is Abort),
    ensures
        sp_infix(g, t, p, rule, can_assign, target) == sp_infix(f, t, p, rule, can_assign, target),
    decreases f, 0nat,
{
    match rule {
        InfixRule::Call => mono_call((f - 1) as nat, (g - 1) as nat, t, p, target),
        InfixRule::Dot => mono_dot((f - 1) as nat, (g - 1) as nat, t, p, can_assign, target),
        InfixRule::Binary => mono_binary((f - 1) as nat, (g - 1) as nat, t, p, target),
        InfixRule::And => mono_logical(
            (f - 1) as nat,
            (g - 1) as nat,
            t,
            p,
            target,
            Precidence::And,
        ),
        InfixRule::Or => mono_logical((f - 1) as nat, (g - 1) as nat, t, p, target, Precidence::Or),
    }
}

proof fn mono_grouping(f: nat, g: nat, t: Seq<Token>, p: int)
    requires
        f <= g,
        !(sp_grouping(f, t, p).0 is Abort),
    ensures
        sp_grouping(g, t, p) == sp_grouping(f, t, p),
    decreases f, 0nat,
{
    mono_expression((f - 1) as nat, (g - 1) as nat, t, p);
}

proof fn mono_unary(f: nat, g: nat, t: Seq<Token>, p: int)
    requires
        f <= g,
        !(sp_unary(f, t, p).0 is Abort),
    ensures
        sp_unary(g, t, p) == sp_unary(f, t, p),
    decreases f, 0nat,
{
    mono_precedence((f - 1) as nat, (g - 1) as nat, t, p, Precidence::Unary);
}

proof fn mono_variable(f: nat, g: nat, t: Seq<Token>, p: int, can_assign: bool)
    requires
        f <= g,
        !(sp_variable(f, t, p, can_assign).0 is Abort),
    ensures
        sp_variable(g, t, p, can_assign) == sp_variable(f, t, p, can_assign),
    decreases f, 0nat,
{
    if can_assign && sp_check(t, p, TokenType::Equal) {
        mono_expression((f - 1) as nat, (g - 1) as nat, t, p + 1);
    }
}

proof fn mono_call(f: nat, g: nat, t: Seq<Token>, p: int, target: SExpr)
    requires
        f <= g,
        !(sp_call(f, t, p, target).0 is Abort),
    ensures
        sp_call(g, t, p, target) == sp_call(f, t, p, target),
    decreases f, 0nat,
{
    mono_arglist((f - 1) as nat, (g - 1) as nat, t, p);
}

proof fn mono_dot(f: nat, g: nat, t: Seq<Token>, p: int, can_assign: bool, target: SExpr)
    requires
        f <= g,
        !(sp_dot(f, t, p, can_assign, target).0 is Abort),
    ensures
        sp_dot(g, t, p, can_assign, target) == sp_dot(f, t, p, can_assign, target),
    decreases f, 0nat,
{
    let (r1, p1) = sp_consume(
        t,
        p,
        TokenType::Identifier,
        ParseErrorType::MissingPropertyIdentifier,
    );
    if r1 is Parsed {
        if can_assign && sp_check(t, p1, TokenType::Equal) {
            mono_expression((f - 1) as nat, (g - 1) as nat, t, p1 + 1);
        } else if sp_check(t, p1, TokenType::LeftParen) {
            mono_arglist((f - 1) as nat, (g - 1) as nat, t, p1 + 1);
        }
    }
}

proof fn mono_binary(f: nat, g: nat, t: Seq<Token>, p: int, left: SExpr)
    requires
        f <= g,
        !(sp_binary(f, t, p, left).0 is Abort),
    ensures
        sp_binary(g, t, p, left) == sp_binary(f, t, p, left),
    decreases f, 0nat,
{
    if let Res::Parsed(rule) = sp_get_rule(t, p, t[p - 1].type_) {
        if let Some(next) = spec_prec_next(rule.precidence) {
            mono_precedence((f - 1) as nat, (g - 1) as nat, t, p, next);
        }
    }
}

proof fn mono_logical(f: nat, g: nat, t: Seq<Token>, p: int, left: SExpr, prec: Precidence)
    requires
        f <= g,
        !(sp_logical(f, t, p, left, prec).0 is Abort),
    ensures
        sp_logical(g, t, p, left, prec) == sp_logical(f, t, p, left, prec),
    decreases f, 0nat,
{
    mono_precedence((f - 1) as nat, (g - 1) as nat, t, p, prec);
}

proof fn mono_arglist(f: nat, g: nat, t: Seq<Token>, p: int)
    requires
        f <= g,
        !(sp_arglist(f, t, p).0 is Abort),
    ensures
        sp_arglist(g, t, p) == sp_arglist(f, t, p),
    decreases f, 0nat,
{
    if !sp_check(t, p, TokenType::RightParen) {
        let (r0, q) = sp_expression((f - 1) as nat, t, p);
        mono_expression((f - 1) as nat, (g - 1) as nat, t, p);
        if let Res::Parsed(e) = r0 {
            mono_arglist_loop((f - 1) as nat, (g - 1) as nat, t, q, seq![e]);
        }
    }
}

proof fn mono_arglist_loop(f: nat, g: nat, t: Seq<Token>, p: int, acc: Seq<SExpr>)
    requires
        f <= g,
        !(sp_arglist_loop(f, t, p, acc).0 is Abort),
    ensures
        sp_arglist_loop(g, t, p, acc) == sp_arglist_loop(f, t, p, acc),
    decreases f, 0nat,
{
    if sp_check(t, p, TokenType::Comma) && !(acc.len() > 255) {
        let (r, p1) = sp_expression((f - 1) as nat, t, p + 1);
        mono_expression((f - 1) as nat, (g - 1) as nat, t, p + 1);
        if let Res::Parsed(e) = r {
            mono_arglist_loop((f - 1) as nat, (g - 1) as nat, t, p1, acc.push(e));
        }
    }
}

proof fn mono_declaration(f: nat, g: nat, t: Seq<Token>, p: int)
    requires
        f <= g,
        !(sp_declaration(f, t, p).0 is Abort),
    ensures
        sp_declaration(g, t, p) == sp_declaration(f, t, p),
    decreases f, 0nat,
{
    let p1 = sp_advance(t, p);
    let ty = t[p1 - 1].type_;
    let f1 = (f - 1) as nat;
    let g1 = (g - 1) as nat;
    if ty == TokenType::Class {
        mono_class_decl(f1, g1, t, p1);
    } else if ty == TokenType::Fun {
        mono_function_decl(f1, g1, t, p1, FunctionType::Function);
    } else if ty == TokenType::Var {
        mono_var_decl(f1, g1, t, p1);
    } else {
        mono_statement(f1, g1, t, p1 - 1);
    }
    let (r, q) = if ty == TokenType::Class {
        sp_class_decl(f1, t, p1)
    } else if ty == TokenType::Fun {
        let (rf, qf) = sp_function_decl(f1, t, p1, FunctionType::Function);
        match rf {
            Res::Parsed(func) => (Res::Parsed(SStmt::Function { func }), qf),
            _ => (fail(rf), qf),
        }
    } else if ty == TokenType::Var {
        sp_var_decl(f1, t, p1)
    } else {
        sp_statement(f1, t, p1 - 1)
    };
    if r is Error {
        mono_synchronize(f1, g1, t, q);
    }
}

proof fn mono_class_decl(f: nat, g: nat, t: Seq<Token>, p: int)
    requires
        f <= g,
        !(sp_class_decl(f, t, p).0 is Abort),
    ensures
        sp_class_decl(g, t, p) == sp_class_decl(f, t, p),
    decreases f, 0nat,
{
    let (r1, p1) = sp_consume(
        t,
        p,
        TokenType::Identifier,
        ParseErrorType::MissingClassIdentifier,
    );
    if r1 is Parsed {
        let (rs, p2) = if sp_check(t, p1, TokenType::Less) {
            let (r2, q) = sp_consume(
                t,
                p1 + 1,
                TokenType::Identifier,
                ParseErrorType::MissingSuperclassIdentifier,
            );
            match r2 {
                Res::Parsed(sup) => (
                    Res::Parsed(
                        Some(
                            SVariable {
                                name: sup@,
                                var_type: VarType::Global,
                            },
                        ),
                    ),
                    q,
                ),
                _ => (fail(r2), q),
            }
        } else {
            (Res::Parsed(None), p1)
        };
        if rs is Parsed {
            let (r3, p3) = sp_consume(
                t,
                p2,
                TokenType::LeftBrace,
                ParseErrorType::MissingClassOpenCurly,
            );
            if r3 is Parsed {
                mono_methods((f - 1) as nat, (g - 1) as nat, t, p3, Seq::empty());
            }
        }
    }
}

proof fn mono_methods(f: nat, g: nat, t: Seq<Token>, p: int, acc: Seq<SFunction>)
    requires
        f <= g,
        !(sp_methods(f, t, p, acc).0 is Abort),
    ensures
        sp_methods(g, t, p, acc) == sp_methods(f, t, p, acc),
    decreases f, 0nat,
{
    if !sp_check(t, p, TokenType::RightBrace) && !sp_is_eof(t, p) {
        let (r, q) = sp_function_decl((f - 1) as nat, t, p, FunctionType::Method);
        mono_function_decl((f - 1) as nat, (g - 1) as nat, t, p, FunctionType::Method);
        if let Res::Parsed(m) = r {
            mono_methods((f - 1) as nat, (g - 1) as nat, t, q, acc.push(m));
        }
    }
}

proof fn mono_function_decl(f: nat, g: nat, t: Seq<Token>, p: int, ft: FunctionType)
    requires
        f <= g,
        !(sp_function_decl(f, t, p, ft).0 is Abort),
    ensures
        sp_function_decl(g, t, p, ft) == sp_function_decl(f, t, p, ft),
    decreases f, 0nat,
{
    let (r1, p1) = sp_consume(
        t,
        p,
        TokenType::Identifier,
        ParseErrorType::MissingFunctionIdentifier(ft),
    );
    if r1 is Parsed {
        let (r2, p2) = sp_consume(
            t,
            p1,
            TokenType::LeftParen,
            ParseErrorType::MissingFunctionOpenParen(ft),
        );
        if r2 is Parsed {
            if !sp_check(t, p2, TokenType::RightParen) {
                let (r0, q) = sp_consume(
                    t,
                    p2,
                    TokenType::Identifier,
                    ParseErrorType::MissingParameterIdentifier,
                );
                if let Res::Parsed(first) = r0 {
                    mono_params((f - 1) as nat, (g - 1) as nat, t, q, seq![first]);
                }
            }
            let (r3, p3) = if !sp_check(t, p2, TokenType::RightParen) {
                let (r0, q) = sp_consume(
                    t,
                    p2,
                    TokenType::Identifier,
                    ParseErrorType::MissingParameterIdentifier,
                );
                match r0 {
                    Res::Parsed(first) => sp_params((f - 1) as nat, t, q, seq![first]),
                    _ => (fail(r0), q),
                }
            } else {
                (Res::Parsed(Seq::empty()), p2)
            };
            if r3 is Parsed {
                let (r4, p4) = sp_consume(
                    t,
                    p3,
                    TokenType::RightParen,
                    ParseErrorType::MissingFunctionCloseParen,
                );
                if r4 is Parsed {
                    let (r5, p5) = sp_consume(
                        t,
                        p4,
                        TokenType::LeftBrace,
                        ParseErrorType::MissingFunctionOpenBrace(ft),
                    );
                    if r5 is Parsed {
                        mono_block((f - 1) as nat, (g - 1) as nat, t, p5);
                    }
                }
            }
        }
    }
}

proof fn mono_params(f: nat, g: nat, t: Seq<Token>, p: int, acc: Seq<Token>)
    requires
        f <= g,
        !(sp_params(f, t, p, acc).0 is Abort),
    ensures
        sp_params(g, t, p, acc) == sp_params(f, t, p, acc),
    decreases f, 0nat,
{
    if sp_check(t, p, TokenType::Comma) && !(acc.len() > 255) {
        let (r, q) = sp_consume(
            t,
            p + 1,
            TokenType::Identifier,
            ParseErrorType::MissingParameterIdentifier,
        );
        if let Res::Parsed(name) = r {
            mono_params((f - 1) as nat, (g - 1) as nat, t, q, acc.push(name));
        }
    }
}

proof fn mono_var_decl(f: nat, g: nat, t: Seq<Token>, p: int)
    requires
        f <= g,
        !(sp_var_decl(f, t, p).0 is Abort),
    ensures
        sp_var_decl(g, t, p) == sp_var_decl(f, t, p),
    decreases f, 0nat,
{
    let (r1, p1) = sp_consume(
        t,
        p,
        TokenType::Identifier,
        ParseErrorType::MissingVariableIdentifier,
    );
    if r1 is Parsed && sp_check(t, p1, TokenType::Equal) {
        mono_expression((f - 1) as nat, (g - 1) as nat, t, p1 + 1);
    }
}

proof fn mono_statement(f: nat, g: nat, t: Seq<Token>, p: int)
    requires
        f <= g,
        !(sp_statement(f, t, p).0 is Abort),
    ensures
        sp_statement(g, t, p) == sp_statement(f, t, p),
    decreases f, 0nat,
{
    let p1 = sp_advance(t, p);
    let ty = t[p1 - 1].type_;
    let f1 = (f - 1) as nat;
    let g1 = (g - 1) as nat;
    if ty == TokenType::For {
        mono_for(f1, g1, t, p1);
    } else if ty == TokenType::If {
        mono_if(f1, g1, t, p1);
    } else if ty == TokenType::Print {
        mono_print(f1, g1, t, p1);
    } else if ty == TokenType::Return {
        mono_return(f1, g1, t, p1);
    } else if ty == TokenType::While {
        mono_while(f1, g1, t, p1);
    } else if ty == TokenType::LeftBrace {
        mono_block(f1, g1, t, p1);
    } else {
        mono_expression_statement(f1, g1, t, p1 - 1);
    }
}

proof fn mono_block(f: nat, g: nat, t: Seq<Token>, p: int)
    requires
        f <= g,
        !(sp_block(f, t, p).0 is Abort),
    ensures
        sp_block(g, t, p) == sp_block(f, t, p),
    decreases f, 0nat,
{
    mono_block_items((f - 1) as nat, (g - 1) as nat, t, p, Seq::empty());
}

proof fn mono_block_items(f: nat, g: nat, t: Seq<Token>, p: int, acc: Seq<SStmt>)
    requires
        f <= g,
        !(sp_block_items(f, t, p, acc).0 is Abort),
    ensures
        sp_block_items(g, t, p, acc) == sp_block_items(f, t, p, acc),
    decreases f, 0nat,
{
    if !sp_check(t, p, TokenType::RightBrace) && !sp_is_eof(t, p) {
        let (r, q) = sp_declaration((f - 1) as nat, t, p);
        mono_declaration((f - 1) as nat, (g - 1) as nat, t, p);
        if let Res::Parsed(s) = r {
            mono_block_items((f - 1) as nat, (g - 1) as nat, t, q, acc.push(s));
        }
    }
}

proof fn mono_for(f: nat, g: nat, t: Seq<Token>, p: int)
    requires
        f <= g,
        !(sp_for(f, t, p).0 is Abort),
    ensures
        sp_for(g, t, p) == sp_for(f, t, p),
    decreases f, 0nat,
{
    let f1 = (f - 1) as nat;
    let g1 = (g - 1) as nat;
    let (r1, p1) = sp_consume(
        t,
        p,
        TokenType::LeftParen,
        ParseErrorType::MissingForOpenParen,
    );
    if r1 is Parsed {
        if t[p1].type_ == TokenType::Semicolon {
        } else if t[p1].type_ == TokenType::Var {
            mono_var_decl(f1, g1, t, p1);
        } else {
            mono_expression_statement(f1, g1, t, p1);
        }
        let (ri, p2) = if t[p1].type_ == TokenType::Semicolon {
            (Res::Parsed(None), p1)
        } else if t[p1].type_ == TokenType::Var {
            let (r, q) = sp_var_decl(f1, t, p1);
            match r {
                Res::Parsed(s) => (Res::Parsed(Some(s)), q),
                _ => (fail(r), q),
            }
        } else {
            let (r, q) = sp_expression_statement(f1, t, p1);
            match r {
                Res::Parsed(s) => (Res::Parsed(Some(s)), q),
                _ => (fail(r), q),
            }
        };
        if ri is Parsed {
            let (rc, p3) = sp_opt_expression(f1, t, p2, TokenType::Semicolon);
            mono_opt_expression(f1, g1, t, p2, TokenType::Semicolon);
            if rc is Parsed {
                let (r4, p4) = sp_consume(
                    t,
                    p3,
                    TokenType::Semicolon,
                    ParseErrorType::MissingForConditionDelimiter,
                );
                if r4 is Parsed {
                    let (rn, p5) = sp_opt_expression(f1, t, p4, TokenType::RightParen);
                    mono_opt_expression(f1, g1, t, p4, TokenType::RightParen);
                    if rn is Parsed {
                        let (r6, p6) = sp_consume(
                            t,
                            p5,
                            TokenType::RightParen,
                            ParseErrorType::MissingForCloseParen,
                        );
                        if r6 is Parsed {
                            mono_statement(f1, g1, t, p6);
                        }
                    }
                }
            }
        }
    }
}

proof fn mono_opt_expression(f: nat, g: nat, t: Seq<Token>, p: int, ty: TokenType)
    requires
        f <= g,
        !(sp_opt_expression(f, t, p, ty).0 is Abort),
    ensures
        sp_opt_expression(g, t, p, ty) == sp_opt_expression(f, t, p, ty),
    decreases f, 0nat,
{
    if sp_check(t, p, ty) {
        mono_expression((f - 1) as nat, (g - 1) as nat, t, p);
    }
}

proof fn mono_if(f: nat, g: nat, t: Seq<Token>, p: int)
    requires
        f <= g,
        !(sp_if(f, t, p).0 is Abort),
    ensures
        sp_if(g, t, p) == sp_if(f, t, p),
    decreases f, 0nat,
{
    let f1 = (f - 1) as nat;
    let g1 = (g - 1) as nat;
    let (r1, p1) = sp_consume(
        t,
        p,
        TokenType::LeftParen,
        ParseErrorType::MissingIfOpenParen,
    );
    if r1 is Parsed {
        let (r2, p2) = sp_expression(f1, t, p1);
        mono_expression(f1, g1, t, p1);
        if r2 is Parsed {
            let (r3, p3) = sp_consume(
                t,
                p2,
                TokenType::RightParen,
                ParseErrorType::MissingIfCloseParen,
            );
            if r3 is Parsed {
                let (r4, p4) = sp_statement(f1, t, p3);
                mono_statement(f1, g1, t, p3);
                if r4 is Parsed && sp_check(t, p4, TokenType::Else) {
                    mono_statement(f1, g1, t, p4 + 1);
                }
            }
        }
    }
}

proof fn mono_print(f: nat, g: nat, t: Seq<Token>, p: int)
    requires
        f <= g,
        !(sp_print(f, t, p).0 is Abort),
    ensures
        sp_print(g, t, p) == sp_print(f, t, p),
    decreases f, 0nat,
{
    mono_expression((f - 1) as nat, (g - 1) as nat, t, p);
}

proof fn mono_return(f: nat, g: nat, t: Seq<Token>, p: int)
    requires
        f <= g,
        !(sp_return(f, t, p).0 is Abort),
    ensures
        sp_return(g, t, p) == sp_return(f, t, p),
    decreases f, 0nat,
{
    if !sp_check(t, p, TokenType::Semicolon) {
        mono_expression((f - 1) as nat, (g - 1) as nat, t, p);
    }
}

proof fn mono_while(f: nat, g: nat, t: Seq<Token>, p: int)
    requires
        f <= g,
        !(sp_while(f, t, p).0 is Abort),
    ensures
        sp_while(g, t, p) == sp_while(f, t, p),
    decreases f, 0nat,
{
    let f1 = (f - 1) as nat;
    let g1 = (g - 1) as nat;
    let (r1, p1) = sp_consume(
        t,
        p,
        TokenType::LeftParen,
        ParseErrorType::MissingWhileOpenParen,
    );
    if r1 is Parsed {
        let (r2, p2) = sp_expression(f1, t, p1);
        mono_expression(f1, g1, t, p1);
        if r2 is Parsed {
            let (r3, p3) = sp_consume(
                t,
                p2,
                TokenType::RightParen,
                ParseErrorType::MissingWhileCloseParen,
            );
            if r3 is Parsed {
                mono_statement(f1, g1, t, p3);
            }
        }
    }
}

proof fn mono_expression_statement(f: nat, g: nat, t: Seq<Token>, p: int)
    requires
        f <= g,
        !(sp_expression_statement(f, t, p).0 is Abort),
    ensures
        sp_expression_statement(g, t, p) == sp_expression_statement(f, t, p),
    decreases f, 0nat,
{
    mono_expression((f - 1) as nat, (g - 1) as nat, t, p);
}

proof fn mono_program(
    f: nat,
    g: nat,
    t: Seq<Token>,
    p: int,
    stmts: Seq<SStmt>,
    errs: Seq<ParseError>,
)
    requires
        f <= g,
        !(sp_program(f, t, p, stmts, errs) is Abort),
    ensures
        sp_program(g, t, p, stmts, errs) == sp_program(f, t, p, stmts, errs),
    decreases f,
{
    if !sp_is_eof(t, p) {
        let (r, q) = sp_declaration((f - 1) as nat, t, p);
        mono_declaration((f - 1) as nat, (g - 1) as nat, t, p);
        match r {
            Res::Parsed(s) => mono_program((f - 1) as nat, (g - 1) as nat, t, q, stmts.push(s), errs),
            Res::Error(e) => mono_program((f - 1) as nat, (g - 1) as nat, t, q, stmts, errs.push(e)),
            Res::Abort => {},
        }
    }
}

/// Law: the outcome of parsing does not depend on the fuel bound, once it is
/// enough; any bound under which the parser neither panics nor runs out
/// gives what `parse_ast` gives.
pub proof fn law_fuel_independent(t: Seq<Token>, f: nat)
    requires
        !(sp_program(f, t, 0, Seq::empty(), Seq::empty()) is Abort),
    ensures
        spec_parse_ast(t) == sp_program(f, t, 0, Seq::empty(), Seq::empty()),
{
    let g = parse_fuel(t);
    assert(!(sp_program(g, t, 0, Seq::empty(), Seq::empty()) is Abort));
    if f <= g {
        mono_program(f, g, t, 0, Seq::empty(), Seq::empty());
    } else {
        mono_program(g, f, t, 0, Seq::empty(), Seq::empty());
    }
}

} // verus!
