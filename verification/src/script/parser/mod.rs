pub mod model;
pub mod fuel;

use vstd::prelude::*;

use crate::script::ast::expr::{
    collapse_get, exprs_view, lemma_collapse_get_view, lemma_exprs_view_len, lemma_exprs_view_push,
    Assign, BinaryOperator, Call, Expr, Get, Literal, Logical, SExpr, SetProperty, Super, This,
    UnaryOperator, Variable,
};
use crate::script::ast::stmt::{
    functions_view, lemma_functions_view_push, lemma_stmts_view_push, stmts_view, SFunction, SStmt,
};
use crate::script::ast::{
    Ast, Block, Class, ExpressionStmt, FunctionStmt, IfStmt, PrintStmt, ReturnStmt, Stmt, VarStmt,
    WhileStmt,
};
use crate::script::scanner::{law_tokens_end_with_eof, spec_tokenize, view_tokens, ScanOutcome};
use crate::script::tokens::{SpecToken, Token, TokenType};

pub use model::{
    AssignmentTarget, FunctionType, InfixRule, ParseError, ParseErrorType, ParseRule, Precidence, PrefixRule,
};
use model::{
    spec_param_list, prec_level, sp_advance, sp_arglist, sp_arglist_loop, sp_binary, sp_call, sp_check, sp_consume,
    sp_dot, sp_error, sp_expression, sp_get_rule, sp_grouping, sp_infix, sp_infix_loop, sp_is_eof,
    sp_literal, sp_logical, sp_precedence, sp_prefix, sp_super, sp_this, sp_unary, sp_variable,
    spec_prec_next, spec_rule, Res, sp_block, sp_block_items, sp_class_decl, sp_declaration,
    sp_expression_statement, sp_for, sp_function_decl, sp_if, sp_methods, sp_params, sp_print,
    sp_program, sp_return, sp_statement, sp_synchronize, sp_var_decl, sp_while, spec_for_loop,
    spec_parse_ast, parse_fuel, parse_terminates, true_token_view, ProgramOutcome,
};

verus! {

/// There is an end-of-file token at `p` or after it.
pub open spec fn has_eof_from(t: Seq<Token>, p: int) -> bool {
    exists|i: int| p <= i < t.len() && (#[trigger] t[i]).type_ == TokenType::EOF
}

proof fn lemma_eof_ahead(t: Seq<Token>, p: int)
    requires
        0 <= p < t.len(),
        has_eof_from(t, p),
        t[p].type_ != TokenType::EOF,
    ensures
        p + 1 < t.len(),
        has_eof_from(t, p + 1),
{
    let i = choose|i: int| p <= i < t.len() && (#[trigger] t[i]).type_ == TokenType::EOF;
    assert(t[i].type_ == TokenType::EOF);
}

proof fn lemma_eof_behind(t: Seq<Token>, p: int)
    requires
        has_eof_from(t, p),
    ensures
        has_eof_from(t, p - 1),
{
    let i = choose|i: int| p <= i < t.len() && (#[trigger] t[i]).type_ == TokenType::EOF;
    assert(t[i].type_ == TokenType::EOF);
}

/// A recursive-descent parser over a token sequence that ends in an
/// end-of-file token.
pub struct Parser {
    pub tokens: Vec<Token>,
    pub current: usize,
}

/// The arguments a parse rule is applied with: whether an assignment may
/// stand here, and the expression parsed so far (for infix rules).
struct RuleArgs {
    can_assign: bool,
    target: Option<Expr>,
}

/// `r` is what the model gives as `s`, the expression taken by its view.
pub open spec fn expr_agrees(r: Result<Expr, ParseError>, s: Res<SExpr>) -> bool {
    match r {
        Ok(e) => s == Res::Parsed(e@),
        Err(e) => s == Res::Error::<SExpr>(e),
    }
}

pub open spec fn token_agrees(r: Result<Token, ParseError>, s: Res<Token>) -> bool {
    match r {
        Ok(tok) => s == Res::Parsed(tok),
        Err(e) => s == Res::Error::<Token>(e),
    }
}

pub open spec fn args_agree(r: Result<(Token, Vec<Expr>), ParseError>, s: Res<(SpecToken, Seq<SExpr>)>) -> bool {
    match r {
        Ok(pa) => s == Res::Parsed((pa.0@, exprs_view(pa.1@))),
        Err(e) => s == Res::Error::<(SpecToken, Seq<SExpr>)>(e),
    }
}

pub open spec fn stmt_agrees(r: Result<Stmt, ParseError>, s: Res<SStmt>) -> bool {
    match r {
        Ok(st) => s == Res::Parsed(st@),
        Err(e) => s == Res::Error::<SStmt>(e),
    }
}

pub open spec fn function_agrees(r: Result<FunctionStmt, ParseError>, s: Res<SFunction>) -> bool {
    match r {
        Ok(func) => s == Res::Parsed(func@),
        Err(e) => s == Res::Error::<SFunction>(e),
    }
}

/// A block agrees with the statements the model gives for it, and counts no
/// locals yet.
pub open spec fn block_agrees(r: Result<Block, ParseError>, s: Res<Seq<SStmt>>) -> bool {
    match r {
        Ok(b) => s == Res::Parsed(stmts_view((*b.stmts)@)) && b.locals == 0,
        Err(e) => s == Res::Error::<Seq<SStmt>>(e),
    }
}

pub open spec fn stmts_agree(r: Result<Vec<Stmt>, ParseError>, s: Res<Seq<SStmt>>) -> bool {
    match r {
        Ok(v) => s == Res::Parsed(stmts_view(v@)),
        Err(e) => s == Res::Error::<Seq<SStmt>>(e),
    }
}

pub open spec fn functions_agree(r: Result<Vec<FunctionStmt>, ParseError>, s: Res<Seq<SFunction>>) -> bool {
    match r {
        Ok(v) => s == Res::Parsed(functions_view(v@)),
        Err(e) => s == Res::Error::<Seq<SFunction>>(e),
    }
}

pub open spec fn tokens_agree(r: Result<Vec<Token>, ParseError>, s: Res<Seq<Token>>) -> bool {
    match r {
        Ok(v) => s == Res::Parsed(v@),
        Err(e) => s == Res::Error::<Seq<Token>>(e),
    }
}

/// One step of parsing took the parser from `before` to `after` as the model
/// says: the tokens are kept and the position is where the model ends.
pub open spec fn moved(before: Parser, after: Parser, end: int) -> bool {
    &&& after.wf()
    &&& after.tokens@ == before.tokens@
    &&& after.current == end
}

impl Precidence {
    fn level(&self) -> (r: u8)
        ensures
            r == prec_level(*self),
    {
        match self {
            Precidence::Lowest => 0,
            Precidence::Assignment => 1,
            Precidence::Or => 2,
            Precidence::And => 3,
            Precidence::Equality => 4,
            Precidence::Comparison => 5,
            Precidence::Term => 6,
            Precidence::Factor => 7,
            Precidence::Unary => 8,
            Precidence::Call => 9,
            Precidence::Primary => 10,
        }
    }

    /// The next stronger level; `Primary` has none.
    fn next(&self) -> (r: Precidence)
        requires
            spec_prec_next(*self) is Some,
        ensures
            spec_prec_next(*self) == Some(r),
    {
        match self {
            Precidence::Lowest => Precidence::Assignment,
            Precidence::Assignment => Precidence::Or,
            Precidence::Or => Precidence::And,
            Precidence::And => Precidence::Equality,
            Precidence::Equality => Precidence::Comparison,
            Precidence::Comparison => Precidence::Term,
            Precidence::Term => Precidence::Factor,
            Precidence::Factor => Precidence::Unary,
            Precidence::Unary => Precidence::Call,
            Precidence::Call => Precidence::Primary,
            Precidence::Primary => vstd::pervasive::unreached(),
        }
    }
}

impl ParseRule {
    fn new(prefix: Option<PrefixRule>, infix: Option<InfixRule>, precidence: Precidence) -> (r: Self)
        ensures
            r == (ParseRule { prefix, infix, precidence }),
    {
        ParseRule { prefix, infix, precidence }
    }
}

impl Parser {
    /// The position is on a token, and an end-of-file token lies ahead.
    pub open spec fn wf(&self) -> bool {
        &&& self.current < self.tokens@.len()
        &&& has_eof_from(self.tokens@, self.current as int)
    }

    pub fn new(tokens: Vec<Token>) -> (r: Parser)
        ensures
            r.tokens@ == tokens@,
            r.current == 0,
    {
        Parser { tokens, current: 0 }
    }

    /// The rule table of the expression parser.
    fn parse_table(type_: TokenType) -> (r: Option<ParseRule>)
        ensures
            r == spec_rule(type_),
    {
        match type_ {
            TokenType::LeftParen => Some(
                ParseRule::new(Some(PrefixRule::Grouping), Some(InfixRule::Call), Precidence::Call),
            ),
            TokenType::Dot => Some(ParseRule::new(None, Some(InfixRule::Dot), Precidence::Call)),
            TokenType::Minus => Some(
                ParseRule::new(Some(PrefixRule::Unary), Some(InfixRule::Binary), Precidence::Term),
            ),
            TokenType::Plus => Some(ParseRule::new(None, Some(InfixRule::Binary), Precidence::Term)),
            TokenType::Slash => Some(
                ParseRule::new(None, Some(InfixRule::Binary), Precidence::Factor),
            ),
            TokenType::Star => Some(ParseRule::new(None, Some(InfixRule::Binary), Precidence::Factor)),
            TokenType::Bang => Some(ParseRule::new(Some(PrefixRule::Unary), None, Precidence::Lowest)),
            TokenType::BangEqual => Some(
                ParseRule::new(None, Some(InfixRule::Binary), Precidence::Equality),
            ),
            TokenType::EqualEqual => Some(
                ParseRule::new(None, Some(InfixRule::Binary), Precidence::Equality),
            ),
            TokenType::Greater => Some(
                ParseRule::new(None, Some(InfixRule::Binary), Precidence::Comparison),
            ),
            TokenType::GreaterEqual => Some(
                ParseRule::new(None, Some(InfixRule::Binary), Precidence::Comparison),
            ),
            TokenType::Less => Some(
                ParseRule::new(None, Some(InfixRule::Binary), Precidence::Comparison),
            ),
            TokenType::LessEqual => Some(
                ParseRule::new(None, Some(InfixRule::Binary), Precidence::Comparison),
            ),
            TokenType::Identifier => Some(
                ParseRule::new(Some(PrefixRule::Variable), None, Precidence::Lowest),
            ),
            TokenType::String => Some(
                ParseRule::new(Some(PrefixRule::Literal), None, Precidence::Lowest),
            ),
            TokenType::Number => Some(
                ParseRule::new(Some(PrefixRule::Literal), None, Precidence::Lowest),
            ),
            TokenType::And => Some(ParseRule::new(None, Some(InfixRule::And), Precidence::And)),
            TokenType::Or => Some(ParseRule::new(None, Some(InfixRule::Or), Precidence::Or)),
            TokenType::True => Some(
                ParseRule::new(Some(PrefixRule::Literal), None, Precidence::Lowest),
            ),
            TokenType::False => Some(
                ParseRule::new(Some(PrefixRule::Literal), None, Precidence::Lowest),
            ),
            TokenType::Nil => Some(ParseRule::new(Some(PrefixRule::Literal), None, Precidence::Lowest)),
            TokenType::Super => Some(ParseRule::new(Some(PrefixRule::Super), None, Precidence::Lowest)),
            TokenType::This => Some(ParseRule::new(Some(PrefixRule::This), None, Precidence::Lowest)),
            TokenType::Semicolon => Some(ParseRule::new(None, None, Precidence::Lowest)),
            TokenType::RightBrace => Some(ParseRule::new(None, None, Precidence::Lowest)),
            TokenType::RightParen => Some(ParseRule::new(None, None, Precidence::Lowest)),
            _ => None,
        }
    }

    // Utility functions

    /// Advances past the next token if it is one of `types`.
    pub fn match_(&mut self, types: &[TokenType]) -> (r: bool)
        requires
            old(self).current < old(self).tokens@.len(),
        ensures
            r == (!sp_is_eof(old(self).tokens@, old(self).current as int) && types@.contains(
                old(self).tokens@[old(self).current as int].type_,
            )),
            final(self).tokens@ == old(self).tokens@,
            final(self).current == if r { old(self).current + 1 } else { old(self).current as int },
            old(self).wf() ==> final(self).wf(),
    {
        let ghost t = self.tokens@;
        let ghost c = self.current as int;
        let mut i: usize = 0;
        while i < types.len()
            invariant
                self.current < self.tokens@.len(),
                self.tokens@ == t,
                self.current == c,
                t == old(self).tokens@,
                c == old(self).current,
                i <= types@.len(),
                forall|j: int| 0 <= j < i ==> !sp_check(t, c, #[trigger] types@[j]),
            decreases types@.len() - i,
        {
            if self.check(types[i]) {
                self.advance();
                assert(types@[i as int] == t[c].type_);
                return true;
            }
            i = i + 1;
        }
        proof {
            if !sp_is_eof(t, c) && types@.contains(t[c].type_) {
                let j = choose|j: int| 0 <= j < types@.len() && types@[j] == t[c].type_;
                assert(!sp_check(t, c, types@[j]));
            }
        }
        false
    }

    /// Moves past the next token, unless it is the end of file, and returns
    /// the token read last.
    pub fn advance(&mut self) -> (r: Token)
        requires
            old(self).current < old(self).tokens@.len(),
            sp_advance(old(self).tokens@, old(self).current as int) >= 1,
        ensures
            final(self).tokens@ == old(self).tokens@,
            final(self).current == sp_advance(old(self).tokens@, old(self).current as int),
            r == old(self).tokens@[final(self).current - 1],
            old(self).wf() ==> final(self).wf(),
    {
        if !self.is_eof() {
            proof {
                if has_eof_from(self.tokens@, self.current as int) {
                    lemma_eof_ahead(self.tokens@, self.current as int);
                }
            }
            let len = self.tokens.len();
            assert(self.current < len);
            self.current = self.current + 1;
        }
        self.previous()
    }

    /// Steps back one token.
    pub fn roll_back(&mut self)
        requires
            old(self).current >= 1,
        ensures
            final(self).tokens@ == old(self).tokens@,
            final(self).current == old(self).current - 1,
            old(self).wf() ==> final(self).wf(),
    {
        proof {
            if has_eof_from(self.tokens@, self.current as int) {
                lemma_eof_behind(self.tokens@, self.current as int);
            }
        }
        self.current = self.current - 1;
    }

    pub fn check(&self, type_: TokenType) -> (r: bool)
        requires
            self.current < self.tokens@.len(),
        ensures
            r == sp_check(self.tokens@, self.current as int, type_),
    {
        if self.is_eof() {
            return false;
        }
        self.peek().type_ == type_
    }

    pub fn is_eof(&self) -> (r: bool)
        requires
            self.current < self.tokens@.len(),
        ensures
            r == sp_is_eof(self.tokens@, self.current as int),
    {
        self.peek().type_ == TokenType::EOF || self.current >= self.tokens.len()
    }

    pub fn peek(&self) -> (r: &Token)
        requires
            self.current < self.tokens@.len(),
        ensures
            *r == self.tokens@[self.current as int],
    {
        &self.tokens[self.current]
    }

    pub fn previous(&self) -> (r: Token)
        requires
            1 <= self.current <= self.tokens@.len(),
        ensures
            r == self.tokens@[self.current - 1],
    {
        self.tokens[self.current - 1].clone()
    }

    /// The next token, if it is of kind `token_type`; else the error
    /// `error_type` at the token read last.
    pub fn consume(&mut self, token_type: TokenType, error_type: ParseErrorType) -> (r: Result<
        Token,
        ParseError,
    >)
        requires
            old(self).current < old(self).tokens@.len(),
            !(sp_consume(old(self).tokens@, old(self).current as int, token_type, error_type).0 is Abort),
        ensures
            final(self).tokens@ == old(self).tokens@,
            final(self).current == sp_consume(
                old(self).tokens@,
                old(self).current as int,
                token_type,
                error_type,
            ).1,
            old(self).wf() ==> final(self).wf(),
            token_agrees(
                r,
                sp_consume(old(self).tokens@, old(self).current as int, token_type, error_type).0,
            ),
    {
        if self.check(token_type) {
            return Ok(self.advance());
        }
        Err(self.error(error_type))
    }

    pub fn error(&self, type_: ParseErrorType) -> (r: ParseError)
        requires
            1 <= self.current <= self.tokens@.len(),
        ensures
            r == sp_error(self.tokens@, self.current as int, type_),
    {
        ParseError { type_, token: self.previous() }
    }

    /// The rule of `op`; the error for a token without one names the token
    /// read last.
    fn get_rule(&self, op: TokenType) -> (r: Result<ParseRule, ParseError>)
        requires
            1 <= self.current <= self.tokens@.len(),
        ensures
            match sp_get_rule(self.tokens@, self.current as int, op) {
                Res::Parsed(rule) => r == Ok::<ParseRule, ParseError>(rule),
                Res::Error(e) => r == Err::<ParseRule, ParseError>(e),
                Res::Abort => false,
            },
    {
        let err = self.error(ParseErrorType::MissingExpression(self.previous()));
        match Self::parse_table(op) {
            Some(rule) => Ok(rule),
            None => Err(err),
        }
    }
}


impl Parser {
    fn parse_expression(&mut self, Ghost(f): Ghost<nat>) -> (r: Result<Expr, ParseError>)
        requires
            old(self).wf(),
            !(sp_expression(f, old(self).tokens@, old(self).current as int).0 is Abort),
        ensures
            moved(*old(self), *final(self), sp_expression(f, old(self).tokens@, old(self).current as int).1),
            expr_agrees(r, sp_expression(f, old(self).tokens@, old(self).current as int).0),
        decreases f, 0nat,
    {
        self.parse_precedence(Precidence::Assignment, Ghost((f - 1) as nat))
    }

    /// An expression whose operators bind at least as strongly as `prec`.
    fn parse_precedence(&mut self, prec: Precidence, Ghost(f): Ghost<nat>) -> (r: Result<
        Expr,
        ParseError,
    >)
        requires
            old(self).wf(),
            !(sp_precedence(f, old(self).tokens@, old(self).current as int, prec).0 is Abort),
        ensures
            moved(
                *old(self),
                *final(self),
                sp_precedence(f, old(self).tokens@, old(self).current as int, prec).1,
            ),
            expr_agrees(r, sp_precedence(f, old(self).tokens@, old(self).current as int, prec).0),
        decreases f, 0nat,
    {
        let ghost t = self.tokens@;
        let ghost goal = sp_precedence(f, t, self.current as int, prec);
        let op = self.advance();
        let rule = match self.get_rule(op.type_) {
            Ok(rule) => rule,
            Err(e) => return Err(e),
        };
        let can_assign = prec.level() <= Precidence::Assignment.level();
        let prefix = match rule.prefix {
            Some(prefix) => prefix,
            None => vstd::pervasive::unreached(),
        };
        let mut target = match self.parse_prefix(
            prefix,
            RuleArgs { can_assign, target: None },
            Ghost((f - 1) as nat),
        ) {
            Ok(e) => e,
            Err(e) => return Err(e),
        };
        let ghost mut fuel: nat = (f - 1) as nat;
        loop
            invariant
                self.wf(),
                self.tokens@ == t,
                t == old(self).tokens@,
                goal == sp_precedence(f, t, old(self).current as int, prec),
                !(goal.0 is Abort),
                fuel < f,
                goal == sp_infix_loop(fuel, t, self.current as int, prec, can_assign, target@),
            ensures
                self.wf(),
                self.tokens@ == t,
                goal == (if can_assign && sp_check(t, self.current as int, TokenType::Equal) {
                    (
                        Res::Error(
                            sp_error(
                                t,
                                self.current + 1,
                                ParseErrorType::InvalidAssignmentTarget(AssignmentTarget::Expr),
                            ),
                        ),
                        self.current + 1,
                    )
                } else {
                    (Res::Parsed(target@), self.current as int)
                }),
            decreases fuel,
        {
            let rule = match self.get_rule(self.peek().type_) {
                Ok(rule) => rule,
                Err(e) => return Err(e),
            };
            if !(prec.level() <= rule.precidence.level()) {
                break;
            }
            let op = self.advance();
            let rule = match self.get_rule(op.type_) {
                Ok(rule) => rule,
                Err(e) => return Err(e),
            };
            let infix = match rule.infix {
                Some(infix) => infix,
                None => vstd::pervasive::unreached(),
            };
            target =
            match self.parse_infix(
                infix,
                RuleArgs { can_assign, target: Some(target) },
                Ghost((fuel - 1) as nat),
            ) {
                Ok(e) => e,
                Err(e) => return Err(e),
            };
            proof {
                fuel = (fuel - 1) as nat;
            }
        }
        if can_assign && self.match_(&[TokenType::Equal]) {
            return Err(self.error(ParseErrorType::InvalidAssignmentTarget(AssignmentTarget::Expr)));
        }
        Ok(target)
    }

    fn parse_prefix(&mut self, rule: PrefixRule, args: RuleArgs, Ghost(f): Ghost<nat>) -> (r: Result<
        Expr,
        ParseError,
    >)
        requires
            old(self).wf(),
            !(sp_prefix(f, old(self).tokens@, old(self).current as int, rule, args.can_assign).0 is Abort),
        ensures
            moved(
                *old(self),
                *final(self),
                sp_prefix(f, old(self).tokens@, old(self).current as int, rule, args.can_assign).1,
            ),
            expr_agrees(
                r,
                sp_prefix(f, old(self).tokens@, old(self).current as int, rule, args.can_assign).0,
            ),
        decreases f, 0nat,
    {
        match rule {
            PrefixRule::Grouping => self.parse_grouping_expr(args, Ghost((f - 1) as nat)),
            PrefixRule::Unary => self.parse_unary_expr(args, Ghost((f - 1) as nat)),
            PrefixRule::Variable => self.parse_variable_expr(args, Ghost((f - 1) as nat)),
            PrefixRule::Literal => self.parse_literal_expr(args),
            PrefixRule::Super => self.parse_super_expr(args),
            PrefixRule::This => self.parse_this_expr(args),
        }
    }

    fn parse_infix(&mut self, rule: InfixRule, args: RuleArgs, Ghost(f): Ghost<nat>) -> (r: Result<
        Expr,
        ParseError,
    >)
        requires
            old(self).wf(),
            args.target is Some,
            !(sp_infix(
                f,
                old(self).tokens@,
                old(self).current as int,
                rule,
                args.can_assign,
                args.target->0@,
            ).0 is Abort),
        ensures
            moved(
                *old(self),
                *final(self),
                sp_infix(
                    f,
                    old(self).tokens@,
                    old(self).current as int,
                    rule,
                    args.can_assign,
                    args.target->0@,
                ).1,
            ),
            expr_agrees(
                r,
                sp_infix(
                    f,
                    old(self).tokens@,
                    old(self).current as int,
                    rule,
                    args.can_assign,
                    args.target->0@,
                ).0,
            ),
        decreases f, 0nat,
    {
        match rule {
            InfixRule::Call => self.parse_call_expr(args, Ghost((f - 1) as nat)),
            InfixRule::Dot => self.parse_dot_expr(args, Ghost((f - 1) as nat)),
            InfixRule::Binary => self.parse_binary_expr(args, Ghost((f - 1) as nat)),
            InfixRule::And => self.parse_and_expr(args, Ghost((f - 1) as nat)),
            InfixRule::Or => self.parse_or_expr(args, Ghost((f - 1) as nat)),
        }
    }

    // Rules

    fn parse_grouping_expr(&mut self, args: RuleArgs, Ghost(f): Ghost<nat>) -> (r: Result<
        Expr,
        ParseError,
    >)
        requires
            old(self).wf(),
            !(sp_grouping(f, old(self).tokens@, old(self).current as int).0 is Abort),
        ensures
            moved(*old(self), *final(self), sp_grouping(f, old(self).tokens@, old(self).current as int).1),
            expr_agrees(r, sp_grouping(f, old(self).tokens@, old(self).current as int).0),
        decreases f, 0nat,
    {
        let expr = match self.parse_expression(Ghost((f - 1) as nat)) {
            Ok(e) => e,
            Err(e) => return Err(e),
        };
        match self.consume(TokenType::RightParen, ParseErrorType::MissingGroupingCloseParen) {
            Ok(_) => {},
            Err(e) => return Err(e),
        }
        Ok(expr)
    }

    fn parse_call_expr(&mut self, args: RuleArgs, Ghost(f): Ghost<nat>) -> (r: Result<
        Expr,
        ParseError,
    >)
        requires
            old(self).wf(),
            args.target is Some,
            !(sp_call(f, old(self).tokens@, old(self).current as int, args.target->0@).0 is Abort),
        ensures
            moved(
                *old(self),
                *final(self),
                sp_call(f, old(self).tokens@, old(self).current as int, args.target->0@).1,
            ),
            expr_agrees(r, sp_call(f, old(self).tokens@, old(self).current as int, args.target->0@).0),
        decreases f, 0nat,
    {
        let callee = match args.target {
            Some(target) => target,
            None => vstd::pervasive::unreached(),
        };
        proof {
            lemma_collapse_get_view(callee);
        }
        let callee = collapse_get(callee);
        let (paren, arguments) = match self.parse_argument_list(Ghost((f - 1) as nat)) {
            Ok(pa) => pa,
            Err(e) => return Err(e),
        };
        Ok(Call::new(callee, paren, arguments))
    }

    /// `target.name`, or an assignment to it, or a call of it.
    fn parse_dot_expr(&mut self, args: RuleArgs, Ghost(f): Ghost<nat>) -> (r: Result<
        Expr,
        ParseError,
    >)
        requires
            old(self).wf(),
            args.target is Some,
            !(sp_dot(
                f,
                old(self).tokens@,
                old(self).current as int,
                args.can_assign,
                args.target->0@,
            ).0 is Abort),
        ensures
            moved(
                *old(self),
                *final(self),
                sp_dot(
                    f,
                    old(self).tokens@,
                    old(self).current as int,
                    args.can_assign,
                    args.target->0@,
                ).1,
            ),
            expr_agrees(
                r,
                sp_dot(
                    f,
                    old(self).tokens@,
                    old(self).current as int,
                    args.can_assign,
                    args.target->0@,
                ).0,
            ),
        decreases f, 0nat,
    {
        let target = match args.target {
            Some(target) => target,
            None => vstd::pervasive::unreached(),
        };
        let name = match self.consume(TokenType::Identifier, ParseErrorType::MissingPropertyIdentifier) {
            Ok(name) => name,
            Err(e) => return Err(e),
        };
        if args.can_assign && self.match_(&[TokenType::Equal]) {
            let value = match self.parse_expression(Ghost((f - 1) as nat)) {
                Ok(e) => e,
                Err(e) => return Err(e),
            };
            match value {
                Expr::Variable(_) => Ok(Assign::new(Variable::new(name), value)),
                Expr::Get(get) => Ok(SetProperty::new(target, name, *get.expr)),
                _ => Err(self.error(ParseErrorType::InvalidAssignmentTarget(AssignmentTarget::Dot))),
            }
        } else if self.match_(&[TokenType::LeftParen]) {
            let (paren, arguments) = match self.parse_argument_list(Ghost((f - 1) as nat)) {
                Ok(pa) => pa,
                Err(e) => return Err(e),
            };
            Ok(Call::new(target, paren, arguments))
        } else {
            match target {
                Expr::Get(v) => Ok(Get::new(*v.expr, name)),
                _ => Ok(Get::new(target, name)),
            }
        }
    }

    fn parse_unary_expr(&mut self, args: RuleArgs, Ghost(f): Ghost<nat>) -> (r: Result<
        Expr,
        ParseError,
    >)
        requires
            old(self).wf(),
            !(sp_unary(f, old(self).tokens@, old(self).current as int).0 is Abort),
        ensures
            moved(*old(self), *final(self), sp_unary(f, old(self).tokens@, old(self).current as int).1),
            expr_agrees(r, sp_unary(f, old(self).tokens@, old(self).current as int).0),
        decreases f, 0nat,
    {
        let operator = self.previous();
        let operand = match self.parse_precedence(Precidence::Unary, Ghost((f - 1) as nat)) {
            Ok(e) => e,
            Err(e) => return Err(e),
        };
        Ok(UnaryOperator::new(operator, operand))
    }

    fn parse_binary_expr(&mut self, args: RuleArgs, Ghost(f): Ghost<nat>) -> (r: Result<
        Expr,
        ParseError,
    >)
        requires
            old(self).wf(),
            args.target is Some,
            !(sp_binary(f, old(self).tokens@, old(self).current as int, args.target->0@).0 is Abort),
        ensures
            moved(
                *old(self),
                *final(self),
                sp_binary(f, old(self).tokens@, old(self).current as int, args.target->0@).1,
            ),
            expr_agrees(
                r,
                sp_binary(f, old(self).tokens@, old(self).current as int, args.target->0@).0,
            ),
        decreases f, 0nat,
    {
        let op = self.previous();
        let rule = match self.get_rule(op.type_) {
            Ok(rule) => rule,
            Err(e) => return Err(e),
        };
        let left = match args.target {
            Some(target) => target,
            None => vstd::pervasive::unreached(),
        };
        let right = match self.parse_precedence(rule.precidence.next(), Ghost((f - 1) as nat)) {
            Ok(e) => e,
            Err(e) => return Err(e),
        };
        Ok(BinaryOperator::new(left, op, right))
    }

    /// The arguments of a call, after its opening parenthesis, and the
    /// closing parenthesis.
    fn parse_argument_list(&mut self, Ghost(f): Ghost<nat>) -> (r: Result<
        (Token, Vec<Expr>),
        ParseError,
    >)
        requires
            old(self).wf(),
            !(sp_arglist(f, old(self).tokens@, old(self).current as int).0 is Abort),
        ensures
            moved(*old(self), *final(self), sp_arglist(f, old(self).tokens@, old(self).current as int).1),
            args_agree(r, sp_arglist(f, old(self).tokens@, old(self).current as int).0),
        decreases f, 0nat,
    {
        let ghost t = self.tokens@;
        let ghost goal = sp_arglist(f, t, self.current as int);
        let mut args: Vec<Expr> = Vec::new();
        if !self.check(TokenType::RightParen) {
            let first = match self.parse_expression(Ghost((f - 1) as nat)) {
                Ok(e) => e,
                Err(e) => return Err(e),
            };
            args.push(first);
            proof {
                lemma_exprs_view_push(Seq::empty(), first);
                assert(Seq::<Expr>::empty().push(first) =~= args@);
                assert(Seq::<SExpr>::empty().push(first@) =~= seq![first@]);
            }
            let ghost mut fuel: nat = (f - 1) as nat;
            let ghost rest = sp_arglist_loop(fuel, t, self.current as int, seq![first@]);
            loop
                invariant
                    self.wf(),
                    self.tokens@ == t,
                    t == old(self).tokens@,
                    goal == sp_arglist(f, t, old(self).current as int),
                    !(goal.0 is Abort),
                    !(rest.0 is Abort),
                    fuel < f,
                    rest == sp_arglist_loop(fuel, t, self.current as int, exprs_view(args@)),
                    goal == (match rest.0 {
                        Res::Parsed(a) => {
                            let (r2, p2) = sp_consume(
                                t,
                                rest.1,
                                TokenType::RightParen,
                                ParseErrorType::MissingFunctionCloseParen,
                            );
                            match r2 {
                                Res::Parsed(paren) => (Res::Parsed((paren@, a)), p2),
                                _ => (model::fail(r2), p2),
                            }
                        },
                        _ => (model::fail(rest.0), rest.1),
                    }),
                ensures
                    self.wf(),
                    self.tokens@ == t,
                    rest == (Res::Parsed(exprs_view(args@)), self.current as int),
                decreases fuel,
            {
                if !self.match_(&[TokenType::Comma]) {
                    break;
                }
                if args.len() > 255 {
                    proof {
                        lemma_exprs_view_len(args@);
                    }
                    return Err(self.error(ParseErrorType::FunctionTooManyParameters));
                }
                proof {
                    lemma_exprs_view_len(args@);
                }
                let e = match self.parse_expression(Ghost((fuel - 1) as nat)) {
                    Ok(e) => e,
                    Err(e) => return Err(e),
                };
                proof {
                    lemma_exprs_view_push(args@, e);
                }
                args.push(e);
                proof {
                    fuel = (fuel - 1) as nat;
                }
            }
        }
        let paren = match self.consume(TokenType::RightParen, ParseErrorType::MissingFunctionCloseParen) {
            Ok(paren) => paren,
            Err(e) => return Err(e),
        };
        Ok((paren, args))
    }

    /// A name: an assignment to it where one may stand and `=` follows, else
    /// a read of it.
    fn parse_variable_expr(&mut self, args: RuleArgs, Ghost(f): Ghost<nat>) -> (r: Result<
        Expr,
        ParseError,
    >)
        requires
            old(self).wf(),
            !(sp_variable(f, old(self).tokens@, old(self).current as int, args.can_assign).0 is Abort),
        ensures
            moved(
                *old(self),
                *final(self),
                sp_variable(f, old(self).tokens@, old(self).current as int, args.can_assign).1,
            ),
            expr_agrees(
                r,
                sp_variable(f, old(self).tokens@, old(self).current as int, args.can_assign).0,
            ),
        decreases f, 0nat,
    {
        let name = self.previous();
        let target = Variable::new(name.clone());
        if args.can_assign && self.match_(&[TokenType::Equal]) {
            let value = match self.parse_expression(Ghost((f - 1) as nat)) {
                Ok(e) => e,
                Err(e) => return Err(e),
            };
            Ok(Assign::new(target, value))
        } else {
            Ok(target.as_expr())
        }
    }

    fn parse_literal_expr(&mut self, args: RuleArgs) -> (r: Result<Expr, ParseError>)
        requires
            old(self).wf(),
            !(sp_literal(old(self).tokens@, old(self).current as int).0 is Abort),
        ensures
            moved(*old(self), *final(self), sp_literal(old(self).tokens@, old(self).current as int).1),
            expr_agrees(r, sp_literal(old(self).tokens@, old(self).current as int).0),
    {
        Ok(Literal::new(self.previous()))
    }

    fn parse_and_expr(&mut self, args: RuleArgs, Ghost(f): Ghost<nat>) -> (r: Result<
        Expr,
        ParseError,
    >)
        requires
            old(self).wf(),
            args.target is Some,
            !(sp_logical(
                f,
                old(self).tokens@,
                old(self).current as int,
                args.target->0@,
                Precidence::And,
            ).0 is Abort),
        ensures
            moved(
                *old(self),
                *final(self),
                sp_logical(
                    f,
                    old(self).tokens@,
                    old(self).current as int,
                    args.target->0@,
                    Precidence::And,
                ).1,
            ),
            expr_agrees(
                r,
                sp_logical(
                    f,
                    old(self).tokens@,
                    old(self).current as int,
                    args.target->0@,
                    Precidence::And,
                ).0,
            ),
        decreases f, 1nat,
    {
        self.parse_logical_expr(args, Precidence::And, Ghost(f))
    }

    fn parse_or_expr(&mut self, args: RuleArgs, Ghost(f): Ghost<nat>) -> (r: Result<
        Expr,
        ParseError,
    >)
        requires
            old(self).wf(),
            args.target is Some,
            !(sp_logical(
                f,
                old(self).tokens@,
                old(self).current as int,
                args.target->0@,
                Precidence::Or,
            ).0 is Abort),
        ensures
            moved(
                *old(self),
                *final(self),
                sp_logical(
                    f,
                    old(self).tokens@,
                    old(self).current as int,
                    args.target->0@,
                    Precidence::Or,
                ).1,
            ),
            expr_agrees(
                r,
                sp_logical(
                    f,
                    old(self).tokens@,
                    old(self).current as int,
                    args.target->0@,
                    Precidence::Or,
                ).0,
            ),
        decreases f, 1nat,
    {
        self.parse_logical_expr(args, Precidence::Or, Ghost(f))
    }

    fn parse_logical_expr(&mut self, args: RuleArgs, prec: Precidence, Ghost(f): Ghost<nat>) -> (r:
        Result<Expr, ParseError>)
        requires
            old(self).wf(),
            args.target is Some,
            !(sp_logical(f, old(self).tokens@, old(self).current as int, args.target->0@, prec).0 is Abort),
        ensures
            moved(
                *old(self),
                *final(self),
                sp_logical(f, old(self).tokens@, old(self).current as int, args.target->0@, prec).1,
            ),
            expr_agrees(
                r,
                sp_logical(f, old(self).tokens@, old(self).current as int, args.target->0@, prec).0,
            ),
        decreases f, 0nat,
    {
        let operator = self.previous();
        let left = match args.target {
            Some(target) => target,
            None => vstd::pervasive::unreached(),
        };
        let right = match self.parse_precedence(prec, Ghost((f - 1) as nat)) {
            Ok(e) => e,
            Err(e) => return Err(e),
        };
        Ok(Logical::new(left, operator, right))
    }

    fn parse_super_expr(&mut self, args: RuleArgs) -> (r: Result<Expr, ParseError>)
        requires
            old(self).wf(),
            !(sp_super(old(self).tokens@, old(self).current as int).0 is Abort),
        ensures
            moved(*old(self), *final(self), sp_super(old(self).tokens@, old(self).current as int).1),
            expr_agrees(r, sp_super(old(self).tokens@, old(self).current as int).0),
    {
        let keyword = self.previous();
        match self.consume(TokenType::Dot, ParseErrorType::MissingSuperDot) {
            Ok(_) => {},
            Err(e) => return Err(e),
        }
        let method = match self.consume(
            TokenType::Identifier,
            ParseErrorType::MissingSuperPropertyIdentifier,
        ) {
            Ok(method) => method,
            Err(e) => return Err(e),
        };
        Ok(Super::new(keyword, method))
    }

    fn parse_this_expr(&mut self, args: RuleArgs) -> (r: Result<Expr, ParseError>)
        requires
            old(self).wf(),
            !(sp_this(old(self).tokens@, old(self).current as int).0 is Abort),
        ensures
            moved(*old(self), *final(self), sp_this(old(self).tokens@, old(self).current as int).1),
            expr_agrees(r, sp_this(old(self).tokens@, old(self).current as int).0),
    {
        Ok(This::new(self.previous()))
    }
}


/// Parses a whole program: every declaration up to the end of file. On
/// errors, parsing resumes after each and all errors are returned.
pub fn parse_ast(tokens: Vec<Token>) -> (r: Result<Ast, Vec<ParseError>>)
    requires
        has_eof_from(tokens@, 0),
        parse_terminates(tokens@),
    ensures
        match spec_parse_ast(tokens@) {
            ProgramOutcome::Parsed(stmts) => r is Ok && r->Ok_0@ == stmts,
            ProgramOutcome::Errors(errs) => r is Err && r->Err_0@ == errs,
            ProgramOutcome::Abort => false,
        },
{
    let ghost t = tokens@;
    let ghost goal = spec_parse_ast(t);
    let mut parser = Parser::new(tokens);
    let mut statements: Vec<Stmt> = Vec::new();
    let mut errors: Vec<ParseError> = Vec::new();
    let ghost mut fuel: nat = parse_fuel(t);
    while !parser.is_eof()
        invariant
            parser.wf(),
            parser.tokens@ == t,
            !(goal is Abort),
            goal == sp_program(fuel, t, parser.current as int, stmts_view(statements@), errors@),
        decreases fuel,
    {
        match parser.parse_declaration(Ghost((fuel - 1) as nat)) {
            Ok(stmt) => {
                proof {
                    lemma_stmts_view_push(statements@, stmt);
                }
                statements.push(stmt);
            },
            Err(err) => errors.push(err),
        }
        proof {
            fuel = (fuel - 1) as nat;
        }
    }
    if errors.len() > 0 {
        Err(errors)
    } else {
        Ok(Ast { stmts: statements })
    }
}

impl Parser {
    /// A declaration; after an error, skips to where parsing can resume.
    fn parse_declaration(&mut self, Ghost(f): Ghost<nat>) -> (r: Result<Stmt, ParseError>)
        requires
            old(self).wf(),
            !(sp_declaration(f, old(self).tokens@, old(self).current as int).0 is Abort),
        ensures
            moved(*old(self), *final(self), sp_declaration(f, old(self).tokens@, old(self).current as int).1),
            stmt_agrees(r, sp_declaration(f, old(self).tokens@, old(self).current as int).0),
        decreases f, 0nat,
    {
        let tok = self.advance();
        let result = match tok.type_ {
            TokenType::Class => self.parse_class_decl(Ghost((f - 1) as nat)),
            TokenType::Fun => match self.parse_function_decl(
                FunctionType::Function,
                Ghost((f - 1) as nat),
            ) {
                Ok(func) => Ok(Stmt::Function(func)),
                Err(e) => Err(e),
            },
            TokenType::Var => self.parse_var_decl(Ghost((f - 1) as nat)),
            _ => {
                self.roll_back();
                self.parse_statement(Ghost((f - 1) as nat))
            },
        };
        if result.is_err() {
            self.synchronize(Ghost((f - 1) as nat));
        }
        result
    }

    /// `class Name [< Super] { methods }`, after the keyword.
    fn parse_class_decl(&mut self, Ghost(f): Ghost<nat>) -> (r: Result<Stmt, ParseError>)
        requires
            old(self).wf(),
            !(sp_class_decl(f, old(self).tokens@, old(self).current as int).0 is Abort),
        ensures
            moved(*old(self), *final(self), sp_class_decl(f, old(self).tokens@, old(self).current as int).1),
            stmt_agrees(r, sp_class_decl(f, old(self).tokens@, old(self).current as int).0),
        decreases f, 0nat,
    {
        let name = match self.consume(TokenType::Identifier, ParseErrorType::MissingClassIdentifier) {
            Ok(name) => name,
            Err(e) => return Err(e),
        };
        let mut superclass: Option<Variable> = None;
        if self.match_(&[TokenType::Less]) {
            match self.consume(TokenType::Identifier, ParseErrorType::MissingSuperclassIdentifier) {
                Ok(_) => {},
                Err(e) => return Err(e),
            }
            let name = self.previous();
            superclass = Some(Variable::new(name));
        }
        match self.consume(TokenType::LeftBrace, ParseErrorType::MissingClassOpenCurly) {
            Ok(_) => {},
            Err(e) => return Err(e),
        }
        let methods = match self.parse_methods(Ghost((f - 1) as nat)) {
            Ok(methods) => methods,
            Err(e) => return Err(e),
        };
        match self.consume(TokenType::RightBrace, ParseErrorType::MissingClassCloseCurly) {
            Ok(_) => {},
            Err(e) => return Err(e),
        }
        Ok(Class::new(name, superclass, methods))
    }

    /// The methods of a class body, up to its closing brace or the end of
    /// file.
    fn parse_methods(&mut self, Ghost(f): Ghost<nat>) -> (r: Result<Vec<FunctionStmt>, ParseError>)
        requires
            old(self).wf(),
            !(sp_methods(f, old(self).tokens@, old(self).current as int, Seq::empty()).0 is Abort),
        ensures
            moved(
                *old(self),
                *final(self),
                sp_methods(f, old(self).tokens@, old(self).current as int, Seq::empty()).1,
            ),
            functions_agree(r, sp_methods(f, old(self).tokens@, old(self).current as int, Seq::empty()).0),
        decreases f, 0nat,
    {
        let ghost t = self.tokens@;
        let ghost goal = sp_methods(f, t, self.current as int, Seq::empty());
        let mut methods: Vec<FunctionStmt> = Vec::new();
        let ghost mut fuel: nat = f;
        assert(functions_view(methods@) =~= Seq::<SFunction>::empty());
        while !self.check(TokenType::RightBrace) && !self.is_eof()
            invariant
                self.wf(),
                self.tokens@ == t,
                t == old(self).tokens@,
                goal == sp_methods(f, t, old(self).current as int, Seq::empty()),
                !(goal.0 is Abort),
                fuel <= f,
                goal == sp_methods(fuel, t, self.current as int, functions_view(methods@)),
            decreases fuel,
        {
            let m = match self.parse_function_decl(FunctionType::Method, Ghost((fuel - 1) as nat)) {
                Ok(m) => m,
                Err(e) => return Err(e),
            };
            proof {
                lemma_functions_view_push(methods@, m);
            }
            methods.push(m);
            proof {
                fuel = (fuel - 1) as nat;
            }
        }
        Ok(methods)
    }

    /// `name(params) { body }`, after `fun` or at a method.
    fn parse_function_decl(&mut self, type_: FunctionType, Ghost(f): Ghost<nat>) -> (r: Result<
        FunctionStmt,
        ParseError,
    >)
        requires
            old(self).wf(),
            !(sp_function_decl(f, old(self).tokens@, old(self).current as int, type_).0 is Abort),
        ensures
            moved(
                *old(self),
                *final(self),
                sp_function_decl(f, old(self).tokens@, old(self).current as int, type_).1,
            ),
            function_agrees(r, sp_function_decl(f, old(self).tokens@, old(self).current as int, type_).0),
        decreases f, 0nat,
    {
        let name = match self.consume(
            TokenType::Identifier,
            ParseErrorType::MissingFunctionIdentifier(type_),
        ) {
            Ok(name) => name,
            Err(e) => return Err(e),
        };
        match self.consume(TokenType::LeftParen, ParseErrorType::MissingFunctionOpenParen(type_)) {
            Ok(_) => {},
            Err(e) => return Err(e),
        }
        let params = if !self.check(TokenType::RightParen) {
            let first = match self.consume(
                TokenType::Identifier,
                ParseErrorType::MissingParameterIdentifier,
            ) {
                Ok(first) => first,
                Err(e) => return Err(e),
            };
            match self.parse_parameters(first, Ghost((f - 1) as nat)) {
                Ok(params) => params,
                Err(e) => return Err(e),
            }
        } else {
            Vec::new()
        };
        match self.consume(TokenType::RightParen, ParseErrorType::MissingFunctionCloseParen) {
            Ok(_) => {},
            Err(e) => return Err(e),
        }
        match self.consume(TokenType::LeftBrace, ParseErrorType::MissingFunctionOpenBrace(type_)) {
            Ok(_) => {},
            Err(e) => return Err(e),
        }
        let body = match self.parse_block_statement(Ghost((f - 1) as nat)) {
            Ok(body) => body,
            Err(e) => return Err(e),
        };
        let r = FunctionStmt::new(name, params, *body.stmts);
        assert(r@.params =~= spec_param_list(params@));
        Ok(r)
    }

    /// The parameters after the first: each after a comma, at most 256 in all.
    fn parse_parameters(&mut self, first: Token, Ghost(f): Ghost<nat>) -> (r: Result<
        Vec<Token>,
        ParseError,
    >)
        requires
            old(self).wf(),
            !(sp_params(f, old(self).tokens@, old(self).current as int, seq![first]).0 is Abort),
        ensures
            moved(
                *old(self),
                *final(self),
                sp_params(f, old(self).tokens@, old(self).current as int, seq![first]).1,
            ),
            tokens_agree(r, sp_params(f, old(self).tokens@, old(self).current as int, seq![first]).0),
        decreases f, 0nat,
    {
        let ghost t = self.tokens@;
        let ghost goal = sp_params(f, t, self.current as int, seq![first]);
        let mut params: Vec<Token> = Vec::new();
        params.push(first);
        assert(params@ =~= seq![first]);
        let ghost mut fuel: nat = f;
        loop
            invariant
                self.wf(),
                self.tokens@ == t,
                t == old(self).tokens@,
                goal == sp_params(f, t, old(self).current as int, seq![first]),
                !(goal.0 is Abort),
                goal == sp_params(fuel, t, self.current as int, params@),
            ensures
                self.wf(),
                self.tokens@ == t,
                goal == (Res::Parsed(params@), self.current as int),
            decreases fuel,
        {
            if !self.match_(&[TokenType::Comma]) {
                break;
            }
            if params.len() > 255 {
                return Err(self.error(ParseErrorType::FunctionTooManyParameters));
            }
            let name = match self.consume(
                TokenType::Identifier,
                ParseErrorType::MissingParameterIdentifier,
            ) {
                Ok(name) => name,
                Err(e) => return Err(e),
            };
            params.push(name);
            proof {
                fuel = (fuel - 1) as nat;
            }
        }
        Ok(params)
    }

    /// `var name [= value];`, after the keyword.
    fn parse_var_decl(&mut self, Ghost(f): Ghost<nat>) -> (r: Result<Stmt, ParseError>)
        requires
            old(self).wf(),
            !(sp_var_decl(f, old(self).tokens@, old(self).current as int).0 is Abort),
        ensures
            moved(*old(self), *final(self), sp_var_decl(f, old(self).tokens@, old(self).current as int).1),
            stmt_agrees(r, sp_var_decl(f, old(self).tokens@, old(self).current as int).0),
        decreases f, 0nat,
    {
        let name = match self.consume(TokenType::Identifier, ParseErrorType::MissingVariableIdentifier) {
            Ok(name) => name,
            Err(e) => return Err(e),
        };
        let initializer = if self.match_(&[TokenType::Equal]) {
            match self.parse_expression(Ghost((f - 1) as nat)) {
                Ok(e) => Some(e),
                Err(e) => return Err(e),
            }
        } else {
            None
        };
        match self.consume(TokenType::Semicolon, ParseErrorType::MissingVariableSemicolon) {
            Ok(_) => {},
            Err(e) => return Err(e),
        }
        Ok(VarStmt::new(name, initializer))
    }

    fn parse_statement(&mut self, Ghost(f): Ghost<nat>) -> (r: Result<Stmt, ParseError>)
        requires
            old(self).wf(),
            !(sp_statement(f, old(self).tokens@, old(self).current as int).0 is Abort),
        ensures
            moved(*old(self), *final(self), sp_statement(f, old(self).tokens@, old(self).current as int).1),
            stmt_agrees(r, sp_statement(f, old(self).tokens@, old(self).current as int).0),
        decreases f, 0nat,
    {
        let tok = self.advance();
        match tok.type_ {
            TokenType::For => self.parse_for_statement(Ghost((f - 1) as nat)),
            TokenType::If => self.parse_if_statement(Ghost((f - 1) as nat)),
            TokenType::Print => self.parse_print_statement(Ghost((f - 1) as nat)),
            TokenType::Return => self.parse_return_statement(Ghost((f - 1) as nat)),
            TokenType::While => self.parse_while_statement(Ghost((f - 1) as nat)),
            TokenType::LeftBrace => match self.parse_block_statement(Ghost((f - 1) as nat)) {
                Ok(block) => Ok(Stmt::Block(block)),
                Err(e) => Err(e),
            },
            _ => {
                self.roll_back();
                self.parse_expression_statement(Ghost((f - 1) as nat))
            },
        }
    }

    /// The declarations of a block, after its opening brace, and its closing
    /// brace.
    fn parse_block_statement(&mut self, Ghost(f): Ghost<nat>) -> (r: Result<Block, ParseError>)
        requires
            old(self).wf(),
            !(sp_block(f, old(self).tokens@, old(self).current as int).0 is Abort),
        ensures
            moved(*old(self), *final(self), sp_block(f, old(self).tokens@, old(self).current as int).1),
            block_agrees(r, sp_block(f, old(self).tokens@, old(self).current as int).0),
        decreases f, 0nat,
    {
        let statements = match self.parse_block_items(Ghost((f - 1) as nat)) {
            Ok(statements) => statements,
            Err(e) => return Err(e),
        };
        match self.consume(TokenType::RightBrace, ParseErrorType::MissingBlockCloseBrace) {
            Ok(_) => {},
            Err(e) => return Err(e),
        }
        Ok(Block { stmts: Box::new(statements), locals: 0 })
    }

    /// Declarations up to a closing brace or the end of file.
    fn parse_block_items(&mut self, Ghost(f): Ghost<nat>) -> (r: Result<Vec<Stmt>, ParseError>)
        requires
            old(self).wf(),
            !(sp_block_items(f, old(self).tokens@, old(self).current as int, Seq::empty()).0 is Abort),
        ensures
            moved(
                *old(self),
                *final(self),
                sp_block_items(f, old(self).tokens@, old(self).current as int, Seq::empty()).1,
            ),
            stmts_agree(r, sp_block_items(f, old(self).tokens@, old(self).current as int, Seq::empty()).0),
        decreases f, 0nat,
    {
        let ghost t = self.tokens@;
        let ghost goal = sp_block_items(f, t, self.current as int, Seq::empty());
        let mut statements: Vec<Stmt> = Vec::new();
        let ghost mut fuel: nat = f;
        assert(stmts_view(statements@) =~= Seq::<SStmt>::empty());
        while !self.check(TokenType::RightBrace) && !self.is_eof()
            invariant
                self.wf(),
                self.tokens@ == t,
                t == old(self).tokens@,
                goal == sp_block_items(f, t, old(self).current as int, Seq::empty()),
                !(goal.0 is Abort),
                fuel <= f,
                goal == sp_block_items(fuel, t, self.current as int, stmts_view(statements@)),
            decreases fuel,
        {
            let s = match self.parse_declaration(Ghost((fuel - 1) as nat)) {
                Ok(s) => s,
                Err(e) => return Err(e),
            };
            proof {
                lemma_stmts_view_push(statements@, s);
            }
            statements.push(s);
            proof {
                fuel = (fuel - 1) as nat;
            }
        }
        Ok(statements)
    }

    /// `for (init; cond; incr) body`, after the keyword, as a `while` loop.
    fn parse_for_statement(&mut self, Ghost(f): Ghost<nat>) -> (r: Result<Stmt, ParseError>)
        requires
            old(self).wf(),
            !(sp_for(f, old(self).tokens@, old(self).current as int).0 is Abort),
        ensures
            moved(*old(self), *final(self), sp_for(f, old(self).tokens@, old(self).current as int).1),
            stmt_agrees(r, sp_for(f, old(self).tokens@, old(self).current as int).0),
        decreases f, 0nat,
    {
        match self.consume(TokenType::LeftParen, ParseErrorType::MissingForOpenParen) {
            Ok(_) => {},
            Err(e) => return Err(e),
        }
        let initializer = match self.peek().type_ {
            TokenType::Semicolon => None,
            TokenType::Var => match self.parse_var_decl(Ghost((f - 1) as nat)) {
                Ok(s) => Some(s),
                Err(e) => return Err(e),
            },
            _ => match self.parse_expression_statement(Ghost((f - 1) as nat)) {
                Ok(s) => Some(s),
                Err(e) => return Err(e),
            },
        };
        let condition = if self.check(TokenType::Semicolon) {
            match self.parse_expression(Ghost((f - 2) as nat)) {
                Ok(e) => Some(e),
                Err(e) => return Err(e),
            }
        } else {
            None
        };
        match self.consume(TokenType::Semicolon, ParseErrorType::MissingForConditionDelimiter) {
            Ok(_) => {},
            Err(e) => return Err(e),
        }
        let increment = if self.check(TokenType::RightParen) {
            match self.parse_expression(Ghost((f - 2) as nat)) {
                Ok(e) => Some(e),
                Err(e) => return Err(e),
            }
        } else {
            None
        };
        match self.consume(TokenType::RightParen, ParseErrorType::MissingForCloseParen) {
            Ok(_) => {},
            Err(e) => return Err(e),
        }
        let mut body = match self.parse_statement(Ghost((f - 1) as nat)) {
            Ok(s) => s,
            Err(e) => return Err(e),
        };
        if let Some(increment) = increment {
            let mut stmts: Vec<Stmt> = Vec::new();
            stmts.push(body);
            stmts.push(ExpressionStmt::new(increment));
            body = Block::new(stmts);
        }
        let condition = match condition {
            Some(c) => c,
            None => Literal::new(Token::new_true()),
        };
        let body = WhileStmt::new(condition, body);
        let body = match initializer {
            None => body,
            Some(init) => {
                let mut stmts: Vec<Stmt> = Vec::new();
                stmts.push(init);
                stmts.push(body);
                Block::new(stmts)
            },
        };
        Ok(body)
    }

    /// `if (cond) then [else other]`, after the keyword.
    fn parse_if_statement(&mut self, Ghost(f): Ghost<nat>) -> (r: Result<Stmt, ParseError>)
        requires
            old(self).wf(),
            !(sp_if(f, old(self).tokens@, old(self).current as int).0 is Abort),
        ensures
            moved(*old(self), *final(self), sp_if(f, old(self).tokens@, old(self).current as int).1),
            stmt_agrees(r, sp_if(f, old(self).tokens@, old(self).current as int).0),
        decreases f, 0nat,
    {
        match self.consume(TokenType::LeftParen, ParseErrorType::MissingIfOpenParen) {
            Ok(_) => {},
            Err(e) => return Err(e),
        }
        let condition = match self.parse_expression(Ghost((f - 1) as nat)) {
            Ok(e) => e,
            Err(e) => return Err(e),
        };
        match self.consume(TokenType::RightParen, ParseErrorType::MissingIfCloseParen) {
            Ok(_) => {},
            Err(e) => return Err(e),
        }
        let then_branch = match self.parse_statement(Ghost((f - 1) as nat)) {
            Ok(s) => s,
            Err(e) => return Err(e),
        };
        let else_branch = if self.match_(&[TokenType::Else]) {
            match self.parse_statement(Ghost((f - 1) as nat)) {
                Ok(s) => Some(s),
                Err(e) => return Err(e),
            }
        } else {
            None
        };
        Ok(IfStmt::new(condition, then_branch, else_branch))
    }

    /// `print value;`, after the keyword.
    fn parse_print_statement(&mut self, Ghost(f): Ghost<nat>) -> (r: Result<Stmt, ParseError>)
        requires
            old(self).wf(),
            !(sp_print(f, old(self).tokens@, old(self).current as int).0 is Abort),
        ensures
            moved(*old(self), *final(self), sp_print(f, old(self).tokens@, old(self).current as int).1),
            stmt_agrees(r, sp_print(f, old(self).tokens@, old(self).current as int).0),
        decreases f, 0nat,
    {
        let value = match self.parse_expression(Ghost((f - 1) as nat)) {
            Ok(e) => e,
            Err(e) => return Err(e),
        };
        match self.consume(TokenType::Semicolon, ParseErrorType::MissingPrintSemicolon) {
            Ok(_) => {},
            Err(e) => return Err(e),
        }
        Ok(PrintStmt::new(value))
    }

    /// `return [value];`, after the keyword.
    fn parse_return_statement(&mut self, Ghost(f): Ghost<nat>) -> (r: Result<Stmt, ParseError>)
        requires
            old(self).wf(),
            !(sp_return(f, old(self).tokens@, old(self).current as int).0 is Abort),
        ensures
            moved(*old(self), *final(self), sp_return(f, old(self).tokens@, old(self).current as int).1),
            stmt_agrees(r, sp_return(f, old(self).tokens@, old(self).current as int).0),
        decreases f, 0nat,
    {
        let keyword = self.previous();
        let value = if !self.check(TokenType::Semicolon) {
            match self.parse_expression(Ghost((f - 1) as nat)) {
                Ok(e) => Some(e),
                Err(e) => return Err(e),
            }
        } else {
            None
        };
        match self.consume(TokenType::Semicolon, ParseErrorType::MissingReturnSemicolon) {
            Ok(_) => {},
            Err(e) => return Err(e),
        }
        Ok(ReturnStmt::new(keyword, value))
    }

    /// `while (cond) body`, after the keyword.
    fn parse_while_statement(&mut self, Ghost(f): Ghost<nat>) -> (r: Result<Stmt, ParseError>)
        requires
            old(self).wf(),
            !(sp_while(f, old(self).tokens@, old(self).current as int).0 is Abort),
        ensures
            moved(*old(self), *final(self), sp_while(f, old(self).tokens@, old(self).current as int).1),
            stmt_agrees(r, sp_while(f, old(self).tokens@, old(self).current as int).0),
        decreases f, 0nat,
    {
        match self.consume(TokenType::LeftParen, ParseErrorType::MissingWhileOpenParen) {
            Ok(_) => {},
            Err(e) => return Err(e),
        }
        let condition = match self.parse_expression(Ghost((f - 1) as nat)) {
            Ok(e) => e,
            Err(e) => return Err(e),
        };
        match self.consume(TokenType::RightParen, ParseErrorType::MissingWhileCloseParen) {
            Ok(_) => {},
            Err(e) => return Err(e),
        }
        let body = match self.parse_statement(Ghost((f - 1) as nat)) {
            Ok(s) => s,
            Err(e) => return Err(e),
        };
        Ok(WhileStmt::new(condition, body))
    }

    fn parse_expression_statement(&mut self, Ghost(f): Ghost<nat>) -> (r: Result<Stmt, ParseError>)
        requires
            old(self).wf(),
            !(sp_expression_statement(f, old(self).tokens@, old(self).current as int).0 is Abort),
        ensures
            moved(
                *old(self),
                *final(self),
                sp_expression_statement(f, old(self).tokens@, old(self).current as int).1,
            ),
            stmt_agrees(r, sp_expression_statement(f, old(self).tokens@, old(self).current as int).0),
        decreases f, 0nat,
    {
        let expr = match self.parse_expression(Ghost((f - 1) as nat)) {
            Ok(e) => e,
            Err(e) => return Err(e),
        };
        match self.consume(TokenType::Semicolon, ParseErrorType::MissingExpressionStmtSemicolon) {
            Ok(_) => {},
            Err(e) => return Err(e),
        }
        Ok(ExpressionStmt::new(expr))
    }

    /// Skips to where parsing can resume after an error: past a `;`, or at a
    /// token that starts a statement, or at the end of file.
    fn synchronize(&mut self, Ghost(f): Ghost<nat>)
        requires
            old(self).wf(),
            sp_synchronize(f, old(self).tokens@, old(self).current as int) is Some,
        ensures
            moved(
                *old(self),
                *final(self),
                sp_synchronize(f, old(self).tokens@, old(self).current as int)->0,
            ),
    {
        let ghost t = self.tokens@;
        let ghost goal = sp_synchronize(f, t, self.current as int);
        let ghost mut fuel: nat = f;
        while !self.is_eof()
            invariant
                self.wf(),
                self.tokens@ == t,
                t == old(self).tokens@,
                goal == sp_synchronize(f, t, old(self).current as int),
                goal is Some,
                goal == sp_synchronize(fuel, t, self.current as int),
            decreases fuel,
        {
            if self.previous().type_ == TokenType::Semicolon {
                return ;
            }
            match self.peek().type_ {
                TokenType::Class
                | TokenType::Fun
                | TokenType::Var
                | TokenType::For
                | TokenType::If
                | TokenType::While
                | TokenType::Print
                | TokenType::Return => {
                    return ;
                },
                _ => {},
            }
            self.advance();
            proof {
                fuel = (fuel - 1) as nat;
            }
        }
    }
}


// ---------------------------------------------------------------------------
// Laws of the parser.
// ---------------------------------------------------------------------------

/// Law: `advance` moves exactly one token forward and stays before the end of
/// file, except on the end-of-file token, where it does not move; `roll_back`
/// after a move returns to where `advance` started.
pub proof fn law_advance_then_roll_back(t: Seq<Token>, p: int)
    requires
        0 <= p < t.len(),
        has_eof_from(t, p),
    ensures
        sp_is_eof(t, p) ==> sp_advance(t, p) == p,
        !sp_is_eof(t, p) ==> {
            &&& sp_advance(t, p) == p + 1
            &&& sp_advance(t, p) < t.len()
            &&& has_eof_from(t, sp_advance(t, p))
            &&& sp_advance(t, p) - 1 == p
        },
{
    if !sp_is_eof(t, p) {
        lemma_eof_ahead(t, p);
    }
}

/// Law: the rule table gives a rule to exactly 26 kinds of token; a rule has an
/// infix part exactly where it binds above the lowest level, and a prefix part
/// exactly for the kinds that can start an expression.
pub proof fn law_rule_table(ty: TokenType)
    ensures
        (spec_rule(ty) is Some) == (ty == TokenType::LeftParen || ty == TokenType::Dot || ty
            == TokenType::Minus || ty == TokenType::Plus || ty == TokenType::Slash || ty
            == TokenType::Star || ty == TokenType::Bang || ty == TokenType::BangEqual || ty
            == TokenType::EqualEqual || ty == TokenType::Greater || ty == TokenType::GreaterEqual
            || ty == TokenType::Less || ty == TokenType::LessEqual || ty == TokenType::Identifier
            || ty == TokenType::String || ty == TokenType::Number || ty == TokenType::And || ty
            == TokenType::Or || ty == TokenType::True || ty == TokenType::False || ty
            == TokenType::Nil || ty == TokenType::Super || ty == TokenType::This || ty
            == TokenType::Semicolon || ty == TokenType::RightBrace || ty == TokenType::RightParen),
        spec_rule(ty) matches Some(rule) ==> (rule.infix is Some) == (rule.precidence
            != Precidence::Lowest),
        spec_rule(ty) matches Some(rule) ==> (rule.prefix is Some) == (ty == TokenType::LeftParen
            || ty == TokenType::Minus || ty == TokenType::Bang || ty == TokenType::Identifier || ty
            == TokenType::String || ty == TokenType::Number || ty == TokenType::True || ty
            == TokenType::False || ty == TokenType::Nil || ty == TokenType::Super || ty
            == TokenType::This),
{
}

/// How strongly the infix rule of a token kind binds its operands.
pub open spec fn binding(ty: TokenType) -> int {
    prec_level(spec_rule(ty)->0.precidence)
}

/// Whether `ty` is an infix operator of kind `ir`.
pub open spec fn infix_of(ty: TokenType, ir: InfixRule) -> bool {
    spec_rule(ty) matches Some(rule) && rule.infix == Some(ir)
}

/// Law: the binding strength of the operators, from the loosest up: `or`, then
/// `and`, then `==` and `!=`, then the comparisons `<`, `<=`, `>`, `>=`, then
/// `+` and `-`, then `*` and `/`, then calls and property reads; operators of
/// one group bind alike, and each group binds strictly tighter than an
/// assignment. So `a + b / c` groups as `a + (b / c)` and `a - b - c` as
/// `(a - b) - c`.
pub proof fn law_operator_binding()
    ensures
        infix_of(TokenType::Or, InfixRule::Or),
        infix_of(TokenType::And, InfixRule::And),
        infix_of(TokenType::EqualEqual, InfixRule::Binary),
        infix_of(TokenType::BangEqual, InfixRule::Binary),
        infix_of(TokenType::Greater, InfixRule::Binary),
        infix_of(TokenType::GreaterEqual, InfixRule::Binary),
        infix_of(TokenType::Less, InfixRule::Binary),
        infix_of(TokenType::LessEqual, InfixRule::Binary),
        infix_of(TokenType::Plus, InfixRule::Binary),
        infix_of(TokenType::Minus, InfixRule::Binary),
        infix_of(TokenType::Star, InfixRule::Binary),
        infix_of(TokenType::Slash, InfixRule::Binary),
        infix_of(TokenType::LeftParen, InfixRule::Call),
        infix_of(TokenType::Dot, InfixRule::Dot),
        prec_level(Precidence::Assignment) < binding(TokenType::Or),
        binding(TokenType::Or) < binding(TokenType::And),
        binding(TokenType::And) < binding(TokenType::EqualEqual),
        binding(TokenType::EqualEqual) == binding(TokenType::BangEqual),
        binding(TokenType::EqualEqual) < binding(TokenType::Greater),
        binding(TokenType::Greater) == binding(TokenType::GreaterEqual),
        binding(TokenType::Greater) == binding(TokenType::Less),
        binding(TokenType::Greater) == binding(TokenType::LessEqual),
        binding(TokenType::Greater) < binding(TokenType::Plus),
        binding(TokenType::Plus) == binding(TokenType::Minus),
        binding(TokenType::Plus) < binding(TokenType::Star),
        binding(TokenType::Star) == binding(TokenType::Slash),
        binding(TokenType::Star) < binding(TokenType::LeftParen),
        binding(TokenType::LeftParen) == binding(TokenType::Dot),
{
}

/// Whether `ty` starts an expression by the prefix rule `pr`.
pub open spec fn prefix_of(ty: TokenType, pr: PrefixRule) -> bool {
    spec_rule(ty) matches Some(rule) && rule.prefix == Some(pr)
}

/// Law: how each kind of token starts an expression: `(` a grouping, `-` and
/// `!` a unary operation, a name a variable, a number, a string, `true`,
/// `false` and `nil` a literal, `super` and `this` themselves.
pub proof fn law_prefix_rules()
    ensures
        prefix_of(TokenType::LeftParen, PrefixRule::Grouping),
        prefix_of(TokenType::Minus, PrefixRule::Unary),
        prefix_of(TokenType::Bang, PrefixRule::Unary),
        prefix_of(TokenType::Identifier, PrefixRule::Variable),
        prefix_of(TokenType::Number, PrefixRule::Literal),
        prefix_of(TokenType::String, PrefixRule::Literal),
        prefix_of(TokenType::True, PrefixRule::Literal),
        prefix_of(TokenType::False, PrefixRule::Literal),
        prefix_of(TokenType::Nil, PrefixRule::Literal),
        prefix_of(TokenType::Super, PrefixRule::Super),
        prefix_of(TokenType::This, PrefixRule::This),
{
}

/// Law: each level of binding strength but the strongest has a next one, one
/// step up; distinct levels differ.
pub proof fn law_precedence_steps_up(p: Precidence, q: Precidence)
    ensures
        p != Precidence::Primary ==> (spec_prec_next(p) matches Some(n) && prec_level(n)
            == prec_level(p) + 1),
        p == Precidence::Primary ==> spec_prec_next(p) is None,
        prec_level(p) == prec_level(q) ==> p == q,
{
}

/// Law: `match_` on one kind is `check` followed by `advance` when it holds;
/// `check` never holds at the end of file.
pub proof fn law_match_is_check_and_advance(t: Seq<Token>, p: int, ty: TokenType)
    ensures
        model::sp_match(t, p, ty) == (if sp_check(t, p, ty) { sp_advance(t, p) } else { p }),
        sp_is_eof(t, p) ==> !sp_check(t, p, ty),
{
}

proof fn lemma_program_errors(f: nat, t: Seq<Token>, p: int, stmts: Seq<SStmt>, errs: Seq<ParseError>)
    ensures
        sp_program(f, t, p, stmts, errs) matches ProgramOutcome::Errors(es) ==> es.len() > 0
            && es.len() >= errs.len() && es.subrange(0, errs.len() as int) == errs,
        sp_program(f, t, p, stmts, errs) matches ProgramOutcome::Parsed(ss) ==> errs.len() == 0
            && ss.len() >= stmts.len() && ss.subrange(0, stmts.len() as int) == stmts,
    decreases f,
{
    if f > 0 && !sp_is_eof(t, p) {
        let (r, q) = sp_declaration((f - 1) as nat, t, p);
        match r {
            Res::Parsed(s) => {
                lemma_program_errors((f - 1) as nat, t, q, stmts.push(s), errs);
                if let ProgramOutcome::Parsed(ss) = sp_program((f - 1) as nat, t, q, stmts.push(s), errs) {
                    assert(ss.subrange(0, stmts.len() as int) =~= stmts.push(s).subrange(0, stmts.len() as int));
                }
            },
            Res::Error(e) => {
                lemma_program_errors((f - 1) as nat, t, q, stmts, errs.push(e));
                if let ProgramOutcome::Errors(es) = sp_program((f - 1) as nat, t, q, stmts, errs.push(e)) {
                    assert(es.subrange(0, errs.len() as int) =~= errs.push(e).subrange(0, errs.len() as int));
                }
            },
            Res::Abort => {},
        }
    }
}

/// Law: where the parser terminates, `parse_ast` gives either the statements
/// of a program without errors, or at least one error; the errors found are
/// never dropped.
pub proof fn law_parse_outcome(t: Seq<Token>)
    requires
        parse_terminates(t),
    ensures
        !(spec_parse_ast(t) is Abort),
        spec_parse_ast(t) matches ProgramOutcome::Errors(es) ==> es.len() > 0,
{
    lemma_program_errors(parse_fuel(t), t, 0, Seq::empty(), Seq::empty());
}

/// Law: the tokens of a successful scan end in an end-of-file token, as
/// `parse_ast` asks of its input.
pub proof fn law_scanned_tokens_parse(source: Seq<char>, tokens: Seq<Token>)
    requires
        spec_tokenize(source) == ScanOutcome::Tokens(view_tokens(tokens)),
    ensures
        has_eof_from(tokens, 0),
{
    law_tokens_end_with_eof(source);
    let k = tokens.len() - 1;
    assert(view_tokens(tokens)[k] == tokens[k]@);
    assert(tokens[k].type_ == TokenType::EOF);
}


/// Below a minus sign that stands right before the end of file, parsing at
/// any precedence reads the same minus sign again and never finishes.
proof fn lemma_minus_at_end_aborts(f: nat, t: Seq<Token>, prec: Precidence)
    requires
        t.len() == 2,
        t[0].type_ == TokenType::Minus,
        t[1].type_ == TokenType::EOF,
    ensures
        sp_precedence(f, t, 1, prec).0 == Res::<SExpr>::Abort,
    decreases f,
{
    if f >= 3 {
        lemma_minus_at_end_aborts((f - 3) as nat, t, Precidence::Unary);
    }
}

/// Law: the parser does not terminate on a lone minus sign followed by the end
/// of file (the scan of the source `-`): a unary operator parses its operand
/// without moving past the end of file, and so reads the same operator again.
/// This is why `parse_ast` asks that parsing terminate.
pub proof fn law_lone_minus_does_not_terminate(t: Seq<Token>)
    requires
        t.len() == 2,
        t[0].type_ == TokenType::Minus,
        t[1].type_ == TokenType::EOF,
    ensures
        !parse_terminates(t),
{
    assert forall|f: nat| #[trigger] sp_program(f, t, 0, Seq::empty(), Seq::empty()) is Abort by {
        if f >= 1 {
            lemma_lone_minus_declaration((f - 1) as nat, t);
        }
    }
}

proof fn lemma_lone_minus_expression(f: nat, t: Seq<Token>)
    requires
        t.len() == 2,
        t[0].type_ == TokenType::Minus,
        t[1].type_ == TokenType::EOF,
    ensures
        sp_expression(f, t, 0).0 == Res::<SExpr>::Abort,
{
    if f >= 4 {
        lemma_minus_at_end_aborts((f - 4) as nat, t, Precidence::Unary);
        let (r, q) = sp_unary((f - 3) as nat, t, 1);
        assert(r == Res::<SExpr>::Abort);
        let (r2, q2) = sp_prefix((f - 2) as nat, t, 1, PrefixRule::Unary, true);
        assert(r2 == Res::<SExpr>::Abort);
        assert(sp_advance(t, 0) == 1);
        assert(spec_rule(TokenType::Minus) matches Some(rule) && rule.prefix == Some(PrefixRule::Unary));
    }
}

proof fn lemma_lone_minus_declaration(f: nat, t: Seq<Token>)
    requires
        t.len() == 2,
        t[0].type_ == TokenType::Minus,
        t[1].type_ == TokenType::EOF,
    ensures
        sp_declaration(f, t, 0).0 == Res::<SStmt>::Abort,
{
    if f >= 3 {
        lemma_lone_minus_expression((f - 3) as nat, t);
        assert(sp_expression_statement((f - 2) as nat, t, 0).0 == Res::<SStmt>::Abort);
        assert(sp_advance(t, 0) == 1);
        assert(sp_statement((f - 1) as nat, t, 0).0 == Res::<SStmt>::Abort);
    }
}

} // verus!
