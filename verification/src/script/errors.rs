use vstd::prelude::*;

use crate::script::parser::{AssignmentTarget, FunctionType, ParseError, ParseErrorType};
use crate::script::scanner::{ScannerError};
use crate::script::text::{decimal, push_decimal, push_str, string_push};
use crate::script::tokens::token_text;
use crate::script::vm::RuntimeError;

verus! {

/// Why a script could not be run.
#[derive(Debug)]
pub enum RunError {
    IOError,
    ScannerError(Vec<ScannerError>),
    ParserError(Vec<ParseError>),
    RuntimeError(RuntimeError),
}

pub open spec fn function_type_name(ft: FunctionType) -> Seq<char> {
    match ft {
        FunctionType::Function => "function"@,
        FunctionType::Method => "method"@,
    }
}

/// The message that describes a parse error.
pub open spec fn parse_error_message(t: ParseErrorType) -> Seq<char> {
    match t {
        ParseErrorType::MissingClassIdentifier => "Expect class name"@,
        ParseErrorType::MissingSuperclassIdentifier => "Expect superclass name"@,
        ParseErrorType::MissingClassOpenCurly => "Expect '{' before class body"@,
        ParseErrorType::MissingClassCloseCurly => "Expect '}' after class body"@,
        ParseErrorType::MissingFunctionIdentifier(ft) => "Expect "@ + function_type_name(ft) + " name"@,
        ParseErrorType::MissingFunctionOpenParen(ft) => "Expect '(' after "@ + function_type_name(ft) + " name"@,
        ParseErrorType::MissingFunctionOpenBrace(ft) => "Expect '}' before "@ + function_type_name(ft) + " name"@,
        ParseErrorType::MissingFunctionCloseParen => "Expect ')' after parameters"@,
        ParseErrorType::FunctionTooManyParameters => "Can't have more than 255 parameters"@,
        ParseErrorType::MissingParameterIdentifier => "Expect parameter name"@,
        ParseErrorType::MissingVariableIdentifier => "Expect variable name"@,
        ParseErrorType::MissingVariableSemicolon => "Expect ';' after variable declaration"@,
        ParseErrorType::MissingForOpenParen => "Expect '(' after 'for'"@,
        ParseErrorType::MissingForCloseParen => "Expect ')' after for clauses"@,
        ParseErrorType::MissingForConditionDelimiter => "Expect ';' after loop condition"@,
        ParseErrorType::MissingIfOpenParen => "Expect '(' after 'if'"@,
        ParseErrorType::MissingIfCloseParen => "Expect ')' after if contition"@,
        ParseErrorType::MissingPrintSemicolon => "Expect ';' after print"@,
        ParseErrorType::MissingReturnSemicolon => "Expect ';' after return value"@,
        ParseErrorType::MissingWhileOpenParen => "Expect '(' after while"@,
        ParseErrorType::MissingWhileCloseParen => "Expect ')' after condition"@,
        ParseErrorType::MissingExpressionStmtSemicolon => "Expect ';' after expression"@,
        ParseErrorType::MissingBlockCloseBrace => "Expect '}' after block"@,
        ParseErrorType::InvalidAssignmentTarget(target) => match target {
            AssignmentTarget::Dot => "Invalid assignment target for '.'"@,
            AssignmentTarget::Expr => "Invalid assignment target for expression"@,
        },
        ParseErrorType::MissingPropertyIdentifier => "Expect property name after '.'"@,
        ParseErrorType::MissingSuperDot => "Expect '.' after super"@,
        ParseErrorType::MissingSuperPropertyIdentifier => "Expect superclass method name"@,
        ParseErrorType::MissingGroupingCloseParen => "Expect ')' after expression"@,
        ParseErrorType::MissingExpression(token) => "Expect expression ("@ + token_text(token@) + ")"@,
    }
}

/// Appends the message that describes a parse error.
fn push_parse_error_message(s: &mut String, t: &ParseErrorType)
    ensures
        final(s)@ == old(s)@ + parse_error_message(*t),
{
    match t {
        ParseErrorType::MissingClassIdentifier => push_str(s, "Expect class name"),
        ParseErrorType::MissingSuperclassIdentifier => push_str(s, "Expect superclass name"),
        ParseErrorType::MissingClassOpenCurly => push_str(s, "Expect '{' before class body"),
        ParseErrorType::MissingClassCloseCurly => push_str(s, "Expect '}' after class body"),
        ParseErrorType::MissingFunctionIdentifier(ft) => {
            push_str(s, "Expect ");
            push_str(s, ft.to_string());
            push_str(s, " name");
        },
        ParseErrorType::MissingFunctionOpenParen(ft) => {
            push_str(s, "Expect '(' after ");
            push_str(s, ft.to_string());
            push_str(s, " name");
        },
        ParseErrorType::MissingFunctionOpenBrace(ft) => {
            push_str(s, "Expect '}' before ");
            push_str(s, ft.to_string());
            push_str(s, " name");
        },
        ParseErrorType::MissingFunctionCloseParen => push_str(s, "Expect ')' after parameters"),
        ParseErrorType::FunctionTooManyParameters => push_str(s, "Can't have more than 255 parameters"),
        ParseErrorType::MissingParameterIdentifier => push_str(s, "Expect parameter name"),
        ParseErrorType::MissingVariableIdentifier => push_str(s, "Expect variable name"),
        ParseErrorType::MissingVariableSemicolon => push_str(s, "Expect ';' after variable declaration"),
        ParseErrorType::MissingForOpenParen => push_str(s, "Expect '(' after 'for'"),
        ParseErrorType::MissingForCloseParen => push_str(s, "Expect ')' after for clauses"),
        ParseErrorType::MissingForConditionDelimiter => push_str(s, "Expect ';' after loop condition"),
        ParseErrorType::MissingIfOpenParen => push_str(s, "Expect '(' after 'if'"),
        ParseErrorType::MissingIfCloseParen => push_str(s, "Expect ')' after if contition"),
        ParseErrorType::MissingPrintSemicolon => push_str(s, "Expect ';' after print"),
        ParseErrorType::MissingReturnSemicolon => push_str(s, "Expect ';' after return value"),
        ParseErrorType::MissingWhileOpenParen => push_str(s, "Expect '(' after while"),
        ParseErrorType::MissingWhileCloseParen => push_str(s, "Expect ')' after condition"),
        ParseErrorType::MissingExpressionStmtSemicolon => push_str(s, "Expect ';' after expression"),
        ParseErrorType::MissingBlockCloseBrace => push_str(s, "Expect '}' after block"),
        ParseErrorType::InvalidAssignmentTarget(target) => match target {
            AssignmentTarget::Dot => push_str(s, "Invalid assignment target for '.'"),
            AssignmentTarget::Expr => push_str(s, "Invalid assignment target for expression"),
        },
        ParseErrorType::MissingPropertyIdentifier => push_str(s, "Expect property name after '.'"),
        ParseErrorType::MissingSuperDot => push_str(s, "Expect '.' after super"),
        ParseErrorType::MissingSuperPropertyIdentifier => push_str(s, "Expect superclass method name"),
        ParseErrorType::MissingGroupingCloseParen => push_str(s, "Expect ')' after expression"),
        ParseErrorType::MissingExpression(token) => {
            push_str(s, "Expect expression (");
            let shown = token.to_string();
            push_str(s, shown.as_str());
            push_str(s, ")");
        },
    }
}

/// The first line of every compile error: where it was found.
pub open spec fn error_location(line: usize, col: usize) -> Seq<char> {
    "Compile Error: Line "@ + decimal(line as nat) + " - Col "@ + decimal(col as nat) + " - \n> "@
}

fn push_error_location(s: &mut String, line: usize, col: usize)
    ensures
        final(s)@ == old(s)@ + error_location(line, col),
{
    push_str(s, "Compile Error: Line ");
    push_decimal(s, line);
    push_str(s, " - Col ");
    push_decimal(s, col);
    push_str(s, " - \n> ");
}

/// How a scanner error is reported.
pub open spec fn scanner_error_text(e: ScannerError) -> Seq<char> {
    match e {
        ScannerError::UnterminatedString { line, col } => error_location(line, col)
            + "Unterminated String\n"@,
        ScannerError::UnexpectedChar { line, col, ch } => error_location(line, col)
            + "Unexpected character: '"@ + seq![ch] + "'\n"@,
    }
}

/// How a parse error is reported: at the token read last.
pub open spec fn parse_error_text(e: ParseError) -> Seq<char> {
    error_location(e.token.line, e.token.col) + parse_error_message(e.type_) + "\n"@
}

pub open spec fn scanner_errors_text(es: Seq<ScannerError>) -> Seq<char>
    decreases es.len(),
{
    if es.len() == 0 {
        Seq::empty()
    } else {
        scanner_errors_text(es.drop_last()) + scanner_error_text(es.last())
    }
}

pub open spec fn parse_errors_text(es: Seq<ParseError>) -> Seq<char>
    decreases es.len(),
{
    if es.len() == 0 {
        Seq::empty()
    } else {
        parse_errors_text(es.drop_last()) + parse_error_text(es.last())
    }
}

/// How an error raised while running is reported.
pub open spec fn runtime_error_text(e: RuntimeError) -> Seq<char> {
    "Runtime error: [line "@ + decimal(e.line as nat) + "] "@ + e.msg@ + " \n"@ + e.stack_trace@
}

/// How each error is reported.
pub open spec fn run_error_text(e: RunError) -> Seq<char> {
    match e {
        RunError::IOError => "Unable to read source file"@,
        RunError::ScannerError(es) => scanner_errors_text(es@),
        RunError::ParserError(es) => parse_errors_text(es@),
        RunError::RuntimeError(e) => runtime_error_text(e),
    }
}

/// The report of scanner errors, one after the other.
pub fn display_scanner_err(errs: &Vec<ScannerError>) -> (r: String)
    ensures
        r@ == scanner_errors_text(errs@),
{
    let mut s = String::new();
    let mut i: usize = 0;
    while i < errs.len()
        invariant
            i <= errs@.len(),
            s@ == scanner_errors_text(errs@.take(i as int)),
        decreases errs@.len() - i,
    {
        match errs[i] {
            ScannerError::UnterminatedString { line, col } => {
                push_error_location(&mut s, line, col);
                push_str(&mut s, "Unterminated String\n");
            },
            ScannerError::UnexpectedChar { line, col, ch } => {
                push_error_location(&mut s, line, col);
                push_str(&mut s, "Unexpected character: '");
                string_push(&mut s, ch);
                push_str(&mut s, "'\n");
            },
        }
        assert(errs@.take(i + 1).drop_last() =~= errs@.take(i as int));
        i = i + 1;
        assert(s@ =~= scanner_errors_text(errs@.take(i as int)));
    }
    assert(errs@.take(i as int) =~= errs@);
    s
}

/// The report of parse errors, one after the other.
pub fn display_parser_err(errs: &Vec<ParseError>) -> (r: String)
    ensures
        r@ == parse_errors_text(errs@),
{
    let mut s = String::new();
    let mut i: usize = 0;
    while i < errs.len()
        invariant
            i <= errs@.len(),
            s@ == parse_errors_text(errs@.take(i as int)),
        decreases errs@.len() - i,
    {
        let e = &errs[i];
        push_error_location(&mut s, e.token.line, e.token.col);
        push_parse_error_message(&mut s, &e.type_);
        push_str(&mut s, "\n");
        assert(errs@.take(i + 1).drop_last() =~= errs@.take(i as int));
        i = i + 1;
        assert(s@ =~= parse_errors_text(errs@.take(i as int)));
    }
    assert(errs@.take(i as int) =~= errs@);
    s
}

pub fn display_runtime_err(err: &RuntimeError) -> (r: String)
    ensures
        r@ == runtime_error_text(*err),
{
    let mut s = String::new();
    push_str(&mut s, "Runtime error: [line ");
    push_decimal(&mut s, err.line);
    push_str(&mut s, "] ");
    push_str(&mut s, err.msg.as_str());
    push_str(&mut s, " \n");
    push_str(&mut s, err.stack_trace.as_str());
    s
}

/// The report of an error that stopped a script; the caller prints it and
/// stops.
pub fn display_error(err: &RunError) -> (r: String)
    ensures
        r@ == run_error_text(*err),
{
    match err {
        RunError::IOError => {
            let mut s = String::new();
            push_str(&mut s, "Unable to read source file");
            s
        },
        RunError::ScannerError(errs) => display_scanner_err(errs),
        RunError::ParserError(errs) => display_parser_err(errs),
        RunError::RuntimeError(e) => display_runtime_err(e),
    }
}

} // verus!
