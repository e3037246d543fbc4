use vstd::prelude::*;

use crate::script::text::{decimal, push_decimal, push_str};
use crate::script::tokens::{Token, TokenType};

verus! {

/// Whether errors were found while a script was compiled or run.
pub struct ScriptRuntime {
    pub had_error: bool,
    pub had_runtime_error: bool,
}

/// The report line for an error at `line`: `[line L] Error WHERE: MESSAGE`.
pub open spec fn report_text(line: usize, where_: Seq<char>, message: Seq<char>) -> Seq<char> {
    "[line "@ + decimal(line as nat) + "] Error "@ + where_ + ": "@ + message
}

/// Where a parse error is said to be: at the end of file, or at the message
/// itself, quoted.
pub open spec fn parse_error_where(token: Token, message: Seq<char>) -> Seq<char> {
    if token.type_ == TokenType::EOF {
        " at end of file"@
    } else {
        " at '"@ + message + "'"@
    }
}

impl ScriptRuntime {
    pub fn new() -> (r: ScriptRuntime)
        ensures
            !r.had_error,
            !r.had_runtime_error,
    {
        ScriptRuntime { had_error: false, had_runtime_error: false }
    }

    /// The interactive prompt; it does nothing yet.
    pub fn run_prompt(&mut self)
        ensures
            final(self).had_error == old(self).had_error,
            final(self).had_runtime_error == old(self).had_runtime_error,
    {
    }

    /// Records an error found while scanning; returns the line to report.
    pub fn error_tokenizing(&mut self, line: usize, message: &str) -> (r: String)
        ensures
            r@ == report_text(line, ""@, message@),
            final(self).had_error,
            final(self).had_runtime_error == old(self).had_runtime_error,
    {
        self.report(line, "", message)
    }

    /// Records an error found while parsing; returns the line to report.
    pub fn error_parsing(&mut self, token: Token, message: &str) -> (r: String)
        ensures
            r@ == report_text(token.line, parse_error_where(token, message@), message@),
            final(self).had_error,
            final(self).had_runtime_error == old(self).had_runtime_error,
    {
        let mut loc = String::new();
        if token.type_ == TokenType::EOF {
            push_str(&mut loc, " at end of file");
        } else {
            push_str(&mut loc, " at '");
            push_str(&mut loc, message);
            push_str(&mut loc, "'");
        }
        self.report(token.line, loc.as_str(), message)
    }

    fn report(&mut self, line: usize, where_: &str, message: &str) -> (r: String)
        ensures
            r@ == report_text(line, where_@, message@),
            final(self).had_error,
            final(self).had_runtime_error == old(self).had_runtime_error,
    {
        let mut s = String::new();
        push_str(&mut s, "[line ");
        push_decimal(&mut s, line);
        push_str(&mut s, "] Error ");
        push_str(&mut s, where_);
        push_str(&mut s, ": ");
        push_str(&mut s, message);
        self.had_error = true;
        s
    }
}

} // verus!
