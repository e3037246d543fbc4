use vstd::prelude::*;

use crate::script::scanner::{spec_tokenize, tokenize, ScanOutcome, ScannerError};
use crate::script::tokens::{token_text, SpecToken, Token};

verus! {

/// Why the runner stopped.
#[derive(Debug)]
pub enum RunnerError {
    ParserError(Vec<ScannerError>),
    RuntimeError,
}

/// Scans `source` and gives the line to show for each token, or the error
/// that stopped the scan.
pub fn run(source: &str) -> (r: Result<Vec<String>, RunnerError>)
    requires
        source@.len() <= usize::MAX / 4,
        !(spec_tokenize(source@) is Abort),
    ensures
        match spec_tokenize(source@) {
            ScanOutcome::Tokens(toks) => r matches Ok(lines) && lines@.len() == toks.len() && forall|
                i: int,
            | 0 <= i < toks.len() ==> (#[trigger] lines@[i])@ == token_text(toks[i]),
            ScanOutcome::Error(e) => r matches Err(RunnerError::ParserError(errs)) && errs@ == seq![e],
            ScanOutcome::Abort => false,
        },
{
    match tokenize(source) {
        Ok(tokens) => Ok(display_tokens(&tokens)),
        Err(e) => {
            let mut errs: Vec<ScannerError> = Vec::new();
            errs.push(e);
            assert(errs@ =~= seq![e]);
            Err(RunnerError::ParserError(errs))
        },
    }
}

/// The line to show for each token.
fn display_tokens(tokens: &Vec<Token>) -> (lines: Vec<String>)
    ensures
        lines@.len() == tokens@.len(),
        forall|i: int| 0 <= i < tokens@.len() ==> (#[trigger] lines@[i])@ == token_text(tokens@[i]@),
{
    let mut lines: Vec<String> = Vec::new();
    let mut i: usize = 0;
    while i < tokens.len()
        invariant
            i <= tokens@.len(),
            lines@.len() == i,
            forall|j: int| 0 <= j < i ==> (#[trigger] lines@[j])@ == token_text(tokens@[j]@),
        decreases tokens@.len() - i,
    {
        lines.push(tokens[i].to_string());
        i = i + 1;
    }
    lines
}

} // verus!
