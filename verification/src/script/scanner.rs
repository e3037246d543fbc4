use vstd::prelude::*;

use crate::script::text::{
    chars_to_str, collect_chars, digits, lemma_utf8_len_bound, push_digits, push_str, string_push,
};
use crate::script::tokens::{token_type_name, SpecToken, Token, TokenType};

verus! {

/// What can go wrong while scanning.
#[derive(Debug, Clone, Copy, PartialEq, Eq, Structural)]
pub enum ScannerError {
    UnterminatedString { line: usize, col: usize },
    UnexpectedChar { line: usize, col: usize, ch: char },
}

// ---------------------------------------------------------------------------
// The scanner as a function of the source characters.
// ---------------------------------------------------------------------------

/// The character at `i`, or `'\0'` outside the source.
pub open spec fn char_at(chars: Seq<char>, i: int) -> char {
    if 0 <= i < chars.len() {
        chars[i]
    } else {
        '\0'
    }
}

/// Line of the cursor once `n` characters have been consumed: one more than the
/// number of line breaks that precede the last consumed character.
pub open spec fn line_after(chars: Seq<char>, n: int) -> int
    decreases n,
{
    if n <= 1 {
        1
    } else {
        line_after(chars, n - 1) + if char_at(chars, n - 2) == '\n' {
            1int
        } else {
            0int
        }
    }
}

/// Column of the cursor once `n` characters have been consumed: it starts at one,
/// grows by one per character, and falls back to one on the character that
/// follows a line break.
pub open spec fn col_after(chars: Seq<char>, n: int) -> int
    decreases n,
{
    if n <= 0 {
        1
    } else if n >= 2 && char_at(chars, n - 2) == '\n' {
        1
    } else {
        col_after(chars, n - 1) + 1
    }
}

pub open spec fn is_ws(c: char) -> bool {
    c == ' ' || c == '\r' || c == '\n' || c == '\t'
}

pub open spec fn spec_is_digit(c: char) -> bool {
    '0' <= c && c <= '9'
}

pub open spec fn spec_is_alpha(c: char) -> bool {
    ('a' <= c && c <= 'z') || ('A' <= c && c <= 'Z') || c == '_'
}

pub open spec fn spec_is_alpha_numeric(c: char) -> bool {
    spec_is_alpha(c) || spec_is_digit(c)
}

/// Index just past the first line break at or after `i` (or the end).
pub open spec fn eol_end(chars: Seq<char>, i: int) -> int
    decreases chars.len() - i,
{
    if i >= chars.len() {
        chars.len() as int
    } else if chars[i] == '\n' {
        i + 1
    } else {
        eol_end(chars, i + 1)
    }
}

pub proof fn lemma_eol_end(chars: Seq<char>, i: int)
    ensures
        i < chars.len() ==> i < eol_end(chars, i) <= chars.len(),
        i >= chars.len() ==> eol_end(chars, i) == chars.len(),
    decreases chars.len() - i,
{
    if i < chars.len() && chars[i] != '\n' {
        lemma_eol_end(chars, i + 1);
    }
}

/// Where the next token starts once whitespace is skipped from `i`: a `//`
/// comment runs to the end of its line, after which at least one whitespace
/// character is needed for skipping to go on.
pub open spec fn skip_ws(chars: Seq<char>, i: int) -> int
    decreases chars.len() - i,
{
    let j = if char_at(chars, i) == '/' && char_at(chars, i + 1) == '/' {
        eol_end(chars, i)
    } else {
        i
    };
    if i < 0 || i >= chars.len() {
        i
    } else if is_ws(char_at(chars, j)) {
        proof {
            lemma_eol_end(chars, i);
        }
        skip_ws(chars, j + 1)
    } else {
        j
    }
}

/// End of the run of characters satisfying the identifier rule from `i`.
pub open spec fn alnum_end(chars: Seq<char>, i: int) -> int
    decreases chars.len() - i,
{
    if 0 <= i < chars.len() && spec_is_alpha_numeric(chars[i]) {
        alnum_end(chars, i + 1)
    } else {
        i
    }
}

/// End of the run of digits from `i`.
pub open spec fn digit_end(chars: Seq<char>, i: int) -> int
    decreases chars.len() - i,
{
    if 0 <= i < chars.len() && spec_is_digit(chars[i]) {
        digit_end(chars, i + 1)
    } else {
        i
    }
}

/// End of a number whose first digit is at `s`: digits, then optionally a dot
/// followed by at least one digit and the digits after it.
pub open spec fn number_end(chars: Seq<char>, s: int) -> int {
    let t1 = digit_end(chars, s + 1);
    if char_at(chars, t1) == '.' && spec_is_digit(char_at(chars, t1 + 1)) {
        digit_end(chars, t1 + 1)
    } else {
        t1
    }
}

/// Index of the closing quote of a string literal, given the index `p` of the
/// last character read inside it; a backslash makes the next character part of
/// the literal. `None` when the source ends first.
pub open spec fn string_close(chars: Seq<char>, p: int) -> Option<int>
    decreases chars.len() - p,
{
    let q = if char_at(chars, p) == '\\' && p + 1 < chars.len() {
        p + 1
    } else {
        p
    };
    let r = q + 1;
    if p < 0 || r >= chars.len() {
        None
    } else if chars[r] == '"' {
        Some(r)
    } else {
        string_close(chars, r)
    }
}

/// The keywords and the kinds they scan to.
pub open spec fn keyword_table() -> Seq<(Seq<char>, TokenType)> {
    seq![
        ("and"@, TokenType::And),
        ("class"@, TokenType::Class),
        ("else"@, TokenType::Else),
        ("false"@, TokenType::False),
        ("for"@, TokenType::For),
        ("fun"@, TokenType::Fun),
        ("if"@, TokenType::If),
        ("nil"@, TokenType::Nil),
        ("or"@, TokenType::Or),
        ("print"@, TokenType::Print),
        ("Rect"@, TokenType::Rect),
        ("return"@, TokenType::Return),
        ("super"@, TokenType::Super),
        ("this"@, TokenType::This),
        ("true"@, TokenType::True),
        ("var"@, TokenType::Var),
        ("while"@, TokenType::While),
    ]
}

/// The kind of the first entry of `table` from `i` on whose word is `word`.
pub open spec fn lookup_keyword(table: Seq<(Seq<char>, TokenType)>, i: int, word: Seq<char>) -> Option<
    TokenType,
>
    decreases table.len() - i,
{
    if i < 0 || i >= table.len() {
        None
    } else if table[i].0 == word {
        Some(table[i].1)
    } else {
        lookup_keyword(table, i + 1, word)
    }
}

/// The kind of an identifier-shaped word: its keyword, or `Identifier`.
pub open spec fn word_type(word: Seq<char>) -> TokenType {
    match lookup_keyword(keyword_table(), 0, word) {
        Some(t) => t,
        None => TokenType::Identifier,
    }
}

/// Number of bytes of the UTF-8 encoding of `s`.
pub open spec fn utf8_len(s: Seq<char>) -> int {
    vstd::utf8::encode_utf8(s).len() as int
}

/// The token whose lexeme is `lexeme`, once `t` characters are consumed: it
/// carries the cursor's line, and the cursor's column less the lexeme's length
/// in bytes.
pub open spec fn make_token(chars: Seq<char>, type_: TokenType, lexeme: Seq<char>, t: int) -> SpecToken {
    SpecToken {
        type_,
        lexeme,
        line: line_after(chars, t),
        col: col_after(chars, t) - utf8_len(lexeme),
    }
}

/// Where the scanner stops on an error after index `i`: past the whole source
/// for a string that is not closed, else just past the offending character.
pub open spec fn error_end(chars: Seq<char>, i: int) -> int {
    let s = skip_ws(chars, i);
    if chars[s] == '"' {
        chars.len() as int
    } else {
        s + 1
    }
}

/// Outcome of scanning one token.
pub enum Step {
    /// Only whitespace was left.
    End,
    /// A token, and the index just past it.
    Tok(SpecToken, int),
    Error(ScannerError),
    /// The column of the token would be negative (an arithmetic underflow).
    Abort,
}

/// A token made of `chars[s..t]` (or of `chars[s+1..t-1]` for strings).
pub open spec fn token_step(chars: Seq<char>, type_: TokenType, lexeme: Seq<char>, t: int) -> Step {
    let tok = make_token(chars, type_, lexeme, t);
    if tok.col < 0 {
        Step::Abort
    } else {
        Step::Tok(tok, t)
    }
}

/// A one- or two-character operator at `s`: `second` when `chars[s+1]` is `ch`.
pub open spec fn pair_step(chars: Seq<char>, s: int, ch: char, first: TokenType, second: TokenType) -> Step {
    if char_at(chars, s + 1) == ch {
        token_step(chars, second, chars.subrange(s, s + 2), s + 2)
    } else {
        token_step(chars, first, chars.subrange(s, s + 1), s + 1)
    }
}

pub open spec fn single_char_type(c: char) -> Option<TokenType> {
    if c == '(' {
        Some(TokenType::LeftParen)
    } else if c == ')' {
        Some(TokenType::RightParen)
    } else if c == '{' {
        Some(TokenType::LeftBrace)
    } else if c == '}' {
        Some(TokenType::RightBrace)
    } else if c == ';' {
        Some(TokenType::Semicolon)
    } else if c == ',' {
        Some(TokenType::Comma)
    } else if c == '.' {
        Some(TokenType::Dot)
    } else if c == '-' {
        Some(TokenType::Minus)
    } else if c == '+' {
        Some(TokenType::Plus)
    } else if c == '/' {
        Some(TokenType::Slash)
    } else if c == '*' {
        Some(TokenType::Star)
    } else {
        None
    }
}

/// The token that starts at `s` (a non-whitespace character).
pub open spec fn token_at(chars: Seq<char>, s: int) -> Step {
    let c = chars[s];
    if spec_is_alpha(c) {
        let t = alnum_end(chars, s + 1);
        let lexeme = chars.subrange(s, t);
        token_step(chars, word_type(lexeme), lexeme, t)
    } else if spec_is_digit(c) {
        let t = number_end(chars, s);
        token_step(chars, TokenType::Number, chars.subrange(s, t), t)
    } else if single_char_type(c) is Some {
        token_step(chars, single_char_type(c)->0, chars.subrange(s, s + 1), s + 1)
    } else if c == '!' {
        pair_step(chars, s, '=', TokenType::Bang, TokenType::BangEqual)
    } else if c == '=' {
        pair_step(chars, s, '=', TokenType::Equal, TokenType::EqualEqual)
    } else if c == '<' {
        pair_step(chars, s, '=', TokenType::Less, TokenType::LessEqual)
    } else if c == '>' {
        pair_step(chars, s, '=', TokenType::Greater, TokenType::GreaterEqual)
    } else if c == '"' {
        match string_close(chars, s) {
            Some(r) => token_step(chars, TokenType::String, chars.subrange(s + 1, r), r + 1),
            None => Step::Error(
                ScannerError::UnterminatedString {
                    line: line_after(chars, chars.len() as int) as usize,
                    col: col_after(chars, chars.len() as int) as usize,
                },
            ),
        }
    } else {
        Step::Error(
            ScannerError::UnexpectedChar {
                line: line_after(chars, s + 1) as usize,
                col: col_after(chars, s + 1) as usize,
                ch: c,
            },
        )
    }
}

/// Skip whitespace from `i`, then scan one token.
pub open spec fn scan_step(chars: Seq<char>, i: int) -> Step {
    let s = skip_ws(chars, i);
    if s >= chars.len() {
        Step::End
    } else {
        token_at(chars, s)
    }
}

/// The end-of-file token, placed where the cursor stops.
pub open spec fn eof_token(chars: Seq<char>) -> SpecToken {
    SpecToken {
        type_: TokenType::EOF,
        lexeme: Seq::empty(),
        line: line_after(chars, chars.len() as int),
        col: col_after(chars, chars.len() as int),
    }
}

pub proof fn lemma_skip_ws(chars: Seq<char>, i: int)
    requires
        0 <= i,
    ensures
        i <= skip_ws(chars, i),
        i <= chars.len() ==> skip_ws(chars, i) <= chars.len(),
    decreases chars.len() - i,
{
    lemma_eol_end(chars, i);
    if i < chars.len() {
        let j = if char_at(chars, i) == '/' && char_at(chars, i + 1) == '/' {
            eol_end(chars, i)
        } else {
            i
        };
        if is_ws(char_at(chars, j)) {
            lemma_skip_ws(chars, j + 1);
        }
    }
}

pub proof fn lemma_alnum_end(chars: Seq<char>, i: int)
    requires
        0 <= i <= chars.len(),
    ensures
        i <= alnum_end(chars, i) <= chars.len(),
    decreases chars.len() - i,
{
    if i < chars.len() && spec_is_alpha_numeric(chars[i]) {
        lemma_alnum_end(chars, i + 1);
    }
}

pub proof fn lemma_digit_end(chars: Seq<char>, i: int)
    requires
        0 <= i <= chars.len(),
    ensures
        i <= digit_end(chars, i) <= chars.len(),
    decreases chars.len() - i,
{
    if i < chars.len() && spec_is_digit(chars[i]) {
        lemma_digit_end(chars, i + 1);
    }
}

pub proof fn lemma_number_end(chars: Seq<char>, s: int)
    requires
        0 <= s < chars.len(),
    ensures
        s < number_end(chars, s) <= chars.len(),
{
    lemma_digit_end(chars, s + 1);
    let t1 = digit_end(chars, s + 1);
    if char_at(chars, t1) == '.' && spec_is_digit(char_at(chars, t1 + 1)) {
        lemma_digit_end(chars, t1 + 1);
    }
}

pub proof fn lemma_string_close(chars: Seq<char>, p: int)
    requires
        0 <= p,
    ensures
        string_close(chars, p) matches Some(r) ==> p < r < chars.len() && chars[r] == '"',
    decreases chars.len() - p,
{
    let q = if char_at(chars, p) == '\\' && p + 1 < chars.len() {
        p + 1
    } else {
        p
    };
    let r = q + 1;
    if r < chars.len() && chars[r] != '"' {
        lemma_string_close(chars, r);
    }
}

pub proof fn lemma_scan_step_bounds(chars: Seq<char>, i: int)
    requires
        0 <= i < chars.len(),
    ensures
        scan_step(chars, i) matches Step::Tok(tok, t) ==> i < t <= chars.len(),
{
    lemma_skip_ws(chars, i);
    let s = skip_ws(chars, i);
    if s < chars.len() {
        lemma_alnum_end(chars, s + 1);
        lemma_number_end(chars, s);
        lemma_string_close(chars, s);
    }
}

/// Outcome of scanning a whole source.
pub enum ScanOutcome {
    Tokens(Seq<SpecToken>),
    Error(ScannerError),
    Abort,
}

/// Scanning from index `i`, after the tokens `acc`.
pub open spec fn scan_from(chars: Seq<char>, i: int, acc: Seq<SpecToken>) -> ScanOutcome
    decreases chars.len() - i,
{
    if i < 0 || i >= chars.len() {
        ScanOutcome::Tokens(acc.push(eof_token(chars)))
    } else {
        match scan_step(chars, i) {
            Step::End => ScanOutcome::Tokens(acc.push(eof_token(chars))),
            Step::Tok(tok, t) => {
                proof {
                    lemma_scan_step_bounds(chars, i);
                }
                scan_from(chars, t, acc.push(tok))
            },
            Step::Error(e) => ScanOutcome::Error(e),
            Step::Abort => ScanOutcome::Abort,
        }
    }
}

/// What scanning `source` gives.
pub open spec fn spec_tokenize(source: Seq<char>) -> ScanOutcome {
    scan_from(source, 0, Seq::empty())
}

} // verus!

verus! {

// ---------------------------------------------------------------------------
// The scanner.
// ---------------------------------------------------------------------------

/// The tokens of a vector, as mathematical values.
pub open spec fn view_tokens(tokens: Seq<Token>) -> Seq<SpecToken> {
    tokens.map_values(|t: Token| t@)
}

/// Splits `source` into tokens, ending with an end-of-file token.
pub fn tokenize(source: &str) -> (r: Result<Vec<Token>, ScannerError>)
    requires
        source@.len() <= usize::MAX / 4,
        !(spec_tokenize(source@) is Abort),
    ensures
        match spec_tokenize(source@) {
            ScanOutcome::Tokens(toks) => r matches Ok(v) && view_tokens(v@) == toks,
            ScanOutcome::Error(e) => r == Err::<Vec<Token>, ScannerError>(e),
            ScanOutcome::Abort => false,
        },
{
    let mut scanner = Scanner::new(source);
    let mut tokens: Vec<Token> = Vec::new();
    let ghost chars = scanner.chars@;
    assert(view_tokens(tokens@) =~= Seq::<SpecToken>::empty());

    while scanner.has_next()
        invariant
            scanner.wf(),
            scanner.chars@ == chars,
            chars == source@,
            scan_from(chars, scanner.index as int, view_tokens(tokens@)) == spec_tokenize(chars),
            !(spec_tokenize(chars) is Abort),
        decreases chars.len() - scanner.index,
    {
        let ghost i = scanner.index as int;
        let ghost before = view_tokens(tokens@);
        proof {
            lemma_scan_step_bounds(chars, i);
        }
        match scanner.scan_token(&mut tokens) {
            Ok(()) => {},
            Err(e) => {
                return Err(e);
            },
        }
    }

    let eof = Token {
        type_: TokenType::EOF,
        lexeme: String::new(),
        line: scanner.cursor.line,
        col: scanner.cursor.col,
    };
    let ghost before = view_tokens(tokens@);
    tokens.push(eof);
    assert(view_tokens(tokens@) =~= before.push(eof_token(chars)));
    Ok(tokens)
}

/// Whether scanning `source` would place a token at a negative column, where
/// the column arithmetic of the scanner underflows; `tokenize` accepts exactly
/// the sources for which this is false.
pub fn scan_aborts(source: &str) -> (r: bool)
    requires
        source@.len() <= usize::MAX / 4,
    ensures
        r == (spec_tokenize(source@) is Abort),
{
    let mut scanner = Scanner::new(source);
    let mut tokens: Vec<Token> = Vec::new();
    let ghost chars = scanner.chars@;
    assert(view_tokens(tokens@) =~= Seq::<SpecToken>::empty());
    while scanner.has_next()
        invariant
            scanner.wf(),
            scanner.chars@ == chars,
            chars == source@,
            scan_from(chars, scanner.index as int, view_tokens(tokens@)) == spec_tokenize(chars),
        decreases chars.len() - scanner.index,
    {
        let ghost i = scanner.index as int;
        let ghost before = view_tokens(tokens@);
        proof {
            lemma_scan_step_bounds(chars, i);
        }
        match scanner.scan_token_checked(&mut tokens) {
            Ok(true) => {},
            Ok(false) => {
                return true;
            },
            Err(_) => {
                return false;
            },
        }
    }
    false
}

/// The state of the cursor: the previously consumed character and the ones
/// around it, with its position.
#[derive(Debug, Clone, Copy)]
pub struct Cursor {
    pub prv: char,
    pub char: char,
    pub next: char,
    pub next_2: char,
    pub line: usize,
    pub col: usize,
}

pub struct Scanner {
    pub chars: Vec<char>,
    /// The previously consumed character.
    pub cursor: Cursor,
    /// The next character to consume.
    pub index: usize,
    pub lexeme_start: usize,
}

pub proof fn lemma_line_col_bounds(chars: Seq<char>, n: int)
    requires
        0 <= n,
    ensures
        1 <= line_after(chars, n) <= n + 1,
        1 <= col_after(chars, n) <= n + 1,
    decreases n,
{
    if n > 0 {
        lemma_line_col_bounds(chars, n - 1);
    }
}

impl Scanner {
    /// The cursor describes the characters around `index`, and the source is
    /// small enough for every position and lexeme length to fit in a `usize`.
    pub open spec fn wf(&self) -> bool {
        let c = self.chars@;
        let i = self.index as int;
        &&& c.len() <= usize::MAX / 4
        &&& i <= c.len()
        &&& self.lexeme_start <= self.index
        &&& self.cursor.prv == char_at(c, i - 2)
        &&& self.cursor.char == char_at(c, i - 1)
        &&& self.cursor.next == char_at(c, i)
        &&& self.cursor.next_2 == char_at(c, i + 1)
        &&& self.cursor.line == line_after(c, i)
        &&& self.cursor.col == col_after(c, i)
    }

    pub fn new(source: &str) -> (r: Self)
        requires
            source@.len() <= usize::MAX / 4,
        ensures
            r.wf(),
            r.chars@ == source@,
            r.index == 0,
            r.lexeme_start == 0,
    {
        let chars = collect_chars(source);
        let next = if chars.len() > 0 {
            chars[0]
        } else {
            '\0'
        };
        let next_2 = if chars.len() > 1 {
            chars[1]
        } else {
            '\0'
        };
        let cursor = Cursor { prv: '\0', char: '\0', next, next_2, line: 1, col: 1 };
        Scanner { chars, cursor, lexeme_start: 0, index: 0 }
    }

    fn char_at(&self, i: usize) -> (r: char)
        ensures
            r == char_at(self.chars@, i as int),
    {
        if i < self.chars.len() {
            self.chars[i]
        } else {
            '\0'
        }
    }

    /// Consumes one character, if any is left.
    pub fn next(&mut self) -> (r: Option<Cursor>)
        requires
            old(self).wf(),
        ensures
            final(self).wf(),
            final(self).chars == old(self).chars,
            final(self).lexeme_start == old(self).lexeme_start,
            old(self).index < old(self).chars.len() ==> final(self).index == old(self).index + 1
                && r == Some(final(self).cursor),
            old(self).index >= old(self).chars.len() ==> *final(self) == *old(self) && r is None,
    {
        if !self.has_next() {
            return None;
        }
        proof {
            lemma_line_col_bounds(self.chars@, self.index as int);
        }
        let next = self.char_at(self.index + 2);
        let mut cursor = Cursor {
            prv: self.cursor.char,
            char: self.cursor.next,
            next: self.cursor.next_2,
            next_2: next,
            line: self.cursor.line,
            col: self.cursor.col + 1,
        };
        if cursor.prv == '\n' {
            cursor.line = cursor.line + 1;
            cursor.col = 1;
        }
        self.cursor = cursor;
        self.index = self.index + 1;
        Some(self.cursor)
    }

    pub fn has_next(&self) -> (r: bool)
        ensures
            r == (self.index < self.chars.len()),
    {
        self.index < self.chars.len()
    }

    /// Consumes characters up to and including the next line break.
    fn skip_to_eol(&mut self)
        requires
            old(self).wf(),
        ensures
            final(self).wf(),
            final(self).chars == old(self).chars,
            final(self).lexeme_start == old(self).lexeme_start,
            final(self).index == eol_end(old(self).chars@, old(self).index as int),
    {
        let ghost target = eol_end(self.chars@, self.index as int);
        loop
            invariant
                self.wf(),
                self.chars == old(self).chars,
                self.lexeme_start == old(self).lexeme_start,
                eol_end(self.chars@, self.index as int) == target,
                target == eol_end(old(self).chars@, old(self).index as int),
            decreases self.chars.len() - self.index,
        {
            let ghost k = self.index as int;
            match self.next() {
                Some(cur) => {
                    if cur.char == '\n' {
                        assert(eol_end(self.chars@, k) == k + 1);
                        return;
                    }
                    assert(eol_end(self.chars@, k) == eol_end(self.chars@, k + 1));
                },
                None => {
                    assert(eol_end(self.chars@, k) == k);
                    return;
                },
            }
        }
    }

    /// Skips whitespace and comments.
    fn skip_whitespace(&mut self)
        requires
            old(self).wf(),
        ensures
            final(self).wf(),
            final(self).chars == old(self).chars,
            final(self).lexeme_start == old(self).lexeme_start,
            final(self).index == skip_ws(old(self).chars@, old(self).index as int),
    {
        let ghost target = skip_ws(self.chars@, self.index as int);
        loop
            invariant
                self.wf(),
                self.chars == old(self).chars,
                self.lexeme_start == old(self).lexeme_start,
                skip_ws(self.chars@, self.index as int) == target,
                target == skip_ws(old(self).chars@, old(self).index as int),
            decreases self.chars.len() - self.index,
        {
            let ghost i = self.index as int;
            proof {
                lemma_eol_end(self.chars@, i);
            }
            if self.cursor.next == '/' && self.cursor.next_2 == '/' {
                self.skip_to_eol();
            }
            let ghost j = self.index as int;
            assert(j == if char_at(self.chars@, i) == '/' && char_at(self.chars@, i + 1) == '/' {
                eol_end(self.chars@, i)
            } else {
                i
            });
            match self.cursor.next {
                ' ' | '\r' | '\n' | '\t' => {},
                _ => {
                    assert(!is_ws(char_at(self.chars@, j)));
                    return;
                },
            }
            assert(is_ws(char_at(self.chars@, j)));
            assert(skip_ws(self.chars@, i) == skip_ws(self.chars@, j + 1));
            self.next();
        }
    }

    /// The characters from the start of the lexeme up to the cursor.
    fn get_lexeme(&self) -> (r: String)
        requires
            self.wf(),
        ensures
            r@ == self.chars@.subrange(self.lexeme_start as int, self.index as int),
    {
        chars_to_str(vstd::slice::slice_subrange(self.chars.as_slice(), self.lexeme_start, self.index))
    }

    /// The lexeme without its first and last characters.
    fn get_wrapped_lexeme(&self) -> (r: String)
        requires
            self.wf(),
            self.lexeme_start + 2 <= self.index,
        ensures
            r@ == self.chars@.subrange(self.lexeme_start + 1, self.index - 1),
    {
        chars_to_str(
            vstd::slice::slice_subrange(self.chars.as_slice(), self.lexeme_start + 1, self.index - 1),
        )
    }

    /// Whether a token with `lexeme`, ending at the cursor, starts at a column
    /// of zero or more.
    fn fits(&self, lexeme: &String) -> (r: bool)
        requires
            self.wf(),
            lexeme@.len() <= self.chars@.len(),
        ensures
            r == (col_after(self.chars@, self.index as int) - utf8_len(lexeme@) >= 0),
    {
        proof {
            lemma_utf8_len_bound(lexeme@);
        }
        lexeme.as_str().len() <= self.cursor.col
    }

    fn new_token(&mut self, type_: TokenType, lexeme: String) -> (r: Token)
        requires
            old(self).wf(),
            old(self).index >= 1,
            lexeme@.len() <= old(self).chars@.len(),
            make_token(old(self).chars@, type_, lexeme@, old(self).index as int).col >= 0,
        ensures
            final(self).wf(),
            final(self).chars == old(self).chars,
            final(self).index == old(self).index,
            r@ == make_token(old(self).chars@, type_, lexeme@, old(self).index as int),
    {
        self.lexeme_start = self.index - 1;
        proof {
            lemma_utf8_len_bound(lexeme@);
        }
        let len = lexeme.as_str().len();
        Token { line: self.cursor.line, col: self.cursor.col - len, type_, lexeme }
    }
}


impl Scanner {
    /// Skips whitespace and scans one token into `tokens`.
    pub fn scan_token(&mut self, tokens: &mut Vec<Token>) -> (r: Result<(), ScannerError>)
        requires
            old(self).wf(),
            !(scan_step(old(self).chars@, old(self).index as int) is Abort),
        ensures
            final(self).wf(),
            final(self).chars == old(self).chars,
            match scan_step(old(self).chars@, old(self).index as int) {
                Step::End => r is Ok && final(tokens)@ == old(tokens)@ && final(self).index
                    == old(self).chars.len(),
                Step::Tok(tok, t) => r is Ok && view_tokens(final(tokens)@) == view_tokens(
                    old(tokens)@,
                ).push(tok) && final(self).index == t,
                Step::Error(e) => r == Err::<(), ScannerError>(e) && final(tokens)@ == old(
                    tokens,
                )@ && final(self).index == error_end(old(self).chars@, old(self).index as int)
                    && final(self).index > old(self).index,
                Step::Abort => false,
            },
    {
        match self.scan_token_checked(tokens) {
            Ok(_) => Ok(()),
            Err(e) => Err(e),
        }
    }

    /// Skips whitespace and scans one token into `tokens`; `Ok(false)` where
    /// the token's column would fall below zero, which adds no token.
    fn scan_token_checked(&mut self, tokens: &mut Vec<Token>) -> (r: Result<bool, ScannerError>)
        requires
            old(self).wf(),
        ensures
            final(self).wf(),
            final(self).chars == old(self).chars,
            match scan_step(old(self).chars@, old(self).index as int) {
                Step::End => r == Ok::<bool, ScannerError>(true) && final(tokens)@ == old(tokens)@
                    && final(self).index == old(self).chars.len(),
                Step::Tok(tok, t) => r == Ok::<bool, ScannerError>(true) && view_tokens(
                    final(tokens)@,
                ) == view_tokens(old(tokens)@).push(tok) && final(self).index == t,
                Step::Error(e) => r == Err::<bool, ScannerError>(e) && final(tokens)@ == old(
                    tokens,
                )@ && final(self).index == error_end(old(self).chars@, old(self).index as int)
                    && final(self).index > old(self).index,
                Step::Abort => r == Ok::<bool, ScannerError>(false) && final(tokens)@ == old(
                    tokens,
                )@,
            },
    {
        proof {
            lemma_skip_ws(self.chars@, self.index as int);
        }
        self.skip_whitespace();
        self.lexeme_start = self.index;
        if self.next().is_none() {
            return Ok(true);
        }
        let ch = self.cursor.char;
        if is_alpha(ch) {
            return Ok(self.parse_identifier(tokens));
        }
        if is_digit(ch) {
            return Ok(self.parse_number(tokens));
        }
        let ok = match ch {
            '(' => self.add_token(tokens, TokenType::LeftParen),
            ')' => self.add_token(tokens, TokenType::RightParen),
            '{' => self.add_token(tokens, TokenType::LeftBrace),
            '}' => self.add_token(tokens, TokenType::RightBrace),
            ';' => self.add_token(tokens, TokenType::Semicolon),
            ',' => self.add_token(tokens, TokenType::Comma),
            '.' => self.add_token(tokens, TokenType::Dot),
            '-' => self.add_token(tokens, TokenType::Minus),
            '+' => self.add_token(tokens, TokenType::Plus),
            '/' => self.add_token(tokens, TokenType::Slash),
            '*' => self.add_token(tokens, TokenType::Star),
            '!' => self.add_token_match(tokens, '=', TokenType::Bang, TokenType::BangEqual),
            '=' => self.add_token_match(tokens, '=', TokenType::Equal, TokenType::EqualEqual),
            '<' => self.add_token_match(tokens, '=', TokenType::Less, TokenType::LessEqual),
            '>' => self.add_token_match(tokens, '=', TokenType::Greater, TokenType::GreaterEqual),
            '"' => match self.parse_string(tokens) {
                Ok(b) => b,
                Err(e) => {
                    return Err(e);
                },
            },
            _ => {
                return Err(
                    ScannerError::UnexpectedChar { line: self.cursor.line, col: self.cursor.col, ch },
                );
            },
        };
        Ok(ok)
    }

    fn parse_identifier(&mut self, tokens: &mut Vec<Token>) -> (r: bool)
        requires
            old(self).wf(),
            old(self).lexeme_start + 1 == old(self).index,
            spec_is_alpha(old(self).cursor.char),
        ensures
            final(self).wf(),
            final(self).chars == old(self).chars,
            match token_at(old(self).chars@, old(self).lexeme_start as int) {
                Step::Tok(tok, t) => r && view_tokens(final(tokens)@) == view_tokens(old(tokens)@).push(
                    tok,
                ) && final(self).index == t,
                Step::Abort => !r && final(tokens)@ == old(tokens)@,
                _ => false,
            },
    {
        let ghost s = self.lexeme_start as int;
        proof {
            lemma_alnum_end(self.chars@, s + 1);
        }
        while is_alpha_numeric(self.cursor.next)
            invariant
                self.wf(),
                self.chars == old(self).chars,
                self.lexeme_start == s,
                s == old(self).lexeme_start,
                s + 1 <= self.index,
                alnum_end(self.chars@, self.index as int) == alnum_end(self.chars@, s + 1),
            decreases self.chars.len() - self.index,
        {
            self.next();
        }
        let lexeme = self.get_lexeme();
        let keywords = get_keywords();
        let type_ = match keyword_lookup(&keywords, &lexeme) {
            Some(t) => t,
            None => TokenType::Identifier,
        };
        if !self.fits(&lexeme) {
            return false;
        }
        let ghost before = view_tokens(tokens@);
        let token = self.new_token(type_, lexeme);
        tokens.push(token);
        assert(view_tokens(tokens@) =~= before.push(token@));
        true
    }

    fn parse_number(&mut self, tokens: &mut Vec<Token>) -> (r: bool)
        requires
            old(self).wf(),
            old(self).lexeme_start + 1 == old(self).index,
            spec_is_digit(old(self).cursor.char),
        ensures
            final(self).wf(),
            final(self).chars == old(self).chars,
            match token_at(old(self).chars@, old(self).lexeme_start as int) {
                Step::Tok(tok, t) => r && view_tokens(final(tokens)@) == view_tokens(old(tokens)@).push(
                    tok,
                ) && final(self).index == t,
                Step::Abort => !r && final(tokens)@ == old(tokens)@,
                _ => false,
            },
    {
        let ghost s = self.lexeme_start as int;
        let ghost chars = self.chars@;
        proof {
            lemma_digit_end(chars, s + 1);
        }
        while is_digit(self.cursor.next)
            invariant
                self.wf(),
                self.chars == old(self).chars,
                self.chars@ == chars,
                self.lexeme_start == s,
                s == old(self).lexeme_start,
                s + 1 <= self.index,
                digit_end(chars, self.index as int) == digit_end(chars, s + 1),
            decreases self.chars.len() - self.index,
        {
            self.next();
        }
        if self.cursor.next == '.' && is_digit(self.cursor.next_2) {
            let ghost t1 = self.index as int;
            self.next();
            proof {
                lemma_digit_end(chars, t1 + 1);
            }
            while is_digit(self.cursor.next)
                invariant
                    self.wf(),
                    self.chars == old(self).chars,
                    self.chars@ == chars,
                    self.lexeme_start == s,
                    s == old(self).lexeme_start,
                s == old(self).lexeme_start,
                    t1 + 1 <= self.index,
                    digit_end(chars, self.index as int) == digit_end(chars, t1 + 1),
                decreases self.chars.len() - self.index,
            {
                self.next();
            }
        }
        self.add_token(tokens, TokenType::Number)
    }

    fn parse_string(&mut self, tokens: &mut Vec<Token>) -> (r: Result<bool, ScannerError>)
        requires
            old(self).wf(),
            old(self).lexeme_start + 1 == old(self).index,
            old(self).cursor.char == '"',
        ensures
            final(self).wf(),
            final(self).chars == old(self).chars,
            match token_at(old(self).chars@, old(self).lexeme_start as int) {
                Step::Tok(tok, t) => r == Ok::<bool, ScannerError>(true) && view_tokens(
                    final(tokens)@,
                ) == view_tokens(old(tokens)@).push(tok) && final(self).index == t,
                Step::Error(e) => r == Err::<bool, ScannerError>(e) && final(tokens)@ == old(
                    tokens,
                )@ && final(self).index == old(self).chars.len(),
                Step::Abort => r == Ok::<bool, ScannerError>(false) && final(tokens)@ == old(
                    tokens,
                )@,
                _ => false,
            },
    {
        let ghost s = self.lexeme_start as int;
        let ghost chars = self.chars@;
        loop
            invariant_except_break
                string_close(chars, s) == string_close(chars, self.index - 1),
            invariant
                0 <= s < chars.len(),
                chars[s] == '"',
                self.wf(),
                self.chars == old(self).chars,
                self.chars@ == chars,
                self.lexeme_start == s,
                s == old(self).lexeme_start,
                s + 1 <= self.index,
            ensures
                string_close(chars, s) == Some(self.index - 1),
            decreases self.chars.len() - self.index,
        {
            let ghost p = self.index - 1;
            if self.cursor.char == '\\' {
                self.next();
            }
            if self.next().is_none() {
                assert(string_close(chars, p) is None);
                assert(self.index == chars.len());
                assert(string_close(chars, s) is None);
                assert(chars[s] == '"');
                assert(token_at(chars, s) == Step::Error(
                    ScannerError::UnterminatedString { line: self.cursor.line, col: self.cursor.col },
                ));
                return Err(
                    ScannerError::UnterminatedString { line: self.cursor.line, col: self.cursor.col },
                );
            }
            if self.cursor.char == '"' {
                assert(string_close(chars, p) == Some(self.index - 1));
                break ;
            }
            assert(string_close(chars, p) == string_close(chars, self.index - 1));
        }
        proof {
            lemma_string_close(chars, s);
        }
        Ok(self.add_str_token(tokens))
    }

    /// Pushes the token made of the current lexeme.
    fn add_token(&mut self, tokens: &mut Vec<Token>, type_: TokenType) -> (r: bool)
        requires
            old(self).wf(),
            old(self).index >= 1,
        ensures
            final(self).wf(),
            final(self).chars == old(self).chars,
            final(self).index == old(self).index,
            r == (make_token(
                old(self).chars@,
                type_,
                old(self).chars@.subrange(old(self).lexeme_start as int, old(self).index as int),
                old(self).index as int,
            ).col >= 0),
            !r ==> final(tokens)@ == old(tokens)@,
            r ==> view_tokens(final(tokens)@) == view_tokens(old(tokens)@).push(
                make_token(
                    old(self).chars@,
                    type_,
                    old(self).chars@.subrange(old(self).lexeme_start as int, old(self).index as int),
                    old(self).index as int,
                ),
            ),
    {
        let lexeme = self.get_lexeme();
        if !self.fits(&lexeme) {
            return false;
        }
        let ghost before = view_tokens(tokens@);
        let token = self.new_token(type_, lexeme);
        tokens.push(token);
        assert(view_tokens(tokens@) =~= before.push(token@));
        true
    }

    /// Pushes the string token whose quotes surround the current lexeme.
    fn add_str_token(&mut self, tokens: &mut Vec<Token>) -> (r: bool)
        requires
            old(self).wf(),
            old(self).lexeme_start + 2 <= old(self).index,
        ensures
            final(self).wf(),
            final(self).chars == old(self).chars,
            final(self).index == old(self).index,
            r == (make_token(
                old(self).chars@,
                TokenType::String,
                old(self).chars@.subrange(old(self).lexeme_start + 1, old(self).index - 1),
                old(self).index as int,
            ).col >= 0),
            !r ==> final(tokens)@ == old(tokens)@,
            r ==> view_tokens(final(tokens)@) == view_tokens(old(tokens)@).push(
                make_token(
                    old(self).chars@,
                    TokenType::String,
                    old(self).chars@.subrange(old(self).lexeme_start + 1, old(self).index - 1),
                    old(self).index as int,
                ),
            ),
    {
        let lexeme = self.get_wrapped_lexeme();
        if !self.fits(&lexeme) {
            return false;
        }
        let ghost before = view_tokens(tokens@);
        let token = self.new_token(TokenType::String, lexeme);
        tokens.push(token);
        assert(view_tokens(tokens@) =~= before.push(token@));
        true
    }

    /// Pushes `second` when the next character is `ch` (consuming it), else `first`.
    fn add_token_match(
        &mut self,
        tokens: &mut Vec<Token>,
        ch: char,
        first: TokenType,
        second: TokenType,
    ) -> (r: bool)
        requires
            old(self).wf(),
            old(self).lexeme_start + 1 == old(self).index,
            ch != '\0',
        ensures
            final(self).wf(),
            final(self).chars == old(self).chars,
            match pair_step(old(self).chars@, old(self).lexeme_start as int, ch, first, second) {
                Step::Tok(tok, t) => r && view_tokens(final(tokens)@) == view_tokens(old(tokens)@).push(
                    tok,
                ) && final(self).index == t,
                Step::Abort => !r && final(tokens)@ == old(tokens)@,
                _ => false,
            },
    {
        let type_ = if self.cursor.next == ch {
            self.next();
            second
        } else {
            first
        };
        self.add_token(tokens, type_)
    }
}

pub fn is_digit(ch: char) -> (r: bool)
    ensures
        r == spec_is_digit(ch),
{
    '0' <= ch && ch <= '9'
}

pub fn is_alpha(ch: char) -> (r: bool)
    ensures
        r == spec_is_alpha(ch),
{
    ('a' <= ch && ch <= 'z') || ('A' <= ch && ch <= 'Z') || ch == '_'
}

pub fn is_alpha_numeric(ch: char) -> (r: bool)
    ensures
        r == spec_is_alpha_numeric(ch),
{
    is_alpha(ch) || is_digit(ch)
}

/// The keyword table as pairs of words and kinds.
pub open spec fn table_view(table: Seq<(String, TokenType)>) -> Seq<(Seq<char>, TokenType)> {
    table.map_values(|p: (String, TokenType)| (p.0@, p.1))
}

/// The keywords of the language, each with the kind it scans to.
pub fn get_keywords() -> (r: Vec<(String, TokenType)>)
    ensures
        table_view(r@) == keyword_table(),
{
    let mut v: Vec<(String, TokenType)> = Vec::new();
    v.push(("and".to_owned(), TokenType::And));
    v.push(("class".to_owned(), TokenType::Class));
    v.push(("else".to_owned(), TokenType::Else));
    v.push(("false".to_owned(), TokenType::False));
    v.push(("for".to_owned(), TokenType::For));
    v.push(("fun".to_owned(), TokenType::Fun));
    v.push(("if".to_owned(), TokenType::If));
    v.push(("nil".to_owned(), TokenType::Nil));
    v.push(("or".to_owned(), TokenType::Or));
    v.push(("print".to_owned(), TokenType::Print));
    v.push(("Rect".to_owned(), TokenType::Rect));
    v.push(("return".to_owned(), TokenType::Return));
    v.push(("super".to_owned(), TokenType::Super));
    v.push(("this".to_owned(), TokenType::This));
    v.push(("true".to_owned(), TokenType::True));
    v.push(("var".to_owned(), TokenType::Var));
    v.push(("while".to_owned(), TokenType::While));
    assert(table_view(v@) =~= keyword_table());
    v
}

/// How a character is shown in a message: a control character by its code in
/// hexadecimal after `\\0x`, any other as itself.
pub open spec fn char_text(ch: char) -> Seq<char> {
    if (ch as nat) < (' ' as nat) {
        "\\0x"@ + digits(ch as nat, 16)
    } else {
        seq![ch]
    }
}

fn format_ch(ch: char) -> (r: String)
    ensures
        r@ == char_text(ch),
{
    let code: u32 = ch as u32;
    if 32 > code {
        let mut s = String::new();
        push_str(&mut s, "\\0x");
        push_digits(&mut s, code as usize, 16);
        s
    } else {
        let mut s = String::new();
        string_push(&mut s, ch);
        assert(s@ =~= seq![ch]);
        s
    }
}

/// The kind that the first entry of `table` with word `word` gives.
fn keyword_lookup(table: &Vec<(String, TokenType)>, word: &String) -> (r: Option<TokenType>)
    ensures
        r == lookup_keyword(table_view(table@), 0, word@),
{
    let ghost t = table_view(table@);
    let mut i: usize = 0;
    while i < table.len()
        invariant
            i <= table@.len(),
            t == table_view(table@),
            lookup_keyword(t, 0, word@) == lookup_keyword(t, i as int, word@),
        decreases table@.len() - i,
    {
        if table[i].0 == *word {
            return Some(table[i].1);
        }
        i = i + 1;
    }
    None
}


// ---------------------------------------------------------------------------
// Laws of the scanner.
// ---------------------------------------------------------------------------

proof fn lemma_lookup_not_eof(i: int, word: Seq<char>)
    ensures
        lookup_keyword(keyword_table(), i, word) != Some(TokenType::EOF),
    decreases keyword_table().len() - i,
{
    if 0 <= i < keyword_table().len() {
        assert(keyword_table()[i].1 != TokenType::EOF);
        lemma_lookup_not_eof(i + 1, word);
    }
}

/// No token that `scan_step` produces is an end-of-file token.
proof fn lemma_step_not_eof(chars: Seq<char>, i: int)
    ensures
        scan_step(chars, i) matches Step::Tok(tok, _) ==> tok.type_ != TokenType::EOF,
{
    let s = skip_ws(chars, i);
    if s < chars.len() {
        lemma_lookup_not_eof(0, chars.subrange(s, alnum_end(chars, s + 1)));
    }
}

/// Tokens are found after index `i`, and the index moves past each one.
proof fn lemma_step_advances(chars: Seq<char>, i: int)
    requires
        0 <= i < chars.len(),
    ensures
        scan_step(chars, i) matches Step::Tok(tok, t) ==> i < t <= chars.len() && tok.line
            == line_after(chars, t),
{
    lemma_scan_step_bounds(chars, i);
}

proof fn lemma_line_after_mono(chars: Seq<char>, m: int, n: int)
    requires
        m <= n,
    ensures
        line_after(chars, m) <= line_after(chars, n),
    decreases n - m,
{
    if m < n {
        lemma_line_after_mono(chars, m, n - 1);
    }
}

proof fn lemma_scan_from_shape(chars: Seq<char>, i: int, acc: Seq<SpecToken>)
    requires
        0 <= i <= chars.len(),
        forall|k: int| 0 <= k < acc.len() ==> (#[trigger] acc[k]).type_ != TokenType::EOF,
        forall|k: int| 0 <= k < acc.len() ==> (#[trigger] acc[k]).line <= line_after(chars, i),
        forall|j: int, k: int| 0 <= j < k < acc.len() ==> (#[trigger] acc[j]).line <= (#[trigger] acc[k]).line,
        forall|k: int| 0 <= k < acc.len() ==> (#[trigger] acc[k]).line >= 1,
    ensures
        scan_from(chars, i, acc) matches ScanOutcome::Tokens(toks) ==> {
            &&& toks.len() > acc.len()
            &&& toks.subrange(0, acc.len() as int) == acc
            &&& toks.last().type_ == TokenType::EOF
            &&& toks.last().lexeme == Seq::<char>::empty()
            &&& forall|k: int| 0 <= k < toks.len() ==> (#[trigger] toks[k]).line >= 1
            &&& forall|k: int| 0 <= k < toks.len() - 1 ==> (#[trigger] toks[k]).type_ != TokenType::EOF
            &&& forall|j: int, k: int|
                0 <= j < k < toks.len() ==> (#[trigger] toks[j]).line <= (#[trigger] toks[k]).line
        },
    decreases chars.len() - i,
{
    lemma_line_after_mono(chars, i, chars.len() as int);
    lemma_line_col_bounds(chars, chars.len() as int);
    if i < chars.len() {
        lemma_step_not_eof(chars, i);
        lemma_step_advances(chars, i);
        if let Step::Tok(tok, t) = scan_step(chars, i) {
            lemma_line_after_mono(chars, i, t);
            lemma_line_col_bounds(chars, t);
            let acc2 = acc.push(tok);
            assert forall|j: int, k: int| 0 <= j < k < acc2.len() implies (#[trigger] acc2[j]).line
                <= (#[trigger] acc2[k]).line by {
                if k < acc.len() {
                    assert(acc[j].line <= acc[k].line);
                } else {
                    assert(acc[j].line <= line_after(chars, i));
                }
            }
            assert forall|k: int| 0 <= k < acc2.len() implies (#[trigger] acc2[k]).line <= line_after(
                chars,
                t,
            ) by {
                if k < acc.len() {
                    assert(acc[k].line <= line_after(chars, i));
                }
            }
            lemma_scan_from_shape(chars, t, acc2);
            if let ScanOutcome::Tokens(toks) = scan_from(chars, t, acc2) {
                assert(toks.subrange(0, acc.len() as int) =~= acc2.subrange(0, acc.len() as int));
            }
        }
    }
}

/// `s` with its first letter in lower case.
pub open spec fn lower_first(s: Seq<char>) -> Seq<char> {
    if s.len() > 0 && 'A' <= s[0] <= 'Z' {
        s.update(0, ((s[0] as int) + 32) as char)
    } else {
        s
    }
}

/// The kinds that a lower-case keyword scans to.
pub open spec fn is_keyword_kind(k: TokenType) -> bool {
    k == TokenType::And || k == TokenType::Class || k == TokenType::Else || k == TokenType::False || k == TokenType::For || k == TokenType::Fun || k == TokenType::If || k == TokenType::Nil || k == TokenType::Or || k == TokenType::Print || k == TokenType::Return || k == TokenType::Super || k == TokenType::This || k == TokenType::True || k == TokenType::Var || k == TokenType::While
}

proof fn lemma_lookup_found(table: Seq<(Seq<char>, TokenType)>, i: int, w: Seq<char>)
    requires
        0 <= i,
    ensures
        lookup_keyword(table, i, w) matches Some(k) ==> exists|j: int|
            i <= j < table.len() && #[trigger] table[j] == (w, k),
    decreases table.len() - i,
{
    if i < table.len() && table[i].0 != w {
        lemma_lookup_found(table, i + 1, w);
    }
}

proof fn lemma_lookup_at(table: Seq<(Seq<char>, TokenType)>, i: int, j: int, w: Seq<char>)
    requires
        0 <= i <= j < table.len(),
        table[j].0 == w,
        forall|l: int| i <= l < j ==> (#[trigger] table[l]).0 != w,
    ensures
        lookup_keyword(table, i, w) == Some(table[j].1),
    decreases j - i,
{
    if i < j {
        lemma_lookup_at(table, i + 1, j, w);
    }
}

/// The keyword named after `k` scans to `k`.
proof fn lemma_keyword_scans(k: TokenType)
    requires
        is_keyword_kind(k) || k == TokenType::Rect,
    ensures
        k == TokenType::Rect ==> word_type(token_type_name(k)) == k,
        k != TokenType::Rect ==> word_type(lower_first(token_type_name(k))) == k,
{
    reveal_strlit("And");
    reveal_strlit("Class");
    reveal_strlit("Else");
    reveal_strlit("False");
    reveal_strlit("For");
    reveal_strlit("Fun");
    reveal_strlit("If");
    reveal_strlit("Nil");
    reveal_strlit("Or");
    reveal_strlit("Print");
    reveal_strlit("Rect");
    reveal_strlit("Return");
    reveal_strlit("Super");
    reveal_strlit("This");
    reveal_strlit("True");
    reveal_strlit("Var");
    reveal_strlit("While");
    reveal_strlit("and");
    reveal_strlit("class");
    reveal_strlit("else");
    reveal_strlit("false");
    reveal_strlit("for");
    reveal_strlit("fun");
    reveal_strlit("if");
    reveal_strlit("nil");
    reveal_strlit("or");
    reveal_strlit("print");
    reveal_strlit("return");
    reveal_strlit("super");
    reveal_strlit("this");
    reveal_strlit("true");
    reveal_strlit("var");
    reveal_strlit("while");
    let t = keyword_table();
    if k == TokenType::And {
        let w = lower_first(token_type_name(k));
        assert(w =~= t[0].0);
        lemma_lookup_at(t, 0, 0, w);
    } else if k == TokenType::Class {
        let w = lower_first(token_type_name(k));
        assert(w =~= t[1].0);
        assert(t[0].0.len() != t[1].0.len());
        lemma_lookup_at(t, 0, 1, w);
    } else if k == TokenType::Else {
        let w = lower_first(token_type_name(k));
        assert(w =~= t[2].0);
        assert(t[0].0.len() != t[2].0.len());
        assert(t[1].0.len() != t[2].0.len());
        lemma_lookup_at(t, 0, 2, w);
    } else if k == TokenType::False {
        let w = lower_first(token_type_name(k));
        assert(w =~= t[3].0);
        assert(t[0].0.len() != t[3].0.len());
        assert(t[1].0[0] != t[3].0[0]);
        assert(t[2].0.len() != t[3].0.len());
        lemma_lookup_at(t, 0, 3, w);
    } else if k == TokenType::For {
        let w = lower_first(token_type_name(k));
        assert(w =~= t[4].0);
        assert(t[0].0[0] != t[4].0[0]);
        assert(t[1].0.len() != t[4].0.len());
        assert(t[2].0.len() != t[4].0.len());
        assert(t[3].0.len() != t[4].0.len());
        lemma_lookup_at(t, 0, 4, w);
    } else if k == TokenType::Fun {
        let w = lower_first(token_type_name(k));
        assert(w =~= t[5].0);
        assert(t[0].0[0] != t[5].0[0]);
        assert(t[1].0.len() != t[5].0.len());
        assert(t[2].0.len() != t[5].0.len());
        assert(t[3].0.len() != t[5].0.len());
        assert(t[4].0[1] != t[5].0[1]);
        lemma_lookup_at(t, 0, 5, w);
    } else if k == TokenType::If {
        let w = lower_first(token_type_name(k));
        assert(w =~= t[6].0);
        assert(t[0].0.len() != t[6].0.len());
        assert(t[1].0.len() != t[6].0.len());
        assert(t[2].0.len() != t[6].0.len());
        assert(t[3].0.len() != t[6].0.len());
        assert(t[4].0.len() != t[6].0.len());
        assert(t[5].0.len() != t[6].0.len());
        lemma_lookup_at(t, 0, 6, w);
    } else if k == TokenType::Nil {
        let w = lower_first(token_type_name(k));
        assert(w =~= t[7].0);
        assert(t[0].0[0] != t[7].0[0]);
        assert(t[1].0.len() != t[7].0.len());
        assert(t[2].0.len() != t[7].0.len());
        assert(t[3].0.len() != t[7].0.len());
        assert(t[4].0[0] != t[7].0[0]);
        assert(t[5].0[0] != t[7].0[0]);
        assert(t[6].0.len() != t[7].0.len());
        lemma_lookup_at(t, 0, 7, w);
    } else if k == TokenType::Or {
        let w = lower_first(token_type_name(k));
        assert(w =~= t[8].0);
        assert(t[0].0.len() != t[8].0.len());
        assert(t[1].0.len() != t[8].0.len());
        assert(t[2].0.len() != t[8].0.len());
        assert(t[3].0.len() != t[8].0.len());
        assert(t[4].0.len() != t[8].0.len());
        assert(t[5].0.len() != t[8].0.len());
        assert(t[6].0[0] != t[8].0[0]);
        assert(t[7].0.len() != t[8].0.len());
        lemma_lookup_at(t, 0, 8, w);
    } else if k == TokenType::Print {
        let w = lower_first(token_type_name(k));
        assert(w =~= t[9].0);
        assert(t[0].0.len() != t[9].0.len());
        assert(t[1].0[0] != t[9].0[0]);
        assert(t[2].0.len() != t[9].0.len());
        assert(t[3].0[0] != t[9].0[0]);
        assert(t[4].0.len() != t[9].0.len());
        assert(t[5].0.len() != t[9].0.len());
        assert(t[6].0.len() != t[9].0.len());
        assert(t[7].0.len() != t[9].0.len());
        assert(t[8].0.len() != t[9].0.len());
        lemma_lookup_at(t, 0, 9, w);
    } else if k == TokenType::Rect {
        let w = token_type_name(k);
        assert(w =~= t[10].0);
        assert(t[0].0.len() != t[10].0.len());
        assert(t[1].0.len() != t[10].0.len());
        assert(t[2].0[0] != t[10].0[0]);
        assert(t[3].0.len() != t[10].0.len());
        assert(t[4].0.len() != t[10].0.len());
        assert(t[5].0.len() != t[10].0.len());
        assert(t[6].0.len() != t[10].0.len());
        assert(t[7].0.len() != t[10].0.len());
        assert(t[8].0.len() != t[10].0.len());
        assert(t[9].0.len() != t[10].0.len());
        lemma_lookup_at(t, 0, 10, w);
    } else if k == TokenType::Return {
        let w = lower_first(token_type_name(k));
        assert(w =~= t[11].0);
        assert(t[0].0.len() != t[11].0.len());
        assert(t[1].0.len() != t[11].0.len());
        assert(t[2].0.len() != t[11].0.len());
        assert(t[3].0.len() != t[11].0.len());
        assert(t[4].0.len() != t[11].0.len());
        assert(t[5].0.len() != t[11].0.len());
        assert(t[6].0.len() != t[11].0.len());
        assert(t[7].0.len() != t[11].0.len());
        assert(t[8].0.len() != t[11].0.len());
        assert(t[9].0.len() != t[11].0.len());
        assert(t[10].0.len() != t[11].0.len());
        lemma_lookup_at(t, 0, 11, w);
    } else if k == TokenType::Super {
        let w = lower_first(token_type_name(k));
        assert(w =~= t[12].0);
        assert(t[0].0.len() != t[12].0.len());
        assert(t[1].0[0] != t[12].0[0]);
        assert(t[2].0.len() != t[12].0.len());
        assert(t[3].0[0] != t[12].0[0]);
        assert(t[4].0.len() != t[12].0.len());
        assert(t[5].0.len() != t[12].0.len());
        assert(t[6].0.len() != t[12].0.len());
        assert(t[7].0.len() != t[12].0.len());
        assert(t[8].0.len() != t[12].0.len());
        assert(t[9].0[0] != t[12].0[0]);
        assert(t[10].0.len() != t[12].0.len());
        assert(t[11].0.len() != t[12].0.len());
        lemma_lookup_at(t, 0, 12, w);
    } else if k == TokenType::This {
        let w = lower_first(token_type_name(k));
        assert(w =~= t[13].0);
        assert(t[0].0.len() != t[13].0.len());
        assert(t[1].0.len() != t[13].0.len());
        assert(t[2].0[0] != t[13].0[0]);
        assert(t[3].0.len() != t[13].0.len());
        assert(t[4].0.len() != t[13].0.len());
        assert(t[5].0.len() != t[13].0.len());
        assert(t[6].0.len() != t[13].0.len());
        assert(t[7].0.len() != t[13].0.len());
        assert(t[8].0.len() != t[13].0.len());
        assert(t[9].0.len() != t[13].0.len());
        assert(t[10].0[0] != t[13].0[0]);
        assert(t[11].0.len() != t[13].0.len());
        assert(t[12].0.len() != t[13].0.len());
        lemma_lookup_at(t, 0, 13, w);
    } else if k == TokenType::True {
        let w = lower_first(token_type_name(k));
        assert(w =~= t[14].0);
        assert(t[0].0.len() != t[14].0.len());
        assert(t[1].0.len() != t[14].0.len());
        assert(t[2].0[0] != t[14].0[0]);
        assert(t[3].0.len() != t[14].0.len());
        assert(t[4].0.len() != t[14].0.len());
        assert(t[5].0.len() != t[14].0.len());
        assert(t[6].0.len() != t[14].0.len());
        assert(t[7].0.len() != t[14].0.len());
        assert(t[8].0.len() != t[14].0.len());
        assert(t[9].0.len() != t[14].0.len());
        assert(t[10].0[0] != t[14].0[0]);
        assert(t[11].0.len() != t[14].0.len());
        assert(t[12].0.len() != t[14].0.len());
        assert(t[13].0[1] != t[14].0[1]);
        lemma_lookup_at(t, 0, 14, w);
    } else if k == TokenType::Var {
        let w = lower_first(token_type_name(k));
        assert(w =~= t[15].0);
        assert(t[0].0[0] != t[15].0[0]);
        assert(t[1].0.len() != t[15].0.len());
        assert(t[2].0.len() != t[15].0.len());
        assert(t[3].0.len() != t[15].0.len());
        assert(t[4].0[0] != t[15].0[0]);
        assert(t[5].0[0] != t[15].0[0]);
        assert(t[6].0.len() != t[15].0.len());
        assert(t[7].0[0] != t[15].0[0]);
        assert(t[8].0.len() != t[15].0.len());
        assert(t[9].0.len() != t[15].0.len());
        assert(t[10].0.len() != t[15].0.len());
        assert(t[11].0.len() != t[15].0.len());
        assert(t[12].0.len() != t[15].0.len());
        assert(t[13].0.len() != t[15].0.len());
        assert(t[14].0.len() != t[15].0.len());
        lemma_lookup_at(t, 0, 15, w);
    } else if k == TokenType::While {
        let w = lower_first(token_type_name(k));
        assert(w =~= t[16].0);
        assert(t[0].0.len() != t[16].0.len());
        assert(t[1].0[0] != t[16].0[0]);
        assert(t[2].0.len() != t[16].0.len());
        assert(t[3].0[0] != t[16].0[0]);
        assert(t[4].0.len() != t[16].0.len());
        assert(t[5].0.len() != t[16].0.len());
        assert(t[6].0.len() != t[16].0.len());
        assert(t[7].0.len() != t[16].0.len());
        assert(t[8].0.len() != t[16].0.len());
        assert(t[9].0[0] != t[16].0[0]);
        assert(t[10].0.len() != t[16].0.len());
        assert(t[11].0.len() != t[16].0.len());
        assert(t[12].0[0] != t[16].0[0]);
        assert(t[13].0.len() != t[16].0.len());
        assert(t[14].0.len() != t[16].0.len());
        assert(t[15].0.len() != t[16].0.len());
        lemma_lookup_at(t, 0, 16, w);
    }
}

/// Law: a keyword scans to the kind named after it. A word that scans to a
/// kind other than `Identifier` is that kind's name with its first letter in
/// lower case (or, for `Rect`, the name itself); and the lower-case name of
/// every keyword kind scans to that kind, as `Rect` does.
pub proof fn law_keywords_named(w: Seq<char>, k: TokenType)
    ensures
        word_type(w) != TokenType::Identifier ==> (w == lower_first(token_type_name(word_type(w)))
            || w == token_type_name(word_type(w))),
        is_keyword_kind(k) ==> word_type(lower_first(token_type_name(k))) == k,
        word_type(token_type_name(TokenType::Rect)) == TokenType::Rect,
{
    reveal_strlit("And");
    reveal_strlit("Class");
    reveal_strlit("Else");
    reveal_strlit("False");
    reveal_strlit("For");
    reveal_strlit("Fun");
    reveal_strlit("If");
    reveal_strlit("Nil");
    reveal_strlit("Or");
    reveal_strlit("Print");
    reveal_strlit("Rect");
    reveal_strlit("Return");
    reveal_strlit("Super");
    reveal_strlit("This");
    reveal_strlit("True");
    reveal_strlit("Var");
    reveal_strlit("While");
    reveal_strlit("and");
    reveal_strlit("class");
    reveal_strlit("else");
    reveal_strlit("false");
    reveal_strlit("for");
    reveal_strlit("fun");
    reveal_strlit("if");
    reveal_strlit("nil");
    reveal_strlit("or");
    reveal_strlit("print");
    reveal_strlit("return");
    reveal_strlit("super");
    reveal_strlit("this");
    reveal_strlit("true");
    reveal_strlit("var");
    reveal_strlit("while");
    let t = keyword_table();
    assert forall|j: int| 0 <= j < t.len() implies #[trigger] t[j].0 == lower_first(
        token_type_name(t[j].1),
    ) || t[j].0 == token_type_name(t[j].1) by {
        assert(lower_first(token_type_name(t[j].1)) =~= t[j].0 || token_type_name(t[j].1) =~= t[j].0);
    }
    lemma_lookup_found(t, 0, w);
    if is_keyword_kind(k) {
        lemma_keyword_scans(k);
    }
    lemma_keyword_scans(TokenType::Rect);
}


/// Law: a successful scan ends with the end-of-file token, whose lexeme is
/// empty, no other token is one, every line is at least 1, and the tokens come
/// in the order of their lines.
pub proof fn law_tokens_end_with_eof(source: Seq<char>)
    ensures
        spec_tokenize(source) matches ScanOutcome::Tokens(toks) ==> {
            &&& toks.len() >= 1
            &&& toks.last().type_ == TokenType::EOF
            &&& toks.last().lexeme == Seq::<char>::empty()
            &&& forall|k: int| 0 <= k < toks.len() ==> (#[trigger] toks[k]).line >= 1
            &&& forall|k: int| 0 <= k < toks.len() - 1 ==> (#[trigger] toks[k]).type_ != TokenType::EOF
            &&& forall|j: int, k: int|
                0 <= j < k < toks.len() ==> (#[trigger] toks[j]).line <= (#[trigger] toks[k]).line
        },
{
    lemma_scan_from_shape(source, 0, Seq::empty());
}

} // verus!
