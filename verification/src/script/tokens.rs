use vstd::prelude::*;

use crate::script::text::{decimal, push_decimal, push_str};

verus! {

/// The kinds of token produced by the scanner.
#[derive(Debug, Clone, Copy, PartialEq, Eq, Hash, Structural)]
pub enum TokenType {
    // Single-character tokens.
    LeftParen,
    RightParen,
    LeftBrace,
    RightBrace,
    Comma,
    Dot,
    Minus,
    Plus,
    Semicolon,
    Slash,
    Star,
    // One or two character tokens.
    Bang,
    BangEqual,
    Equal,
    EqualEqual,
    Greater,
    GreaterEqual,
    Less,
    LessEqual,
    // Literals.
    Identifier,
    String,
    Number,
    // Keywords.
    And,
    Class,
    Else,
    False,
    For,
    Fun,
    If,
    Nil,
    Or,
    Print,
    Rect,
    Return,
    Super,
    This,
    True,
    Var,
    While,
    Error,
    EOF,
}

/// The name of a token kind, as it is written in the source of this library.
pub open spec fn token_type_name(t: TokenType) -> Seq<char> {
    match t {
        TokenType::LeftParen => "LeftParen"@,
        TokenType::RightParen => "RightParen"@,
        TokenType::LeftBrace => "LeftBrace"@,
        TokenType::RightBrace => "RightBrace"@,
        TokenType::Comma => "Comma"@,
        TokenType::Dot => "Dot"@,
        TokenType::Minus => "Minus"@,
        TokenType::Plus => "Plus"@,
        TokenType::Semicolon => "Semicolon"@,
        TokenType::Slash => "Slash"@,
        TokenType::Star => "Star"@,
        TokenType::Bang => "Bang"@,
        TokenType::BangEqual => "BangEqual"@,
        TokenType::Equal => "Equal"@,
        TokenType::EqualEqual => "EqualEqual"@,
        TokenType::Greater => "Greater"@,
        TokenType::GreaterEqual => "GreaterEqual"@,
        TokenType::Less => "Less"@,
        TokenType::LessEqual => "LessEqual"@,
        TokenType::Identifier => "Identifier"@,
        TokenType::String => "String"@,
        TokenType::Number => "Number"@,
        TokenType::And => "And"@,
        TokenType::Class => "Class"@,
        TokenType::Else => "Else"@,
        TokenType::False => "False"@,
        TokenType::For => "For"@,
        TokenType::Fun => "Fun"@,
        TokenType::If => "If"@,
        TokenType::Nil => "Nil"@,
        TokenType::Or => "Or"@,
        TokenType::Print => "Print"@,
        TokenType::Rect => "Rect"@,
        TokenType::Return => "Return"@,
        TokenType::Super => "Super"@,
        TokenType::This => "This"@,
        TokenType::True => "True"@,
        TokenType::Var => "Var"@,
        TokenType::While => "While"@,
        TokenType::Error => "Error"@,
        TokenType::EOF => "EOF"@,
    }
}

impl TokenType {
    /// The name of the kind.
    pub fn name(&self) -> (r: &'static str)
        ensures
            r@ == token_type_name(*self),
    {
        match self {
            TokenType::LeftParen => "LeftParen",
            TokenType::RightParen => "RightParen",
            TokenType::LeftBrace => "LeftBrace",
            TokenType::RightBrace => "RightBrace",
            TokenType::Comma => "Comma",
            TokenType::Dot => "Dot",
            TokenType::Minus => "Minus",
            TokenType::Plus => "Plus",
            TokenType::Semicolon => "Semicolon",
            TokenType::Slash => "Slash",
            TokenType::Star => "Star",
            TokenType::Bang => "Bang",
            TokenType::BangEqual => "BangEqual",
            TokenType::Equal => "Equal",
            TokenType::EqualEqual => "EqualEqual",
            TokenType::Greater => "Greater",
            TokenType::GreaterEqual => "GreaterEqual",
            TokenType::Less => "Less",
            TokenType::LessEqual => "LessEqual",
            TokenType::Identifier => "Identifier",
            TokenType::String => "String",
            TokenType::Number => "Number",
            TokenType::And => "And",
            TokenType::Class => "Class",
            TokenType::Else => "Else",
            TokenType::False => "False",
            TokenType::For => "For",
            TokenType::Fun => "Fun",
            TokenType::If => "If",
            TokenType::Nil => "Nil",
            TokenType::Or => "Or",
            TokenType::Print => "Print",
            TokenType::Rect => "Rect",
            TokenType::Return => "Return",
            TokenType::Super => "Super",
            TokenType::This => "This",
            TokenType::True => "True",
            TokenType::Var => "Var",
            TokenType::While => "While",
            TokenType::Error => "Error",
            TokenType::EOF => "EOF",
        }
    }
}

/// A token: its kind, the characters it was made from, and its line and
/// column.
#[derive(Debug)]
pub struct Token {
    pub type_: TokenType,
    pub lexeme: String,
    pub line: usize,
    pub col: usize,
}

/// A token as a mathematical value.
pub struct SpecToken {
    pub type_: TokenType,
    pub lexeme: Seq<char>,
    pub line: int,
    pub col: int,
}

/// How a token is shown: `Kind lexeme line col`.
pub open spec fn token_text(t: SpecToken) -> Seq<char> {
    token_type_name(t.type_) + " "@ + t.lexeme + " "@ + decimal(t.line as nat) + " "@ + decimal(
        t.col as nat,
    )
}

impl View for Token {
    type V = SpecToken;

    open spec fn view(&self) -> SpecToken {
        SpecToken {
            type_: self.type_,
            lexeme: self.lexeme@,
            line: self.line as int,
            col: self.col as int,
        }
    }
}

impl Clone for Token {
    fn clone(&self) -> (r: Self)
        ensures
            r == *self,
    {
        Token { type_: self.type_, lexeme: self.lexeme.clone(), line: self.line, col: self.col }
    }
}

/// Tokens are the same when their kinds and lexemes are; where they stand
/// does not matter.
pub open spec fn same_token(a: Token, b: Token) -> bool {
    a.type_ == b.type_ && a.lexeme@ == b.lexeme@
}

/// Law: token equality is an equivalence, and tokens that differ only in
/// their positions are equal.
pub proof fn law_token_equality(a: Token, b: Token, c: Token)
    ensures
        same_token(a, a),
        same_token(a, b) == same_token(b, a),
        same_token(a, b) && same_token(b, c) ==> same_token(a, c),
        a.type_ == b.type_ && a.lexeme@ == b.lexeme@ ==> same_token(a, b),
{
}

/// Two tokens are equal when their kinds and lexemes are; positions are ignored.
impl PartialEq for Token {
    fn eq(&self, other: &Self) -> (r: bool) {
        self.type_ == other.type_ && self.lexeme == other.lexeme
    }
}

impl vstd::std_specs::cmp::PartialEqSpecImpl for Token {
    open spec fn obeys_eq_spec() -> bool {
        true
    }

    open spec fn eq_spec(&self, other: &Token) -> bool {
        same_token(*self, *other)
    }
}

impl Eq for Token {}

impl Token {
    pub fn new(type_: TokenType, lexeme: &str, line: usize, col: usize) -> (r: Self)
        ensures
            r.type_ == type_,
            r.lexeme@ == lexeme@,
            r.line == line,
            r.col == col,
    {
        Token { type_, lexeme: lexeme.to_owned(), line, col }
    }

    pub fn new_true() -> (r: Self)
        ensures
            r.type_ == TokenType::True,
            r.lexeme@ == "true"@,
            r.line == 0,
            r.col == 0,
    {
        Self::new(TokenType::True, "true", 0, 0)
    }

    pub fn new_false() -> (r: Self)
        ensures
            r.type_ == TokenType::False,
            r.lexeme@ == "false"@,
            r.line == 0,
            r.col == 0,
    {
        Self::new(TokenType::False, "false", 0, 0)
    }

    /// The kind's name, the lexeme, the line and the column, separated by
    /// spaces.
    pub fn to_string(&self) -> (r: String)
        ensures
            r@ == token_text(self@),
    {
        let mut s = String::new();
        push_str(&mut s, self.type_.name());
        push_str(&mut s, " ");
        push_str(&mut s, self.lexeme.as_str());
        push_str(&mut s, " ");
        push_decimal(&mut s, self.line);
        push_str(&mut s, " ");
        push_decimal(&mut s, self.col);
        proof {
            reveal_strlit(" ");
        }
        s
    }

    /// Compares kind, lexeme and line (but not column).
    pub fn _strict_eq(&self, other: &Self) -> (r: bool)
        ensures
            r == (self.type_ == other.type_ && self.lexeme@ == other.lexeme@ && self.line
                == other.line),
    {
        self.type_ == other.type_ && self.lexeme == other.lexeme && self.line == other.line
    }
}


/// A name as the source writes one: a capital letter, then letters only.
pub open spec fn is_capitalised_word(s: Seq<char>) -> bool {
    &&& s.len() > 0
    &&& 'A' <= s[0] <= 'Z'
    &&& forall|i: int| 0 <= i < s.len() ==> ('A' <= #[trigger] s[i] <= 'Z' || 'a' <= s[i] <= 'z')
}

/// Law: each kind of token is shown by a name of its own. Distinct kinds have
/// distinct names, every name is one capitalised word, and a two-character
/// operator is named after the one-character operators it is written with.
pub proof fn law_token_type_names(a: TokenType, b: TokenType)
    ensures
        token_type_name(a) == token_type_name(b) ==> a == b,
        is_capitalised_word(token_type_name(a)),
        token_type_name(TokenType::BangEqual) == token_type_name(TokenType::Bang) + token_type_name(
            TokenType::Equal,
        ),
        token_type_name(TokenType::EqualEqual) == token_type_name(TokenType::Equal)
            + token_type_name(TokenType::Equal),
        token_type_name(TokenType::GreaterEqual) == token_type_name(TokenType::Greater)
            + token_type_name(TokenType::Equal),
        token_type_name(TokenType::LessEqual) == token_type_name(TokenType::Less)
            + token_type_name(TokenType::Equal),
{
    reveal_strlit("LeftParen");
    reveal_strlit("RightParen");
    reveal_strlit("LeftBrace");
    reveal_strlit("RightBrace");
    reveal_strlit("Comma");
    reveal_strlit("Dot");
    reveal_strlit("Minus");
    reveal_strlit("Plus");
    reveal_strlit("Semicolon");
    reveal_strlit("Slash");
    reveal_strlit("Star");
    reveal_strlit("Bang");
    reveal_strlit("BangEqual");
    reveal_strlit("Equal");
    reveal_strlit("EqualEqual");
    reveal_strlit("Greater");
    reveal_strlit("GreaterEqual");
    reveal_strlit("Less");
    reveal_strlit("LessEqual");
    reveal_strlit("Identifier");
    reveal_strlit("String");
    reveal_strlit("Number");
    reveal_strlit("And");
    reveal_strlit("Class");
    reveal_strlit("Else");
    reveal_strlit("False");
    reveal_strlit("For");
    reveal_strlit("Fun");
    reveal_strlit("If");
    reveal_strlit("Nil");
    reveal_strlit("Or");
    reveal_strlit("Print");
    reveal_strlit("Rect");
    reveal_strlit("Return");
    reveal_strlit("Super");
    reveal_strlit("This");
    reveal_strlit("True");
    reveal_strlit("Var");
    reveal_strlit("While");
    reveal_strlit("Error");
    reveal_strlit("EOF");
    let na = token_type_name(a);
    let nb = token_type_name(b);
    if na == nb {
        assert(na.len() == nb.len());
        assert(na[0] == nb[0]);
        assert(na[na.len() - 1] == nb[nb.len() - 1]);
    }
    assert(is_capitalised_word(na));
    assert(token_type_name(TokenType::BangEqual) =~= token_type_name(TokenType::Bang)
        + token_type_name(TokenType::Equal));
    assert(token_type_name(TokenType::EqualEqual) =~= token_type_name(TokenType::Equal)
        + token_type_name(TokenType::Equal));
    assert(token_type_name(TokenType::GreaterEqual) =~= token_type_name(TokenType::Greater)
        + token_type_name(TokenType::Equal));
    assert(token_type_name(TokenType::LessEqual) =~= token_type_name(TokenType::Less)
        + token_type_name(TokenType::Equal));
}

} // verus!
