use vstd::prelude::*;

use crate::script::scanner::view_tokens;
use crate::script::tokens::{SpecToken, Token, TokenType};

verus! {

/// A sample program and the tokens it scans to (positions but the column).
pub struct Example {
    pub source: String,
    pub tokens: Vec<Token>,
}

/// The source text of the first sample, its lines joined by line breaks.
pub open spec fn example_001_source() -> Seq<char> {
    "class Circle {\n  init(radius) {\n    this.radius = radius;\n  }\n\n  area() {\n    return 3.141592653 * this.radius * this.radius;\n  }\n}\n\nvar circle = Circle(4);\nprint circle.area; // Prints roughly \"50.2655\"."@
}

/// The tokens of the first sample; every column is left at zero.
pub open spec fn example_001_tokens() -> Seq<SpecToken> {
    seq![
        SpecToken { type_: TokenType::Class, lexeme: "class"@, line: 1, col: 0 },
        SpecToken { type_: TokenType::Identifier, lexeme: "Circle"@, line: 1, col: 0 },
        SpecToken { type_: TokenType::LeftBrace, lexeme: "{"@, line: 1, col: 0 },
        SpecToken { type_: TokenType::Identifier, lexeme: "init"@, line: 2, col: 0 },
        SpecToken { type_: TokenType::LeftParen, lexeme: "("@, line: 2, col: 0 },
        SpecToken { type_: TokenType::Identifier, lexeme: "radius"@, line: 2, col: 0 },
        SpecToken { type_: TokenType::RightParen, lexeme: ")"@, line: 2, col: 0 },
        SpecToken { type_: TokenType::LeftBrace, lexeme: "{"@, line: 2, col: 0 },
        SpecToken { type_: TokenType::This, lexeme: "this"@, line: 3, col: 0 },
        SpecToken { type_: TokenType::Dot, lexeme: "."@, line: 3, col: 0 },
        SpecToken { type_: TokenType::Identifier, lexeme: "radius"@, line: 3, col: 0 },
        SpecToken { type_: TokenType::Equal, lexeme: "="@, line: 3, col: 0 },
        SpecToken { type_: TokenType::Identifier, lexeme: "radius"@, line: 3, col: 0 },
        SpecToken { type_: TokenType::Semicolon, lexeme: ";"@, line: 3, col: 0 },
        SpecToken { type_: TokenType::RightBrace, lexeme: "}"@, line: 4, col: 0 },
        SpecToken { type_: TokenType::Identifier, lexeme: "area"@, line: 6, col: 0 },
        SpecToken { type_: TokenType::LeftParen, lexeme: "("@, line: 6, col: 0 },
        SpecToken { type_: TokenType::RightParen, lexeme: ")"@, line: 6, col: 0 },
        SpecToken { type_: TokenType::LeftBrace, lexeme: "{"@, line: 6, col: 0 },
        SpecToken { type_: TokenType::Return, lexeme: "return"@, line: 7, col: 0 },
        SpecToken { type_: TokenType::Number, lexeme: "3.141592653"@, line: 7, col: 0 },
        SpecToken { type_: TokenType::Star, lexeme: "*"@, line: 7, col: 0 },
        SpecToken { type_: TokenType::This, lexeme: "this"@, line: 7, col: 0 },
        SpecToken { type_: TokenType::Dot, lexeme: "."@, line: 7, col: 0 },
        SpecToken { type_: TokenType::Identifier, lexeme: "radius"@, line: 7, col: 0 },
        SpecToken { type_: TokenType::Star, lexeme: "*"@, line: 7, col: 0 },
        SpecToken { type_: TokenType::This, lexeme: "this"@, line: 7, col: 0 },
        SpecToken { type_: TokenType::Dot, lexeme: "."@, line: 7, col: 0 },
        SpecToken { type_: TokenType::Identifier, lexeme: "radius"@, line: 7, col: 0 },
        SpecToken { type_: TokenType::Semicolon, lexeme: ";"@, line: 7, col: 0 },
        SpecToken { type_: TokenType::RightBrace, lexeme: "}"@, line: 8, col: 0 },
        SpecToken { type_: TokenType::RightBrace, lexeme: "}"@, line: 9, col: 0 },
        SpecToken { type_: TokenType::Var, lexeme: "var"@, line: 11, col: 0 },
        SpecToken { type_: TokenType::Identifier, lexeme: "circle"@, line: 11, col: 0 },
        SpecToken { type_: TokenType::Equal, lexeme: "="@, line: 11, col: 0 },
        SpecToken { type_: TokenType::Identifier, lexeme: "Circle"@, line: 11, col: 0 },
        SpecToken { type_: TokenType::LeftParen, lexeme: "("@, line: 11, col: 0 },
        SpecToken { type_: TokenType::Number, lexeme: "4"@, line: 11, col: 0 },
        SpecToken { type_: TokenType::RightParen, lexeme: ")"@, line: 11, col: 0 },
        SpecToken { type_: TokenType::Semicolon, lexeme: ";"@, line: 11, col: 0 },
        SpecToken { type_: TokenType::Print, lexeme: "print"@, line: 12, col: 0 },
        SpecToken { type_: TokenType::Identifier, lexeme: "circle"@, line: 12, col: 0 },
        SpecToken { type_: TokenType::Dot, lexeme: "."@, line: 12, col: 0 },
        SpecToken { type_: TokenType::Identifier, lexeme: "area"@, line: 12, col: 0 },
        SpecToken { type_: TokenType::Semicolon, lexeme: ";"@, line: 12, col: 0 },
        SpecToken { type_: TokenType::EOF, lexeme: ""@, line: 12, col: 0 },
    ]
}

/// The first sample: a class with a constructor and a method, an instance and
/// a call.
pub fn get_example_001() -> (r: Example)
    ensures
        r.source@ == example_001_source(),
        view_tokens(r.tokens@) == example_001_tokens(),
{
    let source = "class Circle {\n  init(radius) {\n    this.radius = radius;\n  }\n\n  area() {\n    return 3.141592653 * this.radius * this.radius;\n  }\n}\n\nvar circle = Circle(4);\nprint circle.area; // Prints roughly \"50.2655\".".to_owned();
    let mut tokens: Vec<Token> = Vec::new();
    tokens.push(Token::new(TokenType::Class, "class", 1, 0));
    tokens.push(Token::new(TokenType::Identifier, "Circle", 1, 0));
    tokens.push(Token::new(TokenType::LeftBrace, "{", 1, 0));
    tokens.push(Token::new(TokenType::Identifier, "init", 2, 0));
    tokens.push(Token::new(TokenType::LeftParen, "(", 2, 0));
    tokens.push(Token::new(TokenType::Identifier, "radius", 2, 0));
    tokens.push(Token::new(TokenType::RightParen, ")", 2, 0));
    tokens.push(Token::new(TokenType::LeftBrace, "{", 2, 0));
    tokens.push(Token::new(TokenType::This, "this", 3, 0));
    tokens.push(Token::new(TokenType::Dot, ".", 3, 0));
    tokens.push(Token::new(TokenType::Identifier, "radius", 3, 0));
    tokens.push(Token::new(TokenType::Equal, "=", 3, 0));
    tokens.push(Token::new(TokenType::Identifier, "radius", 3, 0));
    tokens.push(Token::new(TokenType::Semicolon, ";", 3, 0));
    tokens.push(Token::new(TokenType::RightBrace, "}", 4, 0));
    tokens.push(Token::new(TokenType::Identifier, "area", 6, 0));
    tokens.push(Token::new(TokenType::LeftParen, "(", 6, 0));
    tokens.push(Token::new(TokenType::RightParen, ")", 6, 0));
    tokens.push(Token::new(TokenType::LeftBrace, "{", 6, 0));
    tokens.push(Token::new(TokenType::Return, "return", 7, 0));
    tokens.push(Token::new(TokenType::Number, "3.141592653", 7, 0));
    tokens.push(Token::new(TokenType::Star, "*", 7, 0));
    tokens.push(Token::new(TokenType::This, "this", 7, 0));
    tokens.push(Token::new(TokenType::Dot, ".", 7, 0));
    tokens.push(Token::new(TokenType::Identifier, "radius", 7, 0));
    tokens.push(Token::new(TokenType::Star, "*", 7, 0));
    tokens.push(Token::new(TokenType::This, "this", 7, 0));
    tokens.push(Token::new(TokenType::Dot, ".", 7, 0));
    tokens.push(Token::new(TokenType::Identifier, "radius", 7, 0));
    tokens.push(Token::new(TokenType::Semicolon, ";", 7, 0));
    tokens.push(Token::new(TokenType::RightBrace, "}", 8, 0));
    tokens.push(Token::new(TokenType::RightBrace, "}", 9, 0));
    tokens.push(Token::new(TokenType::Var, "var", 11, 0));
    tokens.push(Token::new(TokenType::Identifier, "circle", 11, 0));
    tokens.push(Token::new(TokenType::Equal, "=", 11, 0));
    tokens.push(Token::new(TokenType::Identifier, "Circle", 11, 0));
    tokens.push(Token::new(TokenType::LeftParen, "(", 11, 0));
    tokens.push(Token::new(TokenType::Number, "4", 11, 0));
    tokens.push(Token::new(TokenType::RightParen, ")", 11, 0));
    tokens.push(Token::new(TokenType::Semicolon, ";", 11, 0));
    tokens.push(Token::new(TokenType::Print, "print", 12, 0));
    tokens.push(Token::new(TokenType::Identifier, "circle", 12, 0));
    tokens.push(Token::new(TokenType::Dot, ".", 12, 0));
    tokens.push(Token::new(TokenType::Identifier, "area", 12, 0));
    tokens.push(Token::new(TokenType::Semicolon, ";", 12, 0));
    tokens.push(Token::new(TokenType::EOF, "", 12, 0));
    assert(view_tokens(tokens@) =~= example_001_tokens());
    Example { source, tokens }
}

} // verus!
