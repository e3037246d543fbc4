use shape_script::script::sample::get_example_001;
use shape_script::script::scanner::{scan_aborts, get_keywords, tokenize, ScannerError};
use shape_script::script::tokens::{Token, TokenType};

fn types(tokens: &[Token]) -> Vec<TokenType> {
    tokens.iter().map(|t| t.type_).collect()
}

#[test]
fn scanner_base() {
    let example = get_example_001();

    let tokens = tokenize(&example.source);

    assert!(tokens.is_ok());
    let tokens = tokens.unwrap();

    for (t, e) in tokens.iter().zip(example.tokens) {
        assert_eq!(t.type_, e.type_);
        assert_eq!(t.lexeme, e.lexeme);
        assert_eq!(t.line, e.line);
    }
}

#[test]
fn scanner_example_has_every_token() {
    let example = get_example_001();
    let tokens = tokenize(&example.source).unwrap();
    assert_eq!(tokens.len(), example.tokens.len());
    assert_eq!(tokens.len(), 46);
}

#[test]
fn scanner_empty_source_gives_only_eof() {
    let tokens = tokenize("").unwrap();
    assert_eq!(tokens.len(), 1);
    assert_eq!(tokens[0].type_, TokenType::EOF);
    assert_eq!(tokens[0].lexeme, "");
    assert_eq!(tokens[0].line, 1);
    assert_eq!(tokens[0].col, 1);
}

#[test]
fn scanner_keywords_and_identifiers() {
    let tokens = tokenize("class Rect var while whilst and or this super nil").unwrap();
    assert_eq!(
        types(&tokens),
        vec![
            TokenType::Class,
            TokenType::Rect,
            TokenType::Var,
            TokenType::While,
            TokenType::Identifier,
            TokenType::And,
            TokenType::Or,
            TokenType::This,
            TokenType::Super,
            TokenType::Nil,
            TokenType::EOF,
        ]
    );
    assert_eq!(tokens[4].lexeme, "whilst");
}

#[test]
fn scanner_one_and_two_character_operators() {
    let tokens = tokenize("! != = == < <= > >= ( ) { } ; , . - + / *").unwrap();
    assert_eq!(
        types(&tokens),
        vec![
            TokenType::Bang,
            TokenType::BangEqual,
            TokenType::Equal,
            TokenType::EqualEqual,
            TokenType::Less,
            TokenType::LessEqual,
            TokenType::Greater,
            TokenType::GreaterEqual,
            TokenType::LeftParen,
            TokenType::RightParen,
            TokenType::LeftBrace,
            TokenType::RightBrace,
            TokenType::Semicolon,
            TokenType::Comma,
            TokenType::Dot,
            TokenType::Minus,
            TokenType::Plus,
            TokenType::Slash,
            TokenType::Star,
            TokenType::EOF,
        ]
    );
    assert_eq!(tokens[1].lexeme, "!=");
    assert_eq!(tokens[7].lexeme, ">=");
}

#[test]
fn scanner_numbers_strings_and_comments() {
    let tokens = tokenize("12.5 7. \"hi there\" // a comment\nx").unwrap();
    assert_eq!(
        types(&tokens),
        vec![
            TokenType::Number,
            TokenType::Number,
            TokenType::Dot,
            TokenType::String,
            TokenType::Identifier,
            TokenType::EOF,
        ]
    );
    assert_eq!(tokens[0].lexeme, "12.5");
    assert_eq!(tokens[1].lexeme, "7");
    assert_eq!(tokens[3].lexeme, "hi there");
    assert_eq!(tokens[4].lexeme, "x");
    assert_eq!(tokens[4].line, 2);
}

#[test]
fn scanner_columns_count_from_one() {
    let tokens = tokenize("ab cd\n  ef").unwrap();
    assert_eq!(tokens[0].col, 1);
    assert_eq!(tokens[1].col, 4);
    assert_eq!(tokens[2].line, 2);
    assert_eq!(tokens[2].col, 2);
}

#[test]
fn scanner_unterminated_string() {
    let r = tokenize("print \"abc");
    assert_eq!(r, Err(ScannerError::UnterminatedString { line: 1, col: 11 }));
}

#[test]
fn scanner_unexpected_character() {
    let r = tokenize("a @");
    assert_eq!(r, Err(ScannerError::UnexpectedChar { line: 1, col: 4, ch: '@' }));
}

#[test]
fn scanner_lines_never_decrease() {
    let example = get_example_001();
    let tokens = tokenize(&example.source).unwrap();
    for w in tokens.windows(2) {
        assert!(w[0].line <= w[1].line);
    }
    let eofs = tokens.iter().filter(|t| t.type_ == TokenType::EOF).count();
    assert_eq!(eofs, 1);
    assert_eq!(tokens.last().unwrap().type_, TokenType::EOF);
}

#[test]
fn scanner_keyword_table() {
    let table = get_keywords();
    assert_eq!(table.len(), 17);
    assert_eq!(table[0], ("and".to_owned(), TokenType::And));
    assert_eq!(table[10], ("Rect".to_owned(), TokenType::Rect));
    assert_eq!(table[16], ("while".to_owned(), TokenType::While));
}

#[test]
fn scan_aborts_on_a_string_across_lines() {
    // The string's lexeme is longer than the column its closing quote ends at.
    assert!(scan_aborts("\"ab\nc\""));
    assert!(scan_aborts("print 1;\n\"one\ntwo\";"));
}

#[test]
fn scan_aborts_not_on_ordinary_sources() {
    assert!(!scan_aborts("var a = 1;\nprint a;"));
    assert!(!scan_aborts("\"one line\""));
    // An error is no abort.
    assert!(!scan_aborts("\"unterminated"));
    assert!(!scan_aborts("#"));
    assert!(!scan_aborts(""));
}

fn kinds_and_lexemes(source: &str) -> Vec<(TokenType, String)> {
    tokenize(source).unwrap().into_iter().map(|t| (t.type_, t.lexeme)).collect()
}

#[test]
fn scanner_blank_between_tokens_changes_only_positions() {
    assert_eq!(kinds_and_lexemes("var a=1;"), kinds_and_lexemes("var a =1;"));
    assert_eq!(kinds_and_lexemes("var a=1;"), kinds_and_lexemes("var a= 1;"));
    assert_eq!(kinds_and_lexemes("print\"x\";"), kinds_and_lexemes("print \"x\";"));
    assert_eq!(kinds_and_lexemes("a==b"), kinds_and_lexemes(" a==b"));
    assert_eq!(kinds_and_lexemes("x.y"), kinds_and_lexemes("x.y "));
    // The columns after the blank move on by one.
    let before = tokenize("var a=1;").unwrap();
    let after = tokenize("var a =1;").unwrap();
    assert_eq!(after[2].col, before[2].col + 1);
    assert_eq!(after[1].col, before[1].col);
}
