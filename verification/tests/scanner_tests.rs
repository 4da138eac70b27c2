use calcify::scanner::{Scanner, Token, TokenType};

fn kinds(tokens: &[Token]) -> Vec<TokenType> {
    tokens.iter().map(|t| t.token_type).collect()
}

fn lexemes(tokens: &[Token]) -> Vec<String> {
    tokens.iter().map(|t| t.lexeme.clone()).collect()
}

fn scan(source: &str) -> Vec<Token> {
    Scanner::scan(source.to_string())
}

#[test]
fn numeric_literal_stops_before_a_member_access() {
    let tokens = scan("9.foo");
    assert_eq!(
        kinds(&tokens),
        vec![TokenType::Int, TokenType::Dot, TokenType::Ident, TokenType::EOF]
    );
    assert_eq!(lexemes(&tokens), vec!["9", ".", "foo", ""]);
}

#[test]
fn numeric_literal_with_a_fraction_is_a_float() {
    let tokens = scan("9.25 7");
    assert_eq!(kinds(&tokens), vec![TokenType::Float, TokenType::Int, TokenType::EOF]);
    assert_eq!(lexemes(&tokens), vec!["9.25", "7", ""]);
}

#[test]
fn empty_source_is_one_eof() {
    let tokens = scan("");
    assert_eq!(kinds(&tokens), vec![TokenType::EOF]);
    assert_eq!(tokens[0].line, 0);
    assert_eq!(tokens[0].line_offset, 0);
    assert_eq!(tokens[0].lexeme, "");
}

#[test]
fn whitespace_only_source_is_one_eof() {
    let tokens = scan(" \n\t \n");
    assert_eq!(kinds(&tokens), vec![TokenType::EOF]);
    assert_eq!(tokens[0].line, 2);
    assert_eq!(tokens[0].line_offset, 5);
}

#[test]
fn every_stream_ends_with_its_only_eof() {
    for source in ["", "a", "fn f() {}", "\"open", "// c", "@ # $", "1 - -2", "tr", "whil"] {
        let tokens = scan(source);
        assert!(!tokens.is_empty());
        assert_eq!(tokens[tokens.len() - 1].token_type, TokenType::EOF);
        for t in &tokens[..tokens.len() - 1] {
            assert_ne!(t.token_type, TokenType::EOF);
        }
    }
}

#[test]
fn keywords_are_recognised() {
    let tokens = scan(
        "fn struct enum while let return Self if impl else true false trait and or mut for continue break panic Trait",
    );
    assert_eq!(
        kinds(&tokens),
        vec![
            TokenType::Fn,
            TokenType::Struct,
            TokenType::Enum,
            TokenType::While,
            TokenType::Let,
            TokenType::Return,
            TokenType::Self_,
            TokenType::If,
            TokenType::Impl,
            TokenType::Else,
            TokenType::True,
            TokenType::False,
            TokenType::Trait,
            TokenType::And,
            TokenType::Or,
            TokenType::Mut,
            TokenType::For,
            TokenType::Continue,
            TokenType::Break,
            TokenType::Panic,
            TokenType::Trait,
            TokenType::EOF,
        ]
    );
}

#[test]
fn a_keyword_followed_by_an_identifier_character_is_an_identifier() {
    let tokens = scan("fnx iff format lets truex traits t tr tru whil breaker");
    let n = tokens.len();
    for t in &tokens[..n - 1] {
        assert_eq!(t.token_type, TokenType::Ident);
    }
    assert_eq!(
        lexemes(&tokens),
        vec!["fnx", "iff", "format", "lets", "truex", "traits", "t", "tr", "tru", "whil", "breaker", ""]
    );
}

#[test]
fn a_keyword_prefix_at_the_end_of_the_text_is_an_identifier() {
    for source in ["c", "i", "e", "f", "t", "tr", "tra", "whi", "b"] {
        let tokens = scan(source);
        assert_eq!(kinds(&tokens), vec![TokenType::Ident, TokenType::EOF]);
        assert_eq!(tokens[0].lexeme, source);
    }
}

#[test]
fn a_short_name_does_not_take_the_character_after_it() {
    let tokens = scan("f(x) + i.e - t]");
    assert_eq!(
        lexemes(&tokens),
        vec!["f", "(", "x", ")", "+", "i", ".", "e", "-", "t", "]", ""]
    );
    assert_eq!(
        kinds(&tokens),
        vec![
            TokenType::Ident,
            TokenType::LParen,
            TokenType::Ident,
            TokenType::RParen,
            TokenType::Plus,
            TokenType::Ident,
            TokenType::Dot,
            TokenType::Ident,
            TokenType::Minus,
            TokenType::Ident,
            TokenType::RBrack,
            TokenType::EOF,
        ]
    );
}

#[test]
fn punctuation_is_recognised() {
    let tokens = scan("; ( ) [ ] { } @ % . * , | & > >= : :: + += = == < <= << ! != - -= -> /");
    assert_eq!(
        kinds(&tokens),
        vec![
            TokenType::SemiColon,
            TokenType::LParen,
            TokenType::RParen,
            TokenType::LBrack,
            TokenType::RBrack,
            TokenType::LBrace,
            TokenType::RBrace,
            TokenType::At,
            TokenType::Percent,
            TokenType::Dot,
            TokenType::Star,
            TokenType::Comma,
            TokenType::Pipe,
            TokenType::Ampersand,
            TokenType::RArrow,
            TokenType::MoreOrEqual,
            TokenType::Colon,
            TokenType::DoubleColon,
            TokenType::Plus,
            TokenType::PlusEqual,
            TokenType::Equal,
            TokenType::EqualEqual,
            TokenType::LArrow,
            TokenType::LessOrEqual,
            TokenType::SHL,
            TokenType::Bang,
            TokenType::BangEqual,
            TokenType::Minus,
            TokenType::MinusEqual,
            TokenType::SmallArrow,
            TokenType::Slash,
            TokenType::EOF,
        ]
    );
}

#[test]
fn a_sign_before_a_digit_belongs_to_the_literal_unless_a_number_precedes() {
    let tokens = scan("-9");
    assert_eq!(kinds(&tokens), vec![TokenType::Int, TokenType::EOF]);
    assert_eq!(tokens[0].lexeme, "-9");

    let tokens = scan("2-9");
    assert_eq!(
        kinds(&tokens),
        vec![TokenType::Int, TokenType::Minus, TokenType::Int, TokenType::EOF]
    );
    assert_eq!(lexemes(&tokens), vec!["2", "-", "9", ""]);

    let tokens = scan("a -9.5");
    assert_eq!(kinds(&tokens), vec![TokenType::Ident, TokenType::Float, TokenType::EOF]);
    assert_eq!(lexemes(&tokens), vec!["a", "-9.5", ""]);

    let tokens = scan("2.5 -9");
    assert_eq!(
        kinds(&tokens),
        vec![TokenType::Float, TokenType::Minus, TokenType::Int, TokenType::EOF]
    );
}

#[test]
fn a_comment_before_a_sign_hides_the_number_before_it() {
    let tokens = scan("2 //c\n-9");
    assert_eq!(kinds(&tokens), vec![TokenType::Int, TokenType::Int, TokenType::EOF]);
    assert_eq!(lexemes(&tokens), vec!["2", "-9", ""]);
}

#[test]
fn strings_run_to_the_next_quote_that_is_not_escaped() {
    let tokens = scan(r#""a\"b" x"#);
    assert_eq!(kinds(&tokens), vec![TokenType::String, TokenType::Ident, TokenType::EOF]);
    assert_eq!(tokens[0].lexeme, r#""a\"b""#);

    let tokens = scan(r#""a\\" x"#);
    assert_eq!(kinds(&tokens), vec![TokenType::String, TokenType::Ident, TokenType::EOF]);
    assert_eq!(tokens[0].lexeme, r#""a\\""#);
}

#[test]
fn an_open_string_is_an_error_token() {
    let tokens = scan("\"abc");
    assert_eq!(kinds(&tokens), vec![TokenType::Error, TokenType::EOF]);
    assert_eq!(tokens[0].lexeme, "\"abc");

    let tokens = scan("\"abc\\");
    assert_eq!(kinds(&tokens), vec![TokenType::Error, TokenType::EOF]);
}

#[test]
fn an_unknown_character_is_an_error_token_and_scanning_goes_on() {
    let tokens = scan("a # b");
    assert_eq!(
        kinds(&tokens),
        vec![TokenType::Ident, TokenType::Error, TokenType::Ident, TokenType::EOF]
    );
    assert_eq!(tokens[1].lexeme, "#");
}

#[test]
fn all_comments_are_left_out() {
    let tokens = scan("a // one\nb // two\n// three\nc // four");
    assert_eq!(
        kinds(&tokens),
        vec![TokenType::Ident, TokenType::Ident, TokenType::Ident, TokenType::EOF]
    );
    assert_eq!(lexemes(&tokens), vec!["a", "b", "c", ""]);
}

#[test]
fn tokens_record_their_line_and_their_offset() {
    let tokens = scan("ab\n  cd\n\nx");
    assert_eq!(lexemes(&tokens), vec!["ab", "cd", "x", ""]);
    assert_eq!(tokens[0].line, 0);
    assert_eq!(tokens[0].line_offset, 0);
    assert_eq!(tokens[1].line, 1);
    assert_eq!(tokens[1].line_offset, 5);
    assert_eq!(tokens[2].line, 3);
    assert_eq!(tokens[2].line_offset, 9);
    assert_eq!(tokens[3].line, 3);
    assert_eq!(tokens[3].line_offset, 10);
}

#[test]
fn text_outside_ascii_is_scanned_by_characters() {
    let tokens = scan("é = \"ü\" ;");
    assert_eq!(
        kinds(&tokens),
        vec![
            TokenType::Ident,
            TokenType::Equal,
            TokenType::String,
            TokenType::SemiColon,
            TokenType::EOF
        ]
    );
    assert_eq!(lexemes(&tokens), vec!["é", "=", "\"ü\"", ";", ""]);
    assert_eq!(tokens[3].line_offset, 8);
}

#[test]
fn a_copy_of_a_token_is_the_same_token() {
    let tokens = scan("name");
    let copy = tokens[0].copy();
    assert_eq!(copy.token_type, tokens[0].token_type);
    assert_eq!(copy.line, tokens[0].line);
    assert_eq!(copy.line_offset, tokens[0].line_offset);
    assert_eq!(copy.lexeme, tokens[0].lexeme);
}

#[test]
fn tokens_are_pieces_of_the_text_in_its_order() {
    let source = "fn main() { let x = \"a b\"; // c\n x.y(-1.5, é) }\n";
    let chars: Vec<char> = source.chars().collect();
    let tokens = scan(source);
    let mut end = 0;
    for t in &tokens {
        assert!(t.line_offset >= end);
        let len = t.lexeme.chars().count();
        let piece: String = chars[t.line_offset..t.line_offset + len].iter().collect();
        assert_eq!(piece, t.lexeme);
        end = t.line_offset + len;
    }
    assert_eq!(tokens[tokens.len() - 1].line_offset, chars.len());
}

#[test]
fn two_character_operators_are_one_token_each() {
    let tokens = scan("<= >= << -> :: == != += -=");
    assert_eq!(
        kinds(&tokens),
        vec![
            TokenType::LessOrEqual,
            TokenType::MoreOrEqual,
            TokenType::SHL,
            TokenType::SmallArrow,
            TokenType::DoubleColon,
            TokenType::EqualEqual,
            TokenType::BangEqual,
            TokenType::PlusEqual,
            TokenType::MinusEqual,
            TokenType::EOF,
        ]
    );
    assert_eq!(
        lexemes(&tokens),
        vec!["<=", ">=", "<<", "->", "::", "==", "!=", "+=", "-=", ""]
    );
    let tokens = scan("a>=b >> c > =");
    assert_eq!(
        kinds(&tokens),
        vec![
            TokenType::Ident,
            TokenType::MoreOrEqual,
            TokenType::Ident,
            TokenType::RArrow,
            TokenType::RArrow,
            TokenType::Ident,
            TokenType::RArrow,
            TokenType::Equal,
            TokenType::EOF,
        ]
    );
}
