use calcify::ast::decl::{FieldDecl, StructDecl, Type};
use calcify::ast::expresions::{ArrayConstructor, BinaryOp, Expresion};
use calcify::ast::parser::{Parsable, TokenCursor, TokenExt, Wrapper};
use calcify::ast::statments::Statment;
use calcify::scanner::{Scanner, Token, TokenType};

fn cursor(source: &str) -> TokenCursor {
    TokenCursor::new(Scanner::scan(source.to_string())).expect("a scanned stream ends with EOF")
}

fn parse_as<T: Parsable>(source: &str) -> T {
    match T::parse(&mut cursor(source)) {
        Ok(v) => v,
        Err(e) => panic!("{:?}", e),
    }
}

#[test]
fn every_kind_of_tree_parses_through_the_trait() {
    let s: StructDecl = parse_as("struct S { a: Int }");
    assert_eq!(s.name.lexeme, "S");
    let e: Expresion = parse_as("1 + 2");
    assert!(matches!(e, Expresion::Binary(_)));
    let op: BinaryOp = parse_as(">>");
    assert_eq!(op, BinaryOp::SHR);
    let op: BinaryOp = parse_as("> 1");
    assert_eq!(op, BinaryOp::Greaterthan);
    let a: ArrayConstructor = parse_as("[1, 2, 3]");
    assert_eq!(a.len(), 3);
    let st: Statment = parse_as("return;");
    assert!(matches!(st, Statment::Return(None)));
    let p: (Token, Type) = parse_as("x: [Int]");
    assert_eq!(p.0.lexeme, "x");
    assert!(matches!(p.1, Type::Array(_)));
}

#[test]
fn a_list_is_parsed_between_its_delimiters() {
    let mut tokens = cursor("( a: A ; b: B ) rest");
    let fields: Vec<FieldDecl> = TokenExt::list_parse(
        &mut tokens,
        TokenType::LParen,
        TokenType::SemiColon,
        TokenType::RParen,
    )
    .unwrap();
    let names: Vec<&str> = fields.iter().map(|f| f.name.lexeme.as_str()).collect();
    assert_eq!(names, vec!["a", "b"]);
    assert_eq!(tokens.peek().lexeme, "rest");

    let mut tokens = cursor("( ) rest");
    let fields: Vec<FieldDecl> =
        TokenExt::list_parse(&mut tokens, TokenType::LParen, TokenType::Comma, TokenType::RParen)
            .unwrap();
    assert!(fields.is_empty());
    assert_eq!(tokens.peek().lexeme, "rest");
}

#[test]
fn a_list_needs_its_start_and_an_optional_list_does_not() {
    let mut tokens = cursor("rest");
    let err = TokenExt::list_parse::<FieldDecl>(
        &mut tokens,
        TokenType::LParen,
        TokenType::Comma,
        TokenType::RParen,
    )
    .unwrap_err();
    assert_eq!(err.expected, vec![TokenType::LParen]);
    assert_eq!(err.got.lexeme, "rest");
    assert_eq!(tokens.peek_kind(), TokenType::EOF);

    let mut tokens = cursor("rest");
    let fields: Vec<FieldDecl> = TokenExt::optional_list_parse(
        &mut tokens,
        TokenType::LParen,
        TokenType::Comma,
        TokenType::RParen,
    )
    .unwrap();
    assert!(fields.is_empty());
    assert_eq!(tokens.peek().lexeme, "rest");

    let mut tokens = cursor("< A, B<C> > rest");
    let types: Vec<Type> = TokenExt::optional_list_parse(
        &mut tokens,
        TokenType::LArrow,
        TokenType::Comma,
        TokenType::RArrow,
    )
    .unwrap();
    assert_eq!(types.len(), 2);
    assert_eq!(tokens.peek().lexeme, "rest");
}

#[test]
fn a_list_that_is_not_closed_is_an_error_with_the_end_expected() {
    let mut tokens = cursor("( a: A b: B )");
    let err = TokenExt::list_parse::<FieldDecl>(
        &mut tokens,
        TokenType::LParen,
        TokenType::Comma,
        TokenType::RParen,
    )
    .unwrap_err();
    assert_eq!(err.expected, vec![TokenType::Comma, TokenType::RParen]);
    assert_eq!(err.got.lexeme, "b");
}

#[test]
fn the_steps_of_the_trait_are_those_of_the_cursor() {
    let mut tokens = cursor("a b");
    let err = TokenExt::peek_consume(&mut tokens, TokenType::Int).unwrap_err();
    assert_eq!(err.got.lexeme, "a");
    assert_eq!(TokenExt::consume(&mut tokens, TokenType::Ident).unwrap().lexeme, "a");
    let err = TokenExt::consume_multiple(&mut tokens, vec![TokenType::Int, TokenType::Float])
        .unwrap_err();
    assert_eq!(err.expected, vec![TokenType::Int, TokenType::Float]);
    assert_eq!(err.got.lexeme, "b");
    let err = TokenExt::peek_consume_multiple(&mut tokens, vec![TokenType::Int]).unwrap_err();
    assert_eq!(err.got.token_type, TokenType::EOF);
}

#[test]
fn a_value_that_is_there_is_handed_out() {
    assert_eq!(Some(7).cannot_end(), 7);
}

#[test]
fn one_or_more_is_its_first_item_and_then_the_rest() {
    let items = calcify::ast::OneOrMore { first: 1, rest: vec![2, 3] };
    assert_eq!(items.into(), vec![1, 2, 3]);
    let one = calcify::ast::OneOrMore { first: 'a', rest: vec![] };
    assert_eq!(one.into(), vec!['a']);
}

#[test]
fn one_or_more_with_joins_every_item_but_the_first_to_the_one_before() {
    let items = calcify::ast::OneOrMoreWith { first: 1, rest: vec![(2, '+'), (3, '-'), (4, '+')] };
    assert_eq!(
        items.into(),
        vec![(1, None), (2, Some('+')), (3, Some('-')), (4, Some('+'))]
    );
    let one: calcify::ast::OneOrMoreWith<u8, char> =
        calcify::ast::OneOrMoreWith { first: 7, rest: vec![] };
    assert_eq!(one.into(), vec![(7, None)]);
}
