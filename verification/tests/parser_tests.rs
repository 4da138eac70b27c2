use calcify::ast::decl::{Declaration, Program, Type};
use calcify::ast::expresions::{BinaryOp, ConstructorType, Expresion, UnaryOp};
use calcify::ast::parser::{ParseError, TokenCursor};
use calcify::ast::statments::{IfType, Statment};
use calcify::scanner::{Scanner, TokenType};

fn cursor(source: &str) -> TokenCursor {
    TokenCursor::new(Scanner::scan(source.to_string())).expect("a scanned stream ends with EOF")
}

fn expr(source: &str) -> Result<Expresion, ParseError> {
    Expresion::parse(&mut cursor(source))
}

fn program(source: &str) -> Result<Program, ParseError> {
    Program::parse(&mut cursor(source))
}

fn show_type(t: &Type) -> String {
    match t {
        Type::Unit => "()".to_string(),
        Type::ActualType(s) => show_solid(&s.name.lexeme, &s.generics),
        Type::Array(s) => format!("[{}]", show_solid(&s.name.lexeme, &s.generics)),
        Type::FP(fp) => format!(
            "|{}|:{}",
            fp.args.iter().map(show_type).collect::<Vec<_>>().join(","),
            show_type(&fp.out)
        ),
        Type::DynamicType(traits) => format!(
            "({})",
            traits
                .iter()
                .map(|s| show_solid(&s.name.lexeme, &s.generics))
                .collect::<Vec<_>>()
                .join("+")
        ),
    }
}

fn show_solid(name: &str, generics: &[Type]) -> String {
    if generics.is_empty() {
        name.to_string()
    } else {
        format!("{}<{}>", name, generics.iter().map(show_type).collect::<Vec<_>>().join(","))
    }
}

fn show(e: &Expresion) -> String {
    match e {
        Expresion::IntLitteral(t) | Expresion::FloatLitteral(t) | Expresion::StringLitteral(t) => {
            t.lexeme.clone()
        }
        Expresion::VarAccess(t) => t.lexeme.clone(),
        Expresion::True => "true".to_string(),
        Expresion::False => "false".to_string(),
        Expresion::TypeAssocatedFunction(f) => format!("{}::{}", f.type_.lexeme, f.func_name.lexeme),
        Expresion::FunctionCall(c) => format!(
            "call({}<{}>({}))",
            show(&c.function),
            c.generics.iter().map(show_type).collect::<Vec<_>>().join(","),
            c.arguments.iter().map(show).collect::<Vec<_>>().join(",")
        ),
        Expresion::FieldAcess(f) => format!("({}).{}", show(&f.expr), f.field.lexeme),
        Expresion::Index(i) => format!("({})[{}]", show(&i.expr), show(&i.index)),
        Expresion::Constructor(c) => {
            let object = match &c.object_to_construct {
                ConstructorType::StructConstructor(s) => format!(
                    "{}{{{}}}",
                    s.struct_name.lexeme,
                    s.fields
                        .iter()
                        .map(|f| format!("{}:{}", f.name.lexeme, show(&f.value)))
                        .collect::<Vec<_>>()
                        .join(",")
                ),
                ConstructorType::EnumConstructor(s) => format!(
                    "{}::{}{{{}}}",
                    s.enum_name.lexeme,
                    s.varient_name.lexeme,
                    s.fields
                        .iter()
                        .map(|f| format!("{}:{}", f.name.lexeme, show(&f.value)))
                        .collect::<Vec<_>>()
                        .join(",")
                ),
                ConstructorType::ArrayConstructor(a) => {
                    format!("[{}]", a.iter().map(show).collect::<Vec<_>>().join(","))
                }
            };
            match &c.areana {
                Some(a) => format!("{}@{}", object, show(a)),
                None => object,
            }
        }
        Expresion::Cast(c) => format!(
            "cast({}:({}))",
            show(&c.expr),
            c.traits_to_cast_to
                .iter()
                .map(|s| show_solid(&s.name.lexeme, &s.generics))
                .collect::<Vec<_>>()
                .join("+")
        ),
        Expresion::Parens(p) => format!("({})", show(p)),
        Expresion::Unary(u) => match u.unary_op {
            UnaryOp::Negate => format!("Negate({})", show(&u.expr)),
            UnaryOp::Not => format!("Not({})", show(&u.expr)),
        },
        Expresion::Binary(b) => {
            format!("{:?}({},{})", b.binary_op, show(&b.lhs), show(&b.rhs))
        }
        Expresion::Block(b) => format!("block[{}]", b.len()),
    }
}

fn shown(source: &str) -> String {
    show(&expr(source).expect("the expression parses"))
}

#[test]
fn multiplication_binds_tighter_than_addition() {
    assert_eq!(shown("2 + 3 * 4"), "Add(2,Mult(3,4))");
    assert_eq!(shown("2 * 3 + 4"), "Add(Mult(2,3),4)");
}

#[test]
fn assignment_groups_to_the_right() {
    assert_eq!(shown("a = b = c"), "Assign(a,Assign(b,c))");
}

#[test]
fn subtraction_groups_to_the_left() {
    assert_eq!(shown("a - b - c"), "Subtract(Subtract(a,b),c)");
}

#[test]
fn every_level_of_the_precedence_table_is_in_order() {
    assert_eq!(shown("a = b or c"), "Assign(a,LogicalOr(b,c))");
    assert_eq!(shown("a or b and c"), "LogicalOr(a,LogicalAnd(b,c))");
    assert_eq!(shown("a and b == c"), "LogicalAnd(a,Equal(b,c))");
    assert_eq!(shown("a != b <= c"), "NE(a,LE(b,c))");
    assert_eq!(shown("a == b >= c"), "Equal(a,GE(b,c))");
    assert_eq!(shown("a > b | c"), "Greaterthan(a,BitwiseOr(b,c))");
    assert_eq!(shown("a | b & c"), "BitwiseOr(a,BitwiseAnd(b,c))");
    assert_eq!(shown("a & b << c"), "BitwiseAnd(a,SHL(b,c))");
    assert_eq!(shown("a >> b + c"), "SHR(a,Add(b,c))");
    assert_eq!(shown("a + b % c"), "Add(a,Mod(b,c))");
    assert_eq!(shown("a - b / c"), "Subtract(a,Div(b,c))");
}

#[test]
fn a_long_chain_has_the_operator_that_is_applied_last_at_its_root() {
    assert_eq!(
        shown("a = b + c * d - e"),
        "Assign(a,Subtract(Add(b,Mult(c,d)),e))"
    );
    assert_eq!(
        shown("a * b + c * d == e or f and g"),
        "LogicalOr(Equal(Add(Mult(a,b),Mult(c,d)),e),LogicalAnd(f,g))"
    );
    assert_eq!(shown("a = b = c = d"), "Assign(a,Assign(b,Assign(c,d)))");
    assert_eq!(shown("a / b * c % d"), "Mod(Mult(Div(a,b),c),d)");
    assert_eq!(shown("a + b << c + d"), "SHL(Add(a,b),Add(c,d))");
}

#[test]
fn operator_tables_have_their_documented_values() {
    assert_eq!(BinaryOp::Mod.precedence(), 9);
    assert_eq!(BinaryOp::Mult.precedence(), 9);
    assert_eq!(BinaryOp::Div.precedence(), 9);
    assert_eq!(BinaryOp::Add.precedence(), 8);
    assert_eq!(BinaryOp::Subtract.precedence(), 8);
    assert_eq!(BinaryOp::SHL.precedence(), 7);
    assert_eq!(BinaryOp::SHR.precedence(), 7);
    assert_eq!(BinaryOp::BitwiseAnd.precedence(), 6);
    assert_eq!(BinaryOp::BitwiseOr.precedence(), 5);
    assert_eq!(BinaryOp::Lessthan.precedence(), 4);
    assert_eq!(BinaryOp::Greaterthan.precedence(), 4);
    assert_eq!(BinaryOp::GE.precedence(), 4);
    assert_eq!(BinaryOp::LE.precedence(), 4);
    assert_eq!(BinaryOp::Equal.precedence(), 3);
    assert_eq!(BinaryOp::NE.precedence(), 3);
    assert_eq!(BinaryOp::LogicalAnd.precedence(), 2);
    assert_eq!(BinaryOp::LogicalOr.precedence(), 1);
    assert_eq!(BinaryOp::Assign.precedence(), 0);
    assert!(!BinaryOp::Assign.left_assocative());
    assert!(BinaryOp::Add.left_assocative());
    assert!(BinaryOp::LogicalOr.left_assocative());
    assert!(BinaryOp::Add.goes_before(&BinaryOp::Add));
    assert!(!BinaryOp::Assign.goes_before(&BinaryOp::Assign));
    assert!(BinaryOp::Mult.goes_before(&BinaryOp::Add));
    assert!(!BinaryOp::Add.goes_before(&BinaryOp::Mult));
}

#[test]
fn parentheses_group_without_leaving_a_node() {
    assert_eq!(shown("(2 + 3) * 4"), "Mult(Add(2,3),4)");
}

#[test]
fn prefix_operators_apply_to_the_operand_after_them() {
    assert_eq!(shown("!a and b"), "LogicalAnd(Not(a),b)");
    assert_eq!(shown("- a * b"), "Mult(Negate(a),b)");
}

#[test]
fn postfix_chains_apply_from_the_left() {
    assert_eq!(shown("a.b.c"), "((a).b).c");
    assert_eq!(shown("a(1, 2)(3)"), "call(call(a<>(1,2))<>(3))");
    assert_eq!(shown("a[1][2]"), "((a)[1])[2]");
    assert_eq!(shown("a.b(c)[d]"), "(call((a).b<>(c)))[d]");
    assert_eq!(shown("make<Int, [Float]>(1)"), "call(make<Int,[Float]>(1))");
}

#[test]
fn constructors_and_paths() {
    assert_eq!(shown("Point { x: 1, y: 2 + 3 }"), "Point{x:1,y:Add(2,3)}");
    assert_eq!(shown("Point {}"), "Point{}");
    assert_eq!(shown("Shape::Circle { r: 1 }"), "Shape::Circle{r:1}");
    assert_eq!(shown("Shape::Circle { r: 1 } @ heap"), "Shape::Circle{r:1}@heap");
    assert_eq!(shown("Shape::new(1)"), "call(Shape::new<>(1))");
    assert_eq!(shown("Shape::new<Int>()"), "call(Shape::new<Int>())");
    assert_eq!(shown("[1, 2, 3]"), "[1,2,3]");
    assert_eq!(shown("[] @ arena"), "[]@arena");
}

#[test]
fn a_cast_comes_before_what_follows_the_operand() {
    assert_eq!(shown("a: (Show + Eq<Int>).name"), "(cast(a:(Show+Eq<Int>))).name");
}

#[test]
fn a_path_needs_a_brace_a_parenthesis_or_generics_after_it() {
    let mut tokens = cursor("Shape::Circle + 1");
    let err = Expresion::parse(&mut tokens).unwrap_err();
    assert_eq!(err.expected, vec![TokenType::LBrace, TokenType::LParen, TokenType::LArrow]);
    assert_eq!(err.got.token_type, TokenType::Plus);
}

#[test]
fn an_error_names_what_could_start_an_expression_and_what_was_there() {
    let err = expr("2 + )").unwrap_err();
    assert_eq!(
        err.expected,
        vec![
            TokenType::Minus,
            TokenType::Bang,
            TokenType::Int,
            TokenType::Float,
            TokenType::String,
            TokenType::True,
            TokenType::False,
            TokenType::Ident,
            TokenType::LBrack,
            TokenType::LBrace,
            TokenType::LParen,
        ]
    );
    assert_eq!(err.got.token_type, TokenType::RParen);
    assert_eq!(err.got.line_offset, 4);
}

#[test]
fn an_operand_that_starts_with_an_operator_names_every_kind_that_could_start_it() {
    let err = expr("* 2").unwrap_err();
    assert_eq!(err.got.token_type, TokenType::Star);
    assert_eq!(err.got.lexeme, "*");
    let mut expected = err.expected.clone();
    expected.sort_by_key(|k| format!("{:?}", k));
    let mut wanted = vec![
        TokenType::Minus,
        TokenType::Bang,
        TokenType::Int,
        TokenType::Float,
        TokenType::String,
        TokenType::True,
        TokenType::False,
        TokenType::Ident,
        TokenType::LBrack,
        TokenType::LBrace,
        TokenType::LParen,
    ];
    wanted.sort_by_key(|k| format!("{:?}", k));
    assert_eq!(expected, wanted);
    for source in ["-a", "!a", "1", "1.5", "\"s\"", "true", "false", "a", "[a]", "{ a }", "(a)"] {
        assert!(expr(source).is_ok(), "{}", source);
    }
}

#[test]
fn greater_or_equal_is_one_operator() {
    assert_eq!(shown("a >= b"), "GE(a,b)");
    assert_eq!(shown("a >= b + 1"), "GE(a,Add(b,1))");
    assert_eq!(shown("a > b"), "Greaterthan(a,b)");
    assert_eq!(shown("a >> b"), "SHR(a,b)");
    let p = program("fn f(a: Int, b: Int) -> Bool { if (a) >= (b) { return true; } a >= b }").unwrap();
    assert_eq!(p.code.len(), 1);
}

#[test]
fn an_empty_program_has_no_declarations() {
    let p = program("  // nothing\n").unwrap();
    assert!(p.code.is_empty());
}

#[test]
fn a_struct_with_generics_and_fields() {
    let p = program("struct Pair<A, B: Show + Eq<A>> { first: A, second: [B] }").unwrap();
    assert_eq!(p.code.len(), 1);
    match &p.code[0] {
        Declaration::StructDecl(s) => {
            assert_eq!(s.name.lexeme, "Pair");
            assert_eq!(s.generics.len(), 2);
            assert_eq!(s.generics[0].name.lexeme, "A");
            assert!(s.generics[0].constraints.is_empty());
            assert_eq!(s.generics[1].name.lexeme, "B");
            let bounds: Vec<String> = s.generics[1].constraints.iter().map(show_type).collect();
            assert_eq!(bounds, vec!["Show", "Eq<A>"]);
            let fields: Vec<(String, String)> = s
                .fields
                .iter()
                .map(|f| (f.name.lexeme.clone(), show_type(&f.type_of)))
                .collect();
            assert_eq!(
                fields,
                vec![("first".to_string(), "A".to_string()), ("second".to_string(), "[B]".to_string())]
            );
        }
        other => panic!("expected a struct, got {:?}", other),
    }
}

#[test]
fn every_form_of_type() {
    let p = program("struct S { a: (), b: |Int, [Int]|: Bool, c: || , d: (Show + Eq), e: Self, f: Map<K, List<V>> }")
        .unwrap();
    match &p.code[0] {
        Declaration::StructDecl(s) => {
            let types: Vec<String> = s.fields.iter().map(|f| show_type(&f.type_of)).collect();
            assert_eq!(
                types,
                vec!["()", "|Int,[Int]|:Bool", "||:()", "(Show+Eq)", "Self", "Map<K,List<V>>"]
            );
        }
        other => panic!("expected a struct, got {:?}", other),
    }
}

#[test]
fn an_enum_with_and_without_fields() {
    let p = program("enum Shape<T> { Dot, Circle { r: T }, Empty {} }").unwrap();
    match &p.code[0] {
        Declaration::EnumDecl(e) => {
            assert_eq!(e.name.lexeme, "Shape");
            assert_eq!(e.generics.len(), 1);
            let variants: Vec<(String, usize)> =
                e.varients.iter().map(|v| (v.name.lexeme.clone(), v.fields.len())).collect();
            assert_eq!(
                variants,
                vec![("Dot".to_string(), 0), ("Circle".to_string(), 1), ("Empty".to_string(), 0)]
            );
        }
        other => panic!("expected an enum, got {:?}", other),
    }
}

#[test]
fn a_trait_with_signatures() {
    let p = program("trait Show<T> { fn show(x: T) -> Text; fn reset() }").unwrap();
    match &p.code[0] {
        Declaration::TraitDecl(t) => {
            assert_eq!(t.name.lexeme, "Show");
            assert_eq!(t.funcs.len(), 2);
            assert_eq!(t.funcs[0].name.lexeme, "show");
            assert_eq!(t.funcs[0].parameters.len(), 1);
            assert_eq!(t.funcs[0].parameters[0].0.lexeme, "x");
            assert_eq!(show_type(&t.funcs[0].parameters[0].1), "T");
            assert_eq!(show_type(&t.funcs[0].out), "Text");
            assert_eq!(t.funcs[1].name.lexeme, "reset");
            assert_eq!(show_type(&t.funcs[1].out), "()");
        }
        other => panic!("expected a trait, got {:?}", other),
    }
}

#[test]
fn an_impl_with_and_without_a_trait() {
    let p = program("impl<T> Show<T> for Pair<T> { fn show() {} } impl Pair<Int> {}").unwrap();
    assert_eq!(p.code.len(), 2);
    match &p.code[0] {
        Declaration::ImplDecl(i) => {
            assert_eq!(i.generics.len(), 1);
            assert_eq!(i.trait_to_impl.as_ref().map(show_type), Some("Show<T>".to_string()));
            assert_eq!(show_type(&i.type_to_impl_on), "Pair<T>");
            assert_eq!(i.funcs.len(), 1);
        }
        other => panic!("expected an impl, got {:?}", other),
    }
    match &p.code[1] {
        Declaration::ImplDecl(i) => {
            assert!(i.trait_to_impl.is_none());
            assert_eq!(show_type(&i.type_to_impl_on), "Pair<Int>");
            assert!(i.funcs.is_empty());
        }
        other => panic!("expected an impl, got {:?}", other),
    }
}

#[test]
fn a_function_with_every_kind_of_statement() {
    let source = "fn main(n: Int) -> Int {
        let mut total: Int = 0;
        let i = 1;
        while i <= (n) { total = total + i; continue; }
        if total == 0 { panic; } else if let Option.Some { value: Pair { a, b } } (total) { break; } else { return; }
        fn helper() {}
        { 1; }
        return total;
        total
    }";
    let p = program(source).unwrap();
    match &p.code[0] {
        Declaration::FunctionDecl(f) => {
            assert_eq!(f.sig.name.lexeme, "main");
            assert_eq!(show_type(&f.sig.out), "Int");
            assert_eq!(f.body.len(), 8);
            match &f.body[0] {
                Statment::VarCreation(v) => {
                    assert!(v.mutable);
                    assert_eq!(v.name.lexeme, "total");
                    assert_eq!(v.type_of.as_ref().map(show_type), Some("Int".to_string()));
                }
                other => panic!("expected a let, got {:?}", other),
            }
            match &f.body[1] {
                Statment::VarCreation(v) => {
                    assert!(!v.mutable);
                    assert!(v.type_of.is_none());
                }
                other => panic!("expected a let, got {:?}", other),
            }
            match &f.body[2] {
                Statment::While(w) => {
                    assert_eq!(show(&w.condition), "LE(i,n)");
                    match &*w.statment {
                        Statment::Block(b) => {
                            assert_eq!(b.len(), 2);
                            assert!(matches!(b[1], Statment::Continue));
                        }
                        other => panic!("expected a block, got {:?}", other),
                    }
                }
                other => panic!("expected a while, got {:?}", other),
            }
            match &f.body[3] {
                Statment::If(i) => {
                    assert_eq!(i.conditionals_and_statments.len(), 2);
                    assert!(matches!(i.conditionals_and_statments[0].0, IfType::Boolean(_)));
                    match &i.conditionals_and_statments[1].0 {
                        IfType::IfLet { pattern, expresion } => {
                            assert_eq!(show_type(&pattern.type_of), "Option");
                            assert_eq!(pattern.varient.as_ref().unwrap().lexeme, "Some");
                            assert_eq!(pattern.constructor.len(), 1);
                            assert_eq!(pattern.constructor[0].0.lexeme, "value");
                            let inner = pattern.constructor[0].1.as_ref().unwrap();
                            assert_eq!(show_type(&inner.type_of), "Pair");
                            assert_eq!(inner.constructor.len(), 2);
                            assert!(inner.constructor[0].1.is_none());
                            assert_eq!(show(expresion), "total");
                        }
                        other => panic!("expected an if let, got {:?}", other),
                    }
                    assert!(i.else_statment.is_some());
                }
                other => panic!("expected an if, got {:?}", other),
            }
            assert!(matches!(f.body[4], Statment::FuncCreation(_)));
            assert!(matches!(f.body[5], Statment::Block(_)));
            match &f.body[6] {
                Statment::Return(Some(s)) => assert!(matches!(**s, Statment::Expresion(_))),
                other => panic!("expected a return, got {:?}", other),
            }
            match &f.body[7] {
                Statment::ImReturn(s) => assert!(matches!(**s, Statment::Expresion(_))),
                other => panic!("expected the value of the block, got {:?}", other),
            }
        }
        other => panic!("expected a function, got {:?}", other),
    }
}

#[test]
fn an_if_leaves_the_token_after_it_where_it_is() {
    let p = program("fn f() { if (a) { } b; }").unwrap();
    match &p.code[0] {
        Declaration::FunctionDecl(f) => {
            assert_eq!(f.body.len(), 2);
            assert!(matches!(f.body[0], Statment::If(_)));
            assert!(matches!(f.body[1], Statment::Expresion(_)));
        }
        other => panic!("expected a function, got {:?}", other),
    }
}

#[test]
fn a_name_before_a_brace_starts_a_struct_constructor() {
    let p = program("fn f() { if a { } b; }").unwrap();
    match &p.code[0] {
        Declaration::FunctionDecl(f) => {
            assert_eq!(f.body.len(), 1);
            match &f.body[0] {
                Statment::If(i) => {
                    assert_eq!(i.conditionals_and_statments.len(), 1);
                    match &i.conditionals_and_statments[0].0 {
                        IfType::Boolean(e) => assert_eq!(show(e), "a{}"),
                        other => panic!("expected a condition, got {:?}", other),
                    }
                    assert!(matches!(i.conditionals_and_statments[0].1, Statment::Expresion(_)));
                }
                other => panic!("expected an if, got {:?}", other),
            }
        }
        other => panic!("expected a function, got {:?}", other),
    }
}

#[test]
fn a_declaration_must_start_with_its_keyword() {
    let mut tokens = cursor("let x = 1;");
    let err = Program::parse(&mut tokens).unwrap_err();
    assert_eq!(
        err.expected,
        vec![TokenType::Struct, TokenType::Enum, TokenType::Fn, TokenType::Trait, TokenType::Impl]
    );
    assert_eq!(err.got.token_type, TokenType::Let);
}

#[test]
fn a_missing_name_is_reported_with_the_token_found() {
    let err = program("struct { }").unwrap_err();
    assert_eq!(err.expected, vec![TokenType::Ident]);
    assert_eq!(err.got.token_type, TokenType::LBrace);
    assert_eq!(err.got.line_offset, 7);
}

#[test]
fn the_end_of_the_text_inside_a_declaration_is_an_error_not_a_panic() {
    let err = program("struct").unwrap_err();
    assert_eq!(err.expected, vec![TokenType::Ident]);
    assert_eq!(err.got.token_type, TokenType::EOF);
    let err = program("fn f() { 1 +").unwrap_err();
    assert_eq!(err.got.token_type, TokenType::EOF);
    let err = program("fn f() { if x { }").unwrap_err();
    assert_eq!(err.got.token_type, TokenType::EOF);
}

#[test]
fn an_expression_statement_needs_its_semicolon() {
    let err = program("fn f() { a b }").unwrap_err();
    assert_eq!(err.expected, vec![TokenType::SemiColon, TokenType::RBrace]);
    assert_eq!(err.got.lexeme, "b");
}

#[test]
fn a_statement_that_starts_with_no_statement_names_every_kind_that_could_start_one() {
    let err = program("fn f() { ) }").unwrap_err();
    assert_eq!(
        err.expected,
        vec![
            TokenType::Let,
            TokenType::Fn,
            TokenType::Continue,
            TokenType::Break,
            TokenType::If,
            TokenType::While,
            TokenType::Return,
            TokenType::LBrace,
            TokenType::Panic,
            TokenType::Minus,
            TokenType::Bang,
            TokenType::Int,
            TokenType::Float,
            TokenType::String,
            TokenType::True,
            TokenType::False,
            TokenType::Ident,
            TokenType::LBrack,
            TokenType::LParen,
        ]
    );
    assert_eq!(err.got.token_type, TokenType::RParen);
}

#[test]
fn an_error_inside_an_expression_is_that_of_the_expression() {
    let err = program("fn f() { a + ; }").unwrap_err();
    assert_eq!(err.got.token_type, TokenType::SemiColon);
    assert_eq!(err.expected.len(), 11);
    assert!(!err.expected.contains(&TokenType::Let));
    assert!(err.expected.contains(&TokenType::LParen));
}

#[test]
fn a_type_that_starts_with_no_type_names_every_kind_that_could_start_one() {
    let err = program("struct S { a: 1 }").unwrap_err();
    assert_eq!(
        err.expected,
        vec![
            TokenType::LParen,
            TokenType::Pipe,
            TokenType::LBrack,
            TokenType::Ident,
            TokenType::Self_,
        ]
    );
    assert_eq!(err.got.lexeme, "1");
    let err = program("struct S { a: [1] }").unwrap_err();
    assert_eq!(err.expected, vec![TokenType::Ident, TokenType::Self_]);
}

#[test]
fn a_list_that_is_not_closed_names_the_delimiter_and_the_end() {
    let err = program("struct S { a: A b: B }").unwrap_err();
    assert_eq!(err.expected, vec![TokenType::Comma, TokenType::RBrace]);
    assert_eq!(err.got.lexeme, "b");
    let err = program("trait T { fn f() fn g() }").unwrap_err();
    assert_eq!(err.expected, vec![TokenType::SemiColon, TokenType::RBrace]);
    let err = expr("f(a b)").unwrap_err();
    assert_eq!(err.expected, vec![TokenType::Comma, TokenType::RParen]);
    let err = expr("f<A B>()").unwrap_err();
    assert_eq!(err.expected, vec![TokenType::Comma, TokenType::RArrow]);
}

#[test]
fn a_list_takes_no_trailing_delimiter() {
    let err = program("struct S { a: Int, }").unwrap_err();
    assert_eq!(err.expected, vec![TokenType::Ident]);
    assert_eq!(err.got.token_type, TokenType::RBrace);
}

#[test]
fn a_cursor_needs_a_stream_that_ends_with_eof() {
    assert!(TokenCursor::new(Vec::new()).is_none());
    let mut tokens = Scanner::scan("a".to_string());
    tokens.pop();
    assert!(TokenCursor::new(tokens).is_none());
}

#[test]
fn cursor_steps() {
    let mut tokens = cursor("a , b");
    assert_eq!(tokens.peek_kind(), TokenType::Ident);
    assert!(tokens.at(TokenType::Ident));
    let err = tokens.peek_consume(TokenType::Comma).unwrap_err();
    assert_eq!(err.expected, vec![TokenType::Comma]);
    assert_eq!(err.got.lexeme, "a");
    assert_eq!(tokens.peek().lexeme, "a");
    let err = tokens.consume(TokenType::Comma).unwrap_err();
    assert_eq!(err.got.lexeme, "a");
    assert_eq!(tokens.peek().lexeme, ",");
    assert!(!tokens.accept(TokenType::Ident));
    assert!(tokens.accept(TokenType::Comma));
    let got = tokens
        .consume_multiple(vec![TokenType::Int, TokenType::Ident])
        .unwrap();
    assert_eq!(got.lexeme, "b");
    let err = tokens
        .peek_consume_multiple(vec![TokenType::Int, TokenType::Ident])
        .unwrap_err();
    assert_eq!(err.expected, vec![TokenType::Int, TokenType::Ident]);
    assert_eq!(err.got.token_type, TokenType::EOF);
}

#[test]
fn reparsing_the_same_text_gives_the_same_tree() {
    let source = "struct A<T: B> { x: T } enum E { V { y: [A<Int>] } } trait B { fn f(a: A<Int>) -> () } impl B for A<Int> { fn f(a: A<Int>) { let z = a.x; z } } fn main() { main(); }";
    let first = format!("{:?}", program(source).unwrap());
    let second = format!("{:?}", program(source).unwrap());
    assert_eq!(first, second);
    let spaced = source.replace(' ', "  \n // c\n ");
    let third = program(&spaced).unwrap();
    assert_eq!(third.code.len(), 5);
}

fn render_generics(generics: &[calcify::ast::decl::GenericDecl]) -> String {
    if generics.is_empty() {
        String::new()
    } else {
        let items: Vec<String> = generics
            .iter()
            .map(|g| {
                if g.constraints.is_empty() {
                    g.name.lexeme.clone()
                } else {
                    format!(
                        "{}: {}",
                        g.name.lexeme,
                        g.constraints.iter().map(show_type).collect::<Vec<_>>().join(" + ")
                    )
                }
            })
            .collect();
        format!("<{}>", items.join(", "))
    }
}

fn render_fields(fields: &[calcify::ast::decl::FieldDecl]) -> String {
    fields
        .iter()
        .map(|f| format!("{}: {}", f.name.lexeme, show_type(&f.type_of)))
        .collect::<Vec<_>>()
        .join(", ")
}

fn render_sig(sig: &calcify::ast::decl::FuncSig) -> String {
    format!(
        "fn {}{}({}) -> {}",
        sig.name.lexeme,
        render_generics(&sig.generics),
        sig.parameters
            .iter()
            .map(|(n, t)| format!("{}: {}", n.lexeme, show_type(t)))
            .collect::<Vec<_>>()
            .join(", "),
        show_type(&sig.out)
    )
}

fn render(p: &Program) -> String {
    let mut out = String::new();
    for d in &p.code {
        let text = match d {
            Declaration::StructDecl(s) => format!(
                "struct {}{} {{ {} }}",
                s.name.lexeme,
                render_generics(&s.generics),
                render_fields(&s.fields)
            ),
            Declaration::EnumDecl(e) => format!(
                "enum {}{} {{ {} }}",
                e.name.lexeme,
                render_generics(&e.generics),
                e.varients
                    .iter()
                    .map(|v| format!("{} {{ {} }}", v.name.lexeme, render_fields(&v.fields)))
                    .collect::<Vec<_>>()
                    .join(", ")
            ),
            Declaration::TraitDecl(t) => format!(
                "trait {}{} {{ {} }}",
                t.name.lexeme,
                render_generics(&t.generics),
                t.funcs.iter().map(render_sig).collect::<Vec<_>>().join("; ")
            ),
            Declaration::ImplDecl(i) => format!(
                "impl{} {}{} {{ {} }}",
                render_generics(&i.generics),
                match &i.trait_to_impl {
                    Some(t) => format!("{} for ", show_type(t)),
                    None => String::new(),
                },
                show_type(&i.type_to_impl_on),
                i.funcs
                    .iter()
                    .map(|f| format!("{} {{ }}", render_sig(&f.sig)))
                    .collect::<Vec<_>>()
                    .join(" ")
            ),
            Declaration::FunctionDecl(f) => format!("{} {{ }}", render_sig(&f.sig)),
        };
        out.push_str(&text);
        out.push('\n');
    }
    out.replace("|:", "| :").replace(",", ", ").replace("+", " + ")
}

#[test]
fn a_rendered_program_parses_to_a_program_that_renders_the_same() {
    let source = "struct A<T: B + C<T>, U> { x: T, y: [Map<K, V>], z: |Int, ()|: Self, w: (B + C<Int>) }
        enum E<T> { None, Some { value: T }, Pair { a: T, b: T } }
        trait B<X: C<X>> { fn f<Y>(a: X, b: Y) -> (); fn g() -> Int }
        impl<T: B<T>> C<T> for A<T, Int> { fn f(a: T) -> T { } fn g() -> () { } }
        impl A<Int, Int> { }
        fn main<T>(args: [Text]) -> Int { }";
    let first = program(source).unwrap();
    let rendered = render(&first);
    let second = program(&rendered).unwrap();
    assert_eq!(render(&second), rendered);
    assert_eq!(first.code.len(), second.code.len());
    let third = program(&render(&second)).unwrap();
    assert_eq!(render(&third), rendered);
}
