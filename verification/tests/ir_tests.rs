use calcify::ast::decl::Program;
use calcify::ast::parser::TokenCursor;
use calcify::ir::ir_type_data::{CompileError, Type, IR};
use calcify::ir::ir_validator::IRValidator;
use calcify::scanner::Scanner;

fn program(source: &str) -> Program {
    let mut tokens =
        TokenCursor::new(Scanner::scan(source.to_string())).expect("a scanned stream ends with EOF");
    Program::parse(&mut tokens).expect("the program parses")
}

fn lower(source: &str) -> Result<IR, CompileError> {
    IR::try_from(&program(source))
}

fn show(t: &Type) -> String {
    fn args(types: &[Type]) -> String {
        if types.is_empty() {
            String::new()
        } else {
            format!("<{}>", types.iter().map(show).collect::<Vec<_>>().join(","))
        }
    }
    match t {
        Type::Unit => "()".to_string(),
        Type::Actual(a) => format!("{}{}", a.name, args(&a.types_in_generics)),
        Type::Array(a) => format!("[{}{}]", a.name, args(&a.types_in_generics)),
        Type::DynType(traits) => format!(
            "({})",
            traits
                .iter()
                .map(|t| format!("{}{}", t.name, args(&t.types_in_generics)))
                .collect::<Vec<_>>()
                .join("+")
        ),
        Type::FP(fp) => format!(
            "|{}|:{}",
            fp.arg.iter().map(show).collect::<Vec<_>>().join(","),
            show(&fp.out)
        ),
    }
}

#[test]
fn declarations_are_sorted_by_kind_and_keep_their_order() {
    let ir = lower(
        "fn b() {} struct S {} enum E {} trait T {} struct R {} impl T for S {} fn a() {} impl S {}",
    )
    .unwrap();
    let names = |v: Vec<&String>| v.into_iter().cloned().collect::<Vec<String>>();
    assert_eq!(names(ir.structs.iter().map(|e| &e.0).collect()), vec!["S", "R"]);
    assert_eq!(names(ir.enums.iter().map(|e| &e.0).collect()), vec!["E"]);
    assert_eq!(names(ir.traits.iter().map(|e| &e.0).collect()), vec!["T"]);
    assert_eq!(names(ir.function.iter().map(|e| &e.0).collect()), vec!["b", "a"]);
    assert_eq!(ir.impls.len(), 2);
    assert_eq!(ir.impls[0].trait_to_impl.as_ref().unwrap().name, "T");
    assert_eq!(show(&ir.impls[0].type_to_impl_on), "S");
    assert!(ir.impls[1].trait_to_impl.is_none());
}

#[test]
fn types_are_lowered_structurally() {
    let ir = lower(
        "struct S<A: Show + Eq<A>, B: (Ord + Hash<[A]>), C> { a: (), b: [Map<K, V>], c: |Int, ()|: Self, d: (Show + Eq<Int>), e: || }",
    )
    .unwrap();
    let (name, s) = &ir.structs[0];
    assert_eq!(name, "S");
    let fields: Vec<(String, String)> =
        s.fields.iter().map(|(n, t)| (n.clone(), show(t))).collect();
    assert_eq!(
        fields,
        vec![
            ("a".to_string(), "()".to_string()),
            ("b".to_string(), "[Map<K,V>]".to_string()),
            ("c".to_string(), "|Int,()|:Self".to_string()),
            ("d".to_string(), "(Show+Eq<Int>)".to_string()),
            ("e".to_string(), "||:()".to_string()),
        ]
    );
    assert_eq!(s.generics.len(), 3);
    assert_eq!(s.generics[0].name, "A");
    let bounds = |i: usize| -> Vec<String> {
        s.generics[i]
            .constraits
            .iter()
            .map(|t| format!("{}/{}", t.name, t.types_in_generics.len()))
            .collect()
    };
    assert_eq!(bounds(0), vec!["Show/0", "Eq/1"]);
    assert_eq!(bounds(1), vec!["Ord/0", "Hash/1"]);
    assert!(bounds(2).is_empty());
}

#[test]
fn a_bound_that_is_no_trait_reference_names_no_trait() {
    let ir = lower("struct S<A: () + [X] + || + T> {}").unwrap();
    let names: Vec<String> =
        ir.structs[0].1.generics[0].constraits.iter().map(|t| t.name.clone()).collect();
    assert_eq!(names, vec!["T"]);
}

#[test]
fn a_function_keeps_its_signature_and_no_code() {
    let ir = lower("fn f<T: Show>(a: T, b: [Int]) -> Bool { return a; }").unwrap();
    let (name, f) = &ir.function[0];
    assert_eq!(name, "f");
    assert_eq!(f.tag.generics.len(), 1);
    let inputs: Vec<(String, String)> =
        f.tag.inputs.iter().map(|(n, t)| (n.clone(), show(t))).collect();
    assert_eq!(
        inputs,
        vec![("a".to_string(), "T".to_string()), ("b".to_string(), "[Int]".to_string())]
    );
    assert_eq!(show(&f.tag.output), "Bool");
    assert!(f.body.code.is_empty());
    assert!(f.body.functions.is_empty());
}

#[test]
fn enums_and_traits_are_lowered_with_their_members() {
    let ir = lower("enum E<T> { A, B { x: T, y: Int } } trait T<X> { fn f(a: X) -> X; fn g() }")
        .unwrap();
    let (_, e) = &ir.enums[0];
    assert_eq!(e.generics.len(), 1);
    assert_eq!(e.varients.len(), 2);
    assert_eq!(e.varients[0].0, "A");
    assert!(e.varients[0].1.is_empty());
    assert_eq!(e.varients[1].0, "B");
    assert_eq!(e.varients[1].1.len(), 2);
    assert_eq!(show(&e.varients[1].1[0].1), "T");
    let (_, t) = &ir.traits[0];
    assert_eq!(t.generics.len(), 1);
    assert_eq!(t.func_tag.len(), 2);
    assert_eq!(t.func_tag[0].0, "f");
    assert_eq!(show(&t.func_tag[0].1.output), "X");
    assert_eq!(t.func_tag[1].0, "g");
    assert_eq!(show(&t.func_tag[1].1.output), "()");
}

#[test]
fn two_structs_of_one_name_are_reported_once() {
    match lower("struct Foo {} struct Foo {} enum Foo {}").unwrap_err() {
        CompileError::DuplicateStructs(names) => assert_eq!(names, vec!["Foo"]),
        other => panic!("expected duplicate structs, got {:?}", other),
    }
    match lower("struct Foo {} struct Foo {} struct Foo {}").unwrap_err() {
        CompileError::DuplicateStructs(names) => assert_eq!(names, vec!["Foo"]),
        other => panic!("expected duplicate structs, got {:?}", other),
    }
}

#[test]
fn every_duplicate_of_a_kind_is_reported_in_the_order_of_its_second_occurrence() {
    match lower("struct A {} struct B {} struct C {} struct B {} struct A {} struct B {}")
        .unwrap_err()
    {
        CompileError::DuplicateStructs(names) => assert_eq!(names, vec!["B", "A"]),
        other => panic!("expected duplicate structs, got {:?}", other),
    }
}

#[test]
fn kinds_are_checked_one_after_the_other() {
    assert!(lower("struct Foo {} enum Foo {} trait Foo {} fn Foo() {}").is_ok());
    match lower("fn f() {} fn f() {} trait T {} trait T {} enum E {} enum E {}").unwrap_err() {
        CompileError::DuplicateEnums(names) => assert_eq!(names, vec!["E"]),
        other => panic!("expected duplicate enums, got {:?}", other),
    }
    match lower("fn f() {} fn f() {} trait T {} trait T {}").unwrap_err() {
        CompileError::DuplicateTraits(names) => assert_eq!(names, vec!["T"]),
        other => panic!("expected duplicate traits, got {:?}", other),
    }
    match lower("fn f() {} fn g() {} fn f() {}").unwrap_err() {
        CompileError::DuplicateFunctions(names) => assert_eq!(names, vec!["f"]),
        other => panic!("expected duplicate functions, got {:?}", other),
    }
}

#[test]
fn duplicates_come_before_impls() {
    match lower("impl [X] for Int {} struct S {} struct S {}").unwrap_err() {
        CompileError::DuplicateStructs(names) => assert_eq!(names, vec!["S"]),
        other => panic!("expected duplicate structs, got {:?}", other),
    }
}

#[test]
fn only_a_trait_can_stand_before_for() {
    match lower("struct Foo {} impl Foo for Int {}").unwrap_err() {
        CompileError::OnlyTraitsCanBeImplimentedOn(t) => assert_eq!(show(&t), "Foo"),
        other => panic!("expected the error of an impl, got {:?}", other),
    }
    match lower("enum Foo {} impl Foo<Int> for Int {}").unwrap_err() {
        CompileError::OnlyTraitsCanBeImplimentedOn(t) => assert_eq!(show(&t), "Foo<Int>"),
        other => panic!("expected the error of an impl, got {:?}", other),
    }
    match lower("impl [Foo] for Int {}").unwrap_err() {
        CompileError::OnlyTraitsCanBeImplimentedOn(t) => assert_eq!(show(&t), "[Foo]"),
        other => panic!("expected the error of an impl, got {:?}", other),
    }
    match lower("impl (A + B) for Int {}").unwrap_err() {
        CompileError::OnlyTraitsCanBeImplimentedOn(t) => assert_eq!(show(&t), "(A+B)"),
        other => panic!("expected the error of an impl, got {:?}", other),
    }
    match lower("impl () for Int {}").unwrap_err() {
        CompileError::OnlyTraitsCanBeImplimentedOn(t) => assert_eq!(show(&t), "()"),
        other => panic!("expected the error of an impl, got {:?}", other),
    }
    match lower("trait T {} impl T for Int {} impl || for Int {} impl [X] for Int {}").unwrap_err()
    {
        CompileError::OnlyTraitsCanBeImplimentedOn(t) => assert_eq!(show(&t), "||:()"),
        other => panic!("expected the error of an impl, got {:?}", other),
    }
}

#[test]
fn a_name_that_is_a_trait_too_or_is_not_declared_can_stand_before_for() {
    assert!(lower("struct Foo {} trait Foo {} impl Foo for Int {}").is_ok());
    let ir = lower("impl Unknown for Int {}").unwrap();
    match IRValidator::validate(&ir).unwrap_err() {
        CompileError::NoTraitWithThatNameFound(name) => assert_eq!(name, "Unknown"),
        other => panic!("expected a trait that is not found, got {:?}", other),
    }
}

#[test]
fn a_bound_with_too_few_types_is_an_arity_error() {
    let ir = lower("trait Foo<T> {} struct S<X: Foo> {}").unwrap();
    match IRValidator::validate(&ir).unwrap_err() {
        CompileError::NumberOfGenericsAndTypesGivenDoNotMatchInItem(name, wanted, given) => {
            assert_eq!(name, "Foo");
            assert_eq!(wanted, 1);
            assert_eq!(given, 0);
        }
        other => panic!("expected an arity error, got {:?}", other),
    }
}

#[test]
fn a_bound_with_too_many_types_is_an_arity_error() {
    let ir = lower("trait Foo {} fn f<X: Foo<Int, Int>>() {}").unwrap();
    match IRValidator::validate(&ir).unwrap_err() {
        CompileError::NumberOfGenericsAndTypesGivenDoNotMatchInItem(name, wanted, given) => {
            assert_eq!(name, "Foo");
            assert_eq!(wanted, 0);
            assert_eq!(given, 2);
        }
        other => panic!("expected an arity error, got {:?}", other),
    }
}

#[test]
fn a_bound_on_an_unknown_trait_is_reported_by_its_name() {
    let ir = lower("struct S<X: Bar, Y: Bar> {}").unwrap();
    match IRValidator::validate(&ir).unwrap_err() {
        CompileError::NoTraitWithThatNameFound(name) => assert_eq!(name, "Bar"),
        other => panic!("expected a trait that is not found, got {:?}", other),
    }
}

#[test]
fn the_walk_goes_into_a_trait_where_it_is_first_named() {
    // The struct comes first; its bound leads into `A`, whose bound names
    // `Missing`, before the enum with its own unknown trait is reached.
    let ir = lower("trait A<T: Missing> {} enum E<X: Other> {} struct S<X: A<Int>> {}").unwrap();
    match IRValidator::validate(&ir).unwrap_err() {
        CompileError::NoTraitWithThatNameFound(name) => assert_eq!(name, "Missing"),
        other => panic!("expected a trait that is not found, got {:?}", other),
    }
}

#[test]
fn the_first_error_in_walk_order_is_reported() {
    let ir = lower("fn f<X: Nowhere>() {} trait T<A> {} enum E<X: T> {} impl Gone for Int {}")
        .unwrap();
    match IRValidator::validate(&ir).unwrap_err() {
        CompileError::NumberOfGenericsAndTypesGivenDoNotMatchInItem(name, wanted, given) => {
            assert_eq!((name.as_str(), wanted, given), ("T", 1, 0));
        }
        other => panic!("expected an arity error, got {:?}", other),
    }
}

#[test]
fn traits_that_bound_each_other_are_valid() {
    let ir = lower("trait A<T: B<T>> {} trait B<T: A<T>> { fn f<U: A<U> + B<U>>() } struct S<X: A<X>> {}")
        .unwrap();
    assert!(IRValidator::validate(&ir).is_ok());
}

#[test]
fn the_signatures_of_a_trait_and_the_functions_of_an_impl_are_walked() {
    let ir = lower("trait A { fn f<U: Missing>() }").unwrap();
    assert!(matches!(
        IRValidator::validate(&ir).unwrap_err(),
        CompileError::NoTraitWithThatNameFound(name) if name == "Missing"
    ));
    let ir = lower("trait A {} impl A for Int { fn f<U: A<Int>>() {} }").unwrap();
    assert!(matches!(
        IRValidator::validate(&ir).unwrap_err(),
        CompileError::NumberOfGenericsAndTypesGivenDoNotMatchInItem(name, 0, 1) if name == "A"
    ));
    let ir = lower("trait A<T> {} impl<X: A<X>> A<X> for Int { fn f<U: A<U>>() {} }").unwrap();
    assert!(IRValidator::validate(&ir).is_ok());
}

#[test]
fn a_valid_program_is_valid() {
    let ir = lower(
        "trait Show {} trait Eq<T> {} struct P<A: Show, B: Show + Eq<A>> { a: A, b: B } enum E<T: Eq<T>> { X } impl<T: Show> Eq<T> for P<T, T> {} fn f<T: Show>(x: T) {}",
    )
    .unwrap();
    assert!(IRValidator::validate(&ir).is_ok());
    assert!(IRValidator::validate(&lower("").unwrap()).is_ok());
}

#[test]
fn types_in_fields_are_not_walked() {
    let ir = lower("struct S { a: Unknown<Int>, b: (Missing + Gone) }").unwrap();
    assert!(IRValidator::validate(&ir).is_ok());
}

#[test]
fn of_the_members_of_one_name_the_last_is_kept() {
    let ir = lower(
        "struct S { a: A, b: B, a: C } enum E { X { p: P, p: Q }, Y, X { r: R } } trait T { fn f() -> A; fn g(); fn f() -> B }",
    )
    .unwrap();
    let fields: Vec<(String, String)> =
        ir.structs[0].1.fields.iter().map(|(n, t)| (n.clone(), show(t))).collect();
    assert_eq!(
        fields,
        vec![("b".to_string(), "B".to_string()), ("a".to_string(), "C".to_string())]
    );
    let variants: Vec<(String, Vec<String>)> = ir.enums[0]
        .1
        .varients
        .iter()
        .map(|(n, f)| (n.clone(), f.iter().map(|(m, t)| format!("{}:{}", m, show(t))).collect()))
        .collect();
    assert_eq!(
        variants,
        vec![("Y".to_string(), vec![]), ("X".to_string(), vec!["r:R".to_string()])]
    );
    let tags: Vec<(String, String)> =
        ir.traits[0].1.func_tag.iter().map(|(n, t)| (n.clone(), show(&t.output))).collect();
    assert_eq!(
        tags,
        vec![("g".to_string(), "()".to_string()), ("f".to_string(), "B".to_string())]
    );
    let ir = lower("enum E { X { p: P, q: Q, p: R } }").unwrap();
    let fields: Vec<String> = ir.enums[0].1.varients[0].1.iter().map(|(n, _)| n.clone()).collect();
    assert_eq!(fields, vec!["q", "p"]);
}

#[test]
fn a_copy_of_a_tree_or_of_a_lowered_program_is_the_same() {
    let source = "struct A<T: B + C<T>> { x: [T], y: |Int|: (), z: (B + C<Int>) }
        enum E { X { a: A<Int> }, Y }
        trait B { fn f<U: B>(a: U) -> Int }
        impl B for A<Int> { fn f(a: Int) -> Int { let mut x: Int = a + 1 * 2; if (x) >= 3 { return x; } else if let E.X { a: A { x } } (x) { x = [1, 2] @ heap; } else { panic; } while true { break; } E::X { a: a.b[0](1) }: (B) } }
        fn main() { main(); }";
    let p = program(source);
    let q = p.clone();
    assert_eq!(format!("{:?}", p), format!("{:?}", q));
    let ir = IR::try_from(&p).unwrap();
    let copy = ir.clone();
    assert_eq!(format!("{:?}", ir), format!("{:?}", copy));
    assert!(IRValidator::validate(&copy).is_ok() == IRValidator::validate(&ir).is_ok());
    let err = lower("struct S {} struct S {}").unwrap_err();
    assert_eq!(format!("{:?}", err.clone()), format!("{:?}", err));
}
