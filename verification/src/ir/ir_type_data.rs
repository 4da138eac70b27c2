//! The intermediate representation and the lowering of a syntax tree into
//! it.
//!
//! Lowering is a function of the value of the program: it sorts the
//! declarations by kind, refuses names that occur twice within a kind,
//! turns every written type into its resolved form, and keeps of each
//! function its signature.

use crate::ast::decl::{
    declaration_views, field_decl_views, func_sig_views, function_decl_views, generic_decl_views,
    parameter_views, solid_type_views, type_views as ast_type_views, varient_decl_views,
    Declaration, DeclarationView, EnumDecl, EnumDeclView, FieldDecl, FieldDeclView, FuncSig,
    FuncSigView, FunctionDecl, FunctionDeclView, FunctionPointer, FunctionPointerView, GenericDecl,
    GenericDeclView, ImplDecl, ImplDeclView, Program, ProgramView, SolidType, SolidTypeView,
    StructDecl, StructDeclView, TraitDecl, TraitDeclView, Type as ASTType, TypeView as ASTTypeView,
    VarientDecl, VarientDeclView,
};
use crate::ir::ir_chunk::{clone_irchunk, irchunk_view, IRChunk, IRChunkView};
use crate::scanner::{Token, TokenView};
use itertools::Itertools;
use vstd::prelude::*;

verus! {

/// The fields of a struct or of a variant, by name, in order.
pub type Fields = Vec<(String, Type)>;

/// A lowered program: its structs, enums, traits and functions by name, in the order in which they
/// were declared, and its impls.
#[derive(Debug)]
pub struct IR {
    pub structs: Vec<(String, Struct)>,
    pub enums: Vec<(String, Enum)>,
    pub traits: Vec<(String, Trait)>,
    pub impls: Vec<Impl>,
    pub function: Vec<(String, Function)>,
}

/// The mathematical value of an [`IR`].
pub ghost struct IRView {
    pub structs: Seq<(Seq<char>, StructView)>,
    pub enums: Seq<(Seq<char>, EnumView)>,
    pub traits: Seq<(Seq<char>, TraitView)>,
    pub impls: Seq<ImplView>,
    pub function: Seq<(Seq<char>, FunctionView)>,
}

/// The value of `x`.
pub open spec fn ir_view(x: IR) -> IRView
    decreases x,
{
    IRView {
        structs: struct_entries(x.structs@),
        enums: enum_entries(x.enums@),
        traits: trait_entries(x.traits@),
        impls: impl_views(x.impls@),
        function: function_entries(x.function@),
    }
}

impl View for IR {
    type V = IRView;

    open spec fn view(&self) -> IRView {
        ir_view(*self)
    }
}

/// A function: its signature, and its code.
#[derive(Debug)]
pub struct Function {
    pub tag: FuncTag,
    pub body: IRChunk,
}

/// The mathematical value of a [`Function`].
pub ghost struct FunctionView {
    pub tag: FuncTagView,
    pub body: IRChunkView,
}

/// The value of `x`.
pub open spec fn function_view(x: Function) -> FunctionView
    decreases x,
{
    FunctionView {
        tag: func_tag_view(x.tag),
        body: irchunk_view(x.body),
    }
}

impl View for Function {
    type V = FunctionView;

    open spec fn view(&self) -> FunctionView {
        function_view(*self)
    }
}

/// An impl: the trait that it implements if it names one, the type, and its functions by name.
#[derive(Debug)]
pub struct Impl {
    pub generics: Vec<Generic>,
    pub trait_to_impl: Option<ActualType>,
    pub type_to_impl_on: Type,
    pub funcs: Vec<(String, Function)>,
}

/// The mathematical value of an [`Impl`].
pub ghost struct ImplView {
    pub generics: Seq<GenericView>,
    pub trait_to_impl: Option<ActualTypeView>,
    pub type_to_impl_on: TypeView,
    pub funcs: Seq<(Seq<char>, FunctionView)>,
}

/// The value of `x`.
pub open spec fn impl_view(x: Impl) -> ImplView
    decreases x,
{
    ImplView {
        generics: generic_views(x.generics@),
        trait_to_impl: match x.trait_to_impl { Some(v) => Some(actual_type_view(v)), None => None },
        type_to_impl_on: type_view(x.type_to_impl_on),
        funcs: function_entries(x.funcs@),
    }
}

impl View for Impl {
    type V = ImplView;

    open spec fn view(&self) -> ImplView {
        impl_view(*self)
    }
}

/// A trait: its generic parameters and the signatures of its functions by name.
#[derive(Debug)]
pub struct Trait {
    pub generics: Vec<Generic>,
    pub func_tag: Vec<(String, FuncTag)>,
}

/// The mathematical value of a [`Trait`].
pub ghost struct TraitView {
    pub generics: Seq<GenericView>,
    pub func_tag: Seq<(Seq<char>, FuncTagView)>,
}

/// The value of `x`.
pub open spec fn trait_view(x: Trait) -> TraitView
    decreases x,
{
    TraitView {
        generics: generic_views(x.generics@),
        func_tag: func_tag_entries(x.func_tag@),
    }
}

impl View for Trait {
    type V = TraitView;

    open spec fn view(&self) -> TraitView {
        trait_view(*self)
    }
}

/// The signature of a function.
#[derive(Debug)]
pub struct FuncTag {
    pub generics: Vec<Generic>,
    pub inputs: Vec<(String, Type)>,
    pub output: Type,
}

/// The mathematical value of a [`FuncTag`].
pub ghost struct FuncTagView {
    pub generics: Seq<GenericView>,
    pub inputs: Seq<(Seq<char>, TypeView)>,
    pub output: TypeView,
}

/// The value of `x`.
pub open spec fn func_tag_view(x: FuncTag) -> FuncTagView
    decreases x,
{
    FuncTagView {
        generics: generic_views(x.generics@),
        inputs: field_entries(x.inputs@),
        output: type_view(x.output),
    }
}

impl View for FuncTag {
    type V = FuncTagView;

    open spec fn view(&self) -> FuncTagView {
        func_tag_view(*self)
    }
}

/// An enum: its generic parameters and the fields of its variants by name.
#[derive(Debug)]
pub struct Enum {
    pub generics: Vec<Generic>,
    pub varients: Vec<(String, Fields)>,
}

/// The mathematical value of an [`Enum`].
pub ghost struct EnumView {
    pub generics: Seq<GenericView>,
    pub varients: Seq<(Seq<char>, Seq<(Seq<char>, TypeView)>)>,
}

/// The value of `x`.
pub open spec fn enum_view(x: Enum) -> EnumView
    decreases x,
{
    EnumView {
        generics: generic_views(x.generics@),
        varients: varient_entries(x.varients@),
    }
}

impl View for Enum {
    type V = EnumView;

    open spec fn view(&self) -> EnumView {
        enum_view(*self)
    }
}

/// A struct: its generic parameters and its fields.
#[derive(Debug)]
pub struct Struct {
    pub generics: Vec<Generic>,
    pub fields: Fields,
}

/// The mathematical value of a [`Struct`].
pub ghost struct StructView {
    pub generics: Seq<GenericView>,
    pub fields: Seq<(Seq<char>, TypeView)>,
}

/// The value of `x`.
pub open spec fn struct_view(x: Struct) -> StructView
    decreases x,
{
    StructView {
        generics: generic_views(x.generics@),
        fields: field_entries(x.fields@),
    }
}

impl View for Struct {
    type V = StructView;

    open spec fn view(&self) -> StructView {
        struct_view(*self)
    }
}

/// A generic parameter: its name and the traits that bound it.
#[derive(Debug)]
pub struct Generic {
    pub name: String,
    pub constraits: Vec<TraitType>,
}

/// The mathematical value of a [`Generic`].
pub ghost struct GenericView {
    pub name: Seq<char>,
    pub constraits: Seq<TraitTypeView>,
}

/// The value of `x`.
pub open spec fn generic_view(x: Generic) -> GenericView
    decreases x,
{
    GenericView {
        name: x.name@,
        constraits: trait_type_views(x.constraits@),
    }
}

impl View for Generic {
    type V = GenericView;

    open spec fn view(&self) -> GenericView {
        generic_view(*self)
    }
}

/// A type: `()`, a named type, an array of a named type, a set of trait
/// bounds, or a function pointer.
#[derive(Debug)]
pub enum Type {
    Unit,
    Actual(ActualType),
    Array(ActualType),
    DynType(Vec<TraitType>),
    FP(FP),
}

/// The mathematical value of a [`Type`].
pub ghost enum TypeView {
    Unit,
    Actual(ActualTypeView),
    Array(ActualTypeView),
    DynType(Seq<TraitTypeView>),
    FP(FPView),
}

/// The value of `x`.
pub open spec fn type_view(x: Type) -> TypeView
    decreases x,
{
    match x {
        Type::Unit => TypeView::Unit,
        Type::Actual(a) => TypeView::Actual(actual_type_view(a)),
        Type::Array(a) => TypeView::Array(actual_type_view(a)),
        Type::DynType(a) => TypeView::DynType(trait_type_views(a@)),
        Type::FP(a) => TypeView::FP(fp_view(a)),
    }
}

impl View for Type {
    type V = TypeView;

    open spec fn view(&self) -> TypeView {
        type_view(*self)
    }
}

/// The type of a function: argument types and result type.
#[derive(Debug)]
pub struct FP {
    pub arg: Vec<Type>,
    pub out: Box<Type>,
}

/// The mathematical value of a [`FP`].
pub ghost struct FPView {
    pub arg: Seq<TypeView>,
    pub out: Box<TypeView>,
}

/// The value of `x`.
pub open spec fn fp_view(x: FP) -> FPView
    decreases x,
{
    FPView {
        arg: type_views(x.arg@),
        out: Box::new(type_view(*x.out)),
    }
}

impl View for FP {
    type V = FPView;

    open spec fn view(&self) -> FPView {
        fp_view(*self)
    }
}

/// A named type with the types given for its generic parameters.
#[derive(Debug)]
pub struct ActualType {
    pub name: String,
    pub types_in_generics: Vec<Type>,
}

/// The mathematical value of an [`ActualType`].
pub ghost struct ActualTypeView {
    pub name: Seq<char>,
    pub types_in_generics: Seq<TypeView>,
}

/// The value of `x`.
pub open spec fn actual_type_view(x: ActualType) -> ActualTypeView
    decreases x,
{
    ActualTypeView {
        name: x.name@,
        types_in_generics: type_views(x.types_in_generics@),
    }
}

impl View for ActualType {
    type V = ActualTypeView;

    open spec fn view(&self) -> ActualTypeView {
        actual_type_view(*self)
    }
}

/// A trait by name, with the types given for its generic parameters.
#[derive(Debug)]
pub struct TraitType {
    pub name: String,
    pub types_in_generics: Vec<Type>,
}

/// The mathematical value of a [`TraitType`].
pub ghost struct TraitTypeView {
    pub name: Seq<char>,
    pub types_in_generics: Seq<TypeView>,
}

/// The value of `x`.
pub open spec fn trait_type_view(x: TraitType) -> TraitTypeView
    decreases x,
{
    TraitTypeView {
        name: x.name@,
        types_in_generics: type_views(x.types_in_generics@),
    }
}

impl View for TraitType {
    type V = TraitTypeView;

    open spec fn view(&self) -> TraitTypeView {
        trait_type_view(*self)
    }
}

/// The values of a sequence of named structs.
pub open spec fn struct_entries(s: Seq<(String, Struct)>) -> Seq<(Seq<char>, StructView)>
    decreases s,
{
    Seq::new(
        s.len(),
        |i: int|
            if 0 <= i < s.len() {
                (s[i].0@, struct_view(s[i].1))
            } else {
                arbitrary()
            },
    )
}

/// The values of a sequence of named enums.
pub open spec fn enum_entries(s: Seq<(String, Enum)>) -> Seq<(Seq<char>, EnumView)>
    decreases s,
{
    Seq::new(
        s.len(),
        |i: int|
            if 0 <= i < s.len() {
                (s[i].0@, enum_view(s[i].1))
            } else {
                arbitrary()
            },
    )
}

/// The values of a sequence of named traits.
pub open spec fn trait_entries(s: Seq<(String, Trait)>) -> Seq<(Seq<char>, TraitView)>
    decreases s,
{
    Seq::new(
        s.len(),
        |i: int|
            if 0 <= i < s.len() {
                (s[i].0@, trait_view(s[i].1))
            } else {
                arbitrary()
            },
    )
}

/// The values of a sequence of named functions.
pub open spec fn function_entries(s: Seq<(String, Function)>) -> Seq<(Seq<char>, FunctionView)>
    decreases s,
{
    Seq::new(
        s.len(),
        |i: int|
            if 0 <= i < s.len() {
                (s[i].0@, function_view(s[i].1))
            } else {
                arbitrary()
            },
    )
}

/// The values of a sequence of named signatures.
pub open spec fn func_tag_entries(s: Seq<(String, FuncTag)>) -> Seq<(Seq<char>, FuncTagView)>
    decreases s,
{
    Seq::new(
        s.len(),
        |i: int|
            if 0 <= i < s.len() {
                (s[i].0@, func_tag_view(s[i].1))
            } else {
                arbitrary()
            },
    )
}

/// The values of a sequence of named types.
pub open spec fn field_entries(s: Seq<(String, Type)>) -> Seq<(Seq<char>, TypeView)>
    decreases s,
{
    Seq::new(
        s.len(),
        |i: int|
            if 0 <= i < s.len() {
                (s[i].0@, type_view(s[i].1))
            } else {
                arbitrary()
            },
    )
}

/// The values of a sequence of named variants.
pub open spec fn varient_entries(
    s: Seq<(String, Fields)>,
) -> Seq<(Seq<char>, Seq<(Seq<char>, TypeView)>)>
    decreases s,
{
    Seq::new(
        s.len(),
        |i: int|
            if 0 <= i < s.len() {
                (s[i].0@, field_entries(s[i].1@))
            } else {
                arbitrary()
            },
    )
}

/// The values of a sequence of impls.
pub open spec fn impl_views(s: Seq<Impl>) -> Seq<ImplView>
    decreases s,
{
    Seq::new(
        s.len(),
        |i: int|
            if 0 <= i < s.len() {
                impl_view(s[i])
            } else {
                arbitrary()
            },
    )
}

/// The values of a sequence of generic parameters.
pub open spec fn generic_views(s: Seq<Generic>) -> Seq<GenericView>
    decreases s,
{
    Seq::new(
        s.len(),
        |i: int|
            if 0 <= i < s.len() {
                generic_view(s[i])
            } else {
                arbitrary()
            },
    )
}

/// The values of a sequence of types.
pub open spec fn type_views(s: Seq<Type>) -> Seq<TypeView>
    decreases s,
{
    Seq::new(
        s.len(),
        |i: int|
            if 0 <= i < s.len() {
                type_view(s[i])
            } else {
                arbitrary()
            },
    )
}

/// The values of a sequence of trait references.
pub open spec fn trait_type_views(s: Seq<TraitType>) -> Seq<TraitTypeView>
    decreases s,
{
    Seq::new(
        s.len(),
        |i: int|
            if 0 <= i < s.len() {
                trait_type_view(s[i])
            } else {
                arbitrary()
            },
    )
}

/// Why a program cannot be lowered, or is not valid.
#[derive(Debug, Clone)]
pub enum CompileError {
    GenericsCantHaveTypeParameters(ActualType),
    NumberOfGenericsAndTypesGivenDoNotMatchInItem(String, usize, usize),
    OnlyTraitsCanBeImplimentedOn(Type),
    NoTraitWithThatNameFound(String),
    NoTypeWithThatNameFound(Type),
    DuplicateStructs(Vec<String>),
    DuplicateEnums(Vec<String>),
    DuplicateTraits(Vec<String>),
    DuplicateFunctions(Vec<String>),
}

/// The mathematical value of a [`CompileError`].
pub ghost enum CompileErrorView {
    GenericsCantHaveTypeParameters(ActualTypeView),
    NumberOfGenericsAndTypesGivenDoNotMatchInItem(Seq<char>, nat, nat),
    OnlyTraitsCanBeImplimentedOn(TypeView),
    NoTraitWithThatNameFound(Seq<char>),
    NoTypeWithThatNameFound(TypeView),
    DuplicateStructs(Seq<Seq<char>>),
    DuplicateEnums(Seq<Seq<char>>),
    DuplicateTraits(Seq<Seq<char>>),
    DuplicateFunctions(Seq<Seq<char>>),
}

/// The values of a sequence of strings.
pub open spec fn string_views(s: Seq<String>) -> Seq<Seq<char>> {
    s.map_values(|x: String| x@)
}

impl View for CompileError {
    type V = CompileErrorView;

    open spec fn view(&self) -> CompileErrorView {
        match *self {
            CompileError::GenericsCantHaveTypeParameters(t) => {
                CompileErrorView::GenericsCantHaveTypeParameters(actual_type_view(t))
            },
            CompileError::NumberOfGenericsAndTypesGivenDoNotMatchInItem(name, wanted, given) => {
                CompileErrorView::NumberOfGenericsAndTypesGivenDoNotMatchInItem(
                    name@,
                    wanted as nat,
                    given as nat,
                )
            },
            CompileError::OnlyTraitsCanBeImplimentedOn(t) => {
                CompileErrorView::OnlyTraitsCanBeImplimentedOn(type_view(t))
            },
            CompileError::NoTraitWithThatNameFound(name) => {
                CompileErrorView::NoTraitWithThatNameFound(name@)
            },
            CompileError::NoTypeWithThatNameFound(t) => {
                CompileErrorView::NoTypeWithThatNameFound(type_view(t))
            },
            CompileError::DuplicateStructs(names) => {
                CompileErrorView::DuplicateStructs(string_views(names@))
            },
            CompileError::DuplicateEnums(names) => {
                CompileErrorView::DuplicateEnums(string_views(names@))
            },
            CompileError::DuplicateTraits(names) => {
                CompileErrorView::DuplicateTraits(string_views(names@))
            },
            CompileError::DuplicateFunctions(names) => {
                CompileErrorView::DuplicateFunctions(string_views(names@))
            },
        }
    }
}

// ---------------------------------------------------------------------------
// Names that occur more than once
// ---------------------------------------------------------------------------

/// How often `x` occurs among the first `n` items of `s`.
pub open spec fn occurrences<A>(s: Seq<A>, x: A, n: int) -> nat
    decreases n,
{
    if n <= 0 || n > s.len() {
        0
    } else {
        occurrences(s, x, n - 1) + if s[n - 1] == x {
            1nat
        } else {
            0nat
        }
    }
}

/// The items among the first `n` of `s` that occur there for the second
/// time, in the order of those second occurrences.
pub open spec fn second_occurrences<A>(s: Seq<A>, n: int) -> Seq<A>
    decreases n,
{
    if n <= 0 || n > s.len() {
        Seq::empty()
    } else if occurrences(s, s[n - 1], n - 1) == 1 {
        second_occurrences(s, n - 1).push(s[n - 1])
    } else {
        second_occurrences(s, n - 1)
    }
}

/// The items of `s` that occur more than once, each once, in the order in
/// which they occur for the second time.
pub open spec fn duplicates_of<A>(s: Seq<A>) -> Seq<A> {
    second_occurrences(s, s.len() as int)
}

/// Calls `Itertools::duplicates` on the names and collects what it yields
/// with `Itertools::collect_vec`. The adaptor yields an item when it sees it
/// for the second time and at no other time, so each name that occurs more
/// than once comes out once, in the order of the second occurrences.
#[verifier::external_body]
fn duplicate_names(names: Vec<String>) -> (dups: Vec<String>)
    ensures
        string_views(dups@) == duplicates_of(string_views(names@)),
{
    names.into_iter().duplicates().collect_vec()
}

/// What occurs among the first `n` items for the second time occurs there
/// at least twice, and the other way round.
pub proof fn lemma_second_occurrences<A>(s: Seq<A>, n: int, x: A)
    requires
        0 <= n <= s.len(),
    ensures
        second_occurrences(s, n).contains(x) <==> occurrences(s, x, n) >= 2,
        second_occurrences(s, n).no_duplicates(),
    decreases n,
{
    if n > 0 {
        lemma_second_occurrences(s, n - 1, x);
        let before = second_occurrences(s, n - 1);
        let last = s[n - 1];
        if occurrences(s, last, n - 1) == 1 {
            lemma_second_occurrences(s, n - 1, last);
            let now = before.push(last);
            assert(now[now.len() - 1] == last);
            if before.contains(x) {
                let i = choose|i: int| 0 <= i < before.len() && before[i] == x;
                assert(now[i] == x);
            }
            assert forall|i: int, j: int|
                0 <= i < now.len() && 0 <= j < now.len() && i != j implies now[i] != now[j] by {
                if i == now.len() - 1 {
                    assert(before[j] == now[j]);
                    assert(before.contains(now[j]));
                } else if j == now.len() - 1 {
                    assert(before[i] == now[i]);
                    assert(before.contains(now[i]));
                }
            }
        }
    }
}

/// Every item that occurs more than once in `s` is in `duplicates_of(s)`
/// exactly once, and nothing else is in it.
pub proof fn lemma_duplicates_once<A>(s: Seq<A>)
    ensures
        duplicates_of(s).no_duplicates(),
        forall|x: A| duplicates_of(s).contains(x) <==> occurrences(s, x, s.len() as int) >= 2,
{
    assert forall|x: A| duplicates_of(s).contains(x) <==> occurrences(s, x, s.len() as int)
        >= 2 by {
        lemma_second_occurrences(s, s.len() as int, x);
    }
    if s.len() > 0 {
        lemma_second_occurrences(s, s.len() as int, s[0]);
    }
}

// ---------------------------------------------------------------------------
// The model of lowering
// ---------------------------------------------------------------------------

/// The lowered form of a type.
pub open spec fn lower_type(t: ASTTypeView) -> TypeView
    decreases t,
{
    match t {
        ASTTypeView::ActualType(s) => TypeView::Actual(lower_actual(s)),
        ASTTypeView::Unit => TypeView::Unit,
        ASTTypeView::Array(s) => TypeView::Array(lower_actual(s)),
        ASTTypeView::FP(fp) => TypeView::FP(lower_fp(fp)),
        ASTTypeView::DynamicType(traits) => TypeView::DynType(lower_traits(traits)),
    }
}

/// The lowered form of a function pointer type.
pub open spec fn lower_fp(fp: FunctionPointerView) -> FPView
    decreases fp,
{
    FPView { arg: lower_types(fp.args), out: Box::new(lower_type(*fp.out)) }
}

/// The lowered form of a named type.
pub open spec fn lower_actual(s: SolidTypeView) -> ActualTypeView
    decreases s,
{
    ActualTypeView { name: s.name.lexeme, types_in_generics: lower_types(s.generics) }
}

/// A named type read as a reference to a trait.
pub open spec fn lower_trait(s: SolidTypeView) -> TraitTypeView
    decreases s,
{
    TraitTypeView { name: s.name.lexeme, types_in_generics: lower_types(s.generics) }
}

/// The lowered forms of a sequence of types.
pub open spec fn lower_types(s: Seq<ASTTypeView>) -> Seq<TypeView>
    decreases s,
{
    Seq::new(
        s.len(),
        |i: int|
            if 0 <= i < s.len() {
                lower_type(s[i])
            } else {
                arbitrary()
            },
    )
}

/// A sequence of named types read as references to traits.
pub open spec fn lower_traits(s: Seq<SolidTypeView>) -> Seq<TraitTypeView>
    decreases s,
{
    Seq::new(
        s.len(),
        |i: int|
            if 0 <= i < s.len() {
                lower_trait(s[i])
            } else {
                arbitrary()
            },
    )
}

/// The traits that one bound of a generic parameter names: a named type is
/// one trait, a set of trait bounds is its traits, and any other type names
/// none.
pub open spec fn constraint_traits(t: ASTTypeView) -> Seq<TraitTypeView> {
    match t {
        ASTTypeView::ActualType(s) => seq![lower_trait(s)],
        ASTTypeView::DynamicType(traits) => lower_traits(traits),
        _ => Seq::empty(),
    }
}

/// The traits that the first `n` bounds of a generic parameter name, in
/// order.
pub open spec fn lower_constraints(s: Seq<ASTTypeView>, n: int) -> Seq<TraitTypeView>
    decreases n,
{
    if n <= 0 || n > s.len() {
        Seq::empty()
    } else {
        lower_constraints(s, n - 1) + constraint_traits(s[n - 1])
    }
}

/// The name at the place `i` comes again at a later place.
pub open spec fn comes_again(names: Seq<Seq<char>>, i: int) -> bool {
    exists|j: int| i < j < names.len() && #[trigger] names[j] == names[i]
}

/// The places from `from` on whose name does not come again, in order: the
/// last place of every name.
pub open spec fn last_places(names: Seq<Seq<char>>, from: int) -> Seq<int>
    decreases names.len() - from,
{
    if from < 0 || from >= names.len() {
        Seq::empty()
    } else if comes_again(names, from) {
        last_places(names, from + 1)
    } else {
        seq![from] + last_places(names, from + 1)
    }
}

/// The entries without those whose name comes again: of the entries of one
/// name the last is kept, as a map from names keeps what was put in last.
pub open spec fn keep_last<V>(entries: Seq<(Seq<char>, V)>) -> Seq<(Seq<char>, V)> {
    let places = last_places(names_of(entries), 0);
    Seq::new(places.len(), |k: int| entries[places[k]])
}

/// The last places of the names are places of the sequence, in rising
/// order, and no two of them hold the same name; every place whose name
/// does not come again is among them.
pub proof fn lemma_last_places(names: Seq<Seq<char>>, from: int)
    requires
        0 <= from,
    ensures
        forall|k: int|
            0 <= k < last_places(names, from).len() ==> from <= (#[trigger] last_places(
                names,
                from,
            )[k]) < names.len() && !comes_again(names, last_places(names, from)[k]),
        forall|k: int, l: int|
            0 <= k < l < last_places(names, from).len() ==> (#[trigger] last_places(
                names,
                from,
            )[k]) < (#[trigger] last_places(names, from)[l]),
        forall|i: int|
            from <= i < names.len() && !comes_again(names, i) ==> last_places(
                names,
                from,
            ).contains(i),
    decreases names.len() - from,
{
    if from < names.len() {
        lemma_last_places(names, from + 1);
        let rest = last_places(names, from + 1);
        let all = last_places(names, from);
        if !comes_again(names, from) {
            assert(all =~= seq![from] + rest);
            assert forall|k: int| 0 <= k < all.len() implies from <= (#[trigger] all[k])
                < names.len() && !comes_again(names, all[k]) by {
                if k > 0 {
                    assert(all[k] == rest[k - 1]);
                }
            }
            assert forall|k: int, l: int| 0 <= k < l < all.len() implies (#[trigger] all[k]) < (
            #[trigger] all[l]) by {
                assert(all[l] == rest[l - 1]);
                if k > 0 {
                    assert(all[k] == rest[k - 1]);
                }
            }
            assert forall|i: int|
                from <= i < names.len() && !comes_again(names, i) implies all.contains(i) by {
                if i == from {
                    assert(all[0] == from);
                } else {
                    assert(rest.contains(i));
                    let k = choose|k: int| 0 <= k < rest.len() && rest[k] == i;
                    assert(all[k + 1] == i);
                }
            }
        }
    }
}

/// No name occurs twice among the entries that are kept.
pub proof fn lemma_keep_last_names_differ<V>(entries: Seq<(Seq<char>, V)>)
    ensures
        names_of(keep_last(entries)).no_duplicates(),
{
    let names = names_of(entries);
    let places = last_places(names, 0);
    let kept = names_of(keep_last(entries));
    lemma_last_places(names, 0);
    assert forall|k: int, l: int|
        0 <= k < kept.len() && 0 <= l < kept.len() && k != l implies kept[k]
        != kept[l] by {
        let (a, b) = if k < l {
            (k, l)
        } else {
            (l, k)
        };
        assert(places[a] < places[b]);
        assert(!comes_again(names, places[a]));
        assert(names[places[b]] == entries[places[b]].0);
        assert(names[places[a]] == entries[places[a]].0);
        if kept[k] == kept[l] {
            assert(names[places[b]] == names[places[a]]);
        }
    }
}

/// The lowered form of a generic parameter.
pub open spec fn lower_generic(g: GenericDeclView) -> GenericView {
    GenericView {
        name: g.name.lexeme,
        constraits: lower_constraints(g.constraints, g.constraints.len() as int),
    }
}

/// The lowered forms of a sequence of generic parameters.
pub open spec fn lower_generics(s: Seq<GenericDeclView>) -> Seq<GenericView> {
    s.map_values(|g: GenericDeclView| lower_generic(g))
}

/// The lowered form of a field: its name and its type.
pub open spec fn lower_field(f: FieldDeclView) -> (Seq<char>, TypeView) {
    (f.name.lexeme, lower_type(f.type_of))
}

/// The lowered forms of a sequence of fields; of the fields of one name the
/// last is kept.
pub open spec fn lower_fields(s: Seq<FieldDeclView>) -> Seq<(Seq<char>, TypeView)> {
    keep_last(s.map_values(|f: FieldDeclView| lower_field(f)))
}

/// The lowered form of a parameter: its name and its type.
pub open spec fn lower_parameter(p: (TokenView, ASTTypeView)) -> (Seq<char>, TypeView) {
    (p.0.lexeme, lower_type(p.1))
}

/// The lowered forms of a sequence of parameters.
pub open spec fn lower_parameters(s: Seq<(TokenView, ASTTypeView)>) -> Seq<(Seq<char>, TypeView)> {
    s.map_values(|p: (TokenView, ASTTypeView)| lower_parameter(p))
}

/// The lowered form of a signature, with its name.
pub open spec fn lower_func_sig(sig: FuncSigView) -> (Seq<char>, FuncTagView) {
    (
        sig.name.lexeme,
        FuncTagView {
            generics: lower_generics(sig.generics),
            inputs: lower_parameters(sig.parameters),
            output: lower_type(sig.out),
        },
    )
}

/// The lowered forms of the signatures of a trait, with their names; of the
/// signatures of one name the last is kept.
pub open spec fn lower_func_sigs(s: Seq<FuncSigView>) -> Seq<(Seq<char>, FuncTagView)> {
    keep_last(s.map_values(|f: FuncSigView| lower_func_sig(f)))
}

/// The code of a function that has not been compiled: nothing.
pub open spec fn empty_chunk() -> IRChunkView {
    IRChunkView { functions: Seq::empty(), code: Seq::empty() }
}

/// The lowered form of a function, with its name: its signature, and no
/// code.
pub open spec fn lower_function(f: FunctionDeclView) -> (Seq<char>, FunctionView) {
    (f.sig.name.lexeme, FunctionView { tag: lower_func_sig(f.sig).1, body: empty_chunk() })
}

/// The lowered forms of a sequence of functions, with their names.
pub open spec fn lower_functions(s: Seq<FunctionDeclView>) -> Seq<(Seq<char>, FunctionView)> {
    s.map_values(|f: FunctionDeclView| lower_function(f))
}

/// The lowered form of a struct, with its name.
pub open spec fn lower_struct(d: StructDeclView) -> (Seq<char>, StructView) {
    (
        d.name.lexeme,
        StructView { generics: lower_generics(d.generics), fields: lower_fields(d.fields) },
    )
}

/// The lowered form of a variant, with its name.
pub open spec fn lower_varient(v: VarientDeclView) -> (Seq<char>, Seq<(Seq<char>, TypeView)>) {
    (v.name.lexeme, lower_fields(v.fields))
}

/// The lowered forms of a sequence of variants, with their names; of the
/// variants of one name the last is kept.
pub open spec fn lower_varients(s: Seq<VarientDeclView>) -> Seq<
    (Seq<char>, Seq<(Seq<char>, TypeView)>),
> {
    keep_last(s.map_values(|v: VarientDeclView| lower_varient(v)))
}

/// The lowered form of an enum, with its name.
pub open spec fn lower_enum(d: EnumDeclView) -> (Seq<char>, EnumView) {
    (
        d.name.lexeme,
        EnumView { generics: lower_generics(d.generics), varients: lower_varients(d.varients) },
    )
}

/// The lowered form of a trait, with its name.
pub open spec fn lower_trait_decl(d: TraitDeclView) -> (Seq<char>, TraitView) {
    (
        d.name.lexeme,
        TraitView { generics: lower_generics(d.generics), func_tag: lower_func_sigs(d.funcs) },
    )
}

/// Whether an entry of `entries` has the name `name`.
pub open spec fn has_name<V>(entries: Seq<(Seq<char>, V)>, name: Seq<char>) -> bool {
    exists|i: int| 0 <= i < entries.len() && (#[trigger] entries[i]).0 == name
}

/// The names of `entries`, in order.
pub open spec fn names_of<V>(entries: Seq<(Seq<char>, V)>) -> Seq<Seq<char>> {
    entries.map_values(|e: (Seq<char>, V)| e.0)
}

/// What a lowered program declares by name, as far as an impl needs it.
pub ghost struct Declared {
    pub structs: Seq<(Seq<char>, StructView)>,
    pub enums: Seq<(Seq<char>, EnumView)>,
    pub traits: Seq<(Seq<char>, TraitView)>,
}

/// `name` is declared as a struct or as an enum, and not as a trait.
pub open spec fn names_no_trait(declared: Declared, name: Seq<char>) -> bool {
    (has_name(declared.structs, name) || has_name(declared.enums, name)) && !has_name(
        declared.traits,
        name,
    )
}

/// The trait that an impl implements, from what stands before its `for`:
/// none where nothing stands there; an error where what stands there is no
/// named type, or is the name of a struct or an enum that is no trait.
pub open spec fn lower_impl_trait(declared: Declared, t: Option<ASTTypeView>) -> Result<
    Option<ActualTypeView>,
    CompileErrorView,
> {
    match t {
        None => Ok(None),
        Some(t) => match lower_type(t) {
            TypeView::Actual(a) => if names_no_trait(declared, a.name) {
                Err(CompileErrorView::OnlyTraitsCanBeImplimentedOn(TypeView::Actual(a)))
            } else {
                Ok(Some(a))
            },
            other => Err(CompileErrorView::OnlyTraitsCanBeImplimentedOn(other)),
        },
    }
}

/// The lowered form of an impl.
pub open spec fn lower_impl(declared: Declared, d: ImplDeclView) -> Result<
    ImplView,
    CompileErrorView,
> {
    match lower_impl_trait(declared, d.trait_to_impl) {
        Err(e) => Err(e),
        Ok(t) => Ok(
            ImplView {
                generics: lower_generics(d.generics),
                trait_to_impl: t,
                type_to_impl_on: lower_type(d.type_to_impl_on),
                funcs: lower_functions(d.funcs),
            },
        ),
    }
}

/// The structs among the first `n` declarations, lowered, in order.
pub open spec fn structs_of(code: Seq<DeclarationView>, n: int) -> Seq<(Seq<char>, StructView)>
    decreases n,
{
    if n <= 0 || n > code.len() {
        Seq::empty()
    } else {
        match code[n - 1] {
            DeclarationView::StructDecl(d) => structs_of(code, n - 1).push(lower_struct(d)),
            _ => structs_of(code, n - 1),
        }
    }
}

/// The enums among the first `n` declarations, lowered, in order.
pub open spec fn enums_of(code: Seq<DeclarationView>, n: int) -> Seq<(Seq<char>, EnumView)>
    decreases n,
{
    if n <= 0 || n > code.len() {
        Seq::empty()
    } else {
        match code[n - 1] {
            DeclarationView::EnumDecl(d) => enums_of(code, n - 1).push(lower_enum(d)),
            _ => enums_of(code, n - 1),
        }
    }
}

/// The traits among the first `n` declarations, lowered, in order.
pub open spec fn traits_of(code: Seq<DeclarationView>, n: int) -> Seq<(Seq<char>, TraitView)>
    decreases n,
{
    if n <= 0 || n > code.len() {
        Seq::empty()
    } else {
        match code[n - 1] {
            DeclarationView::TraitDecl(d) => traits_of(code, n - 1).push(lower_trait_decl(d)),
            _ => traits_of(code, n - 1),
        }
    }
}

/// The functions among the first `n` declarations, lowered, in order.
pub open spec fn functions_of(code: Seq<DeclarationView>, n: int) -> Seq<(Seq<char>, FunctionView)>
    decreases n,
{
    if n <= 0 || n > code.len() {
        Seq::empty()
    } else {
        match code[n - 1] {
            DeclarationView::FunctionDecl(d) => functions_of(code, n - 1).push(lower_function(d)),
            _ => functions_of(code, n - 1),
        }
    }
}

/// The impls among the first `n` declarations, lowered, in order; the
/// error of the first that cannot be lowered.
pub open spec fn impls_of(declared: Declared, code: Seq<DeclarationView>, n: int) -> Result<
    Seq<ImplView>,
    CompileErrorView,
>
    decreases n,
{
    if n <= 0 || n > code.len() {
        Ok(Seq::empty())
    } else {
        match impls_of(declared, code, n - 1) {
            Err(e) => Err(e),
            Ok(before) => match code[n - 1] {
                DeclarationView::ImplDecl(d) => match lower_impl(declared, d) {
                    Err(e) => Err(e),
                    Ok(i) => Ok(before.push(i)),
                },
                _ => Ok(before),
            },
        }
    }
}

/// The lowered form of a program. The names of the structs must differ,
/// then those of the enums, of the traits and of the functions: the first
/// of these four kinds in which a name occurs twice gives the error, which
/// holds every such name of that kind once. Then each impl is lowered.
pub open spec fn lower_program(p: ProgramView) -> Result<IRView, CompileErrorView> {
    let n = p.code.len() as int;
    let structs = structs_of(p.code, n);
    let enums = enums_of(p.code, n);
    let traits = traits_of(p.code, n);
    let functions = functions_of(p.code, n);
    let declared = Declared { structs, enums, traits };
    if duplicates_of(names_of(structs)).len() > 0 {
        Err(CompileErrorView::DuplicateStructs(duplicates_of(names_of(structs))))
    } else if duplicates_of(names_of(enums)).len() > 0 {
        Err(CompileErrorView::DuplicateEnums(duplicates_of(names_of(enums))))
    } else if duplicates_of(names_of(traits)).len() > 0 {
        Err(CompileErrorView::DuplicateTraits(duplicates_of(names_of(traits))))
    } else if duplicates_of(names_of(functions)).len() > 0 {
        Err(CompileErrorView::DuplicateFunctions(duplicates_of(names_of(functions))))
    } else {
        match impls_of(declared, p.code, n) {
            Err(e) => Err(e),
            Ok(impls) => Ok(IRView { structs, enums, traits, impls, function: functions }),
        }
    }
}

/// The error of a name that occurs twice holds each such name of its kind
/// once, and no other name.
pub proof fn lemma_duplicate_error(p: ProgramView)
    ensures
        ({
            let n = p.code.len() as int;
            match lower_program(p) {
                Err(CompileErrorView::DuplicateStructs(names)) => names.len() > 0
                    && names.no_duplicates() && forall|x: Seq<char>|
                    names.contains(x) <==> occurrences(
                        names_of(structs_of(p.code, n)),
                        x,
                        structs_of(p.code, n).len() as int,
                    ) >= 2,
                Err(CompileErrorView::DuplicateEnums(names)) => names.len() > 0
                    && names.no_duplicates() && forall|x: Seq<char>|
                    names.contains(x) <==> occurrences(
                        names_of(enums_of(p.code, n)),
                        x,
                        enums_of(p.code, n).len() as int,
                    ) >= 2,
                Err(CompileErrorView::DuplicateTraits(names)) => names.len() > 0
                    && names.no_duplicates() && forall|x: Seq<char>|
                    names.contains(x) <==> occurrences(
                        names_of(traits_of(p.code, n)),
                        x,
                        traits_of(p.code, n).len() as int,
                    ) >= 2,
                Err(CompileErrorView::DuplicateFunctions(names)) => names.len() > 0
                    && names.no_duplicates() && forall|x: Seq<char>|
                    names.contains(x) <==> occurrences(
                        names_of(functions_of(p.code, n)),
                        x,
                        functions_of(p.code, n).len() as int,
                    ) >= 2,
                _ => true,
            }
        }),
{
    let n = p.code.len() as int;
    lemma_duplicates_once(names_of(structs_of(p.code, n)));
    lemma_duplicates_once(names_of(enums_of(p.code, n)));
    lemma_duplicates_once(names_of(traits_of(p.code, n)));
    lemma_duplicates_once(names_of(functions_of(p.code, n)));
    lemma_impls_errors(
        Declared {
            structs: structs_of(p.code, n),
            enums: enums_of(p.code, n),
            traits: traits_of(p.code, n),
        },
        p.code,
        n,
    );
}

/// The only error of lowering impls is that of what stands before `for`.
pub proof fn lemma_impls_errors(declared: Declared, code: Seq<DeclarationView>, n: int)
    ensures
        impls_of(declared, code, n) is Err ==> impls_of(
            declared,
            code,
            n,
        )->Err_0 is OnlyTraitsCanBeImplimentedOn,
    decreases n,
{
    if 0 < n <= code.len() {
        lemma_impls_errors(declared, code, n - 1);
    }
}

/// The invariant of a lowered program: no name occurs twice among the
/// structs, nor among the enums, the traits or the functions; nor among the
/// fields of a struct, the variants of an enum, the fields of a variant or
/// the signatures of a trait.
pub open spec fn ir_wf(ir: IRView) -> bool {
    &&& names_of(ir.structs).no_duplicates()
    &&& names_of(ir.enums).no_duplicates()
    &&& names_of(ir.traits).no_duplicates()
    &&& names_of(ir.function).no_duplicates()
    &&& forall|k: int| 0 <= k < ir.structs.len() ==> struct_wf((#[trigger] ir.structs[k]).1)
    &&& forall|k: int| 0 <= k < ir.enums.len() ==> enum_wf((#[trigger] ir.enums[k]).1)
    &&& forall|k: int| 0 <= k < ir.traits.len() ==> trait_wf((#[trigger] ir.traits[k]).1)
}

/// No name occurs twice among the fields of the struct.
pub open spec fn struct_wf(s: StructView) -> bool {
    names_of(s.fields).no_duplicates()
}

/// No name occurs twice among the variants of the enum, nor among the
/// fields of one of them.
pub open spec fn enum_wf(e: EnumView) -> bool {
    &&& names_of(e.varients).no_duplicates()
    &&& forall|k: int|
        0 <= k < e.varients.len() ==> names_of((#[trigger] e.varients[k]).1).no_duplicates()
}

/// No name occurs twice among the signatures of the trait.
pub open spec fn trait_wf(t: TraitView) -> bool {
    names_of(t.func_tag).no_duplicates()
}

/// A lowered struct, enum or trait holds no name twice.
pub proof fn lemma_lowered_members_differ(s: StructDeclView, e: EnumDeclView, t: TraitDeclView)
    ensures
        struct_wf(lower_struct(s).1),
        enum_wf(lower_enum(e).1),
        trait_wf(lower_trait_decl(t).1),
{
    lemma_keep_last_names_differ(s.fields.map_values(|f: FieldDeclView| lower_field(f)));
    lemma_keep_last_names_differ(t.funcs.map_values(|f: FuncSigView| lower_func_sig(f)));
    let all = e.varients.map_values(|v: VarientDeclView| lower_varient(v));
    lemma_keep_last_names_differ(all);
    lemma_last_places(names_of(all), 0);
    let kept = lower_enum(e).1.varients;
    assert forall|k: int| 0 <= k < kept.len() implies names_of(
        (#[trigger] kept[k]).1,
    ).no_duplicates() by {
        let i = last_places(names_of(all), 0)[k];
        assert(kept[k] == all[i]);
        lemma_keep_last_names_differ(
            e.varients[i].fields.map_values(|f: FieldDeclView| lower_field(f)),
        );
    }
}

/// The structs, enums and traits among the first `n` declarations hold no
/// name twice.
pub proof fn lemma_members_differ(code: Seq<DeclarationView>, n: int)
    ensures
        forall|k: int|
            0 <= k < structs_of(code, n).len() ==> struct_wf((#[trigger] structs_of(code, n)[k]).1),
        forall|k: int|
            0 <= k < enums_of(code, n).len() ==> enum_wf((#[trigger] enums_of(code, n)[k]).1),
        forall|k: int|
            0 <= k < traits_of(code, n).len() ==> trait_wf((#[trigger] traits_of(code, n)[k]).1),
    decreases n,
{
    if 0 < n <= code.len() {
        lemma_members_differ(code, n - 1);
        let structs = structs_of(code, n);
        let enums = enums_of(code, n);
        let traits = traits_of(code, n);
        match code[n - 1] {
            DeclarationView::StructDecl(d) => {
                lemma_lowered_members_differ(
                    d,
                    EnumDeclView { name: d.name, generics: Seq::empty(), varients: Seq::empty() },
                    TraitDeclView { name: d.name, generics: Seq::empty(), funcs: Seq::empty() },
                );
            },
            DeclarationView::EnumDecl(d) => {
                lemma_lowered_members_differ(
                    StructDeclView { name: d.name, generics: Seq::empty(), fields: Seq::empty() },
                    d,
                    TraitDeclView { name: d.name, generics: Seq::empty(), funcs: Seq::empty() },
                );
            },
            DeclarationView::TraitDecl(d) => {
                lemma_lowered_members_differ(
                    StructDeclView { name: d.name, generics: Seq::empty(), fields: Seq::empty() },
                    EnumDeclView { name: d.name, generics: Seq::empty(), varients: Seq::empty() },
                    d,
                );
            },
            _ => {},
        }
        assert forall|k: int|
            0 <= k < structs.len() implies
            struct_wf((#[trigger] structs[k]).1)
        by {
            let before = structs_of(code, n - 1);
            if k < before.len() {
                assert(structs[k] == before[k]);
            }
        }
        assert forall|k: int| 0 <= k < enums.len() implies enum_wf((#[trigger] enums[k]).1) by {
            let before = enums_of(code, n - 1);
            if k < before.len() {
                assert(enums[k] == before[k]);
            }
        }
        assert forall|k: int| 0 <= k < traits.len() implies trait_wf((#[trigger] traits[k]).1) by {
            let before = traits_of(code, n - 1);
            if k < before.len() {
                assert(traits[k] == before[k]);
            }
        }
    }
}

/// A lowered program meets the invariant: it holds no name twice where a
/// map from names would hold it once.
pub proof fn lemma_lowered_names_differ(p: ProgramView)
    ensures
        lower_program(p) matches Ok(ir) ==> ir_wf(ir),
{
    if let Ok(ir) = lower_program(p) {
        lemma_no_duplicates(names_of(ir.structs));
        lemma_no_duplicates(names_of(ir.enums));
        lemma_no_duplicates(names_of(ir.traits));
        lemma_no_duplicates(names_of(ir.function));
        lemma_members_differ(p.code, p.code.len() as int);
    }
}

/// Among the first `n` items, an item occurs as often as it has places.
pub proof fn lemma_occurrences_two<A>(s: Seq<A>, i: int, j: int, n: int)
    requires
        0 <= i < j < n <= s.len(),
        s[i] == s[j],
    ensures
        occurrences(s, s[i], n) >= 2,
    decreases n,
{
    if j < n - 1 {
        lemma_occurrences_two(s, i, j, n - 1);
    } else {
        lemma_occurrences_one(s, i, n - 1);
    }
}

/// An item among the first `n` occurs there at least once.
pub proof fn lemma_occurrences_one<A>(s: Seq<A>, i: int, n: int)
    requires
        0 <= i < n <= s.len(),
    ensures
        occurrences(s, s[i], n) >= 1,
    decreases n,
{
    if i < n - 1 {
        lemma_occurrences_one(s, i, n - 1);
    }
}

/// Where nothing occurs more than once, no two items are the same.
pub proof fn lemma_no_duplicates<A>(s: Seq<A>)
    requires
        duplicates_of(s).len() == 0,
    ensures
        s.no_duplicates(),
{
    assert forall|i: int, j: int| 0 <= i < s.len() && 0 <= j < s.len() && i != j implies s[i]
        != s[j] by {
        if s[i] == s[j] {
            if i < j {
                lemma_occurrences_two(s, i, j, s.len() as int);
            } else {
                lemma_occurrences_two(s, j, i, s.len() as int);
            }
            lemma_duplicates_once(s);
            assert(duplicates_of(s).contains(s[i]));
        }
    }
}

/// The value of a lowering result.
pub open spec fn lowered_view<T: View>(
    r: Result<T, CompileError>,
) -> Result<T::V, CompileErrorView> {
    match r {
        Ok(v) => Ok(v@),
        Err(e) => Err(e@),
    }
}

// ---------------------------------------------------------------------------
// Lowering
// ---------------------------------------------------------------------------

/// The names of the entries, in order.
pub open spec fn entry_names<T>(entries: Seq<(String, T)>) -> Seq<Seq<char>> {
    entries.map_values(|e: (String, T)| e.0@)
}

/// Whether the name of the entry at `i` comes again in a later entry.
fn name_comes_again<T>(entries: &Vec<(String, T)>, i: usize) -> (r: bool)
    requires
        i < entries.len(),
    ensures
        r == comes_again(entry_names(entries@), i as int),
{
    let ghost names = entry_names(entries@);
    let mut j: usize = i + 1;
    while j < entries.len()
        invariant
            i < j <= entries.len(),
            names == entry_names(entries@),
            forall|k: int| i < k < j ==> #[trigger] names[k] != names[i as int],
        decreases entries.len() - j,
    {
        if entries[j].0 == entries[i].0 {
            assert(names[j as int] == names[i as int]);
            return true;
        }
        j = j + 1;
    }
    false
}

/// The entries without those whose name comes again in a later entry, in
/// order.
fn keep_last_named<T>(entries: Vec<(String, T)>) -> (r: Vec<(String, T)>)
    ensures
        r.len() == last_places(entry_names(entries@), 0).len(),
        forall|k: int|
            0 <= k < r.len() ==> #[trigger] r[k] == entries[last_places(
                entry_names(entries@),
                0,
            )[k]],
{
    let ghost all = entries@;
    let ghost names = entry_names(all);
    let mut keep: Vec<bool> = Vec::new();
    let mut i: usize = 0;
    while i < entries.len()
        invariant
            i <= entries.len(),
            entries@ == all,
            names == entry_names(all),
            keep.len() == i,
            forall|k: int| 0 <= k < i ==> #[trigger] keep[k] == !comes_again(names, k),
        decreases entries.len() - i,
    {
        let again = name_comes_again(&entries, i);
        keep.push(!again);
        i = i + 1;
    }
    let mut entries = entries;
    let mut backwards: Vec<(String, T)> = Vec::new();
    proof {
        lemma_last_places(names, 0);
    }
    while entries.len() > 0
        invariant
            entries.len() <= all.len(),
            entries@ == all.subrange(0, entries.len() as int),
            names == entry_names(all),
            keep.len() == all.len(),
            forall|k: int| 0 <= k < all.len() ==> #[trigger] keep[k] == !comes_again(names, k),
            backwards.len() == last_places(names, entries.len() as int).len(),
            forall|k: int|
                0 <= k < backwards.len() ==> #[trigger] backwards[k] == all[last_places(
                    names,
                    entries.len() as int,
                )[backwards.len() - 1 - k]],
        decreases entries.len(),
    {
        let ghost before = backwards@;
        let ghost here = entries.len() - 1;
        let ghost later = last_places(names, here + 1);
        let ghost now = last_places(names, here);
        let item = entries.pop().unwrap();
        assert(entries@ =~= all.subrange(0, here));
        if keep[entries.len()] {
            backwards.push(item);
            proof {
                assert(now =~= seq![here] + later);
                assert forall|k: int| 0 <= k < backwards.len() implies #[trigger] backwards[k]
                    == all[now[backwards.len() - 1 - k]] by {
                    if k < before.len() {
                        assert(backwards[k] == before[k]);
                        assert(now[backwards.len() - 1 - k] == later[before.len() - 1 - k]);
                    }
                }
            }
        } else {
            assert(now == later);
        }
    }
    let ghost places = last_places(names, 0);
    let ghost turned = backwards@;
    let mut out: Vec<(String, T)> = Vec::new();
    while backwards.len() > 0
        invariant
            turned.len() == places.len(),
            backwards.len() + out.len() == turned.len(),
            backwards@ == turned.subrange(0, backwards.len() as int),
            forall|k: int| 0 <= k < turned.len() ==> #[trigger] turned[k] == all[places[
                turned.len() - 1 - k]],
            forall|k: int| 0 <= k < out.len() ==> #[trigger] out[k] == all[places[k]],
        decreases backwards.len(),
    {
        let ghost done = out@;
        let ghost at = backwards.len() - 1;
        let item = backwards.pop().unwrap();
        assert(backwards@ =~= turned.subrange(0, at));
        assert(item == turned[at]);
        out.push(item);
        assert forall|k: int| 0 <= k < out.len() implies #[trigger] out[k] == all[places[k]] by {
            if k < done.len() {
                assert(out[k] == done[k]);
            }
        }
    }
    out
}

/// A copy of the text of a token.
fn name_of(t: &Token) -> (r: String)
    ensures
        r@ == t@.lexeme,
{
    t.lexeme.clone()
}

impl Type {
    /// The lowered form of a type.
    pub fn from(value: &ASTType) -> (r: Type)
        ensures
            r@ == lower_type(value@),
        decreases value,
    {
        match value {
            ASTType::ActualType(s) => Type::Actual(ActualType::from(s)),
            ASTType::Unit => Type::Unit,
            ASTType::Array(s) => Type::Array(ActualType::from(s)),
            ASTType::FP(fp) => Type::FP(FP::from(fp)),
            ASTType::DynamicType(traits) => Type::DynType(lower_trait_list(traits)),
        }
    }
}

impl FP {
    /// The lowered form of a function pointer type.
    pub fn from(value: &FunctionPointer) -> (r: FP)
        ensures
            r@ == lower_fp(value@),
        decreases value,
    {
        FP { arg: lower_type_list(&value.args), out: Box::new(Type::from(&*value.out)) }
    }
}

impl ActualType {
    /// The lowered form of a named type.
    pub fn from(value: &SolidType) -> (r: ActualType)
        ensures
            r@ == lower_actual(value@),
        decreases value,
    {
        ActualType {
            name: name_of(&value.name),
            types_in_generics: lower_type_list(&value.generics),
        }
    }
}

impl TraitType {
    /// A named type read as a reference to a trait.
    pub fn from(value: &SolidType) -> (r: TraitType)
        ensures
            r@ == lower_trait(value@),
        decreases value,
    {
        TraitType {
            name: name_of(&value.name),
            types_in_generics: lower_type_list(&value.generics),
        }
    }
}

/// Lowers types, one by one.
fn lower_type_list(v: &Vec<ASTType>) -> (r: Vec<Type>)
    ensures
        type_views(r@) == lower_types(ast_type_views(v@)),
    decreases v,
{
    let mut out: Vec<Type> = Vec::new();
    let mut i: usize = 0;
    while i < v.len()
        invariant
            i <= v.len(),
            out.len() == i,
            forall|j: int| 0 <= j < i ==> (#[trigger] out[j])@ == lower_type(v[j]@),
        decreases v.len() - i,
    {
        let item = Type::from(&v[i]);
        out.push(item);
        i = i + 1;
    }
    assert(type_views(out@) =~= lower_types(ast_type_views(v@)));
    out
}

/// Lowers references to traits, one by one.
fn lower_trait_list(v: &Vec<SolidType>) -> (r: Vec<TraitType>)
    ensures
        trait_type_views(r@) == lower_traits(solid_type_views(v@)),
    decreases v,
{
    let mut out: Vec<TraitType> = Vec::new();
    let mut i: usize = 0;
    while i < v.len()
        invariant
            i <= v.len(),
            out.len() == i,
            forall|j: int| 0 <= j < i ==> (#[trigger] out[j])@ == lower_trait(v[j]@),
        decreases v.len() - i,
    {
        let item = TraitType::from(&v[i]);
        out.push(item);
        i = i + 1;
    }
    assert(trait_type_views(out@) =~= lower_traits(solid_type_views(v@)));
    out
}

impl Generic {
    /// The lowered form of a generic parameter: its name, and the traits
    /// that its bounds name.
    pub fn from(value: &GenericDecl) -> (r: Generic)
        ensures
            r@ == lower_generic(value@),
    {
        let ghost bounds = ast_type_views(value.constraints@);
        let mut constraits: Vec<TraitType> = Vec::new();
        let mut i: usize = 0;
        assert(trait_type_views(constraits@) =~= lower_constraints(bounds, 0));
        while i < value.constraints.len()
            invariant
                i <= value.constraints.len(),
                bounds == ast_type_views(value.constraints@),
                trait_type_views(constraits@) == lower_constraints(bounds, i as int),
            decreases value.constraints.len() - i,
        {
            let ghost before = trait_type_views(constraits@);
            match &value.constraints[i] {
                ASTType::ActualType(s) => {
                    constraits.push(TraitType::from(s));
                    assert(trait_type_views(constraits@) =~= before + constraint_traits(
                        bounds[i as int],
                    ));
                },
                ASTType::DynamicType(traits) => {
                    let mut more = lower_trait_list(traits);
                    let ghost added = trait_type_views(more@);
                    constraits.append(&mut more);
                    assert(trait_type_views(constraits@) =~= before + added);
                },
                _ => {
                    assert(before + constraint_traits(bounds[i as int]) =~= before);
                },
            }
            i = i + 1;
        }
        Generic { name: name_of(&value.name), constraits }
    }
}

/// Lowers generic parameters, one by one.
fn lower_generic_list(v: &Vec<GenericDecl>) -> (r: Vec<Generic>)
    ensures
        generic_views(r@) == lower_generics(generic_decl_views(v@)),
{
    let mut out: Vec<Generic> = Vec::new();
    let mut i: usize = 0;
    while i < v.len()
        invariant
            i <= v.len(),
            out.len() == i,
            forall|j: int| 0 <= j < i ==> (#[trigger] out[j])@ == lower_generic(v[j]@),
        decreases v.len() - i,
    {
        let item = Generic::from(&v[i]);
        out.push(item);
        i = i + 1;
    }
    assert(generic_views(out@) =~= lower_generics(generic_decl_views(v@)));
    out
}

/// The lowered form of a field: its name and its type.
fn lower_field_decl(value: &FieldDecl) -> (r: (String, Type))
    ensures
        (r.0@, r.1@) == lower_field(value@),
{
    (name_of(&value.name), Type::from(&value.type_of))
}

/// Lowers fields, one by one.
fn lower_field_list(v: &Vec<FieldDecl>) -> (r: Vec<(String, Type)>)
    ensures
        field_entries(r@) == lower_fields(field_decl_views(v@)),
{
    let mut out: Vec<(String, Type)> = Vec::new();
    let mut i: usize = 0;
    while i < v.len()
        invariant
            i <= v.len(),
            out.len() == i,
            forall|j: int| 0 <= j < i ==> ((#[trigger] out[j]).0@, out[j].1@) == lower_field(v[j]@),
        decreases v.len() - i,
    {
        let item = lower_field_decl(&v[i]);
        out.push(item);
        i = i + 1;
    }
    let ghost whole = field_entries(out@);
    assert(whole =~= field_decl_views(v@).map_values(|f: FieldDeclView| lower_field(f)));
    assert(entry_names(out@) =~= names_of(whole));
    let ghost full = out@;
    let kept = keep_last_named(out);
    proof {
        let places = last_places(names_of(whole), 0);
        lemma_last_places(names_of(whole), 0);
        assert forall|k: int| 0 <= k < kept.len() implies field_entries(kept@)[k] == keep_last(
            whole,
        )[k] by {
            assert(kept[k] == full[places[k]]);
            assert(0 <= places[k] < full.len());
        }
        assert(field_entries(kept@) =~= keep_last(whole));
    }
    kept
}

/// The lowered form of a parameter: its name and its type.
fn lower_parameter_decl(value: &(Token, ASTType)) -> (r: (String, Type))
    ensures
        (r.0@, r.1@) == lower_parameter((value.0@, value.1@)),
{
    (name_of(&value.0), Type::from(&value.1))
}

/// Lowers parameters, one by one.
fn lower_parameter_list(v: &Vec<(Token, ASTType)>) -> (r: Vec<(String, Type)>)
    ensures
        field_entries(r@) == lower_parameters(parameter_views(v@)),
{
    let mut out: Vec<(String, Type)> = Vec::new();
    let mut i: usize = 0;
    while i < v.len()
        invariant
            i <= v.len(),
            out.len() == i,
            forall|j: int| 0 <= j < i
                ==> ((#[trigger] out[j]).0@, out[j].1@) == lower_parameter((v[j].0@, v[j].1@)),
        decreases v.len() - i,
    {
        let item = lower_parameter_decl(&v[i]);
        out.push(item);
        i = i + 1;
    }
    assert(field_entries(out@) =~= lower_parameters(parameter_views(v@)));
    out
}

/// The lowered form of a variant: its name and its fields.
fn lower_varient_decl(value: &VarientDecl) -> (r: (String, Fields))
    ensures
        (r.0@, field_entries(r.1@)) == lower_varient(value@),
{
    (name_of(&value.name), lower_field_list(&value.fields))
}

/// Lowers variants, one by one.
fn lower_varient_list(v: &Vec<VarientDecl>) -> (r: Vec<(String, Fields)>)
    ensures
        varient_entries(r@) == lower_varients(varient_decl_views(v@)),
{
    let mut out: Vec<(String, Fields)> = Vec::new();
    let mut i: usize = 0;
    while i < v.len()
        invariant
            i <= v.len(),
            out.len() == i,
            forall|j: int| 0 <= j < i
                ==> ((#[trigger] out[j]).0@, field_entries(out[j].1@)) == lower_varient(v[j]@),
        decreases v.len() - i,
    {
        let item = lower_varient_decl(&v[i]);
        out.push(item);
        i = i + 1;
    }
    let ghost whole = varient_entries(out@);
    assert(whole =~= varient_decl_views(v@).map_values(|v: VarientDeclView| lower_varient(v)));
    assert(entry_names(out@) =~= names_of(whole));
    let ghost full = out@;
    let kept = keep_last_named(out);
    proof {
        let places = last_places(names_of(whole), 0);
        lemma_last_places(names_of(whole), 0);
        assert forall|k: int| 0 <= k < kept.len() implies varient_entries(kept@)[k] == keep_last(
            whole,
        )[k] by {
            assert(kept[k] == full[places[k]]);
            assert(0 <= places[k] < full.len());
        }
        assert(varient_entries(kept@) =~= keep_last(whole));
    }
    kept
}

impl FuncTag {
    /// The lowered form of a signature, with its name.
    pub fn from(value: &FuncSig) -> (r: (String, FuncTag))
        ensures
            (r.0@, r.1@) == lower_func_sig(value@),
    {
        (
            name_of(&value.name),
            FuncTag {
                generics: lower_generic_list(&value.generics),
                inputs: lower_parameter_list(&value.parameters),
                output: Type::from(&value.out),
            },
        )
    }
}

/// Lowers signatures, one by one.
fn lower_func_sig_list(v: &Vec<FuncSig>) -> (r: Vec<(String, FuncTag)>)
    ensures
        func_tag_entries(r@) == lower_func_sigs(func_sig_views(v@)),
{
    let mut out: Vec<(String, FuncTag)> = Vec::new();
    let mut i: usize = 0;
    while i < v.len()
        invariant
            i <= v.len(),
            out.len() == i,
            forall|j: int| 0 <= j < i
                ==> ((#[trigger] out[j]).0@, out[j].1@) == lower_func_sig(v[j]@),
        decreases v.len() - i,
    {
        let item = FuncTag::from(&v[i]);
        out.push(item);
        i = i + 1;
    }
    let ghost whole = func_tag_entries(out@);
    assert(whole =~= func_sig_views(v@).map_values(|f: FuncSigView| lower_func_sig(f)));
    assert(entry_names(out@) =~= names_of(whole));
    let ghost full = out@;
    let kept = keep_last_named(out);
    proof {
        let places = last_places(names_of(whole), 0);
        lemma_last_places(names_of(whole), 0);
        assert forall|k: int| 0 <= k < kept.len() implies func_tag_entries(kept@)[k] == keep_last(
            whole,
        )[k] by {
            assert(kept[k] == full[places[k]]);
            assert(0 <= places[k] < full.len());
        }
        assert(func_tag_entries(kept@) =~= keep_last(whole));
    }
    kept
}

impl Function {
    /// The lowered form of a function, with its name: its signature, and
    /// no code.
    pub fn from(value: &FunctionDecl) -> (r: (String, Function))
        ensures
            (r.0@, r.1@) == lower_function(value@),
    {
        let (name, tag) = FuncTag::from(&value.sig);
        let body = IRChunk { functions: Vec::new(), code: Vec::new() };
        assert(body@.functions =~= empty_chunk().functions);
        assert(body@.code =~= empty_chunk().code);
        (name, Function { tag, body })
    }
}

/// Lowers functions, one by one.
fn lower_function_list(v: &Vec<FunctionDecl>) -> (r: Vec<(String, Function)>)
    ensures
        function_entries(r@) == lower_functions(function_decl_views(v@)),
{
    let mut out: Vec<(String, Function)> = Vec::new();
    let mut i: usize = 0;
    while i < v.len()
        invariant
            i <= v.len(),
            out.len() == i,
            forall|j: int| 0 <= j < i
                ==> ((#[trigger] out[j]).0@, out[j].1@) == lower_function(v[j]@),
        decreases v.len() - i,
    {
        let item = Function::from(&v[i]);
        out.push(item);
        i = i + 1;
    }
    assert(function_entries(out@) =~= lower_functions(function_decl_views(v@)));
    out
}

impl Struct {
    /// The lowered form of a struct, with its name.
    pub fn from(value: &StructDecl) -> (r: (String, Struct))
        ensures
            (r.0@, r.1@) == lower_struct(value@),
    {
        (
            name_of(&value.name),
            Struct {
                generics: lower_generic_list(&value.generics),
                fields: lower_field_list(&value.fields),
            },
        )
    }
}

impl Enum {
    /// The lowered form of an enum, with its name.
    pub fn from(value: &EnumDecl) -> (r: (String, Enum))
        ensures
            (r.0@, r.1@) == lower_enum(value@),
    {
        (
            name_of(&value.name),
            Enum {
                generics: lower_generic_list(&value.generics),
                varients: lower_varient_list(&value.varients),
            },
        )
    }
}

impl Trait {
    /// The lowered form of a trait, with its name.
    pub fn from(value: &TraitDecl) -> (r: (String, Trait))
        ensures
            (r.0@, r.1@) == lower_trait_decl(value@),
    {
        (
            name_of(&value.name),
            Trait {
                generics: lower_generic_list(&value.generics),
                func_tag: lower_func_sig_list(&value.funcs),
            },
        )
    }
}

/// The index of the first entry with the name `name`, if there is one.
pub(crate) fn position_of<T>(entries: &Vec<(String, T)>, name: &String) -> (r: Option<usize>)
    ensures
        match r {
            Some(i) => i < entries.len() && entries[i as int].0@ == name@ && forall|j: int|
                0 <= j < i ==> entries[j].0@ != name@,
            None => forall|j: int| 0 <= j < entries.len() ==> entries[j].0@ != name@,
        },
{
    let mut i: usize = 0;
    while i < entries.len()
        invariant
            i <= entries.len(),
            forall|j: int| 0 <= j < i ==> entries[j].0@ != name@,
        decreases entries.len() - i,
    {
        if entries[i].0 == *name {
            return Some(i);
        }
        i = i + 1;
    }
    None
}

/// What the three sequences declare.
pub open spec fn declared_by(
    structs: Vec<(String, Struct)>,
    enums: Vec<(String, Enum)>,
    traits: Vec<(String, Trait)>,
) -> Declared {
    Declared {
        structs: struct_entries(structs@),
        enums: enum_entries(enums@),
        traits: trait_entries(traits@),
    }
}

/// Whether `name` is declared as a struct or as an enum, and not as a
/// trait.
fn is_no_trait(
    structs: &Vec<(String, Struct)>,
    enums: &Vec<(String, Enum)>,
    traits: &Vec<(String, Trait)>,
    name: &String,
) -> (r: bool)
    ensures
        r == names_no_trait(declared_by(*structs, *enums, *traits), name@),
{
    let as_struct = position_of(structs, name);
    let as_enum = position_of(enums, name);
    let as_trait = position_of(traits, name);
    proof {
        let declared = declared_by(*structs, *enums, *traits);
        if let Some(i) = as_struct {
            assert(declared.structs[i as int].0 == name@);
        }
        if let Some(i) = as_enum {
            assert(declared.enums[i as int].0 == name@);
        }
        if let Some(i) = as_trait {
            assert(declared.traits[i as int].0 == name@);
        }
        assert(as_struct is None ==> !has_name(declared.structs, name@)) by {
            if as_struct is None && has_name(declared.structs, name@) {
                let i = choose|i: int|
                    0 <= i < declared.structs.len() && (#[trigger] declared.structs[i]).0
                        == name@;
                assert(structs[i].0@ == name@);
            }
        }
        assert(as_enum is None ==> !has_name(declared.enums, name@)) by {
            if as_enum is None && has_name(declared.enums, name@) {
                let i = choose|i: int|
                    0 <= i < declared.enums.len() && (#[trigger] declared.enums[i]).0 == name@;
                assert(enums[i].0@ == name@);
            }
        }
        assert(as_trait is None ==> !has_name(declared.traits, name@)) by {
            if as_trait is None && has_name(declared.traits, name@) {
                let i = choose|i: int|
                    0 <= i < declared.traits.len() && (#[trigger] declared.traits[i]).0
                        == name@;
                assert(traits[i].0@ == name@);
            }
        }
    }
    (as_struct.is_some() || as_enum.is_some()) && as_trait.is_none()
}

impl Impl {
    /// The lowered form of an impl, in a program that declares `structs`,
    /// `enums` and `traits`. What stands before `for` must be a named type
    /// and may not be the name of a struct or an enum that is no trait.
    pub fn try_from(
        value: &ImplDecl,
        structs: &Vec<(String, Struct)>,
        enums: &Vec<(String, Enum)>,
        traits: &Vec<(String, Trait)>,
    ) -> (res: Result<Impl, CompileError>)
        ensures
            lowered_view(res) == lower_impl(declared_by(*structs, *enums, *traits), value@),
    {
        let trait_to_impl = match &value.trait_to_impl {
            None => None,
            Some(type_) => {
                match Type::from(type_) {
                    Type::Actual(actual) => {
                        if is_no_trait(structs, enums, traits, &actual.name) {
                            return Err(
                                CompileError::OnlyTraitsCanBeImplimentedOn(Type::Actual(actual)),
                            );
                        }
                        Some(actual)
                    },
                    other => {
                        return Err(CompileError::OnlyTraitsCanBeImplimentedOn(other));
                    },
                }
            },
        };
        Ok(
            Impl {
                generics: lower_generic_list(&value.generics),
                trait_to_impl,
                type_to_impl_on: Type::from(&value.type_to_impl_on),
                funcs: lower_function_list(&value.funcs),
            },
        )
    }
}

/// The names of `entries`, copied.
fn names_in<T>(entries: &Vec<(String, T)>) -> (names: Vec<String>)
    ensures
        names.len() == entries.len(),
        forall|i: int| 0 <= i < names.len() ==> names[i]@ == entries[i].0@,
{
    let mut names: Vec<String> = Vec::new();
    let mut i: usize = 0;
    while i < entries.len()
        invariant
            i <= entries.len(),
            names.len() == i,
            forall|j: int| 0 <= j < i ==> names[j]@ == entries[j].0@,
        decreases entries.len() - i,
    {
        names.push(entries[i].0.clone());
        i = i + 1;
    }
    names
}

impl IR {
    /// The invariant of a lowered program: it holds no name twice where a
    /// map from names would hold it once.
    pub open spec fn wf(&self) -> bool {
        ir_wf(self@)
    }

    /// Lowers a program. Fails where a name occurs twice among the structs,
    /// the enums, the traits or the functions, with the names of the first
    /// of these kinds in which one does, and where an impl names before its
    /// `for` what is no trait.
    pub fn try_from(program: &Program) -> (res: Result<IR, CompileError>)
        ensures
            lowered_view(res) == lower_program(program@),
            res matches Ok(ir) ==> ir.wf(),
    {
        proof {
            lemma_lowered_names_differ(program@);
        }
        let ghost code = declaration_views(program.code@);
        let mut structs: Vec<(String, Struct)> = Vec::new();
        let mut enums: Vec<(String, Enum)> = Vec::new();
        let mut traits: Vec<(String, Trait)> = Vec::new();
        let mut functions: Vec<(String, Function)> = Vec::new();
        let mut i: usize = 0;
        proof {
            assert(struct_entries(structs@) =~= structs_of(code, 0));
            assert(enum_entries(enums@) =~= enums_of(code, 0));
            assert(trait_entries(traits@) =~= traits_of(code, 0));
            assert(function_entries(functions@) =~= functions_of(code, 0));
        }
        while i < program.code.len()
            invariant
                i <= program.code.len(),
                code == declaration_views(program.code@),
                struct_entries(structs@) == structs_of(code, i as int),
                enum_entries(enums@) == enums_of(code, i as int),
                trait_entries(traits@) == traits_of(code, i as int),
                function_entries(functions@) == functions_of(code, i as int),
            decreases program.code.len() - i,
        {
            let ghost s0 = struct_entries(structs@);
            let ghost e0 = enum_entries(enums@);
            let ghost t0 = trait_entries(traits@);
            let ghost f0 = function_entries(functions@);
            match &program.code[i] {
                Declaration::StructDecl(d) => {
                    let item = Struct::from(d);
                    structs.push(item);
                    assert(struct_entries(structs@) =~= s0.push(lower_struct(d@)));
                },
                Declaration::EnumDecl(d) => {
                    let item = Enum::from(d);
                    enums.push(item);
                    assert(enum_entries(enums@) =~= e0.push(lower_enum(d@)));
                },
                Declaration::TraitDecl(d) => {
                    let item = Trait::from(d);
                    traits.push(item);
                    assert(trait_entries(traits@) =~= t0.push(lower_trait_decl(d@)));
                },
                Declaration::FunctionDecl(d) => {
                    let item = Function::from(d);
                    functions.push(item);
                    assert(function_entries(functions@) =~= f0.push(lower_function(d@)));
                },
                Declaration::ImplDecl(_) => {},
            }
            i = i + 1;
        }
        let names = names_in(&structs);
        assert(string_views(names@) =~= names_of(struct_entries(structs@)));
        let duplicate_things = duplicate_names(names);
        if duplicate_things.len() > 0 {
            return Err(CompileError::DuplicateStructs(duplicate_things));
        }
        let names = names_in(&enums);
        assert(string_views(names@) =~= names_of(enum_entries(enums@)));
        let duplicate_things = duplicate_names(names);
        if duplicate_things.len() > 0 {
            return Err(CompileError::DuplicateEnums(duplicate_things));
        }
        let names = names_in(&traits);
        assert(string_views(names@) =~= names_of(trait_entries(traits@)));
        let duplicate_things = duplicate_names(names);
        if duplicate_things.len() > 0 {
            return Err(CompileError::DuplicateTraits(duplicate_things));
        }
        let names = names_in(&functions);
        assert(string_views(names@) =~= names_of(function_entries(functions@)));
        let duplicate_things = duplicate_names(names);
        if duplicate_things.len() > 0 {
            return Err(CompileError::DuplicateFunctions(duplicate_things));
        }
        let ghost declared = declared_by(structs, enums, traits);
        let mut impls: Vec<Impl> = Vec::new();
        let mut k: usize = 0;
        assert(impl_views(impls@) =~= Seq::empty());
        while k < program.code.len()
            invariant
                k <= program.code.len(),
                code == declaration_views(program.code@),
                declared == declared_by(structs, enums, traits),
                struct_entries(structs@) == structs_of(code, code.len() as int),
                enum_entries(enums@) == enums_of(code, code.len() as int),
                trait_entries(traits@) == traits_of(code, code.len() as int),
                function_entries(functions@) == functions_of(code, code.len() as int),
                duplicates_of(names_of(struct_entries(structs@))).len() == 0,
                duplicates_of(names_of(enum_entries(enums@))).len() == 0,
                duplicates_of(names_of(trait_entries(traits@))).len() == 0,
                duplicates_of(names_of(function_entries(functions@))).len() == 0,
                impls_of(declared, code, k as int) == Ok::<Seq<ImplView>, CompileErrorView>(
                    impl_views(impls@),
                ),
            decreases program.code.len() - k,
        {
            let ghost before = impl_views(impls@);
            assert(code[k as int] == program.code[k as int]@);
            match &program.code[k] {
                Declaration::ImplDecl(d) => {
                    assert(code[k as int] == DeclarationView::ImplDecl(d@));
                    let lowered = Impl::try_from(d, &structs, &enums, &traits);
                    match lowered {
                        Err(e) => {
                            proof {
                                assert(impls_of(declared, code, k as int + 1) == Err::<
                                    Seq<ImplView>,
                                    CompileErrorView,
                                >(e@));
                                lemma_impls_error_stays(
                                    declared,
                                    code,
                                    k as int + 1,
                                    code.len() as int,
                                );
                            }
                            return Err(e);
                        },
                        Ok(item) => {
                            impls.push(item);
                            assert(impl_views(impls@) =~= before.push(item@));
                            assert(impls_of(declared, code, k as int + 1) == Ok::<
                                Seq<ImplView>,
                                CompileErrorView,
                            >(before.push(item@)));
                        },
                    }
                },
                _ => {
                    assert(!(code[k as int] is ImplDecl));
                    assert(impls_of(declared, code, k as int + 1) == Ok::<
                        Seq<ImplView>,
                        CompileErrorView,
                    >(before));
                },
            }
            k = k + 1;
        }
        Ok(IR { structs, enums, traits, impls, function: functions })
    }
}

/// Once an impl among the first `n` declarations cannot be lowered, more
/// declarations change nothing.
pub proof fn lemma_impls_error_stays(
    declared: Declared,
    code: Seq<DeclarationView>,
    n: int,
    m: int,
)
    requires
        0 <= n <= m <= code.len(),
        impls_of(declared, code, n) is Err,
    ensures
        impls_of(declared, code, m) == impls_of(declared, code, n),
    decreases m - n,
{
    if n < m {
        lemma_impls_error_stays(declared, code, n, m - 1);
    }
}

// ---------------------------------------------------------------------------
// Copies
// ---------------------------------------------------------------------------

/// A copy of `x` with the same value.
pub fn clone_ir(x: &IR) -> (r: IR)
    decreases x,
{
    IR {
        structs: clone_structs(&x.structs),
        enums: clone_enums(&x.enums),
        traits: clone_traits(&x.traits),
        impls: clone_impls(&x.impls),
        function: clone_functions(&x.function),
    }
}

impl Clone for IR {
    fn clone(&self) -> (r: Self)
    {
        clone_ir(self)
    }
}

/// A copy of `x` with the same value.
pub fn clone_function(x: &Function) -> (r: Function)
    decreases x,
{
    Function {
        tag: clone_func_tag(&x.tag),
        body: clone_irchunk(&x.body),
    }
}

impl Clone for Function {
    fn clone(&self) -> (r: Self)
    {
        clone_function(self)
    }
}

/// A copy of `x` with the same value.
pub fn clone_impl(x: &Impl) -> (r: Impl)
    decreases x,
{
    Impl {
        generics: clone_generics(&x.generics),
        trait_to_impl: match &x.trait_to_impl {
            Some(v) => Some(clone_actual_type(v)),
            None => None,
        },
        type_to_impl_on: clone_type(&x.type_to_impl_on),
        funcs: clone_functions(&x.funcs),
    }
}

impl Clone for Impl {
    fn clone(&self) -> (r: Self)
    {
        clone_impl(self)
    }
}

/// A copy of `x` with the same value.
pub fn clone_trait(x: &Trait) -> (r: Trait)
    ensures
        r@ == x@,
    decreases x,
{
    Trait {
        generics: clone_generics(&x.generics),
        func_tag: clone_func_tags(&x.func_tag),
    }
}

impl Clone for Trait {
    fn clone(&self) -> (r: Self)
        ensures
            r@ == self@,
    {
        clone_trait(self)
    }
}

/// A copy of `x` with the same value.
pub fn clone_func_tag(x: &FuncTag) -> (r: FuncTag)
    ensures
        r@ == x@,
    decreases x,
{
    FuncTag {
        generics: clone_generics(&x.generics),
        inputs: clone_fields(&x.inputs),
        output: clone_type(&x.output),
    }
}

impl Clone for FuncTag {
    fn clone(&self) -> (r: Self)
        ensures
            r@ == self@,
    {
        clone_func_tag(self)
    }
}

/// A copy of `x` with the same value.
pub fn clone_enum(x: &Enum) -> (r: Enum)
    ensures
        r@ == x@,
    decreases x,
{
    Enum {
        generics: clone_generics(&x.generics),
        varients: clone_varients(&x.varients),
    }
}

impl Clone for Enum {
    fn clone(&self) -> (r: Self)
        ensures
            r@ == self@,
    {
        clone_enum(self)
    }
}

/// A copy of `x` with the same value.
pub fn clone_struct(x: &Struct) -> (r: Struct)
    ensures
        r@ == x@,
    decreases x,
{
    Struct {
        generics: clone_generics(&x.generics),
        fields: clone_fields(&x.fields),
    }
}

impl Clone for Struct {
    fn clone(&self) -> (r: Self)
        ensures
            r@ == self@,
    {
        clone_struct(self)
    }
}

/// A copy of `x` with the same value.
pub fn clone_generic(x: &Generic) -> (r: Generic)
    ensures
        r@ == x@,
    decreases x,
{
    Generic {
        name: x.name.clone(),
        constraits: clone_trait_types(&x.constraits),
    }
}

impl Clone for Generic {
    fn clone(&self) -> (r: Self)
        ensures
            r@ == self@,
    {
        clone_generic(self)
    }
}

/// A copy of `x` with the same value.
pub fn clone_type(x: &Type) -> (r: Type)
    ensures
        r@ == x@,
    decreases x,
{
    match x {
        Type::Unit => Type::Unit,
        Type::Actual(a) => Type::Actual(clone_actual_type(a)),
        Type::Array(a) => Type::Array(clone_actual_type(a)),
        Type::DynType(a) => Type::DynType(clone_trait_types(a)),
        Type::FP(a) => Type::FP(clone_fp(a)),
    }
}

impl Clone for Type {
    fn clone(&self) -> (r: Self)
        ensures
            r@ == self@,
    {
        clone_type(self)
    }
}

/// A copy of `x` with the same value.
pub fn clone_fp(x: &FP) -> (r: FP)
    ensures
        r@ == x@,
    decreases x,
{
    FP {
        arg: clone_types(&x.arg),
        out: Box::new(clone_type(&*x.out)),
    }
}

impl Clone for FP {
    fn clone(&self) -> (r: Self)
        ensures
            r@ == self@,
    {
        clone_fp(self)
    }
}

/// A copy of `x` with the same value.
pub fn clone_actual_type(x: &ActualType) -> (r: ActualType)
    ensures
        r@ == x@,
    decreases x,
{
    ActualType {
        name: x.name.clone(),
        types_in_generics: clone_types(&x.types_in_generics),
    }
}

impl Clone for ActualType {
    fn clone(&self) -> (r: Self)
        ensures
            r@ == self@,
    {
        clone_actual_type(self)
    }
}

/// A copy of `x` with the same value.
pub fn clone_trait_type(x: &TraitType) -> (r: TraitType)
    ensures
        r@ == x@,
    decreases x,
{
    TraitType {
        name: x.name.clone(),
        types_in_generics: clone_types(&x.types_in_generics),
    }
}

impl Clone for TraitType {
    fn clone(&self) -> (r: Self)
        ensures
            r@ == self@,
    {
        clone_trait_type(self)
    }
}

/// Copies of the items of `v`, with the same values.
pub fn clone_structs(v: &Vec<(String, Struct)>) -> (r: Vec<(String, Struct)>)
    ensures
        struct_entries(r@) == struct_entries(v@),
    decreases v,
{
    let mut out: Vec<(String, Struct)> = Vec::new();
    let mut i: usize = 0;
    while i < v.len()
        invariant
            i <= v.len(),
            out.len() == i,
            forall|j: int| 0 <= j < i ==> struct_entries(out@)[j] == struct_entries(v@)[j],
        decreases v.len() - i,
    {
        let ghost before = out@;
        let item = (v[i].0.clone(), clone_struct(&v[i].1));
        out.push(item);
        assert forall|j: int|
            0 <= j < i + 1 implies
            struct_entries(out@)[j] == struct_entries(v@)[j]
        by {
            if j < i {
                assert(out@[j] == before[j]);
                assert(struct_entries(before)[j] == struct_entries(v@)[j]);
            }
        }
        i = i + 1;
    }
    assert(struct_entries(out@) =~= struct_entries(v@));
    out
}

/// Copies of the items of `v`, with the same values.
pub fn clone_enums(v: &Vec<(String, Enum)>) -> (r: Vec<(String, Enum)>)
    ensures
        enum_entries(r@) == enum_entries(v@),
    decreases v,
{
    let mut out: Vec<(String, Enum)> = Vec::new();
    let mut i: usize = 0;
    while i < v.len()
        invariant
            i <= v.len(),
            out.len() == i,
            forall|j: int| 0 <= j < i ==> enum_entries(out@)[j] == enum_entries(v@)[j],
        decreases v.len() - i,
    {
        let ghost before = out@;
        let item = (v[i].0.clone(), clone_enum(&v[i].1));
        out.push(item);
        assert forall|j: int|
            0 <= j < i + 1 implies
            enum_entries(out@)[j] == enum_entries(v@)[j]
        by {
            if j < i {
                assert(out@[j] == before[j]);
                assert(enum_entries(before)[j] == enum_entries(v@)[j]);
            }
        }
        i = i + 1;
    }
    assert(enum_entries(out@) =~= enum_entries(v@));
    out
}

/// Copies of the items of `v`, with the same values.
pub fn clone_traits(v: &Vec<(String, Trait)>) -> (r: Vec<(String, Trait)>)
    ensures
        trait_entries(r@) == trait_entries(v@),
    decreases v,
{
    let mut out: Vec<(String, Trait)> = Vec::new();
    let mut i: usize = 0;
    while i < v.len()
        invariant
            i <= v.len(),
            out.len() == i,
            forall|j: int| 0 <= j < i ==> trait_entries(out@)[j] == trait_entries(v@)[j],
        decreases v.len() - i,
    {
        let ghost before = out@;
        let item = (v[i].0.clone(), clone_trait(&v[i].1));
        out.push(item);
        assert forall|j: int|
            0 <= j < i + 1 implies
            trait_entries(out@)[j] == trait_entries(v@)[j]
        by {
            if j < i {
                assert(out@[j] == before[j]);
                assert(trait_entries(before)[j] == trait_entries(v@)[j]);
            }
        }
        i = i + 1;
    }
    assert(trait_entries(out@) =~= trait_entries(v@));
    out
}

/// Copies of the items of `v`, with the same values.
pub fn clone_functions(v: &Vec<(String, Function)>) -> (r: Vec<(String, Function)>)
    decreases v,
{
    let mut out: Vec<(String, Function)> = Vec::new();
    let mut i: usize = 0;
    while i < v.len()
        invariant
            i <= v.len(),
            out.len() == i,
        decreases v.len() - i,
    {
        let item = (v[i].0.clone(), clone_function(&v[i].1));
        out.push(item);
        i = i + 1;
    }
    out
}

/// Copies of the items of `v`, with the same values.
pub fn clone_func_tags(v: &Vec<(String, FuncTag)>) -> (r: Vec<(String, FuncTag)>)
    ensures
        func_tag_entries(r@) == func_tag_entries(v@),
    decreases v,
{
    let mut out: Vec<(String, FuncTag)> = Vec::new();
    let mut i: usize = 0;
    while i < v.len()
        invariant
            i <= v.len(),
            out.len() == i,
            forall|j: int| 0 <= j < i ==> func_tag_entries(out@)[j] == func_tag_entries(v@)[j],
        decreases v.len() - i,
    {
        let ghost before = out@;
        let item = (v[i].0.clone(), clone_func_tag(&v[i].1));
        out.push(item);
        assert forall|j: int|
            0 <= j < i + 1 implies
            func_tag_entries(out@)[j] == func_tag_entries(v@)[j]
        by {
            if j < i {
                assert(out@[j] == before[j]);
                assert(func_tag_entries(before)[j] == func_tag_entries(v@)[j]);
            }
        }
        i = i + 1;
    }
    assert(func_tag_entries(out@) =~= func_tag_entries(v@));
    out
}

/// Copies of the items of `v`, with the same values.
pub fn clone_fields(v: &Vec<(String, Type)>) -> (r: Vec<(String, Type)>)
    ensures
        field_entries(r@) == field_entries(v@),
    decreases v,
{
    let mut out: Vec<(String, Type)> = Vec::new();
    let mut i: usize = 0;
    while i < v.len()
        invariant
            i <= v.len(),
            out.len() == i,
            forall|j: int| 0 <= j < i ==> field_entries(out@)[j] == field_entries(v@)[j],
        decreases v.len() - i,
    {
        let ghost before = out@;
        let item = (v[i].0.clone(), clone_type(&v[i].1));
        out.push(item);
        assert forall|j: int|
            0 <= j < i + 1 implies
            field_entries(out@)[j] == field_entries(v@)[j]
        by {
            if j < i {
                assert(out@[j] == before[j]);
                assert(field_entries(before)[j] == field_entries(v@)[j]);
            }
        }
        i = i + 1;
    }
    assert(field_entries(out@) =~= field_entries(v@));
    out
}

/// Copies of the items of `v`, with the same values.
pub fn clone_varients(v: &Vec<(String, Fields)>) -> (r: Vec<(String, Fields)>)
    ensures
        varient_entries(r@) == varient_entries(v@),
    decreases v,
{
    let mut out: Vec<(String, Fields)> = Vec::new();
    let mut i: usize = 0;
    while i < v.len()
        invariant
            i <= v.len(),
            out.len() == i,
            forall|j: int| 0 <= j < i ==> varient_entries(out@)[j] == varient_entries(v@)[j],
        decreases v.len() - i,
    {
        let ghost before = out@;
        let item = (v[i].0.clone(), clone_fields(&v[i].1));
        out.push(item);
        assert forall|j: int|
            0 <= j < i + 1 implies
            varient_entries(out@)[j] == varient_entries(v@)[j]
        by {
            if j < i {
                assert(out@[j] == before[j]);
                assert(varient_entries(before)[j] == varient_entries(v@)[j]);
            }
        }
        i = i + 1;
    }
    assert(varient_entries(out@) =~= varient_entries(v@));
    out
}

/// Copies of the items of `v`, with the same values.
pub fn clone_impls(v: &Vec<Impl>) -> (r: Vec<Impl>)
    decreases v,
{
    let mut out: Vec<Impl> = Vec::new();
    let mut i: usize = 0;
    while i < v.len()
        invariant
            i <= v.len(),
            out.len() == i,
        decreases v.len() - i,
    {
        let item = clone_impl(&v[i]);
        out.push(item);
        i = i + 1;
    }
    out
}

/// Copies of the items of `v`, with the same values.
pub fn clone_generics(v: &Vec<Generic>) -> (r: Vec<Generic>)
    ensures
        generic_views(r@) == generic_views(v@),
    decreases v,
{
    let mut out: Vec<Generic> = Vec::new();
    let mut i: usize = 0;
    while i < v.len()
        invariant
            i <= v.len(),
            out.len() == i,
            forall|j: int| 0 <= j < i ==> generic_views(out@)[j] == generic_views(v@)[j],
        decreases v.len() - i,
    {
        let ghost before = out@;
        let item = clone_generic(&v[i]);
        out.push(item);
        assert forall|j: int|
            0 <= j < i + 1 implies
            generic_views(out@)[j] == generic_views(v@)[j]
        by {
            if j < i {
                assert(out@[j] == before[j]);
                assert(generic_views(before)[j] == generic_views(v@)[j]);
            }
        }
        i = i + 1;
    }
    assert(generic_views(out@) =~= generic_views(v@));
    out
}

/// Copies of the items of `v`, with the same values.
pub fn clone_types(v: &Vec<Type>) -> (r: Vec<Type>)
    ensures
        type_views(r@) == type_views(v@),
    decreases v,
{
    let mut out: Vec<Type> = Vec::new();
    let mut i: usize = 0;
    while i < v.len()
        invariant
            i <= v.len(),
            out.len() == i,
            forall|j: int| 0 <= j < i ==> type_views(out@)[j] == type_views(v@)[j],
        decreases v.len() - i,
    {
        let ghost before = out@;
        let item = clone_type(&v[i]);
        out.push(item);
        assert forall|j: int| 0 <= j < i + 1 implies type_views(out@)[j] == type_views(v@)[j] by {
            if j < i {
                assert(out@[j] == before[j]);
                assert(type_views(before)[j] == type_views(v@)[j]);
            }
        }
        i = i + 1;
    }
    assert(type_views(out@) =~= type_views(v@));
    out
}

/// Copies of the items of `v`, with the same values.
pub fn clone_trait_types(v: &Vec<TraitType>) -> (r: Vec<TraitType>)
    ensures
        trait_type_views(r@) == trait_type_views(v@),
    decreases v,
{
    let mut out: Vec<TraitType> = Vec::new();
    let mut i: usize = 0;
    while i < v.len()
        invariant
            i <= v.len(),
            out.len() == i,
            forall|j: int| 0 <= j < i ==> trait_type_views(out@)[j] == trait_type_views(v@)[j],
        decreases v.len() - i,
    {
        let ghost before = out@;
        let item = clone_trait_type(&v[i]);
        out.push(item);
        assert forall|j: int|
            0 <= j < i + 1 implies
            trait_type_views(out@)[j] == trait_type_views(v@)[j]
        by {
            if j < i {
                assert(out@[j] == before[j]);
                assert(trait_type_views(before)[j] == trait_type_views(v@)[j]);
            }
        }
        i = i + 1;
    }
    assert(trait_type_views(out@) =~= trait_type_views(v@));
    out
}

} // verus!
