//! Declarations and types: the tree, its mathematical value, the model of
//! its grammar, and the parser.

use crate::ast::parser::{
    close_at, items_at, parse_items, values_of, expect_at, fail, is_at, lemma_prepend_empty,
    lemma_prepend_push, list_at, map_ok, one, optional_list_at, parsed_as, parsed_as_opt,
    peek_consume_at, peek_expect_at, prepend, progressed, result_view, result_view_by, Parsable,
    ParseError, ParseErrorView, ParseResult, Parsed, TokenCursor,
};
use crate::ast::statments::{
    clone_statments, block_at, parse_block, statment_views, Block, StatmentView,
};
use crate::scanner::{Token, TokenType, TokenView};
use vstd::prelude::*;

verus! {

/// A whole source text: its declarations in order.
#[derive(Debug)]
pub struct Program {
    pub code: Vec<Declaration>,
}

/// The mathematical value of a [`Program`].
pub ghost struct ProgramView {
    pub code: Seq<DeclarationView>,
}

/// The value of `x`.
pub open spec fn program_view(x: Program) -> ProgramView
    decreases x,
{
    ProgramView {
        code: declaration_views(x.code@),
    }
}

impl View for Program {
    type V = ProgramView;

    open spec fn view(&self) -> ProgramView {
        program_view(*self)
    }
}

/// One top-level declaration.
#[derive(Debug)]
pub enum Declaration {
    StructDecl(StructDecl),
    EnumDecl(EnumDecl),
    FunctionDecl(FunctionDecl),
    TraitDecl(TraitDecl),
    ImplDecl(ImplDecl),
}

/// The mathematical value of a [`Declaration`].
pub ghost enum DeclarationView {
    StructDecl(StructDeclView),
    EnumDecl(EnumDeclView),
    FunctionDecl(FunctionDeclView),
    TraitDecl(TraitDeclView),
    ImplDecl(ImplDeclView),
}

/// The value of `x`.
pub open spec fn declaration_view(x: Declaration) -> DeclarationView
    decreases x,
{
    match x {
        Declaration::StructDecl(a) => DeclarationView::StructDecl(struct_decl_view(a)),
        Declaration::EnumDecl(a) => DeclarationView::EnumDecl(enum_decl_view(a)),
        Declaration::FunctionDecl(a) => DeclarationView::FunctionDecl(function_decl_view(a)),
        Declaration::TraitDecl(a) => DeclarationView::TraitDecl(trait_decl_view(a)),
        Declaration::ImplDecl(a) => DeclarationView::ImplDecl(impl_decl_view(a)),
    }
}

impl View for Declaration {
    type V = DeclarationView;

    open spec fn view(&self) -> DeclarationView {
        declaration_view(*self)
    }
}

/// `impl <generics> Type { .. }` or `impl <generics> Trait for Type { .. }`.
#[derive(Debug)]
pub struct ImplDecl {
    pub generics: Vec<GenericDecl>,
    pub trait_to_impl: Option<Type>,
    pub type_to_impl_on: Type,
    pub funcs: Vec<FunctionDecl>,
}

/// The mathematical value of an [`ImplDecl`].
pub ghost struct ImplDeclView {
    pub generics: Seq<GenericDeclView>,
    pub trait_to_impl: Option<TypeView>,
    pub type_to_impl_on: TypeView,
    pub funcs: Seq<FunctionDeclView>,
}

/// The value of `x`.
pub open spec fn impl_decl_view(x: ImplDecl) -> ImplDeclView
    decreases x,
{
    ImplDeclView {
        generics: generic_decl_views(x.generics@),
        trait_to_impl: match x.trait_to_impl { Some(v) => Some(type_view(v)), None => None },
        type_to_impl_on: type_view(x.type_to_impl_on),
        funcs: function_decl_views(x.funcs@),
    }
}

impl View for ImplDecl {
    type V = ImplDeclView;

    open spec fn view(&self) -> ImplDeclView {
        impl_decl_view(*self)
    }
}

/// `trait Name <generics> { sig; sig }`.
#[derive(Debug)]
pub struct TraitDecl {
    pub name: Token,
    pub generics: Vec<GenericDecl>,
    pub funcs: Vec<FuncSig>,
}

/// The mathematical value of a [`TraitDecl`].
pub ghost struct TraitDeclView {
    pub name: TokenView,
    pub generics: Seq<GenericDeclView>,
    pub funcs: Seq<FuncSigView>,
}

/// The value of `x`.
pub open spec fn trait_decl_view(x: TraitDecl) -> TraitDeclView
    decreases x,
{
    TraitDeclView {
        name: x.name@,
        generics: generic_decl_views(x.generics@),
        funcs: func_sig_views(x.funcs@),
    }
}

impl View for TraitDecl {
    type V = TraitDeclView;

    open spec fn view(&self) -> TraitDeclView {
        trait_decl_view(*self)
    }
}

/// `fn name <generics> (name: Type, ..) -> Type`; the result type is `Unit` where none is written.
#[derive(Debug)]
pub struct FuncSig {
    pub name: Token,
    pub generics: Vec<GenericDecl>,
    pub parameters: Vec<(Token, Type)>,
    pub out: Type,
}

/// The mathematical value of a [`FuncSig`].
pub ghost struct FuncSigView {
    pub name: TokenView,
    pub generics: Seq<GenericDeclView>,
    pub parameters: Seq<(TokenView, TypeView)>,
    pub out: TypeView,
}

/// The value of `x`.
pub open spec fn func_sig_view(x: FuncSig) -> FuncSigView
    decreases x,
{
    FuncSigView {
        name: x.name@,
        generics: generic_decl_views(x.generics@),
        parameters: parameter_views(x.parameters@),
        out: type_view(x.out),
    }
}

impl View for FuncSig {
    type V = FuncSigView;

    open spec fn view(&self) -> FuncSigView {
        func_sig_view(*self)
    }
}

/// A function: its signature and the statements of its body.
#[derive(Debug)]
pub struct FunctionDecl {
    pub sig: FuncSig,
    pub body: Block,
}

/// The mathematical value of a [`FunctionDecl`].
pub ghost struct FunctionDeclView {
    pub sig: FuncSigView,
    pub body: Seq<StatmentView>,
}

/// The value of `x`.
pub open spec fn function_decl_view(x: FunctionDecl) -> FunctionDeclView
    decreases x,
{
    FunctionDeclView {
        sig: func_sig_view(x.sig),
        body: statment_views(x.body@),
    }
}

impl View for FunctionDecl {
    type V = FunctionDeclView;

    open spec fn view(&self) -> FunctionDeclView {
        function_decl_view(*self)
    }
}

/// `enum Name <generics> { Variant, Variant { .. } }`.
#[derive(Debug)]
pub struct EnumDecl {
    pub name: Token,
    pub generics: Vec<GenericDecl>,
    pub varients: Vec<VarientDecl>,
}

/// The mathematical value of an [`EnumDecl`].
pub ghost struct EnumDeclView {
    pub name: TokenView,
    pub generics: Seq<GenericDeclView>,
    pub varients: Seq<VarientDeclView>,
}

/// The value of `x`.
pub open spec fn enum_decl_view(x: EnumDecl) -> EnumDeclView
    decreases x,
{
    EnumDeclView {
        name: x.name@,
        generics: generic_decl_views(x.generics@),
        varients: varient_decl_views(x.varients@),
    }
}

impl View for EnumDecl {
    type V = EnumDeclView;

    open spec fn view(&self) -> EnumDeclView {
        enum_decl_view(*self)
    }
}

/// One variant of an enum, with its fields if it has any.
#[derive(Debug)]
pub struct VarientDecl {
    pub name: Token,
    pub fields: Vec<FieldDecl>,
}

/// The mathematical value of a [`VarientDecl`].
pub ghost struct VarientDeclView {
    pub name: TokenView,
    pub fields: Seq<FieldDeclView>,
}

/// The value of `x`.
pub open spec fn varient_decl_view(x: VarientDecl) -> VarientDeclView
    decreases x,
{
    VarientDeclView {
        name: x.name@,
        fields: field_decl_views(x.fields@),
    }
}

impl View for VarientDecl {
    type V = VarientDeclView;

    open spec fn view(&self) -> VarientDeclView {
        varient_decl_view(*self)
    }
}

/// `struct Name <generics> { name: Type, .. }`.
#[derive(Debug)]
pub struct StructDecl {
    pub name: Token,
    pub generics: Vec<GenericDecl>,
    pub fields: Vec<FieldDecl>,
}

/// The mathematical value of a [`StructDecl`].
pub ghost struct StructDeclView {
    pub name: TokenView,
    pub generics: Seq<GenericDeclView>,
    pub fields: Seq<FieldDeclView>,
}

/// The value of `x`.
pub open spec fn struct_decl_view(x: StructDecl) -> StructDeclView
    decreases x,
{
    StructDeclView {
        name: x.name@,
        generics: generic_decl_views(x.generics@),
        fields: field_decl_views(x.fields@),
    }
}

impl View for StructDecl {
    type V = StructDeclView;

    open spec fn view(&self) -> StructDeclView {
        struct_decl_view(*self)
    }
}

/// One generic parameter, with the bounds written after its colon.
#[derive(Debug)]
pub struct GenericDecl {
    pub name: Token,
    pub constraints: Vec<Type>,
}

/// The mathematical value of a [`GenericDecl`].
pub ghost struct GenericDeclView {
    pub name: TokenView,
    pub constraints: Seq<TypeView>,
}

/// The value of `x`.
pub open spec fn generic_decl_view(x: GenericDecl) -> GenericDeclView
    decreases x,
{
    GenericDeclView {
        name: x.name@,
        constraints: type_views(x.constraints@),
    }
}

impl View for GenericDecl {
    type V = GenericDeclView;

    open spec fn view(&self) -> GenericDeclView {
        generic_decl_view(*self)
    }
}

/// `name: Type`.
#[derive(Debug)]
pub struct FieldDecl {
    pub name: Token,
    pub type_of: Type,
}

/// The mathematical value of a [`FieldDecl`].
pub ghost struct FieldDeclView {
    pub name: TokenView,
    pub type_of: TypeView,
}

/// The value of `x`.
pub open spec fn field_decl_view(x: FieldDecl) -> FieldDeclView
    decreases x,
{
    FieldDeclView {
        name: x.name@,
        type_of: type_view(x.type_of),
    }
}

impl View for FieldDecl {
    type V = FieldDeclView;

    open spec fn view(&self) -> FieldDeclView {
        field_decl_view(*self)
    }
}

/// A type as written: a named type, `()`, `[Name]`, a function pointer
/// `|A, B|: C`, or a set of trait bounds `(A + B)`.
#[derive(Debug)]
pub enum Type {
    ActualType(SolidType),
    Unit,
    Array(SolidType),
    FP(FunctionPointer),
    DynamicType(Vec<SolidType>),
}

/// The mathematical value of a [`Type`].
pub ghost enum TypeView {
    ActualType(SolidTypeView),
    Unit,
    Array(SolidTypeView),
    FP(FunctionPointerView),
    DynamicType(Seq<SolidTypeView>),
}

/// The value of `x`.
pub open spec fn type_view(x: Type) -> TypeView
    decreases x,
{
    match x {
        Type::ActualType(a) => TypeView::ActualType(solid_type_view(a)),
        Type::Unit => TypeView::Unit,
        Type::Array(a) => TypeView::Array(solid_type_view(a)),
        Type::FP(a) => TypeView::FP(function_pointer_view(a)),
        Type::DynamicType(a) => TypeView::DynamicType(solid_type_views(a@)),
    }
}

impl View for Type {
    type V = TypeView;

    open spec fn view(&self) -> TypeView {
        type_view(*self)
    }
}

/// The type of a function: argument types and result type.
#[derive(Debug)]
pub struct FunctionPointer {
    pub args: Vec<Type>,
    pub out: Box<Type>,
}

/// The mathematical value of a [`FunctionPointer`].
pub ghost struct FunctionPointerView {
    pub args: Seq<TypeView>,
    pub out: Box<TypeView>,
}

/// The value of `x`.
pub open spec fn function_pointer_view(x: FunctionPointer) -> FunctionPointerView
    decreases x,
{
    FunctionPointerView {
        args: type_views(x.args@),
        out: Box::new(type_view(*x.out)),
    }
}

impl View for FunctionPointer {
    type V = FunctionPointerView;

    open spec fn view(&self) -> FunctionPointerView {
        function_pointer_view(*self)
    }
}

/// A named type with its generic arguments; the name is an identifier or `Self`.
#[derive(Debug)]
pub struct SolidType {
    pub name: Token,
    pub generics: Vec<Type>,
}

/// The mathematical value of a [`SolidType`].
pub ghost struct SolidTypeView {
    pub name: TokenView,
    pub generics: Seq<TypeView>,
}

/// The value of `x`.
pub open spec fn solid_type_view(x: SolidType) -> SolidTypeView
    decreases x,
{
    SolidTypeView {
        name: x.name@,
        generics: type_views(x.generics@),
    }
}

impl View for SolidType {
    type V = SolidTypeView;

    open spec fn view(&self) -> SolidTypeView {
        solid_type_view(*self)
    }
}

/// The values of a sequence of declarations.
pub open spec fn declaration_views(s: Seq<Declaration>) -> Seq<DeclarationView>
    decreases s,
{
    Seq::new(
        s.len(),
        |i: int|
            if 0 <= i < s.len() {
                declaration_view(s[i])
            } else {
                arbitrary()
            },
    )
}

/// The values of a sequence of functions.
pub open spec fn function_decl_views(s: Seq<FunctionDecl>) -> Seq<FunctionDeclView>
    decreases s,
{
    Seq::new(
        s.len(),
        |i: int|
            if 0 <= i < s.len() {
                function_decl_view(s[i])
            } else {
                arbitrary()
            },
    )
}

/// The values of a sequence of signatures.
pub open spec fn func_sig_views(s: Seq<FuncSig>) -> Seq<FuncSigView>
    decreases s,
{
    Seq::new(
        s.len(),
        |i: int|
            if 0 <= i < s.len() {
                func_sig_view(s[i])
            } else {
                arbitrary()
            },
    )
}

/// The values of a sequence of variants.
pub open spec fn varient_decl_views(s: Seq<VarientDecl>) -> Seq<VarientDeclView>
    decreases s,
{
    Seq::new(
        s.len(),
        |i: int|
            if 0 <= i < s.len() {
                varient_decl_view(s[i])
            } else {
                arbitrary()
            },
    )
}

/// The values of a sequence of generic parameters.
pub open spec fn generic_decl_views(s: Seq<GenericDecl>) -> Seq<GenericDeclView>
    decreases s,
{
    Seq::new(
        s.len(),
        |i: int|
            if 0 <= i < s.len() {
                generic_decl_view(s[i])
            } else {
                arbitrary()
            },
    )
}

/// The values of a sequence of fields.
pub open spec fn field_decl_views(s: Seq<FieldDecl>) -> Seq<FieldDeclView>
    decreases s,
{
    Seq::new(
        s.len(),
        |i: int|
            if 0 <= i < s.len() {
                field_decl_view(s[i])
            } else {
                arbitrary()
            },
    )
}

/// The values of a sequence of parameters.
pub open spec fn parameter_views(s: Seq<(Token, Type)>) -> Seq<(TokenView, TypeView)>
    decreases s,
{
    Seq::new(
        s.len(),
        |i: int|
            if 0 <= i < s.len() {
                (s[i].0@, type_view(s[i].1))
            } else {
                arbitrary()
            },
    )
}

/// The values of a sequence of types.
pub open spec fn type_views(s: Seq<Type>) -> Seq<TypeView>
    decreases s,
{
    Seq::new(
        s.len(),
        |i: int|
            if 0 <= i < s.len() {
                type_view(s[i])
            } else {
                arbitrary()
            },
    )
}

/// The values of a sequence of named types.
pub open spec fn solid_type_views(s: Seq<SolidType>) -> Seq<SolidTypeView>
    decreases s,
{
    Seq::new(
        s.len(),
        |i: int|
            if 0 <= i < s.len() {
                solid_type_view(s[i])
            } else {
                arbitrary()
            },
    )
}

// ---------------------------------------------------------------------------
// The grammar of types
// ---------------------------------------------------------------------------

/// The kinds that can start a named type.
pub open spec fn solid_type_starts() -> Seq<TokenType> {
    seq![TokenType::Ident, TokenType::Self_]
}

/// A named type at `pos`: a name, then its generic arguments between `<`
/// and `>` if there are any.
pub open spec fn solid_type_at(ts: Seq<TokenView>, pos: int) -> Parsed<SolidTypeView>
    decreases ts.len() - pos, 1int,
{
    let name = peek_consume_at(ts, pos, solid_type_starts());
    if name.0 is Err {
        (Err(name.0->Err_0), pos + 1)
    } else {
        let generics = if !is_at(ts, pos + 1, TokenType::LArrow) {
            (Ok(Seq::empty()), pos + 1)
        } else if is_at(ts, pos + 2, TokenType::RArrow) {
            (Ok(Seq::empty()), pos + 3)
        } else {
            type_items_at(ts, pos + 2, TokenType::Comma, TokenType::RArrow)
        };
        map_ok(generics, |g: Seq<TypeView>| SolidTypeView { name: name.0->Ok_0, generics: g })
    }
}

/// Named types from `pos` on, `delim` between them, up to and with `end`.
pub open spec fn solid_type_items_at(
    ts: Seq<TokenView>,
    pos: int,
    delim: TokenType,
    end: TokenType,
) -> Parsed<Seq<SolidTypeView>>
    decreases ts.len() - pos, 2int,
{
    let item = solid_type_at(ts, pos);
    if !progressed(ts, item, pos) {
        fail(item)
    } else if is_at(ts, item.1, delim) {
        prepend(seq![item.0->Ok_0], solid_type_items_at(ts, item.1 + 1, delim, end))
    } else {
        map_ok(close_at(ts, item.1, delim, end), |t: TokenView| seq![item.0->Ok_0])
    }
}

/// The value of a parsed list of named types.
pub open spec fn solid_types_result(
    r: ParseResult<Vec<SolidType>>,
) -> Result<Seq<SolidTypeView>, ParseErrorView> {
    result_view_by(r, |v: Vec<SolidType>| solid_type_views(v@))
}

/// A function pointer type at `pos`: argument types between two `|`, then
/// the result type after a colon if one is written.
pub open spec fn function_pointer_at(ts: Seq<TokenView>, pos: int) -> Parsed<FunctionPointerView>
    decreases ts.len() - pos, 3int,
{
    if !is_at(ts, pos, TokenType::Pipe) {
        (Err(ParseErrorView { expected: one(TokenType::Pipe), got: ts[pos] }), pos + 1)
    } else {
        let args = if is_at(ts, pos + 1, TokenType::Pipe) {
            (Ok(Seq::empty()), pos + 2)
        } else {
            type_items_at(ts, pos + 1, TokenType::Comma, TokenType::Pipe)
        };
        if !progressed(ts, args, pos) {
            fail(args)
        } else if is_at(ts, args.1, TokenType::Colon) {
            map_ok(
                type_at(ts, args.1 + 1),
                |out: TypeView| FunctionPointerView { args: args.0->Ok_0, out: Box::new(out) },
            )
        } else {
            (
                Ok(FunctionPointerView { args: args.0->Ok_0, out: Box::new(TypeView::Unit) }),
                args.1,
            )
        }
    }
}

/// The kinds that can start a type; an error names them where none of them
/// is there.
pub open spec fn type_starts() -> Seq<TokenType> {
    seq![
        TokenType::LParen,
        TokenType::Pipe,
        TokenType::LBrack,
        TokenType::Ident,
        TokenType::Self_,
    ]
}

/// A type at `pos`: trait bounds between parentheses (`()` is the unit
/// type), a function pointer, a named type between brackets, or a named
/// type.
pub open spec fn type_at(ts: Seq<TokenView>, pos: int) -> Parsed<TypeView>
    decreases ts.len() - pos, 4int,
{
    if is_at(ts, pos, TokenType::LParen) {
        if is_at(ts, pos + 1, TokenType::RParen) {
            (Ok(TypeView::Unit), pos + 2)
        } else {
            map_ok(
                solid_type_items_at(ts, pos + 1, TokenType::Plus, TokenType::RParen),
                |traits: Seq<SolidTypeView>| TypeView::DynamicType(traits),
            )
        }
    } else if is_at(ts, pos, TokenType::Pipe) {
        map_ok(function_pointer_at(ts, pos), |fp: FunctionPointerView| TypeView::FP(fp))
    } else if is_at(ts, pos, TokenType::LBrack) {
        let inner = solid_type_at(ts, pos + 1);
        if inner.0 is Err {
            fail(inner)
        } else {
            map_ok(
                expect_at(ts, inner.1, TokenType::RBrack),
                |t: TokenView| TypeView::Array(inner.0->Ok_0),
            )
        }
    } else if is_at(ts, pos, TokenType::Ident) || is_at(ts, pos, TokenType::Self_) {
        map_ok(solid_type_at(ts, pos), |s: SolidTypeView| TypeView::ActualType(s))
    } else {
        (Err(ParseErrorView { expected: type_starts(), got: ts[pos] }), pos + 1)
    }
}

/// Types from `pos` on, `delim` between them, up to and with `end`.
pub open spec fn type_items_at(
    ts: Seq<TokenView>,
    pos: int,
    delim: TokenType,
    end: TokenType,
) -> Parsed<Seq<TypeView>>
    decreases ts.len() - pos, 5int,
{
    let item = type_at(ts, pos);
    if !progressed(ts, item, pos) {
        fail(item)
    } else if is_at(ts, item.1, delim) {
        prepend(seq![item.0->Ok_0], type_items_at(ts, item.1 + 1, delim, end))
    } else {
        map_ok(close_at(ts, item.1, delim, end), |t: TokenView| seq![item.0->Ok_0])
    }
}

/// The value of a parsed list of types.
pub open spec fn types_result(r: ParseResult<Vec<Type>>) -> Result<Seq<TypeView>, ParseErrorView> {
    result_view_by(r, |v: Vec<Type>| type_views(v@))
}

impl SolidType {
    /// Parses a named type.
    pub fn parse(tokens: &mut TokenCursor) -> (res: ParseResult<SolidType>)
        requires
            old(tokens).live(),
        ensures
            parsed_as(
                *old(tokens),
                *final(tokens),
                result_view(res),
                solid_type_at(old(tokens).stream(), old(tokens).index()),
            ),
        decreases old(tokens).stream().len() - old(tokens).index(), 1int,
    {
        let mut kinds: Vec<TokenType> = Vec::new();
        kinds.push(TokenType::Ident);
        kinds.push(TokenType::Self_);
        assert(kinds@ =~= solid_type_starts());
        let name = tokens.consume_multiple(kinds)?;
        let generics = if tokens.optional_list_open(TokenType::LArrow, TokenType::RArrow) {
            parse_type_items(tokens, TokenType::Comma, TokenType::RArrow)?
        } else {
            let empty: Vec<Type> = Vec::new();
            assert(type_views(empty@) =~= Seq::empty());
            empty
        };
        Ok(SolidType { name, generics })
    }
}

/// Parses named types, `delim` between them, up to and with `end`.
#[verifier::rlimit(50)]
pub fn parse_solid_type_items(tokens: &mut TokenCursor, delim: TokenType, end: TokenType) -> (res:
    ParseResult<Vec<SolidType>>)
    requires
        old(tokens).live(),
        delim != TokenType::EOF,
        end != TokenType::EOF,
    ensures
        parsed_as(
            *old(tokens),
            *final(tokens),
            solid_types_result(res),
            solid_type_items_at(old(tokens).stream(), old(tokens).index(), delim, end),
        ),
    decreases old(tokens).stream().len() - old(tokens).index(), 2int,
{
    let ghost ts = tokens.stream();
    let ghost start = tokens.index();
    let mut list: Vec<SolidType> = Vec::new();
    proof {
        lemma_prepend_empty(solid_type_items_at(ts, start, delim, end));
        assert(solid_type_views(list@) =~= Seq::empty());
    }
    loop
        invariant
            tokens.live(),
            tokens.stream() == ts,
            ts == old(tokens).stream(),
            start == old(tokens).index(),
            start <= tokens.index(),
            list.len() > 0 ==> start < tokens.index(),
            delim != TokenType::EOF,
            end != TokenType::EOF,
            solid_type_items_at(ts, start, delim, end) == prepend(
                solid_type_views(list@),
                solid_type_items_at(ts, tokens.index(), delim, end),
            ),
        decreases ts.len() - tokens.index(),
    {
        let ghost front = solid_type_views(list@);
        let item = SolidType::parse(tokens)?;
        let ghost value = item@;
        proof {
            lemma_prepend_push(
                front,
                value,
                solid_type_items_at(ts, tokens.index() + 1, delim, end),
            );
        }
        list.push(item);
        assert(solid_type_views(list@) =~= front.push(value));
        if tokens.accept(delim) {
            continue ;
        }
        assert(front + seq![value] =~= front.push(value));
        tokens.close_list(delim, end)?;
        return Ok(list);
    }
}

impl FunctionPointer {
    /// Parses a function pointer type.
    pub fn parse(tokens: &mut TokenCursor) -> (res: ParseResult<FunctionPointer>)
        requires
            old(tokens).live(),
        ensures
            parsed_as(
                *old(tokens),
                *final(tokens),
                result_view(res),
                function_pointer_at(old(tokens).stream(), old(tokens).index()),
            ),
        decreases old(tokens).stream().len() - old(tokens).index(), 3int,
    {
        let args = if tokens.list_open(TokenType::Pipe, TokenType::Pipe)? {
            parse_type_items(tokens, TokenType::Comma, TokenType::Pipe)?
        } else {
            let empty: Vec<Type> = Vec::new();
            assert(type_views(empty@) =~= Seq::empty());
            empty
        };
        let out = if tokens.accept(TokenType::Colon) {
            Type::parse(tokens)?
        } else {
            Type::Unit
        };
        Ok(FunctionPointer { args, out: Box::new(out) })
    }
}

impl Type {
    /// Parses a type.
    pub fn parse(tokens: &mut TokenCursor) -> (res: ParseResult<Type>)
        requires
            old(tokens).live(),
        ensures
            parsed_as(
                *old(tokens),
                *final(tokens),
                result_view(res),
                type_at(old(tokens).stream(), old(tokens).index()),
            ),
        decreases old(tokens).stream().len() - old(tokens).index(), 4int,
    {
        if tokens.at(TokenType::LParen) {
            if tokens.list_open(TokenType::LParen, TokenType::RParen)? {
                let traits = parse_solid_type_items(tokens, TokenType::Plus, TokenType::RParen)?;
                Ok(Type::DynamicType(traits))
            } else {
                Ok(Type::Unit)
            }
        } else if tokens.at(TokenType::Pipe) {
            Ok(Type::FP(FunctionPointer::parse(tokens)?))
        } else if tokens.at(TokenType::LBrack) {
            tokens.consume(TokenType::LBrack)?;
            let inner = SolidType::parse(tokens)?;
            tokens.consume(TokenType::RBrack)?;
            Ok(Type::Array(inner))
        } else if tokens.at(TokenType::Ident) || tokens.at(TokenType::Self_) {
            Ok(Type::ActualType(SolidType::parse(tokens)?))
        } else {
            let expected = vec![
                TokenType::LParen,
                TokenType::Pipe,
                TokenType::LBrack,
                TokenType::Ident,
                TokenType::Self_,
            ];
            assert(expected@ =~= type_starts());
            Err(ParseError { expected, got: tokens.next() })
        }
    }
}

/// Parses types, `delim` between them, up to and with `end`.
#[verifier::rlimit(50)]
pub fn parse_type_items(tokens: &mut TokenCursor, delim: TokenType, end: TokenType) -> (res:
    ParseResult<Vec<Type>>)
    requires
        old(tokens).live(),
        delim != TokenType::EOF,
        end != TokenType::EOF,
    ensures
        parsed_as(
            *old(tokens),
            *final(tokens),
            types_result(res),
            type_items_at(old(tokens).stream(), old(tokens).index(), delim, end),
        ),
    decreases old(tokens).stream().len() - old(tokens).index(), 5int,
{
    let ghost ts = tokens.stream();
    let ghost start = tokens.index();
    let mut list: Vec<Type> = Vec::new();
    proof {
        lemma_prepend_empty(type_items_at(ts, start, delim, end));
        assert(type_views(list@) =~= Seq::empty());
    }
    loop
        invariant
            tokens.live(),
            tokens.stream() == ts,
            ts == old(tokens).stream(),
            start == old(tokens).index(),
            start <= tokens.index(),
            list.len() > 0 ==> start < tokens.index(),
            delim != TokenType::EOF,
            end != TokenType::EOF,
            type_items_at(ts, start, delim, end) == prepend(
                type_views(list@),
                type_items_at(ts, tokens.index(), delim, end),
            ),
        decreases ts.len() - tokens.index(),
    {
        let ghost front = type_views(list@);
        let item = Type::parse(tokens)?;
        let ghost value = item@;
        proof {
            lemma_prepend_push(
                front,
                value,
                type_items_at(ts, tokens.index() + 1, delim, end),
            );
        }
        list.push(item);
        assert(type_views(list@) =~= front.push(value));
        if tokens.accept(delim) {
            continue ;
        }
        assert(front + seq![value] =~= front.push(value));
        tokens.close_list(delim, end)?;
        return Ok(list);
    }
}

// ---------------------------------------------------------------------------
// The grammar of declarations
// ---------------------------------------------------------------------------

/// The bounds of a generic parameter from `pos` on: types with `+`
/// between them.
pub open spec fn constraint_items_at(ts: Seq<TokenView>, pos: int) -> Parsed<Seq<TypeView>>
    decreases ts.len() - pos,
{
    let item = type_at(ts, pos);
    if !progressed(ts, item, pos) {
        fail(item)
    } else if is_at(ts, item.1, TokenType::Plus) {
        prepend(seq![item.0->Ok_0], constraint_items_at(ts, item.1 + 1))
    } else {
        (Ok(seq![item.0->Ok_0]), item.1)
    }
}

/// A generic parameter at `pos`: a name, then its bounds after a colon if
/// one is written. Where no name is there, the error leaves `pos` as it is.
pub open spec fn generic_decl_at(ts: Seq<TokenView>, pos: int) -> Parsed<GenericDeclView> {
    let name = peek_expect_at(ts, pos, TokenType::Ident);
    if name.0 is Err {
        fail(name)
    } else if is_at(ts, pos + 1, TokenType::Colon) {
        map_ok(
            constraint_items_at(ts, pos + 2),
            |c: Seq<TypeView>| GenericDeclView { name: name.0->Ok_0, constraints: c },
        )
    } else {
        (Ok(GenericDeclView { name: name.0->Ok_0, constraints: Seq::empty() }), pos + 1)
    }
}

/// The generic parameters at `pos`, between `<` and `>`; none where no `<`
/// is there.
pub open spec fn generics_at(ts: Seq<TokenView>, pos: int) -> Parsed<Seq<GenericDeclView>> {
    optional_list_at(
        ts,
        pos,
        TokenType::LArrow,
        TokenType::RArrow,
        items_at::<GenericDecl>(ts, pos + 1, TokenType::Comma, TokenType::RArrow),
    )
}

/// `name: Type` at `pos`.
pub open spec fn parameter_at(ts: Seq<TokenView>, pos: int) -> Parsed<(TokenView, TypeView)> {
    let name = expect_at(ts, pos, TokenType::Ident);
    if name.0 is Err {
        fail(name)
    } else {
        let colon = expect_at(ts, pos + 1, TokenType::Colon);
        if colon.0 is Err {
            fail(colon)
        } else {
            map_ok(type_at(ts, pos + 2), |t: TypeView| (name.0->Ok_0, t))
        }
    }
}

/// A field at `pos`: `name: Type`.
pub open spec fn field_decl_at(ts: Seq<TokenView>, pos: int) -> Parsed<FieldDeclView> {
    map_ok(
        parameter_at(ts, pos),
        |p: (TokenView, TypeView)| FieldDeclView { name: p.0, type_of: p.1 },
    )
}

/// The fields at `pos`, between braces.
pub open spec fn fields_at(ts: Seq<TokenView>, pos: int) -> Parsed<Seq<FieldDeclView>> {
    list_at(
        ts,
        pos,
        TokenType::LBrace,
        TokenType::RBrace,
        items_at::<FieldDecl>(ts, pos + 1, TokenType::Comma, TokenType::RBrace),
    )
}

/// A signature at `pos`: `fn`, a name, generic parameters, parameters
/// between parentheses, and the result type after `->` if one is written.
pub open spec fn func_sig_at(ts: Seq<TokenView>, pos: int) -> Parsed<FuncSigView> {
    let keyword = expect_at(ts, pos, TokenType::Fn);
    if keyword.0 is Err {
        fail(keyword)
    } else {
        let name = expect_at(ts, pos + 1, TokenType::Ident);
        if name.0 is Err {
            fail(name)
        } else {
            let generics = generics_at(ts, pos + 2);
            if generics.0 is Err {
                fail(generics)
            } else {
                let parameters = list_at(
                    ts,
                    generics.1,
                    TokenType::LParen,
                    TokenType::RParen,
                    items_at::<(Token, Type)>(
                        ts,
                        generics.1 + 1,
                        TokenType::Comma,
                        TokenType::RParen,
                    ),
                );
                if parameters.0 is Err {
                    fail(parameters)
                } else {
                    let out = if is_at(ts, parameters.1, TokenType::SmallArrow) {
                        type_at(ts, parameters.1 + 1)
                    } else {
                        (Ok(TypeView::Unit), parameters.1)
                    };
                    map_ok(
                        out,
                        |t: TypeView|
                            FuncSigView {
                                name: name.0->Ok_0,
                                generics: generics.0->Ok_0,
                                parameters: parameters.0->Ok_0,
                                out: t,
                            },
                    )
                }
            }
        }
    }
}

/// A variant at `pos`: a name, then its fields between braces if there
/// are any.
pub open spec fn varient_decl_at(ts: Seq<TokenView>, pos: int) -> Parsed<VarientDeclView> {
    let name = expect_at(ts, pos, TokenType::Ident);
    if name.0 is Err {
        fail(name)
    } else {
        map_ok(
            optional_list_at(
                ts,
                pos + 1,
                TokenType::LBrace,
                TokenType::RBrace,
                items_at::<FieldDecl>(ts, pos + 2, TokenType::Comma, TokenType::RBrace),
            ),
            |f: Seq<FieldDeclView>| VarientDeclView { name: name.0->Ok_0, fields: f },
        )
    }
}

/// The keyword `keyword`, a name and generic parameters at `pos`: how a
/// struct, an enum and a trait start.
pub open spec fn header_at(ts: Seq<TokenView>, pos: int, keyword: TokenType) -> Parsed<
    (TokenView, Seq<GenericDeclView>),
> {
    let first = expect_at(ts, pos, keyword);
    if first.0 is Err {
        fail(first)
    } else {
        let name = expect_at(ts, pos + 1, TokenType::Ident);
        if name.0 is Err {
            fail(name)
        } else {
            map_ok(generics_at(ts, pos + 2), |g: Seq<GenericDeclView>| (name.0->Ok_0, g))
        }
    }
}

/// A struct at `pos`: `struct`, a name, generic parameters, and fields
/// between braces.
pub open spec fn struct_decl_at(ts: Seq<TokenView>, pos: int) -> Parsed<StructDeclView> {
    let header = header_at(ts, pos, TokenType::Struct);
    if header.0 is Err {
        fail(header)
    } else {
        map_ok(
            fields_at(ts, header.1),
            |f: Seq<FieldDeclView>|
                StructDeclView { name: header.0->Ok_0.0, generics: header.0->Ok_0.1, fields: f },
        )
    }
}

/// An enum at `pos`: `enum`, a name, generic parameters, and variants
/// between braces.
pub open spec fn enum_decl_at(ts: Seq<TokenView>, pos: int) -> Parsed<EnumDeclView> {
    let header = header_at(ts, pos, TokenType::Enum);
    if header.0 is Err {
        fail(header)
    } else {
        map_ok(
            list_at(
                ts,
                header.1,
                TokenType::LBrace,
                TokenType::RBrace,
                items_at::<VarientDecl>(ts, header.1 + 1, TokenType::Comma, TokenType::RBrace),
            ),
            |v: Seq<VarientDeclView>|
                EnumDeclView { name: header.0->Ok_0.0, generics: header.0->Ok_0.1, varients: v },
        )
    }
}

/// A trait at `pos`: `trait`, a name, generic parameters, and signatures
/// between braces, `;` between them.
pub open spec fn trait_decl_at(ts: Seq<TokenView>, pos: int) -> Parsed<TraitDeclView> {
    let header = header_at(ts, pos, TokenType::Trait);
    if header.0 is Err {
        fail(header)
    } else {
        map_ok(
            list_at(
                ts,
                header.1,
                TokenType::LBrace,
                TokenType::RBrace,
                items_at::<FuncSig>(ts, header.1 + 1, TokenType::SemiColon, TokenType::RBrace),
            ),
            |f: Seq<FuncSigView>|
                TraitDeclView { name: header.0->Ok_0.0, generics: header.0->Ok_0.1, funcs: f },
        )
    }
}

/// The values of parsed generic parameters are their views.
pub proof fn lemma_generic_decl_values(v: Seq<GenericDecl>)
    ensures
        values_of(v) == generic_decl_views(v),
{
    assert(values_of(v) =~= generic_decl_views(v));
}

/// The values of parsed parameters are their views.
pub proof fn lemma_parameter_values(v: Seq<(Token, Type)>)
    ensures
        values_of(v) == parameter_views(v),
{
    assert(values_of(v) =~= parameter_views(v));
}

/// The values of parsed fields are their views.
pub proof fn lemma_field_decl_values(v: Seq<FieldDecl>)
    ensures
        values_of(v) == field_decl_views(v),
{
    assert(values_of(v) =~= field_decl_views(v));
}

/// The values of parsed signatures are their views.
pub proof fn lemma_func_sig_values(v: Seq<FuncSig>)
    ensures
        values_of(v) == func_sig_views(v),
{
    assert(values_of(v) =~= func_sig_views(v));
}

/// The values of parsed variants are their views.
pub proof fn lemma_varient_decl_values(v: Seq<VarientDecl>)
    ensures
        values_of(v) == varient_decl_views(v),
{
    assert(values_of(v) =~= varient_decl_views(v));
}

/// Parses the bounds of a generic parameter.
fn parse_constraints(tokens: &mut TokenCursor) -> (res: ParseResult<Vec<Type>>)
    requires
        old(tokens).live(),
    ensures
        parsed_as(
            *old(tokens),
            *final(tokens),
            types_result(res),
            constraint_items_at(old(tokens).stream(), old(tokens).index()),
        ),
{
    let ghost ts = tokens.stream();
    let ghost start = tokens.index();
    let mut list: Vec<Type> = Vec::new();
    proof {
        lemma_prepend_empty(constraint_items_at(ts, start));
        assert(type_views(list@) =~= Seq::empty());
    }
    loop
        invariant
            tokens.live(),
            tokens.stream() == ts,
            ts == old(tokens).stream(),
            start == old(tokens).index(),
            start <= tokens.index(),
            list.len() > 0 ==> start < tokens.index(),
            constraint_items_at(ts, start) == prepend(
                type_views(list@),
                constraint_items_at(ts, tokens.index()),
            ),
        decreases ts.len() - tokens.index(),
    {
        let ghost front = type_views(list@);
        let item = Type::parse(tokens)?;
        proof {
            lemma_prepend_push(front, item@, constraint_items_at(ts, tokens.index() + 1));
        }
        list.push(item);
        assert(type_views(list@) =~= front.push(item@));
        if !tokens.accept(TokenType::Plus) {
            assert(front + seq![item@] =~= front.push(item@));
            return Ok(list);
        }
    }
}

impl GenericDecl {
    /// Parses a generic parameter.
    pub fn parse(tokens: &mut TokenCursor) -> (res: ParseResult<GenericDecl>)
        requires
            old(tokens).live(),
        ensures
            parsed_as(
                *old(tokens),
                *final(tokens),
                result_view(res),
                generic_decl_at(old(tokens).stream(), old(tokens).index()),
            ),
    {
        let name = tokens.peek_consume(TokenType::Ident)?;
        let constraints = if tokens.accept(TokenType::Colon) {
            parse_constraints(tokens)?
        } else {
            let empty: Vec<Type> = Vec::new();
            assert(type_views(empty@) =~= Seq::empty());
            empty
        };
        Ok(GenericDecl { name, constraints })
    }
}

/// Parses the generic parameters of a declaration, if it has any.
pub fn parse_generics(tokens: &mut TokenCursor) -> (res: ParseResult<Vec<GenericDecl>>)
    requires
        old(tokens).live(),
    ensures
        parsed_as_opt(
            *old(tokens),
            *final(tokens),
            result_view_by(res, |v: Vec<GenericDecl>| generic_decl_views(v@)),
            generics_at(old(tokens).stream(), old(tokens).index()),
        ),
{
    if tokens.optional_list_open(TokenType::LArrow, TokenType::RArrow) {
        let res = parse_items::<GenericDecl>(tokens, TokenType::Comma, TokenType::RArrow);
        proof {
            if res is Ok {
                lemma_generic_decl_values(res->Ok_0@);
            }
        }
        res
    } else {
        let empty: Vec<GenericDecl> = Vec::new();
        assert(generic_decl_views(empty@) =~= Seq::empty());
        Ok(empty)
    }
}

/// Parses `name: Type`.
pub fn parse_parameter(tokens: &mut TokenCursor) -> (res: ParseResult<(Token, Type)>)
    requires
        old(tokens).live(),
    ensures
        parsed_as(
            *old(tokens),
            *final(tokens),
            result_view_by(res, |p: (Token, Type)| (p.0@, type_view(p.1))),
            parameter_at(old(tokens).stream(), old(tokens).index()),
        ),
{
    let name = tokens.consume(TokenType::Ident)?;
    tokens.consume(TokenType::Colon)?;
    let type_ = Type::parse(tokens)?;
    Ok((name, type_))
}

impl FieldDecl {
    /// Parses a field.
    pub fn parse(tokens: &mut TokenCursor) -> (res: ParseResult<FieldDecl>)
        requires
            old(tokens).live(),
        ensures
            parsed_as(
                *old(tokens),
                *final(tokens),
                result_view(res),
                field_decl_at(old(tokens).stream(), old(tokens).index()),
            ),
    {
        let name = tokens.consume(TokenType::Ident)?;
        tokens.consume(TokenType::Colon)?;
        let type_ = Type::parse(tokens)?;
        Ok(FieldDecl { name, type_of: type_ })
    }
}

/// Parses fields between braces.
pub fn parse_fields(tokens: &mut TokenCursor) -> (res: ParseResult<Vec<FieldDecl>>)
    requires
        old(tokens).live(),
    ensures
        parsed_as(
            *old(tokens),
            *final(tokens),
            result_view_by(res, |v: Vec<FieldDecl>| field_decl_views(v@)),
            fields_at(old(tokens).stream(), old(tokens).index()),
        ),
{
    if tokens.list_open(TokenType::LBrace, TokenType::RBrace)? {
        let res = parse_items::<FieldDecl>(tokens, TokenType::Comma, TokenType::RBrace);
        proof {
            if res is Ok {
                lemma_field_decl_values(res->Ok_0@);
            }
        }
        res
    } else {
        let empty: Vec<FieldDecl> = Vec::new();
        assert(field_decl_views(empty@) =~= Seq::empty());
        Ok(empty)
    }
}

impl FuncSig {
    /// Parses a signature.
    pub fn parse(tokens: &mut TokenCursor) -> (res: ParseResult<FuncSig>)
        requires
            old(tokens).live(),
        ensures
            parsed_as(
                *old(tokens),
                *final(tokens),
                result_view(res),
                func_sig_at(old(tokens).stream(), old(tokens).index()),
            ),
    {
        tokens.consume(TokenType::Fn)?;
        let name = tokens.consume(TokenType::Ident)?;
        let generics = parse_generics(tokens)?;
        let parameters = if tokens.list_open(TokenType::LParen, TokenType::RParen)? {
            let list = parse_items::<(Token, Type)>(
                tokens,
                TokenType::Comma,
                TokenType::RParen,
            )?;
            proof {
                lemma_parameter_values(list@);
            }
            list
        } else {
            let empty: Vec<(Token, Type)> = Vec::new();
            assert(parameter_views(empty@) =~= Seq::empty());
            empty
        };
        let out = if tokens.accept(TokenType::SmallArrow) {
            Type::parse(tokens)?
        } else {
            Type::Unit
        };
        Ok(FuncSig { name, generics, parameters, out })
    }
}

impl VarientDecl {
    /// Parses a variant.
    pub fn parse(tokens: &mut TokenCursor) -> (res: ParseResult<VarientDecl>)
        requires
            old(tokens).live(),
        ensures
            parsed_as(
                *old(tokens),
                *final(tokens),
                result_view(res),
                varient_decl_at(old(tokens).stream(), old(tokens).index()),
            ),
    {
        let name = tokens.consume(TokenType::Ident)?;
        let fields = if tokens.optional_list_open(TokenType::LBrace, TokenType::RBrace) {
            let list = parse_items::<FieldDecl>(tokens, TokenType::Comma, TokenType::RBrace)?;
            proof {
                lemma_field_decl_values(list@);
            }
            list
        } else {
            let empty: Vec<FieldDecl> = Vec::new();
            assert(field_decl_views(empty@) =~= Seq::empty());
            empty
        };
        Ok(VarientDecl { name, fields })
    }
}

/// Parses the keyword `keyword`, a name and generic parameters.
fn parse_header(tokens: &mut TokenCursor, keyword: TokenType) -> (res: ParseResult<
    (Token, Vec<GenericDecl>),
>)
    requires
        old(tokens).live(),
        keyword != TokenType::EOF,
    ensures
        parsed_as(
            *old(tokens),
            *final(tokens),
            result_view_by(res, |h: (Token, Vec<GenericDecl>)| (h.0@, generic_decl_views(h.1@))),
            header_at(old(tokens).stream(), old(tokens).index(), keyword),
        ),
{
    tokens.consume(keyword)?;
    let name = tokens.consume(TokenType::Ident)?;
    let generics = parse_generics(tokens)?;
    Ok((name, generics))
}

impl StructDecl {
    /// Parses a struct.
    pub fn parse(tokens: &mut TokenCursor) -> (res: ParseResult<StructDecl>)
        requires
            old(tokens).live(),
        ensures
            parsed_as(
                *old(tokens),
                *final(tokens),
                result_view(res),
                struct_decl_at(old(tokens).stream(), old(tokens).index()),
            ),
    {
        let (name, generics) = parse_header(tokens, TokenType::Struct)?;
        let fields = parse_fields(tokens)?;
        Ok(StructDecl { name, generics, fields })
    }
}

impl EnumDecl {
    /// Parses an enum.
    pub fn parse(tokens: &mut TokenCursor) -> (res: ParseResult<EnumDecl>)
        requires
            old(tokens).live(),
        ensures
            parsed_as(
                *old(tokens),
                *final(tokens),
                result_view(res),
                enum_decl_at(old(tokens).stream(), old(tokens).index()),
            ),
    {
        let (name, generics) = parse_header(tokens, TokenType::Enum)?;
        let varients = if tokens.list_open(TokenType::LBrace, TokenType::RBrace)? {
            let list = parse_items::<VarientDecl>(tokens, TokenType::Comma, TokenType::RBrace)?;
            proof {
                lemma_varient_decl_values(list@);
            }
            list
        } else {
            let empty: Vec<VarientDecl> = Vec::new();
            assert(varient_decl_views(empty@) =~= Seq::empty());
            empty
        };
        Ok(EnumDecl { name, generics, varients })
    }
}

impl TraitDecl {
    /// Parses a trait.
    pub fn parse(tokens: &mut TokenCursor) -> (res: ParseResult<TraitDecl>)
        requires
            old(tokens).live(),
        ensures
            parsed_as(
                *old(tokens),
                *final(tokens),
                result_view(res),
                trait_decl_at(old(tokens).stream(), old(tokens).index()),
            ),
    {
        let (name, generics) = parse_header(tokens, TokenType::Trait)?;
        let funcs = if tokens.list_open(TokenType::LBrace, TokenType::RBrace)? {
            let list = parse_items::<FuncSig>(tokens, TokenType::SemiColon, TokenType::RBrace)?;
            proof {
                lemma_func_sig_values(list@);
            }
            list
        } else {
            let empty: Vec<FuncSig> = Vec::new();
            assert(func_sig_views(empty@) =~= Seq::empty());
            empty
        };
        Ok(TraitDecl { name, generics, funcs })
    }
}

/// A function at `pos`: a signature and a body between braces.
pub open spec fn function_decl_at(ts: Seq<TokenView>, pos: int) -> Parsed<FunctionDeclView>
    decreases ts.len() - pos, 18int,
{
    let sig = func_sig_at(ts, pos);
    if !progressed(ts, sig, pos) {
        fail(sig)
    } else if !is_at(ts, sig.1, TokenType::LBrace) {
        fail(expect_at(ts, sig.1, TokenType::LBrace))
    } else {
        map_ok(
            block_at(ts, sig.1 + 1),
            |b: Seq<StatmentView>| FunctionDeclView { sig: sig.0->Ok_0, body: b },
        )
    }
}

impl FunctionDecl {
    /// Parses a function.
    pub fn parse(tokens: &mut TokenCursor) -> (res: ParseResult<FunctionDecl>)
        requires
            old(tokens).live(),
        ensures
            parsed_as(
                *old(tokens),
                *final(tokens),
                result_view(res),
                function_decl_at(old(tokens).stream(), old(tokens).index()),
            ),
        decreases old(tokens).stream().len() - old(tokens).index(), 18int,
    {
        let sig = FuncSig::parse(tokens)?;
        tokens.consume(TokenType::LBrace)?;
        let body = parse_block(tokens)?;
        Ok(FunctionDecl { sig, body })
    }
}

/// Functions from `pos` on, up to and with the closing brace.
pub open spec fn functions_at(ts: Seq<TokenView>, pos: int) -> Parsed<Seq<FunctionDeclView>>
    decreases ts.len() - pos,
{
    if is_at(ts, pos, TokenType::RBrace) {
        (Ok(Seq::empty()), pos + 1)
    } else {
        let first = function_decl_at(ts, pos);
        if !progressed(ts, first, pos) {
            fail(first)
        } else {
            prepend(seq![first.0->Ok_0], functions_at(ts, first.1))
        }
    }
}

/// The type of an `impl` at `pos`, and before it the trait with `for`
/// where one is written.
pub open spec fn impl_target_at(ts: Seq<TokenView>, pos: int) -> Parsed<
    (Option<TypeView>, TypeView),
> {
    let first = type_at(ts, pos);
    if first.0 is Err {
        fail(first)
    } else if is_at(ts, first.1, TokenType::For) {
        map_ok(type_at(ts, first.1 + 1), |t: TypeView| (Some(first.0->Ok_0), t))
    } else {
        (Ok((None, first.0->Ok_0)), first.1)
    }
}

/// An `impl` at `pos`: `impl`, generic parameters, a type, or a trait,
/// `for` and a type, and functions between braces.
pub open spec fn impl_decl_at(ts: Seq<TokenView>, pos: int) -> Parsed<ImplDeclView> {
    let keyword = expect_at(ts, pos, TokenType::Impl);
    if keyword.0 is Err {
        fail(keyword)
    } else {
        let generics = generics_at(ts, pos + 1);
        if generics.0 is Err {
            fail(generics)
        } else {
            let target = impl_target_at(ts, generics.1);
            if target.0 is Err {
                fail(target)
            } else if !is_at(ts, target.1, TokenType::LBrace) {
                fail(expect_at(ts, target.1, TokenType::LBrace))
            } else {
                map_ok(
                    functions_at(ts, target.1 + 1),
                    |f: Seq<FunctionDeclView>|
                        ImplDeclView {
                            generics: generics.0->Ok_0,
                            trait_to_impl: target.0->Ok_0.0,
                            type_to_impl_on: target.0->Ok_0.1,
                            funcs: f,
                        },
                )
            }
        }
    }
}

/// The kinds that start a declaration.
pub open spec fn declaration_starts() -> Seq<TokenType> {
    seq![
        TokenType::Struct,
        TokenType::Enum,
        TokenType::Fn,
        TokenType::Trait,
        TokenType::Impl,
    ]
}

/// A declaration at `pos`, by its first token. Where none starts, the
/// error leaves `pos` as it is.
pub open spec fn declaration_at(ts: Seq<TokenView>, pos: int) -> Parsed<DeclarationView> {
    if is_at(ts, pos, TokenType::Struct) {
        map_ok(struct_decl_at(ts, pos), |d: StructDeclView| DeclarationView::StructDecl(d))
    } else if is_at(ts, pos, TokenType::Enum) {
        map_ok(enum_decl_at(ts, pos), |d: EnumDeclView| DeclarationView::EnumDecl(d))
    } else if is_at(ts, pos, TokenType::Fn) {
        map_ok(function_decl_at(ts, pos), |d: FunctionDeclView| DeclarationView::FunctionDecl(d))
    } else if is_at(ts, pos, TokenType::Trait) {
        map_ok(trait_decl_at(ts, pos), |d: TraitDeclView| DeclarationView::TraitDecl(d))
    } else if is_at(ts, pos, TokenType::Impl) {
        map_ok(impl_decl_at(ts, pos), |d: ImplDeclView| DeclarationView::ImplDecl(d))
    } else {
        (Err(ParseErrorView { expected: declaration_starts(), got: ts[pos] }), pos)
    }
}

/// Declarations from `pos` on, up to the `EOF` token.
pub open spec fn declarations_at(ts: Seq<TokenView>, pos: int) -> Parsed<Seq<DeclarationView>>
    decreases ts.len() - pos,
{
    if !(0 <= pos < ts.len()) || is_at(ts, pos, TokenType::EOF) {
        (Ok(Seq::empty()), pos)
    } else {
        let first = declaration_at(ts, pos);
        if !progressed(ts, first, pos) {
            fail(first)
        } else {
            prepend(seq![first.0->Ok_0], declarations_at(ts, first.1))
        }
    }
}

/// A program at `pos`: declarations up to the `EOF` token.
pub open spec fn program_at(ts: Seq<TokenView>, pos: int) -> Parsed<ProgramView> {
    map_ok(declarations_at(ts, pos), |c: Seq<DeclarationView>| ProgramView { code: c })
}

impl ImplDecl {
    /// Parses an `impl`.
    pub fn parse(tokens: &mut TokenCursor) -> (res: ParseResult<ImplDecl>)
        requires
            old(tokens).live(),
        ensures
            parsed_as(
                *old(tokens),
                *final(tokens),
                result_view(res),
                impl_decl_at(old(tokens).stream(), old(tokens).index()),
            ),
    {
        let ghost ts = tokens.stream();
        let ghost start = tokens.index();
        tokens.consume(TokenType::Impl)?;
        let generics = parse_generics(tokens)?;
        let mut type_to_impl_on = Type::parse(tokens)?;
        let mut trait_to_impl: Option<Type> = None;
        if tokens.accept(TokenType::For) {
            trait_to_impl = Some(type_to_impl_on);
            type_to_impl_on = Type::parse(tokens)?;
        }
        tokens.consume(TokenType::LBrace)?;
        let ghost body = tokens.index();
        let mut funcs: Vec<FunctionDecl> = Vec::new();
        proof {
            lemma_prepend_empty(functions_at(ts, body));
            assert(function_decl_views(funcs@) =~= Seq::empty());
        }
        loop
            invariant
                tokens.live(),
                tokens.stream() == ts,
                ts == old(tokens).stream(),
                start == old(tokens).index(),
                start < body <= tokens.index(),
                functions_at(ts, body) == prepend(
                    function_decl_views(funcs@),
                    functions_at(ts, tokens.index()),
                ),
                impl_decl_at(ts, start) == map_ok(
                    functions_at(ts, body),
                    |f: Seq<FunctionDeclView>|
                        ImplDeclView {
                            generics: generic_decl_views(generics@),
                            trait_to_impl: match trait_to_impl {
                                Some(t) => Some(type_view(t)),
                                None => None,
                            },
                            type_to_impl_on: type_view(type_to_impl_on),
                            funcs: f,
                        },
                ),
            decreases ts.len() - tokens.index(),
        {
            let ghost front = function_decl_views(funcs@);
            if tokens.accept(TokenType::RBrace) {
                assert(front + Seq::empty() =~= front);
                return Ok(ImplDecl { generics, trait_to_impl, type_to_impl_on, funcs });
            }
            let item = FunctionDecl::parse(tokens)?;
            proof {
                lemma_prepend_push(front, item@, functions_at(ts, tokens.index()));
            }
            funcs.push(item);
            assert(function_decl_views(funcs@) =~= front.push(item@));
        }
    }
}

impl Declaration {
    /// Parses a declaration.
    pub fn parse(tokens: &mut TokenCursor) -> (res: ParseResult<Declaration>)
        requires
            old(tokens).live(),
        ensures
            parsed_as(
                *old(tokens),
                *final(tokens),
                result_view(res),
                declaration_at(old(tokens).stream(), old(tokens).index()),
            ),
    {
        match tokens.peek_kind() {
            TokenType::Struct => Ok(Declaration::StructDecl(StructDecl::parse(tokens)?)),
            TokenType::Enum => Ok(Declaration::EnumDecl(EnumDecl::parse(tokens)?)),
            TokenType::Fn => Ok(Declaration::FunctionDecl(FunctionDecl::parse(tokens)?)),
            TokenType::Trait => Ok(Declaration::TraitDecl(TraitDecl::parse(tokens)?)),
            TokenType::Impl => Ok(Declaration::ImplDecl(ImplDecl::parse(tokens)?)),
            _ => {
                let expected = vec![
                    TokenType::Struct,
                    TokenType::Enum,
                    TokenType::Fn,
                    TokenType::Trait,
                    TokenType::Impl,
                ];
                assert(expected@ =~= declaration_starts());
                Err(ParseError { expected, got: tokens.peek().copy() })
            },
        }
    }
}

impl Program {
    /// Parses a whole token stream: declarations up to the `EOF` token.
    pub fn parse(tokens: &mut TokenCursor) -> (res: ParseResult<Program>)
        requires
            old(tokens).live(),
        ensures
            parsed_as_opt(
                *old(tokens),
                *final(tokens),
                result_view(res),
                program_at(old(tokens).stream(), old(tokens).index()),
            ),
            res is Ok ==> is_at(final(tokens).stream(), final(tokens).index(), TokenType::EOF),
    {
        let ghost ts = tokens.stream();
        let ghost start = tokens.index();
        let mut code: Vec<Declaration> = Vec::new();
        proof {
            lemma_prepend_empty(declarations_at(ts, start));
            assert(declaration_views(code@) =~= Seq::empty());
        }
        loop
            invariant
                tokens.live(),
                tokens.stream() == ts,
                ts == old(tokens).stream(),
                start == old(tokens).index(),
                start <= tokens.index(),
                declarations_at(ts, start) == prepend(
                    declaration_views(code@),
                    declarations_at(ts, tokens.index()),
                ),
            decreases ts.len() - tokens.index(),
        {
            let ghost front = declaration_views(code@);
            if tokens.at(TokenType::EOF) {
                assert(front + Seq::empty() =~= front);
                return Ok(Program { code });
            }
            let item = Declaration::parse(tokens)?;
            proof {
                lemma_prepend_push(front, item@, declarations_at(ts, tokens.index()));
            }
            code.push(item);
            assert(declaration_views(code@) =~= front.push(item@));
        }
    }
}

// ---------------------------------------------------------------------------
// Copies
// ---------------------------------------------------------------------------

/// A copy of `x` with the same value.
pub fn clone_program(x: &Program) -> (r: Program)
    ensures
        r@ == x@,
    decreases x,
{
    Program {
        code: clone_declarations(&x.code),
    }
}

impl Clone for Program {
    fn clone(&self) -> (r: Self)
        ensures
            r@ == self@,
    {
        clone_program(self)
    }
}

/// A copy of `x` with the same value.
pub fn clone_declaration(x: &Declaration) -> (r: Declaration)
    ensures
        r@ == x@,
    decreases x,
{
    match x {
        Declaration::StructDecl(a) => Declaration::StructDecl(clone_struct_decl(a)),
        Declaration::EnumDecl(a) => Declaration::EnumDecl(clone_enum_decl(a)),
        Declaration::FunctionDecl(a) => Declaration::FunctionDecl(clone_function_decl(a)),
        Declaration::TraitDecl(a) => Declaration::TraitDecl(clone_trait_decl(a)),
        Declaration::ImplDecl(a) => Declaration::ImplDecl(clone_impl_decl(a)),
    }
}

impl Clone for Declaration {
    fn clone(&self) -> (r: Self)
        ensures
            r@ == self@,
    {
        clone_declaration(self)
    }
}

/// A copy of `x` with the same value.
pub fn clone_impl_decl(x: &ImplDecl) -> (r: ImplDecl)
    ensures
        r@ == x@,
    decreases x,
{
    ImplDecl {
        generics: clone_generic_decls(&x.generics),
        trait_to_impl: match &x.trait_to_impl {
            Some(v) => Some(clone_type(v)),
            None => None,
        },
        type_to_impl_on: clone_type(&x.type_to_impl_on),
        funcs: clone_function_decls(&x.funcs),
    }
}

impl Clone for ImplDecl {
    fn clone(&self) -> (r: Self)
        ensures
            r@ == self@,
    {
        clone_impl_decl(self)
    }
}

/// A copy of `x` with the same value.
pub fn clone_trait_decl(x: &TraitDecl) -> (r: TraitDecl)
    ensures
        r@ == x@,
    decreases x,
{
    TraitDecl {
        name: x.name.copy(),
        generics: clone_generic_decls(&x.generics),
        funcs: clone_func_sigs(&x.funcs),
    }
}

impl Clone for TraitDecl {
    fn clone(&self) -> (r: Self)
        ensures
            r@ == self@,
    {
        clone_trait_decl(self)
    }
}

/// A copy of `x` with the same value.
pub fn clone_func_sig(x: &FuncSig) -> (r: FuncSig)
    ensures
        r@ == x@,
    decreases x,
{
    FuncSig {
        name: x.name.copy(),
        generics: clone_generic_decls(&x.generics),
        parameters: clone_parameters(&x.parameters),
        out: clone_type(&x.out),
    }
}

impl Clone for FuncSig {
    fn clone(&self) -> (r: Self)
        ensures
            r@ == self@,
    {
        clone_func_sig(self)
    }
}

/// A copy of `x` with the same value.
pub fn clone_function_decl(x: &FunctionDecl) -> (r: FunctionDecl)
    ensures
        r@ == x@,
    decreases x,
{
    FunctionDecl {
        sig: clone_func_sig(&x.sig),
        body: clone_statments(&x.body),
    }
}

impl Clone for FunctionDecl {
    fn clone(&self) -> (r: Self)
        ensures
            r@ == self@,
    {
        clone_function_decl(self)
    }
}

/// A copy of `x` with the same value.
pub fn clone_enum_decl(x: &EnumDecl) -> (r: EnumDecl)
    ensures
        r@ == x@,
    decreases x,
{
    EnumDecl {
        name: x.name.copy(),
        generics: clone_generic_decls(&x.generics),
        varients: clone_varient_decls(&x.varients),
    }
}

impl Clone for EnumDecl {
    fn clone(&self) -> (r: Self)
        ensures
            r@ == self@,
    {
        clone_enum_decl(self)
    }
}

/// A copy of `x` with the same value.
pub fn clone_varient_decl(x: &VarientDecl) -> (r: VarientDecl)
    ensures
        r@ == x@,
    decreases x,
{
    VarientDecl {
        name: x.name.copy(),
        fields: clone_field_decls(&x.fields),
    }
}

impl Clone for VarientDecl {
    fn clone(&self) -> (r: Self)
        ensures
            r@ == self@,
    {
        clone_varient_decl(self)
    }
}

/// A copy of `x` with the same value.
pub fn clone_struct_decl(x: &StructDecl) -> (r: StructDecl)
    ensures
        r@ == x@,
    decreases x,
{
    StructDecl {
        name: x.name.copy(),
        generics: clone_generic_decls(&x.generics),
        fields: clone_field_decls(&x.fields),
    }
}

impl Clone for StructDecl {
    fn clone(&self) -> (r: Self)
        ensures
            r@ == self@,
    {
        clone_struct_decl(self)
    }
}

/// A copy of `x` with the same value.
pub fn clone_generic_decl(x: &GenericDecl) -> (r: GenericDecl)
    ensures
        r@ == x@,
    decreases x,
{
    GenericDecl {
        name: x.name.copy(),
        constraints: clone_types(&x.constraints),
    }
}

impl Clone for GenericDecl {
    fn clone(&self) -> (r: Self)
        ensures
            r@ == self@,
    {
        clone_generic_decl(self)
    }
}

/// A copy of `x` with the same value.
pub fn clone_field_decl(x: &FieldDecl) -> (r: FieldDecl)
    ensures
        r@ == x@,
    decreases x,
{
    FieldDecl {
        name: x.name.copy(),
        type_of: clone_type(&x.type_of),
    }
}

impl Clone for FieldDecl {
    fn clone(&self) -> (r: Self)
        ensures
            r@ == self@,
    {
        clone_field_decl(self)
    }
}

/// A copy of `x` with the same value.
pub fn clone_type(x: &Type) -> (r: Type)
    ensures
        r@ == x@,
    decreases x,
{
    match x {
        Type::ActualType(a) => Type::ActualType(clone_solid_type(a)),
        Type::Unit => Type::Unit,
        Type::Array(a) => Type::Array(clone_solid_type(a)),
        Type::FP(a) => Type::FP(clone_function_pointer(a)),
        Type::DynamicType(a) => Type::DynamicType(clone_solid_types(a)),
    }
}

impl Clone for Type {
    fn clone(&self) -> (r: Self)
        ensures
            r@ == self@,
    {
        clone_type(self)
    }
}

/// A copy of `x` with the same value.
pub fn clone_function_pointer(x: &FunctionPointer) -> (r: FunctionPointer)
    ensures
        r@ == x@,
    decreases x,
{
    FunctionPointer {
        args: clone_types(&x.args),
        out: Box::new(clone_type(&*x.out)),
    }
}

impl Clone for FunctionPointer {
    fn clone(&self) -> (r: Self)
        ensures
            r@ == self@,
    {
        clone_function_pointer(self)
    }
}

/// A copy of `x` with the same value.
pub fn clone_solid_type(x: &SolidType) -> (r: SolidType)
    ensures
        r@ == x@,
    decreases x,
{
    SolidType {
        name: x.name.copy(),
        generics: clone_types(&x.generics),
    }
}

impl Clone for SolidType {
    fn clone(&self) -> (r: Self)
        ensures
            r@ == self@,
    {
        clone_solid_type(self)
    }
}

/// Copies of the items of `v`, with the same values.
pub fn clone_declarations(v: &Vec<Declaration>) -> (r: Vec<Declaration>)
    ensures
        declaration_views(r@) == declaration_views(v@),
    decreases v,
{
    let mut out: Vec<Declaration> = Vec::new();
    let mut i: usize = 0;
    while i < v.len()
        invariant
            i <= v.len(),
            out.len() == i,
            forall|j: int| 0 <= j < i ==> declaration_views(out@)[j] == declaration_views(v@)[j],
        decreases v.len() - i,
    {
        let ghost before = out@;
        let item = clone_declaration(&v[i]);
        out.push(item);
        assert forall|j: int|
            0 <= j < i + 1 implies
            declaration_views(out@)[j] == declaration_views(v@)[j]
        by {
            if j < i {
                assert(out@[j] == before[j]);
                assert(declaration_views(before)[j] == declaration_views(v@)[j]);
            }
        }
        i = i + 1;
    }
    assert(declaration_views(out@) =~= declaration_views(v@));
    out
}

/// Copies of the items of `v`, with the same values.
pub fn clone_function_decls(v: &Vec<FunctionDecl>) -> (r: Vec<FunctionDecl>)
    ensures
        function_decl_views(r@) == function_decl_views(v@),
    decreases v,
{
    let mut out: Vec<FunctionDecl> = Vec::new();
    let mut i: usize = 0;
    while i < v.len()
        invariant
            i <= v.len(),
            out.len() == i,
            forall|j: int| 0 <= j < i
                ==> function_decl_views(out@)[j] == function_decl_views(v@)[j],
        decreases v.len() - i,
    {
        let ghost before = out@;
        let item = clone_function_decl(&v[i]);
        out.push(item);
        assert forall|j: int|
            0 <= j < i + 1 implies
            function_decl_views(out@)[j] == function_decl_views(v@)[j]
        by {
            if j < i {
                assert(out@[j] == before[j]);
                assert(function_decl_views(before)[j] == function_decl_views(v@)[j]);
            }
        }
        i = i + 1;
    }
    assert(function_decl_views(out@) =~= function_decl_views(v@));
    out
}

/// Copies of the items of `v`, with the same values.
pub fn clone_func_sigs(v: &Vec<FuncSig>) -> (r: Vec<FuncSig>)
    ensures
        func_sig_views(r@) == func_sig_views(v@),
    decreases v,
{
    let mut out: Vec<FuncSig> = Vec::new();
    let mut i: usize = 0;
    while i < v.len()
        invariant
            i <= v.len(),
            out.len() == i,
            forall|j: int| 0 <= j < i ==> func_sig_views(out@)[j] == func_sig_views(v@)[j],
        decreases v.len() - i,
    {
        let ghost before = out@;
        let item = clone_func_sig(&v[i]);
        out.push(item);
        assert forall|j: int|
            0 <= j < i + 1 implies
            func_sig_views(out@)[j] == func_sig_views(v@)[j]
        by {
            if j < i {
                assert(out@[j] == before[j]);
                assert(func_sig_views(before)[j] == func_sig_views(v@)[j]);
            }
        }
        i = i + 1;
    }
    assert(func_sig_views(out@) =~= func_sig_views(v@));
    out
}

/// Copies of the items of `v`, with the same values.
pub fn clone_varient_decls(v: &Vec<VarientDecl>) -> (r: Vec<VarientDecl>)
    ensures
        varient_decl_views(r@) == varient_decl_views(v@),
    decreases v,
{
    let mut out: Vec<VarientDecl> = Vec::new();
    let mut i: usize = 0;
    while i < v.len()
        invariant
            i <= v.len(),
            out.len() == i,
            forall|j: int| 0 <= j < i ==> varient_decl_views(out@)[j] == varient_decl_views(v@)[j],
        decreases v.len() - i,
    {
        let ghost before = out@;
        let item = clone_varient_decl(&v[i]);
        out.push(item);
        assert forall|j: int|
            0 <= j < i + 1 implies
            varient_decl_views(out@)[j] == varient_decl_views(v@)[j]
        by {
            if j < i {
                assert(out@[j] == before[j]);
                assert(varient_decl_views(before)[j] == varient_decl_views(v@)[j]);
            }
        }
        i = i + 1;
    }
    assert(varient_decl_views(out@) =~= varient_decl_views(v@));
    out
}

/// Copies of the items of `v`, with the same values.
pub fn clone_generic_decls(v: &Vec<GenericDecl>) -> (r: Vec<GenericDecl>)
    ensures
        generic_decl_views(r@) == generic_decl_views(v@),
    decreases v,
{
    let mut out: Vec<GenericDecl> = Vec::new();
    let mut i: usize = 0;
    while i < v.len()
        invariant
            i <= v.len(),
            out.len() == i,
            forall|j: int| 0 <= j < i ==> generic_decl_views(out@)[j] == generic_decl_views(v@)[j],
        decreases v.len() - i,
    {
        let ghost before = out@;
        let item = clone_generic_decl(&v[i]);
        out.push(item);
        assert forall|j: int|
            0 <= j < i + 1 implies
            generic_decl_views(out@)[j] == generic_decl_views(v@)[j]
        by {
            if j < i {
                assert(out@[j] == before[j]);
                assert(generic_decl_views(before)[j] == generic_decl_views(v@)[j]);
            }
        }
        i = i + 1;
    }
    assert(generic_decl_views(out@) =~= generic_decl_views(v@));
    out
}

/// Copies of the items of `v`, with the same values.
pub fn clone_field_decls(v: &Vec<FieldDecl>) -> (r: Vec<FieldDecl>)
    ensures
        field_decl_views(r@) == field_decl_views(v@),
    decreases v,
{
    let mut out: Vec<FieldDecl> = Vec::new();
    let mut i: usize = 0;
    while i < v.len()
        invariant
            i <= v.len(),
            out.len() == i,
            forall|j: int| 0 <= j < i ==> field_decl_views(out@)[j] == field_decl_views(v@)[j],
        decreases v.len() - i,
    {
        let ghost before = out@;
        let item = clone_field_decl(&v[i]);
        out.push(item);
        assert forall|j: int|
            0 <= j < i + 1 implies
            field_decl_views(out@)[j] == field_decl_views(v@)[j]
        by {
            if j < i {
                assert(out@[j] == before[j]);
                assert(field_decl_views(before)[j] == field_decl_views(v@)[j]);
            }
        }
        i = i + 1;
    }
    assert(field_decl_views(out@) =~= field_decl_views(v@));
    out
}

/// Copies of the items of `v`, with the same values.
pub fn clone_parameters(v: &Vec<(Token, Type)>) -> (r: Vec<(Token, Type)>)
    ensures
        parameter_views(r@) == parameter_views(v@),
    decreases v,
{
    let mut out: Vec<(Token, Type)> = Vec::new();
    let mut i: usize = 0;
    while i < v.len()
        invariant
            i <= v.len(),
            out.len() == i,
            forall|j: int| 0 <= j < i ==> parameter_views(out@)[j] == parameter_views(v@)[j],
        decreases v.len() - i,
    {
        let ghost before = out@;
        let item = (v[i].0.copy(), clone_type(&v[i].1));
        out.push(item);
        assert forall|j: int|
            0 <= j < i + 1 implies
            parameter_views(out@)[j] == parameter_views(v@)[j]
        by {
            if j < i {
                assert(out@[j] == before[j]);
                assert(parameter_views(before)[j] == parameter_views(v@)[j]);
            }
        }
        i = i + 1;
    }
    assert(parameter_views(out@) =~= parameter_views(v@));
    out
}

/// Copies of the items of `v`, with the same values.
pub fn clone_types(v: &Vec<Type>) -> (r: Vec<Type>)
    ensures
        type_views(r@) == type_views(v@),
    decreases v,
{
    let mut out: Vec<Type> = Vec::new();
    let mut i: usize = 0;
    while i < v.len()
        invariant
            i <= v.len(),
            out.len() == i,
            forall|j: int| 0 <= j < i ==> type_views(out@)[j] == type_views(v@)[j],
        decreases v.len() - i,
    {
        let ghost before = out@;
        let item = clone_type(&v[i]);
        out.push(item);
        assert forall|j: int| 0 <= j < i + 1 implies type_views(out@)[j] == type_views(v@)[j] by {
            if j < i {
                assert(out@[j] == before[j]);
                assert(type_views(before)[j] == type_views(v@)[j]);
            }
        }
        i = i + 1;
    }
    assert(type_views(out@) =~= type_views(v@));
    out
}

/// Copies of the items of `v`, with the same values.
pub fn clone_solid_types(v: &Vec<SolidType>) -> (r: Vec<SolidType>)
    ensures
        solid_type_views(r@) == solid_type_views(v@),
    decreases v,
{
    let mut out: Vec<SolidType> = Vec::new();
    let mut i: usize = 0;
    while i < v.len()
        invariant
            i <= v.len(),
            out.len() == i,
            forall|j: int| 0 <= j < i ==> solid_type_views(out@)[j] == solid_type_views(v@)[j],
        decreases v.len() - i,
    {
        let ghost before = out@;
        let item = clone_solid_type(&v[i]);
        out.push(item);
        assert forall|j: int|
            0 <= j < i + 1 implies
            solid_type_views(out@)[j] == solid_type_views(v@)[j]
        by {
            if j < i {
                assert(out@[j] == before[j]);
                assert(solid_type_views(before)[j] == solid_type_views(v@)[j]);
            }
        }
        i = i + 1;
    }
    assert(solid_type_views(out@) =~= solid_type_views(v@));
    out
}

// ---------------------------------------------------------------------------
// What the generic list parsers can parse
// ---------------------------------------------------------------------------

impl Parsable for Declaration {
    type Value = DeclarationView;

    open spec fn value(&self) -> DeclarationView {
        self@
    }

    open spec fn parsed_at(ts: Seq<TokenView>, pos: int) -> Parsed<DeclarationView> {
        declaration_at(ts, pos)
    }

    fn parse(tokens: &mut TokenCursor) -> (res: ParseResult<Declaration>) {
        Declaration::parse(tokens)
    }
}

impl Parsable for ImplDecl {
    type Value = ImplDeclView;

    open spec fn value(&self) -> ImplDeclView {
        self@
    }

    open spec fn parsed_at(ts: Seq<TokenView>, pos: int) -> Parsed<ImplDeclView> {
        impl_decl_at(ts, pos)
    }

    fn parse(tokens: &mut TokenCursor) -> (res: ParseResult<ImplDecl>) {
        ImplDecl::parse(tokens)
    }
}

impl Parsable for FunctionDecl {
    type Value = FunctionDeclView;

    open spec fn value(&self) -> FunctionDeclView {
        self@
    }

    open spec fn parsed_at(ts: Seq<TokenView>, pos: int) -> Parsed<FunctionDeclView> {
        function_decl_at(ts, pos)
    }

    fn parse(tokens: &mut TokenCursor) -> (res: ParseResult<FunctionDecl>) {
        FunctionDecl::parse(tokens)
    }
}

impl Parsable for TraitDecl {
    type Value = TraitDeclView;

    open spec fn value(&self) -> TraitDeclView {
        self@
    }

    open spec fn parsed_at(ts: Seq<TokenView>, pos: int) -> Parsed<TraitDeclView> {
        trait_decl_at(ts, pos)
    }

    fn parse(tokens: &mut TokenCursor) -> (res: ParseResult<TraitDecl>) {
        TraitDecl::parse(tokens)
    }
}

impl Parsable for FuncSig {
    type Value = FuncSigView;

    open spec fn value(&self) -> FuncSigView {
        self@
    }

    open spec fn parsed_at(ts: Seq<TokenView>, pos: int) -> Parsed<FuncSigView> {
        func_sig_at(ts, pos)
    }

    fn parse(tokens: &mut TokenCursor) -> (res: ParseResult<FuncSig>) {
        FuncSig::parse(tokens)
    }
}

impl Parsable for (Token, Type) {
    type Value = (TokenView, TypeView);

    open spec fn value(&self) -> (TokenView, TypeView) {
        (self.0@, type_view(self.1))
    }

    open spec fn parsed_at(ts: Seq<TokenView>, pos: int) -> Parsed<(TokenView, TypeView)> {
        parameter_at(ts, pos)
    }

    fn parse(tokens: &mut TokenCursor) -> (res: ParseResult<(Token, Type)>) {
        parse_parameter(tokens)
    }
}

impl Parsable for EnumDecl {
    type Value = EnumDeclView;

    open spec fn value(&self) -> EnumDeclView {
        self@
    }

    open spec fn parsed_at(ts: Seq<TokenView>, pos: int) -> Parsed<EnumDeclView> {
        enum_decl_at(ts, pos)
    }

    fn parse(tokens: &mut TokenCursor) -> (res: ParseResult<EnumDecl>) {
        EnumDecl::parse(tokens)
    }
}

impl Parsable for VarientDecl {
    type Value = VarientDeclView;

    open spec fn value(&self) -> VarientDeclView {
        self@
    }

    open spec fn parsed_at(ts: Seq<TokenView>, pos: int) -> Parsed<VarientDeclView> {
        varient_decl_at(ts, pos)
    }

    fn parse(tokens: &mut TokenCursor) -> (res: ParseResult<VarientDecl>) {
        VarientDecl::parse(tokens)
    }
}

impl Parsable for StructDecl {
    type Value = StructDeclView;

    open spec fn value(&self) -> StructDeclView {
        self@
    }

    open spec fn parsed_at(ts: Seq<TokenView>, pos: int) -> Parsed<StructDeclView> {
        struct_decl_at(ts, pos)
    }

    fn parse(tokens: &mut TokenCursor) -> (res: ParseResult<StructDecl>) {
        StructDecl::parse(tokens)
    }
}

impl Parsable for FieldDecl {
    type Value = FieldDeclView;

    open spec fn value(&self) -> FieldDeclView {
        self@
    }

    open spec fn parsed_at(ts: Seq<TokenView>, pos: int) -> Parsed<FieldDeclView> {
        field_decl_at(ts, pos)
    }

    fn parse(tokens: &mut TokenCursor) -> (res: ParseResult<FieldDecl>) {
        FieldDecl::parse(tokens)
    }
}

impl Parsable for GenericDecl {
    type Value = GenericDeclView;

    open spec fn value(&self) -> GenericDeclView {
        self@
    }

    open spec fn parsed_at(ts: Seq<TokenView>, pos: int) -> Parsed<GenericDeclView> {
        generic_decl_at(ts, pos)
    }

    fn parse(tokens: &mut TokenCursor) -> (res: ParseResult<GenericDecl>) {
        GenericDecl::parse(tokens)
    }
}

impl Parsable for Type {
    type Value = TypeView;

    open spec fn value(&self) -> TypeView {
        self@
    }

    open spec fn parsed_at(ts: Seq<TokenView>, pos: int) -> Parsed<TypeView> {
        type_at(ts, pos)
    }

    fn parse(tokens: &mut TokenCursor) -> (res: ParseResult<Type>) {
        Type::parse(tokens)
    }
}

impl Parsable for FunctionPointer {
    type Value = FunctionPointerView;

    open spec fn value(&self) -> FunctionPointerView {
        self@
    }

    open spec fn parsed_at(ts: Seq<TokenView>, pos: int) -> Parsed<FunctionPointerView> {
        function_pointer_at(ts, pos)
    }

    fn parse(tokens: &mut TokenCursor) -> (res: ParseResult<FunctionPointer>) {
        FunctionPointer::parse(tokens)
    }
}

impl Parsable for SolidType {
    type Value = SolidTypeView;

    open spec fn value(&self) -> SolidTypeView {
        self@
    }

    open spec fn parsed_at(ts: Seq<TokenView>, pos: int) -> Parsed<SolidTypeView> {
        solid_type_at(ts, pos)
    }

    fn parse(tokens: &mut TokenCursor) -> (res: ParseResult<SolidType>) {
        SolidType::parse(tokens)
    }
}

} // verus!
