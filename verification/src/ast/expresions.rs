//! Expressions: the tree, its mathematical value, the model of its grammar
//! and of operator precedence, and the parser.

use crate::ast::decl::{
    clone_solid_types, clone_types, parse_solid_type_items, parse_type_items, solid_type_items_at,
    solid_type_views, type_items_at, type_views, SolidType, SolidTypeView, Type, TypeView,
};
use crate::ast::parser::{
    close_at, expect_at, fail, is_at, kind_at, lemma_prepend_empty, lemma_prepend_push, list_at,
    map_ok, one, parsed_as, parsed_as_opt, prepend, progressed, result_view, result_view_by,
    Parsable, ParseError, ParseErrorView, ParseResult, Parsed, TokenCursor,
};
use crate::ast::precedence::{
    chain_operands, chain_operators, lemma_fold_operators_is_tree, tree_of,
};
use crate::ast::statments::{clone_statments, block_at, statment_views, Block, StatmentView};
use crate::scanner::{Token, TokenType, TokenView};
use vstd::prelude::*;

verus! {

/// A prefix operator.
#[derive(Debug, Clone, Copy, PartialEq, Eq, Structural)]
pub enum UnaryOp {
    Negate,
    Not,
}

/// A binary operator.
#[derive(Debug, Clone, Copy, PartialEq, Eq, Structural)]
pub enum BinaryOp {
    Add,
    Subtract,
    Mult,
    Div,
    Mod,
    Lessthan,
    Greaterthan,
    GE,
    LE,
    Equal,
    NE,
    LogicalAnd,
    LogicalOr,
    Assign,
    BitwiseOr,
    BitwiseAnd,
    SHL,
    SHR,
}

/// An array constructor: its elements.
pub type ArrayConstructor = Vec<Expresion>;

/// A parenthesised expression.
pub type Parens = Box<Expresion>;

/// A variable, by its name.
pub type VarAccess = Token;

/// An expression.
#[derive(Debug)]
pub enum Expresion {
    IntLitteral(Token),
    FloatLitteral(Token),
    StringLitteral(Token),
    TypeAssocatedFunction(TypeAssocatedFunction),
    VarAccess(VarAccess),
    True,
    False,
    FunctionCall(FuncCall),
    FieldAcess(FieldAccess),
    Index(Index),
    Constructor(Constructor),
    Cast(Cast),
    Parens(Parens),
    Unary(Unary),
    Binary(Binary),
    Block(Block),
}

/// The mathematical value of an [`Expresion`].
pub ghost enum ExpresionView {
    IntLitteral(TokenView),
    FloatLitteral(TokenView),
    StringLitteral(TokenView),
    TypeAssocatedFunction(TypeAssocatedFunctionView),
    VarAccess(TokenView),
    True,
    False,
    FunctionCall(FuncCallView),
    FieldAcess(FieldAccessView),
    Index(IndexView),
    Constructor(ConstructorView),
    Cast(CastView),
    Parens(Box<ExpresionView>),
    Unary(UnaryView),
    Binary(BinaryView),
    Block(Seq<StatmentView>),
}

/// The value of `x`.
pub open spec fn expresion_view(x: Expresion) -> ExpresionView
    decreases x,
{
    match x {
        Expresion::IntLitteral(a) => ExpresionView::IntLitteral(a@),
        Expresion::FloatLitteral(a) => ExpresionView::FloatLitteral(a@),
        Expresion::StringLitteral(a) => ExpresionView::StringLitteral(a@),
        Expresion::TypeAssocatedFunction(a) => {
            ExpresionView::TypeAssocatedFunction(type_assocated_function_view(a))
        },
        Expresion::VarAccess(a) => ExpresionView::VarAccess(a@),
        Expresion::True => ExpresionView::True,
        Expresion::False => ExpresionView::False,
        Expresion::FunctionCall(a) => ExpresionView::FunctionCall(func_call_view(a)),
        Expresion::FieldAcess(a) => ExpresionView::FieldAcess(field_access_view(a)),
        Expresion::Index(a) => ExpresionView::Index(index_view(a)),
        Expresion::Constructor(a) => ExpresionView::Constructor(constructor_view(a)),
        Expresion::Cast(a) => ExpresionView::Cast(cast_view(a)),
        Expresion::Parens(a) => ExpresionView::Parens(Box::new(expresion_view(*a))),
        Expresion::Unary(a) => ExpresionView::Unary(unary_view(a)),
        Expresion::Binary(a) => ExpresionView::Binary(binary_view(a)),
        Expresion::Block(a) => ExpresionView::Block(statment_views(a@)),
    }
}

impl View for Expresion {
    type V = ExpresionView;

    open spec fn view(&self) -> ExpresionView {
        expresion_view(*self)
    }
}

/// `Type::function`.
#[derive(Debug, Clone)]
pub struct TypeAssocatedFunction {
    pub type_: Token,
    pub func_name: Token,
}

/// The mathematical value of a [`TypeAssocatedFunction`].
pub ghost struct TypeAssocatedFunctionView {
    pub type_: TokenView,
    pub func_name: TokenView,
}

/// The value of `x`.
pub open spec fn type_assocated_function_view(x: TypeAssocatedFunction) -> TypeAssocatedFunctionView
    decreases x,
{
    TypeAssocatedFunctionView {
        type_: x.type_@,
        func_name: x.func_name@,
    }
}

impl View for TypeAssocatedFunction {
    type V = TypeAssocatedFunctionView;

    open spec fn view(&self) -> TypeAssocatedFunctionView {
        type_assocated_function_view(*self)
    }
}

/// A constructor, with the arena written after `@` if there is one.
#[derive(Debug)]
pub struct Constructor {
    pub areana: Option<Box<Expresion>>,
    pub object_to_construct: ConstructorType,
}

/// The mathematical value of a [`Constructor`].
pub ghost struct ConstructorView {
    pub areana: Option<Box<ExpresionView>>,
    pub object_to_construct: ConstructorTypeView,
}

/// The value of `x`.
pub open spec fn constructor_view(x: Constructor) -> ConstructorView
    decreases x,
{
    ConstructorView {
        areana: match x.areana { Some(v) => Some(Box::new(expresion_view(*v))), None => None },
        object_to_construct: constructor_type_view(x.object_to_construct),
    }
}

impl View for Constructor {
    type V = ConstructorView;

    open spec fn view(&self) -> ConstructorView {
        constructor_view(*self)
    }
}

/// What a constructor builds.
#[derive(Debug)]
pub enum ConstructorType {
    StructConstructor(StructConstructor),
    EnumConstructor(EnumConstructor),
    ArrayConstructor(ArrayConstructor),
}

/// The mathematical value of a [`ConstructorType`].
pub ghost enum ConstructorTypeView {
    StructConstructor(StructConstructorView),
    EnumConstructor(EnumConstructorView),
    ArrayConstructor(Seq<ExpresionView>),
}

/// The value of `x`.
pub open spec fn constructor_type_view(x: ConstructorType) -> ConstructorTypeView
    decreases x,
{
    match x {
        ConstructorType::StructConstructor(a) => {
            ConstructorTypeView::StructConstructor(struct_constructor_view(a))
        },
        ConstructorType::EnumConstructor(a) => {
            ConstructorTypeView::EnumConstructor(enum_constructor_view(a))
        },
        ConstructorType::ArrayConstructor(a) => {
            ConstructorTypeView::ArrayConstructor(expresion_views(a@))
        },
    }
}

impl View for ConstructorType {
    type V = ConstructorTypeView;

    open spec fn view(&self) -> ConstructorTypeView {
        constructor_type_view(*self)
    }
}

/// `expr: (Trait + Trait)`.
#[derive(Debug)]
pub struct Cast {
    pub expr: Box<Expresion>,
    pub traits_to_cast_to: Vec<SolidType>,
}

/// The mathematical value of a [`Cast`].
pub ghost struct CastView {
    pub expr: Box<ExpresionView>,
    pub traits_to_cast_to: Seq<SolidTypeView>,
}

/// The value of `x`.
pub open spec fn cast_view(x: Cast) -> CastView
    decreases x,
{
    CastView {
        expr: Box::new(expresion_view(*x.expr)),
        traits_to_cast_to: solid_type_views(x.traits_to_cast_to@),
    }
}

impl View for Cast {
    type V = CastView;

    open spec fn view(&self) -> CastView {
        cast_view(*self)
    }
}

/// `Enum::Variant { name: value, .. }`.
#[derive(Debug)]
pub struct EnumConstructor {
    pub enum_name: Token,
    pub varient_name: Token,
    pub fields: Vec<FieldConstructor>,
}

/// The mathematical value of an [`EnumConstructor`].
pub ghost struct EnumConstructorView {
    pub enum_name: TokenView,
    pub varient_name: TokenView,
    pub fields: Seq<FieldConstructorView>,
}

/// The value of `x`.
pub open spec fn enum_constructor_view(x: EnumConstructor) -> EnumConstructorView
    decreases x,
{
    EnumConstructorView {
        enum_name: x.enum_name@,
        varient_name: x.varient_name@,
        fields: field_constructor_views(x.fields@),
    }
}

impl View for EnumConstructor {
    type V = EnumConstructorView;

    open spec fn view(&self) -> EnumConstructorView {
        enum_constructor_view(*self)
    }
}

/// `Struct { name: value, .. }`.
#[derive(Debug)]
pub struct StructConstructor {
    pub struct_name: Token,
    pub fields: Vec<FieldConstructor>,
}

/// The mathematical value of a [`StructConstructor`].
pub ghost struct StructConstructorView {
    pub struct_name: TokenView,
    pub fields: Seq<FieldConstructorView>,
}

/// The value of `x`.
pub open spec fn struct_constructor_view(x: StructConstructor) -> StructConstructorView
    decreases x,
{
    StructConstructorView {
        struct_name: x.struct_name@,
        fields: field_constructor_views(x.fields@),
    }
}

impl View for StructConstructor {
    type V = StructConstructorView;

    open spec fn view(&self) -> StructConstructorView {
        struct_constructor_view(*self)
    }
}

/// `name: value`.
#[derive(Debug)]
pub struct FieldConstructor {
    pub name: Token,
    pub value: Box<Expresion>,
}

/// The mathematical value of a [`FieldConstructor`].
pub ghost struct FieldConstructorView {
    pub name: TokenView,
    pub value: Box<ExpresionView>,
}

/// The value of `x`.
pub open spec fn field_constructor_view(x: FieldConstructor) -> FieldConstructorView
    decreases x,
{
    FieldConstructorView {
        name: x.name@,
        value: Box::new(expresion_view(*x.value)),
    }
}

impl View for FieldConstructor {
    type V = FieldConstructorView;

    open spec fn view(&self) -> FieldConstructorView {
        field_constructor_view(*self)
    }
}

/// `expr[index]`.
#[derive(Debug)]
pub struct Index {
    pub expr: Box<Expresion>,
    pub index: Box<Expresion>,
}

/// The mathematical value of an [`Index`].
pub ghost struct IndexView {
    pub expr: Box<ExpresionView>,
    pub index: Box<ExpresionView>,
}

/// The value of `x`.
pub open spec fn index_view(x: Index) -> IndexView
    decreases x,
{
    IndexView {
        expr: Box::new(expresion_view(*x.expr)),
        index: Box::new(expresion_view(*x.index)),
    }
}

impl View for Index {
    type V = IndexView;

    open spec fn view(&self) -> IndexView {
        index_view(*self)
    }
}

/// `expr.field`.
#[derive(Debug)]
pub struct FieldAccess {
    pub expr: Box<Expresion>,
    pub field: Token,
}

/// The mathematical value of a [`FieldAccess`].
pub ghost struct FieldAccessView {
    pub expr: Box<ExpresionView>,
    pub field: TokenView,
}

/// The value of `x`.
pub open spec fn field_access_view(x: FieldAccess) -> FieldAccessView
    decreases x,
{
    FieldAccessView {
        expr: Box::new(expresion_view(*x.expr)),
        field: x.field@,
    }
}

impl View for FieldAccess {
    type V = FieldAccessView;

    open spec fn view(&self) -> FieldAccessView {
        field_access_view(*self)
    }
}

/// A prefix operator and its operand.
#[derive(Debug)]
pub struct Unary {
    pub unary_op: UnaryOp,
    pub expr: Box<Expresion>,
}

/// The mathematical value of an [`Unary`].
pub ghost struct UnaryView {
    pub unary_op: UnaryOp,
    pub expr: Box<ExpresionView>,
}

/// The value of `x`.
pub open spec fn unary_view(x: Unary) -> UnaryView
    decreases x,
{
    UnaryView {
        unary_op: x.unary_op,
        expr: Box::new(expresion_view(*x.expr)),
    }
}

impl View for Unary {
    type V = UnaryView;

    open spec fn view(&self) -> UnaryView {
        unary_view(*self)
    }
}

/// `function<generics>(arguments)`.
#[derive(Debug)]
pub struct FuncCall {
    pub function: Box<Expresion>,
    pub generics: Vec<Type>,
    pub arguments: Vec<Expresion>,
}

/// The mathematical value of a [`FuncCall`].
pub ghost struct FuncCallView {
    pub function: Box<ExpresionView>,
    pub generics: Seq<TypeView>,
    pub arguments: Seq<ExpresionView>,
}

/// The value of `x`.
pub open spec fn func_call_view(x: FuncCall) -> FuncCallView
    decreases x,
{
    FuncCallView {
        function: Box::new(expresion_view(*x.function)),
        generics: type_views(x.generics@),
        arguments: expresion_views(x.arguments@),
    }
}

impl View for FuncCall {
    type V = FuncCallView;

    open spec fn view(&self) -> FuncCallView {
        func_call_view(*self)
    }
}

/// A binary operator and its two operands.
#[derive(Debug)]
pub struct Binary {
    pub lhs: Box<Expresion>,
    pub rhs: Box<Expresion>,
    pub binary_op: BinaryOp,
}

/// The mathematical value of a [`Binary`].
pub ghost struct BinaryView {
    pub lhs: Box<ExpresionView>,
    pub rhs: Box<ExpresionView>,
    pub binary_op: BinaryOp,
}

/// The value of `x`.
pub open spec fn binary_view(x: Binary) -> BinaryView
    decreases x,
{
    BinaryView {
        lhs: Box::new(expresion_view(*x.lhs)),
        rhs: Box::new(expresion_view(*x.rhs)),
        binary_op: x.binary_op,
    }
}

impl View for Binary {
    type V = BinaryView;

    open spec fn view(&self) -> BinaryView {
        binary_view(*self)
    }
}

/// The values of a sequence of expressions.
pub open spec fn expresion_views(s: Seq<Expresion>) -> Seq<ExpresionView>
    decreases s,
{
    Seq::new(
        s.len(),
        |i: int|
            if 0 <= i < s.len() {
                expresion_view(s[i])
            } else {
                arbitrary()
            },
    )
}

/// The values of a sequence of field initialisers.
pub open spec fn field_constructor_views(s: Seq<FieldConstructor>) -> Seq<FieldConstructorView>
    decreases s,
{
    Seq::new(
        s.len(),
        |i: int|
            if 0 <= i < s.len() {
                field_constructor_view(s[i])
            } else {
                arbitrary()
            },
    )
}

// ---------------------------------------------------------------------------
// Operators
// ---------------------------------------------------------------------------

/// How tightly a binary operator binds; a higher number binds tighter.
pub open spec fn binding_power(op: BinaryOp) -> nat {
    match op {
        BinaryOp::Mod | BinaryOp::Mult | BinaryOp::Div => 9,
        BinaryOp::Subtract | BinaryOp::Add => 8,
        BinaryOp::SHL | BinaryOp::SHR => 7,
        BinaryOp::BitwiseAnd => 6,
        BinaryOp::BitwiseOr => 5,
        BinaryOp::Lessthan | BinaryOp::Greaterthan | BinaryOp::GE | BinaryOp::LE => 4,
        BinaryOp::Equal | BinaryOp::NE => 3,
        BinaryOp::LogicalAnd => 2,
        BinaryOp::LogicalOr => 1,
        BinaryOp::Assign => 0,
    }
}

/// Whether a chain of this operator groups to the left. Only assignment
/// groups to the right.
pub open spec fn groups_left(op: BinaryOp) -> bool {
    op != BinaryOp::Assign
}

/// Whether a token of this kind starts a binary operator.
pub open spec fn is_binary_operator(kind: TokenType) -> bool {
    match kind {
        TokenType::Plus
        | TokenType::Minus
        | TokenType::Star
        | TokenType::Slash
        | TokenType::Percent
        | TokenType::LArrow
        | TokenType::RArrow
        | TokenType::LessOrEqual
        | TokenType::MoreOrEqual
        | TokenType::EqualEqual
        | TokenType::BangEqual
        | TokenType::And
        | TokenType::Or
        | TokenType::Equal
        | TokenType::Ampersand
        | TokenType::Pipe
        | TokenType::SHL => true,
        _ => false,
    }
}

/// The kinds that start a binary operator, in the order in which an error
/// names them.
pub open spec fn binary_operator_kinds() -> Seq<TokenType> {
    seq![
        TokenType::Plus,
        TokenType::Minus,
        TokenType::Star,
        TokenType::Slash,
        TokenType::Percent,
        TokenType::LArrow,
        TokenType::RArrow,
        TokenType::LessOrEqual,
        TokenType::MoreOrEqual,
        TokenType::EqualEqual,
        TokenType::BangEqual,
        TokenType::And,
        TokenType::Or,
        TokenType::Equal,
        TokenType::Ampersand,
        TokenType::Pipe,
        TokenType::SHL,
    ]
}

/// The operator that a token of kind `kind` stands for; `second` says
/// whether a second `>` follows a first. Two `>` are a shift, one is a
/// comparison.
pub open spec fn operator_of(kind: TokenType, second: bool) -> BinaryOp {
    match kind {
        TokenType::Plus => BinaryOp::Add,
        TokenType::Minus => BinaryOp::Subtract,
        TokenType::Star => BinaryOp::Mult,
        TokenType::Slash => BinaryOp::Div,
        TokenType::Percent => BinaryOp::Mod,
        TokenType::LArrow => BinaryOp::Lessthan,
        TokenType::RArrow => if second {
            BinaryOp::SHR
        } else {
            BinaryOp::Greaterthan
        },
        TokenType::LessOrEqual => BinaryOp::LE,
        TokenType::MoreOrEqual => BinaryOp::GE,
        TokenType::EqualEqual => BinaryOp::Equal,
        TokenType::BangEqual => BinaryOp::NE,
        TokenType::And => BinaryOp::LogicalAnd,
        TokenType::Or => BinaryOp::LogicalOr,
        TokenType::Equal => BinaryOp::Assign,
        TokenType::Ampersand => BinaryOp::BitwiseAnd,
        TokenType::Pipe => BinaryOp::BitwiseOr,
        _ => BinaryOp::SHL,
    }
}

/// A binary operator at `pos`.
pub open spec fn binary_op_at(ts: Seq<TokenView>, pos: int) -> Parsed<BinaryOp> {
    if 0 <= pos < ts.len() && is_binary_operator(kind_at(ts, pos)) {
        if kind_at(ts, pos) == TokenType::RArrow && is_at(ts, pos + 1, TokenType::RArrow) {
            (Ok(BinaryOp::SHR), pos + 2)
        } else {
            (Ok(operator_of(kind_at(ts, pos), false)), pos + 1)
        }
    } else {
        (Err(ParseErrorView { expected: binary_operator_kinds(), got: ts[pos] }), pos + 1)
    }
}

/// The kinds that start a prefix operator.
pub open spec fn unary_operator_kinds() -> Seq<TokenType> {
    seq![TokenType::Minus, TokenType::Bang]
}

/// A prefix operator at `pos`; an error leaves `pos` as it is.
pub open spec fn unary_op_at(ts: Seq<TokenView>, pos: int) -> Parsed<UnaryOp> {
    if is_at(ts, pos, TokenType::Minus) {
        (Ok(UnaryOp::Negate), pos + 1)
    } else if is_at(ts, pos, TokenType::Bang) {
        (Ok(UnaryOp::Not), pos + 1)
    } else {
        (Err(ParseErrorView { expected: unary_operator_kinds(), got: ts[pos] }), pos)
    }
}

// ---------------------------------------------------------------------------
// Operator precedence: the two stacks
// ---------------------------------------------------------------------------

/// The operands and operators that wait for what comes after them.
pub ghost struct Stacks {
    pub operands: Seq<ExpresionView>,
    pub operators: Seq<BinaryOp>,
}

/// `lhs op rhs` as a tree.
pub open spec fn binary_of(lhs: ExpresionView, rhs: ExpresionView, op: BinaryOp) -> ExpresionView {
    ExpresionView::Binary(BinaryView { lhs: Box::new(lhs), rhs: Box::new(rhs), binary_op: op })
}

/// The stacks with one operand more than operators: every operator has its
/// left operand below and its right operand above or still to come.
pub open spec fn balanced(st: Stacks) -> bool {
    st.operands.len() == st.operators.len() + 1
}

/// Applies the top operator to the two top operands.
pub open spec fn reduce_once(st: Stacks) -> Stacks {
    let n = st.operands.len() as int;
    Stacks {
        operands: st.operands.subrange(0, n - 2).push(
            binary_of(st.operands[n - 2], st.operands[n - 1], st.operators.last()),
        ),
        operators: st.operators.drop_last(),
    }
}

/// Whether an operator on the stack is applied before `incoming` is put
/// on it: it binds tighter, or as tight and groups to the left.
pub open spec fn applies_before(stacked: BinaryOp, incoming: BinaryOp) -> bool {
    binding_power(stacked) > binding_power(incoming) || (binding_power(stacked) == binding_power(
        incoming,
    ) && groups_left(stacked))
}

/// Applies the operators on the stack that are applied before `incoming`.
pub open spec fn reduce_for(st: Stacks, incoming: BinaryOp) -> Stacks
    decreases st.operators.len(),
{
    if st.operators.len() > 0 && applies_before(st.operators.last(), incoming) {
        reduce_for(reduce_once(st), incoming)
    } else {
        st
    }
}

/// Applies all operators on the stack.
pub open spec fn reduce_all(st: Stacks) -> Stacks
    decreases st.operators.len(),
{
    if st.operators.len() > 0 {
        reduce_all(reduce_once(st))
    } else {
        st
    }
}

/// The stacks after `op` and the operand after it have come in.
pub open spec fn shift(st: Stacks, op: BinaryOp, operand: ExpresionView) -> Stacks {
    let reduced = reduce_for(st, op);
    Stacks { operands: reduced.operands.push(operand), operators: reduced.operators.push(op) }
}

/// The stacks after all of `rest` has come in.
pub open spec fn shift_all(st: Stacks, rest: Seq<(BinaryOp, ExpresionView)>) -> Stacks
    decreases rest.len(),
{
    if rest.len() == 0 {
        st
    } else {
        shift(shift_all(st, rest.drop_last()), rest.last().0, rest.last().1)
    }
}

/// What the two stacks make of the operand `first` followed by the
/// operators and operands of `rest`.
pub open spec fn fold_operators(
    first: ExpresionView,
    rest: Seq<(BinaryOp, ExpresionView)>,
) -> ExpresionView {
    reduce_all(
        shift_all(Stacks { operands: seq![first], operators: Seq::empty() }, rest),
    ).operands[0]
}

// ---------------------------------------------------------------------------
// The grammar of expressions
// ---------------------------------------------------------------------------

/// The kinds that can start an operand; an error names them where none of
/// them is there.
pub open spec fn primary_starts() -> Seq<TokenType> {
    seq![
        TokenType::Minus,
        TokenType::Bang,
        TokenType::Int,
        TokenType::Float,
        TokenType::String,
        TokenType::True,
        TokenType::False,
        TokenType::Ident,
        TokenType::LBrack,
        TokenType::LBrace,
        TokenType::LParen,
    ]
}

/// Whether a token of this kind can start an operand.
pub open spec fn starts_primary(kind: TokenType) -> bool {
    match kind {
        TokenType::Minus
        | TokenType::Bang
        | TokenType::Int
        | TokenType::Float
        | TokenType::String
        | TokenType::True
        | TokenType::False
        | TokenType::Ident
        | TokenType::LBrack
        | TokenType::LBrace
        | TokenType::LParen => true,
        _ => false,
    }
}

/// Whether a token of kind `kind` can start an operand.
pub fn can_start_primary(kind: TokenType) -> (r: bool)
    ensures
        r == starts_primary(kind),
{
    match kind {
        TokenType::Minus
        | TokenType::Bang
        | TokenType::Int
        | TokenType::Float
        | TokenType::String
        | TokenType::True
        | TokenType::False
        | TokenType::Ident
        | TokenType::LBrack
        | TokenType::LBrace
        | TokenType::LParen => true,
        _ => false,
    }
}

/// The kinds that an error names where no operand starts are exactly the
/// kinds that can start one, and an operand fails on its first token
/// exactly where that token is of none of them.
pub proof fn lemma_primary_starts(ts: Seq<TokenView>, pos: int, kind: TokenType)
    requires
        0 <= pos < ts.len(),
    ensures
        primary_starts().contains(kind) <==> starts_primary(kind),
        !starts_primary(kind_at(ts, pos)) ==> atom_at(ts, pos) == (
            Err::<ExpresionView, ParseErrorView>(
                ParseErrorView { expected: primary_starts(), got: ts[pos] },
            ),
            pos + 1,
        ),
{
    let kinds = primary_starts();
    assert(kinds[0] == TokenType::Minus);
    assert(kinds[1] == TokenType::Bang);
    assert(kinds[2] == TokenType::Int);
    assert(kinds[3] == TokenType::Float);
    assert(kinds[4] == TokenType::String);
    assert(kinds[5] == TokenType::True);
    assert(kinds[6] == TokenType::False);
    assert(kinds[7] == TokenType::Ident);
    assert(kinds[8] == TokenType::LBrack);
    assert(kinds[9] == TokenType::LBrace);
    assert(kinds[10] == TokenType::LParen);
}

/// The kinds that may follow `Type::name`.
pub open spec fn path_followers() -> Seq<TokenType> {
    seq![TokenType::LBrace, TokenType::LParen, TokenType::LArrow]
}

/// A prefix operator and its operand at `pos`.
pub open spec fn unary_at(ts: Seq<TokenView>, pos: int) -> Parsed<UnaryView>
    decreases ts.len() - pos, 8int,
{
    let op = unary_op_at(ts, pos);
    if op.0 is Err {
        fail(op)
    } else {
        map_ok(
            primary_at(ts, pos + 1),
            |e: ExpresionView| UnaryView { unary_op: op.0->Ok_0, expr: Box::new(e) },
        )
    }
}

/// `name: value` at `pos`.
pub open spec fn field_constructor_at(ts: Seq<TokenView>, pos: int) -> Parsed<FieldConstructorView>
    decreases ts.len() - pos, 11int,
{
    let name = expect_at(ts, pos, TokenType::Ident);
    if name.0 is Err {
        fail(name)
    } else {
        let colon = expect_at(ts, pos + 1, TokenType::Colon);
        if colon.0 is Err {
            fail(colon)
        } else {
            map_ok(
                expresion_at(ts, pos + 2),
                |v: ExpresionView| FieldConstructorView { name: name.0->Ok_0, value: Box::new(v) },
            )
        }
    }
}

/// Field initialisers from `pos` on, `delim` between them, up to and with `end`.
pub open spec fn field_constructor_items_at(
    ts: Seq<TokenView>,
    pos: int,
    delim: TokenType,
    end: TokenType,
) -> Parsed<Seq<FieldConstructorView>>
    decreases ts.len() - pos, 13int,
{
    let item = field_constructor_at(ts, pos);
    if !progressed(ts, item, pos) {
        fail(item)
    } else if is_at(ts, item.1, delim) {
        prepend(seq![item.0->Ok_0], field_constructor_items_at(ts, item.1 + 1, delim, end))
    } else {
        map_ok(close_at(ts, item.1, delim, end), |t: TokenView| seq![item.0->Ok_0])
    }
}

/// The value of a parsed list of field initialisers.
pub open spec fn field_constructors_result(
    r: ParseResult<Vec<FieldConstructor>>,
) -> Result<Seq<FieldConstructorView>, ParseErrorView> {
    result_view_by(r, |v: Vec<FieldConstructor>| field_constructor_views(v@))
}

/// Expressions from `pos` on, `delim` between them, up to and with `end`.
pub open spec fn expresion_items_at(
    ts: Seq<TokenView>,
    pos: int,
    delim: TokenType,
    end: TokenType,
) -> Parsed<Seq<ExpresionView>>
    decreases ts.len() - pos, 13int,
{
    let item = expresion_at(ts, pos);
    if !progressed(ts, item, pos) {
        fail(item)
    } else if is_at(ts, item.1, delim) {
        prepend(seq![item.0->Ok_0], expresion_items_at(ts, item.1 + 1, delim, end))
    } else {
        map_ok(close_at(ts, item.1, delim, end), |t: TokenView| seq![item.0->Ok_0])
    }
}

/// The value of a parsed list of expressions.
pub open spec fn expresions_result(
    r: ParseResult<Vec<Expresion>>,
) -> Result<Seq<ExpresionView>, ParseErrorView> {
    result_view_by(r, |v: Vec<Expresion>| expresion_views(v@))
}

/// Expressions from `pos` on, commas between them, up to and with `end`;
/// none where `end` is there at once.
pub open spec fn expresion_list_at(ts: Seq<TokenView>, pos: int, end: TokenType) -> Parsed<
    Seq<ExpresionView>,
>
    decreases ts.len() - pos, 14int,
{
    if is_at(ts, pos, end) {
        (Ok(Seq::empty()), pos + 1)
    } else {
        expresion_items_at(ts, pos, TokenType::Comma, end)
    }
}

/// An array constructor at `pos`: expressions between brackets.
pub open spec fn array_constructor_at(ts: Seq<TokenView>, pos: int) -> Parsed<Seq<ExpresionView>> {
    if !is_at(ts, pos, TokenType::LBrack) {
        fail(expect_at(ts, pos, TokenType::LBrack))
    } else {
        expresion_list_at(ts, pos + 1, TokenType::RBrack)
    }
}

/// Generic arguments between `<` and `>` at `pos`.
pub open spec fn generic_arguments_at(ts: Seq<TokenView>, pos: int) -> Parsed<Seq<TypeView>> {
    list_at(
        ts,
        pos,
        TokenType::LArrow,
        TokenType::RArrow,
        type_items_at(ts, pos + 1, TokenType::Comma, TokenType::RArrow),
    )
}

/// The constructor of `object`, with the arena after `@` at `pos` if one
/// is written.
pub open spec fn arena_at(ts: Seq<TokenView>, pos: int, object: ConstructorTypeView) -> Parsed<
    ExpresionView,
>
    decreases ts.len() - pos, 11int,
{
    if is_at(ts, pos, TokenType::At) {
        map_ok(
            primary_at(ts, pos + 1),
            |a: ExpresionView|
                ExpresionView::Constructor(
                    ConstructorView { areana: Some(Box::new(a)), object_to_construct: object },
                ),
        )
    } else {
        (
            Ok(
                ExpresionView::Constructor(
                    ConstructorView { areana: None, object_to_construct: object },
                ),
            ),
            pos,
        )
    }
}

/// A call of `function` with the generic arguments `generics`, the
/// arguments between parentheses at `pos`.
pub open spec fn call_at(
    ts: Seq<TokenView>,
    pos: int,
    function: ExpresionView,
    generics: Seq<TypeView>,
) -> Parsed<ExpresionView>
    decreases ts.len() - pos, 15int,
{
    if !is_at(ts, pos, TokenType::LParen) {
        fail(expect_at(ts, pos, TokenType::LParen))
    } else {
        map_ok(
            expresion_list_at(ts, pos + 1, TokenType::RParen),
            |a: Seq<ExpresionView>|
                ExpresionView::FunctionCall(
                    FuncCallView { function: Box::new(function), generics: generics, arguments: a },
                ),
        )
    }
}

/// What starts with the identifier at `pos` followed by `::`: an enum
/// constructor or a call of a function of a type.
pub open spec fn path_at(ts: Seq<TokenView>, pos: int) -> Parsed<ExpresionView>
    decreases ts.len() - pos, 8int,
{
    let member = expect_at(ts, pos + 2, TokenType::Ident);
    let function = ExpresionView::TypeAssocatedFunction(
        TypeAssocatedFunctionView { type_: ts[pos], func_name: ts[pos + 2] },
    );
    if !is_at(ts, pos, TokenType::Ident) || member.0 is Err {
        fail(member)
    } else if is_at(ts, pos + 3, TokenType::LBrace) {
        let fields = if is_at(ts, pos + 4, TokenType::RBrace) {
            (Ok(Seq::empty()), pos + 5)
        } else {
            field_constructor_items_at(ts, pos + 4, TokenType::Comma, TokenType::RBrace)
        };
        if !progressed(ts, fields, pos) {
            fail(fields)
        } else {
            arena_at(
                ts,
                fields.1,
                ConstructorTypeView::EnumConstructor(
                    EnumConstructorView {
                        enum_name: ts[pos],
                        varient_name: ts[pos + 2],
                        fields: fields.0->Ok_0,
                    },
                ),
            )
        }
    } else if is_at(ts, pos + 3, TokenType::LArrow) {
        let generics = generic_arguments_at(ts, pos + 3);
        if !progressed(ts, generics, pos) {
            fail(generics)
        } else {
            call_at(ts, generics.1, function, generics.0->Ok_0)
        }
    } else if is_at(ts, pos + 3, TokenType::LParen) {
        call_at(ts, pos + 3, function, Seq::empty())
    } else {
        (Err(ParseErrorView { expected: path_followers(), got: ts[pos + 3] }), pos + 3)
    }
}

/// An expression without what may follow it: a prefix operator with its
/// operand, a literal, a constructor, a block, a name, a call of a function
/// of a type, or an expression between parentheses.
pub open spec fn atom_at(ts: Seq<TokenView>, pos: int) -> Parsed<ExpresionView>
    decreases ts.len() - pos, 9int,
{
    if is_at(ts, pos, TokenType::Minus) || is_at(ts, pos, TokenType::Bang) {
        map_ok(unary_at(ts, pos), |u: UnaryView| ExpresionView::Unary(u))
    } else if is_at(ts, pos, TokenType::Int) {
        (Ok(ExpresionView::IntLitteral(ts[pos])), pos + 1)
    } else if is_at(ts, pos, TokenType::Float) {
        (Ok(ExpresionView::FloatLitteral(ts[pos])), pos + 1)
    } else if is_at(ts, pos, TokenType::String) {
        (Ok(ExpresionView::StringLitteral(ts[pos])), pos + 1)
    } else if is_at(ts, pos, TokenType::True) {
        (Ok(ExpresionView::True), pos + 1)
    } else if is_at(ts, pos, TokenType::False) {
        (Ok(ExpresionView::False), pos + 1)
    } else if is_at(ts, pos, TokenType::LBrack) {
        let elements = expresion_list_at(ts, pos + 1, TokenType::RBrack);
        if !progressed(ts, elements, pos) {
            fail(elements)
        } else {
            arena_at(ts, elements.1, ConstructorTypeView::ArrayConstructor(elements.0->Ok_0))
        }
    } else if is_at(ts, pos, TokenType::LBrace) {
        map_ok(block_at(ts, pos + 1), |b: Seq<StatmentView>| ExpresionView::Block(b))
    } else if is_at(ts, pos, TokenType::Ident) {
        if is_at(ts, pos + 1, TokenType::DoubleColon) {
            path_at(ts, pos)
        } else if is_at(ts, pos + 1, TokenType::LBrace) {
            let fields = if is_at(ts, pos + 2, TokenType::RBrace) {
                (Ok(Seq::empty()), pos + 3)
            } else {
                field_constructor_items_at(ts, pos + 2, TokenType::Comma, TokenType::RBrace)
            };
            if !progressed(ts, fields, pos) {
                fail(fields)
            } else {
                arena_at(
                    ts,
                    fields.1,
                    ConstructorTypeView::StructConstructor(
                        StructConstructorView { struct_name: ts[pos], fields: fields.0->Ok_0 },
                    ),
                )
            }
        } else {
            (Ok(ExpresionView::VarAccess(ts[pos])), pos + 1)
        }
    } else if is_at(ts, pos, TokenType::LParen) {
        let inner = expresion_at(ts, pos + 1);
        if inner.0 is Err {
            fail(inner)
        } else {
            map_ok(expect_at(ts, inner.1, TokenType::RParen), |t: TokenView| inner.0->Ok_0)
        }
    } else {
        (Err(ParseErrorView { expected: primary_starts(), got: ts[pos] }), pos + 1)
    }
}

/// What may follow the expression `expr` that ends at `pos`, as often as
/// it comes: `.field`, a call with or without generic arguments, `[index]`.
pub open spec fn postfix_at(ts: Seq<TokenView>, pos: int, expr: ExpresionView) -> Parsed<
    ExpresionView,
>
    decreases ts.len() - pos, 16int,
{
    if is_at(ts, pos, TokenType::Dot) {
        let field = expect_at(ts, pos + 1, TokenType::Ident);
        if field.0 is Err {
            fail(field)
        } else {
            postfix_at(
                ts,
                pos + 2,
                ExpresionView::FieldAcess(
                    FieldAccessView { expr: Box::new(expr), field: field.0->Ok_0 },
                ),
            )
        }
    } else if is_at(ts, pos, TokenType::LArrow) {
        let generics = generic_arguments_at(ts, pos);
        if !progressed(ts, generics, pos) {
            fail(generics)
        } else {
            let call = call_at(ts, generics.1, expr, generics.0->Ok_0);
            if !progressed(ts, call, pos) {
                fail(call)
            } else {
                postfix_at(ts, call.1, call.0->Ok_0)
            }
        }
    } else if is_at(ts, pos, TokenType::LParen) {
        let call = call_at(ts, pos, expr, Seq::empty());
        if !progressed(ts, call, pos) {
            fail(call)
        } else {
            postfix_at(ts, call.1, call.0->Ok_0)
        }
    } else if is_at(ts, pos, TokenType::LBrack) {
        let index = expresion_at(ts, pos + 1);
        if !progressed(ts, index, pos) {
            fail(index)
        } else if !is_at(ts, index.1, TokenType::RBrack) {
            fail(expect_at(ts, index.1, TokenType::RBrack))
        } else {
            postfix_at(
                ts,
                index.1 + 1,
                ExpresionView::Index(
                    IndexView { expr: Box::new(expr), index: Box::new(index.0->Ok_0) },
                ),
            )
        }
    } else {
        (Ok(expr), pos)
    }
}

/// The trait bounds of a cast, between parentheses at `pos`.
pub open spec fn cast_traits_at(ts: Seq<TokenView>, pos: int) -> Parsed<Seq<SolidTypeView>> {
    list_at(
        ts,
        pos,
        TokenType::LParen,
        TokenType::RParen,
        solid_type_items_at(ts, pos + 1, TokenType::Plus, TokenType::RParen),
    )
}

/// An operand at `pos`: an atom, a cast after it if a colon follows, and
/// then what may follow an expression.
pub open spec fn primary_at(ts: Seq<TokenView>, pos: int) -> Parsed<ExpresionView>
    decreases ts.len() - pos, 10int,
{
    let atom = atom_at(ts, pos);
    if !progressed(ts, atom, pos) {
        fail(atom)
    } else {
        let cast = if is_at(ts, atom.1, TokenType::Colon) {
            map_ok(
                cast_traits_at(ts, atom.1 + 1),
                |t: Seq<SolidTypeView>|
                    ExpresionView::Cast(
                        CastView { expr: Box::new(atom.0->Ok_0), traits_to_cast_to: t },
                    ),
            )
        } else {
            atom
        };
        if !progressed(ts, cast, pos) {
            fail(cast)
        } else {
            postfix_at(ts, cast.1, cast.0->Ok_0)
        }
    }
}

/// The operators from `pos` on, each with the operand after it.
pub open spec fn operands_at(ts: Seq<TokenView>, pos: int) -> Parsed<
    Seq<(BinaryOp, ExpresionView)>,
>
    decreases ts.len() - pos, 11int,
{
    if 0 <= pos < ts.len() && is_binary_operator(kind_at(ts, pos)) {
        let op = binary_op_at(ts, pos);
        if !progressed(ts, op, pos) {
            fail(op)
        } else {
            let operand = primary_at(ts, op.1);
            if !progressed(ts, operand, pos) {
                fail(operand)
            } else {
                prepend(seq![(op.0->Ok_0, operand.0->Ok_0)], operands_at(ts, operand.1))
            }
        }
    } else {
        (Ok(Seq::empty()), pos)
    }
}

/// An expression at `pos`: operands with binary operators between them,
/// made into the tree that has at its root the operator that is applied
/// last, by binding power and grouping.
pub open spec fn expresion_at(ts: Seq<TokenView>, pos: int) -> Parsed<ExpresionView>
    decreases ts.len() - pos, 12int,
{
    let first = primary_at(ts, pos);
    if !progressed(ts, first, pos) {
        fail(first)
    } else {
        map_ok(
            operands_at(ts, first.1),
            |rest: Seq<(BinaryOp, ExpresionView)>|
                tree_of(chain_operands(first.0->Ok_0, rest), chain_operators(rest)),
        )
    }
}

// ---------------------------------------------------------------------------
// Lemmas on the model
// ---------------------------------------------------------------------------

/// The kinds that an error of a binary operator names are the kinds that
/// start one; `EOF` is none of them.
pub proof fn lemma_binary_operator_kinds(kind: TokenType)
    ensures
        binary_operator_kinds().contains(kind) <==> is_binary_operator(kind),
        !binary_operator_kinds().contains(TokenType::EOF),
{
    let kinds = binary_operator_kinds();
    if is_binary_operator(kind) {
        let i = choose|i: int| 0 <= i < 17 && kinds[i] == kind;
        assert(kinds[0] == TokenType::Plus);
        assert(kinds[1] == TokenType::Minus);
        assert(kinds[2] == TokenType::Star);
        assert(kinds[3] == TokenType::Slash);
        assert(kinds[4] == TokenType::Percent);
        assert(kinds[5] == TokenType::LArrow);
        assert(kinds[6] == TokenType::RArrow);
        assert(kinds[7] == TokenType::LessOrEqual);
        assert(kinds[8] == TokenType::MoreOrEqual);
        assert(kinds[9] == TokenType::EqualEqual);
        assert(kinds[10] == TokenType::BangEqual);
        assert(kinds[11] == TokenType::And);
        assert(kinds[12] == TokenType::Or);
        assert(kinds[13] == TokenType::Equal);
        assert(kinds[14] == TokenType::Ampersand);
        assert(kinds[15] == TokenType::Pipe);
        assert(kinds[16] == TokenType::SHL);
        assert(kinds[i] == kind);
    }
}

/// The kinds that start a prefix operator are `-` and `!`.
pub proof fn lemma_unary_operator_kinds(kind: TokenType)
    ensures
        unary_operator_kinds().contains(kind) <==> (kind == TokenType::Minus || kind
            == TokenType::Bang),
{
    let kinds = unary_operator_kinds();
    assert(kinds[0] == TokenType::Minus);
    assert(kinds[1] == TokenType::Bang);
}

/// Applying the top operator of balanced stacks leaves them balanced.
pub proof fn lemma_reduce_once_balanced(st: Stacks)
    requires
        balanced(st),
        st.operators.len() > 0,
    ensures
        balanced(reduce_once(st)),
        st.operands.len() >= 2,
{
}

/// Applying operators for an incoming one leaves balanced stacks balanced.
pub proof fn lemma_reduce_for_balanced(st: Stacks, incoming: BinaryOp)
    requires
        balanced(st),
    ensures
        balanced(reduce_for(st, incoming)),
    decreases st.operators.len(),
{
    if st.operators.len() > 0 && applies_before(st.operators.last(), incoming) {
        lemma_reduce_once_balanced(st);
        lemma_reduce_for_balanced(reduce_once(st), incoming);
    }
}

/// Applying all operators of balanced stacks leaves one operand.
pub proof fn lemma_reduce_all_balanced(st: Stacks)
    requires
        balanced(st),
    ensures
        balanced(reduce_all(st)),
        reduce_all(st).operators.len() == 0,
        reduce_all(st).operands.len() == 1,
    decreases st.operators.len(),
{
    if st.operators.len() > 0 {
        lemma_reduce_once_balanced(st);
        lemma_reduce_all_balanced(reduce_once(st));
    }
}

/// Stacks that start with one operand stay balanced whatever comes in.
pub proof fn lemma_shift_all_balanced(st: Stacks, rest: Seq<(BinaryOp, ExpresionView)>)
    requires
        balanced(st),
    ensures
        balanced(shift_all(st, rest)),
    decreases rest.len(),
{
    if rest.len() > 0 {
        lemma_shift_all_balanced(st, rest.drop_last());
        lemma_reduce_for_balanced(shift_all(st, rest.drop_last()), rest.last().0);
    }
}

/// Two operators between three operands: the second operand goes to the
/// operator that binds tighter, and to the first where both bind as
/// tight and group to the left.
pub proof fn lemma_two_operators(
    a: ExpresionView,
    first: BinaryOp,
    b: ExpresionView,
    second: BinaryOp,
    c: ExpresionView,
)
    ensures
        fold_operators(a, seq![(first, b), (second, c)]) == if applies_before(first, second) {
            binary_of(binary_of(a, b, first), c, second)
        } else {
            binary_of(a, binary_of(b, c, second), first)
        },
{
    let init = Stacks { operands: seq![a], operators: Seq::empty() };
    let rest = seq![(first, b), (second, c)];
    let one = seq![(first, b)];
    assert(rest.drop_last() =~= one);
    assert(one.drop_last() =~= Seq::empty());
    reveal_with_fuel(shift_all, 3);
    reveal_with_fuel(reduce_for, 3);
    reveal_with_fuel(reduce_all, 3);
    let s1 = shift(init, first, b);
    assert(shift_all(init, one) == s1);
    assert(reduce_for(init, first) == init);
    assert(s1.operands =~= seq![a, b]);
    assert(s1.operators =~= seq![first]);
    let s2 = shift(s1, second, c);
    assert(shift_all(init, rest) == s2);
    if applies_before(first, second) {
        let r = reduce_once(s1);
        assert(r.operands =~= seq![binary_of(a, b, first)]);
        assert(r.operators =~= Seq::empty());
        assert(reduce_for(r, second) == r);
        assert(reduce_for(s1, second) == r);
        assert(s2.operands =~= seq![binary_of(a, b, first), c]);
        assert(s2.operators =~= seq![second]);
        let f = reduce_once(s2);
        assert(f.operands =~= seq![binary_of(binary_of(a, b, first), c, second)]);
        assert(f.operators =~= Seq::empty());
        assert(reduce_all(f) == f);
        assert(reduce_all(s2) == f);
    } else {
        assert(reduce_for(s1, second) == s1);
        assert(s2.operands =~= seq![a, b, c]);
        assert(s2.operators =~= seq![first, second]);
        let f1 = reduce_once(s2);
        assert(f1.operands =~= seq![a, binary_of(b, c, second)]);
        assert(f1.operators =~= seq![first]);
        let f2 = reduce_once(f1);
        assert(f2.operands =~= seq![binary_of(a, binary_of(b, c, second), first)]);
        assert(f2.operators =~= Seq::empty());
        assert(reduce_all(f2) == f2);
        assert(reduce_all(f1) == f2);
        assert(reduce_all(s2) == f2);
    }
}

// ---------------------------------------------------------------------------
// The parser
// ---------------------------------------------------------------------------

/// The two stacks of the parser, as the model has them.
pub open spec fn stacks_of(values: Vec<Expresion>, operators: Vec<BinaryOp>) -> Stacks {
    Stacks { operands: expresion_views(values@), operators: operators@ }
}

/// Applies the top operator to the two top operands.
fn reduce_top(values: &mut Vec<Expresion>, operators: &mut Vec<BinaryOp>)
    requires
        balanced(stacks_of(*old(values), *old(operators))),
        old(operators).len() > 0,
    ensures
        stacks_of(*final(values), *final(operators)) == reduce_once(
            stacks_of(*old(values), *old(operators)),
        ),
        balanced(stacks_of(*final(values), *final(operators))),
        final(operators).len() == old(operators).len() - 1,
{
    let ghost before = stacks_of(*values, *operators);
    let op = operators.pop().unwrap();
    let right = values.pop().unwrap();
    let left = values.pop().unwrap();
    let ghost l = left@;
    let ghost r = right@;
    values.push(
        Expresion::Binary(Binary { lhs: Box::new(left), rhs: Box::new(right), binary_op: op }),
    );
    proof {
        let after = stacks_of(*values, *operators);
        assert(after.operands =~= reduce_once(before).operands);
        assert(after.operators =~= reduce_once(before).operators);
    }
}

impl BinaryOp {
    /// Whether the cursor is on a binary operator.
    pub fn is_next_bin_op(tokens: &TokenCursor) -> (r: bool)
        requires
            tokens.live(),
        ensures
            r == is_binary_operator(kind_at(tokens.stream(), tokens.index())),
    {
        match tokens.peek_kind() {
            TokenType::Plus
            | TokenType::Minus
            | TokenType::Star
            | TokenType::Slash
            | TokenType::Percent
            | TokenType::LArrow
            | TokenType::RArrow
            | TokenType::LessOrEqual
            | TokenType::MoreOrEqual
            | TokenType::EqualEqual
            | TokenType::BangEqual
            | TokenType::And
            | TokenType::Or
            | TokenType::SHL
            | TokenType::Ampersand
            | TokenType::Pipe
            | TokenType::Equal => true,
            _ => false,
        }
    }

    /// How tightly the operator binds.
    pub fn precedence(&self) -> (r: u8)
        ensures
            r == binding_power(*self),
    {
        match self {
            BinaryOp::Mod => 9,
            BinaryOp::Mult => 9,
            BinaryOp::Div => 9,
            BinaryOp::Subtract => 8,
            BinaryOp::Add => 8,
            BinaryOp::SHL => 7,
            BinaryOp::SHR => 7,
            BinaryOp::BitwiseAnd => 6,
            BinaryOp::BitwiseOr => 5,
            BinaryOp::Lessthan => 4,
            BinaryOp::Greaterthan => 4,
            BinaryOp::GE => 4,
            BinaryOp::LE => 4,
            BinaryOp::Equal => 3,
            BinaryOp::NE => 3,
            BinaryOp::LogicalAnd => 2,
            BinaryOp::LogicalOr => 1,
            BinaryOp::Assign => 0,
        }
    }

    /// Whether a chain of the operator groups to the left.
    pub fn left_assocative(&self) -> (r: bool)
        ensures
            r == groups_left(*self),
    {
        match self {
            BinaryOp::Assign => false,
            _ => true,
        }
    }

    /// Whether the operator, on the stack, is applied before `incoming`
    /// is put on it.
    pub fn goes_before(&self, incoming: &BinaryOp) -> (r: bool)
        ensures
            r == applies_before(*self, *incoming),
    {
        self.precedence() > incoming.precedence() || (self.precedence() == incoming.precedence()
            && self.left_assocative())
    }

    /// Parses a binary operator.
    pub fn parse(tokens: &mut TokenCursor) -> (res: ParseResult<BinaryOp>)
        requires
            old(tokens).live(),
        ensures
            parsed_as(
                *old(tokens),
                *final(tokens),
                result_view_by(res, |op: BinaryOp| op),
                binary_op_at(old(tokens).stream(), old(tokens).index()),
            ),
    {
        let kinds = vec![
            TokenType::Plus,
            TokenType::Minus,
            TokenType::Star,
            TokenType::Slash,
            TokenType::Percent,
            TokenType::LArrow,
            TokenType::RArrow,
            TokenType::LessOrEqual,
            TokenType::MoreOrEqual,
            TokenType::EqualEqual,
            TokenType::BangEqual,
            TokenType::And,
            TokenType::Or,
            TokenType::Equal,
            TokenType::Ampersand,
            TokenType::Pipe,
            TokenType::SHL,
        ];
        proof {
            assert(kinds@ =~= binary_operator_kinds());
            lemma_binary_operator_kinds(kind_at(tokens.stream(), tokens.index()));
        }
        let token = tokens.consume_multiple(kinds)?;
        Ok(
            match token.token_type {
                TokenType::Plus => BinaryOp::Add,
                TokenType::Minus => BinaryOp::Subtract,
                TokenType::Star => BinaryOp::Mult,
                TokenType::Slash => BinaryOp::Div,
                TokenType::Percent => BinaryOp::Mod,
                TokenType::LArrow => BinaryOp::Lessthan,
                TokenType::RArrow => {
                    if tokens.accept(TokenType::RArrow) {
                        BinaryOp::SHR
                    } else {
                        BinaryOp::Greaterthan
                    }
                },
                TokenType::LessOrEqual => BinaryOp::LE,
                TokenType::MoreOrEqual => BinaryOp::GE,
                TokenType::EqualEqual => BinaryOp::Equal,
                TokenType::BangEqual => BinaryOp::NE,
                TokenType::And => BinaryOp::LogicalAnd,
                TokenType::Or => BinaryOp::LogicalOr,
                TokenType::Equal => BinaryOp::Assign,
                TokenType::Ampersand => BinaryOp::BitwiseAnd,
                TokenType::Pipe => BinaryOp::BitwiseOr,
                _ => BinaryOp::SHL,
            },
        )
    }
}

impl UnaryOp {
    /// Parses a prefix operator.
    pub fn parse(tokens: &mut TokenCursor) -> (res: ParseResult<UnaryOp>)
        requires
            old(tokens).live(),
        ensures
            parsed_as(
                *old(tokens),
                *final(tokens),
                result_view_by(res, |op: UnaryOp| op),
                unary_op_at(old(tokens).stream(), old(tokens).index()),
            ),
    {
        let kinds = vec![TokenType::Minus, TokenType::Bang];
        proof {
            assert(kinds@ =~= unary_operator_kinds());
            lemma_unary_operator_kinds(kind_at(tokens.stream(), tokens.index()));
            lemma_unary_operator_kinds(TokenType::EOF);
        }
        let token = tokens.peek_consume_multiple(kinds)?;
        Ok(
            match token.token_type {
                TokenType::Minus => UnaryOp::Negate,
                _ => UnaryOp::Not,
            },
        )
    }
}

impl Unary {
    /// Parses a prefix operator and its operand.
    pub fn parse(tokens: &mut TokenCursor) -> (res: ParseResult<Unary>)
        requires
            old(tokens).live(),
        ensures
            parsed_as(
                *old(tokens),
                *final(tokens),
                result_view(res),
                unary_at(old(tokens).stream(), old(tokens).index()),
            ),
        decreases old(tokens).stream().len() - old(tokens).index(), 8int,
    {
        let op = UnaryOp::parse(tokens)?;
        let expr = Box::new(Expresion::primary(tokens)?);
        Ok(Unary { unary_op: op, expr })
    }
}

impl FieldConstructor {
    /// Parses `name: value`.
    pub fn parse(tokens: &mut TokenCursor) -> (res: ParseResult<FieldConstructor>)
        requires
            old(tokens).live(),
        ensures
            parsed_as(
                *old(tokens),
                *final(tokens),
                result_view(res),
                field_constructor_at(old(tokens).stream(), old(tokens).index()),
            ),
        decreases old(tokens).stream().len() - old(tokens).index(), 11int,
    {
        let name = tokens.consume(TokenType::Ident)?;
        tokens.consume(TokenType::Colon)?;
        let value = Box::new(Expresion::parse(tokens)?);
        Ok(FieldConstructor { name, value })
    }
}

/// Parses field initialisers, `delim` between them, up to and with `end`.
#[verifier::rlimit(50)]
pub fn parse_field_constructor_items(
    tokens: &mut TokenCursor,
    delim: TokenType,
    end: TokenType,
) -> (res: ParseResult<Vec<FieldConstructor>>)
    requires
        old(tokens).live(),
        delim != TokenType::EOF,
        end != TokenType::EOF,
    ensures
        parsed_as(
            *old(tokens),
            *final(tokens),
            field_constructors_result(res),
            field_constructor_items_at(old(tokens).stream(), old(tokens).index(), delim, end),
        ),
    decreases old(tokens).stream().len() - old(tokens).index(), 13int,
{
    let ghost ts = tokens.stream();
    let ghost start = tokens.index();
    let mut list: Vec<FieldConstructor> = Vec::new();
    proof {
        lemma_prepend_empty(field_constructor_items_at(ts, start, delim, end));
        assert(field_constructor_views(list@) =~= Seq::empty());
    }
    loop
        invariant
            tokens.live(),
            tokens.stream() == ts,
            ts == old(tokens).stream(),
            start == old(tokens).index(),
            start <= tokens.index(),
            list.len() > 0 ==> start < tokens.index(),
            delim != TokenType::EOF,
            end != TokenType::EOF,
            field_constructor_items_at(ts, start, delim, end) == prepend(
                field_constructor_views(list@),
                field_constructor_items_at(ts, tokens.index(), delim, end),
            ),
        decreases ts.len() - tokens.index(),
    {
        let ghost front = field_constructor_views(list@);
        let item = FieldConstructor::parse(tokens)?;
        let ghost value = item@;
        proof {
            lemma_prepend_push(
                front,
                value,
                field_constructor_items_at(ts, tokens.index() + 1, delim, end),
            );
        }
        list.push(item);
        assert(field_constructor_views(list@) =~= front.push(value));
        if tokens.accept(delim) {
            continue ;
        }
        assert(front + seq![value] =~= front.push(value));
        tokens.close_list(delim, end)?;
        return Ok(list);
    }
}

/// Parses expressions, `delim` between them, up to and with `end`.
#[verifier::rlimit(50)]
pub fn parse_expresion_items(tokens: &mut TokenCursor, delim: TokenType, end: TokenType) -> (res:
    ParseResult<Vec<Expresion>>)
    requires
        old(tokens).live(),
        delim != TokenType::EOF,
        end != TokenType::EOF,
    ensures
        parsed_as(
            *old(tokens),
            *final(tokens),
            expresions_result(res),
            expresion_items_at(old(tokens).stream(), old(tokens).index(), delim, end),
        ),
    decreases old(tokens).stream().len() - old(tokens).index(), 13int,
{
    let ghost ts = tokens.stream();
    let ghost start = tokens.index();
    let mut list: Vec<Expresion> = Vec::new();
    proof {
        lemma_prepend_empty(expresion_items_at(ts, start, delim, end));
        assert(expresion_views(list@) =~= Seq::empty());
    }
    loop
        invariant
            tokens.live(),
            tokens.stream() == ts,
            ts == old(tokens).stream(),
            start == old(tokens).index(),
            start <= tokens.index(),
            list.len() > 0 ==> start < tokens.index(),
            delim != TokenType::EOF,
            end != TokenType::EOF,
            expresion_items_at(ts, start, delim, end) == prepend(
                expresion_views(list@),
                expresion_items_at(ts, tokens.index(), delim, end),
            ),
        decreases ts.len() - tokens.index(),
    {
        let ghost front = expresion_views(list@);
        let item = Expresion::parse(tokens)?;
        let ghost value = item@;
        proof {
            lemma_prepend_push(
                front,
                value,
                expresion_items_at(ts, tokens.index() + 1, delim, end),
            );
        }
        list.push(item);
        assert(expresion_views(list@) =~= front.push(value));
        if tokens.accept(delim) {
            continue ;
        }
        assert(front + seq![value] =~= front.push(value));
        tokens.close_list(delim, end)?;
        return Ok(list);
    }
}

/// Parses expressions with commas between them, up to and with `end`.
pub fn parse_expresion_list(tokens: &mut TokenCursor, end: TokenType) -> (res: ParseResult<
    Vec<Expresion>,
>)
    requires
        old(tokens).live(),
        end != TokenType::EOF,
    ensures
        parsed_as(
            *old(tokens),
            *final(tokens),
            expresions_result(res),
            expresion_list_at(old(tokens).stream(), old(tokens).index(), end),
        ),
    decreases old(tokens).stream().len() - old(tokens).index(), 14int,
{
    if tokens.accept(end) {
        let empty: Vec<Expresion> = Vec::new();
        assert(expresion_views(empty@) =~= Seq::empty());
        Ok(empty)
    } else {
        parse_expresion_items(tokens, TokenType::Comma, end)
    }
}

/// Parses an array constructor: expressions between brackets.
pub fn parse_array_constructor(tokens: &mut TokenCursor) -> (res: ParseResult<ArrayConstructor>)
    requires
        old(tokens).live(),
    ensures
        parsed_as(
            *old(tokens),
            *final(tokens),
            expresions_result(res),
            array_constructor_at(old(tokens).stream(), old(tokens).index()),
        ),
{
    tokens.consume(TokenType::LBrack)?;
    parse_expresion_list(tokens, TokenType::RBrack)
}

/// Parses generic arguments between `<` and `>`.
pub fn parse_generic_arguments(tokens: &mut TokenCursor) -> (res: ParseResult<Vec<Type>>)
    requires
        old(tokens).live(),
    ensures
        parsed_as(
            *old(tokens),
            *final(tokens),
            result_view_by(res, |v: Vec<Type>| type_views(v@)),
            generic_arguments_at(old(tokens).stream(), old(tokens).index()),
        ),
{
    if tokens.list_open(TokenType::LArrow, TokenType::RArrow)? {
        let res = parse_type_items(tokens, TokenType::Comma, TokenType::RArrow);
        assert(crate::ast::decl::types_result(res) == result_view_by(
            res,
            |v: Vec<Type>| type_views(v@),
        ));
        res
    } else {
        let empty: Vec<Type> = Vec::new();
        assert(type_views(empty@) =~= Seq::empty());
        Ok(empty)
    }
}

/// Parses the arena of a constructor, if one is written, and makes the
/// constructor of `object`.
fn parse_arena(tokens: &mut TokenCursor, object: ConstructorType) -> (res: ParseResult<Expresion>)
    requires
        old(tokens).live(),
    ensures
        parsed_as_opt(
            *old(tokens),
            *final(tokens),
            result_view(res),
            arena_at(old(tokens).stream(), old(tokens).index(), constructor_type_view(object)),
        ),
    decreases old(tokens).stream().len() - old(tokens).index(), 11int,
{
    let areana = if tokens.accept(TokenType::At) {
        Some(Box::new(Expresion::primary(tokens)?))
    } else {
        None
    };
    let constructor = Constructor { areana, object_to_construct: object };
    assert(constructor_view(constructor).object_to_construct == constructor_type_view(object));
    Ok(Expresion::Constructor(constructor))
}

/// Parses the arguments of a call of `function`.
fn parse_call(tokens: &mut TokenCursor, function: Expresion, generics: Vec<Type>) -> (res:
    ParseResult<Expresion>)
    requires
        old(tokens).live(),
    ensures
        parsed_as(
            *old(tokens),
            *final(tokens),
            result_view(res),
            call_at(
                old(tokens).stream(),
                old(tokens).index(),
                function@,
                type_views(generics@),
            ),
        ),
    decreases old(tokens).stream().len() - old(tokens).index(), 15int,
{
    tokens.consume(TokenType::LParen)?;
    let arguments = parse_expresion_list(tokens, TokenType::RParen)?;
    let ghost callee = function@;
    let call = FuncCall { function: Box::new(function), generics, arguments };
    assert(func_call_view(call).function == Box::new(callee));
    Ok(Expresion::FunctionCall(call))
}

/// Parses what starts with an identifier followed by `::`.
fn parse_path(tokens: &mut TokenCursor, name: Token) -> (res: ParseResult<Expresion>)
    requires
        old(tokens).live(),
        is_at(old(tokens).stream(), old(tokens).index() - 1, TokenType::Ident),
        name@ == old(tokens).stream()[old(tokens).index() - 1],
        is_at(old(tokens).stream(), old(tokens).index(), TokenType::DoubleColon),
    ensures
        parsed_as(
            *old(tokens),
            *final(tokens),
            result_view(res),
            path_at(old(tokens).stream(), old(tokens).index() - 1),
        ),
    decreases old(tokens).stream().len() - old(tokens).index(), 8int,
{
    tokens.consume(TokenType::DoubleColon)?;
    let varient_name = tokens.consume(TokenType::Ident)?;
    if tokens.at(TokenType::LBrace) {
        let fields = if tokens.optional_list_open(TokenType::LBrace, TokenType::RBrace) {
            parse_field_constructor_items(tokens, TokenType::Comma, TokenType::RBrace)?
        } else {
            let empty: Vec<FieldConstructor> = Vec::new();
            assert(field_constructor_views(empty@) =~= Seq::empty());
            empty
        };
        parse_arena(
            tokens,
            ConstructorType::EnumConstructor(
                EnumConstructor { enum_name: name, varient_name, fields },
            ),
        )
    } else if tokens.at(TokenType::LArrow) {
        let generics = parse_generic_arguments(tokens)?;
        parse_call(
            tokens,
            Expresion::TypeAssocatedFunction(
                TypeAssocatedFunction { type_: name, func_name: varient_name },
            ),
            generics,
        )
    } else if tokens.at(TokenType::LParen) {
        let generics: Vec<Type> = Vec::new();
        assert(type_views(generics@) =~= Seq::empty());
        parse_call(
            tokens,
            Expresion::TypeAssocatedFunction(
                TypeAssocatedFunction { type_: name, func_name: varient_name },
            ),
            generics,
        )
    } else {
        let expected = vec![TokenType::LBrace, TokenType::LParen, TokenType::LArrow];
        assert(expected@ =~= path_followers());
        Err(ParseError { expected, got: tokens.peek().copy() })
    }
}

impl Expresion {
    /// Parses an expression.
    pub fn parse(tokens: &mut TokenCursor) -> (res: ParseResult<Expresion>)
        requires
            old(tokens).live(),
        ensures
            parsed_as(
                *old(tokens),
                *final(tokens),
                result_view(res),
                expresion_at(old(tokens).stream(), old(tokens).index()),
            ),
        decreases old(tokens).stream().len() - old(tokens).index(), 12int,
    {
        let ghost ts = tokens.stream();
        let ghost start = tokens.index();
        let first = Expresion::primary(tokens)?;
        let ghost first_view = first@;
        let ghost after_first = tokens.index();
        let ghost init = Stacks { operands: seq![first_view], operators: Seq::empty() };
        let ghost mut sofar: Seq<(BinaryOp, ExpresionView)> = Seq::empty();
        let mut value_stack: Vec<Expresion> = Vec::new();
        let mut op_stack: Vec<BinaryOp> = Vec::new();
        value_stack.push(first);
        proof {
            lemma_prepend_empty(operands_at(ts, after_first));
            assert(stacks_of(value_stack, op_stack).operands =~= init.operands);
            assert(stacks_of(value_stack, op_stack).operators =~= init.operators);
        }
        while BinaryOp::is_next_bin_op(tokens)
            invariant
                tokens.live(),
                tokens.stream() == ts,
                ts == old(tokens).stream(),
                start == old(tokens).index(),
                start < after_first <= tokens.index(),
                first_view == primary_at(ts, start).0->Ok_0,
                progressed(ts, primary_at(ts, start), start),
                primary_at(ts, start).1 == after_first,
                init == (Stacks { operands: seq![first_view], operators: Seq::empty() }),
                operands_at(ts, after_first) == prepend(sofar, operands_at(ts, tokens.index())),
                stacks_of(value_stack, op_stack) == shift_all(init, sofar),
                balanced(shift_all(init, sofar)),
            decreases ts.len() - tokens.index(),
        {
            let ghost here = tokens.index();
            let ghost before = stacks_of(value_stack, op_stack);
            let op = BinaryOp::parse(tokens)?;
            loop
                invariant
                    balanced(stacks_of(value_stack, op_stack)),
                    reduce_for(stacks_of(value_stack, op_stack), op) == reduce_for(before, op),
                ensures
                    stacks_of(value_stack, op_stack) == reduce_for(before, op),
                decreases op_stack.len(),
            {
                if op_stack.len() == 0 {
                    break ;
                }
                if !op_stack[op_stack.len() - 1].goes_before(&op) {
                    break ;
                }
                reduce_top(&mut value_stack, &mut op_stack);
            }
            op_stack.push(op);
            let operand = Expresion::primary(tokens)?;
            let ghost reduced = reduce_for(before, op);
            let ghost value = operand@;
            value_stack.push(operand);
            proof {
                lemma_reduce_for_balanced(before, op);
                lemma_prepend_push(sofar, (op, value), operands_at(ts, tokens.index()));
                let grown = sofar.push((op, value));
                assert(grown.drop_last() =~= sofar);
                assert(stacks_of(value_stack, op_stack).operands =~= reduced.operands.push(value));
                assert(stacks_of(value_stack, op_stack).operators =~= reduced.operators.push(op));
                sofar = grown;
            }
        }
        let ghost shifted = stacks_of(value_stack, op_stack);
        loop
            invariant
                balanced(stacks_of(value_stack, op_stack)),
                reduce_all(stacks_of(value_stack, op_stack)) == reduce_all(shifted),
            ensures
                stacks_of(value_stack, op_stack) == reduce_all(shifted),
                op_stack.len() == 0,
                value_stack.len() == 1,
            decreases op_stack.len(),
        {
            if op_stack.len() == 0 {
                break ;
            }
            reduce_top(&mut value_stack, &mut op_stack);
        }
        proof {
            assert(sofar + Seq::empty() =~= sofar);
            lemma_fold_operators_is_tree(first_view, sofar);
        }
        Ok(value_stack.pop().unwrap())
    }

    /// Parses an operand: an atom, a cast after it if a colon follows, and
    /// what may follow an expression, as often as it comes.
    pub fn primary(tokens: &mut TokenCursor) -> (res: ParseResult<Expresion>)
        requires
            old(tokens).live(),
        ensures
            parsed_as(
                *old(tokens),
                *final(tokens),
                result_view(res),
                primary_at(old(tokens).stream(), old(tokens).index()),
            ),
        decreases old(tokens).stream().len() - old(tokens).index(), 10int,
    {
        let ghost ts = tokens.stream();
        let ghost start = tokens.index();
        let mut expr = Expresion::atom(tokens)?;
        if tokens.accept(TokenType::Colon) {
            let traits = if tokens.list_open(TokenType::LParen, TokenType::RParen)? {
                let res = parse_solid_type_items(tokens, TokenType::Plus, TokenType::RParen);
                assert(crate::ast::decl::solid_types_result(res) == result_view_by(
                    res,
                    |v: Vec<SolidType>| solid_type_views(v@),
                ));
                res?
            } else {
                let empty: Vec<SolidType> = Vec::new();
                assert(solid_type_views(empty@) =~= Seq::empty());
                empty
            };
            let ghost inner = expr@;
            let cast = Cast { expr: Box::new(expr), traits_to_cast_to: traits };
            assert(cast_view(cast).expr == Box::new(inner));
            expr = Expresion::Cast(cast);
        }
        let ghost after = tokens.index();
        let ghost stem = expr@;
        loop
            invariant
                tokens.live(),
                tokens.stream() == ts,
                ts == old(tokens).stream(),
                start == old(tokens).index(),
                start < after <= tokens.index(),
                primary_at(ts, start) == postfix_at(ts, after, stem),
                postfix_at(ts, after, stem) == postfix_at(ts, tokens.index(), expr@),
            decreases ts.len() - tokens.index(),
        {
            if tokens.at(TokenType::Dot) {
                tokens.next();
                let field = tokens.consume(TokenType::Ident)?;
                let ghost inner = expr@;
                let access = FieldAccess { expr: Box::new(expr), field };
                assert(field_access_view(access).expr == Box::new(inner));
                expr = Expresion::FieldAcess(access);
            } else if tokens.at(TokenType::LArrow) {
                let generics = parse_generic_arguments(tokens)?;
                expr = parse_call(tokens, expr, generics)?;
            } else if tokens.at(TokenType::LParen) {
                let generics: Vec<Type> = Vec::new();
                assert(type_views(generics@) =~= Seq::empty());
                expr = parse_call(tokens, expr, generics)?;
            } else if tokens.at(TokenType::LBrack) {
                tokens.next();
                let index = Expresion::parse(tokens)?;
                tokens.consume(TokenType::RBrack)?;
                let ghost inner = expr@;
                let indexed = Index { expr: Box::new(expr), index: Box::new(index) };
                assert(index_view(indexed).expr == Box::new(inner));
                expr = Expresion::Index(indexed);
            } else {
                return Ok(expr);
            }
        }
    }

    /// Parses an expression without what may follow it.
    pub fn atom(tokens: &mut TokenCursor) -> (res: ParseResult<Expresion>)
        requires
            old(tokens).live(),
        ensures
            parsed_as(
                *old(tokens),
                *final(tokens),
                result_view(res),
                atom_at(old(tokens).stream(), old(tokens).index()),
            ),
        decreases old(tokens).stream().len() - old(tokens).index(), 9int,
    {
        match tokens.peek_kind() {
            TokenType::Minus | TokenType::Bang => Ok(Expresion::Unary(Unary::parse(tokens)?)),
            TokenType::Int => Ok(Expresion::IntLitteral(tokens.next())),
            TokenType::Float => Ok(Expresion::FloatLitteral(tokens.next())),
            TokenType::String => Ok(Expresion::StringLitteral(tokens.next())),
            TokenType::True => {
                tokens.next();
                Ok(Expresion::True)
            },
            TokenType::False => {
                tokens.next();
                Ok(Expresion::False)
            },
            TokenType::LBrack => {
                tokens.next();
                let elements = parse_expresion_list(tokens, TokenType::RBrack)?;
                parse_arena(tokens, ConstructorType::ArrayConstructor(elements))
            },
            TokenType::LBrace => {
                tokens.next();
                Ok(Expresion::Block(crate::ast::statments::parse_block(tokens)?))
            },
            TokenType::Ident => {
                let name = tokens.next();
                if tokens.at(TokenType::DoubleColon) {
                    parse_path(tokens, name)
                } else if tokens.at(TokenType::LBrace) {
                    let fields = if tokens.list_open(TokenType::LBrace, TokenType::RBrace)? {
                        parse_field_constructor_items(
                            tokens,
                            TokenType::Comma,
                            TokenType::RBrace,
                        )?
                    } else {
                        let empty: Vec<FieldConstructor> = Vec::new();
                        assert(field_constructor_views(empty@) =~= Seq::empty());
                        empty
                    };
                    parse_arena(
                        tokens,
                        ConstructorType::StructConstructor(
                            StructConstructor { struct_name: name, fields },
                        ),
                    )
                } else {
                    Ok(Expresion::VarAccess(name))
                }
            },
            TokenType::LParen => {
                tokens.next();
                let expr = Expresion::parse(tokens)?;
                tokens.consume(TokenType::RParen)?;
                Ok(expr)
            },
            _ => {
                let expected = vec![
                    TokenType::Minus,
                    TokenType::Bang,
                    TokenType::Int,
                    TokenType::Float,
                    TokenType::String,
                    TokenType::True,
                    TokenType::False,
                    TokenType::Ident,
                    TokenType::LBrack,
                    TokenType::LBrace,
                    TokenType::LParen,
                ];
                assert(expected@ =~= primary_starts());
                Err(ParseError { expected, got: tokens.next() })
            },
        }
    }
}

// ---------------------------------------------------------------------------
// Copies
// ---------------------------------------------------------------------------

/// A copy of `x` with the same value.
pub fn clone_type_assocated_function(x: &TypeAssocatedFunction) -> (r: TypeAssocatedFunction)
    ensures
        r@ == x@,
{
    TypeAssocatedFunction { type_: x.type_.copy(), func_name: x.func_name.copy() }
}

/// A copy of `x` with the same value.
pub fn clone_expresion(x: &Expresion) -> (r: Expresion)
    ensures
        r@ == x@,
    decreases x,
{
    match x {
        Expresion::IntLitteral(a) => Expresion::IntLitteral(a.copy()),
        Expresion::FloatLitteral(a) => Expresion::FloatLitteral(a.copy()),
        Expresion::StringLitteral(a) => Expresion::StringLitteral(a.copy()),
        Expresion::TypeAssocatedFunction(a) => {
            Expresion::TypeAssocatedFunction(clone_type_assocated_function(a))
        },
        Expresion::VarAccess(a) => Expresion::VarAccess(a.copy()),
        Expresion::True => Expresion::True,
        Expresion::False => Expresion::False,
        Expresion::FunctionCall(a) => Expresion::FunctionCall(clone_func_call(a)),
        Expresion::FieldAcess(a) => Expresion::FieldAcess(clone_field_access(a)),
        Expresion::Index(a) => Expresion::Index(clone_index(a)),
        Expresion::Constructor(a) => Expresion::Constructor(clone_constructor(a)),
        Expresion::Cast(a) => Expresion::Cast(clone_cast(a)),
        Expresion::Parens(a) => Expresion::Parens(Box::new(clone_expresion(&**a))),
        Expresion::Unary(a) => Expresion::Unary(clone_unary(a)),
        Expresion::Binary(a) => Expresion::Binary(clone_binary(a)),
        Expresion::Block(a) => Expresion::Block(clone_statments(a)),
    }
}

impl Clone for Expresion {
    fn clone(&self) -> (r: Self)
        ensures
            r@ == self@,
    {
        clone_expresion(self)
    }
}

/// A copy of `x` with the same value.
pub fn clone_constructor(x: &Constructor) -> (r: Constructor)
    ensures
        r@ == x@,
    decreases x,
{
    Constructor {
        areana: match &x.areana {
            Some(v) => Some(Box::new(clone_expresion(&**v))),
            None => None,
        },
        object_to_construct: clone_constructor_type(&x.object_to_construct),
    }
}

impl Clone for Constructor {
    fn clone(&self) -> (r: Self)
        ensures
            r@ == self@,
    {
        clone_constructor(self)
    }
}

/// A copy of `x` with the same value.
pub fn clone_constructor_type(x: &ConstructorType) -> (r: ConstructorType)
    ensures
        r@ == x@,
    decreases x,
{
    match x {
        ConstructorType::StructConstructor(a) => {
            ConstructorType::StructConstructor(clone_struct_constructor(a))
        },
        ConstructorType::EnumConstructor(a) => {
            ConstructorType::EnumConstructor(clone_enum_constructor(a))
        },
        ConstructorType::ArrayConstructor(a) => {
            ConstructorType::ArrayConstructor(clone_expresions(a))
        },
    }
}

impl Clone for ConstructorType {
    fn clone(&self) -> (r: Self)
        ensures
            r@ == self@,
    {
        clone_constructor_type(self)
    }
}

/// A copy of `x` with the same value.
pub fn clone_cast(x: &Cast) -> (r: Cast)
    ensures
        r@ == x@,
    decreases x,
{
    Cast {
        expr: Box::new(clone_expresion(&*x.expr)),
        traits_to_cast_to: clone_solid_types(&x.traits_to_cast_to),
    }
}

impl Clone for Cast {
    fn clone(&self) -> (r: Self)
        ensures
            r@ == self@,
    {
        clone_cast(self)
    }
}

/// A copy of `x` with the same value.
pub fn clone_enum_constructor(x: &EnumConstructor) -> (r: EnumConstructor)
    ensures
        r@ == x@,
    decreases x,
{
    EnumConstructor {
        enum_name: x.enum_name.copy(),
        varient_name: x.varient_name.copy(),
        fields: clone_field_constructors(&x.fields),
    }
}

impl Clone for EnumConstructor {
    fn clone(&self) -> (r: Self)
        ensures
            r@ == self@,
    {
        clone_enum_constructor(self)
    }
}

/// A copy of `x` with the same value.
pub fn clone_struct_constructor(x: &StructConstructor) -> (r: StructConstructor)
    ensures
        r@ == x@,
    decreases x,
{
    StructConstructor {
        struct_name: x.struct_name.copy(),
        fields: clone_field_constructors(&x.fields),
    }
}

impl Clone for StructConstructor {
    fn clone(&self) -> (r: Self)
        ensures
            r@ == self@,
    {
        clone_struct_constructor(self)
    }
}

/// A copy of `x` with the same value.
pub fn clone_field_constructor(x: &FieldConstructor) -> (r: FieldConstructor)
    ensures
        r@ == x@,
    decreases x,
{
    FieldConstructor {
        name: x.name.copy(),
        value: Box::new(clone_expresion(&*x.value)),
    }
}

impl Clone for FieldConstructor {
    fn clone(&self) -> (r: Self)
        ensures
            r@ == self@,
    {
        clone_field_constructor(self)
    }
}

/// A copy of `x` with the same value.
pub fn clone_index(x: &Index) -> (r: Index)
    ensures
        r@ == x@,
    decreases x,
{
    Index {
        expr: Box::new(clone_expresion(&*x.expr)),
        index: Box::new(clone_expresion(&*x.index)),
    }
}

impl Clone for Index {
    fn clone(&self) -> (r: Self)
        ensures
            r@ == self@,
    {
        clone_index(self)
    }
}

/// A copy of `x` with the same value.
pub fn clone_field_access(x: &FieldAccess) -> (r: FieldAccess)
    ensures
        r@ == x@,
    decreases x,
{
    FieldAccess {
        expr: Box::new(clone_expresion(&*x.expr)),
        field: x.field.copy(),
    }
}

impl Clone for FieldAccess {
    fn clone(&self) -> (r: Self)
        ensures
            r@ == self@,
    {
        clone_field_access(self)
    }
}

/// A copy of `x` with the same value.
pub fn clone_unary(x: &Unary) -> (r: Unary)
    ensures
        r@ == x@,
    decreases x,
{
    Unary {
        unary_op: x.unary_op,
        expr: Box::new(clone_expresion(&*x.expr)),
    }
}

impl Clone for Unary {
    fn clone(&self) -> (r: Self)
        ensures
            r@ == self@,
    {
        clone_unary(self)
    }
}

/// A copy of `x` with the same value.
pub fn clone_func_call(x: &FuncCall) -> (r: FuncCall)
    ensures
        r@ == x@,
    decreases x,
{
    FuncCall {
        function: Box::new(clone_expresion(&*x.function)),
        generics: clone_types(&x.generics),
        arguments: clone_expresions(&x.arguments),
    }
}

impl Clone for FuncCall {
    fn clone(&self) -> (r: Self)
        ensures
            r@ == self@,
    {
        clone_func_call(self)
    }
}

/// A copy of `x` with the same value.
pub fn clone_binary(x: &Binary) -> (r: Binary)
    ensures
        r@ == x@,
    decreases x,
{
    Binary {
        lhs: Box::new(clone_expresion(&*x.lhs)),
        rhs: Box::new(clone_expresion(&*x.rhs)),
        binary_op: x.binary_op,
    }
}

impl Clone for Binary {
    fn clone(&self) -> (r: Self)
        ensures
            r@ == self@,
    {
        clone_binary(self)
    }
}

/// Copies of the items of `v`, with the same values.
pub fn clone_expresions(v: &Vec<Expresion>) -> (r: Vec<Expresion>)
    ensures
        expresion_views(r@) == expresion_views(v@),
    decreases v,
{
    let mut out: Vec<Expresion> = Vec::new();
    let mut i: usize = 0;
    while i < v.len()
        invariant
            i <= v.len(),
            out.len() == i,
            forall|j: int| 0 <= j < i ==> expresion_views(out@)[j] == expresion_views(v@)[j],
        decreases v.len() - i,
    {
        let ghost before = out@;
        let item = clone_expresion(&v[i]);
        out.push(item);
        assert forall|j: int|
            0 <= j < i + 1 implies
            expresion_views(out@)[j] == expresion_views(v@)[j]
        by {
            if j < i {
                assert(out@[j] == before[j]);
                assert(expresion_views(before)[j] == expresion_views(v@)[j]);
            }
        }
        i = i + 1;
    }
    assert(expresion_views(out@) =~= expresion_views(v@));
    out
}

/// Copies of the items of `v`, with the same values.
pub fn clone_field_constructors(v: &Vec<FieldConstructor>) -> (r: Vec<FieldConstructor>)
    ensures
        field_constructor_views(r@) == field_constructor_views(v@),
    decreases v,
{
    let mut out: Vec<FieldConstructor> = Vec::new();
    let mut i: usize = 0;
    while i < v.len()
        invariant
            i <= v.len(),
            out.len() == i,
            forall|j: int| 0 <= j < i
                ==> field_constructor_views(out@)[j] == field_constructor_views(v@)[j],
        decreases v.len() - i,
    {
        let ghost before = out@;
        let item = clone_field_constructor(&v[i]);
        out.push(item);
        assert forall|j: int|
            0 <= j < i + 1 implies
            field_constructor_views(out@)[j] == field_constructor_views(v@)[j]
        by {
            if j < i {
                assert(out@[j] == before[j]);
                assert(field_constructor_views(before)[j] == field_constructor_views(v@)[j]);
            }
        }
        i = i + 1;
    }
    assert(field_constructor_views(out@) =~= field_constructor_views(v@));
    out
}

// ---------------------------------------------------------------------------
// What the generic list parsers can parse
// ---------------------------------------------------------------------------

impl Parsable for Expresion {
    type Value = ExpresionView;

    open spec fn value(&self) -> ExpresionView {
        self@
    }

    open spec fn parsed_at(ts: Seq<TokenView>, pos: int) -> Parsed<ExpresionView> {
        expresion_at(ts, pos)
    }

    fn parse(tokens: &mut TokenCursor) -> (res: ParseResult<Expresion>) {
        Expresion::parse(tokens)
    }
}

impl Parsable for BinaryOp {
    type Value = BinaryOp;

    open spec fn value(&self) -> BinaryOp {
        *self
    }

    open spec fn parsed_at(ts: Seq<TokenView>, pos: int) -> Parsed<BinaryOp> {
        binary_op_at(ts, pos)
    }

    fn parse(tokens: &mut TokenCursor) -> (res: ParseResult<BinaryOp>) {
        BinaryOp::parse(tokens)
    }
}

impl Parsable for ArrayConstructor {
    type Value = Seq<ExpresionView>;

    open spec fn value(&self) -> Seq<ExpresionView> {
        expresion_views(self@)
    }

    open spec fn parsed_at(ts: Seq<TokenView>, pos: int) -> Parsed<Seq<ExpresionView>> {
        array_constructor_at(ts, pos)
    }

    fn parse(tokens: &mut TokenCursor) -> (res: ParseResult<ArrayConstructor>) {
        parse_array_constructor(tokens)
    }
}

impl Parsable for FieldConstructor {
    type Value = FieldConstructorView;

    open spec fn value(&self) -> FieldConstructorView {
        self@
    }

    open spec fn parsed_at(ts: Seq<TokenView>, pos: int) -> Parsed<FieldConstructorView> {
        field_constructor_at(ts, pos)
    }

    fn parse(tokens: &mut TokenCursor) -> (res: ParseResult<FieldConstructor>) {
        FieldConstructor::parse(tokens)
    }
}

impl Parsable for Unary {
    type Value = UnaryView;

    open spec fn value(&self) -> UnaryView {
        self@
    }

    open spec fn parsed_at(ts: Seq<TokenView>, pos: int) -> Parsed<UnaryView> {
        unary_at(ts, pos)
    }

    fn parse(tokens: &mut TokenCursor) -> (res: ParseResult<Unary>) {
        Unary::parse(tokens)
    }
}

impl Parsable for UnaryOp {
    type Value = UnaryOp;

    open spec fn value(&self) -> UnaryOp {
        *self
    }

    open spec fn parsed_at(ts: Seq<TokenView>, pos: int) -> Parsed<UnaryOp> {
        unary_op_at(ts, pos)
    }

    fn parse(tokens: &mut TokenCursor) -> (res: ParseResult<UnaryOp>) {
        UnaryOp::parse(tokens)
    }
}

} // verus!
