//! Statements: the tree, its mathematical value, the model of its grammar,
//! and the parser.

use crate::ast::decl::{
    clone_function_decl, clone_type, function_decl_at, function_decl_view, type_at, type_view,
    FunctionDecl, FunctionDeclView, Type, TypeView,
};
use crate::ast::expresions::{
    can_start_primary, starts_primary, clone_expresion, expresion_at, expresion_view, Expresion,
    ExpresionView,
};
use crate::ast::parser::{
    kind_at, close_at, expect_at, fail, is_at, lemma_prepend_empty, lemma_prepend_push, map_ok, one,
    parsed_as, prepend, progressed, result_view, result_view_by, Parsable, ParseError,
    ParseErrorView, ParseResult, Parsed, TokenCursor,
};
use crate::scanner::{Token, TokenType, TokenView};
use vstd::prelude::*;

verus! {

/// `return;` or `return statement`.
pub type Return = Option<Box<Statment>>;

/// The statements between two braces.
pub type Block = Vec<Statment>;

/// A statement.
#[derive(Debug)]
pub enum Statment {
    VarCreation(VarCreation),
    FuncCreation(FunctionDecl),
    Expresion(Expresion),
    If(If),
    While(While),
    Return(Return),
    ImReturn(Box<Statment>),
    Block(Block),
    Continue,
    Break,
    Panic,
}

/// The mathematical value of a [`Statment`].
pub ghost enum StatmentView {
    VarCreation(VarCreationView),
    FuncCreation(FunctionDeclView),
    Expresion(ExpresionView),
    If(IfView),
    While(WhileView),
    Return(Option<Box<StatmentView>>),
    ImReturn(Box<StatmentView>),
    Block(Seq<StatmentView>),
    Continue,
    Break,
    Panic,
}

/// The value of `x`.
pub open spec fn statment_view(x: Statment) -> StatmentView
    decreases x,
{
    match x {
        Statment::VarCreation(a) => StatmentView::VarCreation(var_creation_view(a)),
        Statment::FuncCreation(a) => StatmentView::FuncCreation(function_decl_view(a)),
        Statment::Expresion(a) => StatmentView::Expresion(expresion_view(a)),
        Statment::If(a) => StatmentView::If(if_view(a)),
        Statment::While(a) => StatmentView::While(while_view(a)),
        Statment::Return(a) => StatmentView::Return(match a {
            Some(v) => Some(Box::new(statment_view(*v))),
            None => None,
        }),
        Statment::ImReturn(a) => StatmentView::ImReturn(Box::new(statment_view(*a))),
        Statment::Block(a) => StatmentView::Block(statment_views(a@)),
        Statment::Continue => StatmentView::Continue,
        Statment::Break => StatmentView::Break,
        Statment::Panic => StatmentView::Panic,
    }
}

impl View for Statment {
    type V = StatmentView;

    open spec fn view(&self) -> StatmentView {
        statment_view(*self)
    }
}

/// `while condition statement`.
#[derive(Debug)]
pub struct While {
    pub condition: Expresion,
    pub statment: Box<Statment>,
}

/// The mathematical value of a [`While`].
pub ghost struct WhileView {
    pub condition: ExpresionView,
    pub statment: Box<StatmentView>,
}

/// The value of `x`.
pub open spec fn while_view(x: While) -> WhileView
    decreases x,
{
    WhileView {
        condition: expresion_view(x.condition),
        statment: Box::new(statment_view(*x.statment)),
    }
}

impl View for While {
    type V = WhileView;

    open spec fn view(&self) -> WhileView {
        while_view(*self)
    }
}

/// `if .. else if .. else ..`: the guarded arms in order, and the last `else` if there is one.
#[derive(Debug)]
pub struct If {
    pub conditionals_and_statments: Vec<(IfType, Statment)>,
    pub else_statment: Option<Box<Statment>>,
}

/// The mathematical value of an [`If`].
pub ghost struct IfView {
    pub conditionals_and_statments: Seq<(IfTypeView, StatmentView)>,
    pub else_statment: Option<Box<StatmentView>>,
}

/// The value of `x`.
pub open spec fn if_view(x: If) -> IfView
    decreases x,
{
    IfView {
        conditionals_and_statments: arm_views(x.conditionals_and_statments@),
        else_statment: match x.else_statment {
            Some(v) => Some(Box::new(statment_view(*v))),
            None => None,
        },
    }
}

impl View for If {
    type V = IfView;

    open spec fn view(&self) -> IfView {
        if_view(*self)
    }
}

/// The guard of one arm: a condition, or `let pattern expression`.
#[derive(Debug)]
pub enum IfType {
    Boolean(Expresion),
    IfLet { pattern: Pattern, expresion: Expresion },
}

/// The mathematical value of an [`IfType`].
pub ghost enum IfTypeView {
    Boolean(ExpresionView),
    IfLet { pattern: PatternView, expresion: ExpresionView },
}

/// The value of `x`.
pub open spec fn if_type_view(x: IfType) -> IfTypeView
    decreases x,
{
    match x {
        IfType::Boolean(a) => IfTypeView::Boolean(expresion_view(a)),
        IfType::IfLet { pattern, expresion } => IfTypeView::IfLet {
            pattern: pattern_view(pattern),
            expresion: expresion_view(expresion),
        },
    }
}

impl View for IfType {
    type V = IfTypeView;

    open spec fn view(&self) -> IfTypeView {
        if_type_view(*self)
    }
}

/// `Type.Variant { name, name: pattern, .. }`.
#[derive(Debug)]
pub struct Pattern {
    pub type_of: Type,
    pub varient: Option<Token>,
    pub constructor: Vec<(Token, Option<Pattern>)>,
}

/// The mathematical value of a [`Pattern`].
pub ghost struct PatternView {
    pub type_of: TypeView,
    pub varient: Option<TokenView>,
    pub constructor: Seq<(TokenView, Option<PatternView>)>,
}

/// The value of `x`.
pub open spec fn pattern_view(x: Pattern) -> PatternView
    decreases x,
{
    PatternView {
        type_of: type_view(x.type_of),
        varient: match x.varient { Some(v) => Some(v@), None => None },
        constructor: binding_views(x.constructor@),
    }
}

impl View for Pattern {
    type V = PatternView;

    open spec fn view(&self) -> PatternView {
        pattern_view(*self)
    }
}

/// `let mut name: Type = statement`.
#[derive(Debug)]
pub struct VarCreation {
    pub mutable: bool,
    pub name: Token,
    pub type_of: Option<Type>,
    pub value: Box<Statment>,
}

/// The mathematical value of a [`VarCreation`].
pub ghost struct VarCreationView {
    pub mutable: bool,
    pub name: TokenView,
    pub type_of: Option<TypeView>,
    pub value: Box<StatmentView>,
}

/// The value of `x`.
pub open spec fn var_creation_view(x: VarCreation) -> VarCreationView
    decreases x,
{
    VarCreationView {
        mutable: x.mutable,
        name: x.name@,
        type_of: match x.type_of { Some(v) => Some(type_view(v)), None => None },
        value: Box::new(statment_view(*x.value)),
    }
}

impl View for VarCreation {
    type V = VarCreationView;

    open spec fn view(&self) -> VarCreationView {
        var_creation_view(*self)
    }
}

/// The values of a sequence of statements.
pub open spec fn statment_views(s: Seq<Statment>) -> Seq<StatmentView>
    decreases s,
{
    Seq::new(
        s.len(),
        |i: int|
            if 0 <= i < s.len() {
                statment_view(s[i])
            } else {
                arbitrary()
            },
    )
}

/// The values of a sequence of guarded arms.
pub open spec fn arm_views(s: Seq<(IfType, Statment)>) -> Seq<(IfTypeView, StatmentView)>
    decreases s,
{
    Seq::new(
        s.len(),
        |i: int|
            if 0 <= i < s.len() {
                (if_type_view(s[i].0), statment_view(s[i].1))
            } else {
                arbitrary()
            },
    )
}

/// The values of a sequence of pattern bindings.
pub open spec fn binding_views(
    s: Seq<(Token, Option<Pattern>)>,
) -> Seq<(TokenView, Option<PatternView>)>
    decreases s,
{
    Seq::new(
        s.len(),
        |i: int|
            if 0 <= i < s.len() {
                (s[i].0@, match s[i].1 { Some(v) => Some(pattern_view(v)), None => None })
            } else {
                arbitrary()
            },
    )
}

// ---------------------------------------------------------------------------
// The grammar of patterns
// ---------------------------------------------------------------------------

/// The value of one pattern binding.
pub open spec fn binding_view(b: (Token, Option<Pattern>)) -> (TokenView, Option<PatternView>) {
    (
        b.0@,
        match b.1 {
            Some(p) => Some(pattern_view(p)),
            None => None,
        },
    )
}

/// A binding at `pos`: a name, and a pattern after a colon if one is
/// written.
pub open spec fn binding_at(ts: Seq<TokenView>, pos: int) -> Parsed<
    (TokenView, Option<PatternView>),
>
    decreases ts.len() - pos, 1int,
{
    let name = expect_at(ts, pos, TokenType::Ident);
    if name.0 is Err {
        fail(name)
    } else if is_at(ts, pos + 1, TokenType::Colon) {
        map_ok(pattern_at(ts, pos + 2), |p: PatternView| (name.0->Ok_0, Some(p)))
    } else {
        (Ok((name.0->Ok_0, None)), pos + 1)
    }
}

/// Pattern bindings from `pos` on, `delim` between them, up to and with `end`.
pub open spec fn binding_items_at(
    ts: Seq<TokenView>,
    pos: int,
    delim: TokenType,
    end: TokenType,
) -> Parsed<Seq<(TokenView, Option<PatternView>)>>
    decreases ts.len() - pos, 3int,
{
    let item = binding_at(ts, pos);
    if !progressed(ts, item, pos) {
        fail(item)
    } else if is_at(ts, item.1, delim) {
        prepend(seq![item.0->Ok_0], binding_items_at(ts, item.1 + 1, delim, end))
    } else {
        map_ok(close_at(ts, item.1, delim, end), |t: TokenView| seq![item.0->Ok_0])
    }
}

/// The value of a parsed list of pattern bindings.
pub open spec fn bindings_result(
    r: ParseResult<Vec<(Token, Option<Pattern>)>>,
) -> Result<Seq<(TokenView, Option<PatternView>)>, ParseErrorView> {
    result_view_by(r, |v: Vec<(Token, Option<Pattern>)>| binding_views(v@))
}

/// A pattern at `pos`: a type, a variant after a dot if one is written,
/// and bindings between braces if there are any.
pub open spec fn pattern_at(ts: Seq<TokenView>, pos: int) -> Parsed<PatternView>
    decreases ts.len() - pos, 2int,
{
    let type_of = type_at(ts, pos);
    if !progressed(ts, type_of, pos) {
        fail(type_of)
    } else {
        let varient = if is_at(ts, type_of.1, TokenType::Dot) {
            map_ok(expect_at(ts, type_of.1 + 1, TokenType::Ident), |t: TokenView| Some(t))
        } else {
            (Ok(None), type_of.1)
        };
        if varient.0 is Err {
            fail(varient)
        } else {
            let constructor = if !is_at(ts, varient.1, TokenType::LBrace) {
                (Ok(Seq::empty()), varient.1)
            } else if is_at(ts, varient.1 + 1, TokenType::RBrace) {
                (Ok(Seq::empty()), varient.1 + 2)
            } else {
                binding_items_at(ts, varient.1 + 1, TokenType::Comma, TokenType::RBrace)
            };
            map_ok(
                constructor,
                |c: Seq<(TokenView, Option<PatternView>)>|
                    PatternView {
                        type_of: type_of.0->Ok_0,
                        varient: varient.0->Ok_0,
                        constructor: c,
                    },
            )
        }
    }
}

// ---------------------------------------------------------------------------
// The grammar of statements
// ---------------------------------------------------------------------------

/// The kinds that can start a statement: those of a statement that is no
/// expression, and those that can start an expression. An error names them
/// where a statement starts with none of them.
pub open spec fn statment_starts() -> Seq<TokenType> {
    seq![
        TokenType::Let,
        TokenType::Fn,
        TokenType::Continue,
        TokenType::Break,
        TokenType::If,
        TokenType::While,
        TokenType::Return,
        TokenType::LBrace,
        TokenType::Panic,
        TokenType::Minus,
        TokenType::Bang,
        TokenType::Int,
        TokenType::Float,
        TokenType::String,
        TokenType::True,
        TokenType::False,
        TokenType::Ident,
        TokenType::LBrack,
        TokenType::LParen,
    ]
}

/// The kinds that can follow the expression of an expression statement:
/// `;`, or the closing brace of the block whose value the expression is.
pub open spec fn statment_ends() -> Seq<TokenType> {
    seq![TokenType::SemiColon, TokenType::RBrace]
}

/// Statements from `pos` on, up to and with the closing brace.
pub open spec fn block_at(ts: Seq<TokenView>, pos: int) -> Parsed<Seq<StatmentView>>
    decreases ts.len() - pos, 20int,
{
    if is_at(ts, pos, TokenType::RBrace) {
        (Ok(Seq::empty()), pos + 1)
    } else {
        let first = statment_at(ts, pos);
        if !progressed(ts, first, pos) {
            fail(first)
        } else {
            prepend(seq![first.0->Ok_0], block_at(ts, first.1))
        }
    }
}

/// `let`, `mut` if written, a name, a type after a colon if written, `=`
/// and a statement, at `pos`.
pub open spec fn var_creation_at(ts: Seq<TokenView>, pos: int) -> Parsed<VarCreationView>
    decreases ts.len() - pos, 18int,
{
    let mutable = is_at(ts, pos + 1, TokenType::Mut);
    let at_name = if mutable {
        pos + 2
    } else {
        pos + 1
    };
    let name = expect_at(ts, at_name, TokenType::Ident);
    if !is_at(ts, pos, TokenType::Let) {
        fail(expect_at(ts, pos, TokenType::Let))
    } else if name.0 is Err {
        fail(name)
    } else {
        let type_of = if is_at(ts, at_name + 1, TokenType::Colon) {
            map_ok(type_at(ts, at_name + 2), |t: TypeView| Some(t))
        } else {
            (Ok(None), at_name + 1)
        };
        if !progressed(ts, type_of, pos) {
            fail(type_of)
        } else if !is_at(ts, type_of.1, TokenType::Equal) {
            fail(expect_at(ts, type_of.1, TokenType::Equal))
        } else {
            map_ok(
                statment_at(ts, type_of.1 + 1),
                |v: StatmentView|
                    VarCreationView {
                        mutable: mutable,
                        name: name.0->Ok_0,
                        type_of: type_of.0->Ok_0,
                        value: Box::new(v),
                    },
            )
        }
    }
}

/// `return;` or `return statement` at `pos`.
pub open spec fn return_at(ts: Seq<TokenView>, pos: int) -> Parsed<Option<Box<StatmentView>>>
    decreases ts.len() - pos, 18int,
{
    if !is_at(ts, pos, TokenType::Return) {
        fail(expect_at(ts, pos, TokenType::Return))
    } else if is_at(ts, pos + 1, TokenType::SemiColon) {
        (Ok(None), pos + 2)
    } else {
        map_ok(statment_at(ts, pos + 1), |s: StatmentView| Some(Box::new(s)))
    }
}

/// `while condition statement` at `pos`.
pub open spec fn while_at(ts: Seq<TokenView>, pos: int) -> Parsed<WhileView>
    decreases ts.len() - pos, 18int,
{
    if !is_at(ts, pos, TokenType::While) {
        fail(expect_at(ts, pos, TokenType::While))
    } else {
        let condition = expresion_at(ts, pos + 1);
        if !progressed(ts, condition, pos) {
            fail(condition)
        } else {
            map_ok(
                statment_at(ts, condition.1),
                |s: StatmentView| WhileView { condition: condition.0->Ok_0, statment: Box::new(s) },
            )
        }
    }
}

/// The guard of an arm at `pos`: `let pattern expression`, or a condition.
pub open spec fn if_type_at(ts: Seq<TokenView>, pos: int) -> Parsed<IfTypeView>
    decreases ts.len() - pos, 16int,
{
    if is_at(ts, pos, TokenType::Let) {
        let pattern = pattern_at(ts, pos + 1);
        if !progressed(ts, pattern, pos) {
            fail(pattern)
        } else {
            map_ok(
                expresion_at(ts, pattern.1),
                |e: ExpresionView| IfTypeView::IfLet { pattern: pattern.0->Ok_0, expresion: e },
            )
        }
    } else {
        map_ok(expresion_at(ts, pos), |e: ExpresionView| IfTypeView::Boolean(e))
    }
}

/// One arm at `pos`: a guard and the statement that it guards.
pub open spec fn arm_at(ts: Seq<TokenView>, pos: int) -> Parsed<(IfTypeView, StatmentView)>
    decreases ts.len() - pos, 17int,
{
    let guard = if_type_at(ts, pos);
    if !progressed(ts, guard, pos) {
        fail(guard)
    } else {
        map_ok(statment_at(ts, guard.1), |s: StatmentView| (guard.0->Ok_0, s))
    }
}

/// What follows the first arm of an `if`, from `pos` on: `else if` arms as
/// long as they come, and a last `else` if one is written. A token that
/// is no `else` is left where it is.
pub open spec fn else_arms_at(ts: Seq<TokenView>, pos: int) -> Parsed<
    (Seq<(IfTypeView, StatmentView)>, Option<Box<StatmentView>>),
>
    decreases ts.len() - pos, 18int,
{
    if !is_at(ts, pos, TokenType::Else) {
        (Ok((Seq::empty(), None)), pos)
    } else if is_at(ts, pos + 1, TokenType::If) {
        let arm = arm_at(ts, pos + 2);
        if !progressed(ts, arm, pos) {
            fail(arm)
        } else {
            with_arms(seq![arm.0->Ok_0], else_arms_at(ts, arm.1))
        }
    } else {
        map_ok(
            statment_at(ts, pos + 1),
            |s: StatmentView| (Seq::<(IfTypeView, StatmentView)>::empty(), Some(Box::new(s))),
        )
    }
}

/// `if` with its arms at `pos`.
pub open spec fn if_at(ts: Seq<TokenView>, pos: int) -> Parsed<IfView>
    decreases ts.len() - pos, 18int,
{
    if !is_at(ts, pos, TokenType::If) {
        fail(expect_at(ts, pos, TokenType::If))
    } else {
        let first = arm_at(ts, pos + 1);
        if !progressed(ts, first, pos) {
            fail(first)
        } else {
            map_ok(
                with_arms(seq![first.0->Ok_0], else_arms_at(ts, first.1)),
                |arms: (Seq<(IfTypeView, StatmentView)>, Option<Box<StatmentView>>)|
                    IfView { conditionals_and_statments: arms.0, else_statment: arms.1 },
            )
        }
    }
}

/// An expression statement at `pos`: an expression, then `;`, or nothing
/// where the closing brace of the block follows, which makes it the value
/// of the block. Where the first token can start no expression, the error
/// names every kind that can start a statement; an error inside the
/// expression is that of the expression.
pub open spec fn expresion_statment_at(ts: Seq<TokenView>, pos: int) -> Parsed<StatmentView>
    decreases ts.len() - pos, 18int,
{
    if !starts_primary(kind_at(ts, pos)) {
        (Err(ParseErrorView { expected: statment_starts(), got: ts[pos] }), pos + 1)
    } else {
        let e = expresion_at(ts, pos);
        match e.0 {
            Err(err) => (Err(err), e.1),
            Ok(v) => if is_at(ts, e.1, TokenType::SemiColon) {
                (Ok(StatmentView::Expresion(v)), e.1 + 1)
            } else if is_at(ts, e.1, TokenType::RBrace) {
                (Ok(StatmentView::ImReturn(Box::new(StatmentView::Expresion(v)))), e.1)
            } else {
                (Err(ParseErrorView { expected: statment_ends(), got: ts[e.1] }), e.1 + 1)
            },
        }
    }
}

/// A statement at `pos`.
pub open spec fn statment_at(ts: Seq<TokenView>, pos: int) -> Parsed<StatmentView>
    decreases ts.len() - pos, 19int,
{
    if is_at(ts, pos, TokenType::Let) {
        map_ok(var_creation_at(ts, pos), |v: VarCreationView| StatmentView::VarCreation(v))
    } else if is_at(ts, pos, TokenType::Fn) {
        map_ok(function_decl_at(ts, pos), |f: FunctionDeclView| StatmentView::FuncCreation(f))
    } else if is_at(ts, pos, TokenType::Continue) {
        map_ok(expect_at(ts, pos + 1, TokenType::SemiColon), |t: TokenView| StatmentView::Continue)
    } else if is_at(ts, pos, TokenType::Break) {
        map_ok(expect_at(ts, pos + 1, TokenType::SemiColon), |t: TokenView| StatmentView::Break)
    } else if is_at(ts, pos, TokenType::If) {
        map_ok(if_at(ts, pos), |i: IfView| StatmentView::If(i))
    } else if is_at(ts, pos, TokenType::While) {
        map_ok(while_at(ts, pos), |w: WhileView| StatmentView::While(w))
    } else if is_at(ts, pos, TokenType::Return) {
        map_ok(return_at(ts, pos), |r: Option<Box<StatmentView>>| StatmentView::Return(r))
    } else if is_at(ts, pos, TokenType::LBrace) {
        map_ok(block_at(ts, pos + 1), |b: Seq<StatmentView>| StatmentView::Block(b))
    } else if is_at(ts, pos, TokenType::Panic) {
        map_ok(expect_at(ts, pos + 1, TokenType::SemiColon), |t: TokenView| StatmentView::Panic)
    } else {
        expresion_statment_at(ts, pos)
    }
}

// ---------------------------------------------------------------------------
// The parser
// ---------------------------------------------------------------------------

/// The outcome `p` of parsing the rest of an `if` of which the arms
/// `front` are already there.
pub open spec fn with_arms(
    front: Seq<(IfTypeView, StatmentView)>,
    p: Parsed<(Seq<(IfTypeView, StatmentView)>, Option<Box<StatmentView>>)>,
) -> Parsed<(Seq<(IfTypeView, StatmentView)>, Option<Box<StatmentView>>)> {
    match p.0 {
        Ok(rest) => (Ok((front + rest.0, rest.1)), p.1),
        Err(e) => (Err(e), p.1),
    }
}

/// One more arm in front, then the rest.
pub proof fn lemma_with_arms_push(
    front: Seq<(IfTypeView, StatmentView)>,
    arm: (IfTypeView, StatmentView),
    p: Parsed<(Seq<(IfTypeView, StatmentView)>, Option<Box<StatmentView>>)>,
)
    ensures
        with_arms(front, with_arms(seq![arm], p)) == with_arms(front.push(arm), p),
{
    if p.0 is Ok {
        assert(front + (seq![arm] + p.0->Ok_0.0) =~= front.push(arm) + p.0->Ok_0.0);
    }
}

/// Parses one pattern binding.
pub fn parse_binding(tokens: &mut TokenCursor) -> (res: ParseResult<(Token, Option<Pattern>)>)
    requires
        old(tokens).live(),
    ensures
        parsed_as(
            *old(tokens),
            *final(tokens),
            result_view_by(res, |b: (Token, Option<Pattern>)| binding_view(b)),
            binding_at(old(tokens).stream(), old(tokens).index()),
        ),
    decreases old(tokens).stream().len() - old(tokens).index(), 1int,
{
    let name = tokens.consume(TokenType::Ident)?;
    let pattern = if tokens.accept(TokenType::Colon) {
        Some(Pattern::parse(tokens)?)
    } else {
        None
    };
    Ok((name, pattern))
}

/// Parses pattern bindings, `delim` between them, up to and with `end`.
#[verifier::rlimit(50)]
pub fn parse_binding_items(tokens: &mut TokenCursor, delim: TokenType, end: TokenType) -> (res:
    ParseResult<Vec<(Token, Option<Pattern>)>>)
    requires
        old(tokens).live(),
        delim != TokenType::EOF,
        end != TokenType::EOF,
    ensures
        parsed_as(
            *old(tokens),
            *final(tokens),
            bindings_result(res),
            binding_items_at(old(tokens).stream(), old(tokens).index(), delim, end),
        ),
    decreases old(tokens).stream().len() - old(tokens).index(), 3int,
{
    let ghost ts = tokens.stream();
    let ghost start = tokens.index();
    let mut list: Vec<(Token, Option<Pattern>)> = Vec::new();
    proof {
        lemma_prepend_empty(binding_items_at(ts, start, delim, end));
        assert(binding_views(list@) =~= Seq::empty());
    }
    loop
        invariant
            tokens.live(),
            tokens.stream() == ts,
            ts == old(tokens).stream(),
            start == old(tokens).index(),
            start <= tokens.index(),
            list.len() > 0 ==> start < tokens.index(),
            delim != TokenType::EOF,
            end != TokenType::EOF,
            binding_items_at(ts, start, delim, end) == prepend(
                binding_views(list@),
                binding_items_at(ts, tokens.index(), delim, end),
            ),
        decreases ts.len() - tokens.index(),
    {
        let ghost front = binding_views(list@);
        let item = parse_binding(tokens)?;
        let ghost value = binding_view(item);
        proof {
            lemma_prepend_push(
                front,
                value,
                binding_items_at(ts, tokens.index() + 1, delim, end),
            );
        }
        list.push(item);
        assert(binding_views(list@) =~= front.push(value));
        if tokens.accept(delim) {
            continue ;
        }
        assert(front + seq![value] =~= front.push(value));
        tokens.close_list(delim, end)?;
        return Ok(list);
    }
}

impl Pattern {
    /// Parses a pattern.
    pub fn parse(tokens: &mut TokenCursor) -> (res: ParseResult<Pattern>)
        requires
            old(tokens).live(),
        ensures
            parsed_as(
                *old(tokens),
                *final(tokens),
                result_view(res),
                pattern_at(old(tokens).stream(), old(tokens).index()),
            ),
        decreases old(tokens).stream().len() - old(tokens).index(), 2int,
    {
        let type_of = Type::parse(tokens)?;
        let varient = if tokens.accept(TokenType::Dot) {
            Some(tokens.consume(TokenType::Ident)?)
        } else {
            None
        };
        let constructor = if tokens.optional_list_open(TokenType::LBrace, TokenType::RBrace) {
            parse_binding_items(tokens, TokenType::Comma, TokenType::RBrace)?
        } else {
            let empty: Vec<(Token, Option<Pattern>)> = Vec::new();
            assert(binding_views(empty@) =~= Seq::empty());
            empty
        };
        Ok(Pattern { type_of, varient, constructor })
    }
}

/// The value of a parsed list of statements.
pub open spec fn statments_result(r: ParseResult<Vec<Statment>>) -> Result<
    Seq<StatmentView>,
    ParseErrorView,
> {
    result_view_by(r, |v: Vec<Statment>| statment_views(v@))
}

/// Parses statements up to and with the closing brace.
pub fn parse_block(tokens: &mut TokenCursor) -> (res: ParseResult<Block>)
    requires
        old(tokens).live(),
    ensures
        parsed_as(
            *old(tokens),
            *final(tokens),
            statments_result(res),
            block_at(old(tokens).stream(), old(tokens).index()),
        ),
    decreases old(tokens).stream().len() - old(tokens).index(), 20int,
{
    let ghost ts = tokens.stream();
    let ghost start = tokens.index();
    let mut list: Vec<Statment> = Vec::new();
    proof {
        lemma_prepend_empty(block_at(ts, start));
        assert(statment_views(list@) =~= Seq::empty());
    }
    loop
        invariant
            tokens.live(),
            tokens.stream() == ts,
            ts == old(tokens).stream(),
            start == old(tokens).index(),
            start <= tokens.index(),
            block_at(ts, start) == prepend(statment_views(list@), block_at(ts, tokens.index())),
        decreases ts.len() - tokens.index(),
    {
        let ghost front = statment_views(list@);
        if tokens.accept(TokenType::RBrace) {
            assert(front + Seq::empty() =~= front);
            return Ok(list);
        }
        let item = Statment::parse(tokens)?;
        proof {
            lemma_prepend_push(front, item@, block_at(ts, tokens.index()));
        }
        list.push(item);
        assert(statment_views(list@) =~= front.push(item@));
    }
}

impl VarCreation {
    /// Parses a `let`.
    pub fn parse(tokens: &mut TokenCursor) -> (res: ParseResult<VarCreation>)
        requires
            old(tokens).live(),
        ensures
            parsed_as(
                *old(tokens),
                *final(tokens),
                result_view(res),
                var_creation_at(old(tokens).stream(), old(tokens).index()),
            ),
        decreases old(tokens).stream().len() - old(tokens).index(), 18int,
    {
        tokens.consume(TokenType::Let)?;
        let mutable = tokens.accept(TokenType::Mut);
        let name = tokens.consume(TokenType::Ident)?;
        let type_of = if tokens.accept(TokenType::Colon) {
            Some(Type::parse(tokens)?)
        } else {
            None
        };
        tokens.consume(TokenType::Equal)?;
        let value = Box::new(Statment::parse(tokens)?);
        Ok(VarCreation { mutable, name, type_of, value })
    }
}

/// Parses a `return`.
pub fn parse_return(tokens: &mut TokenCursor) -> (res: ParseResult<Return>)
    requires
        old(tokens).live(),
    ensures
        parsed_as(
            *old(tokens),
            *final(tokens),
            result_view_by(
                res,
                |r: Return|
                    match r {
                        Some(s) => Some(Box::new(statment_view(*s))),
                        None => None,
                    },
            ),
            return_at(old(tokens).stream(), old(tokens).index()),
        ),
    decreases old(tokens).stream().len() - old(tokens).index(), 18int,
{
    tokens.consume(TokenType::Return)?;
    if tokens.accept(TokenType::SemiColon) {
        Ok(None)
    } else {
        Ok(Some(Box::new(Statment::parse(tokens)?)))
    }
}

impl While {
    /// Parses a `while`.
    pub fn parse(tokens: &mut TokenCursor) -> (res: ParseResult<While>)
        requires
            old(tokens).live(),
        ensures
            parsed_as(
                *old(tokens),
                *final(tokens),
                result_view(res),
                while_at(old(tokens).stream(), old(tokens).index()),
            ),
        decreases old(tokens).stream().len() - old(tokens).index(), 18int,
    {
        tokens.consume(TokenType::While)?;
        let condition = Expresion::parse(tokens)?;
        let statment = Box::new(Statment::parse(tokens)?);
        Ok(While { condition, statment })
    }
}

impl IfType {
    /// Parses the guard of an arm.
    pub fn parse(tokens: &mut TokenCursor) -> (res: ParseResult<IfType>)
        requires
            old(tokens).live(),
        ensures
            parsed_as(
                *old(tokens),
                *final(tokens),
                result_view(res),
                if_type_at(old(tokens).stream(), old(tokens).index()),
            ),
        decreases old(tokens).stream().len() - old(tokens).index(), 16int,
    {
        if tokens.accept(TokenType::Let) {
            let pattern = Pattern::parse(tokens)?;
            let expr = Expresion::parse(tokens)?;
            Ok(IfType::IfLet { pattern, expresion: expr })
        } else {
            Ok(IfType::Boolean(Expresion::parse(tokens)?))
        }
    }
}

/// Parses one arm: a guard and the statement that it guards.
fn parse_arm(tokens: &mut TokenCursor) -> (res: ParseResult<(IfType, Statment)>)
    requires
        old(tokens).live(),
    ensures
        parsed_as(
            *old(tokens),
            *final(tokens),
            result_view_by(res, |a: (IfType, Statment)| (if_type_view(a.0), statment_view(a.1))),
            arm_at(old(tokens).stream(), old(tokens).index()),
        ),
    decreases old(tokens).stream().len() - old(tokens).index(), 17int,
{
    let guard = IfType::parse(tokens)?;
    let statment = Statment::parse(tokens)?;
    Ok((guard, statment))
}

impl If {
    /// Parses an `if` with its arms.
    pub fn parse(tokens: &mut TokenCursor) -> (res: ParseResult<If>)
        requires
            old(tokens).live(),
        ensures
            parsed_as(
                *old(tokens),
                *final(tokens),
                result_view(res),
                if_at(old(tokens).stream(), old(tokens).index()),
            ),
        decreases old(tokens).stream().len() - old(tokens).index(), 18int,
    {
        let ghost ts = tokens.stream();
        let ghost start = tokens.index();
        tokens.consume(TokenType::If)?;
        let first = parse_arm(tokens)?;
        let ghost first_view = (if_type_view(first.0), statment_view(first.1));
        let ghost after_first = tokens.index();
        let mut ifs: Vec<(IfType, Statment)> = Vec::new();
        ifs.push(first);
        assert(arm_views(ifs@) =~= seq![first_view]);
        loop
            invariant
                tokens.live(),
                tokens.stream() == ts,
                ts == old(tokens).stream(),
                start == old(tokens).index(),
                is_at(ts, start, TokenType::If),
                progressed(ts, arm_at(ts, start + 1), start),
                arm_at(ts, start + 1).0->Ok_0 == first_view,
                arm_at(ts, start + 1).1 == after_first,
                start < after_first <= tokens.index(),
                with_arms(seq![first_view], else_arms_at(ts, after_first)) == with_arms(
                    arm_views(ifs@),
                    else_arms_at(ts, tokens.index()),
                ),
            decreases ts.len() - tokens.index(),
        {
            let ghost front = arm_views(ifs@);
            if !tokens.accept(TokenType::Else) {
                assert(front + Seq::empty() =~= front);
                return Ok(If { conditionals_and_statments: ifs, else_statment: None });
            }
            if tokens.accept(TokenType::If) {
                let arm = parse_arm(tokens)?;
                let ghost value = (if_type_view(arm.0), statment_view(arm.1));
                proof {
                    lemma_with_arms_push(front, value, else_arms_at(ts, tokens.index()));
                }
                ifs.push(arm);
                assert(arm_views(ifs@) =~= front.push(value));
            } else {
                let last = Statment::parse(tokens)?;
                assert(front + Seq::empty() =~= front);
                return Ok(
                    If { conditionals_and_statments: ifs, else_statment: Some(Box::new(last)) },
                );
            }
        }
    }
}

/// Parses an expression statement.
fn parse_expresion_statment(tokens: &mut TokenCursor) -> (res: ParseResult<Statment>)
    requires
        old(tokens).live(),
    ensures
        parsed_as(
            *old(tokens),
            *final(tokens),
            result_view(res),
            expresion_statment_at(old(tokens).stream(), old(tokens).index()),
        ),
    decreases old(tokens).stream().len() - old(tokens).index(), 18int,
{
    if !can_start_primary(tokens.peek_kind()) {
        let expected = vec![
            TokenType::Let,
            TokenType::Fn,
            TokenType::Continue,
            TokenType::Break,
            TokenType::If,
            TokenType::While,
            TokenType::Return,
            TokenType::LBrace,
            TokenType::Panic,
            TokenType::Minus,
            TokenType::Bang,
            TokenType::Int,
            TokenType::Float,
            TokenType::String,
            TokenType::True,
            TokenType::False,
            TokenType::Ident,
            TokenType::LBrack,
            TokenType::LParen,
        ];
        assert(expected@ =~= statment_starts());
        return Err(ParseError { expected, got: tokens.next() });
    }
    match Expresion::parse(tokens) {
        Err(err) => Err(err),
        Ok(expr) => {
            let temp = Statment::Expresion(expr);
            if tokens.accept(TokenType::SemiColon) {
                Ok(temp)
            } else if tokens.at(TokenType::RBrace) {
                let ghost inner = statment_view(temp);
                let value = Statment::ImReturn(Box::new(temp));
                assert(statment_view(value) == StatmentView::ImReturn(Box::new(inner)));
                Ok(value)
            } else {
                let expected = vec![TokenType::SemiColon, TokenType::RBrace];
                assert(expected@ =~= statment_ends());
                Err(ParseError { expected, got: tokens.next() })
            }
        },
    }
}

impl Statment {
    /// Parses a statement.
    pub fn parse(tokens: &mut TokenCursor) -> (res: ParseResult<Statment>)
        requires
            old(tokens).live(),
        ensures
            parsed_as(
                *old(tokens),
                *final(tokens),
                result_view(res),
                statment_at(old(tokens).stream(), old(tokens).index()),
            ),
        decreases old(tokens).stream().len() - old(tokens).index(), 19int,
    {
        match tokens.peek_kind() {
            TokenType::Let => Ok(Statment::VarCreation(VarCreation::parse(tokens)?)),
            TokenType::Fn => Ok(Statment::FuncCreation(FunctionDecl::parse(tokens)?)),
            TokenType::Continue => {
                tokens.next();
                tokens.consume(TokenType::SemiColon)?;
                Ok(Statment::Continue)
            },
            TokenType::Break => {
                tokens.next();
                tokens.consume(TokenType::SemiColon)?;
                Ok(Statment::Break)
            },
            TokenType::If => Ok(Statment::If(If::parse(tokens)?)),
            TokenType::While => Ok(Statment::While(While::parse(tokens)?)),
            TokenType::Return => Ok(Statment::Return(parse_return(tokens)?)),
            TokenType::LBrace => {
                tokens.next();
                Ok(Statment::Block(parse_block(tokens)?))
            },
            TokenType::Panic => {
                tokens.next();
                tokens.consume(TokenType::SemiColon)?;
                Ok(Statment::Panic)
            },
            _ => parse_expresion_statment(tokens),
        }
    }
}

// ---------------------------------------------------------------------------
// Copies
// ---------------------------------------------------------------------------

/// A copy of `x` with the same value.
pub fn clone_statment(x: &Statment) -> (r: Statment)
    ensures
        r@ == x@,
    decreases x,
{
    match x {
        Statment::VarCreation(a) => Statment::VarCreation(clone_var_creation(a)),
        Statment::FuncCreation(a) => Statment::FuncCreation(clone_function_decl(a)),
        Statment::Expresion(a) => Statment::Expresion(clone_expresion(a)),
        Statment::If(a) => Statment::If(clone_if(a)),
        Statment::While(a) => Statment::While(clone_while(a)),
        Statment::Return(a) => Statment::Return(match a {
            Some(v) => Some(Box::new(clone_statment(&**v))),
            None => None,
        }),
        Statment::ImReturn(a) => Statment::ImReturn(Box::new(clone_statment(&**a))),
        Statment::Block(a) => Statment::Block(clone_statments(a)),
        Statment::Continue => Statment::Continue,
        Statment::Break => Statment::Break,
        Statment::Panic => Statment::Panic,
    }
}

impl Clone for Statment {
    fn clone(&self) -> (r: Self)
        ensures
            r@ == self@,
    {
        clone_statment(self)
    }
}

/// A copy of `x` with the same value.
pub fn clone_while(x: &While) -> (r: While)
    ensures
        r@ == x@,
    decreases x,
{
    While {
        condition: clone_expresion(&x.condition),
        statment: Box::new(clone_statment(&*x.statment)),
    }
}

impl Clone for While {
    fn clone(&self) -> (r: Self)
        ensures
            r@ == self@,
    {
        clone_while(self)
    }
}

/// A copy of `x` with the same value.
pub fn clone_if(x: &If) -> (r: If)
    ensures
        r@ == x@,
    decreases x,
{
    If {
        conditionals_and_statments: clone_arms(&x.conditionals_and_statments),
        else_statment: match &x.else_statment {
            Some(v) => Some(Box::new(clone_statment(&**v))),
            None => None,
        },
    }
}

impl Clone for If {
    fn clone(&self) -> (r: Self)
        ensures
            r@ == self@,
    {
        clone_if(self)
    }
}

/// A copy of `x` with the same value.
pub fn clone_if_type(x: &IfType) -> (r: IfType)
    ensures
        r@ == x@,
    decreases x,
{
    match x {
        IfType::Boolean(a) => IfType::Boolean(clone_expresion(a)),
        IfType::IfLet { pattern, expresion } => IfType::IfLet {
            pattern: clone_pattern(pattern),
            expresion: clone_expresion(expresion),
        },
    }
}

impl Clone for IfType {
    fn clone(&self) -> (r: Self)
        ensures
            r@ == self@,
    {
        clone_if_type(self)
    }
}

/// A copy of `x` with the same value.
pub fn clone_pattern(x: &Pattern) -> (r: Pattern)
    ensures
        r@ == x@,
    decreases x,
{
    Pattern {
        type_of: clone_type(&x.type_of),
        varient: match &x.varient {
            Some(v) => Some(v.copy()),
            None => None,
        },
        constructor: clone_bindings(&x.constructor),
    }
}

impl Clone for Pattern {
    fn clone(&self) -> (r: Self)
        ensures
            r@ == self@,
    {
        clone_pattern(self)
    }
}

/// A copy of `x` with the same value.
pub fn clone_var_creation(x: &VarCreation) -> (r: VarCreation)
    ensures
        r@ == x@,
    decreases x,
{
    VarCreation {
        mutable: x.mutable,
        name: x.name.copy(),
        type_of: match &x.type_of {
            Some(v) => Some(clone_type(v)),
            None => None,
        },
        value: Box::new(clone_statment(&*x.value)),
    }
}

impl Clone for VarCreation {
    fn clone(&self) -> (r: Self)
        ensures
            r@ == self@,
    {
        clone_var_creation(self)
    }
}

/// Copies of the items of `v`, with the same values.
pub fn clone_statments(v: &Vec<Statment>) -> (r: Vec<Statment>)
    ensures
        statment_views(r@) == statment_views(v@),
    decreases v,
{
    let mut out: Vec<Statment> = Vec::new();
    let mut i: usize = 0;
    while i < v.len()
        invariant
            i <= v.len(),
            out.len() == i,
            forall|j: int| 0 <= j < i ==> statment_views(out@)[j] == statment_views(v@)[j],
        decreases v.len() - i,
    {
        let ghost before = out@;
        let item = clone_statment(&v[i]);
        out.push(item);
        assert forall|j: int|
            0 <= j < i + 1 implies
            statment_views(out@)[j] == statment_views(v@)[j]
        by {
            if j < i {
                assert(out@[j] == before[j]);
                assert(statment_views(before)[j] == statment_views(v@)[j]);
            }
        }
        i = i + 1;
    }
    assert(statment_views(out@) =~= statment_views(v@));
    out
}

/// Copies of the items of `v`, with the same values.
pub fn clone_arms(v: &Vec<(IfType, Statment)>) -> (r: Vec<(IfType, Statment)>)
    ensures
        arm_views(r@) == arm_views(v@),
    decreases v,
{
    let mut out: Vec<(IfType, Statment)> = Vec::new();
    let mut i: usize = 0;
    while i < v.len()
        invariant
            i <= v.len(),
            out.len() == i,
            forall|j: int| 0 <= j < i ==> arm_views(out@)[j] == arm_views(v@)[j],
        decreases v.len() - i,
    {
        let ghost before = out@;
        let item = (clone_if_type(&v[i].0), clone_statment(&v[i].1));
        out.push(item);
        assert forall|j: int| 0 <= j < i + 1 implies arm_views(out@)[j] == arm_views(v@)[j] by {
            if j < i {
                assert(out@[j] == before[j]);
                assert(arm_views(before)[j] == arm_views(v@)[j]);
            }
        }
        i = i + 1;
    }
    assert(arm_views(out@) =~= arm_views(v@));
    out
}

/// Copies of the items of `v`, with the same values.
pub fn clone_bindings(v: &Vec<(Token, Option<Pattern>)>) -> (r: Vec<(Token, Option<Pattern>)>)
    ensures
        binding_views(r@) == binding_views(v@),
    decreases v,
{
    let mut out: Vec<(Token, Option<Pattern>)> = Vec::new();
    let mut i: usize = 0;
    while i < v.len()
        invariant
            i <= v.len(),
            out.len() == i,
            forall|j: int| 0 <= j < i ==> binding_views(out@)[j] == binding_views(v@)[j],
        decreases v.len() - i,
    {
        let ghost before = out@;
        let item = (v[i].0.copy(), match &v[i].1 {
            Some(v) => Some(clone_pattern(v)),
            None => None,
        });
        out.push(item);
        assert forall|j: int|
            0 <= j < i + 1 implies
            binding_views(out@)[j] == binding_views(v@)[j]
        by {
            if j < i {
                assert(out@[j] == before[j]);
                assert(binding_views(before)[j] == binding_views(v@)[j]);
            }
        }
        i = i + 1;
    }
    assert(binding_views(out@) =~= binding_views(v@));
    out
}

// ---------------------------------------------------------------------------
// What the generic list parsers can parse
// ---------------------------------------------------------------------------

impl Parsable for Statment {
    type Value = StatmentView;

    open spec fn value(&self) -> StatmentView {
        self@
    }

    open spec fn parsed_at(ts: Seq<TokenView>, pos: int) -> Parsed<StatmentView> {
        statment_at(ts, pos)
    }

    fn parse(tokens: &mut TokenCursor) -> (res: ParseResult<Statment>) {
        Statment::parse(tokens)
    }
}

impl Parsable for Return {
    type Value = Option<Box<StatmentView>>;

    open spec fn value(&self) -> Option<Box<StatmentView>> {
        match *self {
            Some(s) => Some(Box::new(statment_view(*s))),
            None => None,
        }
    }

    open spec fn parsed_at(ts: Seq<TokenView>, pos: int) -> Parsed<Option<Box<StatmentView>>> {
        return_at(ts, pos)
    }

    fn parse(tokens: &mut TokenCursor) -> (res: ParseResult<Return>) {
        parse_return(tokens)
    }
}

impl Parsable for While {
    type Value = WhileView;

    open spec fn value(&self) -> WhileView {
        self@
    }

    open spec fn parsed_at(ts: Seq<TokenView>, pos: int) -> Parsed<WhileView> {
        while_at(ts, pos)
    }

    fn parse(tokens: &mut TokenCursor) -> (res: ParseResult<While>) {
        While::parse(tokens)
    }
}

impl Parsable for If {
    type Value = IfView;

    open spec fn value(&self) -> IfView {
        self@
    }

    open spec fn parsed_at(ts: Seq<TokenView>, pos: int) -> Parsed<IfView> {
        if_at(ts, pos)
    }

    fn parse(tokens: &mut TokenCursor) -> (res: ParseResult<If>) {
        If::parse(tokens)
    }
}

impl Parsable for IfType {
    type Value = IfTypeView;

    open spec fn value(&self) -> IfTypeView {
        self@
    }

    open spec fn parsed_at(ts: Seq<TokenView>, pos: int) -> Parsed<IfTypeView> {
        if_type_at(ts, pos)
    }

    fn parse(tokens: &mut TokenCursor) -> (res: ParseResult<IfType>) {
        IfType::parse(tokens)
    }
}

impl Parsable for Pattern {
    type Value = PatternView;

    open spec fn value(&self) -> PatternView {
        self@
    }

    open spec fn parsed_at(ts: Seq<TokenView>, pos: int) -> Parsed<PatternView> {
        pattern_at(ts, pos)
    }

    fn parse(tokens: &mut TokenCursor) -> (res: ParseResult<Pattern>) {
        Pattern::parse(tokens)
    }
}

impl Parsable for (Token, Option<Pattern>) {
    type Value = (TokenView, Option<PatternView>);

    open spec fn value(&self) -> (TokenView, Option<PatternView>) {
        binding_view(*self)
    }

    open spec fn parsed_at(
        ts: Seq<TokenView>,
        pos: int,
    ) -> Parsed<(TokenView, Option<PatternView>)> {
        binding_at(ts, pos)
    }

    fn parse(tokens: &mut TokenCursor) -> (res: ParseResult<(Token, Option<Pattern>)>) {
        parse_binding(tokens)
    }
}

impl Parsable for VarCreation {
    type Value = VarCreationView;

    open spec fn value(&self) -> VarCreationView {
        self@
    }

    open spec fn parsed_at(ts: Seq<TokenView>, pos: int) -> Parsed<VarCreationView> {
        var_creation_at(ts, pos)
    }

    fn parse(tokens: &mut TokenCursor) -> (res: ParseResult<VarCreation>) {
        VarCreation::parse(tokens)
    }
}

} // verus!
