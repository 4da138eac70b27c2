//! The token cursor and the primitive steps of every parse.
//!
//! A parse is modelled as a function of the token stream and an index into
//! it, to a result and the index after it. The cursor holds a stream that
//! ends with an `EOF` token; that token is never taken by a step that
//! succeeds, so a parse that goes on always has a token to look at.

use crate::scanner::{lemma_scan_ends_with_eof, scan_spec, token_views, Token, TokenType, TokenView};
use vstd::prelude::*;

verus! {

/// What a parse found where it could not go on: the kinds that would have
/// been accepted there, and the token that was there.
#[derive(Debug)]
pub struct ParseError {
    pub expected: Vec<TokenType>,
    pub got: Token,
}

/// The mathematical value of a [`ParseError`].
pub ghost struct ParseErrorView {
    pub expected: Seq<TokenType>,
    pub got: TokenView,
}

impl View for ParseError {
    type V = ParseErrorView;

    open spec fn view(&self) -> ParseErrorView {
        ParseErrorView { expected: self.expected@, got: self.got@ }
    }
}

/// What a parse function returns.
pub type ParseResult<T> = Result<T, ParseError>;

/// The outcome of a parse in the model: the result, and the index after it.
pub type Parsed<V> = (Result<V, ParseErrorView>, int);

/// A stream that a cursor can walk: it ends with an `EOF` token.
pub open spec fn stream_ok(ts: Seq<TokenView>) -> bool {
    ts.len() > 0 && ts.last().token_type == TokenType::EOF
}

/// Every token stream that the scanner makes can be walked by a cursor.
pub proof fn lemma_scanned_stream_ok(source: Seq<char>)
    ensures
        stream_ok(scan_spec(source)),
{
    lemma_scan_ends_with_eof(source);
}

/// The kind of the token at `pos`.
pub open spec fn kind_at(ts: Seq<TokenView>, pos: int) -> TokenType {
    ts[pos].token_type
}

/// `pos` is in the stream, on a token of kind `kind`.
pub open spec fn is_at(ts: Seq<TokenView>, pos: int, kind: TokenType) -> bool {
    0 <= pos < ts.len() && ts[pos].token_type == kind
}

/// Takes the token at `pos` if its kind is among `kinds`; stays at `pos`
/// with an error otherwise.
pub open spec fn peek_consume_at(ts: Seq<TokenView>, pos: int, kinds: Seq<TokenType>) -> Parsed<
    TokenView,
> {
    if 0 <= pos < ts.len() && kinds.contains(kind_at(ts, pos)) {
        (Ok(ts[pos]), pos + 1)
    } else {
        (Err(ParseErrorView { expected: kinds, got: ts[pos] }), pos)
    }
}

/// Takes the token at `pos` if its kind is among `kinds`; steps over it
/// with an error otherwise.
pub open spec fn consume_at(ts: Seq<TokenView>, pos: int, kinds: Seq<TokenType>) -> Parsed<
    TokenView,
> {
    (peek_consume_at(ts, pos, kinds).0, pos + 1)
}

/// The one kind `kind`, as a set of accepted kinds.
pub open spec fn one(kind: TokenType) -> Seq<TokenType> {
    seq![kind]
}

/// Takes the token at `pos` if it is of kind `kind`; steps over it with
/// an error otherwise.
pub open spec fn expect_at(ts: Seq<TokenView>, pos: int, kind: TokenType) -> Parsed<TokenView> {
    if is_at(ts, pos, kind) {
        (Ok(ts[pos]), pos + 1)
    } else {
        (Err(ParseErrorView { expected: one(kind), got: ts[pos] }), pos + 1)
    }
}

/// Takes the token at `pos` if it is of kind `kind`; stays at `pos` with
/// an error otherwise.
pub open spec fn peek_expect_at(ts: Seq<TokenView>, pos: int, kind: TokenType) -> Parsed<
    TokenView,
> {
    if is_at(ts, pos, kind) {
        (Ok(ts[pos]), pos + 1)
    } else {
        (Err(ParseErrorView { expected: one(kind), got: ts[pos] }), pos)
    }
}

/// The end of a list after an item that no `delim` follows: takes `end`
/// if it is there; steps over the token with an error otherwise, which
/// names both kinds that could have come.
pub open spec fn close_at(ts: Seq<TokenView>, pos: int, delim: TokenType, end: TokenType) -> Parsed<
    TokenView,
> {
    if is_at(ts, pos, end) {
        (Ok(ts[pos]), pos + 1)
    } else {
        (Err(ParseErrorView { expected: seq![delim, end], got: ts[pos] }), pos + 1)
    }
}

/// To expect one kind is to expect a set of that kind alone.
pub proof fn lemma_expect_one(ts: Seq<TokenView>, pos: int, kind: TokenType)
    ensures
        expect_at(ts, pos, kind) == consume_at(ts, pos, one(kind)),
        peek_expect_at(ts, pos, kind) == peek_consume_at(ts, pos, one(kind)),
{
    assert(one(kind)[0] == kind);
}

/// The failure of one step, as the failure of the parse around it.
pub open spec fn fail<A, B>(p: Parsed<A>) -> Parsed<B> {
    (Err(p.0->Err_0), p.1)
}

/// The step succeeded and ended after `pos`, within the stream.
pub open spec fn progressed<A>(ts: Seq<TokenView>, p: Parsed<A>, pos: int) -> bool {
    p.0 is Ok && pos < p.1 <= ts.len()
}

/// The outcome `p` with `f` applied to what was parsed.
pub open spec fn map_ok<A, B>(p: Parsed<A>, f: spec_fn(A) -> B) -> Parsed<B> {
    match p.0 {
        Ok(v) => (Ok(f(v)), p.1),
        Err(e) => (Err(e), p.1),
    }
}

/// The outcome `p` of parsing the rest of a list of which `front` is
/// already there.
pub open spec fn prepend<A>(front: Seq<A>, p: Parsed<Seq<A>>) -> Parsed<Seq<A>> {
    match p.0 {
        Ok(rest) => (Ok(front + rest), p.1),
        Err(e) => (Err(e), p.1),
    }
}

/// Nothing in front changes nothing.
pub proof fn lemma_prepend_empty<A>(p: Parsed<Seq<A>>)
    ensures
        prepend(Seq::empty(), p) == p,
{
    if p.0 is Ok {
        assert(Seq::<A>::empty() + p.0->Ok_0 =~= p.0->Ok_0);
    }
}

/// One more item in front, then the rest.
pub proof fn lemma_prepend_push<A>(front: Seq<A>, item: A, p: Parsed<Seq<A>>)
    ensures
        prepend(front, prepend(seq![item], p)) == prepend(front.push(item), p),
{
    if p.0 is Ok {
        assert(front + (seq![item] + p.0->Ok_0) =~= front.push(item) + p.0->Ok_0);
    }
}

/// A list between `start` and `end`: an error where `start` is not there,
/// no items where `end` follows it at once, else what `items` says.
pub open spec fn list_at<A>(
    ts: Seq<TokenView>,
    pos: int,
    start: TokenType,
    end: TokenType,
    items: Parsed<Seq<A>>,
) -> Parsed<Seq<A>> {
    if !is_at(ts, pos, start) {
        (Err(ParseErrorView { expected: one(start), got: ts[pos] }), pos + 1)
    } else if is_at(ts, pos + 1, end) {
        (Ok(Seq::empty()), pos + 2)
    } else {
        items
    }
}

/// A list between `start` and `end` that may be left out: no items
/// where `start` is not there or `end` follows it at once, else what
/// `items` says.
pub open spec fn optional_list_at<A>(
    ts: Seq<TokenView>,
    pos: int,
    start: TokenType,
    end: TokenType,
    items: Parsed<Seq<A>>,
) -> Parsed<Seq<A>> {
    if !is_at(ts, pos, start) {
        (Ok(Seq::empty()), pos)
    } else if is_at(ts, pos + 1, end) {
        (Ok(Seq::empty()), pos + 2)
    } else {
        items
    }
}

/// The value of a parse result.
pub open spec fn result_view<T: View>(r: Result<T, ParseError>) -> Result<T::V, ParseErrorView> {
    match r {
        Ok(v) => Ok(v@),
        Err(e) => Err(e@),
    }
}

/// The value of a parse result, by the value `f` of what was parsed.
pub open spec fn result_view_by<T, V>(r: Result<T, ParseError>, f: spec_fn(T) -> V) -> Result<
    V,
    ParseErrorView,
> {
    match r {
        Ok(v) => Ok(f(v)),
        Err(e) => Err(e@),
    }
}

/// A position in a token stream.
pub struct TokenCursor {
    tokens: Vec<Token>,
    pos: usize,
}

/// What every parse function promises: the stream stays, the cursor stays
/// within it, result and end are those of the model, and a parse that
/// succeeds has taken a token and leaves the cursor on one.
pub open spec fn parsed_as<V>(
    before: TokenCursor,
    after: TokenCursor,
    got: Result<V, ParseErrorView>,
    want: Parsed<V>,
) -> bool {
    &&& after.stream() == before.stream()
    &&& after.wf()
    &&& (got, after.index()) == want
    &&& got is Ok ==> after.live() && after.index() > before.index()
}

/// What a parse function promises that may succeed without taking a token.
pub open spec fn parsed_as_opt<V>(
    before: TokenCursor,
    after: TokenCursor,
    got: Result<V, ParseErrorView>,
    want: Parsed<V>,
) -> bool {
    &&& after.stream() == before.stream()
    &&& after.wf()
    &&& (got, after.index()) == want
    &&& got is Ok ==> after.live() && after.index() >= before.index()
}

/// Whether `kind` is among `kinds`.
pub fn contains_kind(kinds: &Vec<TokenType>, kind: TokenType) -> (r: bool)
    ensures
        r == kinds@.contains(kind),
{
    let mut i: usize = 0;
    while i < kinds.len()
        invariant
            i <= kinds.len(),
            forall|j: int| 0 <= j < i ==> kinds@[j] != kind,
        decreases kinds.len() - i,
    {
        if kinds[i] == kind {
            return true;
        }
        i = i + 1;
    }
    false
}

impl TokenCursor {
    /// The stream that the cursor walks.
    pub closed spec fn stream(&self) -> Seq<TokenView> {
        token_views(self.tokens@)
    }

    /// The index of the token that the cursor is on.
    pub closed spec fn index(&self) -> int {
        self.pos as int
    }

    /// The cursor's invariant: the stream ends with `EOF`, and the index is
    /// within the stream or just after it.
    pub open spec fn wf(&self) -> bool {
        stream_ok(self.stream()) && 0 <= self.index() <= self.stream().len()
    }

    /// The cursor is on a token.
    pub open spec fn live(&self) -> bool {
        self.wf() && self.index() < self.stream().len()
    }

    /// A cursor at the start of `tokens`, where they end with `EOF`.
    pub fn new(tokens: Vec<Token>) -> (r: Option<TokenCursor>)
        ensures
            match r {
                Some(c) => c.live() && c.stream() == token_views(tokens@) && c.index() == 0,
                None => !stream_ok(token_views(tokens@)),
            },
    {
        let n = tokens.len();
        if n > 0 && tokens[n - 1].token_type == TokenType::EOF {
            Some(TokenCursor { tokens, pos: 0 })
        } else {
            None
        }
    }

    /// The token that the cursor is on.
    pub fn peek(&self) -> (t: &Token)
        requires
            self.live(),
        ensures
            t@ == self.stream()[self.index()],
    {
        &self.tokens[self.pos]
    }

    /// The kind of the token that the cursor is on.
    pub fn peek_kind(&self) -> (k: TokenType)
        requires
            self.live(),
        ensures
            k == kind_at(self.stream(), self.index()),
    {
        self.tokens[self.pos].token_type
    }

    /// Takes the token that the cursor is on, whatever it is.
    pub fn next(&mut self) -> (t: Token)
        requires
            old(self).live(),
        ensures
            final(self).stream() == old(self).stream(),
            final(self).wf(),
            final(self).index() == old(self).index() + 1,
            t@ == old(self).stream()[old(self).index()],
            t.token_type != TokenType::EOF ==> final(self).live(),
    {
        let t = self.tokens[self.pos].copy();
        assert(self.pos < self.tokens.len());
        self.pos = self.pos + 1;
        t
    }

    /// Takes the token that the cursor is on if it is of kind `token_type`;
    /// steps over it with an error otherwise.
    pub fn consume(&mut self, token_type: TokenType) -> (res: ParseResult<Token>)
        requires
            old(self).live(),
        ensures
            final(self).stream() == old(self).stream(),
            final(self).wf(),
            (result_view(res), final(self).index()) == expect_at(
                old(self).stream(),
                old(self).index(),
                token_type,
            ),
            res is Ok && token_type != TokenType::EOF ==> final(self).live(),
    {
        let mut kinds: Vec<TokenType> = Vec::new();
        kinds.push(token_type);
        assert(kinds@ =~= one(token_type));
        proof {
            lemma_expect_one(self.stream(), self.index(), token_type);
        }
        self.consume_multiple(kinds)
    }

    /// Takes the token that the cursor is on if it is of kind `token_type`;
    /// stays on it with an error otherwise.
    pub fn peek_consume(&mut self, token_type: TokenType) -> (res: ParseResult<Token>)
        requires
            old(self).live(),
        ensures
            final(self).stream() == old(self).stream(),
            final(self).wf(),
            (result_view(res), final(self).index()) == peek_expect_at(
                old(self).stream(),
                old(self).index(),
                token_type,
            ),
            res is Err || token_type != TokenType::EOF ==> final(self).live(),
    {
        let mut kinds: Vec<TokenType> = Vec::new();
        kinds.push(token_type);
        assert(kinds@ =~= one(token_type));
        proof {
            lemma_expect_one(self.stream(), self.index(), token_type);
        }
        self.peek_consume_multiple(kinds)
    }

    /// Takes the token that the cursor is on if its kind is among
    /// `token_types`; steps over it with an error otherwise.
    pub fn consume_multiple(&mut self, token_types: Vec<TokenType>) -> (res: ParseResult<Token>)
        requires
            old(self).live(),
        ensures
            final(self).stream() == old(self).stream(),
            final(self).wf(),
            (result_view(res), final(self).index()) == consume_at(
                old(self).stream(),
                old(self).index(),
                token_types@,
            ),
            res is Ok && !token_types@.contains(TokenType::EOF) ==> final(self).live(),
    {
        let res = self.peek_consume_multiple(token_types);
        if res.is_err() {
            assert(self.pos < self.tokens.len());
            self.pos = self.pos + 1;
        }
        res
    }

    /// Takes the token that the cursor is on if its kind is among
    /// `token_types`; stays on it with an error otherwise.
    pub fn peek_consume_multiple(&mut self, token_types: Vec<TokenType>) -> (res: ParseResult<
        Token,
    >)
        requires
            old(self).live(),
        ensures
            final(self).stream() == old(self).stream(),
            final(self).wf(),
            (result_view(res), final(self).index()) == peek_consume_at(
                old(self).stream(),
                old(self).index(),
                token_types@,
            ),
            res is Err || !token_types@.contains(TokenType::EOF) ==> final(self).live(),
    {
        let token = self.tokens[self.pos].copy();
        if contains_kind(&token_types, token.token_type) {
            assert(self.pos < self.tokens.len());
            self.pos = self.pos + 1;
            Ok(token)
        } else {
            Err(ParseError { expected: token_types, got: token })
        }
    }

    /// Closes a list after an item that no `delim` follows: takes `end` if
    /// it is there; steps over the token with an error otherwise, which
    /// names both kinds that could have come.
    pub fn close_list(&mut self, delim: TokenType, end: TokenType) -> (res: ParseResult<Token>)
        requires
            old(self).live(),
        ensures
            final(self).stream() == old(self).stream(),
            final(self).wf(),
            (result_view(res), final(self).index()) == close_at(
                old(self).stream(),
                old(self).index(),
                delim,
                end,
            ),
            res is Ok && end != TokenType::EOF ==> final(self).live(),
    {
        let token = self.next();
        if token.token_type == end {
            Ok(token)
        } else {
            let expected = vec![delim, end];
            assert(expected@ =~= seq![delim, end]);
            Err(ParseError { expected, got: token })
        }
    }

    /// Opens a list: takes `start`, and `end` if it follows at once.
    /// `Ok(true)` where items follow.
    pub fn list_open(&mut self, start: TokenType, end: TokenType) -> (res: ParseResult<bool>)
        requires
            old(self).live(),
            start != TokenType::EOF,
            end != TokenType::EOF,
        ensures
            final(self).stream() == old(self).stream(),
            final(self).wf(),
            res is Ok ==> final(self).live(),
            ({
                let ts = old(self).stream();
                let pos = old(self).index();
                match res {
                    Err(e) => !is_at(ts, pos, start) && e@ == (ParseErrorView {
                        expected: one(start),
                        got: ts[pos],
                    }) && final(self).index() == pos + 1,
                    Ok(more) => is_at(ts, pos, start) && more == !is_at(ts, pos + 1, end)
                        && final(self).index() == if more {
                        pos + 1
                    } else {
                        pos + 2
                    },
                }
            }),
    {
        let opened = self.consume(start);
        match opened {
            Err(e) => Err(e),
            Ok(_) => Ok(!self.accept(end)),
        }
    }

    /// Opens a list that may be left out: takes `start` if it is there,
    /// and `end` if it follows at once. `true` where items follow.
    pub fn optional_list_open(&mut self, start: TokenType, end: TokenType) -> (more: bool)
        requires
            old(self).live(),
            start != TokenType::EOF,
            end != TokenType::EOF,
        ensures
            final(self).stream() == old(self).stream(),
            final(self).live(),
            ({
                let ts = old(self).stream();
                let pos = old(self).index();
                &&& more == (is_at(ts, pos, start) && !is_at(ts, pos + 1, end))
                &&& final(self).index() == if !is_at(ts, pos, start) {
                    pos
                } else if more {
                    pos + 1
                } else {
                    pos + 2
                }
            }),
    {
        self.accept(start) && !self.accept(end)
    }

    /// Whether the cursor is on a token of kind `kind`.
    pub fn at(&self, kind: TokenType) -> (r: bool)
        requires
            self.live(),
        ensures
            r == (kind_at(self.stream(), self.index()) == kind),
    {
        self.tokens[self.pos].token_type == kind
    }

    /// Takes the token that the cursor is on if it is of kind `kind`, and
    /// says whether it did.
    pub fn accept(&mut self, kind: TokenType) -> (r: bool)
        requires
            old(self).live(),
        ensures
            final(self).stream() == old(self).stream(),
            final(self).wf(),
            r == (kind_at(old(self).stream(), old(self).index()) == kind),
            final(self).index() == old(self).index() + if r {
                1int
            } else {
                0int
            },
            !r || kind != TokenType::EOF ==> final(self).live(),
    {
        if self.tokens[self.pos].token_type == kind {
            assert(self.pos < self.tokens.len());
            self.pos = self.pos + 1;
            true
        } else {
            false
        }
    }
}

/// What can be parsed from a token stream.
pub trait Parsable: Sized {
    /// The mathematical value of what is parsed.
    type Value;

    /// The value of `self`.
    spec fn value(&self) -> Self::Value;

    /// The model of the parse: what stands at `pos`, and where it ends.
    spec fn parsed_at(ts: Seq<TokenView>, pos: int) -> Parsed<Self::Value>;

    /// Parses one `Self` where the cursor is.
    fn parse(tokens: &mut TokenCursor) -> (res: ParseResult<Self>)
        requires
            old(tokens).live(),
        ensures
            parsed_as(
                *old(tokens),
                *final(tokens),
                result_view_by(res, |v: Self| v.value()),
                Self::parsed_at(old(tokens).stream(), old(tokens).index()),
            ),
    ;
}

/// The values of a sequence of parsed items.
pub open spec fn values_of<T: Parsable>(s: Seq<T>) -> Seq<T::Value> {
    s.map_values(|x: T| x.value())
}

/// Items from `pos` on, `delim` between them, up to and with `end`.
pub open spec fn items_at<T: Parsable>(
    ts: Seq<TokenView>,
    pos: int,
    delim: TokenType,
    end: TokenType,
) -> Parsed<Seq<T::Value>>
    decreases ts.len() - pos,
{
    let item = T::parsed_at(ts, pos);
    if !progressed(ts, item, pos) {
        fail(item)
    } else if is_at(ts, item.1, delim) {
        prepend(seq![item.0->Ok_0], items_at::<T>(ts, item.1 + 1, delim, end))
    } else {
        map_ok(close_at(ts, item.1, delim, end), |t: TokenView| seq![item.0->Ok_0])
    }
}

/// The steps of a parse, on a cursor.
pub trait TokenExt {
    /// The stream that is walked.
    spec fn tokens(&self) -> Seq<TokenView>;

    /// The index of the token that comes next.
    spec fn at_index(&self) -> int;

    /// There is a token that comes next.
    spec fn on_token(&self) -> bool;

    /// The index is within the stream or just after it.
    spec fn in_stream(&self) -> bool;

    /// Takes the next token if it is of kind `token_type`; steps over it
    /// with an error otherwise.
    fn consume(&mut self, token_type: TokenType) -> (res: ParseResult<Token>)
        requires
            old(self).on_token(),
        ensures
            final(self).tokens() == old(self).tokens(),
            final(self).in_stream(),
            (result_view(res), final(self).at_index()) == expect_at(
                old(self).tokens(),
                old(self).at_index(),
                token_type,
            ),
            res is Ok && token_type != TokenType::EOF ==> final(self).on_token(),
    ;

    /// Takes the next token if it is of kind `token_type`; stays on it with
    /// an error otherwise.
    fn peek_consume(&mut self, token_type: TokenType) -> (res: ParseResult<Token>)
        requires
            old(self).on_token(),
        ensures
            final(self).tokens() == old(self).tokens(),
            final(self).in_stream(),
            (result_view(res), final(self).at_index()) == peek_expect_at(
                old(self).tokens(),
                old(self).at_index(),
                token_type,
            ),
            res is Err || token_type != TokenType::EOF ==> final(self).on_token(),
    ;

    /// Takes the next token if its kind is among `token_types`; steps over
    /// it with an error otherwise.
    fn consume_multiple(&mut self, token_types: Vec<TokenType>) -> (res: ParseResult<Token>)
        requires
            old(self).on_token(),
        ensures
            final(self).tokens() == old(self).tokens(),
            final(self).in_stream(),
            (result_view(res), final(self).at_index()) == consume_at(
                old(self).tokens(),
                old(self).at_index(),
                token_types@,
            ),
            res is Ok && !token_types@.contains(TokenType::EOF) ==> final(self).on_token(),
    ;

    /// Takes the next token if its kind is among `token_types`; stays on it
    /// with an error otherwise.
    fn peek_consume_multiple(&mut self, token_types: Vec<TokenType>) -> (res: ParseResult<Token>)
        requires
            old(self).on_token(),
        ensures
            final(self).tokens() == old(self).tokens(),
            final(self).in_stream(),
            (result_view(res), final(self).at_index()) == peek_consume_at(
                old(self).tokens(),
                old(self).at_index(),
                token_types@,
            ),
            res is Err || !token_types@.contains(TokenType::EOF) ==> final(self).on_token(),
    ;

    /// Parses a list that may be left out: nothing where `start` does not
    /// come next; else items with `delimter` between them, up to and with
    /// `end`.
    fn optional_list_parse<T: Parsable>(
        &mut self,
        start: TokenType,
        delimter: TokenType,
        end: TokenType,
    ) -> (res: ParseResult<Vec<T>>)
        requires
            old(self).on_token(),
            start != TokenType::EOF,
            delimter != TokenType::EOF,
            end != TokenType::EOF,
        ensures
            final(self).tokens() == old(self).tokens(),
            final(self).in_stream(),
            (result_view_by(res, |v: Vec<T>| values_of(v@)), final(self).at_index())
                == optional_list_at(
                old(self).tokens(),
                old(self).at_index(),
                start,
                end,
                items_at::<T>(old(self).tokens(), old(self).at_index() + 1, delimter, end),
            ),
            res is Ok ==> final(self).on_token(),
    ;

    /// Parses a list: `start`, then items with `delimter` between them, up
    /// to and with `end`.
    fn list_parse<T: Parsable>(
        &mut self,
        start: TokenType,
        delimter: TokenType,
        end: TokenType,
    ) -> (res: ParseResult<Vec<T>>)
        requires
            old(self).on_token(),
            start != TokenType::EOF,
            delimter != TokenType::EOF,
            end != TokenType::EOF,
        ensures
            final(self).tokens() == old(self).tokens(),
            final(self).in_stream(),
            (result_view_by(res, |v: Vec<T>| values_of(v@)), final(self).at_index()) == list_at(
                old(self).tokens(),
                old(self).at_index(),
                start,
                end,
                items_at::<T>(old(self).tokens(), old(self).at_index() + 1, delimter, end),
            ),
            res is Ok ==> final(self).on_token(),
    ;
}

/// Parses items with `delim` between them, up to and with `end`.
pub fn parse_items<T: Parsable>(tokens: &mut TokenCursor, delim: TokenType, end: TokenType) -> (res:
    ParseResult<Vec<T>>)
    requires
        old(tokens).live(),
        delim != TokenType::EOF,
        end != TokenType::EOF,
    ensures
        parsed_as(
            *old(tokens),
            *final(tokens),
            result_view_by(res, |v: Vec<T>| values_of(v@)),
            items_at::<T>(old(tokens).stream(), old(tokens).index(), delim, end),
        ),
{
    let ghost ts = tokens.stream();
    let ghost start = tokens.index();
    let mut list: Vec<T> = Vec::new();
    proof {
        lemma_prepend_empty(items_at::<T>(ts, start, delim, end));
        assert(values_of(list@) =~= Seq::empty());
    }
    loop
        invariant
            tokens.live(),
            tokens.stream() == ts,
            ts == old(tokens).stream(),
            start == old(tokens).index(),
            start <= tokens.index(),
            list.len() > 0 ==> start < tokens.index(),
            delim != TokenType::EOF,
            end != TokenType::EOF,
            items_at::<T>(ts, start, delim, end) == prepend(
                values_of(list@),
                items_at::<T>(ts, tokens.index(), delim, end),
            ),
        decreases ts.len() - tokens.index(),
    {
        let ghost front = values_of(list@);
        let item = T::parse(tokens)?;
        let ghost value = item.value();
        proof {
            lemma_prepend_push(front, value, items_at::<T>(ts, tokens.index() + 1, delim, end));
        }
        list.push(item);
        assert(values_of(list@) =~= front.push(value));
        if tokens.accept(delim) {
            continue ;
        }
        assert(front + seq![value] =~= front.push(value));
        tokens.close_list(delim, end)?;
        return Ok(list);
    }
}

impl TokenExt for TokenCursor {
    open spec fn tokens(&self) -> Seq<TokenView> {
        self.stream()
    }

    open spec fn at_index(&self) -> int {
        self.index()
    }

    open spec fn on_token(&self) -> bool {
        self.live()
    }

    open spec fn in_stream(&self) -> bool {
        self.wf()
    }

    fn consume(&mut self, token_type: TokenType) -> (res: ParseResult<Token>) {
        TokenCursor::consume(self, token_type)
    }

    fn peek_consume(&mut self, token_type: TokenType) -> (res: ParseResult<Token>) {
        TokenCursor::peek_consume(self, token_type)
    }

    fn consume_multiple(&mut self, token_types: Vec<TokenType>) -> (res: ParseResult<Token>) {
        TokenCursor::consume_multiple(self, token_types)
    }

    fn peek_consume_multiple(&mut self, token_types: Vec<TokenType>) -> (res: ParseResult<Token>) {
        TokenCursor::peek_consume_multiple(self, token_types)
    }

    fn optional_list_parse<T: Parsable>(
        &mut self,
        start: TokenType,
        delimter: TokenType,
        end: TokenType,
    ) -> (res: ParseResult<Vec<T>>) {
        if self.optional_list_open(start, end) {
            parse_items(self, delimter, end)
        } else {
            let empty: Vec<T> = Vec::new();
            assert(values_of(empty@) =~= Seq::empty());
            Ok(empty)
        }
    }

    fn list_parse<T: Parsable>(
        &mut self,
        start: TokenType,
        delimter: TokenType,
        end: TokenType,
    ) -> (res: ParseResult<Vec<T>>) {
        if self.list_open(start, end)? {
            parse_items(self, delimter, end)
        } else {
            let empty: Vec<T> = Vec::new();
            assert(values_of(empty@) =~= Seq::empty());
            Ok(empty)
        }
    }
}

/// An optional value that is known to be there.
pub trait Wrapper<T> {
    spec fn is_there(&self) -> bool;

    spec fn held(&self) -> T;

    fn cannot_end(self) -> (r: T) where Self: Sized
        requires
            self.is_there(),
        ensures
            r == self.held(),
    ;
}

impl<T> Wrapper<T> for Option<T> {
    open spec fn is_there(&self) -> bool {
        self is Some
    }

    open spec fn held(&self) -> T {
        self->0
    }

    fn cannot_end(self) -> (r: T) {
        self.unwrap()
    }
}

} // verus!
