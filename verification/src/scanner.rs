//! The scanner: source text to a flat token stream.
//!
//! The model of a source text is its sequence of characters. Every token is
//! determined by its kind and by the two character offsets between which it
//! lies: its lexeme is the text between them, its line is the number of line
//! feeds before its end.

use vstd::prelude::*;

verus! {

/// The kinds of token.
#[derive(Debug, Clone, Copy, PartialEq, Eq, Structural)]
pub enum TokenType {
    //single char
    Plus,
    Minus,
    Slash,
    Comma,
    SemiColon,
    Colon,
    Dot,
    Bang,
    At,
    Equal,
    Pipe,
    Star,
    Percent,
    Ampersand,
    //scope stuff
    LBrace,
    RBrace,
    LParen,
    RParen,
    LBrack,
    RBrack,
    LArrow,
    RArrow,
    //two char
    LessOrEqual,
    MoreOrEqual,
    SmallArrow,
    EqualEqual,
    BangEqual,
    PlusEqual,
    MinusEqual,
    DoubleColon,
    SHL,
    //idents
    Ident,
    String,
    Int,
    Float,
    //Keywords
    Fn,
    Struct,
    Enum,
    While,
    Let,
    Return,
    Self_,
    If,
    Impl,
    Else,
    True,
    False,
    Trait,
    And,
    Or,
    Mut,
    For,
    Continue,
    Break,
    Panic,
    //other stuff
    Error,
    EOF,
    Comment,
}

/// One token: its kind, the line on which it ends, the character offset at
/// which it starts, and its exact source text.
#[derive(Debug, Clone)]
pub struct Token {
    pub token_type: TokenType,
    pub line: usize,
    pub line_offset: usize,
    pub lexeme: String,
}

/// The mathematical value of a [`Token`].
pub ghost struct TokenView {
    pub token_type: TokenType,
    pub line: nat,
    pub line_offset: nat,
    pub lexeme: Seq<char>,
}

impl View for Token {
    type V = TokenView;

    open spec fn view(&self) -> TokenView {
        TokenView {
            token_type: self.token_type,
            line: self.line as nat,
            line_offset: self.line_offset as nat,
            lexeme: self.lexeme@,
        }
    }
}

impl Token {
    /// A copy of this token with the same value.
    pub fn copy(&self) -> (r: Token)
        ensures
            r == *self,
    {
        Token {
            token_type: self.token_type,
            line: self.line,
            line_offset: self.line_offset,
            lexeme: self.lexeme.clone(),
        }
    }
}

/// The values of a sequence of tokens.
pub open spec fn token_views(tokens: Seq<Token>) -> Seq<TokenView> {
    tokens.map_values(|t: Token| t@)
}

// ---------------------------------------------------------------------------
// Character classes
// ---------------------------------------------------------------------------

/// Whether `char::is_alphabetic` holds of `c`.
pub uninterp spec fn char_is_alphabetic(c: char) -> bool;

/// Whether `char::is_numeric` holds of `c`.
pub uninterp spec fn char_is_numeric(c: char) -> bool;

/// Whether `char::is_whitespace` holds of `c`.
pub uninterp spec fn char_is_whitespace(c: char) -> bool;

/// A character that is alphabetic or numeric.
pub open spec fn char_is_alphanumeric(c: char) -> bool {
    char_is_alphabetic(c) || char_is_numeric(c)
}

/// Calls `char::is_alphanumeric`, which std documents as true of the
/// characters of which `is_alphabetic` or `is_numeric` is true.
#[verifier::external_body]
fn is_alphanumeric(c: char) -> (r: bool)
    ensures
        r == (char_is_alphabetic(c) || char_is_numeric(c)),
{
    c.is_alphanumeric()
}

/// Calls `char::is_alphabetic`; the result is only given its name.
#[verifier::external_body]
fn is_alphabetic(c: char) -> (r: bool)
    ensures
        r == char_is_alphabetic(c),
{
    c.is_alphabetic()
}

/// Calls `char::is_numeric`; the result is only given its name.
#[verifier::external_body]
fn is_numeric(c: char) -> (r: bool)
    ensures
        r == char_is_numeric(c),
{
    c.is_numeric()
}

/// Calls `char::is_whitespace`; the result is only given its name.
#[verifier::external_body]
fn is_whitespace(c: char) -> (r: bool)
    ensures
        r == char_is_whitespace(c),
{
    c.is_whitespace()
}

/// A character that may continue an identifier.
pub open spec fn is_ident_char(c: char) -> bool {
    char_is_alphanumeric(c) || c == '_'
}

/// A character that may start an identifier.
pub open spec fn is_ident_start(c: char) -> bool {
    char_is_alphabetic(c) || c == '_'
}

/// Whether `c` may continue an identifier.
pub fn is_new_alphanumeric(c: char) -> (r: bool)
    ensures
        r == is_ident_char(c),
{
    is_alphanumeric(c) || c == '_'
}

/// Whether `c` may start an identifier.
pub fn is_new_alpha(c: char) -> (r: bool)
    ensures
        r == is_ident_start(c),
{
    is_alphabetic(c) || c == '_'
}

// ---------------------------------------------------------------------------
// The model of scanning
// ---------------------------------------------------------------------------

/// The character at offset `i`, or a space past the end of the text.
pub open spec fn peek_or_space(s: Seq<char>, i: int) -> char {
    if 0 <= i < s.len() {
        s[i]
    } else {
        ' '
    }
}

/// The number of line feeds among the first `n` characters.
pub open spec fn newlines(s: Seq<char>, n: int) -> nat
    decreases n,
{
    if n <= 0 || n > s.len() {
        0
    } else {
        newlines(s, n - 1) + if s[n - 1] == '\n' {
            1nat
        } else {
            0nat
        }
    }
}

/// The first offset at or after `i` that holds no whitespace.
pub open spec fn blank_end(s: Seq<char>, i: int) -> int
    decreases s.len() - i,
{
    if 0 <= i < s.len() && char_is_whitespace(s[i]) {
        blank_end(s, i + 1)
    } else {
        i
    }
}

/// The first offset at or after `i` that holds no identifier character.
pub open spec fn ident_end(s: Seq<char>, i: int) -> int
    decreases s.len() - i,
{
    if 0 <= i < s.len() && is_ident_char(s[i]) {
        ident_end(s, i + 1)
    } else {
        i
    }
}

/// The first offset at or after `i` that holds no numeric character.
pub open spec fn digits_end(s: Seq<char>, i: int) -> int
    decreases s.len() - i,
{
    if 0 <= i < s.len() && char_is_numeric(s[i]) {
        digits_end(s, i + 1)
    } else {
        i
    }
}

/// Kind and end of a numeric literal whose digits continue at `i`: a run of
/// digits, and a fraction only where the point is followed by a digit.
pub open spec fn numeric_end(s: Seq<char>, i: int) -> (TokenType, int) {
    let d = digits_end(s, i);
    if 0 <= d < s.len() && s[d] == '.' && char_is_numeric(peek_or_space(s, d + 1)) {
        (TokenType::Float, digits_end(s, d + 1))
    } else {
        (TokenType::Int, d)
    }
}

/// How many characters of `word`, from its `k`-th on, the text repeats from
/// offset `p + k` on, counted from the start of `word`.
pub open spec fn matched(s: Seq<char>, p: int, word: Seq<char>, k: int) -> int
    decreases word.len() - k,
{
    if 0 <= k < word.len() && 0 <= p + k < s.len() && s[p + k] == word[k] {
        matched(s, p, word, k + 1)
    } else {
        k
    }
}

/// The outcome of testing for the rest of a keyword at offset `p`: the
/// kind found and the end offset. The keyword is found where all of `word`
/// is there and no identifier character follows; anything else, the end of
/// the text inside `word` too, is an identifier, which goes on from the
/// first character that `word` does not have.
pub open spec fn keyword_end(s: Seq<char>, p: int, word: Seq<char>, kind: TokenType) -> (
    TokenType,
    int,
) {
    let q = p + matched(s, p, word, 0);
    if q - p == word.len() && !is_ident_char(peek_or_space(s, q)) {
        (kind, q)
    } else {
        (TokenType::Ident, ident_end(s, q))
    }
}

/// The end of a string literal whose body starts at `i`: one past the next
/// quote that no backslash escapes. A backslash takes the character after it
/// with it. `Error` where the text ends first.
pub open spec fn string_end(s: Seq<char>, i: int) -> (TokenType, int)
    decreases s.len() - i,
{
    if 0 <= i < s.len() {
        if s[i] == '"' {
            (TokenType::String, i + 1)
        } else if s[i] == '\\' && i + 1 < s.len() {
            string_end(s, i + 2)
        } else {
            string_end(s, i + 1)
        }
    } else {
        (TokenType::Error, i)
    }
}

/// The end of a line comment that continues at `i`: one past the next line
/// feed, or the end of the text.
pub open spec fn comment_end(s: Seq<char>, i: int) -> int
    decreases s.len() - i,
{
    if 0 <= i < s.len() {
        if s[i] == '\n' {
            i + 1
        } else {
            comment_end(s, i + 1)
        }
    } else {
        i
    }
}

/// The kind of a token that is one character whatever follows.
pub open spec fn single_char_kind(c: char) -> Option<TokenType> {
    if c == ';' {
        Some(TokenType::SemiColon)
    } else if c == '(' {
        Some(TokenType::LParen)
    } else if c == ')' {
        Some(TokenType::RParen)
    } else if c == '[' {
        Some(TokenType::LBrack)
    } else if c == ']' {
        Some(TokenType::RBrack)
    } else if c == '{' {
        Some(TokenType::LBrace)
    } else if c == '}' {
        Some(TokenType::RBrace)
    } else if c == '@' {
        Some(TokenType::At)
    } else if c == '%' {
        Some(TokenType::Percent)
    } else if c == '.' {
        Some(TokenType::Dot)
    } else if c == '*' {
        Some(TokenType::Star)
    } else if c == ',' {
        Some(TokenType::Comma)
    } else if c == '|' {
        Some(TokenType::Pipe)
    } else if c == '&' {
        Some(TokenType::Ampersand)
    } else {
        None
    }
}

/// For a first character that can start one keyword only: the rest of that
/// keyword and its kind.
pub open spec fn keyword_tail(c: char) -> Option<(Seq<char>, TokenType)> {
    if c == 'b' {
        Some(("reak"@, TokenType::Break))
    } else if c == 'c' {
        Some(("ontinue"@, TokenType::Continue))
    } else if c == 'l' {
        Some(("et"@, TokenType::Let))
    } else if c == 'r' {
        Some(("eturn"@, TokenType::Return))
    } else if c == 'w' {
        Some(("hile"@, TokenType::While))
    } else if c == 'a' {
        Some(("nd"@, TokenType::And))
    } else if c == 'o' {
        Some(("r"@, TokenType::Or))
    } else if c == 'S' {
        Some(("elf"@, TokenType::Self_))
    } else if c == 's' {
        Some(("truct"@, TokenType::Struct))
    } else if c == 'T' {
        Some(("rait"@, TokenType::Trait))
    } else if c == 'm' {
        Some(("ut"@, TokenType::Mut))
    } else if c == 'p' {
        Some(("anic"@, TokenType::Panic))
    } else {
        None
    }
}

/// For a first character that can start several keywords, and the character
/// after it: the rest of the keyword that the two select, and its kind.
pub open spec fn branch_tail(c: char, d: char) -> Option<(Seq<char>, TokenType)> {
    if c == 'i' && d == 'f' {
        Some((""@, TokenType::If))
    } else if c == 'i' && d == 'm' {
        Some(("pl"@, TokenType::Impl))
    } else if c == 'e' && d == 'l' {
        Some(("se"@, TokenType::Else))
    } else if c == 'e' && d == 'n' {
        Some(("um"@, TokenType::Enum))
    } else if c == 'f' && d == 'a' {
        Some(("lse"@, TokenType::False))
    } else if c == 'f' && d == 'n' {
        Some((""@, TokenType::Fn))
    } else if c == 'f' && d == 'o' {
        Some(("r"@, TokenType::For))
    } else {
        None
    }
}

/// A token that starts with `i`, `e` or `f`, after that character: the
/// keyword that the character at `p` selects, if it selects one and the rest
/// of it follows, else an identifier.
pub open spec fn branch_end(s: Seq<char>, c: char, p: int) -> (TokenType, int) {
    match branch_tail(c, peek_or_space(s, p)) {
        Some((word, kind)) => if 0 <= p < s.len() {
            keyword_end(s, p + 1, word, kind)
        } else {
            (TokenType::Ident, ident_end(s, p))
        },
        None => (TokenType::Ident, ident_end(s, p)),
    }
}

/// A token that starts with `t`, after that character: `true`, `trait`, or
/// an identifier.
pub open spec fn t_end(s: Seq<char>, p: int) -> (TokenType, int) {
    if 0 <= p && p + 1 < s.len() && s[p] == 'r' && s[p + 1] == 'u' {
        keyword_end(s, p + 2, "e"@, TokenType::True)
    } else if 0 <= p && p + 1 < s.len() && s[p] == 'r' && s[p + 1] == 'a' {
        keyword_end(s, p + 2, "it"@, TokenType::Trait)
    } else {
        (TokenType::Ident, ident_end(s, p))
    }
}

/// One of two kinds, by whether the character at `p` is `c`.
pub open spec fn either_kind(s: Seq<char>, p: int, c: char, yes: TokenType, no: TokenType) -> (
    TokenType,
    int,
) {
    if 0 <= p < s.len() && s[p] == c {
        (yes, p + 1)
    } else {
        (no, p)
    }
}

/// A token that starts with `-`, after that character. The sign belongs to
/// a numeric literal where a digit follows and the token before was not
/// numeric.
pub open spec fn minus_end(s: Seq<char>, p: int, last_numeric: bool) -> (TokenType, int) {
    if !last_numeric && char_is_numeric(peek_or_space(s, p)) {
        numeric_end(s, p)
    } else if 0 <= p < s.len() && s[p] == '=' {
        (TokenType::MinusEqual, p + 1)
    } else {
        either_kind(s, p, '>', TokenType::SmallArrow, TokenType::Minus)
    }
}

/// The token that starts at `start`, an offset that holds no whitespace:
/// its kind and its end.
pub open spec fn lex_after(s: Seq<char>, start: int, last_numeric: bool) -> (TokenType, int) {
    let c = s[start];
    let p = start + 1;
    if let Some(kind) = single_char_kind(c) {
        (kind, p)
    } else if c == ':' {
        either_kind(s, p, ':', TokenType::DoubleColon, TokenType::Colon)
    } else if c == '+' {
        either_kind(s, p, '=', TokenType::PlusEqual, TokenType::Plus)
    } else if c == '=' {
        either_kind(s, p, '=', TokenType::EqualEqual, TokenType::Equal)
    } else if c == '<' {
        if p < s.len() && s[p] == '=' {
            (TokenType::LessOrEqual, p + 1)
        } else {
            either_kind(s, p, '<', TokenType::SHL, TokenType::LArrow)
        }
    } else if c == '!' {
        either_kind(s, p, '=', TokenType::BangEqual, TokenType::Bang)
    } else if c == '>' {
        either_kind(s, p, '=', TokenType::MoreOrEqual, TokenType::RArrow)
    } else if c == '-' {
        minus_end(s, p, last_numeric)
    } else if let Some((word, kind)) = keyword_tail(c) {
        keyword_end(s, p, word, kind)
    } else if c == 'i' || c == 'e' || c == 'f' {
        branch_end(s, c, p)
    } else if c == 't' {
        t_end(s, p)
    } else if char_is_numeric(c) {
        numeric_end(s, p)
    } else if is_ident_start(c) {
        (TokenType::Ident, ident_end(s, p))
    } else if c == '"' {
        string_end(s, p)
    } else if c == '/' {
        if p < s.len() && s[p] == '/' {
            (TokenType::Comment, comment_end(s, p + 1))
        } else {
            (TokenType::Slash, p)
        }
    } else {
        (TokenType::Error, p)
    }
}

/// The token of kind `kind` between the offsets `start` and `end`.
pub open spec fn make_token(s: Seq<char>, kind: TokenType, start: int, end: int) -> TokenView {
    TokenView {
        token_type: kind,
        line: newlines(s, end),
        line_offset: start as nat,
        lexeme: s.subrange(start, end),
    }
}

/// Whether a token of this kind is a numeric literal.
pub open spec fn is_numeric_kind(kind: TokenType) -> bool {
    kind == TokenType::Int || kind == TokenType::Float
}

/// All tokens from offset `pos` on, comments included, up to and with the
/// `EOF` token, which lies at the end of the text. `last_numeric` says
/// whether the token before `pos` was a numeric literal.
pub open spec fn scan_from(s: Seq<char>, pos: int, last_numeric: bool) -> Seq<TokenView>
    decreases s.len() - pos,
{
    let start = blank_end(s, pos);
    if pos < 0 || start >= s.len() {
        seq![make_token(s, TokenType::EOF, start, start)]
    } else {
        let found = lex_after(s, start, last_numeric);
        proof {
            lemma_blank_end_bounds(s, pos);
            lemma_lex_after_bounds(s, start, last_numeric);
        }
        seq![make_token(s, found.0, start, found.1)] + scan_from(
            s,
            found.1,
            is_numeric_kind(found.0),
        )
    }
}

/// Whether a token stays in the stream that the scanner hands out.
pub open spec fn is_kept(t: TokenView) -> bool {
    t.token_type != TokenType::Comment
}

/// The token stream of a source text: its tokens in order, without the
/// comments, closed by one `EOF` token.
pub open spec fn scan_spec(s: Seq<char>) -> Seq<TokenView> {
    scan_from(s, 0, false).filter(kept())
}


/// The token is a piece of the text: its lexeme is the text from its offset
/// on.
pub open spec fn lies_in(s: Seq<char>, t: TokenView) -> bool {
    &&& t.line_offset + t.lexeme.len() <= s.len()
    &&& t.lexeme == s.subrange(
        t.line_offset as int,
        t.line_offset as int + t.lexeme.len() as int,
    )
}

/// The token `a` ends where `b` starts, or before.
pub open spec fn ends_before(a: TokenView, b: TokenView) -> bool {
    a.line_offset + a.lexeme.len() <= b.line_offset
}

/// The tokens are pieces of the text, in the order of the text, and no two
/// of them overlap.
pub open spec fn in_order(s: Seq<char>, tokens: Seq<TokenView>) -> bool {
    &&& forall|i: int| 0 <= i < tokens.len() ==> lies_in(s, #[trigger] tokens[i])
    &&& forall|i: int, j: int|
        0 <= i < j < tokens.len() ==> ends_before(#[trigger] tokens[i], #[trigger] tokens[j])
}

/// The test by which the scanner keeps a token.
pub open spec fn kept() -> spec_fn(TokenView) -> bool {
    |t: TokenView| is_kept(t)
}

// ---------------------------------------------------------------------------
// Lemmas on the model
// ---------------------------------------------------------------------------

/// A run of identifier characters ends at or after its start, within the
/// text.
pub proof fn lemma_ident_end_bounds(s: Seq<char>, i: int)
    requires
        0 <= i <= s.len(),
    ensures
        i <= ident_end(s, i) <= s.len(),
    decreases s.len() - i,
{
    if i < s.len() && is_ident_char(s[i]) {
        lemma_ident_end_bounds(s, i + 1);
    }
}

/// A run of numeric characters ends at or after its start, within the text.
pub proof fn lemma_digits_end_bounds(s: Seq<char>, i: int)
    requires
        0 <= i <= s.len(),
    ensures
        i <= digits_end(s, i) <= s.len(),
    decreases s.len() - i,
{
    if i < s.len() && char_is_numeric(s[i]) {
        lemma_digits_end_bounds(s, i + 1);
    }
}

/// What the text repeats of a word lies within the word and within the
/// text.
pub proof fn lemma_matched_bounds(s: Seq<char>, p: int, word: Seq<char>, k: int)
    requires
        0 <= p,
        0 <= k <= word.len(),
        p + k <= s.len(),
    ensures
        k <= matched(s, p, word, k) <= word.len(),
        p + matched(s, p, word, k) <= s.len(),
    decreases word.len() - k,
{
    if k < word.len() && p + k < s.len() && s[p + k] == word[k] {
        lemma_matched_bounds(s, p, word, k + 1);
    }
}

/// A keyword or the identifier in its place ends at or after its start,
/// within the text.
pub proof fn lemma_keyword_end_bounds(s: Seq<char>, p: int, word: Seq<char>, kind: TokenType)
    requires
        0 <= p <= s.len(),
    ensures
        p <= keyword_end(s, p, word, kind).1 <= s.len(),
{
    lemma_matched_bounds(s, p, word, 0);
    lemma_ident_end_bounds(s, p + matched(s, p, word, 0));
}

/// A string literal ends at or after the start of its body, within the
/// text.
pub proof fn lemma_string_end_bounds(s: Seq<char>, i: int)
    requires
        0 <= i <= s.len(),
    ensures
        i <= string_end(s, i).1 <= s.len(),
    decreases s.len() - i,
{
    if i < s.len() {
        if s[i] == '"' {
        } else if s[i] == '\\' && i + 1 < s.len() {
            lemma_string_end_bounds(s, i + 2);
        } else {
            lemma_string_end_bounds(s, i + 1);
        }
    }
}

/// A comment ends at or after its start, within the text.
pub proof fn lemma_comment_end_bounds(s: Seq<char>, i: int)
    requires
        0 <= i <= s.len(),
    ensures
        i <= comment_end(s, i) <= s.len(),
    decreases s.len() - i,
{
    if i < s.len() && s[i] != '\n' {
        lemma_comment_end_bounds(s, i + 1);
    }
}

/// A numeric literal ends at or after the start of its digits, within the
/// text.
pub proof fn lemma_numeric_end_bounds(s: Seq<char>, i: int)
    requires
        0 <= i <= s.len(),
    ensures
        i <= numeric_end(s, i).1 <= s.len(),
{
    lemma_digits_end_bounds(s, i);
    let d = digits_end(s, i);
    if d < s.len() {
        lemma_digits_end_bounds(s, d + 1);
    }
}

/// A token that starts inside the text takes at least one character and
/// ends within the text.
pub proof fn lemma_lex_after_bounds(s: Seq<char>, start: int, last_numeric: bool)
    requires
        0 <= start < s.len(),
    ensures
        start < lex_after(s, start, last_numeric).1 <= s.len(),
{
    let c = s[start];
    let p = start + 1;
    lemma_numeric_end_bounds(s, p);
    lemma_ident_end_bounds(s, p);
    lemma_string_end_bounds(s, p);
    if let Some((word, kind)) = keyword_tail(c) {
        lemma_keyword_end_bounds(s, p, word, kind);
    }
    if p < s.len() {
        lemma_comment_end_bounds(s, p + 1);
        if let Some((word, kind)) = branch_tail(c, s[p]) {
            lemma_keyword_end_bounds(s, p + 1, word, kind);
        }
        if p + 1 < s.len() {
            lemma_keyword_end_bounds(s, p + 2, "e"@, TokenType::True);
            lemma_keyword_end_bounds(s, p + 2, "it"@, TokenType::Trait);
        }
    }
}

/// A run of whitespace ends at or after its start, within the text.
pub proof fn lemma_blank_end_bounds(s: Seq<char>, i: int)
    requires
        0 <= i <= s.len(),
    ensures
        i <= blank_end(s, i) <= s.len(),
    decreases s.len() - i,
{
    if i < s.len() && char_is_whitespace(s[i]) {
        lemma_blank_end_bounds(s, i + 1);
    }
}

/// Filtering a sequence that grew by one item.
pub proof fn lemma_filter_push<A>(s: Seq<A>, x: A, pred: spec_fn(A) -> bool)
    ensures
        s.push(x).filter(pred) == if pred(x) {
            s.filter(pred).push(x)
        } else {
            s.filter(pred)
        },
{
    reveal(Seq::filter);
    assert(s.push(x).drop_last() =~= s);
}

// ---------------------------------------------------------------------------
// The scanner
// ---------------------------------------------------------------------------

/// The state of one pass over a source text.
pub struct Scanner {
    source_code: String,
    length: usize,
    line: usize,
    start: usize,
    current: usize,
}

/// The single-character token that `c` is, if it is one.
fn single_char_token(c: char) -> (r: Option<TokenType>)
    ensures
        r == single_char_kind(c),
{
    match c {
        ';' => Some(TokenType::SemiColon),
        '(' => Some(TokenType::LParen),
        ')' => Some(TokenType::RParen),
        '[' => Some(TokenType::LBrack),
        ']' => Some(TokenType::RBrack),
        '{' => Some(TokenType::LBrace),
        '}' => Some(TokenType::RBrace),
        '@' => Some(TokenType::At),
        '%' => Some(TokenType::Percent),
        '.' => Some(TokenType::Dot),
        '*' => Some(TokenType::Star),
        ',' => Some(TokenType::Comma),
        '|' => Some(TokenType::Pipe),
        '&' => Some(TokenType::Ampersand),
        _ => None,
    }
}

/// The rest of the one keyword that `c` can start, and its kind.
fn keyword_rest(c: char) -> (r: Option<(&'static str, TokenType)>)
    ensures
        match r {
            Some((word, kind)) => keyword_tail(c) == Some((word@, kind)),
            None => keyword_tail(c) is None,
        },
{
    match c {
        'b' => Some(("reak", TokenType::Break)),
        'c' => Some(("ontinue", TokenType::Continue)),
        'l' => Some(("et", TokenType::Let)),
        'r' => Some(("eturn", TokenType::Return)),
        'w' => Some(("hile", TokenType::While)),
        'a' => Some(("nd", TokenType::And)),
        'o' => Some(("r", TokenType::Or)),
        'S' => Some(("elf", TokenType::Self_)),
        's' => Some(("truct", TokenType::Struct)),
        'T' => Some(("rait", TokenType::Trait)),
        'm' => Some(("ut", TokenType::Mut)),
        'p' => Some(("anic", TokenType::Panic)),
        _ => None,
    }
}

/// The rest of the keyword that `c` and `d` select, and its kind.
fn branch_rest(c: char, d: char) -> (r: Option<(&'static str, TokenType)>)
    ensures
        match r {
            Some((word, kind)) => branch_tail(c, d) == Some((word@, kind)),
            None => branch_tail(c, d) is None,
        },
{
    if c == 'i' && d == 'f' {
        Some(("", TokenType::If))
    } else if c == 'i' && d == 'm' {
        Some(("pl", TokenType::Impl))
    } else if c == 'e' && d == 'l' {
        Some(("se", TokenType::Else))
    } else if c == 'e' && d == 'n' {
        Some(("um", TokenType::Enum))
    } else if c == 'f' && d == 'a' {
        Some(("lse", TokenType::False))
    } else if c == 'f' && d == 'n' {
        Some(("", TokenType::Fn))
    } else if c == 'f' && d == 'o' {
        Some(("r", TokenType::For))
    } else {
        None
    }
}

impl Scanner {
    /// The text that is scanned.
    pub closed spec fn source(&self) -> Seq<char> {
        self.source_code@
    }

    /// The offset of the next character to read.
    pub closed spec fn cursor(&self) -> int {
        self.current as int
    }

    /// The offset at which the token under way starts.
    pub closed spec fn mark(&self) -> int {
        self.start as int
    }

    /// The scanner's invariant: both offsets lie within the text, in order,
    /// and the line counter holds the number of line feeds read.
    pub closed spec fn wf(&self) -> bool {
        &&& self.length == self.source_code@.len()
        &&& self.start <= self.current <= self.length
        &&& self.line <= self.current
        &&& self.line == newlines(self.source_code@, self.current as int)
    }

    /// In a well-formed scanner, `0 <= mark <= cursor <= source.len()`.
    pub proof fn lemma_wf_bounds(&self)
        requires
            self.wf(),
        ensures
            0 <= self.mark() <= self.cursor() <= self.source().len(),
    {
    }

    /// A scanner at the start of `source`.
    pub fn new(source: String) -> (r: Scanner)
        ensures
            r.wf(),
            r.source() == source@,
            r.cursor() == 0,
            r.mark() == 0,
    {
        let length = source.as_str().unicode_len();
        Scanner { source_code: source, length, line: 0, start: 0, current: 0 }
    }

    /// The token stream of `source`: its tokens in order, comments left out,
    /// closed by exactly one `EOF` token. Never fails: what is no token
    /// becomes a token of kind `Error`.
    pub fn scan(source: String) -> (tokens: Vec<Token>)
        ensures
            token_views(tokens@) == scan_spec(source@),
            in_order(source@, token_views(tokens@)),
            tokens.len() > 0,
            tokens[tokens.len() - 1].token_type == TokenType::EOF,
            forall|i: int| 0 <= i < tokens.len() - 1 ==> tokens[i].token_type != TokenType::EOF,
    {
        let ghost s = source@;
        let mut tokens: Vec<Token> = Vec::new();
        let mut scanner = Scanner::new(source);
        let mut last_numeric = false;
        let mut done = false;
        let ghost mut all: Seq<TokenView> = Seq::empty();
        proof {
            reveal(Seq::filter);
            assert(all + scan_from(s, 0, false) =~= scan_from(s, 0, false));
            assert(token_views(tokens@) =~= all.filter(kept()));
        }
        while !done
            invariant
                scanner.wf(),
                scanner.source() == s,
                !done ==> scan_from(s, 0, false) == all + scan_from(
                    s,
                    scanner.cursor(),
                    last_numeric,
                ),
                done ==> scan_from(s, 0, false) == all,
                token_views(tokens@) == all.filter(kept()),
            decreases
                    if done {
                        0
                    } else {
                        s.len() - scanner.cursor() + 1
                    },
        {
            let ghost before = scanner.cursor();
            let ghost old_views = token_views(tokens@);
            proof {
                scanner.lemma_wf_bounds();
                lemma_blank_end_bounds(s, before);
            }
            match scanner.scan_token(last_numeric) {
                Some(tok) => {
                    proof {
                        scanner.lemma_wf_bounds();
                        lemma_filter_push(all, tok@, kept());
                        assert(all.push(tok@) + scan_from(
                            s,
                            scanner.cursor(),
                            is_numeric_kind(tok.token_type),
                        ) =~= all + scan_from(s, before, last_numeric));
                        all = all.push(tok@);
                    }
                    last_numeric = tok.token_type == TokenType::Int || tok.token_type
                        == TokenType::Float;
                    if tok.token_type != TokenType::Comment {
                        tokens.push(tok);
                        assert(token_views(tokens@) =~= old_views.push(tok@));
                    }
                },
                None => {
                    let tok = scanner.gen_token(TokenType::EOF);
                    proof {
                        lemma_filter_push(all, tok@, kept());
                        assert(all.push(tok@) =~= all + scan_from(s, before, last_numeric));
                        all = all.push(tok@);
                    }
                    tokens.push(tok);
                    assert(token_views(tokens@) =~= old_views.push(tok@));
                    done = true;
                },
            }
        }
        proof {
            lemma_scan_ends_with_eof(s);
            lemma_scan_in_order(s);
            let n = tokens.len() as int;
            assert(tokens[n - 1]@ == scan_spec(s)[n - 1]);
            assert forall|i: int| 0 <= i < n - 1 implies tokens[i].token_type
                != TokenType::EOF by {
                assert(tokens[i]@ == scan_spec(s)[i]);
            }
        }
        tokens
    }

    /// The next token, after the whitespace before it; `None` where the text
    /// ends before a token starts.
    pub fn scan_token(&mut self, is_last_numeric: bool) -> (tok: Option<Token>)
        requires
            old(self).wf(),
        ensures
            final(self).wf(),
            final(self).source() == old(self).source(),
            final(self).mark() == blank_end(old(self).source(), old(self).cursor()),
            ({
                let s = old(self).source();
                let start = blank_end(s, old(self).cursor());
                if start >= s.len() {
                    tok is None && final(self).cursor() == start
                } else {
                    let found = lex_after(s, start, is_last_numeric);
                    &&& final(self).cursor() == found.1
                    &&& final(self).cursor() > old(self).cursor()
                    &&& tok is Some
                    &&& tok->0@ == make_token(s, found.0, start, found.1)
                }
            }),
    {
        let ghost s = self.source();
        let ghost p0 = self.cursor();
        loop
            invariant
                self.wf(),
                self.source() == s,
                s == old(self).source(),
                p0 == old(self).cursor(),
                p0 <= self.cursor(),
                blank_end(s, self.cursor()) == blank_end(s, p0),
            ensures
                self.cursor() < s.len(),
                self.mark() == self.cursor(),
                self.cursor() == blank_end(s, p0),
            decreases s.len() - self.cursor(),
        {
            self.start = self.current;
            match self.peek(0) {
                None => {
                    return None;
                },
                Some(c) => {
                    if !is_whitespace(c) {
                        break ;
                    }
                },
            }
            self.advance();
        }
        let c = match self.advance() {
            Some(c) => c,
            None => {
                return None;
            },
        };
        let token_type = if let Some(kind) = single_char_token(c) {
            kind
        } else if c == ':' {
            self.either(':', TokenType::DoubleColon, TokenType::Colon)
        } else if c == '+' {
            self.either('=', TokenType::PlusEqual, TokenType::Plus)
        } else if c == '=' {
            self.either('=', TokenType::EqualEqual, TokenType::Equal)
        } else if c == '<' {
            if self.check('=') {
                TokenType::LessOrEqual
            } else {
                self.either('<', TokenType::SHL, TokenType::LArrow)
            }
        } else if c == '!' {
            self.either('=', TokenType::BangEqual, TokenType::Bang)
        } else if c == '>' {
            self.either('=', TokenType::MoreOrEqual, TokenType::RArrow)
        } else if c == '-' {
            self.scan_minus(is_last_numeric)
        } else if let Some((word, kind)) = keyword_rest(c) {
            self.check_keyword(word, kind)
        } else if c == 'i' || c == 'e' || c == 'f' {
            self.scan_branch(c)
        } else if c == 't' {
            self.scan_t()
        } else if is_numeric(c) {
            self.extract_numeric()
        } else if is_new_alpha(c) {
            self.extract_ident()
        } else if c == '"' {
            self.scan_string()
        } else if c == '/' {
            if self.check('/') {
                self.scan_comment();
                TokenType::Comment
            } else {
                TokenType::Slash
            }
        } else {
            TokenType::Error
        };
        Some(self.gen_token(token_type))
    }

    /// One of two kinds, by whether `c` comes next; `c` is taken if so.
    fn either(&mut self, c: char, yes: TokenType, no: TokenType) -> (kind: TokenType)
        requires
            old(self).wf(),
        ensures
            final(self).wf(),
            final(self).source() == old(self).source(),
            final(self).mark() == old(self).mark(),
            final(self).cursor() >= old(self).cursor(),
            (kind, final(self).cursor()) == either_kind(
                old(self).source(),
                old(self).cursor(),
                c,
                yes,
                no,
            ),
    {
        if self.check(c) {
            yes
        } else {
            no
        }
    }

    /// The token that starts with the `-` just read.
    fn scan_minus(&mut self, is_last_numeric: bool) -> (kind: TokenType)
        requires
            old(self).wf(),
        ensures
            final(self).wf(),
            final(self).source() == old(self).source(),
            final(self).mark() == old(self).mark(),
            final(self).cursor() >= old(self).cursor(),
            (kind, final(self).cursor()) == minus_end(
                old(self).source(),
                old(self).cursor(),
                is_last_numeric,
            ),
    {
        let next = match self.peek(0) {
            Some(c) => c,
            None => ' ',
        };
        if !is_last_numeric && is_numeric(next) {
            self.extract_numeric()
        } else if self.check('=') {
            TokenType::MinusEqual
        } else {
            self.either('>', TokenType::SmallArrow, TokenType::Minus)
        }
    }

    /// The token that starts with the `i`, `e` or `f` just read.
    fn scan_branch(&mut self, c: char) -> (kind: TokenType)
        requires
            old(self).wf(),
        ensures
            final(self).wf(),
            final(self).source() == old(self).source(),
            final(self).mark() == old(self).mark(),
            final(self).cursor() >= old(self).cursor(),
            (kind, final(self).cursor()) == branch_end(
                old(self).source(),
                c,
                old(self).cursor(),
            ),
    {
        let next = match self.peek(0) {
            Some(d) => d,
            None => ' ',
        };
        match branch_rest(c, next) {
            Some((word, kind)) => {
                if self.advance().is_some() {
                    self.check_keyword(word, kind)
                } else {
                    self.extract_ident()
                }
            },
            None => self.extract_ident(),
        }
    }

    /// The token that starts with the `t` just read.
    fn scan_t(&mut self) -> (kind: TokenType)
        requires
            old(self).wf(),
        ensures
            final(self).wf(),
            final(self).source() == old(self).source(),
            final(self).mark() == old(self).mark(),
            final(self).cursor() >= old(self).cursor(),
            (kind, final(self).cursor()) == t_end(old(self).source(), old(self).cursor()),
    {
        let first = self.peek(0);
        let second = self.peek(1);
        match (first, second) {
            (Some('r'), Some('u')) => {
                self.advance();
                self.advance();
                self.check_keyword("e", TokenType::True)
            },
            (Some('r'), Some('a')) => {
                self.advance();
                self.advance();
                self.check_keyword("it", TokenType::Trait)
            },
            _ => self.extract_ident(),
        }
    }

    /// Reads the body of a string literal, up to and with the quote that
    /// closes it.
    fn scan_string(&mut self) -> (kind: TokenType)
        requires
            old(self).wf(),
        ensures
            final(self).wf(),
            final(self).source() == old(self).source(),
            final(self).mark() == old(self).mark(),
            final(self).cursor() >= old(self).cursor(),
            (kind, final(self).cursor()) == string_end(old(self).source(), old(self).cursor()),
    {
        let ghost s = self.source();
        let ghost p0 = self.cursor();
        loop
            invariant
                self.wf(),
                self.source() == s,
                s == old(self).source(),
                p0 == old(self).cursor(),
                self.mark() == old(self).mark(),
                p0 <= self.cursor(),
                string_end(s, self.cursor()) == string_end(s, p0),
            decreases s.len() - self.cursor(),
        {
            match self.advance() {
                None => {
                    return TokenType::Error;
                },
                Some(c) => {
                    if c == '"' {
                        return TokenType::String;
                    }
                    if c == '\\' {
                        self.advance();
                    }
                },
            }
        }
    }

    /// Reads the rest of a line comment, up to and with the line feed.
    fn scan_comment(&mut self)
        requires
            old(self).wf(),
        ensures
            final(self).wf(),
            final(self).source() == old(self).source(),
            final(self).mark() == old(self).mark(),
            final(self).cursor() >= old(self).cursor(),
            final(self).cursor() == comment_end(old(self).source(), old(self).cursor()),
    {
        let ghost s = self.source();
        let ghost p0 = self.cursor();
        loop
            invariant
                self.wf(),
                self.source() == s,
                s == old(self).source(),
                p0 == old(self).cursor(),
                self.mark() == old(self).mark(),
                p0 <= self.cursor(),
                comment_end(s, self.cursor()) == comment_end(s, p0),
            decreases s.len() - self.cursor(),
        {
            match self.advance() {
                None => {
                    return ;
                },
                Some(c) => {
                    if c == '\n' {
                        return ;
                    }
                },
            }
        }
    }

    /// Reads identifier characters as long as they come.
    pub fn extract_ident(&mut self) -> (kind: TokenType)
        requires
            old(self).wf(),
        ensures
            final(self).wf(),
            final(self).source() == old(self).source(),
            final(self).mark() == old(self).mark(),
            final(self).cursor() >= old(self).cursor(),
            kind == TokenType::Ident,
            final(self).cursor() == ident_end(old(self).source(), old(self).cursor()),
    {
        let ghost s = self.source();
        let ghost p0 = self.cursor();
        loop
            invariant
                self.wf(),
                self.source() == s,
                self.mark() == old(self).mark(),
                p0 <= self.cursor(),
                ident_end(s, self.cursor()) == ident_end(s, p0),
            ensures
                self.cursor() == ident_end(s, p0),
            decreases s.len() - self.cursor(),
        {
            match self.peek(0) {
                None => {
                    break ;
                },
                Some(c) => {
                    if !is_new_alphanumeric(c) {
                        break ;
                    }
                },
            }
            self.advance();
        }
        TokenType::Ident
    }

    /// Tests for the rest of a keyword: `token_type` where all of `to_match`
    /// comes next and no identifier character follows it, an identifier
    /// otherwise.
    pub fn check_keyword(&mut self, to_match: &str, token_type: TokenType) -> (kind: TokenType)
        requires
            old(self).wf(),
        ensures
            final(self).wf(),
            final(self).source() == old(self).source(),
            final(self).mark() == old(self).mark(),
            final(self).cursor() >= old(self).cursor(),
            (kind, final(self).cursor()) == keyword_end(
                old(self).source(),
                old(self).cursor(),
                to_match@,
                token_type,
            ),
    {
        let ghost s = self.source();
        let ghost p0 = self.cursor();
        let n = to_match.unicode_len();
        let mut k: usize = 0;
        while k < n
            invariant
                self.wf(),
                self.source() == s,
                s == old(self).source(),
                p0 == old(self).cursor(),
                self.mark() == old(self).mark(),
                k <= n,
                n == to_match@.len(),
                self.cursor() == p0 + k,
                matched(s, p0, to_match@, k as int) == matched(s, p0, to_match@, 0),
            decreases n - k,
        {
            match self.peek(0) {
                None => {
                    return self.extract_ident();
                },
                Some(c) => {
                    if c != to_match.get_char(k) {
                        return self.extract_ident();
                    }
                },
            }
            self.advance();
            k = k + 1;
        }
        let next = match self.peek(0) {
            Some(c) => c,
            None => ' ',
        };
        if !is_new_alphanumeric(next) {
            token_type
        } else {
            self.extract_ident()
        }
    }

    /// Reads numeric characters as long as they come.
    fn skip_digits(&mut self)
        requires
            old(self).wf(),
        ensures
            final(self).wf(),
            final(self).source() == old(self).source(),
            final(self).mark() == old(self).mark(),
            final(self).cursor() >= old(self).cursor(),
            final(self).cursor() == digits_end(old(self).source(), old(self).cursor()),
    {
        let ghost s = self.source();
        let ghost p0 = self.cursor();
        loop
            invariant
                self.wf(),
                self.source() == s,
                self.mark() == old(self).mark(),
                p0 <= self.cursor(),
                digits_end(s, self.cursor()) == digits_end(s, p0),
            ensures
                self.cursor() == digits_end(s, p0),
            decreases s.len() - self.cursor(),
        {
            match self.peek(0) {
                None => {
                    break ;
                },
                Some(c) => {
                    if !is_numeric(c) {
                        break ;
                    }
                },
            }
            self.advance();
        }
    }

    /// Reads the rest of a numeric literal: digits, and a fraction where a
    /// point with a digit after it follows.
    pub fn extract_numeric(&mut self) -> (kind: TokenType)
        requires
            old(self).wf(),
        ensures
            final(self).wf(),
            final(self).source() == old(self).source(),
            final(self).mark() == old(self).mark(),
            final(self).cursor() >= old(self).cursor(),
            (kind, final(self).cursor()) == numeric_end(old(self).source(), old(self).cursor()),
    {
        self.skip_digits();
        let after = match self.peek(1) {
            Some(c) => c,
            None => ' ',
        };
        match self.peek(0) {
            Some(c) => {
                if c == '.' && is_numeric(after) {
                    self.advance();
                    self.skip_digits();
                    TokenType::Float
                } else {
                    TokenType::Int
                }
            },
            None => TokenType::Int,
        }
    }

    /// Takes the next character if it is `c`.
    pub fn check(&mut self, c: char) -> (r: bool)
        requires
            old(self).wf(),
        ensures
            final(self).wf(),
            final(self).source() == old(self).source(),
            final(self).mark() == old(self).mark(),
            r == (old(self).cursor() < old(self).source().len() && old(self).source()[old(
                self,
            ).cursor()] == c),
            final(self).cursor() == old(self).cursor() + if r {
                1int
            } else {
                0int
            },
    {
        match self.peek(0) {
            Some(actual) => {
                let res = actual == c;
                if res {
                    self.advance();
                }
                res
            },
            None => false,
        }
    }

    /// The character `i` places after the next one, if the text has one.
    pub fn peek(&self, i: usize) -> (r: Option<char>)
        requires
            self.wf(),
        ensures
            r == if self.cursor() + i < self.source().len() {
                Some(self.source()[self.cursor() + i])
            } else {
                None
            },
    {
        if i < self.length - self.current {
            Some(self.source_code.as_str().get_char(self.current + i))
        } else {
            None
        }
    }

    /// Takes the next character, if the text has one, and counts its line
    /// feed.
    pub fn advance(&mut self) -> (r: Option<char>)
        requires
            old(self).wf(),
        ensures
            final(self).wf(),
            final(self).source() == old(self).source(),
            final(self).mark() == old(self).mark(),
            r == if old(self).cursor() < old(self).source().len() {
                Some(old(self).source()[old(self).cursor()])
            } else {
                None
            },
            final(self).cursor() == old(self).cursor() + if r is Some {
                1int
            } else {
                0int
            },
    {
        match self.peek(0) {
            None => None,
            Some(res) => {
                self.current = self.current + 1;
                if res == '\n' {
                    self.line = self.line + 1;
                }
                Some(res)
            },
        }
    }

    /// The token of kind `token_type` that lies between the mark and the
    /// cursor.
    pub fn gen_token(&self, token_type: TokenType) -> (tok: Token)
        requires
            self.wf(),
        ensures
            tok@ == make_token(self.source(), token_type, self.mark(), self.cursor()),
    {
        let lexeme = self.source_code.as_str().substring_char(self.start, self.current);
        Token {
            token_type,
            line: self.line,
            line_offset: self.start,
            lexeme: lexeme.to_string(),
        }
    }
}

/// A string literal is of kind `String` or `Error`.
pub proof fn lemma_string_end_kind(s: Seq<char>, i: int)
    ensures
        string_end(s, i).0 == TokenType::String || string_end(s, i).0 == TokenType::Error,
    decreases s.len() - i,
{
    if 0 <= i < s.len() {
        if s[i] == '"' {
        } else if s[i] == '\\' && i + 1 < s.len() {
            lemma_string_end_kind(s, i + 2);
        } else {
            lemma_string_end_kind(s, i + 1);
        }
    }
}

/// No token that starts inside the text is of kind `EOF`.
pub proof fn lemma_lex_after_not_eof(s: Seq<char>, start: int, last_numeric: bool)
    ensures
        lex_after(s, start, last_numeric).0 != TokenType::EOF,
{
    lemma_string_end_kind(s, start + 1);
}

/// Scanning from any offset gives at least one token; the last is the only
/// one of kind `EOF`.
pub proof fn lemma_scan_from_ends_with_eof(s: Seq<char>, pos: int, last_numeric: bool)
    ensures
        scan_from(s, pos, last_numeric).len() > 0,
        scan_from(s, pos, last_numeric).last().token_type == TokenType::EOF,
        forall|i: int|
            0 <= i < scan_from(s, pos, last_numeric).len() - 1 ==> scan_from(
                s,
                pos,
                last_numeric,
            )[i].token_type != TokenType::EOF,
    decreases s.len() - pos,
{
    let start = blank_end(s, pos);
    if pos < 0 || start >= s.len() {
    } else {
        let found = lex_after(s, start, last_numeric);
        lemma_lex_after_not_eof(s, start, last_numeric);
        lemma_blank_end_bounds(s, pos);
        lemma_lex_after_bounds(s, start, last_numeric);
        lemma_scan_from_ends_with_eof(s, found.1, is_numeric_kind(found.0));
    }
}

/// The tokens from an offset on are pieces of the text after that offset,
/// in the order of the text, and no two of them overlap.
pub proof fn lemma_scan_from_in_order(s: Seq<char>, pos: int, last_numeric: bool)
    requires
        0 <= pos <= s.len(),
    ensures
        in_order(s, scan_from(s, pos, last_numeric)),
        forall|i: int|
            0 <= i < scan_from(s, pos, last_numeric).len() ==> pos <= (#[trigger] scan_from(
                s,
                pos,
                last_numeric,
            )[i]).line_offset,
    decreases s.len() - pos,
{
    let start = blank_end(s, pos);
    lemma_blank_end_bounds(s, pos);
    let all = scan_from(s, pos, last_numeric);
    if start >= s.len() {
        assert(all[0].lexeme =~= s.subrange(start, start));
    } else {
        let found = lex_after(s, start, last_numeric);
        lemma_lex_after_bounds(s, start, last_numeric);
        let rest = scan_from(s, found.1, is_numeric_kind(found.0));
        lemma_scan_from_in_order(s, found.1, is_numeric_kind(found.0));
        let first = make_token(s, found.0, start, found.1);
        assert(all =~= seq![first] + rest);
        assert(lies_in(s, first));
        assert forall|i: int| 0 <= i < all.len() implies lies_in(s, #[trigger] all[i]) && pos
            <= all[i].line_offset by {
            if i > 0 {
                assert(all[i] == rest[i - 1]);
            }
        }
        assert forall|i: int, j: int| 0 <= i < j < all.len() implies ends_before(
            #[trigger] all[i],
            #[trigger] all[j],
        ) by {
            assert(all[j] == rest[j - 1]);
            if i > 0 {
                assert(all[i] == rest[i - 1]);
            }
        }
    }
}

/// To leave tokens out keeps the others in order.
pub proof fn lemma_filter_in_order(
    s: Seq<char>,
    tokens: Seq<TokenView>,
    pred: spec_fn(TokenView) -> bool,
)
    requires
        in_order(s, tokens),
    ensures
        in_order(s, tokens.filter(pred)),
    decreases tokens.len(),
{
    reveal(Seq::filter);
    if tokens.len() > 0 {
        let front = tokens.drop_last();
        let last = tokens.last();
        assert forall|i: int, j: int| 0 <= i < j < front.len() implies ends_before(
            #[trigger] front[i],
            #[trigger] front[j],
        ) by {
            assert(front[i] == tokens[i] && front[j] == tokens[j]);
        }
        assert forall|i: int| 0 <= i < front.len() implies lies_in(s, #[trigger] front[i]) by {
            assert(front[i] == tokens[i]);
        }
        lemma_filter_in_order(s, front, pred);
        let kept = front.filter(pred);
        if pred(last) {
            let all = kept.push(last);
            assert forall|i: int| 0 <= i < all.len() implies lies_in(s, #[trigger] all[i]) by {
                if i < kept.len() {
                    assert(all[i] == kept[i]);
                }
            }
            assert forall|i: int, j: int| 0 <= i < j < all.len() implies ends_before(
                #[trigger] all[i],
                #[trigger] all[j],
            ) by {
                assert(all[i] == kept[i]);
                if j < kept.len() {
                    assert(all[j] == kept[j]);
                } else {
                    assert(kept.contains(kept[i]));
                    front.lemma_filter_contains_rev(pred, kept[i]);
                    let k = choose|k: int| 0 <= k < front.len() && front[k] == kept[i];
                    assert(front[k] == tokens[k]);
                    assert(ends_before(tokens[k], tokens[tokens.len() - 1]));
                }
            }
        }
    }
}

/// The tokens of every source text are pieces of the text, in the order of
/// the text, and no two of them overlap.
pub proof fn lemma_scan_in_order(s: Seq<char>)
    ensures
        in_order(s, scan_spec(s)),
{
    lemma_scan_from_in_order(s, 0, false);
    lemma_filter_in_order(s, scan_from(s, 0, false), kept());
}

/// The token stream of every source text ends with a token of kind `EOF`,
/// and holds no other token of that kind.
pub proof fn lemma_scan_ends_with_eof(s: Seq<char>)
    ensures
        scan_spec(s).len() > 0,
        scan_spec(s).last().token_type == TokenType::EOF,
        forall|i: int| 0 <= i < scan_spec(s).len() - 1
            ==> scan_spec(s)[i].token_type != TokenType::EOF,
{
    let all = scan_from(s, 0, false);
    lemma_scan_from_ends_with_eof(s, 0, false);
    let front = all.drop_last();
    assert(all =~= front.push(all.last()));
    lemma_filter_push(front, all.last(), kept());
    assert forall|i: int| 0 <= i < scan_spec(s).len() - 1 implies scan_spec(s)[i].token_type
        != TokenType::EOF by {
        let t = front.filter(kept())[i];
        assert(front.filter(kept()).contains(t));
        front.lemma_filter_contains_rev(kept(), t);
    }
}

} // verus!
