//! Tokens of bugu source text.
use vstd::prelude::*;
use crate::text::{dec_int, push_i64};
use vstd::std_specs::iter::IteratorSpec;

verus! {

broadcast use crate::seqs::group_concat;

/// The kind of a token, with the text of an identifier and the value of a
/// number.
#[derive(Debug)]
pub enum TokenType {
    Int,
    Return,
    If,
    Else,
    While,
    Ident(String),
    Num(i32),
    LeftParen,
    RightParen,
    LeftBrace,
    RightBrace,
    Semicolon,
    Equal,
    Ques,
    Colon,
    Or,
    And,
    Not,
    Lt,
    Gt,
    Add,
    Neg,
    Mul,
    Div,
    Mod,
    Comma,
}

/// A token of the source text.
#[derive(Debug)]
pub struct Token {
    pub ty: TokenType,
}

/// A token kind, with an identifier's text as a character sequence.
pub enum TokenTypeV {
    Int,
    Return,
    If,
    Else,
    While,
    Ident(Seq<char>),
    Num(i32),
    LeftParen,
    RightParen,
    LeftBrace,
    RightBrace,
    Semicolon,
    Equal,
    Ques,
    Colon,
    Or,
    And,
    Not,
    Lt,
    Gt,
    Add,
    Neg,
    Mul,
    Div,
    Mod,
    Comma,
}

impl View for TokenType {
    type V = TokenTypeV;

    open spec fn view(&self) -> TokenTypeV {
        match self {
            TokenType::Int => TokenTypeV::Int,
            TokenType::Return => TokenTypeV::Return,
            TokenType::If => TokenTypeV::If,
            TokenType::Else => TokenTypeV::Else,
            TokenType::While => TokenTypeV::While,
            TokenType::Ident(s) => TokenTypeV::Ident(s@),
            TokenType::Num(v) => TokenTypeV::Num(*v),
            TokenType::LeftParen => TokenTypeV::LeftParen,
            TokenType::RightParen => TokenTypeV::RightParen,
            TokenType::LeftBrace => TokenTypeV::LeftBrace,
            TokenType::RightBrace => TokenTypeV::RightBrace,
            TokenType::Semicolon => TokenTypeV::Semicolon,
            TokenType::Equal => TokenTypeV::Equal,
            TokenType::Ques => TokenTypeV::Ques,
            TokenType::Colon => TokenTypeV::Colon,
            TokenType::Or => TokenTypeV::Or,
            TokenType::And => TokenTypeV::And,
            TokenType::Not => TokenTypeV::Not,
            TokenType::Lt => TokenTypeV::Lt,
            TokenType::Gt => TokenTypeV::Gt,
            TokenType::Add => TokenTypeV::Add,
            TokenType::Neg => TokenTypeV::Neg,
            TokenType::Mul => TokenTypeV::Mul,
            TokenType::Div => TokenTypeV::Div,
            TokenType::Mod => TokenTypeV::Mod,
            TokenType::Comma => TokenTypeV::Comma,
        }
    }
}

impl View for Token {
    type V = TokenTypeV;

    open spec fn view(&self) -> TokenTypeV {
        self.ty@
    }
}

/// The kind of a token. Kept opaque so that a proof does not split on the
/// kind of every token it mentions; `reveal(token_kind)` opens it.
#[verifier::opaque]
pub open spec fn token_kind(t: Token) -> TokenTypeV {
    t.ty@
}

/// The kinds of a list of tokens.
pub open spec fn tokens_view(ts: Seq<Token>) -> Seq<TokenTypeV> {
    ts.map_values(|t: Token| token_kind(t))
}

/// The name of a token kind as it appears in messages: the variant's name,
/// with an identifier's text in quotes or a number's value in brackets.
pub open spec fn token_name(t: TokenTypeV) -> Seq<char> {
    match t {
        TokenTypeV::Int => "Int"@,
        TokenTypeV::Return => "Return"@,
        TokenTypeV::If => "If"@,
        TokenTypeV::Else => "Else"@,
        TokenTypeV::While => "While"@,
        TokenTypeV::Ident(s) => "Ident(\""@ + s + "\")"@,
        TokenTypeV::Num(v) => "Num("@ + dec_int(v as int) + ")"@,
        TokenTypeV::LeftParen => "LeftParen"@,
        TokenTypeV::RightParen => "RightParen"@,
        TokenTypeV::LeftBrace => "LeftBrace"@,
        TokenTypeV::RightBrace => "RightBrace"@,
        TokenTypeV::Semicolon => "Semicolon"@,
        TokenTypeV::Equal => "Equal"@,
        TokenTypeV::Ques => "Ques"@,
        TokenTypeV::Colon => "Colon"@,
        TokenTypeV::Or => "Or"@,
        TokenTypeV::And => "And"@,
        TokenTypeV::Not => "Not"@,
        TokenTypeV::Lt => "Lt"@,
        TokenTypeV::Gt => "Gt"@,
        TokenTypeV::Add => "Add"@,
        TokenTypeV::Neg => "Neg"@,
        TokenTypeV::Mul => "Mul"@,
        TokenTypeV::Div => "Div"@,
        TokenTypeV::Mod => "Mod"@,
        TokenTypeV::Comma => "Comma"@,
    }
}

/// Appends the name of `t` (see `token_name`) to `out`.
pub fn push_token_name(out: &mut String, t: &TokenType)
    ensures
        final(out)@ == old(out)@ + token_name(t@),
{
    match t {
        TokenType::Int => out.append("Int"),
        TokenType::Return => out.append("Return"),
        TokenType::If => out.append("If"),
        TokenType::Else => out.append("Else"),
        TokenType::While => out.append("While"),
        TokenType::Ident(s) => {
            out.append("Ident(\"");
            out.append(s.as_str());
            out.append("\")");
        },
        TokenType::Num(v) => {
            out.append("Num(");
            push_i64(out, *v as i64);
            out.append(")");
        },
        TokenType::LeftParen => out.append("LeftParen"),
        TokenType::RightParen => out.append("RightParen"),
        TokenType::LeftBrace => out.append("LeftBrace"),
        TokenType::RightBrace => out.append("RightBrace"),
        TokenType::Semicolon => out.append("Semicolon"),
        TokenType::Equal => out.append("Equal"),
        TokenType::Ques => out.append("Ques"),
        TokenType::Colon => out.append("Colon"),
        TokenType::Or => out.append("Or"),
        TokenType::And => out.append("And"),
        TokenType::Not => out.append("Not"),
        TokenType::Lt => out.append("Lt"),
        TokenType::Gt => out.append("Gt"),
        TokenType::Add => out.append("Add"),
        TokenType::Neg => out.append("Neg"),
        TokenType::Mul => out.append("Mul"),
        TokenType::Div => out.append("Div"),
        TokenType::Mod => out.append("Mod"),
        TokenType::Comma => out.append("Comma"),
    }
}

impl TokenType {
    /// Whether two token kinds are the same, identifier text and number
    /// value included.
    pub fn same(&self, other: &TokenType) -> (r: bool)
        ensures
            r == (self@ == other@),
    {
        match self {
            TokenType::Ident(a) => match other {
                TokenType::Ident(b) => *a == *b,
                _ => false,
            },
            TokenType::Num(a) => match other {
                TokenType::Num(b) => *a == *b,
                _ => false,
            },
            TokenType::Int => matches!(other, TokenType::Int),
            TokenType::Return => matches!(other, TokenType::Return),
            TokenType::If => matches!(other, TokenType::If),
            TokenType::Else => matches!(other, TokenType::Else),
            TokenType::LeftParen => matches!(other, TokenType::LeftParen),
            TokenType::RightParen => matches!(other, TokenType::RightParen),
            TokenType::LeftBrace => matches!(other, TokenType::LeftBrace),
            TokenType::RightBrace => matches!(other, TokenType::RightBrace),
            TokenType::Semicolon => matches!(other, TokenType::Semicolon),
            TokenType::Equal => matches!(other, TokenType::Equal),
            TokenType::Ques => matches!(other, TokenType::Ques),
            TokenType::Colon => matches!(other, TokenType::Colon),
            TokenType::Or => matches!(other, TokenType::Or),
            TokenType::And => matches!(other, TokenType::And),
            TokenType::Not => matches!(other, TokenType::Not),
            TokenType::Lt => matches!(other, TokenType::Lt),
            TokenType::Gt => matches!(other, TokenType::Gt),
            TokenType::Add => matches!(other, TokenType::Add),
            TokenType::Neg => matches!(other, TokenType::Neg),
            TokenType::Mul => matches!(other, TokenType::Mul),
            TokenType::Div => matches!(other, TokenType::Div),
            TokenType::Mod => matches!(other, TokenType::Mod),
            TokenType::While => matches!(other, TokenType::While),
            TokenType::Comma => matches!(other, TokenType::Comma),
        }
    }
}

impl TokenType {
    /// A copy of this token kind.
    pub fn copy(&self) -> (r: TokenType)
        ensures
            r@ == self@,
    {
        match self {
            TokenType::Int => TokenType::Int,
            TokenType::Return => TokenType::Return,
            TokenType::If => TokenType::If,
            TokenType::Else => TokenType::Else,
            TokenType::While => TokenType::While,
            TokenType::Ident(s) => TokenType::Ident(s.clone()),
            TokenType::Num(v) => TokenType::Num(*v),
            TokenType::LeftParen => TokenType::LeftParen,
            TokenType::RightParen => TokenType::RightParen,
            TokenType::LeftBrace => TokenType::LeftBrace,
            TokenType::RightBrace => TokenType::RightBrace,
            TokenType::Semicolon => TokenType::Semicolon,
            TokenType::Equal => TokenType::Equal,
            TokenType::Ques => TokenType::Ques,
            TokenType::Colon => TokenType::Colon,
            TokenType::Or => TokenType::Or,
            TokenType::And => TokenType::And,
            TokenType::Not => TokenType::Not,
            TokenType::Lt => TokenType::Lt,
            TokenType::Gt => TokenType::Gt,
            TokenType::Add => TokenType::Add,
            TokenType::Neg => TokenType::Neg,
            TokenType::Mul => TokenType::Mul,
            TokenType::Div => TokenType::Div,
            TokenType::Mod => TokenType::Mod,
            TokenType::Comma => TokenType::Comma,
        }
    }
}

/// A copy of a token list.
pub fn copy_tokens(v: &Vec<Token>) -> (r: Vec<Token>)
    ensures
        tokens_view(r@) == tokens_view(v@),
{
    proof {
        reveal(token_kind);
    }
    let mut r: Vec<Token> = Vec::new();
    let mut i: usize = 0;
    while i < v.len()
        invariant
            i <= v@.len(),
            r@.len() == i,
            forall|j: int| 0 <= j < i ==> #[trigger] r@[j].ty@ == v@[j].ty@,
        decreases v@.len() - i,
    {
        r.push(Token { ty: v[i].ty.copy() });
        i = i + 1;
    }
    assert(tokens_view(r@) =~= tokens_view(v@));
    r
}

/// The characters of `s`, in order.
pub fn chars_of(s: &str) -> (r: Vec<char>)
    ensures
        r@ == s@,
{
    broadcast use vstd::string::axiom_spec_iter, vstd::string::next_postcondition;

    let mut it = s.chars();
    let mut r: Vec<char> = Vec::new();
    loop
        invariant
            r@ + it.remaining() == s@,
            it.decrease() is Some,
        ensures
            r@ == s@,
        decreases it.decrease()->0,
    {
        match it.next() {
            Some(c) => {
                r.push(c);
            },
            None => {
                assert(it.remaining().len() == 0);
                assert(r@ + it.remaining() =~= r@);
                break;
            },
        }
    }
    r
}

pub open spec fn is_space(c: char) -> bool {
    c == ' ' || c == '\t' || c == '\n' || c == '\r'
}

pub open spec fn is_digit(c: char) -> bool {
    '0' <= c <= '9'
}

pub open spec fn is_ident_start(c: char) -> bool {
    ('a' <= c <= 'z') || ('A' <= c <= 'Z') || c == '_'
}

pub open spec fn is_ident_char(c: char) -> bool {
    is_ident_start(c) || is_digit(c)
}

/// The token that a punctuation character stands for.
pub open spec fn punct(c: char) -> Option<TokenTypeV> {
    if c == '(' {
        Some(TokenTypeV::LeftParen)
    } else if c == ')' {
        Some(TokenTypeV::RightParen)
    } else if c == '{' {
        Some(TokenTypeV::LeftBrace)
    } else if c == '}' {
        Some(TokenTypeV::RightBrace)
    } else if c == ';' {
        Some(TokenTypeV::Semicolon)
    } else if c == '=' {
        Some(TokenTypeV::Equal)
    } else if c == '?' {
        Some(TokenTypeV::Ques)
    } else if c == ':' {
        Some(TokenTypeV::Colon)
    } else if c == '|' {
        Some(TokenTypeV::Or)
    } else if c == '&' {
        Some(TokenTypeV::And)
    } else if c == '!' {
        Some(TokenTypeV::Not)
    } else if c == '<' {
        Some(TokenTypeV::Lt)
    } else if c == '>' {
        Some(TokenTypeV::Gt)
    } else if c == '+' {
        Some(TokenTypeV::Add)
    } else if c == '-' {
        Some(TokenTypeV::Neg)
    } else if c == '*' {
        Some(TokenTypeV::Mul)
    } else if c == '/' {
        Some(TokenTypeV::Div)
    } else if c == '%' {
        Some(TokenTypeV::Mod)
    } else if c == ',' {
        Some(TokenTypeV::Comma)
    } else {
        None
    }
}

/// The end of the run of characters from `i` that satisfy `digit` (digits)
/// or else `is_ident_char`.
pub open spec fn run_end(s: Seq<char>, i: int, digit: bool) -> int
    decreases s.len() - i,
{
    if 0 <= i < s.len() && (if digit { is_digit(s[i]) } else { is_ident_char(s[i]) }) {
        run_end(s, i + 1, digit)
    } else {
        i
    }
}

/// The value of a string of decimal digits.
pub open spec fn digits_value(d: Seq<char>) -> int
    decreases d.len(),
{
    if d.len() == 0 {
        0
    } else {
        digits_value(d.drop_last()) * 10 + (d.last() as int - '0' as int)
    }
}

/// A keyword, or else an identifier.
pub open spec fn keyword(w: Seq<char>) -> TokenTypeV {
    if w == "int"@ {
        TokenTypeV::Int
    } else if w == "return"@ {
        TokenTypeV::Return
    } else if w == "if"@ {
        TokenTypeV::If
    } else if w == "else"@ {
        TokenTypeV::Else
    } else if w == "while"@ {
        TokenTypeV::While
    } else {
        TokenTypeV::Ident(w)
    }
}

/// The tokens of `s` from `i` on: white space is skipped; a run of digits is
/// a number, which must fit an `i32`; a run of letters, digits and `_` that
/// starts with a letter or `_` is a keyword or an identifier; each other
/// character is a punctuation token. `None` at a character that is none of
/// these, or a number out of range.
pub open spec fn lex_from(s: Seq<char>, i: int) -> Option<Seq<TokenTypeV>>
    decreases s.len() - i,
{
    if i < 0 || i >= s.len() {
        Some(Seq::empty())
    } else if is_space(s[i]) {
        lex_from(s, i + 1)
    } else if is_digit(s[i]) || is_ident_start(s[i]) {
        let digit = is_digit(s[i]);
        let j = run_end(s, i, digit);
        let w = s.subrange(i, j);
        if i < j <= s.len() && (!digit || digits_value(w) <= i32::MAX) {
            let tk = if digit { TokenTypeV::Num(digits_value(w) as i32) } else { keyword(w) };
            match lex_from(s, j) {
                Some(rest) => Some(seq![tk] + rest),
                None => None,
            }
        } else {
            None
        }
    } else {
        match punct(s[i]) {
            Some(tk) => match lex_from(s, i + 1) {
                Some(rest) => Some(seq![tk] + rest),
                None => None,
            },
            None => None,
        }
    }
}

/// The tokens of a source text.
pub open spec fn lex(s: Seq<char>) -> Option<Seq<TokenTypeV>> {
    lex_from(s, 0)
}

fn is_space_c(c: char) -> (b: bool)
    ensures
        b == is_space(c),
{
    c == ' ' || c == '\t' || c == '\n' || c == '\r'
}

fn is_digit_c(c: char) -> (b: bool)
    ensures
        b == is_digit(c),
{
    '0' <= c && c <= '9'
}

fn is_ident_start_c(c: char) -> (b: bool)
    ensures
        b == is_ident_start(c),
{
    ('a' <= c && c <= 'z') || ('A' <= c && c <= 'Z') || c == '_'
}

/// Whether `c` continues a run of digits (`digit`) or of identifier characters.
fn in_run(c: char, digit: bool) -> (b: bool)
    ensures
        b == (if digit { is_digit(c) } else { is_ident_char(c) }),
{
    if digit {
        is_digit_c(c)
    } else {
        is_ident_start_c(c) || is_digit_c(c)
    }
}

fn punct_c(c: char) -> (r: Option<TokenType>)
    ensures
        match punct(c) {
            Some(t) => r matches Some(x) && x@ == t,
            None => r is None,
        },
{
    if c == '(' {
        Some(TokenType::LeftParen)
    } else if c == ')' {
        Some(TokenType::RightParen)
    } else if c == '{' {
        Some(TokenType::LeftBrace)
    } else if c == '}' {
        Some(TokenType::RightBrace)
    } else if c == ';' {
        Some(TokenType::Semicolon)
    } else if c == '=' {
        Some(TokenType::Equal)
    } else if c == '?' {
        Some(TokenType::Ques)
    } else if c == ':' {
        Some(TokenType::Colon)
    } else if c == '|' {
        Some(TokenType::Or)
    } else if c == '&' {
        Some(TokenType::And)
    } else if c == '!' {
        Some(TokenType::Not)
    } else if c == '<' {
        Some(TokenType::Lt)
    } else if c == '>' {
        Some(TokenType::Gt)
    } else if c == '+' {
        Some(TokenType::Add)
    } else if c == '-' {
        Some(TokenType::Neg)
    } else if c == '*' {
        Some(TokenType::Mul)
    } else if c == '/' {
        Some(TokenType::Div)
    } else if c == '%' {
        Some(TokenType::Mod)
    } else if c == ',' {
        Some(TokenType::Comma)
    } else {
        None
    }
}

/// Every character of the run from `i` belongs to it.
proof fn lemma_run(s: Seq<char>, i: int, digit: bool)
    requires
        0 <= i <= s.len(),
    ensures
        i <= run_end(s, i, digit) <= s.len(),
        forall|k: int|
            i <= k < run_end(s, i, digit) ==> (if digit { is_digit(#[trigger] s[k]) } else { is_ident_char(s[k]) }),
    decreases s.len() - i,
{
    if i < s.len() && (if digit { is_digit(s[i]) } else { is_ident_char(s[i]) }) {
        lemma_run(s, i + 1, digit);
    }
}

/// The end of the run that starts at `i`, whose first character is in it.
fn run_end_c(cs: &Vec<char>, i: usize, digit: bool) -> (j: usize)
    requires
        i < cs@.len(),
        if digit { is_digit(cs@[i as int]) } else { is_ident_char(cs@[i as int]) },
    ensures
        j == run_end(cs@, i as int, digit),
        i < j <= cs@.len(),
{
    let n = cs.len();
    let mut j = i + 1;
    while j < n && in_run(cs[j], digit)
        invariant
            i < j <= cs@.len(),
            n == cs@.len(),
            run_end(cs@, i as int, digit) == run_end(cs@, j as int, digit),
        decreases cs@.len() - j,
    {
        j = j + 1;
    }
    j
}

/// A value of a digit string is at least that of each of its prefixes.
proof fn lemma_digits_mono(d: Seq<char>, k: int)
    requires
        0 <= k <= d.len(),
        forall|m: int| 0 <= m < d.len() ==> is_digit(#[trigger] d[m]),
    ensures
        0 <= digits_value(d.subrange(0, k)) <= digits_value(d),
    decreases d.len(),
{
    if k == d.len() {
        assert(d.subrange(0, k) =~= d);
        if d.len() > 0 {
            lemma_digits_mono(d.drop_last(), k - 1);
        }
    } else {
        lemma_digits_mono(d.drop_last(), k);
        assert(d.drop_last().subrange(0, k) =~= d.subrange(0, k));
        lemma_digits_mono(d.drop_last(), d.len() - 1);
        assert(d.drop_last().subrange(0, d.len() - 1) =~= d.drop_last());
    }
}

/// The value of the digits from `i` to `j`, if it fits an `i32`.
fn number_c(cs: &Vec<char>, i: usize, j: usize) -> (r: Option<i32>)
    requires
        i < j <= cs@.len(),
        forall|k: int| i <= k < j ==> is_digit(#[trigger] cs@[k]),
    ensures
        digits_value(cs@.subrange(i as int, j as int)) <= i32::MAX ==> r == Some(
            digits_value(cs@.subrange(i as int, j as int)) as i32,
        ),
        digits_value(cs@.subrange(i as int, j as int)) > i32::MAX ==> r is None,
{
    let ghost w = cs@.subrange(i as int, j as int);
    let mut v: i64 = 0;
    let mut k = i;
    assert(w.subrange(0, 0) =~= Seq::<char>::empty());
    while k < j
        invariant
            i <= k <= j,
            j <= cs@.len(),
            w == cs@.subrange(i as int, j as int),
            forall|m: int| i <= m < j ==> is_digit(#[trigger] cs@[m]),
            v == digits_value(w.subrange(0, k - i)),
            0 <= v <= i32::MAX,
        decreases j - k,
    {
        let d = cs[k];
        assert(w.subrange(0, k - i + 1).drop_last() =~= w.subrange(0, k - i));
        assert(w.subrange(0, k - i + 1).last() == d);
        v = v * 10 + (d as i64 - '0' as i64);
        k = k + 1;
        if v > 0x7fff_ffff {
            proof {
                lemma_digits_mono(w, k - i);
            }
            return None;
        }
    }
    assert(w.subrange(0, k - i) =~= w);
    Some(v as i32)
}

/// The characters from `i` to `j`, as a string.
fn word_c(cs: &Vec<char>, i: usize, j: usize) -> (w: String)
    requires
        i <= j <= cs@.len(),
    ensures
        w@ == cs@.subrange(i as int, j as int),
{
    let mut w = String::new();
    let mut k = i;
    while k < j
        invariant
            i <= k <= j,
            j <= cs@.len(),
            w@ == cs@.subrange(i as int, k as int),
        decreases j - k,
    {
        crate::text::push_char(&mut w, cs[k]);
        k = k + 1;
        assert(w@ =~= cs@.subrange(i as int, k as int));
    }
    w
}

/// The keyword that `w` spells, or else the identifier `w`.
fn keyword_c(w: String) -> (t: TokenType)
    ensures
        t@ == keyword(w@),
{
    if w == String::from_str("int") {
        TokenType::Int
    } else if w == String::from_str("return") {
        TokenType::Return
    } else if w == String::from_str("if") {
        TokenType::If
    } else if w == String::from_str("else") {
        TokenType::Else
    } else if w == String::from_str("while") {
        TokenType::While
    } else {
        TokenType::Ident(w)
    }
}

/// `front` before the tokens of `r`.
pub open spec fn prepend_tokens(front: Seq<TokenTypeV>, r: Option<Seq<TokenTypeV>>) -> Option<Seq<TokenTypeV>> {
    match r {
        Some(x) => Some(front + x),
        None => None,
    }
}

proof fn lemma_prepend_tokens(a: Seq<TokenTypeV>, b: TokenTypeV, r: Option<Seq<TokenTypeV>>)
    ensures
        prepend_tokens(a, prepend_tokens(seq![b], r)) == prepend_tokens(a.push(b), r),
{
    if let Some(x) = r {
        assert(a + (seq![b] + x) =~= a.push(b) + x);
    }
}

/// The tokens of a source text (see `lex`); `None` where it holds a character
/// that starts no token, or a number that does not fit an `i32`.
pub fn tokenize(path: String) -> (r: Option<Vec<Token>>)
    ensures
        match lex(path@) {
            Some(ts) => r matches Some(v) && tokens_view(v@) == ts,
            None => r is None,
        },
{
    let cs = chars_of(path.as_str());
    let ghost s = cs@;
    let mut out: Vec<Token> = Vec::new();
    let mut i: usize = 0;
    assert(tokens_view(out@) =~= Seq::<TokenTypeV>::empty());
    assert(lex(s) == prepend_tokens(Seq::empty(), lex_from(s, 0))) by {
        if let Some(x) = lex_from(s, 0) {
            assert(Seq::<TokenTypeV>::empty() + x =~= x);
        }
    }
    while i < cs.len()
        invariant
            i <= cs@.len(),
            s == cs@,
            s == path@,
            lex(s) == prepend_tokens(tokens_view(out@), lex_from(s, i as int)),
        decreases cs@.len() - i,
    {
        let c = cs[i];
        let ghost before = tokens_view(out@);
        if is_space_c(c) {
            i = i + 1;
        } else if is_digit_c(c) || is_ident_start_c(c) {
            let digit = is_digit_c(c);
            let j = run_end_c(&cs, i, digit);
            proof {
                lemma_run(s, i as int, digit);
            }
            let ty = if digit {
                match number_c(&cs, i, j) {
                    Some(v) => TokenType::Num(v),
                    None => {
                        return None;
                    },
                }
            } else {
                keyword_c(word_c(&cs, i, j))
            };
            let ghost tv = ty@;
            out.push(Token { ty });
            proof {
                reveal(token_kind);
                assert(tokens_view(out@) =~= before.push(tv));
                lemma_prepend_tokens(before, tv, lex_from(s, j as int));
            }
            i = j;
        } else {
            match punct_c(c) {
                Some(ty) => {
                    let ghost tv = ty@;
                    out.push(Token { ty });
                    proof {
                        reveal(token_kind);
                        assert(tokens_view(out@) =~= before.push(tv));
                        lemma_prepend_tokens(before, tv, lex_from(s, i + 1));
                    }
                    i = i + 1;
                },
                None => {
                    return None;
                },
            }
        }
    }
    assert(tokens_view(out@) + Seq::<TokenTypeV>::empty() =~= tokens_view(out@));
    Some(out)
}

/// The tokens of two lists joined, or `None` if either is.
pub open spec fn join_tokens(x: Option<Seq<TokenTypeV>>, y: Option<Seq<TokenTypeV>>) -> Option<Seq<TokenTypeV>> {
    match (x, y) {
        (Some(a), Some(b)) => Some(a + b),
        _ => None,
    }
}

/// A run in `a + ' ' + b` that starts in `a` ends where it ends in `a`.
proof fn lemma_run_end_prefix(a: Seq<char>, b: Seq<char>, i: int, digit: bool)
    requires
        0 <= i <= a.len(),
    ensures
        run_end(a + seq![' '] + b, i, digit) == run_end(a, i, digit),
    decreases a.len() - i,
{
    let s = a + seq![' '] + b;
    assert(s[a.len() as int] == ' ');
    if i < a.len() {
        assert(s[i] == a[i]);
        lemma_run_end_prefix(a, b, i + 1, digit);
    }
}

/// A run in `p + b` that starts in `b` is the run in `b`, moved by `p.len()`.
proof fn lemma_run_end_shift(p: Seq<char>, b: Seq<char>, k: int, digit: bool)
    requires
        0 <= k <= b.len(),
    ensures
        run_end(p + b, p.len() + k, digit) == p.len() + run_end(b, k, digit),
    decreases b.len() - k,
{
    if k < b.len() {
        assert((p + b)[p.len() + k] == b[k]);
        lemma_run_end_shift(p, b, k + 1, digit);
    }
}

/// Lexing `p + b` from inside `b` is lexing `b`.
proof fn lemma_lex_shift(p: Seq<char>, b: Seq<char>, k: int)
    requires
        0 <= k <= b.len(),
    ensures
        lex_from(p + b, p.len() + k) == lex_from(b, k),
    decreases b.len() - k,
{
    let s = p + b;
    let i = p.len() + k;
    if k < b.len() {
        assert(s[i] == b[k]);
        let c = b[k];
        if is_space(c) {
            lemma_lex_shift(p, b, k + 1);
        } else if is_digit(c) || is_ident_start(c) {
            let digit = is_digit(c);
            lemma_run_end_shift(p, b, k, digit);
            lemma_run(b, k, digit);
            let jb = run_end(b, k, digit);
            assert(s.subrange(i, p.len() + jb) =~= b.subrange(k, jb));
            if k < jb {
                lemma_lex_shift(p, b, jb);
            }
        } else {
            lemma_lex_shift(p, b, k + 1);
        }
    }
}

/// Lexing `a + ' ' + b` from inside `a`: the tokens of `a` from there, then
/// those from the space on.
proof fn lemma_lex_prefix(a: Seq<char>, b: Seq<char>, i: int)
    requires
        0 <= i <= a.len(),
    ensures
        lex_from(a + seq![' '] + b, i) == join_tokens(lex_from(a, i), lex_from(a + seq![' '] + b, a.len() as int)),
    decreases a.len() - i,
{
    let s = a + seq![' '] + b;
    if i == a.len() {
        if let Some(y) = lex_from(s, i) {
            assert(Seq::<TokenTypeV>::empty() + y =~= y);
        }
    } else {
        assert(s[i] == a[i]);
        let c = a[i];
        if is_space(c) {
            lemma_lex_prefix(a, b, i + 1);
        } else if is_digit(c) || is_ident_start(c) {
            let digit = is_digit(c);
            lemma_run_end_prefix(a, b, i, digit);
            lemma_run(a, i, digit);
            let j = run_end(a, i, digit);
            assert(s.subrange(i, j) =~= a.subrange(i, j));
            if i < j {
                lemma_lex_prefix(a, b, j);
                let tail = lex_from(s, a.len() as int);
                if let (Some(x), Some(y)) = (lex_from(a, j), tail) {
                    let w = a.subrange(i, j);
                    let tk = if digit { TokenTypeV::Num(digits_value(w) as i32) } else { keyword(w) };
                    assert(seq![tk] + (x + y) =~= (seq![tk] + x) + y);
                }
            }
        } else {
            lemma_lex_prefix(a, b, i + 1);
            let tail = lex_from(s, a.len() as int);
            if let (Some(x), Some(y)) = (lex_from(a, i + 1), tail) {
                if let Some(tk) = punct(c) {
                    assert(seq![tk] + (x + y) =~= (seq![tk] + x) + y);
                }
            }
        }
    }
}

/// White space separates tokens: the tokens of two texts with a space
/// between them are the tokens of the first followed by those of the second.
pub proof fn law_space_separates(a: Seq<char>, b: Seq<char>)
    ensures
        lex(a + seq![' '] + b) == join_tokens(lex(a), lex(b)),
{
    let s = a + seq![' '] + b;
    lemma_lex_prefix(a, b, 0);
    assert(s[a.len() as int] == ' ');
    assert(s == (a + seq![' ']) + b);
    lemma_lex_shift(a + seq![' '], b, 0);
}

} // verus!
