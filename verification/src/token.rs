//! Tokens, and the tokenizer that reads them from a query string.

use vstd::prelude::*;
use vstd::string::StrSliceExecFns;
use crate::span::Span;
use crate::text::{chars_of, is_ident_start, lemma_run_end, run_end, scan_run, CharClass};

verus! {

/// A name, as it may stand before the parentheses of a call.
#[derive(Debug, PartialEq, Eq)]
pub struct Ident {
    pub name: String,
    pub span: Span,
}

/// The name of a reference.
#[derive(Debug, PartialEq, Eq)]
pub struct Ref {
    pub value: String,
    pub span: Span,
}

/// One lexical element of a query string.
#[derive(Debug, PartialEq, Eq)]
pub enum Token {
    Identifier(Ident),
    LParen(Span),
    RParen(Span),
    LiteralRef(Ref),
}

/// A name as a contract sees it.
pub struct IdentView {
    pub name: Seq<char>,
    pub span: Span,
}

/// A reference as a contract sees it.
pub struct RefView {
    pub value: Seq<char>,
    pub span: Span,
}

/// A token as a contract sees it.
pub enum TokenView {
    Identifier(IdentView),
    LParen(Span),
    RParen(Span),
    LiteralRef(RefView),
}

impl View for Ident {
    type V = IdentView;

    open spec fn view(&self) -> IdentView {
        IdentView { name: self.name@, span: self.span }
    }
}

impl View for Ref {
    type V = RefView;

    open spec fn view(&self) -> RefView {
        RefView { value: self.value@, span: self.span }
    }
}

impl View for Token {
    type V = TokenView;

    open spec fn view(&self) -> TokenView {
        match *self {
            Token::Identifier(ident) => TokenView::Identifier(ident@),
            Token::LParen(span) => TokenView::LParen(span),
            Token::RParen(span) => TokenView::RParen(span),
            Token::LiteralRef(r) => TokenView::LiteralRef(r@),
        }
    }
}

/// What kind of token a token is.
#[derive(Clone, Copy, Debug, PartialEq, Eq, Structural)]
pub enum TokenKind {
    Identifier,
    LParen,
    RParen,
    LiteralRef,
}

impl TokenView {
    pub open spec fn kind(self) -> TokenKind {
        match self {
            TokenView::Identifier(_) => TokenKind::Identifier,
            TokenView::LParen(_) => TokenKind::LParen,
            TokenView::RParen(_) => TokenKind::RParen,
            TokenView::LiteralRef(_) => TokenKind::LiteralRef,
        }
    }

    /// The part of the source that the token was read from.
    pub open spec fn span(self) -> Span {
        match self {
            TokenView::Identifier(ident) => ident.span,
            TokenView::LParen(span) => span,
            TokenView::RParen(span) => span,
            TokenView::LiteralRef(r) => r.span,
        }
    }
}

/// The views of a sequence of tokens.
pub open spec fn token_views(tokens: Seq<Token>) -> Seq<TokenView> {
    Seq::new(tokens.len(), |i: int| tokens[i]@)
}

/// The rules by which a token is read, in the order in which they are tried.
#[derive(Clone, Copy, Debug, PartialEq, Eq, Structural)]
pub struct RuleSet {
    /// A single `(`.
    pub l_paren: bool,
    /// A single `)`.
    pub r_paren: bool,
    /// One or more printable characters between double quotes.
    pub quoted_literal: bool,
    /// A letter or underscore and the letters, digits and underscores after
    /// it, unless a `/` or a `-` follows them.
    pub identifier: bool,
    /// One or more letters, digits, `/`, `-` and `_`.
    pub path_literal: bool,
}

impl RuleSet {
    pub open spec fn spec_all() -> RuleSet {
        RuleSet {
            l_paren: true,
            r_paren: true,
            quoted_literal: true,
            identifier: true,
            path_literal: true,
        }
    }

    pub open spec fn spec_quoted_only() -> RuleSet {
        RuleSet {
            l_paren: false,
            r_paren: false,
            quoted_literal: true,
            identifier: false,
            path_literal: false,
        }
    }

    /// Every rule: what is tried where a token has to begin.
    #[verifier::when_used_as_spec(spec_all)]
    pub fn all() -> (rules: RuleSet)
        ensures
            rules == RuleSet::spec_all(),
    {
        RuleSet {
            l_paren: true,
            r_paren: true,
            quoted_literal: true,
            identifier: true,
            path_literal: true,
        }
    }

    /// The rule of the quoted literal alone: what is tried after an opening
    /// quote.
    #[verifier::when_used_as_spec(spec_quoted_only)]
    pub fn quoted_only() -> (rules: RuleSet)
        ensures
            rules == RuleSet::spec_quoted_only(),
    {
        RuleSet {
            l_paren: false,
            r_paren: false,
            quoted_literal: true,
            identifier: false,
            path_literal: false,
        }
    }
}

/// Why a query string is not a sequence of tokens.
#[derive(Clone, Copy, Debug, PartialEq, Eq)]
pub struct TokenizeError {
    /// The position at which no rule applies: one character wide, or empty
    /// and at the end of the input.
    pub span: Span,
    /// The character at that position; `None` where the input ends inside a
    /// quoted literal.
    pub found: Option<char>,
    /// The rules that were tried there.
    pub tried: RuleSet,
}

/// The error for position `at` of `text`, where the rules `tried` all failed.
pub open spec fn error_at(text: Seq<char>, at: int, tried: RuleSet) -> TokenizeError {
    if at < text.len() {
        TokenizeError {
            span: Span { start: at as usize, end: (at + 1) as usize },
            found: Some(text[at]),
            tried,
        }
    } else {
        TokenizeError { span: Span { start: at as usize, end: at as usize }, found: None, tried }
    }
}

/// The token that begins at position `at`, which holds a character that is
/// no inline space. The rules are tried in their order, and the first that
/// applies decides.
pub open spec fn token_at(text: Seq<char>, at: int) -> Result<TokenView, TokenizeError> {
    let c = text[at];
    let here = Span { start: at as usize, end: (at + 1) as usize };
    let quoted_end = run_end(text, at + 1, CharClass::Quoted);
    let word_end = run_end(text, at + 1, CharClass::Word);
    let path_end = run_end(text, at, CharClass::Path);
    if c == '(' {
        Ok(TokenView::LParen(here))
    } else if c == ')' {
        Ok(TokenView::RParen(here))
    } else if c == '"' {
        if at + 1 < quoted_end < text.len() && text[quoted_end] == '"' {
            Ok(
                TokenView::LiteralRef(
                    RefView {
                        value: text.subrange(at + 1, quoted_end),
                        span: Span { start: at as usize, end: (quoted_end + 1) as usize },
                    },
                ),
            )
        } else {
            Err(error_at(text, quoted_end, RuleSet::quoted_only()))
        }
    } else if is_ident_start(c) && !(word_end < text.len() && (text[word_end] == '/'
        || text[word_end] == '-')) {
        Ok(
            TokenView::Identifier(
                IdentView {
                    name: text.subrange(at, word_end),
                    span: Span { start: at as usize, end: word_end as usize },
                },
            ),
        )
    } else if CharClass::Path.contains(c) {
        Ok(
            TokenView::LiteralRef(
                RefView {
                    value: text.subrange(at, path_end),
                    span: Span { start: at as usize, end: path_end as usize },
                },
            ),
        )
    } else {
        Err(error_at(text, at, RuleSet::all()))
    }
}

/// A token covers at least one character and ends within the text.
pub proof fn lemma_token_at(text: Seq<char>, at: int)
    requires
        0 <= at < text.len() <= usize::MAX,
    ensures
        token_at(text, at) matches Ok(token) ==> token.span().start == at && at
            < token.span().end <= text.len(),
        token_at(text, at) matches Err(e) ==> at <= e.span.start <= e.span.end <= text.len(),
{
    lemma_run_end(text, at + 1, CharClass::Quoted);
    lemma_run_end(text, at + 1, CharClass::Word);
    lemma_run_end(text, at, CharClass::Path);
}

/// The tokens of `text` from position `from` on: inline spaces are skipped,
/// then a token is read, and so on to the end of the text. The first
/// position at which no token can be read gives the error.
pub open spec fn tokens_from(text: Seq<char>, from: int) -> Result<Seq<TokenView>, TokenizeError>
    decreases text.len() - from,
    when 0 <= from <= text.len() <= usize::MAX
{
    let at = run_end(text, from, CharClass::InlineSpace);
    if at >= text.len() {
        Ok(Seq::empty())
    } else {
        match token_at(text, at) {
            Err(e) => Err(e),
            Ok(token) => {
                proof {
                    lemma_run_end(text, from, CharClass::InlineSpace);
                    lemma_token_at(text, at);
                }
                match tokens_from(text, token.span().end as int) {
                    Err(e) => Err(e),
                    Ok(rest) => Ok(seq![token] + rest),
                }
            },
        }
    }
}

/// The token `token` is what `text` holds under the token's span: a
/// parenthesis, a name, an unquoted literal, or a literal with the quotes
/// around it.
pub open spec fn token_reads(text: Seq<char>, token: TokenView) -> bool {
    let start = token.span().start as int;
    let end = token.span().end as int;
    &&& 0 <= start < end <= text.len()
    &&& match token {
        TokenView::LParen(_) => end == start + 1 && text[start] == '(',
        TokenView::RParen(_) => end == start + 1 && text[start] == ')',
        TokenView::Identifier(ident) => ident.name == text.subrange(start, end),
        TokenView::LiteralRef(r) => {
            ||| r.value == text.subrange(start, end)
            ||| {
                &&& text[start] == '"'
                &&& text[end - 1] == '"'
                &&& r.value == text.subrange(start + 1, end - 1)
            }
        },
    }
}

/// The tokens stand in `text` between `lo` and `hi`, one after another:
/// each reads what is under its span, and none begins before the one
/// before it has ended.
pub open spec fn tokens_read(tokens: Seq<TokenView>, text: Seq<char>, lo: int, hi: int) -> bool {
    &&& forall|i: int|
        0 <= i < tokens.len() ==> token_reads(text, #[trigger] tokens[i]) && lo
            <= tokens[i].span().start && tokens[i].span().end <= hi
    &&& forall|i: int, j: int|
        0 <= i < j < tokens.len() ==> (#[trigger] tokens[i]).span().end
            <= (#[trigger] tokens[j]).span().start
}

/// The tokens of a text stand in the text in their order: the spans are
/// not empty, do not overlap, ascend, and each token holds what the text
/// holds under its span.
pub proof fn lemma_tokens_read(text: Seq<char>, from: int)
    requires
        0 <= from <= text.len() <= usize::MAX,
        tokens_from(text, from) is Ok,
    ensures
        tokens_read(tokens_from(text, from)->Ok_0, text, from, text.len() as int),
    decreases text.len() - from,
{
    let at = run_end(text, from, CharClass::InlineSpace);
    lemma_run_end(text, from, CharClass::InlineSpace);
    if at < text.len() {
        lemma_token_at(text, at);
        lemma_run_end(text, at + 1, CharClass::Quoted);
        lemma_run_end(text, at + 1, CharClass::Word);
        lemma_run_end(text, at, CharClass::Path);
        let token = token_at(text, at)->Ok_0;
        let next = token.span().end as int;
        lemma_tokens_read(text, next);
    }
}

/// The tokens of a query string.
pub open spec fn tokens_of(text: Seq<char>) -> Result<Seq<TokenView>, TokenizeError> {
    tokens_from(text, 0)
}

/// What is known of the whole text once `done` has been read and the rest
/// of the text gives `rest`.
pub open spec fn after(done: Seq<TokenView>, rest: Result<Seq<TokenView>, TokenizeError>) -> Result<
    Seq<TokenView>,
    TokenizeError,
> {
    match rest {
        Ok(tokens) => Ok(done + tokens),
        Err(e) => Err(e),
    }
}

fn make_error(chars: &Vec<char>, at: usize, tried: RuleSet) -> (e: TokenizeError)
    requires
        at <= chars.len(),
    ensures
        e == error_at(chars@, at as int, tried),
{
    if at < chars.len() {
        TokenizeError { span: Span { start: at, end: at + 1 }, found: Some(chars[at]), tried }
    } else {
        TokenizeError { span: Span { start: at, end: at }, found: None, tried }
    }
}

/// The characters `from..to` of `query`, as a string of their own.
fn slice_text(query: &str, from: usize, to: usize) -> (s: String)
    requires
        from <= to <= query@.len(),
    ensures
        s@ == query@.subrange(from as int, to as int),
{
    query.substring_char(from, to).to_owned()
}

/// Reads the token that begins at `at`.
fn read_token(query: &str, chars: &Vec<char>, at: usize) -> (res: Result<Token, TokenizeError>)
    requires
        chars@ == query@,
        at < chars.len(),
    ensures
        res matches Ok(token) ==> token_at(query@, at as int) == Ok::<TokenView, TokenizeError>(
            token@,
        ),
        res matches Err(e) ==> token_at(query@, at as int) == Err::<TokenView, TokenizeError>(e),
{
    let c = chars[at];
    proof {
        lemma_run_end(chars@, at + 1, CharClass::Quoted);
        lemma_run_end(chars@, at + 1, CharClass::Word);
        lemma_run_end(chars@, at as int, CharClass::Path);
    }
    if c == '(' {
        Ok(Token::LParen(Span { start: at, end: at + 1 }))
    } else if c == ')' {
        Ok(Token::RParen(Span { start: at, end: at + 1 }))
    } else if c == '"' {
        let quoted_end = scan_run(chars, at + 1, CharClass::Quoted);
        if at + 1 < quoted_end && quoted_end < chars.len() && chars[quoted_end] == '"' {
            let value = slice_text(query, at + 1, quoted_end);
            Ok(Token::LiteralRef(Ref { value, span: Span { start: at, end: quoted_end + 1 } }))
        } else {
            Err(make_error(chars, quoted_end, RuleSet::quoted_only()))
        }
    } else {
        let ident_start = (c >= 'a' && c <= 'z') || (c >= 'A' && c <= 'Z') || c == '_';
        let word_end = scan_run(chars, at + 1, CharClass::Word);
        if ident_start && !(word_end < chars.len() && (chars[word_end] == '/' || chars[word_end]
            == '-')) {
            let name = slice_text(query, at, word_end);
            Ok(Token::Identifier(Ident { name, span: Span { start: at, end: word_end } }))
        } else if CharClass::Path.has(c) {
            let path_end = scan_run(chars, at, CharClass::Path);
            let value = slice_text(query, at, path_end);
            Ok(Token::LiteralRef(Ref { value, span: Span { start: at, end: path_end } }))
        } else {
            Err(make_error(chars, at, RuleSet::all()))
        }
    }
}

/// Reads a query string as a sequence of tokens, or says where it is not
/// one.
pub fn tokenize(query: &str) -> (res: Result<Vec<Token>, TokenizeError>)
    ensures
        res matches Ok(tokens) ==> tokens_of(query@) == Ok::<Seq<TokenView>, TokenizeError>(
            token_views(tokens@),
        ),
        res matches Ok(tokens) ==> tokens_read(
            token_views(tokens@),
            query@,
            0,
            query@.len() as int,
        ),
        res matches Err(e) ==> tokens_of(query@) == Err::<Seq<TokenView>, TokenizeError>(e),
{
    let chars = chars_of(query);
    let mut tokens: Vec<Token> = Vec::new();
    let mut from: usize = 0;
    loop
        invariant
            chars@ == query@,
            from <= chars.len(),
            tokens_of(query@) == after(token_views(tokens@), tokens_from(query@, from as int)),
        decreases chars.len() - from,
    {
        let at = scan_run(&chars, from, CharClass::InlineSpace);
        if at >= chars.len() {
            proof {
                lemma_tokens_read(query@, 0);
            }
            return Ok(tokens);
        }
        proof {
            lemma_token_at(query@, at as int);
        }
        match read_token(query, &chars, at) {
            Err(e) => {
                return Err(e);
            },
            Ok(token) => {
                let ghost before = token_views(tokens@);
                from = token.span().end;
                tokens.push(token);
                assert forall|rest: Seq<TokenView>|
                    before + (seq![token@] + rest) == #[trigger] (token_views(tokens@) + rest) by {
                }
            },
        }
    }
}

impl Clone for Ident {
    fn clone(&self) -> (copy: Ident)
        ensures
            copy == *self,
    {
        Ident { name: self.name.clone(), span: self.span }
    }
}

impl From<Ident> for Ref {
    /// The reference that a bare name stands for.
    fn from(ident: Ident) -> (r: Ref) {
        Ref { value: ident.name, span: ident.span }
    }
}

impl vstd::std_specs::convert::FromSpecImpl<Ident> for Ref {
    open spec fn obeys_from_spec() -> bool {
        true
    }

    open spec fn from_spec(ident: Ident) -> Ref {
        Ref { value: ident.name, span: ident.span }
    }
}

impl Clone for Ref {
    fn clone(&self) -> (copy: Ref)
        ensures
            copy == *self,
    {
        Ref { value: self.value.clone(), span: self.span }
    }
}

impl Clone for Token {
    fn clone(&self) -> (copy: Token)
        ensures
            copy == *self,
    {
        match self {
            Token::Identifier(ident) => Token::Identifier(ident.clone()),
            Token::LParen(span) => Token::LParen(*span),
            Token::RParen(span) => Token::RParen(*span),
            Token::LiteralRef(r) => Token::LiteralRef(r.clone()),
        }
    }
}

impl Token {
    pub fn kind(&self) -> (kind: TokenKind)
        ensures
            kind == self@.kind(),
    {
        match self {
            Token::Identifier(_) => TokenKind::Identifier,
            Token::LParen(_) => TokenKind::LParen,
            Token::RParen(_) => TokenKind::RParen,
            Token::LiteralRef(_) => TokenKind::LiteralRef,
        }
    }

    /// The part of the source that the token was read from.
    pub fn span(&self) -> (span: Span)
        ensures
            span == self@.span(),
    {
        match self {
            Token::Identifier(ident) => ident.span,
            Token::LParen(span) => *span,
            Token::RParen(span) => *span,
            Token::LiteralRef(r) => r.span,
        }
    }
}

} // verus!
