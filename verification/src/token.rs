//! Token trees: what the lexer gives, the same with places, and their text.

use vstd::prelude::*;
use vstd::string::StringExecFns;
use crate::error::Span;

verus! {

/// The brackets around a group of tokens.
#[derive(Clone, Copy, Debug, PartialEq, Eq, Structural)]
pub enum Delim {
    Paren,
    Brace,
    Bracket,
    /// Brackets that are not written.
    Invisible,
}

/// A token as the lexer gives it.
#[derive(Debug, PartialEq, Eq)]
pub enum Lexeme {
    Ident(String),
    /// A punctuation character, and whether the next token follows it
    /// without a space, as the colons of `::` do.
    Punct(char, bool),
    Literal(String),
    Group(Delim, Vec<Lexeme>),
}

/// The view of [`Lexeme`]: its texts as sequences of characters.
pub ghost enum LexemeModel {
    Ident(Seq<char>),
    Punct(char, bool),
    Literal(Seq<char>),
    Group(Delim, Seq<LexemeModel>),
}

/// The view of a lexeme: its texts as sequences of characters.
pub open spec fn lexeme_model(lexeme: Lexeme) -> LexemeModel
    decreases lexeme,
{
    match lexeme {
        Lexeme::Ident(text) => LexemeModel::Ident(text@),
        Lexeme::Punct(ch, joint) => LexemeModel::Punct(ch, joint),
        Lexeme::Literal(text) => LexemeModel::Literal(text@),
        Lexeme::Group(delim, inner) => LexemeModel::Group(
            delim,
            Seq::new(
                inner@.len(),
                |i: int|
                    if 0 <= i < inner@.len() {
                        lexeme_model(inner@[i])
                    } else {
                        arbitrary()
                    },
            ),
        ),
    }
}

impl View for Lexeme {
    type V = LexemeModel;

    open spec fn view(&self) -> LexemeModel {
        lexeme_model(*self)
    }
}

/// The views of a sequence of lexemes.
pub open spec fn lexemes_view(v: Seq<Lexeme>) -> Seq<LexemeModel> {
    v.map_values(|l: Lexeme| l@)
}

/// A token and its place. Places count tokens from the start of the
/// source: a group covers its opening bracket, its tokens and its closing
/// bracket.
#[derive(Debug, PartialEq, Eq)]
pub enum Token {
    Ident { text: String, span: Span },
    Punct { ch: char, joint: bool, span: Span },
    Literal { text: String, span: Span },
    Group { delim: Delim, inner: Vec<Token>, span: Span },
}

/// The view of [`Token`]: its texts as sequences of characters.
pub ghost enum TokenModel {
    Ident { text: Seq<char>, span: Span },
    Punct { ch: char, joint: bool, span: Span },
    Literal { text: Seq<char>, span: Span },
    Group { delim: Delim, inner: Seq<TokenModel>, span: Span },
}

/// The view of a token: its texts as sequences of characters.
pub open spec fn token_model(token: Token) -> TokenModel
    decreases token,
{
    match token {
        Token::Ident { text, span } => TokenModel::Ident { text: text@, span },
        Token::Punct { ch, joint, span } => TokenModel::Punct { ch, joint, span },
        Token::Literal { text, span } => TokenModel::Literal { text: text@, span },
        Token::Group { delim, inner, span } => TokenModel::Group {
            delim,
            inner: Seq::new(
                inner@.len(),
                |i: int|
                    if 0 <= i < inner@.len() {
                        token_model(inner@[i])
                    } else {
                        arbitrary()
                    },
            ),
            span,
        },
    }
}

impl View for Token {
    type V = TokenModel;

    open spec fn view(&self) -> TokenModel {
        token_model(*self)
    }
}

/// The views of a sequence of tokens.
pub open spec fn tokens_view(v: Seq<Token>) -> Seq<TokenModel> {
    v.map_values(|t: Token| t@)
}

/// The tokens inside a group are the views of its tokens.
pub proof fn lemma_group_view(delim: Delim, inner: Vec<Token>, span: Span)
    ensures
        (Token::Group { delim, inner, span })@ == (TokenModel::Group {
            delim,
            inner: tokens_view(inner@),
            span,
        }),
{
    let t = Token::Group { delim, inner, span };
    assert(t@->Group_inner =~= tokens_view(inner@));
}

/// The lexemes inside a group are the views of its lexemes.
pub proof fn lemma_lexeme_group_view(delim: Delim, inner: Vec<Lexeme>)
    ensures
        Lexeme::Group(delim, inner)@ == LexemeModel::Group(delim, lexemes_view(inner@)),
{
    let l = Lexeme::Group(delim, inner);
    assert(l@->Group_1 =~= lexemes_view(inner@));
}

impl TokenModel {
    /// The place of the token.
    pub open spec fn span(self) -> Span {
        match self {
            TokenModel::Ident { span, .. } => span,
            TokenModel::Punct { span, .. } => span,
            TokenModel::Literal { span, .. } => span,
            TokenModel::Group { span, .. } => span,
        }
    }
}

impl Token {
    /// The place of the token.
    pub fn span(&self) -> (s: Span)
        ensures
            s == self@.span(),
    {
        match self {
            Token::Ident { span, .. } => *span,
            Token::Punct { span, .. } => *span,
            Token::Literal { span, .. } => *span,
            Token::Group { span, .. } => *span,
        }
    }
}

/// The number of tokens that a lexeme stands for: one, and for a group its
/// two brackets and the tokens between them.
pub open spec fn size(lexeme: LexemeModel) -> nat
    decreases lexeme, 0nat,
{
    match lexeme {
        LexemeModel::Group(_, inner) => 2 + size_prefix(inner, inner.len()),
        _ => 1,
    }
}

/// The number of tokens that the first `i` lexemes stand for.
pub open spec fn size_prefix(lexemes: Seq<LexemeModel>, i: nat) -> nat
    decreases lexemes, i,
{
    if i == 0 || i > lexemes.len() {
        0
    } else {
        size_prefix(lexemes, (i - 1) as nat) + size(lexemes[i - 1])
    }
}

/// The number `n` as a position; the largest position where `n` is beyond
/// what a position can hold.
pub open spec fn clip(n: nat) -> usize {
    if n <= usize::MAX {
        n as usize
    } else {
        usize::MAX
    }
}

/// The place of `n` tokens from the token number `k` on.
pub open spec fn span_at(k: nat, n: nat) -> Span {
    Span { start: clip(k), end: clip(k + n) }
}

/// The lexeme as a token, where it is the token number `k` of the source.
pub open spec fn located(lexeme: LexemeModel, k: nat) -> TokenModel
    decreases lexeme,
{
    match lexeme {
        LexemeModel::Ident(text) => TokenModel::Ident { text, span: span_at(k, 1) },
        LexemeModel::Punct(ch, joint) => TokenModel::Punct { ch, joint, span: span_at(k, 1) },
        LexemeModel::Literal(text) => TokenModel::Literal { text, span: span_at(k, 1) },
        LexemeModel::Group(delim, inner) => TokenModel::Group {
            delim,
            inner: Seq::new(
                inner.len(),
                |i: int|
                    if 0 <= i < inner.len() {
                        located(inner[i], k + 1 + size_prefix(inner, i as nat))
                    } else {
                        arbitrary()
                    },
            ),
            span: span_at(k, size(lexeme)),
        },
    }
}

/// The lexemes as tokens, where the first is the token number `k`.
pub open spec fn located_all(lexemes: Seq<LexemeModel>, k: nat) -> Seq<TokenModel> {
    Seq::new(lexemes.len(), |i: int| located(lexemes[i], k + size_prefix(lexemes, i as nat)))
}

/// The position after `pos`.
fn bump(pos: usize, Ghost(k): Ghost<nat>) -> (next: usize)
    requires
        pos == clip(k),
    ensures
        next == clip(k + 1),
{
    if pos < usize::MAX {
        pos + 1
    } else {
        pos
    }
}

/// Gives the lexemes their places, the first at the position `pos`.
fn locate_from(lexemes: &Vec<Lexeme>, pos: usize, Ghost(k): Ghost<nat>) -> (r: (Vec<Token>, usize))
    requires
        pos == clip(k),
    ensures
        tokens_view(r.0@) == located_all(lexemes_view(lexemes@), k),
        r.1 == clip(k + size_prefix(lexemes_view(lexemes@), lexemes@.len())),
    decreases lexemes,
{
    let ghost models = lexemes_view(lexemes@);
    let mut tokens: Vec<Token> = Vec::new();
    let mut at: usize = pos;
    let mut i: usize = 0;
    while i < lexemes.len()
        invariant
            i <= lexemes.len(),
            models == lexemes_view(lexemes@),
            tokens.len() == i,
            at == clip(k + size_prefix(models, i as nat)),
            forall|j: int|
                0 <= j < i ==> (#[trigger] tokens@[j])@ == located(
                    models[j],
                    k + size_prefix(models, j as nat),
                ),
        decreases lexemes.len() - i,
    {
        let ghost here = k + size_prefix(models, i as nat);
        assert(models[i as int] == lexemes@[i as int]@);
        let next = bump(at, Ghost(here));
        let span = Span { start: at, end: next };
        match &lexemes[i] {
            Lexeme::Ident(text) => {
                tokens.push(Token::Ident { text: text.clone(), span });
                at = next;
            },
            Lexeme::Punct(ch, joint) => {
                tokens.push(Token::Punct { ch: *ch, joint: *joint, span });
                at = next;
            },
            Lexeme::Literal(text) => {
                tokens.push(Token::Literal { text: text.clone(), span });
                at = next;
            },
            Lexeme::Group(delim, inner) => {
                proof {
                    lemma_lexeme_group_view(*delim, *inner);
                }
                let ghost inside = lexemes_view(inner@);
                let (inner_tokens, last) = locate_from(inner, next, Ghost(here + 1));
                let end = bump(last, Ghost(here + 1 + size_prefix(inside, inside.len())));
                proof {
                    lemma_group_view(*delim, inner_tokens, Span { start: at, end });
                    assert(tokens_view(inner_tokens@) =~= located(
                        models[i as int],
                        here,
                    )->Group_inner);
                }
                tokens.push(
                    Token::Group { delim: *delim, inner: inner_tokens, span: Span { start: at, end } },
                );
                at = end;
            },
        }
        i = i + 1;
    }
    assert(tokens_view(tokens@) =~= located_all(models, k));
    (tokens, at)
}

/// Gives the lexemes of two sources their places, counting on from the
/// first source to the second.
pub fn locate_both(first: &Vec<Lexeme>, second: &Vec<Lexeme>) -> (r: (Vec<Token>, Vec<Token>))
    ensures
        tokens_view(r.0@) == located_all(lexemes_view(first@), 0),
        tokens_view(r.1@) == located_all(
            lexemes_view(second@),
            size_prefix(lexemes_view(first@), first@.len()),
        ),
{
    let (first_tokens, end) = locate_from(first, 0, Ghost(0));
    let (second_tokens, _) = locate_from(
        second,
        end,
        Ghost(size_prefix(lexemes_view(first@), first@.len())),
    );
    (first_tokens, second_tokens)
}

/// Gives the lexemes of a source their places, counting from zero.
pub fn locate(lexemes: &Vec<Lexeme>) -> (tokens: Vec<Token>)
    ensures
        tokens_view(tokens@) == located_all(lexemes_view(lexemes@), 0),
{
    locate_from(lexemes, 0, Ghost(0)).0
}

/// The text of an opening bracket.
pub open spec fn open_text(delim: Delim) -> Seq<char> {
    match delim {
        Delim::Paren => seq!['('],
        Delim::Brace => seq!['{'],
        Delim::Bracket => seq!['['],
        Delim::Invisible => Seq::empty(),
    }
}

/// The text of a closing bracket.
pub open spec fn close_text(delim: Delim) -> Seq<char> {
    match delim {
        Delim::Paren => seq![')'],
        Delim::Brace => seq!['}'],
        Delim::Bracket => seq![']'],
        Delim::Invisible => Seq::empty(),
    }
}

/// The token is a punctuation mark that the next token follows directly.
pub open spec fn joins_next(token: TokenModel) -> bool {
    match token {
        TokenModel::Punct { joint, .. } => joint,
        _ => false,
    }
}

/// What stands before the token at position `j`: nothing before the
/// first token and behind a joint punctuation mark, else one space.
pub open spec fn gap(tokens: Seq<TokenModel>, j: int) -> Seq<char> {
    if j <= 0 || joins_next(tokens[j - 1]) {
        Seq::empty()
    } else {
        seq![' ']
    }
}

/// The text of a token; for a group its brackets around the text of its
/// tokens.
pub open spec fn token_text(token: TokenModel) -> Seq<char>
    decreases token, 0nat,
{
    match token {
        TokenModel::Ident { text, .. } => text,
        TokenModel::Punct { ch, .. } => seq![ch],
        TokenModel::Literal { text, .. } => text,
        TokenModel::Group { delim, inner, .. } => open_text(delim) + text_prefix(
            inner,
            inner.len(),
        ) + close_text(delim),
    }
}

/// The text of the first `i` tokens.
pub open spec fn text_prefix(tokens: Seq<TokenModel>, i: nat) -> Seq<char>
    decreases tokens, i,
{
    if i == 0 || i > tokens.len() {
        Seq::empty()
    } else {
        text_prefix(tokens, (i - 1) as nat) + gap(tokens, i - 1) + token_text(tokens[i - 1])
    }
}

/// The text of a run of tokens: the texts of the tokens with one space
/// between two of them, and none behind a joint punctuation mark.
pub open spec fn text_of(tokens: Seq<TokenModel>) -> Seq<char> {
    text_prefix(tokens, tokens.len())
}

/// Appends an opening or a closing bracket.
fn push_bracket(out: &mut String, delim: Delim, open: bool)
    ensures
        final(out)@ == old(out)@ + (if open {
            open_text(delim)
        } else {
            close_text(delim)
        }),
{
    let ghost before = out@;
    match delim {
        Delim::Paren => out.push(if open { '(' } else { ')' }),
        Delim::Brace => out.push(if open { '{' } else { '}' }),
        Delim::Bracket => out.push(if open { '[' } else { ']' }),
        Delim::Invisible => {},
    }
    assert(out@ =~= before + (if open {
        open_text(delim)
    } else {
        close_text(delim)
    }));
}

/// Appends the text of the tokens from position `lo` up to position `hi`.
pub(crate) fn push_text(out: &mut String, tokens: &Vec<Token>, lo: usize, hi: usize)
    requires
        lo <= hi <= tokens.len(),
    ensures
        final(out)@ == old(out)@ + text_of(tokens_view(tokens@).subrange(lo as int, hi as int)),
    decreases tokens,
{
    let ghost before = out@;
    let ghost run = tokens_view(tokens@).subrange(lo as int, hi as int);
    let mut i: usize = lo;
    let mut joined = true;
    assert(out@ =~= before + text_prefix(run, 0));
    while i < hi
        invariant
            lo <= i <= hi <= tokens.len(),
            run == tokens_view(tokens@).subrange(lo as int, hi as int),
            joined == (i == lo || joins_next(run[i - lo - 1])),
            out@ == before + text_prefix(run, (i - lo) as nat),
        decreases hi - i,
    {
        let ghost sofar = out@;
        let ghost j = (i - lo) as int;
        assert(run[j] == tokens@[i as int]@);
        if !joined {
            out.push(' ');
        }
        assert(out@ =~= sofar + gap(run, j));
        match &tokens[i] {
            Token::Ident { text, .. } => {
                out.append(text.as_str());
                joined = false;
            },
            Token::Punct { ch, joint, .. } => {
                out.push(*ch);
                joined = *joint;
            },
            Token::Literal { text, .. } => {
                out.append(text.as_str());
                joined = false;
            },
            Token::Group { delim, inner, span } => {
                proof {
                    lemma_group_view(*delim, *inner, *span);
                    assert(tokens_view(inner@).subrange(0, inner@.len() as int) =~= tokens_view(
                        inner@,
                    ));
                }
                push_bracket(out, *delim, true);
                push_text(out, inner, 0, inner.len());
                push_bracket(out, *delim, false);
                joined = false;
            },
        }
        assert(out@ =~= sofar + gap(run, j) + token_text(run[j]));
        assert(out@ =~= before + text_prefix(run, (j + 1) as nat));
        i = i + 1;
    }
}

/// The text of the tokens from position `lo` up to position `hi`.
pub(crate) fn text_between(tokens: &Vec<Token>, lo: usize, hi: usize) -> (text: String)
    requires
        lo <= hi <= tokens.len(),
    ensures
        text@ == text_of(tokens_view(tokens@).subrange(lo as int, hi as int)),
{
    let mut text = String::new();
    push_text(&mut text, tokens, lo, hi);
    assert(Seq::<char>::empty() + text@ =~= text@);
    text
}

/// The text of a run of tokens.
pub fn render_tokens(tokens: &Vec<Token>) -> (text: String)
    ensures
        text@ == text_of(tokens_view(tokens@)),
{
    assert(tokens_view(tokens@).subrange(0, tokens@.len() as int) =~= tokens_view(tokens@));
    text_between(tokens, 0, tokens.len())
}

} // verus!
