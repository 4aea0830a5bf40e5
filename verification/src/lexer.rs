//! Splits the text of a query into tokens.

use vstd::prelude::*;
use vstd::string::*;

use crate::error::Error;
use crate::plan::views;

verus! {

/// A lexical unit of a query.
#[derive(Clone, Debug, PartialEq, Eq)]
pub enum Token {
    /// A keyword, a function name or an identifier, as written.
    Word(String),
    /// A sequence of decimal digits, by its value.
    Number(u64),
    /// The text between two single quotes.
    Quoted(String),
    Comma,
    LeftParen,
    RightParen,
    Star,
    Plus,
    Minus,
    Slash,
}

/// A token as specifications see it.
pub enum TokenView {
    Word(Seq<char>),
    Number(u64),
    Quoted(Seq<char>),
    Comma,
    LeftParen,
    RightParen,
    Star,
    Plus,
    Minus,
    Slash,
}

impl View for Token {
    type V = TokenView;

    open spec fn view(&self) -> TokenView {
        match self {
            Token::Word(w) => TokenView::Word(w@),
            Token::Number(n) => TokenView::Number(*n),
            Token::Quoted(q) => TokenView::Quoted(q@),
            Token::Comma => TokenView::Comma,
            Token::LeftParen => TokenView::LeftParen,
            Token::RightParen => TokenView::RightParen,
            Token::Star => TokenView::Star,
            Token::Plus => TokenView::Plus,
            Token::Minus => TokenView::Minus,
            Token::Slash => TokenView::Slash,
        }
    }
}

/// Blank, tab, line feed and carriage return separate tokens.
pub open spec fn is_space(c: char) -> bool {
    c == ' ' || c == '\t' || c == '\n' || c == '\r'
}

/// A word starts with a letter or an underscore.
pub open spec fn is_letter(c: char) -> bool {
    ('a' <= c && c <= 'z') || ('A' <= c && c <= 'Z') || c == '_'
}

/// A number is a run of decimal digits.
pub open spec fn is_digit(c: char) -> bool {
    '0' <= c && c <= '9'
}

/// The end of the run of letters, digits and underscores that holds `pos`.
pub open spec fn word_end(text: Seq<char>, pos: int) -> int
    decreases text.len() - pos,
{
    if 0 <= pos < text.len() && (is_letter(text[pos]) || is_digit(text[pos])) {
        word_end(text, pos + 1)
    } else {
        pos
    }
}

/// The end of the run of digits that holds `pos`.
pub open spec fn digits_end(text: Seq<char>, pos: int) -> int
    decreases text.len() - pos,
{
    if 0 <= pos < text.len() && is_digit(text[pos]) {
        digits_end(text, pos + 1)
    } else {
        pos
    }
}

/// The position of the first single quote at or behind `pos`; the length of
/// the text where there is none.
pub open spec fn quote_end(text: Seq<char>, pos: int) -> int
    decreases text.len() - pos,
{
    if 0 <= pos < text.len() && text[pos] != '\'' {
        quote_end(text, pos + 1)
    } else {
        pos
    }
}

/// The value of a digit.
pub open spec fn digit_value(c: char) -> int {
    c as int - '0' as int
}

/// The value of a sequence of digits, capped at the largest number that a
/// token holds.
pub open spec fn capped_value(digits: Seq<char>) -> u64
    decreases digits.len(),
{
    if digits.len() == 0 {
        0
    } else {
        let v = capped_value(digits.drop_last()) * 10 + digit_value(digits.last());
        if v > u64::MAX {
            u64::MAX
        } else {
            v as u64
        }
    }
}

/// The token that a single character stands for.
pub open spec fn symbol(c: char) -> Option<TokenView> {
    if c == ',' {
        Some(TokenView::Comma)
    } else if c == '(' {
        Some(TokenView::LeftParen)
    } else if c == ')' {
        Some(TokenView::RightParen)
    } else if c == '*' {
        Some(TokenView::Star)
    } else if c == '+' {
        Some(TokenView::Plus)
    } else if c == '-' {
        Some(TokenView::Minus)
    } else if c == '/' {
        Some(TokenView::Slash)
    } else {
        None
    }
}

/// Tokens in front of the outcome of lexing the rest.
pub open spec fn join(front: Seq<TokenView>, rest: Result<Seq<TokenView>, Error>) -> Result<
    Seq<TokenView>,
    Error,
> {
    match rest {
        Ok(tokens) => Ok(front + tokens),
        Err(e) => Err(e),
    }
}

/// The run that starts at `pos` ends at or behind `pos`, within the text.
pub proof fn lemma_run_ends(text: Seq<char>, pos: int)
    requires
        0 <= pos <= text.len(),
    ensures
        pos <= word_end(text, pos) <= text.len(),
        pos <= digits_end(text, pos) <= text.len(),
        pos <= quote_end(text, pos) <= text.len(),
    decreases text.len() - pos,
{
    if pos < text.len() {
        lemma_run_ends(text, pos + 1);
    }
}

/// The tokens of the text from `pos` on.
///
/// Space is skipped. A letter starts a word, a digit a number, a single quote
/// a quoted text that the next single quote ends. Any other character is a
/// symbol of its own. A quote that is not closed and a character that starts
/// no token make the query unsupported.
pub open spec fn lex_from(text: Seq<char>, pos: int) -> Result<Seq<TokenView>, Error>
    decreases text.len() - pos,
{
    if pos < 0 || pos >= text.len() {
        Ok(Seq::empty())
    } else {
        let c = text[pos];
        if is_space(c) {
            lex_from(text, pos + 1)
        } else if is_letter(c) {
            let end = word_end(text, pos + 1);
            proof {
                lemma_run_ends(text, pos + 1);
            }
            join(seq![TokenView::Word(text.subrange(pos, end))], lex_from(text, end))
        } else if is_digit(c) {
            let end = digits_end(text, pos + 1);
            proof {
                lemma_run_ends(text, pos + 1);
            }
            join(
                seq![TokenView::Number(capped_value(text.subrange(pos, end)))],
                lex_from(text, end),
            )
        } else if c == '\'' {
            let end = quote_end(text, pos + 1);
            proof {
                lemma_run_ends(text, pos + 1);
            }
            if end >= text.len() {
                Err(Error::UnsupportedQuery)
            } else {
                join(
                    seq![TokenView::Quoted(text.subrange(pos + 1, end))],
                    lex_from(text, end + 1),
                )
            }
        } else {
            match symbol(c) {
                Some(t) => join(seq![t], lex_from(text, pos + 1)),
                None => Err(Error::UnsupportedQuery),
            }
        }
    }
}

/// The tokens of a text.
pub open spec fn tokens_of(text: Seq<char>) -> Result<Seq<TokenView>, Error> {
    lex_from(text, 0)
}

fn space(c: char) -> (r: bool)
    ensures
        r == is_space(c),
{
    c == ' ' || c == '\t' || c == '\n' || c == '\r'
}

fn letter(c: char) -> (r: bool)
    ensures
        r == is_letter(c),
{
    ('a' <= c && c <= 'z') || ('A' <= c && c <= 'Z') || c == '_'
}

fn digit(c: char) -> (r: bool)
    ensures
        r == is_digit(c),
{
    '0' <= c && c <= '9'
}

fn symbol_token(c: char) -> (r: Option<Token>)
    ensures
        r is Some == symbol(c) is Some,
        r matches Some(t) ==> symbol(c) == Some(t@),
{
    if c == ',' {
        Some(Token::Comma)
    } else if c == '(' {
        Some(Token::LeftParen)
    } else if c == ')' {
        Some(Token::RightParen)
    } else if c == '*' {
        Some(Token::Star)
    } else if c == '+' {
        Some(Token::Plus)
    } else if c == '-' {
        Some(Token::Minus)
    } else if c == '/' {
        Some(Token::Slash)
    } else {
        None
    }
}

fn scan_word(text: &str, len: usize, start: usize) -> (end: usize)
    requires
        len == text@.len(),
        start <= len,
    ensures
        end == word_end(text@, start as int),
        start <= end <= len,
{
    let mut i = start;
    while i < len
        invariant
            start <= i <= len,
            len == text@.len(),
            word_end(text@, start as int) == word_end(text@, i as int),
        decreases len - i,
    {
        let c = text.get_char(i);
        if !(letter(c) || digit(c)) {
            return i;
        }
        i = i + 1;
    }
    i
}

fn scan_digits(text: &str, len: usize, start: usize) -> (end: usize)
    requires
        len == text@.len(),
        start <= len,
    ensures
        end == digits_end(text@, start as int),
        start <= end <= len,
{
    let mut i = start;
    while i < len
        invariant
            start <= i <= len,
            len == text@.len(),
            digits_end(text@, start as int) == digits_end(text@, i as int),
        decreases len - i,
    {
        let c = text.get_char(i);
        if !digit(c) {
            return i;
        }
        i = i + 1;
    }
    i
}

fn scan_quote(text: &str, len: usize, start: usize) -> (end: usize)
    requires
        len == text@.len(),
        start <= len,
    ensures
        end == quote_end(text@, start as int),
        start <= end <= len,
{
    let mut i = start;
    while i < len
        invariant
            start <= i <= len,
            len == text@.len(),
            quote_end(text@, start as int) == quote_end(text@, i as int),
        decreases len - i,
    {
        let c = text.get_char(i);
        if c == '\'' {
            return i;
        }
        i = i + 1;
    }
    i
}

fn number_value(text: &str, len: usize, start: usize, end: usize) -> (v: u64)
    requires
        len == text@.len(),
        start <= end <= len,
        forall|i: int| start <= i < end ==> is_digit(#[trigger] text@[i]),
    ensures
        v == capped_value(text@.subrange(start as int, end as int)),
{
    let ghost digits = text@.subrange(start as int, end as int);
    let mut v: u64 = 0;
    let mut i = start;
    assert(digits.take(0) =~= Seq::empty());
    while i < end
        invariant
            start <= i <= end <= len,
            len == text@.len(),
            digits == text@.subrange(start as int, end as int),
            forall|k: int| start <= k < end ==> is_digit(#[trigger] text@[k]),
            v == capped_value(digits.take(i - start)),
        decreases end - i,
    {
        let c = text.get_char(i);
        proof {
            assert(digits.take(i - start + 1).drop_last() =~= digits.take(i - start));
            assert(digits.take(i - start + 1).last() == c);
            assert(is_digit(text@[i as int]));
        }
        let d: u128 = (c as u32 - '0' as u32) as u128;
        let next: u128 = (v as u128) * 10 + d;
        v = if next > u64::MAX as u128 {
            u64::MAX
        } else {
            next as u64
        };
        i = i + 1;
    }
    assert(digits.take(i - start) =~= digits);
    v
}

/// Chaining tokens in front of tokens in front of an outcome is the same as
/// putting all of them in front at once.
proof fn lemma_join_join(a: Seq<TokenView>, b: Seq<TokenView>, rest: Result<Seq<TokenView>, Error>)
    ensures
        join(a, join(b, rest)) == join(a + b, rest),
{
    match rest {
        Ok(tokens) => {
            assert(a + (b + tokens) =~= (a + b) + tokens);
        },
        Err(_) => {},
    }
}

/// Splits a text into tokens; see [`lex_from`].
pub fn tokenize(text: &str) -> (r: Result<Vec<Token>, Error>)
    ensures
        r is Ok == tokens_of(text@) is Ok,
        r matches Ok(tokens) ==> tokens_of(text@) == Ok::<Seq<TokenView>, Error>(views(tokens@)),
        r matches Err(e) ==> tokens_of(text@) == Err::<Seq<TokenView>, Error>(e),
{
    let len = text.unicode_len();
    let mut tokens: Vec<Token> = Vec::new();
    let mut pos: usize = 0;
    assert(join(views(tokens@), lex_from(text@, 0)) == lex_from(text@, 0)) by {
        match lex_from(text@, 0) {
            Ok(t) => {
                assert(views(tokens@) + t =~= t);
            },
            Err(_) => {},
        }
    }
    while pos < len
        invariant
            0 <= pos <= len,
            len == text@.len(),
            lex_from(text@, 0) == join(views(tokens@), lex_from(text@, pos as int)),
        decreases len - pos,
    {
        let c = text.get_char(pos);
        let ghost before = views(tokens@);
        if space(c) {
            pos = pos + 1;
        } else if letter(c) {
            let end = scan_word(text, len, pos + 1);
            let word = String::from_str(text.substring_char(pos, end));
            tokens.push(Token::Word(word));
            proof {
                let t = TokenView::Word(text@.subrange(pos as int, end as int));
                assert(views(tokens@) =~= before + seq![t]);
                lemma_join_join(before, seq![t], lex_from(text@, end as int));
            }
            pos = end;
        } else if digit(c) {
            let end = scan_digits(text, len, pos + 1);
            proof {
                lemma_digits_run(text@, pos + 1, end as int);
            }
            let value = number_value(text, len, pos, end);
            tokens.push(Token::Number(value));
            proof {
                let t = TokenView::Number(value);
                assert(views(tokens@) =~= before + seq![t]);
                lemma_join_join(before, seq![t], lex_from(text@, end as int));
            }
            pos = end;
        } else if c == '\'' {
            let end = scan_quote(text, len, pos + 1);
            if end >= len {
                return Err(Error::UnsupportedQuery);
            }
            let quoted = String::from_str(text.substring_char(pos + 1, end));
            tokens.push(Token::Quoted(quoted));
            proof {
                let t = TokenView::Quoted(text@.subrange(pos + 1, end as int));
                assert(views(tokens@) =~= before + seq![t]);
                lemma_join_join(before, seq![t], lex_from(text@, end + 1));
            }
            pos = end + 1;
        } else {
            match symbol_token(c) {
                Some(token) => {
                    let ghost t = token@;
                    tokens.push(token);
                    proof {
                        assert(views(tokens@) =~= before + seq![t]);
                        lemma_join_join(before, seq![t], lex_from(text@, pos + 1));
                    }
                    pos = pos + 1;
                },
                None => {
                    return Err(Error::UnsupportedQuery);
                },
            }
        }
    }
    proof {
        assert(views(tokens@) + Seq::<TokenView>::empty() =~= views(tokens@));
    }
    Ok(tokens)
}

/// Every position before the end of a run of digits holds a digit.
proof fn lemma_digits_run(text: Seq<char>, start: int, end: int)
    requires
        0 <= start <= text.len(),
        end == digits_end(text, start),
    ensures
        forall|i: int| start <= i < end ==> is_digit(#[trigger] text[i]),
    decreases text.len() - start,
{
    if start < text.len() && is_digit(text[start]) {
        lemma_digits_run(text, start + 1, end);
    }
}

/// Whether a character continues a word.
pub open spec fn is_word_char(c: char) -> bool {
    is_letter(c) || is_digit(c)
}

/// A run of space is skipped.
pub proof fn lemma_lex_space(text: Seq<char>, pos: int, end: int)
    requires
        0 <= pos <= end <= text.len(),
        forall|i: int| pos <= i < end ==> is_space(#[trigger] text[i]),
    ensures
        lex_from(text, pos) == lex_from(text, end),
    decreases end - pos,
{
    if pos < end {
        lemma_lex_space(text, pos + 1, end);
    }
}

/// A run of word characters ends where the first other character stands.
pub proof fn lemma_word_end(text: Seq<char>, pos: int, end: int)
    requires
        0 <= pos <= end <= text.len(),
        forall|i: int| pos <= i < end ==> is_word_char(#[trigger] text[i]),
        end < text.len() ==> !is_word_char(text[end]),
    ensures
        word_end(text, pos) == end,
    decreases end - pos,
{
    if pos < end {
        lemma_word_end(text, pos + 1, end);
    }
}

/// A run of digits ends where the first other character stands.
pub proof fn lemma_digits_end(text: Seq<char>, pos: int, end: int)
    requires
        0 <= pos <= end <= text.len(),
        forall|i: int| pos <= i < end ==> is_digit(#[trigger] text[i]),
        end < text.len() ==> !is_digit(text[end]),
    ensures
        digits_end(text, pos) == end,
    decreases end - pos,
{
    if pos < end {
        lemma_digits_end(text, pos + 1, end);
    }
}

/// A quoted text ends at the first single quote.
pub proof fn lemma_quote_end(text: Seq<char>, pos: int, end: int)
    requires
        0 <= pos <= end <= text.len(),
        forall|i: int| pos <= i < end ==> #[trigger] text[i] != '\'',
        end < text.len() ==> text[end] == '\'',
    ensures
        quote_end(text, pos) == end,
    decreases end - pos,
{
    if pos < end {
        lemma_quote_end(text, pos + 1, end);
    }
}

/// A letter followed by word characters up to `end` is lexed as one word.
pub proof fn lemma_lex_word(text: Seq<char>, pos: int, end: int)
    requires
        0 <= pos < end <= text.len(),
        is_letter(text[pos]),
        forall|i: int| pos < i < end ==> is_word_char(#[trigger] text[i]),
        end < text.len() ==> !is_word_char(text[end]),
    ensures
        lex_from(text, pos) == join(
            seq![TokenView::Word(text.subrange(pos, end))],
            lex_from(text, end),
        ),
{
    lemma_word_end(text, pos + 1, end);
}

/// Digits up to `end` are lexed as one number.
pub proof fn lemma_lex_number(text: Seq<char>, pos: int, end: int)
    requires
        0 <= pos < end <= text.len(),
        forall|i: int| pos <= i < end ==> is_digit(#[trigger] text[i]),
        end < text.len() ==> !is_digit(text[end]),
    ensures
        lex_from(text, pos) == join(
            seq![TokenView::Number(capped_value(text.subrange(pos, end)))],
            lex_from(text, end),
        ),
{
    lemma_digits_end(text, pos + 1, end);
}

/// A single quote, a text without one, and a single quote at `end` are lexed
/// as one quoted text.
pub proof fn lemma_lex_quoted(text: Seq<char>, pos: int, end: int)
    requires
        0 <= pos < end < text.len(),
        text[pos] == '\'',
        text[end] == '\'',
        forall|i: int| pos < i < end ==> #[trigger] text[i] != '\'',
    ensures
        lex_from(text, pos) == join(
            seq![TokenView::Quoted(text.subrange(pos + 1, end))],
            lex_from(text, end + 1),
        ),
{
    lemma_quote_end(text, pos + 1, end);
}

/// A symbol is lexed as its token.
pub proof fn lemma_lex_symbol(text: Seq<char>, pos: int)
    requires
        0 <= pos < text.len(),
        symbol(text[pos]) is Some,
    ensures
        lex_from(text, pos) == join(seq![symbol(text[pos])->Some_0], lex_from(text, pos + 1)),
{
}

} // verus!
