//! The textual query surface.
//!
//! A query has the form
//! `SELECT item, ... FROM table [GROUP BY ref, ...] [ORDER BY ref [ASC|DESC]]`.
//! An item is a column, `date_trunc('month', column)`, `COUNT(*)`,
//! `SUM(column)`, `AVG(column)`, or arithmetic between two of the three
//! aggregate calls, each optionally followed by `AS name`. A reference is a
//! name or the position of an item, counted from one. Keywords and function
//! names are matched without regard to case. Everything else is unsupported.

use vstd::prelude::*;
use vstd::string::*;

use crate::error::{agrees, Error};
use crate::lexer::{Token, TokenView};
use crate::plan::views;
use crate::value::Op;

verus! {

/// An operand of a select item.
#[derive(Clone, Debug, PartialEq, Eq)]
pub enum Term {
    Column(String),
    CountRows,
    Sum(String),
    Avg(String),
    /// A column truncated to its calendar month.
    Month(String),
}

/// One item of the select list: an operand, or arithmetic between two
/// operands, and the alias where one is written.
#[derive(Clone, Debug, PartialEq, Eq)]
pub struct Item {
    pub term: Term,
    pub second: Option<(Op, Term)>,
    pub alias: Option<String>,
}

/// A reference to a select item: by position, counted from one, or by name.
#[derive(Clone, Debug, PartialEq, Eq)]
pub enum Reference {
    Ordinal(u64),
    Name(String),
}

/// A query as written.
#[derive(Clone, Debug, PartialEq, Eq)]
pub struct Query {
    pub items: Vec<Item>,
    pub table: String,
    pub group_by: Vec<Reference>,
    pub order_by: Option<(Reference, bool)>,
}

/// An operand as specifications see it.
pub enum TermView {
    Column(Seq<char>),
    CountRows,
    Sum(Seq<char>),
    Avg(Seq<char>),
    Month(Seq<char>),
}

/// A select item as specifications see it.
pub struct ItemView {
    pub term: TermView,
    pub second: Option<(Op, TermView)>,
    pub alias: Option<Seq<char>>,
}

/// A reference as specifications see it.
pub enum ReferenceView {
    Ordinal(u64),
    Name(Seq<char>),
}

/// A query as specifications see it.
pub struct QueryView {
    pub items: Seq<ItemView>,
    pub table: Seq<char>,
    pub group_by: Seq<ReferenceView>,
    pub order_by: Option<(ReferenceView, bool)>,
}

impl View for Term {
    type V = TermView;

    open spec fn view(&self) -> TermView {
        match self {
            Term::Column(c) => TermView::Column(c@),
            Term::CountRows => TermView::CountRows,
            Term::Sum(c) => TermView::Sum(c@),
            Term::Avg(c) => TermView::Avg(c@),
            Term::Month(c) => TermView::Month(c@),
        }
    }
}

impl View for Item {
    type V = ItemView;

    open spec fn view(&self) -> ItemView {
        ItemView {
            term: self.term@,
            second: match self.second {
                Some((op, t)) => Some((op, t@)),
                None => None,
            },
            alias: match self.alias {
                Some(a) => Some(a@),
                None => None,
            },
        }
    }
}

impl View for Reference {
    type V = ReferenceView;

    open spec fn view(&self) -> ReferenceView {
        match self {
            Reference::Ordinal(n) => ReferenceView::Ordinal(*n),
            Reference::Name(w) => ReferenceView::Name(w@),
        }
    }
}

impl View for Query {
    type V = QueryView;

    open spec fn view(&self) -> QueryView {
        QueryView {
            items: views(self.items@),
            table: self.table@,
            group_by: views(self.group_by@),
            order_by: match self.order_by {
                Some((r, ascending)) => Some((r@, ascending)),
                None => None,
            },
        }
    }
}

/// The code of a character with capital letters taken as small ones.
pub open spec fn letter_code(c: char) -> int {
    if 'A' <= c && c <= 'Z' {
        c as int + 32
    } else {
        c as int
    }
}

/// Two words are the same but for the case of their letters.
pub open spec fn same_word(w: Seq<char>, other: Seq<char>) -> bool {
    &&& w.len() == other.len()
    &&& forall|i: int| 0 <= i < w.len() ==> letter_code(#[trigger] w[i]) == letter_code(other[i])
}

/// The words of the grammar, which name no table, column or alias.
pub open spec fn reserved(w: Seq<char>) -> bool {
    same_word(w, "select"@) || same_word(w, "from"@) || same_word(w, "group"@) || same_word(
        w,
        "by"@,
    ) || same_word(w, "order"@) || same_word(w, "as"@) || same_word(w, "asc"@) || same_word(
        w,
        "desc"@,
    )
}

/// The word at a position, if a word stands there.
pub open spec fn word_at(tokens: Seq<TokenView>, pos: int) -> Option<Seq<char>> {
    if 0 <= pos < tokens.len() {
        match tokens[pos] {
            TokenView::Word(w) => Some(w),
            _ => None,
        }
    } else {
        None
    }
}

/// Whether the keyword `keyword` stands at a position.
pub open spec fn keyword_at(tokens: Seq<TokenView>, pos: int, keyword: Seq<char>) -> bool {
    word_at(tokens, pos) matches Some(w) && same_word(w, keyword)
}

/// The name at a position: a word that is not reserved.
pub open spec fn name_at(tokens: Seq<TokenView>, pos: int) -> Option<Seq<char>> {
    match word_at(tokens, pos) {
        Some(w) => if reserved(w) {
            None
        } else {
            Some(w)
        },
        None => None,
    }
}

/// Whether a comma stands at a position.
pub open spec fn comma_at(tokens: Seq<TokenView>, pos: int) -> bool {
    0 <= pos < tokens.len() && tokens[pos] is Comma
}

/// Whether an opening parenthesis stands at a position.
pub open spec fn left_paren_at(tokens: Seq<TokenView>, pos: int) -> bool {
    0 <= pos < tokens.len() && tokens[pos] is LeftParen
}

/// Whether a closing parenthesis stands at a position.
pub open spec fn right_paren_at(tokens: Seq<TokenView>, pos: int) -> bool {
    0 <= pos < tokens.len() && tokens[pos] is RightParen
}

/// Whether a star stands at a position.
pub open spec fn star_at(tokens: Seq<TokenView>, pos: int) -> bool {
    0 <= pos < tokens.len() && tokens[pos] is Star
}

/// Whether the quoted text `'month'` stands at a position.
pub open spec fn month_at(tokens: Seq<TokenView>, pos: int) -> bool {
    &&& 0 <= pos < tokens.len()
    &&& tokens[pos] matches TokenView::Quoted(q)
    &&& same_word(q, "month"@)
}

/// The arithmetic operator at a position.
pub open spec fn operator_at(tokens: Seq<TokenView>, pos: int) -> Option<Op> {
    if 0 <= pos < tokens.len() {
        match tokens[pos] {
            TokenView::Plus => Some(Op::Add),
            TokenView::Minus => Some(Op::Sub),
            TokenView::Star => Some(Op::Mul),
            TokenView::Slash => Some(Op::Div),
            _ => None,
        }
    } else {
        None
    }
}

/// The column of a call `( column )` whose parenthesis opens at `pos`.
pub open spec fn argument_at(tokens: Seq<TokenView>, pos: int) -> Option<Seq<char>> {
    if left_paren_at(tokens, pos) && right_paren_at(tokens, pos + 2) {
        name_at(tokens, pos + 1)
    } else {
        None
    }
}

/// The operand that starts at `pos`, and the position behind it.
pub open spec fn parse_term(tokens: Seq<TokenView>, pos: int) -> Result<(TermView, int), Error> {
    match word_at(tokens, pos) {
        None => Err(Error::UnsupportedQuery),
        Some(w) => if left_paren_at(tokens, pos + 1) {
            if same_word(w, "count"@) {
                if star_at(tokens, pos + 2) && right_paren_at(tokens, pos + 3) {
                    Ok((TermView::CountRows, pos + 4))
                } else {
                    Err(Error::UnsupportedQuery)
                }
            } else if same_word(w, "sum"@) {
                match argument_at(tokens, pos + 1) {
                    Some(c) => Ok((TermView::Sum(c), pos + 4)),
                    None => Err(Error::UnsupportedQuery),
                }
            } else if same_word(w, "avg"@) {
                match argument_at(tokens, pos + 1) {
                    Some(c) => Ok((TermView::Avg(c), pos + 4)),
                    None => Err(Error::UnsupportedQuery),
                }
            } else if same_word(w, "date_trunc"@) {
                if month_at(tokens, pos + 2) && comma_at(tokens, pos + 3) && right_paren_at(
                    tokens,
                    pos + 5,
                ) {
                    match name_at(tokens, pos + 4) {
                        Some(c) => Ok((TermView::Month(c), pos + 6)),
                        None => Err(Error::UnsupportedQuery),
                    }
                } else {
                    Err(Error::UnsupportedQuery)
                }
            } else {
                Err(Error::UnsupportedQuery)
            }
        } else if reserved(w) {
            Err(Error::UnsupportedQuery)
        } else {
            Ok((TermView::Column(w), pos + 1))
        },
    }
}

/// The second operand of an item whose first operand ends at `pos`.
pub open spec fn parse_second(tokens: Seq<TokenView>, pos: int) -> Result<
    (Option<(Op, TermView)>, int),
    Error,
> {
    match operator_at(tokens, pos) {
        None => Ok((None, pos)),
        Some(op) => match parse_term(tokens, pos + 1) {
            Err(e) => Err(e),
            Ok((t, next)) => Ok((Some((op, t)), next)),
        },
    }
}

/// The alias of an item whose operands end at `pos`.
pub open spec fn parse_alias(tokens: Seq<TokenView>, pos: int) -> Result<
    (Option<Seq<char>>, int),
    Error,
> {
    if keyword_at(tokens, pos, "as"@) {
        match name_at(tokens, pos + 1) {
            Some(a) => Ok((Some(a), pos + 2)),
            None => Err(Error::UnsupportedQuery),
        }
    } else {
        Ok((None, pos))
    }
}

/// The select item that starts at `pos`, and the position behind it.
pub open spec fn parse_item(tokens: Seq<TokenView>, pos: int) -> Result<(ItemView, int), Error> {
    match parse_term(tokens, pos) {
        Err(e) => Err(e),
        Ok((term, at1)) => match parse_second(tokens, at1) {
            Err(e) => Err(e),
            Ok((second, at2)) => match parse_alias(tokens, at2) {
                Err(e) => Err(e),
                Ok((alias, at3)) => Ok((ItemView { term, second, alias }, at3)),
            },
        },
    }
}

/// An item ends behind the position at which it starts, within the tokens.
pub proof fn lemma_item_advances(tokens: Seq<TokenView>, pos: int)
    ensures
        parse_item(tokens, pos) matches Ok((_, next)) ==> pos < next <= tokens.len(),
        parse_term(tokens, pos) matches Ok((_, next)) ==> pos < next <= tokens.len(),
{
    match parse_term(tokens, pos) {
        Ok((_, at1)) => {
            match parse_second(tokens, at1) {
                Ok((_, at2)) => {},
                Err(_) => {},
            }
        },
        Err(_) => {},
    }
}

/// The items of a select list from `pos` on, behind the items `earlier`.
pub open spec fn parse_items(tokens: Seq<TokenView>, pos: int, earlier: Seq<ItemView>) -> Result<
    (Seq<ItemView>, int),
    Error,
>
    decreases tokens.len() - pos,
{
    match parse_item(tokens, pos) {
        Err(e) => Err(e),
        Ok((item, next)) => {
            if comma_at(tokens, next) {
                proof {
                    lemma_item_advances(tokens, pos);
                }
                parse_items(tokens, next + 1, earlier.push(item))
            } else {
                Ok((earlier.push(item), next))
            }
        },
    }
}

/// The reference at `pos`: a number or a name.
pub open spec fn parse_reference(tokens: Seq<TokenView>, pos: int) -> Result<
    (ReferenceView, int),
    Error,
> {
    if 0 <= pos < tokens.len() {
        match tokens[pos] {
            TokenView::Number(n) => Ok((ReferenceView::Ordinal(n), pos + 1)),
            TokenView::Word(w) => if reserved(w) {
                Err(Error::UnsupportedQuery)
            } else {
                Ok((ReferenceView::Name(w), pos + 1))
            },
            _ => Err(Error::UnsupportedQuery),
        }
    } else {
        Err(Error::UnsupportedQuery)
    }
}

/// The references of a list from `pos` on, behind the references `earlier`.
pub open spec fn parse_references(
    tokens: Seq<TokenView>,
    pos: int,
    earlier: Seq<ReferenceView>,
) -> Result<(Seq<ReferenceView>, int), Error>
    decreases tokens.len() - pos,
{
    match parse_reference(tokens, pos) {
        Err(e) => Err(e),
        Ok((reference, next)) => {
            if comma_at(tokens, next) {
                parse_references(tokens, next + 1, earlier.push(reference))
            } else {
                Ok((earlier.push(reference), next))
            }
        },
    }
}

/// The `GROUP BY` clause at `pos`, where there is one.
pub open spec fn parse_group_by(tokens: Seq<TokenView>, pos: int) -> Result<
    (Seq<ReferenceView>, int),
    Error,
> {
    if keyword_at(tokens, pos, "group"@) {
        if keyword_at(tokens, pos + 1, "by"@) {
            parse_references(tokens, pos + 2, Seq::empty())
        } else {
            Err(Error::UnsupportedQuery)
        }
    } else {
        Ok((Seq::empty(), pos))
    }
}

/// The direction at `pos`: ascending where none is written.
pub open spec fn parse_direction(tokens: Seq<TokenView>, pos: int) -> (bool, int) {
    if keyword_at(tokens, pos, "asc"@) {
        (true, pos + 1)
    } else if keyword_at(tokens, pos, "desc"@) {
        (false, pos + 1)
    } else {
        (true, pos)
    }
}

/// The `ORDER BY` clause at `pos`, where there is one.
pub open spec fn parse_order_by(tokens: Seq<TokenView>, pos: int) -> Result<
    (Option<(ReferenceView, bool)>, int),
    Error,
> {
    if keyword_at(tokens, pos, "order"@) {
        if keyword_at(tokens, pos + 1, "by"@) {
            match parse_reference(tokens, pos + 2) {
                Err(e) => Err(e),
                Ok((reference, next)) => {
                    let (ascending, end) = parse_direction(tokens, next);
                    Ok((Some((reference, ascending)), end))
                },
            }
        } else {
            Err(Error::UnsupportedQuery)
        }
    } else {
        Ok((None, pos))
    }
}

/// The clauses behind the select list, which ends at `pos`.
pub open spec fn parse_tail(tokens: Seq<TokenView>, pos: int, items: Seq<ItemView>) -> Result<
    QueryView,
    Error,
> {
    if !keyword_at(tokens, pos, "from"@) {
        Err(Error::UnsupportedQuery)
    } else {
        match name_at(tokens, pos + 1) {
            None => Err(Error::UnsupportedQuery),
            Some(table) => match parse_group_by(tokens, pos + 2) {
                Err(e) => Err(e),
                Ok((group_by, at1)) => match parse_order_by(tokens, at1) {
                    Err(e) => Err(e),
                    Ok((order_by, at2)) => if at2 == tokens.len() {
                        Ok(QueryView { items, table, group_by, order_by })
                    } else {
                        Err(Error::UnsupportedQuery)
                    },
                },
            },
        }
    }
}

/// The query that the tokens spell. Tokens that do not spell a query of the
/// supported form are an unsupported query; nothing of them is applied.
pub open spec fn parse_tokens(tokens: Seq<TokenView>) -> Result<QueryView, Error> {
    if !keyword_at(tokens, 0, "select"@) {
        Err(Error::UnsupportedQuery)
    } else {
        match parse_items(tokens, 1, Seq::empty()) {
            Err(e) => Err(e),
            Ok((items, pos)) => parse_tail(tokens, pos, items),
        }
    }
}

/// The outcome of an executable parsing step agrees with the specified one:
/// the same value and the same position behind it, or the same error.
pub open spec fn step_agrees<T: View>(
    r: Result<(T, usize), Error>,
    expected: Result<(T::V, int), Error>,
) -> bool {
    match (r, expected) {
        (Ok((a, p)), Ok((b, q))) => a@ == b && p == q,
        (Err(e), Err(f)) => e == f,
        _ => false,
    }
}

/// The same for a step that yields a list.
pub open spec fn steps_agree<T: View>(
    r: Result<(Vec<T>, usize), Error>,
    expected: Result<(Seq<T::V>, int), Error>,
) -> bool {
    match (r, expected) {
        (Ok((a, p)), Ok((b, q))) => views(a@) == b && p == q,
        (Err(e), Err(f)) => e == f,
        _ => false,
    }
}

fn letter_code_of(c: char) -> (r: u32)
    ensures
        r == letter_code(c),
{
    if 'A' <= c && c <= 'Z' {
        c as u32 + 32
    } else {
        c as u32
    }
}

fn word_is(w: &str, other: &str) -> (r: bool)
    ensures
        r == same_word(w@, other@),
{
    let n = w.unicode_len();
    if n != other.unicode_len() {
        return false;
    }
    let mut i: usize = 0;
    while i < n
        invariant
            0 <= i <= n,
            n == w@.len(),
            n == other@.len(),
            forall|k: int| 0 <= k < i ==> letter_code(#[trigger] w@[k]) == letter_code(other@[k]),
        decreases n - i,
    {
        if letter_code_of(w.get_char(i)) != letter_code_of(other.get_char(i)) {
            return false;
        }
        i = i + 1;
    }
    true
}

fn is_reserved(w: &str) -> (r: bool)
    ensures
        r == reserved(w@),
{
    word_is(w, "select") || word_is(w, "from") || word_is(w, "group") || word_is(w, "by")
        || word_is(w, "order") || word_is(w, "as") || word_is(w, "asc") || word_is(w, "desc")
}

fn peek(tokens: &Vec<Token>, pos: usize, ahead: usize) -> (r: Option<&Token>)
    requires
        pos <= tokens.len(),
    ensures
        r is Some == (pos + ahead < tokens.len()),
        r matches Some(t) ==> t@ == views(tokens@)[pos + ahead],
{
    if ahead < tokens.len() - pos {
        Some(&tokens[pos + ahead])
    } else {
        None
    }
}

fn word_here(tokens: &Vec<Token>, pos: usize, ahead: usize) -> (r: Option<&String>)
    requires
        pos <= tokens.len(),
    ensures
        r is Some == word_at(views(tokens@), pos + ahead) is Some,
        r matches Some(w) ==> word_at(views(tokens@), pos + ahead) == Some(w@),
{
    match peek(tokens, pos, ahead) {
        Some(Token::Word(w)) => Some(w),
        _ => None,
    }
}

fn keyword_here(tokens: &Vec<Token>, pos: usize, ahead: usize, keyword: &str) -> (r: bool)
    requires
        pos <= tokens.len(),
    ensures
        r == keyword_at(views(tokens@), pos + ahead, keyword@),
{
    match word_here(tokens, pos, ahead) {
        Some(w) => word_is(w.as_str(), keyword),
        None => false,
    }
}

fn name_here(tokens: &Vec<Token>, pos: usize, ahead: usize) -> (r: Option<String>)
    requires
        pos <= tokens.len(),
    ensures
        r is Some == name_at(views(tokens@), pos + ahead) is Some,
        r matches Some(w) ==> name_at(views(tokens@), pos + ahead) == Some(w@),
{
    match word_here(tokens, pos, ahead) {
        Some(w) => if is_reserved(w.as_str()) {
            None
        } else {
            Some(w.clone())
        },
        None => None,
    }
}

fn comma_here(tokens: &Vec<Token>, pos: usize, ahead: usize) -> (r: bool)
    requires
        pos <= tokens.len(),
    ensures
        r == comma_at(views(tokens@), pos + ahead),
{
    match peek(tokens, pos, ahead) {
        Some(Token::Comma) => true,
        _ => false,
    }
}

fn left_paren_here(tokens: &Vec<Token>, pos: usize, ahead: usize) -> (r: bool)
    requires
        pos <= tokens.len(),
    ensures
        r == left_paren_at(views(tokens@), pos + ahead),
{
    match peek(tokens, pos, ahead) {
        Some(Token::LeftParen) => true,
        _ => false,
    }
}

fn right_paren_here(tokens: &Vec<Token>, pos: usize, ahead: usize) -> (r: bool)
    requires
        pos <= tokens.len(),
    ensures
        r == right_paren_at(views(tokens@), pos + ahead),
{
    match peek(tokens, pos, ahead) {
        Some(Token::RightParen) => true,
        _ => false,
    }
}

fn star_here(tokens: &Vec<Token>, pos: usize, ahead: usize) -> (r: bool)
    requires
        pos <= tokens.len(),
    ensures
        r == star_at(views(tokens@), pos + ahead),
{
    match peek(tokens, pos, ahead) {
        Some(Token::Star) => true,
        _ => false,
    }
}

fn month_here(tokens: &Vec<Token>, pos: usize, ahead: usize) -> (r: bool)
    requires
        pos <= tokens.len(),
    ensures
        r == month_at(views(tokens@), pos + ahead),
{
    match peek(tokens, pos, ahead) {
        Some(Token::Quoted(q)) => word_is(q.as_str(), "month"),
        _ => false,
    }
}

fn operator_here(tokens: &Vec<Token>, pos: usize) -> (r: Option<Op>)
    requires
        pos <= tokens.len(),
    ensures
        r == operator_at(views(tokens@), pos as int),
{
    match peek(tokens, pos, 0) {
        Some(Token::Plus) => Some(Op::Add),
        Some(Token::Minus) => Some(Op::Sub),
        Some(Token::Star) => Some(Op::Mul),
        Some(Token::Slash) => Some(Op::Div),
        _ => None,
    }
}

fn argument_here(tokens: &Vec<Token>, pos: usize) -> (r: Option<String>)
    requires
        pos <= tokens.len(),
    ensures
        r is Some == argument_at(views(tokens@), pos + 1) is Some,
        r matches Some(c) ==> argument_at(views(tokens@), pos + 1) == Some(c@),
{
    if left_paren_here(tokens, pos, 1) && right_paren_here(tokens, pos, 3) {
        name_here(tokens, pos, 2)
    } else {
        None
    }
}

fn term_here(tokens: &Vec<Token>, pos: usize) -> (r: Result<(Term, usize), Error>)
    requires
        pos <= tokens.len(),
    ensures
        step_agrees(r, parse_term(views(tokens@), pos as int)),
        r matches Ok((_, next)) ==> pos < next <= tokens.len(),
{
    let w = match word_here(tokens, pos, 0) {
        Some(w) => w,
        None => {
            return Err(Error::UnsupportedQuery);
        },
    };
    if left_paren_here(tokens, pos, 1) {
        if word_is(w.as_str(), "count") {
            if star_here(tokens, pos, 2) && right_paren_here(tokens, pos, 3) {
                Ok((Term::CountRows, pos + 4))
            } else {
                Err(Error::UnsupportedQuery)
            }
        } else if word_is(w.as_str(), "sum") {
            match argument_here(tokens, pos) {
                Some(c) => Ok((Term::Sum(c), pos + 4)),
                None => Err(Error::UnsupportedQuery),
            }
        } else if word_is(w.as_str(), "avg") {
            match argument_here(tokens, pos) {
                Some(c) => Ok((Term::Avg(c), pos + 4)),
                None => Err(Error::UnsupportedQuery),
            }
        } else if word_is(w.as_str(), "date_trunc") {
            if month_here(tokens, pos, 2) && comma_here(tokens, pos, 3) && right_paren_here(
                tokens,
                pos,
                5,
            ) {
                match name_here(tokens, pos, 4) {
                    Some(c) => Ok((Term::Month(c), pos + 6)),
                    None => Err(Error::UnsupportedQuery),
                }
            } else {
                Err(Error::UnsupportedQuery)
            }
        } else {
            Err(Error::UnsupportedQuery)
        }
    } else if is_reserved(w.as_str()) {
        Err(Error::UnsupportedQuery)
    } else {
        Ok((Term::Column(w.clone()), pos + 1))
    }
}

fn item_here(tokens: &Vec<Token>, pos: usize) -> (r: Result<(Item, usize), Error>)
    requires
        pos <= tokens.len(),
    ensures
        step_agrees(r, parse_item(views(tokens@), pos as int)),
        r matches Ok((_, next)) ==> pos < next <= tokens.len(),
{
    let (term, at1) = match term_here(tokens, pos) {
        Ok(step) => step,
        Err(e) => {
            return Err(e);
        },
    };
    let (second, at2) = match operator_here(tokens, at1) {
        None => (None, at1),
        Some(op) => match term_here(tokens, at1 + 1) {
            Ok((t, next)) => (Some((op, t)), next),
            Err(e) => {
                return Err(e);
            },
        },
    };
    let (alias, at3) = if keyword_here(tokens, at2, 0, "as") {
        match name_here(tokens, at2, 1) {
            Some(a) => (Some(a), at2 + 2),
            None => {
                return Err(Error::UnsupportedQuery);
            },
        }
    } else {
        (None, at2)
    };
    Ok((Item { term, second, alias }, at3))
}

fn items_here(tokens: &Vec<Token>, start: usize) -> (r: Result<(Vec<Item>, usize), Error>)
    requires
        start <= tokens.len(),
    ensures
        steps_agree(r, parse_items(views(tokens@), start as int, Seq::empty())),
        r matches Ok((_, next)) ==> next <= tokens.len(),
{
    let mut items: Vec<Item> = Vec::new();
    let mut pos = start;
    assert(views(items@) =~= Seq::empty());
    loop
        invariant
            pos <= tokens.len(),
            parse_items(views(tokens@), start as int, Seq::empty()) == parse_items(
                views(tokens@),
                pos as int,
                views(items@),
            ),
        decreases tokens.len() - pos,
    {
        let ghost earlier = views(items@);
        match item_here(tokens, pos) {
            Err(e) => {
                return Err(e);
            },
            Ok((item, next)) => {
                let ghost added = item@;
                items.push(item);
                assert(views(items@) =~= earlier.push(added));
                if comma_here(tokens, next, 0) {
                    pos = next + 1;
                } else {
                    return Ok((items, next));
                }
            },
        }
    }
}

fn reference_here(tokens: &Vec<Token>, pos: usize) -> (r: Result<(Reference, usize), Error>)
    requires
        pos <= tokens.len(),
    ensures
        step_agrees(r, parse_reference(views(tokens@), pos as int)),
        r matches Ok((_, next)) ==> pos < next <= tokens.len(),
{
    match peek(tokens, pos, 0) {
        Some(Token::Number(n)) => Ok((Reference::Ordinal(*n), pos + 1)),
        Some(Token::Word(w)) => if is_reserved(w.as_str()) {
            Err(Error::UnsupportedQuery)
        } else {
            Ok((Reference::Name(w.clone()), pos + 1))
        },
        _ => Err(Error::UnsupportedQuery),
    }
}

fn references_here(tokens: &Vec<Token>, start: usize) -> (r: Result<(Vec<Reference>, usize), Error>)
    requires
        start <= tokens.len(),
    ensures
        steps_agree(r, parse_references(views(tokens@), start as int, Seq::empty())),
        r matches Ok((_, next)) ==> next <= tokens.len(),
{
    let mut references: Vec<Reference> = Vec::new();
    let mut pos = start;
    assert(views(references@) =~= Seq::empty());
    loop
        invariant
            pos <= tokens.len(),
            parse_references(views(tokens@), start as int, Seq::empty()) == parse_references(
                views(tokens@),
                pos as int,
                views(references@),
            ),
        decreases tokens.len() - pos,
    {
        let ghost earlier = views(references@);
        match reference_here(tokens, pos) {
            Err(e) => {
                return Err(e);
            },
            Ok((reference, next)) => {
                let ghost added = reference@;
                references.push(reference);
                assert(views(references@) =~= earlier.push(added));
                if comma_here(tokens, next, 0) {
                    pos = next + 1;
                } else {
                    return Ok((references, next));
                }
            },
        }
    }
}

/// Reads a query from its tokens; see [`parse_tokens`].
pub fn parse_query(tokens: &Vec<Token>) -> (r: Result<Query, Error>)
    ensures
        agrees(r, parse_tokens(views(tokens@))),
{
    if !keyword_here(tokens, 0, 0, "select") {
        return Err(Error::UnsupportedQuery);
    }
    if tokens.len() < 1 {
        return Err(Error::UnsupportedQuery);
    }
    let (items, pos) = match items_here(tokens, 1) {
        Ok(step) => step,
        Err(e) => {
            return Err(e);
        },
    };
    if !keyword_here(tokens, pos, 0, "from") {
        return Err(Error::UnsupportedQuery);
    }
    let table = match name_here(tokens, pos, 1) {
        Some(table) => table,
        None => {
            return Err(Error::UnsupportedQuery);
        },
    };
    let at0 = pos + 2;
    let (group_by, at1) = if keyword_here(tokens, at0, 0, "group") {
        if !keyword_here(tokens, at0, 1, "by") {
            return Err(Error::UnsupportedQuery);
        }
        match references_here(tokens, at0 + 2) {
            Ok(step) => step,
            Err(e) => {
                return Err(e);
            },
        }
    } else {
        let none: Vec<Reference> = Vec::new();
        assert(views(none@) =~= Seq::empty());
        (none, at0)
    };
    let (order_by, at2) = if keyword_here(tokens, at1, 0, "order") {
        if !keyword_here(tokens, at1, 1, "by") {
            return Err(Error::UnsupportedQuery);
        }
        let (reference, next) = match reference_here(tokens, at1 + 2) {
            Ok(step) => step,
            Err(e) => {
                return Err(e);
            },
        };
        if keyword_here(tokens, next, 0, "asc") {
            (Some((reference, true)), next + 1)
        } else if keyword_here(tokens, next, 0, "desc") {
            (Some((reference, false)), next + 1)
        } else {
            (Some((reference, true)), next)
        }
    } else {
        (None, at1)
    };
    if at2 != tokens.len() {
        return Err(Error::UnsupportedQuery);
    }
    Ok(Query { items, table, group_by, order_by })
}

} // verus!
