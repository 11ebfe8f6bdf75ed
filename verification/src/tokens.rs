//! The tokens of a text, by the tokenizer of the `sqlparser` crate, and the one shape of a
//! statement that its parser does not get through.

use vstd::prelude::*;
use vstd::string::*;

verus! {

/// A token with its place in the text.
#[verifier::external_type_specification]
#[verifier::external_body]
pub struct PlacedToken(sqlparser::tokenizer::TokenWithSpan);

/// What a token is, as far as a FLUSH statement is concerned.
#[derive(Clone, Copy, Debug, PartialEq, Eq, Structural)]
pub enum Lexeme {
    Space,
    Period,
    Flush,
    NoWriteToBinlog,
    Local,
    Relay,
    Logs,
    For,
    Channel,
    /// Any other word, or a quoted text.
    Name,
    Other,
}

/// The tokens of a text, or the words of the parser about what is wrong with it.
pub uninterp spec fn tokens_of(sql: Seq<char>) -> Result<Seq<sqlparser::tokenizer::TokenWithSpan>, Seq<char>>;

/// Calls `sqlparser::tokenizer::Tokenizer::tokenize_with_location` with the `GenericDialect`. The
/// tokens, and the `Display` text of the error as one of the parser, depend on the text alone.
#[verifier::external_body]
pub(crate) fn tokenize(sql: &str) -> (out: Result<Vec<sqlparser::tokenizer::TokenWithSpan>, String>)
    ensures
        match out {
            Ok(v) => tokens_of(sql@) == Ok::<Seq<sqlparser::tokenizer::TokenWithSpan>, Seq<char>>(v@),
            Err(e) => tokens_of(sql@) == Err::<Seq<sqlparser::tokenizer::TokenWithSpan>, Seq<char>>(e@),
        },
{
    sqlparser::tokenizer::Tokenizer::new(&sqlparser::dialect::GenericDialect {  }, sql)
        .tokenize_with_location()
        .map_err(|e| sqlparser::parser::ParserError::from(e).to_string())
}

/// What `open_keyword` gives: it depends on its argument alone.
pub uninterp spec fn keyword_of(t: sqlparser::tokenizer::TokenWithSpan) -> Option<Lexeme>;

/// What a `sqlparser::tokenizer::TokenWithSpan` that is a word is, by its keyword; none of any
/// other.
#[verifier::external_body]
pub(crate) fn open_keyword(t: &sqlparser::tokenizer::TokenWithSpan) -> (out: Option<Lexeme>)
    ensures
        out == keyword_of(*t),
{
    match &t.token {
        sqlparser::tokenizer::Token::Word(w) => Some(match w.keyword {
            sqlparser::keywords::Keyword::FLUSH => Lexeme::Flush,
            sqlparser::keywords::Keyword::NO_WRITE_TO_BINLOG => Lexeme::NoWriteToBinlog,
            sqlparser::keywords::Keyword::LOCAL => Lexeme::Local,
            sqlparser::keywords::Keyword::RELAY => Lexeme::Relay,
            sqlparser::keywords::Keyword::LOGS => Lexeme::Logs,
            sqlparser::keywords::Keyword::FOR => Lexeme::For,
            sqlparser::keywords::Keyword::CHANNEL => Lexeme::Channel,
            _ => Lexeme::Name,
        }),
        _ => None,
    }
}

/// What `open_mark` gives: it depends on its argument alone.
pub uninterp spec fn mark_of(t: sqlparser::tokenizer::TokenWithSpan) -> Lexeme;

/// What a `sqlparser::tokenizer::TokenWithSpan` is that is no word: white space, a period, or a
/// quoted text.
#[verifier::external_body]
pub(crate) fn open_mark(t: &sqlparser::tokenizer::TokenWithSpan) -> (out: Lexeme)
    ensures
        out == mark_of(*t),
{
    match &t.token {
        sqlparser::tokenizer::Token::Whitespace(_) => Lexeme::Space,
        sqlparser::tokenizer::Token::Period => Lexeme::Period,
        sqlparser::tokenizer::Token::SingleQuotedString(_) => Lexeme::Name,
        sqlparser::tokenizer::Token::DoubleQuotedString(_) => Lexeme::Name,
        _ => Lexeme::Other,
    }
}

/// What a token is.
pub open spec fn lexeme_of(t: sqlparser::tokenizer::TokenWithSpan) -> Lexeme {
    match keyword_of(t) {
        Some(l) => l,
        None => mark_of(t),
    }
}

/// What the tokens from position `i` on are, without white space, after those in `acc`.
pub open spec fn lexemes_from(ts: Seq<sqlparser::tokenizer::TokenWithSpan>, i: int, acc: Seq<Lexeme>) -> Seq<Lexeme>
    decreases ts.len() - i,
{
    if i < 0 || i >= ts.len() {
        acc
    } else if lexeme_of(ts[i]) is Space {
        lexemes_from(ts, i + 1, acc)
    } else {
        lexemes_from(ts, i + 1, acc.push(lexeme_of(ts[i])))
    }
}

/// What tokens are, without white space.
pub open spec fn lexemes(ts: Seq<sqlparser::tokenizer::TokenWithSpan>) -> Seq<Lexeme> {
    lexemes_from(ts, 0, Seq::empty())
}

/// What tokens are, without white space.
fn open_lexemes(ts: &Vec<sqlparser::tokenizer::TokenWithSpan>) -> (out: Vec<Lexeme>)
    ensures
        out@ == lexemes(ts@),
{
    let mut out: Vec<Lexeme> = Vec::new();
    for i in 0..ts.len()
        invariant
            lexemes(ts@) == lexemes_from(ts@, i as int, out@),
    {
        let l = match open_keyword(&ts[i]) {
            Some(l) => l,
            None => open_mark(&ts[i]),
        };
        match l {
            Lexeme::Space => {},
            _ => out.push(l),
        }
    }
    out
}

/// Whether a token is at a position.
pub open spec fn is_at(ls: Seq<Lexeme>, i: int, l: Lexeme) -> bool {
    0 <= i < ls.len() && ls[i] == l
}

/// Whether a name stands at a position, with a name after each period.
pub open spec fn names_at(ls: Seq<Lexeme>, i: int) -> bool
    decreases ls.len() - i,
{
    &&& 0 <= i < ls.len()
    &&& !(ls[i] is Space || ls[i] is Period || ls[i] is Other)
    &&& is_at(ls, i + 1, Lexeme::Period) ==> names_at(ls, i + 2)
}

/// Where the logs of a FLUSH statement are named.
pub open spec fn logs_at(ls: Seq<Lexeme>, i: int) -> int {
    if is_at(ls, i + 1, Lexeme::NoWriteToBinlog) || is_at(ls, i + 1, Lexeme::Local) {
        i + 2
    } else {
        i + 1
    }
}

/// Whether a FLUSH of relay logs stands at a position whose channel has no name.
pub open spec fn nameless_at(ls: Seq<Lexeme>, i: int) -> bool {
    let j = logs_at(ls, i);
    &&& is_at(ls, i, Lexeme::Flush)
    &&& is_at(ls, j, Lexeme::Relay)
    &&& is_at(ls, j + 1, Lexeme::Logs)
    &&& is_at(ls, j + 2, Lexeme::For)
    &&& is_at(ls, j + 3, Lexeme::Channel)
    &&& !names_at(ls, j + 4)
}

/// Whether a FLUSH of relay logs of a channel without a name is among tokens. It is no SQL, and
/// the parser of `sqlparser` panics on it.
pub open spec fn breaks_off(ls: Seq<Lexeme>) -> bool {
    exists|i: int| #[trigger] nameless_at(ls, i)
}

/// Whether a token is at a position.
fn has_at(ls: &Vec<Lexeme>, i: usize, l: Lexeme) -> (out: bool)
    ensures
        out == is_at(ls@, i as int, l),
{
    i < ls.len() && ls[i] == l
}

/// Whether a name stands at a position, with a name after each period.
fn has_names_at(ls: &Vec<Lexeme>, i: usize) -> (out: bool)
    ensures
        out == names_at(ls@, i as int),
{
    let mut k: usize = i;
    while k < ls.len()
        invariant
            names_at(ls@, i as int) == names_at(ls@, k as int),
        decreases ls@.len() - k,
    {
        let named = match ls[k] {
            Lexeme::Space => false,
            Lexeme::Period => false,
            Lexeme::Other => false,
            _ => true,
        };
        if !named {
            return false;
        }
        if ls.len() - k < 2 || ls[k + 1] != Lexeme::Period {
            return true;
        }
        if ls.len() - k == 2 {
            assert(!names_at(ls@, k + 2));
            return false;
        }
        k += 2;
    }
    false
}

/// Whether a FLUSH of relay logs stands at a position whose channel has no name.
fn is_nameless_at(ls: &Vec<Lexeme>, i: usize) -> (out: bool)
    requires
        i < ls@.len(),
    ensures
        out == nameless_at(ls@, i as int),
{
    let n = ls.len();
    if ls[i] != Lexeme::Flush || n - i < 5 {
        return false;
    }
    let j = if ls[i + 1] == Lexeme::NoWriteToBinlog || ls[i + 1] == Lexeme::Local {
        i + 2
    } else {
        i + 1
    };
    if n - j < 4 {
        return false;
    }
    has_at(ls, j, Lexeme::Relay) && has_at(ls, j + 1, Lexeme::Logs) && has_at(ls, j + 2, Lexeme::For) && has_at(
        ls,
        j + 3,
        Lexeme::Channel,
    ) && (n - j == 4 || !has_names_at(ls, j + 4))
}

/// Whether the parser of `sqlparser` breaks off on tokens.
pub(crate) fn break_off(ts: &Vec<sqlparser::tokenizer::TokenWithSpan>) -> (out: bool)
    ensures
        out == breaks_off(lexemes(ts@)),
{
    let ls = open_lexemes(ts);
    for i in 0..ls.len()
        invariant
            ls@ == lexemes(ts@),
            forall|k: int| 0 <= k < i ==> !#[trigger] nameless_at(ls@, k),
    {
        if is_nameless_at(&ls, i) {
            assert(nameless_at(ls@, i as int));
            return true;
        }
    }
    assert forall|k: int| !#[trigger] nameless_at(ls@, k) by {}
    false
}

} // verus!
