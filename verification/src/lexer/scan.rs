//! What the scanner does, stated on a text and a position in it.
//!
//! A lexer that stands at position `pos` of `text` holds `char_at(text, pos)`
//! as its current character. One pull hands out `scan_token(text, pos)` and
//! leaves the lexer at `scan_end(text, pos)`.

use vstd::prelude::*;
use crate::lexer::chars::{char_is_alphabetic, char_is_numeric};
use crate::lexer::number::{decimal_value, fits_u64};
use crate::lexer::token::{keyword, TokenView};

verus! {

/// The character that stands for "no input left". It is an ordinary
/// character too: where the text holds it, the scanner takes it for the end.
pub const END_OF_INPUT: char = '#';

/// The longest text that a lexer takes: the cursor needs room for two steps
/// past the last character.
pub const MAX_TEXT_LEN: usize = usize::MAX - 2;

/// The character at index `pos`, and the end mark outside the text.
pub open spec fn char_at(text: Seq<char>, pos: int) -> char {
    if 0 <= pos < text.len() {
        text[pos]
    } else {
        END_OF_INPUT
    }
}

/// Space, tab, line feed and carriage return.
pub open spec fn is_blank(c: char) -> bool {
    c == ' ' || c == '\t' || c == '\n' || c == '\r'
}

/// Where a token starts that is pulled at `pos`: one blank is passed over,
/// never more.
pub open spec fn token_start(text: Seq<char>, pos: int) -> int {
    if is_blank(char_at(text, pos)) {
        pos + 1
    } else {
        pos
    }
}

/// The token that a single character makes by itself, if it makes one: the
/// operators, the delimiters, and the end mark.
pub open spec fn symbol(c: char) -> Option<TokenView> {
    if c == '+' {
        Some(TokenView::PLUS)
    } else if c == '-' {
        Some(TokenView::MINUS)
    } else if c == '*' {
        Some(TokenView::TIMES)
    } else if c == '/' {
        Some(TokenView::SLASH)
    } else if c == '>' {
        Some(TokenView::GT)
    } else if c == '<' {
        Some(TokenView::LT)
    } else if c == '=' {
        Some(TokenView::EQUAL)
    } else if c == '!' {
        Some(TokenView::NOT)
    } else if c == '(' {
        Some(TokenView::LPAREN)
    } else if c == ')' {
        Some(TokenView::RPAREN)
    } else if c == ';' {
        Some(TokenView::SEMICOLON)
    } else if c == END_OF_INPUT {
        Some(TokenView::EOF)
    } else {
        None
    }
}

/// Where the longest run of alphabetic characters ends that starts at `from`:
/// the index of the first character behind it.
pub open spec fn word_end(text: Seq<char>, from: int) -> int
    decreases text.len() - from,
{
    if 0 <= from < text.len() && char_is_alphabetic(text[from]) {
        word_end(text, from + 1)
    } else {
        from
    }
}

/// Where the longest run of numeric characters ends that starts at `from`:
/// the index of the first character behind it.
pub open spec fn number_end(text: Seq<char>, from: int) -> int
    decreases text.len() - from,
{
    if 0 <= from < text.len() && char_is_numeric(text[from]) {
        number_end(text, from + 1)
    } else {
        from
    }
}

/// The kinds of token, by the character that a token starts with.
pub ghost enum Lexeme {
    /// One character that is a token by itself.
    Symbol,
    /// A run of alphabetic characters.
    Word,
    /// A run of numeric characters.
    Number,
    /// A character that starts no token.
    Unknown,
}

/// The kind of token that starts with `c`. A symbol is looked for first, then
/// a letter, then a numeral.
pub open spec fn lexeme_of(c: char) -> Lexeme {
    if symbol(c) is Some {
        Lexeme::Symbol
    } else if char_is_alphabetic(c) {
        Lexeme::Word
    } else if char_is_numeric(c) {
        Lexeme::Number
    } else {
        Lexeme::Unknown
    }
}

/// The kind of token that a pull at `pos` finds.
pub open spec fn lexeme_at(text: Seq<char>, pos: int) -> Lexeme {
    lexeme_of(char_at(text, token_start(text, pos)))
}

/// The position that a pull at `pos` leaves the lexer at. A symbol is
/// stepped over, the end mark too; a run is passed to its end; a character
/// that starts no token stays where it is.
pub open spec fn scan_end(text: Seq<char>, pos: int) -> int {
    let start = token_start(text, pos);
    match lexeme_of(char_at(text, start)) {
        Lexeme::Symbol => start + 1,
        Lexeme::Word => word_end(text, start),
        Lexeme::Number => number_end(text, start),
        Lexeme::Unknown => start,
    }
}

/// The characters that a pull at `pos` matches, from where the token starts
/// to where the cursor is left. It is the whole run where the pull finds a
/// word or a numeral, and is put to use for these two only.
pub open spec fn scan_text(text: Seq<char>, pos: int) -> Seq<char> {
    text.subrange(token_start(text, pos), scan_end(text, pos))
}

/// Whether a pull at `pos` can be answered: a run of numeric characters must
/// be a numeral that a `u64` can hold.
pub open spec fn scannable(text: Seq<char>, pos: int) -> bool {
    lexeme_at(text, pos) is Number ==> fits_u64(scan_text(text, pos))
}

/// The token that a pull at `pos` hands out: the symbol's own token, the
/// reserved word that a word spells or else an identifier with the word as
/// its spelling, the number that a numeral denotes, or the mark of a
/// character that starts no token.
pub open spec fn scan_token(text: Seq<char>, pos: int) -> TokenView {
    let c = char_at(text, token_start(text, pos));
    match lexeme_of(c) {
        Lexeme::Symbol => symbol(c)->0,
        Lexeme::Word => match keyword(scan_text(text, pos)) {
            Some(reserved) => reserved,
            None => TokenView::IDENT(scan_text(text, pos)),
        },
        Lexeme::Number => TokenView::INT(decimal_value(scan_text(text, pos))),
        Lexeme::Unknown => TokenView::ILLEGAL,
    }
}

/// A run of alphabetic characters ends at or behind its start and inside
/// the text, all of it is alphabetic, and the character behind it is not.
pub proof fn lemma_word_end(text: Seq<char>, from: int)
    requires
        0 <= from <= text.len(),
    ensures
        from <= word_end(text, from) <= text.len(),
        forall|i: int| from <= i < word_end(text, from) ==> char_is_alphabetic(#[trigger] text[i]),
        word_end(text, from) < text.len() ==> !char_is_alphabetic(text[word_end(text, from)]),
    decreases text.len() - from,
{
    if from < text.len() && char_is_alphabetic(text[from]) {
        lemma_word_end(text, from + 1);
    }
}

/// A run of numeric characters ends at or behind its start and inside the
/// text, all of it is numeric, and the character behind it is not.
pub proof fn lemma_number_end(text: Seq<char>, from: int)
    requires
        0 <= from <= text.len(),
    ensures
        from <= number_end(text, from) <= text.len(),
        forall|i: int| from <= i < number_end(text, from) ==> char_is_numeric(#[trigger] text[i]),
        number_end(text, from) < text.len() ==> !char_is_numeric(text[number_end(text, from)]),
    decreases text.len() - from,
{
    if from < text.len() && char_is_numeric(text[from]) {
        lemma_number_end(text, from + 1);
    }
}

/// Where a pull leaves the cursor. The token starts at the cursor or one
/// character behind it, and the cursor is never moved back. It is moved on by
/// two characters at most, or to the end of a run, which lies inside the
/// text. Only a symbol can start at or behind the end of the text, and as
/// long as a pull hands out something other than the end of the input the
/// cursor stays inside the text.
pub proof fn lemma_scan_end(text: Seq<char>, pos: int)
    requires
        0 <= pos,
    ensures
        pos <= token_start(text, pos) <= scan_end(text, pos),
        token_start(text, pos) <= pos + 1,
        scan_end(text, pos) <= pos + 2 || scan_end(text, pos) <= text.len(),
        pos < text.len() ==> token_start(text, pos) <= text.len(),
        !(lexeme_at(text, pos) is Symbol) ==> token_start(text, pos) < text.len(),
        !(scan_token(text, pos) is EOF) ==> scan_end(text, pos) <= text.len(),
{
    let start = token_start(text, pos);
    if start < text.len() {
        lemma_word_end(text, start);
        lemma_number_end(text, start);
    }
}

} // verus!
