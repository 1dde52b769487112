//! Laws of the scanner: what holds of every text.

use vstd::prelude::*;
use crate::lexer::chars::{char_is_alphabetic, char_is_numeric};
use crate::lexer::number::{decimal_value, fits_u64};
use crate::lexer::scan::{
    char_at, is_blank, lemma_number_end, lemma_scan_end, lemma_word_end, lexeme_at, scan_end,
    scan_text, scan_token, scannable, symbol, token_start, END_OF_INPUT,
};
use crate::lexer::stream::{
    lemma_position_after_step, nth_token, position_after, position_after_take, taken,
};
use crate::lexer::token::{keyword, TokenView};

verus! {

/// An empty text yields no token: the first pull reports the end of the
/// input, and collecting gives nothing.
pub proof fn lemma_empty_text_yields_nothing(text: Seq<char>, n: nat)
    requires
        text.len() == 0,
    ensures
        scan_token(text, 0) is EOF,
        taken(text, 0, n) == Seq::<TokenView>::empty(),
{
}

/// Whether `c` is one of the operators and delimiters `+ - * / > < = ! ( ) ;`.
pub open spec fn is_operator_or_delimiter(c: char) -> bool {
    symbol(c) is Some && c != END_OF_INPUT
}

/// The tokens that the characters of `text` make one by one, where each is an
/// operator or a delimiter.
pub open spec fn symbol_tokens(text: Seq<char>) -> Seq<TokenView> {
    Seq::new(text.len(), |i: int| symbol(text[i])->0)
}

/// In a text of operators and delimiters each character is one token of its
/// kind, and the tokens come in the order of the characters: collecting from
/// `pos` gives the tokens of the characters from `pos` on, as many as were
/// asked for, and the end of the input is reported behind the last.
pub proof fn lemma_symbols_map_one_to_one(text: Seq<char>, pos: int, n: nat)
    requires
        forall|i: int| 0 <= i < text.len() ==> is_operator_or_delimiter(#[trigger] text[i]),
        0 <= pos <= text.len(),
    ensures
        taken(text, pos, n) == symbol_tokens(text).subrange(
            pos,
            if pos + n <= text.len() {
                pos + n
            } else {
                text.len() as int
            },
        ),
        position_after_take(text, pos, n) == if pos + n <= text.len() {
            pos + n
        } else {
            text.len() as int + 1
        },
        forall|i: int|
            pos <= i < text.len() ==> scan_token(text, i) == symbol(#[trigger] text[i])->0
                && scan_end(text, i) == i + 1,
        scan_token(text, text.len() as int) is EOF,
    decreases n,
{
    let tokens = symbol_tokens(text);
    let end = if pos + n <= text.len() {
        pos + n
    } else {
        text.len() as int
    };
    assert forall|i: int| pos <= i < text.len() implies scan_token(text, i) == symbol(
        #[trigger] text[i],
    )->0 && scan_end(text, i) == i + 1 by {
        assert(is_operator_or_delimiter(text[i]));
    }
    if n == 0 || pos == text.len() {
        assert(taken(text, pos, n) =~= tokens.subrange(pos, end));
    } else {
        assert(is_operator_or_delimiter(text[pos]));
        lemma_symbols_map_one_to_one(text, pos + 1, (n - 1) as nat);
        assert(seq![scan_token(text, pos)] + tokens.subrange(pos + 1, end) =~= tokens.subrange(
            pos,
            end,
        ));
    }
}

/// One blank is passed over and no more: where a blank stands at the
/// cursor, the token starts with the character behind it. A blank is no
/// symbol, so a second blank in a row is what the tables of letters and
/// numerals make of it; where they make nothing of it, it is reported as a
/// character that starts no token, and the cursor is left on it for the next
/// pull to pass over.
pub proof fn lemma_one_blank_is_passed(text: Seq<char>, pos: int)
    requires
        0 <= pos < text.len(),
        is_blank(text[pos]),
    ensures
        token_start(text, pos) == pos + 1,
        is_blank(char_at(text, pos + 1)) ==> !(lexeme_at(text, pos) is Symbol),
        is_blank(char_at(text, pos + 1)) && lexeme_at(text, pos) is Unknown ==> scan_token(
            text,
            pos,
        ) is ILLEGAL && scan_end(text, pos) == pos + 1 && token_start(text, pos + 1) == pos + 2,
{
}

/// The end of the input is reported where the token starts with the end
/// mark, behind the text or in it, and nowhere else; the cursor then steps
/// over the end mark.
pub proof fn lemma_end_is_the_end_mark(text: Seq<char>, pos: int)
    ensures
        scan_token(text, pos) is EOF <==> char_at(text, token_start(text, pos)) == END_OF_INPUT,
        scan_token(text, pos) is EOF ==> scan_end(text, pos) == token_start(text, pos) + 1,
{
}

/// Whether the character at `i` is the end mark, or a blank that stands by
/// itself: the end mark or the end of the text comes behind it, and the end
/// mark before it unless it is the first character from `from` on.
pub open spec fn end_mark_or_single_blank(text: Seq<char>, from: int, i: int) -> bool {
    ||| text[i] == END_OF_INPUT
    ||| {
        &&& is_blank(text[i])
        &&& char_at(text, i + 1) == END_OF_INPUT
        &&& (i == from || text[i - 1] == END_OF_INPUT)
    }
}

/// Whether the text from `from` on reads as the end of the input and nothing
/// else: it holds end marks, with single blanks between them at most.
pub open spec fn only_end_marks(text: Seq<char>, from: int) -> bool {
    forall|i: int| from <= i < text.len() ==> #[trigger] end_mark_or_single_blank(text, from, i)
}

/// Behind the text every pull reports the end of the input and moves the
/// cursor one step on.
pub proof fn lemma_end_of_input(text: Seq<char>, pos: int)
    requires
        text.len() <= pos,
    ensures
        scan_token(text, pos) is EOF,
        scan_end(text, pos) == pos + 1,
        only_end_marks(text, pos),
{
}

/// Where the rest of the text reads as the end of the input, every further
/// pull reports the end of the input.
pub proof fn lemma_exhaustion_lasts(text: Seq<char>, from: int, n: nat)
    requires
        0 <= from,
        only_end_marks(text, from),
    ensures
        nth_token(text, from, n) is EOF,
        only_end_marks(text, position_after(text, from, n)),
    decreases n,
{
    if from < text.len() {
        assert(end_mark_or_single_blank(text, from, from));
    }
    if n > 0 {
        let next = scan_end(text, from);
        assert(next == token_start(text, from) + 1);
        assert forall|i: int| next <= i < text.len() implies end_mark_or_single_blank(
            text,
            next,
            i,
        ) by {
            assert(end_mark_or_single_blank(text, from, i));
            assert(end_mark_or_single_blank(text, from, i - 1));
        }
        lemma_exhaustion_lasts(text, next, (n - 1) as nat);
    }
}

/// Once a pull has reported the end of the input, every further pull reports
/// it too, where the rest of the text reads as the end of the input: always
/// where the end was reported behind the text, and where the end mark stood in
/// the text if nothing but end marks follows it.
pub proof fn lemma_exhaustion_is_stable(text: Seq<char>, pos: int, n: nat)
    requires
        0 <= pos,
        scan_token(text, pos) is EOF,
        only_end_marks(text, scan_end(text, pos)),
    ensures
        nth_token(text, scan_end(text, pos), n) is EOF,
{
    lemma_scan_end(text, pos);
    lemma_exhaustion_lasts(text, scan_end(text, pos), n);
}

/// Pulls that all report the end of the input are pulls over a rest that
/// reads as the end of the input: a text whose rest reads otherwise hands
/// out another token after all.
pub proof fn lemma_exhaustion_needs_end_marks(text: Seq<char>, from: int)
    requires
        0 <= from,
        forall|n: nat| #[trigger] nth_token(text, from, n) is EOF,
    ensures
        only_end_marks(text, from),
    decreases text.len() - from,
{
    if from < text.len() {
        let next = scan_end(text, from);
        assert(nth_token(text, from, 0) is EOF);
        assert(scan_token(text, from) is EOF);
        assert(char_at(text, token_start(text, from)) == END_OF_INPUT);
        assert(next == token_start(text, from) + 1);
        assert forall|n: nat| #[trigger] nth_token(text, next, n) is EOF by {
            assert(nth_token(text, from, n + 1) is EOF);
        }
        lemma_scan_end(text, from);
        if next < text.len() {
            lemma_exhaustion_needs_end_marks(text, next);
        }
        assert forall|i: int| from <= i < text.len() implies end_mark_or_single_blank(
            text,
            from,
            i,
        ) by {
            if i >= next {
                assert(end_mark_or_single_blank(text, next, i));
            }
        }
    }
}

/// A character that starts no token and is no blank is never passed: every
/// further pull reports it again and leaves the cursor on it.
pub proof fn lemma_illegal_stays(text: Seq<char>, pos: int, n: nat)
    requires
        0 <= pos,
        scan_token(text, pos) is ILLEGAL,
        !is_blank(char_at(text, scan_end(text, pos))),
    ensures
        nth_token(text, scan_end(text, pos), n) is ILLEGAL,
        position_after(text, scan_end(text, pos), n) == scan_end(text, pos),
    decreases n,
{
    let stuck = scan_end(text, pos);
    assert(stuck == token_start(text, pos));
    assert(token_start(text, stuck) == stuck);
    assert(scan_end(text, stuck) == stuck);
    if n > 0 {
        lemma_illegal_stays(text, pos, (n - 1) as nat);
        lemma_position_after_step(text, stuck, (n - 1) as nat);
    }
}

/// The eight reserved words, each with its token.
pub proof fn lemma_reserved_words()
    ensures
        keyword("true"@) == Some(TokenView::TRUE),
        keyword("false"@) == Some(TokenView::FALSE),
        keyword("if"@) == Some(TokenView::IF),
        keyword("else"@) == Some(TokenView::ELSE),
        keyword("while"@) == Some(TokenView::WHILE),
        keyword("do"@) == Some(TokenView::DO),
        keyword("end"@) == Some(TokenView::END),
        keyword("abort"@) == Some(TokenView::ABORT),
{
    reveal_strlit("true");
    reveal_strlit("false");
    reveal_strlit("if");
    reveal_strlit("else");
    reveal_strlit("while");
    reveal_strlit("do");
    reveal_strlit("end");
    reveal_strlit("abort");
    assert("true"@[0] == 't' && "else"@[0] == 'e');
    assert("if"@[0] == 'i' && "do"@[0] == 'd');
    assert("end"@.len() == 3);
    assert("false"@[0] == 'f' && "while"@[0] == 'w' && "abort"@[0] == 'a');
}

/// A word that is spelled exactly as a reserved word is that reserved word's
/// token wherever it stands in the text, and never an identifier; any other
/// word is an identifier with the spelling that was matched.
pub proof fn lemma_words_resolve(text: Seq<char>, pos: int)
    requires
        0 <= pos,
        lexeme_at(text, pos) is Word,
    ensures
        match keyword(scan_text(text, pos)) {
            Some(reserved) => scan_token(text, pos) == reserved,
            None => scan_token(text, pos) == TokenView::IDENT(scan_text(text, pos)),
        },
        keyword(scan_text(text, pos)) is Some ==> !(scan_token(text, pos) is IDENT),
{
}

/// An identifier is a run of alphabetic characters that cannot be made
/// longer: it has a first character, all of its characters are alphabetic,
/// the character behind it is not, and it is no reserved word.
pub proof fn lemma_identifier_is_maximal_word(text: Seq<char>, pos: int)
    requires
        0 <= pos,
        scan_token(text, pos) is IDENT,
    ensures
        scan_token(text, pos)->IDENT_0 == scan_text(text, pos),
        keyword(scan_text(text, pos)) is None,
        scan_text(text, pos).len() > 0,
        forall|i: int|
            0 <= i < scan_text(text, pos).len() ==> char_is_alphabetic(
                #[trigger] scan_text(text, pos)[i],
            ),
        scan_end(text, pos) == text.len() || !char_is_alphabetic(text[scan_end(text, pos)]),
{
    lemma_scan_end(text, pos);
    let start = token_start(text, pos);
    lemma_word_end(text, start);
    assert(symbol(char_at(text, start)) is None);
    assert(char_is_alphabetic(text[start]));
    let word = scan_text(text, pos);
    assert forall|i: int| 0 <= i < word.len() implies char_is_alphabetic(#[trigger] word[i]) by {
        assert(word[i] == text[start + i]);
    }
}

/// A numeral is a run of numeric characters that cannot be made longer, and
/// its token holds the number that the run denotes in base ten.
pub proof fn lemma_number_is_maximal_run(text: Seq<char>, pos: int)
    requires
        0 <= pos,
        lexeme_at(text, pos) is Number,
        scannable(text, pos),
    ensures
        scan_token(text, pos) == TokenView::INT(decimal_value(scan_text(text, pos))),
        fits_u64(scan_text(text, pos)),
        scan_end(text, pos) == text.len() || !char_is_numeric(text[scan_end(text, pos)]),
{
    lemma_scan_end(text, pos);
    lemma_number_end(text, token_start(text, pos));
}

} // verus!
