//! The lexer: a cursor over a text, and the pulls that move it.
//!
//! The text is decoded into its characters once, when the lexer is made. The
//! cursor holds the index of the current character and the character
//! itself; behind the text it holds the end mark. A pull passes over one
//! blank and takes one token.

pub mod chars;
pub mod laws;
pub mod number;
pub mod scan;
pub mod stream;
pub mod token;

use vstd::prelude::*;
use vstd::slice::{slice_subrange, slice_to_vec};
use crate::lexer::number::parse_decimal;
use crate::lexer::scan::{
    char_at, lemma_scan_end, number_end, scan_end, scan_token, scannable, token_start, word_end,
    END_OF_INPUT, MAX_TEXT_LEN,
};
use crate::lexer::stream::{position_after_take, taken};
use crate::lexer::token::{get_keyword_token, token_views, Token};

verus! {

/// Turns a text into tokens, one pull at a time. A lexer goes forward only:
/// a second pass over the text takes a new lexer.
#[derive(Debug, Clone)]
pub struct Lexer {
    /// The text, one entry for each character.
    input: Vec<char>,
    /// Index of the current character.
    position: usize,
    /// Index of the character that is read next.
    read_position: usize,
    /// The current character; the end mark behind the text.
    ch: char,
}

/// What a [`Lexer`] holds: its text and its cursor.
pub ghost struct LexerView {
    pub text: Seq<char>,
    pub position: int,
    pub read_position: int,
    pub ch: char,
}

impl View for Lexer {
    type V = LexerView;

    closed spec fn view(&self) -> LexerView {
        LexerView {
            text: self.input@,
            position: self.position as int,
            read_position: self.read_position as int,
            ch: self.ch,
        }
    }
}

impl Lexer {
    /// The cursor is consistent: the lexer reads next what follows the
    /// current character, and holds the character that stands there. The
    /// text is short enough for the cursor to step past its end.
    pub open spec fn wf(&self) -> bool {
        &&& self@.text.len() <= MAX_TEXT_LEN
        &&& 0 <= self@.position
        &&& self@.read_position == self@.position + 1
        &&& self@.ch == char_at(self@.text, self@.position)
    }

    /// A lexer at the first character of `input`: at the end mark where
    /// `input` is empty.
    pub fn new(input: &str) -> (lexer: Self)
        requires
            input@.len() <= MAX_TEXT_LEN,
        ensures
            lexer.wf(),
            lexer@.text == input@,
            lexer@.position == 0,
    {
        let mut chars: Vec<char> = Vec::new();
        for c in it: input.chars()
            invariant
                chars@ == it.seq().take(it.index() as int),
        {
            chars.push(c);
        }
        let mut new = Self { input: chars, position: 0, read_position: 0, ch: END_OF_INPUT };
        new.read_char();
        new
    }

    /// Index of the current character.
    pub fn position(&self) -> (position: usize)
        ensures
            position == self@.position,
    {
        self.position
    }

    /// Index of the character that is read next.
    pub fn read_position(&self) -> (read_position: usize)
        ensures
            read_position == self@.read_position,
    {
        self.read_position
    }

    /// The current character; the end mark behind the text.
    pub fn ch(&self) -> (ch: char)
        ensures
            ch == self@.ch,
    {
        self.ch
    }

    /// Makes the next character the current one. Behind the text the current
    /// character is the end mark, however often the cursor steps on.
    fn read_char(&mut self)
        requires
            old(self).read_position < usize::MAX,
        ensures
            final(self)@.text == old(self)@.text,
            final(self)@.position == old(self)@.read_position,
            final(self)@.read_position == old(self)@.read_position + 1,
            final(self)@.ch == char_at(old(self)@.text, old(self)@.read_position),
    {
        if self.read_position >= self.input.len() {
            self.ch = END_OF_INPUT;
        } else {
            self.ch = self.input[self.read_position];
        }
        self.position = self.read_position;
        self.read_position = self.read_position + 1;
    }

    /// Passes over the current character if it is a blank. One call passes
    /// over one blank: a second blank in a row stays.
    fn skip_whitespace(&mut self)
        requires
            old(self).wf(),
            old(self)@.read_position < usize::MAX,
        ensures
            final(self).wf(),
            final(self)@.text == old(self)@.text,
            final(self)@.position == token_start(old(self)@.text, old(self)@.position),
    {
        let ch = self.ch;
        if ch == ' ' || ch == '\t' || ch == '\n' || ch == '\r' {
            self.read_char();
        }
    }

    /// Passes over the alphabetic characters from the current one on, and
    /// hands them back.
    fn read_identifier(&mut self) -> (word: Vec<char>)
        requires
            old(self).wf(),
            old(self)@.position <= old(self)@.text.len(),
        ensures
            final(self).wf(),
            final(self)@.text == old(self)@.text,
            final(self)@.position == word_end(old(self)@.text, old(self)@.position),
            word@ == old(self)@.text.subrange(old(self)@.position, final(self)@.position),
    {
        let position = self.position;
        while self.position < self.input.len() && self.ch.is_alphabetic()
            invariant
                self.wf(),
                self@.text == old(self)@.text,
                position <= self@.position <= self@.text.len(),
                word_end(self@.text, self@.position) == word_end(self@.text, position as int),
            decreases self@.text.len() - self@.position,
        {
            self.read_char();
        }
        slice_to_vec(slice_subrange(self.input.as_slice(), position, self.position))
    }

    /// Passes over the numeric characters from the current one on, and hands
    /// them back.
    fn read_number(&mut self) -> (digits: Vec<char>)
        requires
            old(self).wf(),
            old(self)@.position <= old(self)@.text.len(),
        ensures
            final(self).wf(),
            final(self)@.text == old(self)@.text,
            final(self)@.position == number_end(old(self)@.text, old(self)@.position),
            digits@ == old(self)@.text.subrange(old(self)@.position, final(self)@.position),
    {
        let position = self.position;
        while self.position < self.input.len() && self.ch.is_numeric()
            invariant
                self.wf(),
                self@.text == old(self)@.text,
                position <= self@.position <= self@.text.len(),
                number_end(self@.text, self@.position) == number_end(self@.text, position as int),
            decreases self@.text.len() - self@.position,
        {
            self.read_char();
        }
        slice_to_vec(slice_subrange(self.input.as_slice(), position, self.position))
    }

    /// Whether the next pull can be answered. It cannot where a run of
    /// numeric characters comes next that is no numeral a `u64` can hold.
    pub fn can_scan(&self) -> (fit: bool)
        requires
            self.wf(),
        ensures
            fit == scannable(self@.text, self@.position),
    {
        let start = if self.ch == ' ' || self.ch == '\t' || self.ch == '\n' || self.ch == '\r' {
            self.position + 1
        } else {
            self.position
        };
        if start >= self.input.len() {
            return true;
        }
        let first = self.input[start];
        match first {
            '+' | '-' | '*' | '/' | '>' | '<' | '=' | '!' | '(' | ')' | ';' | '#' => true,
            _ => {
                if first.is_alphabetic() || !first.is_numeric() {
                    return true;
                }
                let mut end = start;
                while end < self.input.len() && self.input[end].is_numeric()
                    invariant
                        start <= end <= self@.text.len(),
                        number_end(self@.text, end as int) == number_end(self@.text, start as int),
                    decreases self@.text.len() - end,
                {
                    end += 1;
                }
                parse_decimal(slice_subrange(self.input.as_slice(), start, end)).is_some()
            },
        }
    }

    /// Pulls one token: passes over one blank, then takes a symbol, a word, a
    /// numeral, or reports a character that starts none of them and leaves
    /// it in place. The end of the input is a token too, and the cursor
    /// steps on each time it is pulled. A numeral must fit a `u64`:
    /// [`Lexer::can_scan`] tells.
    pub fn next_token(&mut self) -> (token: Token)
        requires
            old(self).wf(),
            old(self)@.read_position < usize::MAX,
            scannable(old(self)@.text, old(self)@.position),
        ensures
            final(self).wf(),
            final(self)@.text == old(self)@.text,
            final(self)@.position == scan_end(old(self)@.text, old(self)@.position),
            token@ == scan_token(old(self)@.text, old(self)@.position),
    {
        proof {
            lemma_scan_end(self@.text, self@.position);
        }
        self.skip_whitespace();
        let tok = match self.ch {
            '+' => Token::PLUS,
            '-' => Token::MINUS,
            '*' => Token::TIMES,
            '/' => Token::SLASH,
            '>' => Token::GT,
            '<' => Token::LT,
            '=' => Token::EQUAL,
            '!' => Token::NOT,
            '(' => Token::LPAREN,
            ')' => Token::RPAREN,
            ';' => Token::SEMICOLON,
            '#' => Token::EOF,
            _ => {
                if self.ch.is_alphabetic() {
                    let ident: Vec<char> = self.read_identifier();
                    match get_keyword_token(&ident) {
                        Ok(keyword_token) => {
                            return keyword_token;
                        },
                        Err(_err) => {
                            return Token::IDENT(ident);
                        },
                    }
                } else if self.ch.is_numeric() {
                    let digits = self.read_number();
                    return Token::INT(parse_decimal(digits.as_slice()).expect("Was not a number"));
                } else {
                    return Token::ILLEGAL;
                }
            },
        };
        self.read_char();
        tok
    }

    /// Pulls one token as [`Lexer::next_token`] does, and reports the end of
    /// the input as `None`.
    pub fn next(&mut self) -> (item: Option<Token>)
        requires
            old(self).wf(),
            old(self)@.read_position < usize::MAX,
            scannable(old(self)@.text, old(self)@.position),
        ensures
            final(self).wf(),
            final(self)@.text == old(self)@.text,
            final(self)@.position == scan_end(old(self)@.text, old(self)@.position),
            item is None <==> scan_token(old(self)@.text, old(self)@.position) is EOF,
            item matches Some(token) ==> token@ == scan_token(
                old(self)@.text,
                old(self)@.position,
            ),
    {
        let next = self.next_token();
        match next {
            Token::EOF => None,
            token => Some(token),
        }
    }

    /// Collects up to `n` tokens. Collecting stops early at the end of the
    /// input, which is pulled and not collected, and before a pull that
    /// cannot be answered, which is left for the caller to find.
    pub fn take(&mut self, n: usize) -> (tokens: Vec<Token>)
        requires
            old(self).wf(),
            old(self)@.read_position < usize::MAX,
        ensures
            final(self).wf(),
            final(self)@.text == old(self)@.text,
            final(self)@.position == position_after_take(
                old(self)@.text,
                old(self)@.position,
                n as nat,
            ),
            token_views(tokens@) == taken(old(self)@.text, old(self)@.position, n as nat),
    {
        let mut tokens: Vec<Token> = Vec::new();
        let mut left = n;
        while left > 0
            invariant_except_break
                self@.read_position < usize::MAX,
                position_after_take(self@.text, self@.position, left as nat) == position_after_take(
                    self@.text,
                    old(self)@.position,
                    n as nat,
                ),
                token_views(tokens@) + taken(self@.text, self@.position, left as nat) == taken(
                    self@.text,
                    old(self)@.position,
                    n as nat,
                ),
            invariant
                self.wf(),
                self@.text == old(self)@.text,
            ensures
                self@.position == position_after_take(self@.text, old(self)@.position, n as nat),
                token_views(tokens@) == taken(self@.text, old(self)@.position, n as nat),
            decreases left,
        {
            let ghost before = token_views(tokens@);
            let ghost rest = taken(self@.text, self@.position, left as nat);
            if !self.can_scan() {
                assert(before + rest =~= before);
                break;
            }
            proof {
                lemma_scan_end(self@.text, self@.position);
            }
            match self.next() {
                None => {
                    assert(before + rest =~= before);
                    break;
                },
                Some(token) => {
                    tokens.push(token);
                    assert(token_views(tokens@) =~= before.push(token@));
                    assert(before.push(token@) + taken(
                        self@.text,
                        self@.position,
                        (left - 1) as nat,
                    ) =~= before + rest);
                },
            }
            left -= 1;
        }
        tokens
    }
}

} // verus!
