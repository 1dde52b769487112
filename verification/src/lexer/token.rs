//! Tokens of the W language and the table of its reserved words.

use vstd::prelude::*;

verus! {

/// A classified lexical unit, with the matched value where there is one.
#[derive(PartialEq, Debug)]
pub enum Token {
    // Literals
    INT(u64),
    TRUE,
    FALSE,
    // Operators
    PLUS,
    MINUS,
    TIMES,
    SLASH,
    GT,
    LT,
    EQUAL,
    NOT,
    // Names, delimiters and control flow
    IDENT(Vec<char>),
    SEMICOLON,
    IF,
    ELSE,
    WHILE,
    DO,
    END,
    ABORT,
    LPAREN,
    RPAREN,
    // Markers
    ILLEGAL,
    EOF,
}

/// What a [`Token`] stands for in specifications: the same cases, with the
/// spelling of an identifier as a sequence of characters.
pub ghost enum TokenView {
    INT(nat),
    TRUE,
    FALSE,
    PLUS,
    MINUS,
    TIMES,
    SLASH,
    GT,
    LT,
    EQUAL,
    NOT,
    IDENT(Seq<char>),
    SEMICOLON,
    IF,
    ELSE,
    WHILE,
    DO,
    END,
    ABORT,
    LPAREN,
    RPAREN,
    ILLEGAL,
    EOF,
}

impl View for Token {
    type V = TokenView;

    open spec fn view(&self) -> TokenView {
        match self {
            Token::INT(value) => TokenView::INT(*value as nat),
            Token::TRUE => TokenView::TRUE,
            Token::FALSE => TokenView::FALSE,
            Token::PLUS => TokenView::PLUS,
            Token::MINUS => TokenView::MINUS,
            Token::TIMES => TokenView::TIMES,
            Token::SLASH => TokenView::SLASH,
            Token::GT => TokenView::GT,
            Token::LT => TokenView::LT,
            Token::EQUAL => TokenView::EQUAL,
            Token::NOT => TokenView::NOT,
            Token::IDENT(spelling) => TokenView::IDENT(spelling@),
            Token::SEMICOLON => TokenView::SEMICOLON,
            Token::IF => TokenView::IF,
            Token::ELSE => TokenView::ELSE,
            Token::WHILE => TokenView::WHILE,
            Token::DO => TokenView::DO,
            Token::END => TokenView::END,
            Token::ABORT => TokenView::ABORT,
            Token::LPAREN => TokenView::LPAREN,
            Token::RPAREN => TokenView::RPAREN,
            Token::ILLEGAL => TokenView::ILLEGAL,
            Token::EOF => TokenView::EOF,
        }
    }
}

/// The views of `tokens`, in their order.
pub open spec fn token_views(tokens: Seq<Token>) -> Seq<TokenView> {
    Seq::new(tokens.len(), |i: int| tokens[i]@)
}

/// The reserved word that `word` spells, if it spells one. The match is exact:
/// case counts, and nothing may come before or after.
pub open spec fn keyword(word: Seq<char>) -> Option<TokenView> {
    if word == "true"@ {
        Some(TokenView::TRUE)
    } else if word == "false"@ {
        Some(TokenView::FALSE)
    } else if word == "if"@ {
        Some(TokenView::IF)
    } else if word == "else"@ {
        Some(TokenView::ELSE)
    } else if word == "while"@ {
        Some(TokenView::WHILE)
    } else if word == "do"@ {
        Some(TokenView::DO)
    } else if word == "end"@ {
        Some(TokenView::END)
    } else if word == "abort"@ {
        Some(TokenView::ABORT)
    } else {
        None
    }
}

/// Whether `ident` holds exactly the characters of `word`.
fn spells(ident: &Vec<char>, word: &str) -> (same: bool)
    ensures
        same == (ident@ == word@),
{
    let len = word.unicode_len();
    if ident.len() != len {
        return false;
    }
    let mut i: usize = 0;
    while i < len
        invariant
            i <= len,
            len == word@.len(),
            len == ident@.len(),
            forall|j: int| 0 <= j < i ==> ident@[j] == word@[j],
        decreases len - i,
    {
        if ident[i] != word.get_char(i) {
            return false;
        }
        i += 1;
    }
    assert(ident@ =~= word@);
    true
}

/// Looks `ident` up among the reserved words. A spelling that is none of them
/// is reported as `Err`, which callers take to mean a plain identifier.
pub fn get_keyword_token(ident: &Vec<char>) -> (found: Result<Token, String>)
    ensures
        match found {
            Ok(token) => keyword(ident@) == Some(token@),
            Err(reason) => keyword(ident@) is None && reason@ == "Not a keyword"@,
        },
{
    if spells(ident, "true") {
        Ok(Token::TRUE)
    } else if spells(ident, "false") {
        Ok(Token::FALSE)
    } else if spells(ident, "if") {
        Ok(Token::IF)
    } else if spells(ident, "else") {
        Ok(Token::ELSE)
    } else if spells(ident, "while") {
        Ok(Token::WHILE)
    } else if spells(ident, "do") {
        Ok(Token::DO)
    } else if spells(ident, "end") {
        Ok(Token::END)
    } else if spells(ident, "abort") {
        Ok(Token::ABORT)
    } else {
        Err("Not a keyword".to_owned())
    }
}

} // verus!
