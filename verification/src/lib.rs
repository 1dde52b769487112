//! Lexical front end of the W language: turns source text into tokens.
//!
//! A [`lexer::Lexer`] is made for one text and hands out its tokens one pull
//! at a time. What a pull does is stated in [`lexer::scan`] as functions of
//! the text and of the position of the cursor, what repeated pulls do in
//! [`lexer::stream`], and what follows for every text in [`lexer::laws`].

pub mod lexer;
