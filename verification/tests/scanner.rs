use winter::lexer::scan::{END_OF_INPUT, MAX_TEXT_LEN};
use winter::lexer::token::Token;
use winter::lexer::Lexer;

#[test]
fn new_lexer_stands_at_the_first_character() {
    let l = Lexer::new("ab");
    assert_eq!(l.position(), 0);
    assert_eq!(l.read_position(), 1);
    assert_eq!(l.ch(), 'a');
}

#[test]
fn new_lexer_of_an_empty_text_holds_the_end_mark() {
    let l = Lexer::new("");
    assert_eq!(l.position(), 0);
    assert_eq!(l.read_position(), 1);
    assert_eq!(l.ch(), '#');
    assert_eq!(END_OF_INPUT, '#');
}

#[test]
fn longest_text_leaves_room_for_two_steps() {
    assert_eq!(MAX_TEXT_LEN, usize::MAX - 2);
}

#[test]
fn every_operator_and_delimiter_is_one_token() {
    let mut l = Lexer::new("+-*/><=!();");
    assert_eq!(
        l.take(20),
        vec![
            Token::PLUS,
            Token::MINUS,
            Token::TIMES,
            Token::SLASH,
            Token::GT,
            Token::LT,
            Token::EQUAL,
            Token::NOT,
            Token::LPAREN,
            Token::RPAREN,
            Token::SEMICOLON,
        ]
    );
    assert_eq!(l.position(), 12);
}

#[test]
fn symbol_is_stepped_over() {
    let mut l = Lexer::new("+-");
    assert_eq!(l.next_token(), Token::PLUS);
    assert_eq!(l.position(), 1);
    assert_eq!(l.read_position(), 2);
    assert_eq!(l.ch(), '-');
    assert_eq!(l.next_token(), Token::MINUS);
    assert_eq!(l.position(), 2);
    assert_eq!(l.ch(), '#');
}

#[test]
fn letters_digits_and_others_are_told_apart() {
    assert_eq!(Lexer::new("a").next_token(), Token::IDENT(vec!['a']));
    assert_eq!(Lexer::new("7").next_token(), Token::INT(7));
    assert_eq!(Lexer::new("$").next_token(), Token::ILLEGAL);
    assert_eq!(Lexer::new("_").next_token(), Token::ILLEGAL);
    assert_eq!(Lexer::new("\u{1F49D}").next_token(), Token::ILLEGAL);
}

#[test]
fn letter_is_looked_for_before_numeral() {
    let mut l = Lexer::new("\u{2167}");
    assert_eq!(l.next_token(), Token::IDENT(vec!['\u{2167}']));
}

#[test]
fn words_of_any_script_are_identifiers() {
    let mut l = Lexer::new("h\u{e9}llo \u{4eac}\u{90fd} = 1");
    assert_eq!(
        l.take(10),
        vec![
            Token::IDENT(vec!['h', '\u{e9}', 'l', 'l', 'o']),
            Token::IDENT(vec!['\u{4eac}', '\u{90fd}']),
            Token::EQUAL,
            Token::INT(1),
        ]
    );
}

#[test]
fn runs_end_where_the_class_changes() {
    let mut l = Lexer::new("abc123x1");
    assert_eq!(
        l.take(10),
        vec![
            Token::IDENT(vec!['a', 'b', 'c']),
            Token::INT(123),
            Token::IDENT(vec!['x']),
            Token::INT(1),
        ]
    );
}

#[test]
fn word_leaves_the_cursor_behind_the_run() {
    let mut l = Lexer::new("Test = 1");
    assert_eq!(l.next_token(), Token::IDENT(vec!['T', 'e', 's', 't']));
    assert_eq!(l.position(), 4);
    assert_eq!(l.read_position(), 5);
    assert_eq!(l.ch(), ' ');
}

#[test]
fn one_blank_is_passed_over() {
    let mut l = Lexer::new("a\tb\nc\rd e");
    assert_eq!(
        l.take(10),
        vec![
            Token::IDENT(vec!['a']),
            Token::IDENT(vec!['b']),
            Token::IDENT(vec!['c']),
            Token::IDENT(vec!['d']),
            Token::IDENT(vec!['e']),
        ]
    );
}

#[test]
fn second_blank_in_a_row_is_illegal() {
    let mut l = Lexer::new("A  = 5");
    assert_eq!(
        l.take(10),
        vec![
            Token::IDENT(vec!['A']),
            Token::ILLEGAL,
            Token::EQUAL,
            Token::INT(5),
        ]
    );
}

#[test]
fn blanks_at_the_end() {
    let mut l = Lexer::new("a ");
    assert_eq!(l.next(), Some(Token::IDENT(vec!['a'])));
    assert_eq!(l.next(), None);

    let mut l = Lexer::new("a  ");
    assert_eq!(l.next(), Some(Token::IDENT(vec!['a'])));
    assert_eq!(l.next(), Some(Token::ILLEGAL));
    assert_eq!(l.position(), 2);
    assert_eq!(l.next(), None);
}

#[test]
fn illegal_character_is_never_passed() {
    let mut l = Lexer::new("_");
    for _ in 0..5 {
        assert_eq!(l.next_token(), Token::ILLEGAL);
        assert_eq!(l.position(), 0);
        assert_eq!(l.ch(), '_');
    }

    let mut l = Lexer::new("123_456");
    assert_eq!(l.next_token(), Token::INT(123));
    for _ in 0..5 {
        assert_eq!(l.next(), Some(Token::ILLEGAL));
        assert_eq!(l.position(), 3);
    }
}

#[test]
fn end_is_reported_again_and_again() {
    let mut l = Lexer::new("x");
    assert_eq!(l.next(), Some(Token::IDENT(vec!['x'])));
    assert_eq!(l.position(), 1);
    for pulls in 1..6 {
        assert_eq!(l.next(), None);
        assert_eq!(l.position(), 1 + pulls);
        assert_eq!(l.read_position(), 2 + pulls);
        assert_eq!(l.ch(), '#');
    }
    assert_eq!(l.next_token(), Token::EOF);
    assert_eq!(l.take(3), vec![]);
}

#[test]
fn end_mark_in_the_text_reads_as_the_end() {
    let mut l = Lexer::new("#A");
    assert_eq!(l.next_token(), Token::EOF);
    assert_eq!(l.position(), 1);
    assert_eq!(l.next_token(), Token::IDENT(vec!['A']));
    assert_eq!(l.next_token(), Token::EOF);

    let mut l = Lexer::new("#A");
    assert_eq!(l.next(), None);
    assert_eq!(l.next(), Some(Token::IDENT(vec!['A'])));
    assert_eq!(l.next(), None);
}

#[test]
fn end_marks_and_single_blanks_keep_reporting_the_end() {
    let mut l = Lexer::new("a# # ");
    assert_eq!(l.next(), Some(Token::IDENT(vec!['a'])));
    for _ in 0..6 {
        assert_eq!(l.next(), None);
    }
}

#[test]
fn collecting_stops_at_an_end_mark_in_the_text() {
    let mut l = Lexer::new("A#B");
    assert_eq!(l.take(5), vec![Token::IDENT(vec!['A'])]);
    assert_eq!(l.position(), 2);
    assert_eq!(l.take(5), vec![Token::IDENT(vec!['B'])]);
    assert_eq!(l.position(), 4);
}

#[test]
fn collecting_takes_no_more_than_asked_for() {
    let mut l = Lexer::new("a b c d");
    assert_eq!(l.take(0), vec![]);
    assert_eq!(l.position(), 0);
    assert_eq!(
        l.take(2),
        vec![Token::IDENT(vec!['a']), Token::IDENT(vec!['b'])]
    );
    assert_eq!(l.position(), 3);
    assert_eq!(
        l.take(10),
        vec![Token::IDENT(vec!['c']), Token::IDENT(vec!['d'])]
    );
    assert_eq!(l.position(), 8);
}

#[test]
fn collecting_from_an_empty_text_gives_nothing() {
    let mut l = Lexer::new("");
    assert_eq!(l.take(4), vec![]);
    assert_eq!(l.position(), 1);
}

#[test]
fn copy_of_a_lexer_scans_by_itself() {
    let mut l = Lexer::new("a b");
    assert_eq!(l.next(), Some(Token::IDENT(vec!['a'])));
    let mut copy = l.clone();
    assert_eq!(l.next(), Some(Token::IDENT(vec!['b'])));
    assert_eq!(copy.position(), 1);
    assert_eq!(copy.next(), Some(Token::IDENT(vec!['b'])));
    assert_eq!(copy.next(), None);
}

#[test]
fn tokens_print_by_their_names() {
    assert_eq!(format!("{:?}", Token::INT(5)), "INT(5)");
    assert_eq!(format!("{:?}", Token::IDENT(vec!['A'])), "IDENT(['A'])");
    assert_eq!(format!("{:?}", Token::EQUAL), "EQUAL");
}
