use winter::lexer::token::Token;
use winter::lexer::Lexer;

#[test]
fn test_empty() {
    let input = "";
    let mut l = Lexer::new(input);

    let mut tokens: Vec<Token> = vec![];
    loop {
        let token = l.next_token();
        if token == Token::EOF {
            break;
        }
        println!("{:?}", token);
        tokens.push(token);
    }

    assert_eq!(tokens, vec![]);
}

#[test]
fn test_operators() {
    let input = "=<>!/*+";
    let mut l = Lexer::new(input);

    let mut tokens = vec![];
    loop {
        let token = l.next_token();
        if token == Token::EOF {
            break;
        }
        println!("{:?}", token);
        tokens.push(token);
    }

    assert_eq!(
        tokens,
        vec![
            Token::EQUAL,
            Token::LT,
            Token::GT,
            Token::NOT,
            Token::SLASH,
            Token::TIMES,
            Token::PLUS,
        ]
    );
}

#[test]
fn test_assign_to_ident() {
    let input = "A = 5";
    let mut l = Lexer::new(input);

    let mut tokens = vec![];
    loop {
        let token = l.next_token();
        if token == Token::EOF {
            break;
        }
        println!("{:?}", token);
        tokens.push(token);
    }

    assert_eq!(
        tokens,
        vec![Token::IDENT(vec!['A']), Token::EQUAL, Token::INT(5)]
    );
}

#[test]
fn test_big_number() {
    let input = "66424";
    let mut l = Lexer::new(input);

    assert_eq!(l.next_token(), Token::INT(66424));
}

#[test]
fn test_invalid_number() {
    let input = "123_456";
    let mut l = Lexer::new(input);

    assert_eq!(
        l.take(3),
        vec![Token::INT(123), Token::ILLEGAL, Token::ILLEGAL]
    );
}

#[test]
fn test_iterator() {
    let input = "B = 1";
    let mut l = Lexer::new(input);

    let res = l.take(3);

    assert_eq!(
        res,
        vec![Token::IDENT(vec!['B']), Token::EQUAL, Token::INT(1)],
        "The Lexer should be working when used via the Iterator concepts"
    );
}

#[test]
fn test_if_none_when_empty() {
    let mut l = Lexer::new("");
    assert_eq!(
        None,
        l.next(),
        "Tests if Iterator returns None when nothing is left"
    )
}

#[test]
fn test_long_identifier() {
    let mut l = Lexer::new("Test = 1");

    assert_eq!(
        Some(Token::IDENT(vec!['T', 'e', 's', 't'])),
        l.next(),
        "Long identifiers should still be working"
    );
}
