use musing::error::MyError;
use musing::parsers::filter::{into_rpn, tokenize as tokenize_filters, tokenize_filter, Token};
use musing::parsers::request::tokenize;

fn show(t: &Token) -> String {
    match t {
        Token::Operator(op) => format!("op{}", op.0),
        Token::Filter(a) => format!("{}{}{}", a.tag, a.comparator, a.pattern),
        Token::OpeningParen => "(".into(),
        Token::ClosingParen => ")".into(),
    }
}

#[test]
fn request_words_quotes_and_brackets() {
    let t = tokenize("ls 'a b' \"c\\\"d\" [x\\]y] e\\ f").unwrap();
    assert_eq!(t, vec!["ls", "a b", "c\"d", "x]y", "e f"]);
    assert_eq!(tokenize("  ").unwrap(), Vec::<String>::new());
    assert_eq!(tokenize("a\\").unwrap(), vec!["a\\"]);
    assert_eq!(tokenize("\"x\\y\"").unwrap(), vec!["x\\y"]);
}

#[test]
fn request_unclosed_quotes_are_errors() {
    let e = tokenize("'abc").unwrap_err();
    assert_eq!(e.to_message(), "SyntaxError: Unclosed single quote");
    let e = tokenize("\"abc").unwrap_err();
    assert_eq!(e.to_message(), "SyntaxError: Unclosed double quote");
    let e = tokenize("[abc").unwrap_err();
    assert!(matches!(e, MyError::Syntax(ref m) if m == "Unclosed square bracket"));
}

#[test]
fn one_filter() {
    let input: Vec<char> = "artist==\"Bee Gees\" rest".chars().collect();
    let (args, next) = tokenize_filter(&input, 0).unwrap();
    assert_eq!(args.tag, "artist");
    assert_eq!(args.comparator, "==");
    assert_eq!(args.pattern, "Bee Gees");
    assert_eq!(input[next..].iter().collect::<String>(), " rest");
    let input: Vec<char> = "date!=19".chars().collect();
    let (args, next) = tokenize_filter(&input, 0).unwrap();
    assert_eq!((args.tag.as_str(), args.comparator.as_str(), args.pattern.as_str(), next), ("date", "!=", "19", 8));
    let bad: Vec<char> = "date<3".chars().collect();
    assert!(tokenize_filter(&bad, 0).is_err());
    let short: Vec<char> = "date=".chars().collect();
    assert!(tokenize_filter(&short, 0).is_err());
}

#[test]
fn filter_expressions_to_rpn() {
    let infix = tokenize_filters("artist==Bee & (album!=\"Two Words\" | date==1 )").unwrap();
    let shown: Vec<String> = infix.iter().map(show).collect();
    assert_eq!(shown, vec!["artist==Bee", "op1", "(", "album!=Two Words", "op2", "date==1", ")"]);
    let rpn = into_rpn(infix).unwrap();
    let shown: Vec<String> = rpn.iter().map(show).collect();
    assert_eq!(shown, vec!["artist==Bee", "album!=Two Words", "date==1", "op2", "op1"]);
    let rpn = into_rpn(tokenize_filters("a==1 | b==2 & c==3").unwrap()).unwrap();
    let shown: Vec<String> = rpn.iter().map(show).collect();
    assert_eq!(shown, vec!["a==1", "b==2", "op2", "c==3", "op1"]);
}

#[test]
fn mismatched_parentheses() {
    let e = into_rpn(tokenize_filters("a==1 )").unwrap()).unwrap_err();
    assert_eq!(e.to_message(), "SyntaxError: Mismatched parentheses");
    let e = into_rpn(tokenize_filters("( a==1").unwrap()).unwrap_err();
    assert_eq!(e.to_message(), "SyntaxError: Mismatched parentheses");
    assert!(tokenize_filters("=x").is_err());
}

#[test]
fn plain_requests_split_on_whitespace() {
    for text in ["", "   ", "play 3", "  addqueue\ta.mp3  b.mp3 \n", "one"] {
        let expected: Vec<String> = text.split_whitespace().map(String::from).collect();
        assert_eq!(tokenize(text).unwrap(), expected);
    }
}
