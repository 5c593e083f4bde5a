//! The byte-string comparison helpers, the token source, and parses of
//! non-root node bodies (an enclosing key given from outside).

use simple_wml::bytes::{bytes_eq, bytes_lt, clone_bytes};
use simple_wml::de::AttributeDeserializer;
use simple_wml::parser::Parser;
use simple_wml::token::Token;
use simple_wml::visitors::AcceptAllVisitor;

#[test]
fn lexicographic_order_on_bytes() {
    assert!(bytes_lt(b"a", b"b"));
    assert!(!bytes_lt(b"b", b"a"));
    assert!(!bytes_lt(b"a", b"a"));
    assert!(bytes_lt(b"", b"a"));
    assert!(!bytes_lt(b"a", b""));
    assert!(!bytes_lt(b"", b""));
    assert!(bytes_lt(b"a", b"ab"));
    assert!(!bytes_lt(b"ab", b"a"));
    assert!(bytes_lt(b"az", b"b"));
    assert!(!bytes_lt(b"b", b"az"));
    assert!(bytes_lt(b"abc", b"abd"));
}

#[test]
fn byte_equality() {
    assert!(bytes_eq(b"", b""));
    assert!(bytes_eq(b"abc", b"abc"));
    assert!(!bytes_eq(b"abc", b"abd"));
    assert!(!bytes_eq(b"ab", b"abc"));
}

#[test]
fn cloned_bytes_are_equal() {
    let v: Vec<u8> = b"open".to_vec();
    assert_eq!(clone_bytes(&v), v);
}

#[test]
fn parser_hands_out_tokens_in_order() {
    let mut parser = Parser::new(vec![
        Token::Open { open_key: b"x".to_vec() },
        Token::Close { close_key: b"x".to_vec() },
    ]);
    match parser.next() {
        Some(Token::Open { open_key }) => assert_eq!(open_key, b"x".to_vec()),
        _ => panic!("expected the open marker first"),
    }
    match parser.next() {
        Some(Token::Close { close_key }) => assert_eq!(close_key, b"x".to_vec()),
        _ => panic!("expected the close marker second"),
    }
    assert!(parser.next().is_none());
    assert!(parser.next().is_none());
}

#[test]
fn node_body_closed_by_enclosing_key_succeeds() {
    let mut parser = Parser::new(vec![Token::Close { close_key: b"x".to_vec() }]);
    let de = AttributeDeserializer::new();
    let key: &[u8] = b"x";
    assert_eq!(de.accept(&mut parser, AcceptAllVisitor::new(), Some(key)), Some(()));
}

#[test]
fn node_body_hitting_end_of_stream_aborts() {
    let mut parser = Parser::new(vec![]);
    let de = AttributeDeserializer::new();
    let key: &[u8] = b"x";
    assert_eq!(de.accept(&mut parser, AcceptAllVisitor::new(), Some(key)), None);
}
