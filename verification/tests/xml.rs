use docbook_to_mdbook::xml::{tokenize, AttributeFault, Token, TokenKind};

fn shape(token: &Token) -> (TokenKind, usize, &[u8]) {
    (token.kind, token.name_len, token.content.as_slice())
}

#[test]
fn tokenize_yields_every_event_in_order() {
    let tokens = tokenize(
        "<?xml version=\"1.0\"?><!DOCTYPE a><a x=\"1\">t&amp;<b/><!--c--><![CDATA[d]]><?pi e?></a>",
    );
    let shapes: Vec<_> = tokens.iter().map(shape).collect();
    assert_eq!(
        shapes,
        vec![
            (TokenKind::Prolog, 0, &b"xml version=\"1.0\""[..]),
            (TokenKind::Prolog, 0, &b"a"[..]),
            (TokenKind::Start, 1, &b"a x=\"1\""[..]),
            (TokenKind::Text, 0, &b"t"[..]),
            (TokenKind::Reference, 0, &b"amp"[..]),
            (TokenKind::Empty, 1, &b"b"[..]),
            (TokenKind::Other, 0, &b"c"[..]),
            (TokenKind::Other, 0, &b"d"[..]),
            (TokenKind::Other, 0, &b"pi e"[..]),
            (TokenKind::End, 0, &b"a"[..]),
            (TokenKind::Eof, 0, &b""[..]),
        ]
    );
}

#[test]
fn tokenize_of_nothing_is_the_end_of_input() {
    let tokens = tokenize("");
    assert_eq!(tokens.len(), 1);
    assert_eq!(shape(&tokens[0]), (TokenKind::Eof, 0, &b""[..]));
    assert!(tokens[0].is_last());
}

#[test]
fn tokenize_stops_at_malformed_markup() {
    let tokens = tokenize("<a></b><c/>");
    let kinds: Vec<_> = tokens.iter().map(|t| t.kind).collect();
    assert_eq!(kinds, vec![TokenKind::Start, TokenKind::Malformed]);
    assert!(tokens[1].is_last());
    assert!(!tokens[0].is_last());
}

#[test]
fn name_of_a_tag() {
    let tokens = tokenize("<section id=\"s\"></section >");
    assert_eq!(tokens[0].name(), b"section");
    assert_eq!(tokens[1].name(), b"section");
    assert_eq!(Token::new(TokenKind::Start, 2, b"abc".to_vec()).name(), b"ab");
    assert_eq!(Token::new(TokenKind::Empty, 9, b"abc".to_vec()).name(), b"abc");
    assert_eq!(Token::new(TokenKind::Text, 1, b"abc".to_vec()).name(), b"abc");
}

#[test]
fn duplicate_is_equal_in_every_field() {
    let token = Token::new(TokenKind::Empty, 4, b"xref linkend=\"x\"".to_vec());
    let copy = token.duplicate();
    assert_eq!(shape(&copy), shape(&token));
}

#[test]
fn decode_reads_utf8() {
    assert_eq!(
        Token::new(TokenKind::Text, 0, "gr\u{fc}n".as_bytes().to_vec()).decode(),
        Some("gr\u{fc}n".to_string())
    );
    assert_eq!(Token::new(TokenKind::Text, 0, Vec::new()).decode(), Some(String::new()));
    assert_eq!(Token::new(TokenKind::Text, 0, vec![0xc3]).decode(), None);
}

#[test]
fn attribute_is_found_by_its_key() {
    let tokens = tokenize("<a one='1' two = \"2 &lt; 3 &#65;\" three=''/>");
    let tag = &tokens[0];
    assert_eq!(tag.attribute("one"), Ok("1".to_string()));
    assert_eq!(tag.attribute("two"), Ok("2 < 3 A".to_string()));
    assert_eq!(tag.attribute("three"), Ok(String::new()));
    assert_eq!(tag.attribute("four"), Err(AttributeFault::Missing));
    assert_eq!(tag.attribute("a"), Err(AttributeFault::Missing));
}

#[test]
fn attribute_faults() {
    let unquoted = Token::new(TokenKind::Empty, 1, b"a b=c d=\"e\"".to_vec());
    assert_eq!(unquoted.attribute("d"), Err(AttributeFault::Malformed));
    let entity = Token::new(TokenKind::Empty, 1, b"a b=\"&unknown;\"".to_vec());
    assert_eq!(entity.attribute("b"), Err(AttributeFault::Malformed));
    let overlong = Token::new(TokenKind::Empty, 9, b"a b=\"c\"".to_vec());
    assert_eq!(overlong.attribute("b"), Err(AttributeFault::Malformed));
    let found_first = Token::new(TokenKind::Empty, 1, b"a b=\"c\" d=e".to_vec());
    assert_eq!(found_first.attribute("b"), Ok("c".to_string()));
}
