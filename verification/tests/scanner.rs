use pdf_font_parser::cff::parser::Stream;

#[test]
fn lexing_1() {
    let mut content = Stream::new(b"/FontInfo ");

    assert_eq!(content.next_token(), Some(&b"/FontInfo"[..]));
}

#[test]
fn lexing_2() {
    let mut content = Stream::new(b"/version (01) readonly def");

    assert_eq!(content.next_token(), Some(&b"/version"[..]));
    assert_eq!(content.next_token(), Some(&b"("[..]));
    assert_eq!(content.next_token(), Some(&b"01"[..]));
    assert_eq!(content.next_token(), Some(&b")"[..]));
    assert_eq!(content.next_token(), Some(&b"readonly"[..]));
    assert_eq!(content.next_token(), Some(&b"def"[..]));
}

#[test]
fn lexing_comments_and_whitespace() {
    let mut s = Stream::new(b"%!PS-AdobeFont\n  dup % trailing words\r\n42 def");
    assert_eq!(s.next_token(), Some(&b"dup"[..]));
    assert_eq!(s.next_token(), Some(&b"42"[..]));
    assert_eq!(s.next_token(), Some(&b"def"[..]));
    assert_eq!(s.next_token(), None);
}

#[test]
fn lexing_angle_brackets() {
    let mut s = Stream::new(b"<< /Key <> >> <1a> x>");
    assert_eq!(s.next_token(), Some(&b"<<"[..]));
    assert_eq!(s.next_token(), Some(&b"/Key"[..]));
    assert_eq!(s.next_token(), Some(&b"<>"[..]));
    assert_eq!(s.next_token(), Some(&b">>"[..]));
    assert_eq!(s.next_token(), Some(&b"<"[..]));
    assert_eq!(s.next_token(), Some(&b"1a"[..]));
    assert_eq!(s.next_token(), Some(&b">"[..]));
    assert_eq!(s.next_token(), Some(&b"x"[..]));
    assert_eq!(s.next_token(), Some(&b">"[..]));
    assert_eq!(s.next_token(), None);
}

#[test]
fn lexing_bare_slash() {
    let mut s = Stream::new(b"/ /name[/a]");
    assert_eq!(s.next_token(), Some(&b"/"[..]));
    assert_eq!(s.next_token(), Some(&b"/name"[..]));
    assert_eq!(s.next_token(), Some(&b"["[..]));
    assert_eq!(s.next_token(), Some(&b"/a"[..]));
    assert_eq!(s.next_token(), Some(&b"]"[..]));
    assert_eq!(s.next_token(), None);
}

#[test]
fn peek_then_next_matches_next_alone() {
    // Scanner determinism: interleaving peek_token with next_token yields
    // the same token stream as calling next_token alone.
    let data: &[u8] = b"/version (01) readonly % c\n def 12 -4";
    let mut plain = Stream::new(data);
    let mut mixed = Stream::new(data);
    loop {
        let peeked = mixed.peek_token().map(|t| t.to_vec());
        let from_mixed = mixed.next_token().map(|t| t.to_vec());
        let from_plain = plain.next_token().map(|t| t.to_vec());
        assert_eq!(peeked, from_mixed);
        assert_eq!(from_mixed, from_plain);
        if from_plain.is_none() {
            break;
        }
    }
}

#[test]
fn next_int_reads_decimal_tokens() {
    let mut s = Stream::new(b"42 -17 +8 2147483647 -2147483648 2147483648 4bad");
    assert_eq!(s.next_int(), Some(42));
    assert_eq!(s.next_int(), Some(-17));
    assert_eq!(s.next_int(), Some(8));
    assert_eq!(s.next_int(), Some(2147483647));
    assert_eq!(s.next_int(), Some(-2147483648));
    assert_eq!(s.next_int(), None); // too large for an i32
    assert_eq!(s.next_int(), None); // not a number
    assert_eq!(s.next_int(), None); // end of input
}

#[test]
fn skip_whitespaces_stops_at_content() {
    let mut s = Stream::new(b" \t\r\n x");
    s.skip_whitespaces();
    assert_eq!(s.read_byte(), Some(b'x'));
}

#[test]
fn skip_line_comment_consumes_line() {
    let mut s = Stream::new(b"junk until eol\nnext");
    s.skip_line_comment();
    assert_eq!(s.next_token(), Some(&b"next"[..]));
}

#[test]
fn skip_until_consumes_through_the_keyword() {
    let mut s = Stream::new(b"a b begin c");
    assert!(s.skip_until(b"begin", &[b"end"]));
    assert_eq!(s.next_token(), Some(&b"c"[..]));

    let mut s = Stream::new(b"a end begin");
    assert!(!s.skip_until(b"begin", &[b"end"]));

    let mut s = Stream::new(b"a b c");
    assert!(!s.skip_until(b"begin", &[b"end"]));
}

#[test]
fn skip_until_before_leaves_the_keyword() {
    let mut s = Stream::new(b"x y dup 7");
    assert!(s.skip_until_before(b"dup", &[b"def"]));
    assert_eq!(s.next_token(), Some(&b"dup"[..]));

    let mut s = Stream::new(b"x def dup");
    assert!(!s.skip_until_before(b"dup", &[b"def"]));
}

#[test]
fn skip_dict_balances_nested_pairs() {
    let mut s = Stream::new(b"3 dict dup begin /a 1 def begin /b 2 def end end next");
    s.skip_dict();
    assert_eq!(s.next_token(), Some(&b"next"[..]));
}
