use bytelex::{Lexer, Token, TokenKind};

/// Scan a whole buffer with a fresh scanner, collecting every token up to and
/// including the first terminal (`Null` or `Invalid`) one.
fn scan_all(input: &[u8]) -> Vec<Token> {
    let mut lex = Lexer::new(input.to_vec());
    let mut out = Vec::new();
    loop {
        let tok = lex.next();
        let done = matches!(tok.kind, TokenKind::Null | TokenKind::Invalid);
        out.push(tok);
        if done {
            break;
        }
    }
    out
}

fn kinds(tokens: &[Token]) -> Vec<TokenKind> {
    tokens.iter().map(|t| t.kind).collect()
}

#[test]
fn test() {
    let mut lex = Lexer::new("1 + 2 * 3 asdsda\n ds".to_string().into_bytes());
    loop {
        let tok = lex.next();
        println!("{:?}", tok);
        println!("{}", tok.fmt_token());
        if matches!(tok.kind, TokenKind::Null | TokenKind::Invalid) {
            break;
        }
    }
}

#[test]
fn determinism_two_scans() {
    let input = b"1 + 2 * 3 asdsda\n ds";
    let first = scan_all(input);
    let second = scan_all(input);
    assert_eq!(first, second);
}

#[test]
fn coverage_reconstructs_prefix() {
    let input = "1 + 2 * 3 asdsda\n ds";
    let tokens = scan_all(input.as_bytes());
    let mut text = String::new();
    for t in &tokens {
        if !matches!(t.kind, TokenKind::Null | TokenKind::Invalid) {
            text.push_str(&t.fmt_value());
        }
    }
    assert_eq!(text, input);
}

#[test]
fn coverage_stops_at_invalid() {
    let input = b"ab 12\x01cd";
    let tokens = scan_all(input);
    let mut text = String::new();
    for t in &tokens {
        if !matches!(t.kind, TokenKind::Null | TokenKind::Invalid) {
            text.push_str(&t.fmt_value());
        }
    }
    assert_eq!(text, "ab 12");
}

#[test]
fn termination_last_is_null() {
    let input = b"foo + bar_baz 12.5 .. 7";
    let mut lex = Lexer::new(input.to_vec());
    let mut count = 0usize;
    loop {
        let tok = lex.next();
        count += 1;
        assert!(count <= input.len() + 1);
        if matches!(tok.kind, TokenKind::Null) {
            break;
        }
        assert!(!matches!(tok.kind, TokenKind::Invalid));
    }
    // Past termination every call keeps returning the terminal Null.
    for _ in 0..3 {
        let tok = lex.next();
        assert_eq!(tok.kind, TokenKind::Null);
        assert_eq!(tok.fmt_value(), "");
    }
}

#[test]
fn numeric_tie_break_trailing_dot() {
    let tokens = scan_all(b"3.");
    assert_eq!(
        kinds(&tokens),
        vec![TokenKind::Int, TokenKind::Ponct, TokenKind::Null]
    );
    assert_eq!(tokens[0].fmt_value(), "3");
    assert_eq!(tokens[1].fmt_value(), ".");
}

#[test]
fn numeric_tie_break_float() {
    let tokens = scan_all(b"3.5");
    assert_eq!(kinds(&tokens), vec![TokenKind::Float, TokenKind::Null]);
    assert_eq!(tokens[0].fmt_value(), "3.5");
}

#[test]
fn float_consumes_repeated_dots() {
    let tokens = scan_all(b"1.2.3");
    assert_eq!(kinds(&tokens), vec![TokenKind::Float, TokenKind::Null]);
    assert_eq!(tokens[0].fmt_value(), "1.2.3");
}

#[test]
fn double_dot_stays_punctuation() {
    let tokens = scan_all(b"3..5");
    assert_eq!(
        kinds(&tokens),
        vec![
            TokenKind::Int,
            TokenKind::Ponct,
            TokenKind::Ponct,
            TokenKind::Int,
            TokenKind::Null
        ]
    );
    assert_eq!(tokens[0].fmt_value(), "3");
    assert_eq!(tokens[1].fmt_value(), ".");
    assert_eq!(tokens[2].fmt_value(), ".");
    assert_eq!(tokens[3].fmt_value(), "5");
}

#[test]
fn identifier_digit_boundary() {
    let tokens = scan_all(b"abc123");
    assert_eq!(
        kinds(&tokens),
        vec![TokenKind::Identifier, TokenKind::Int, TokenKind::Null]
    );
    assert_eq!(tokens[0].fmt_value(), "abc");
    assert_eq!(tokens[1].fmt_value(), "123");
}

#[test]
fn identifier_takes_underscores() {
    let tokens = scan_all(b"_ab_C");
    assert_eq!(kinds(&tokens), vec![TokenKind::Identifier, TokenKind::Null]);
    assert_eq!(tokens[0].fmt_value(), "_ab_C");
}

#[test]
fn end_to_end_kind_sequence() {
    let tokens = scan_all(b"1 + 2 * 3 asdsda\n ds");
    assert_eq!(
        kinds(&tokens),
        vec![
            TokenKind::Int,
            TokenKind::Whitespace,
            TokenKind::Ponct,
            TokenKind::Whitespace,
            TokenKind::Int,
            TokenKind::Whitespace,
            TokenKind::Ponct,
            TokenKind::Whitespace,
            TokenKind::Int,
            TokenKind::Whitespace,
            TokenKind::Identifier,
            TokenKind::Whitespace,
            TokenKind::Identifier,
            TokenKind::Null
        ]
    );
    // The newline and the following space are absorbed into one token.
    assert_eq!(tokens[11].fmt_value(), "\n ");
}

#[test]
fn empty_input_yields_null() {
    let mut lex = Lexer::new(Vec::new());
    let tok = lex.next();
    assert_eq!(tok.kind, TokenKind::Null);
    assert_eq!(tok.fmt_value(), "");
    assert_eq!(tok.loc, (1, 1));
}

#[test]
fn invalid_control_byte_halts_scan() {
    let tokens = scan_all(b"ab\x01cd");
    assert_eq!(kinds(&tokens), vec![TokenKind::Identifier, TokenKind::Invalid]);
    assert_eq!(tokens[1].fmt_value(), "\u{1}");
    // Every later call yields Null, though well-formed bytes remain.
    let mut lex = Lexer::new(b"ab\x01cd".to_vec());
    lex.next();
    assert_eq!(lex.next().kind, TokenKind::Invalid);
    for _ in 0..4 {
        assert_eq!(lex.next().kind, TokenKind::Null);
    }
}

#[test]
fn non_ascii_byte_decodes_to_replacement() {
    let mut lex = Lexer::new(vec![0x80]);
    let tok = lex.next();
    assert_eq!(tok.kind, TokenKind::Invalid);
    assert_eq!(tok.fmt_value(), "\u{FFFD}");
    assert_eq!(lex.next().kind, TokenKind::Null);
}

#[test]
fn whitespace_counts_rows_not_columns() {
    let tokens = scan_all(b"a\nb");
    assert_eq!(
        kinds(&tokens),
        vec![
            TokenKind::Identifier,
            TokenKind::Whitespace,
            TokenKind::Identifier,
            TokenKind::Null
        ]
    );
    // loc is read after consumption; col counts every consumed byte and is
    // never reset by a newline, only row advances.
    assert_eq!(tokens[0].loc, (1, 2));
    assert_eq!(tokens[1].loc, (2, 3));
    assert_eq!(tokens[2].loc, (2, 4));
    assert_eq!(tokens[3].loc, (2, 4));
}

#[test]
fn form_feed_is_never_consumed() {
    // Form feed dispatches to the whitespace rule but is not part of a run:
    // the scanner yields empty Whitespace tokens without advancing.
    let mut lex = Lexer::new(vec![0x0c]);
    for _ in 0..2 {
        let tok = lex.next();
        assert_eq!(tok.kind, TokenKind::Whitespace);
        assert_eq!(tok.fmt_value(), "");
        assert_eq!(tok.loc, (1, 1));
    }
}

#[test]
fn display_rendering() {
    let tokens = scan_all(b"foo");
    let tok = &tokens[0];
    assert_eq!(tok.fmt_loc(), "1:4");
    assert_eq!(tok.fmt_kind(), "Identifier");
    assert_eq!(tok.fmt_value(), "foo");
    assert_eq!(tok.fmt_token(), "1:4 Identifier -> foo");
}

#[test]
fn display_rendering_multidigit() {
    let mut lex = Lexer::new(b"0123456789 x".to_vec());
    let tok = lex.next();
    assert_eq!(tok.fmt_loc(), "1:11");
    assert_eq!(tok.fmt_kind(), "Int");
    assert_eq!(tok.fmt_token(), "1:11 Int -> 0123456789");
}

#[test]
fn empty_token_placeholder() {
    let tok = Token::empty();
    assert_eq!(tok.kind, TokenKind::Null);
    assert_eq!(tok.fmt_value(), "");
    assert_eq!(tok.loc, (0, 0));
    assert_eq!(tok.fmt_kind(), "Null");
}

#[test]
fn from_args_joins_with_spaces() {
    let args = vec![b"ab".to_vec(), b"1".to_vec(), b"+".to_vec()];
    let mut lex = Lexer::from_args(args);
    let mut got = Vec::new();
    loop {
        let tok = lex.next();
        let done = matches!(tok.kind, TokenKind::Null | TokenKind::Invalid);
        got.push((tok.kind, tok.fmt_value()));
        if done {
            break;
        }
    }
    assert_eq!(
        got,
        vec![
            (TokenKind::Identifier, "ab".to_string()),
            (TokenKind::Whitespace, " ".to_string()),
            (TokenKind::Int, "1".to_string()),
            (TokenKind::Whitespace, " ".to_string()),
            (TokenKind::Ponct, "+".to_string()),
            (TokenKind::Null, "".to_string()),
        ]
    );
}

#[test]
fn from_args_empty_is_empty_buffer() {
    let mut lex = Lexer::from_args(Vec::new());
    assert_eq!(lex.next().kind, TokenKind::Null);
}

#[test]
fn token_clone_keeps_fields() {
    let tokens = scan_all(b"zz");
    let copy = tokens[0].clone();
    assert_eq!(copy, tokens[0]);
}
