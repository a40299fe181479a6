use midl_parser::lexer::chars::{char_is_whitespace, CharClass};
use midl_parser::lexer::float::{float_form, FloatForm, ProtobufFloatParseError};
use midl_parser::lexer::ints::{neg, Overflow};
use midl_parser::lexer::lexer_impl::{lex_all, Lexer};
use midl_parser::lexer::loc::Loc;
use midl_parser::lexer::token::{
    LexerError, NumLit, ParserLanguage, StrLit, StrLitDecodeError, Token,
};

fn tokens_of(input: &str) -> Vec<Token> {
    let lexed = lex_all(input, ParserLanguage::Proto);
    assert_eq!(lexed.error, None, "lexing {:?}", input);
    lexed.tokens.into_iter().map(|t| t.token).collect()
}

fn error_of(input: &str) -> LexerError {
    lex_all(input, ParserLanguage::Proto).error.expect("a lexer error")
}

#[test]
fn lexes_identifiers() {
    assert_eq!(
        tokens_of("abc _x9 A_b"),
        vec![
            Token::Ident("abc".to_string()),
            Token::Ident("_x9".to_string()),
            Token::Ident("A_b".to_string()),
        ]
    );
}

#[test]
fn lexes_decimal_hex_and_octal_integers() {
    assert_eq!(tokens_of("0"), vec![Token::IntLit(0)]);
    assert_eq!(tokens_of("10"), vec![Token::IntLit(10)]);
    assert_eq!(tokens_of("0x1F"), vec![Token::IntLit(31)]);
    assert_eq!(tokens_of("0Xff"), vec![Token::IntLit(255)]);
    assert_eq!(tokens_of("017"), vec![Token::IntLit(15)]);
    assert_eq!(
        tokens_of("18446744073709551615"),
        vec![Token::IntLit(u64::MAX)]
    );
    assert_eq!(
        tokens_of("0xffffffffffffffff"),
        vec![Token::IntLit(u64::MAX)]
    );
}

#[test]
fn rejects_malformed_integers() {
    assert_eq!(error_of("18446744073709551616"), LexerError::ParseIntError);
    assert_eq!(error_of("0x"), LexerError::ParseIntError);
    assert_eq!(error_of("0x10000000000000000"), LexerError::ParseIntError);
    assert_eq!(error_of("08"), LexerError::ParseIntError);
}

#[test]
fn lexes_float_literals_as_written() {
    assert_eq!(tokens_of("1.5"), vec![Token::FloatLit("1.5".to_string())]);
    assert_eq!(tokens_of(".5"), vec![Token::FloatLit(".5".to_string())]);
    assert_eq!(tokens_of("1e10"), vec![Token::FloatLit("1e10".to_string())]);
    assert_eq!(
        tokens_of("2.25E-3"),
        vec![Token::FloatLit("2.25E-3".to_string())]
    );
    assert_eq!(tokens_of("inf"), vec![Token::FloatLit("inf".to_string())]);
    assert_eq!(tokens_of("nan"), vec![Token::FloatLit("nan".to_string())]);
    assert_eq!(tokens_of("info"), vec![Token::Ident("info".to_string())]);
}

#[test]
fn a_number_without_fraction_digits_is_an_integer_and_a_dot() {
    assert_eq!(tokens_of("1."), vec![Token::IntLit(1), Token::Symbol('.')]);
    assert_eq!(
        tokens_of("1e"),
        vec![Token::IntLit(1), Token::Ident("e".to_string())]
    );
}

#[test]
fn lexes_symbols_and_double_symbols() {
    assert_eq!(
        tokens_of("{ } ; :: -> - > : ="),
        vec![
            Token::Symbol('{'),
            Token::Symbol('}'),
            Token::Symbol(';'),
            Token::DoubleColon,
            Token::FnReturns,
            Token::Symbol('-'),
            Token::Symbol('>'),
            Token::Symbol(':'),
            Token::Symbol('='),
        ]
    );
}

#[test]
fn keeps_string_literals_escaped() {
    assert_eq!(
        tokens_of(r#""a\nb" 'c\'d'"#),
        vec![Token::StrLit(StrLit {
            escaped: r#"a\nbc\'d"#.to_string()
        })]
    );
    assert_eq!(
        tokens_of(r#""a" x "b""#),
        vec![
            Token::StrLit(StrLit {
                escaped: "a".to_string()
            }),
            Token::Ident("x".to_string()),
            Token::StrLit(StrLit {
                escaped: "b".to_string()
            }),
        ]
    );
}

#[test]
fn joins_adjacent_string_literals_across_comments() {
    assert_eq!(
        tokens_of("\"ab\" /* c */ \n 'cd' // e"),
        vec![Token::StrLit(StrLit {
            escaped: "abcd".to_string()
        })]
    );
}

#[test]
fn rejects_malformed_string_literals() {
    assert_eq!(error_of("\"abc"), LexerError::UnexpectedEof);
    assert_eq!(error_of("\"ab\nc\""), LexerError::IncorrectInput);
    assert_eq!(error_of("\"a\\"), LexerError::UnexpectedEof);
    assert_eq!(error_of(r#""\xZ1""#), LexerError::ExpectHexDigit);
    assert_eq!(error_of(r#""\x1"#), LexerError::UnexpectedEof);
    assert_eq!(error_of(r#""\777""#), LexerError::IncorrectInput);
}

#[test]
fn rejects_an_illegal_character() {
    assert_eq!(error_of("a \u{1} b"), LexerError::IncorrectInput);
    assert_eq!(error_of("é"), LexerError::IncorrectInput);
}

#[test]
fn skips_comments_of_the_schema_language() {
    assert_eq!(
        tokens_of("a // x y z\n b /* c \n d */ e"),
        vec![
            Token::Ident("a".to_string()),
            Token::Ident("b".to_string()),
            Token::Ident("e".to_string()),
        ]
    );
    assert_eq!(error_of("a /* never closed"), LexerError::UnexpectedEof);
    assert_eq!(tokens_of("a //"), vec![Token::Ident("a".to_string())]);
}

#[test]
fn the_comment_style_is_selectable() {
    let text = lex_all("a # b\n c", ParserLanguage::TextFormat);
    assert_eq!(text.error, None);
    assert_eq!(text.tokens.len(), 2);
    let proto = lex_all("a # b\n c", ParserLanguage::Proto);
    assert_eq!(proto.tokens.len(), 4);
    let slashes = lex_all("a // b\n c", ParserLanguage::TextFormat);
    assert_eq!(slashes.tokens.len(), 5);
}

#[test]
fn tokens_carry_their_position() {
    let lexed = lex_all("ab\n  cd /* x\n y */ ef", ParserLanguage::Proto);
    let locs: Vec<Loc> = lexed.tokens.iter().map(|t| t.loc).collect();
    assert_eq!(
        locs,
        vec![
            Loc { line: 1, col: 1 },
            Loc { line: 2, col: 3 },
            Loc { line: 3, col: 7 },
        ]
    );
    assert_eq!(lexed.end, Loc { line: 3, col: 9 });
}

#[test]
fn columns_count_characters_not_bytes() {
    let lexed = lex_all("/* é */ a", ParserLanguage::Proto);
    assert_eq!(lexed.tokens[0].loc, Loc { line: 1, col: 9 });
}

#[test]
fn the_lexer_hands_out_one_token_at_a_time() {
    let mut lexer = Lexer::new(" a 1 ", ParserLanguage::Proto);
    assert_eq!(lexer.loc(), Loc::start());
    assert!(!lexer.eof());
    let first = lexer.next_token().unwrap().unwrap();
    assert_eq!(first.token, Token::Ident("a".to_string()));
    assert_eq!(first.loc, Loc { line: 1, col: 2 });
    assert_eq!(lexer.loc(), Loc { line: 1, col: 4 });
    let second = lexer.next_token().unwrap().unwrap();
    assert_eq!(second.token, Token::IntLit(1));
    assert!(lexer.eof());
    assert_eq!(lexer.next_token(), Ok(None));
}

#[test]
fn after_an_error_the_lexer_stands_where_it_gave_up() {
    let mut lexer = Lexer::new("  \"ab", ParserLanguage::Proto);
    assert_eq!(lexer.next_token(), Err(LexerError::UnexpectedEof));
    assert_eq!(lexer.loc(), Loc { line: 1, col: 6 });
}

#[test]
fn positions_step_over_line_feeds() {
    let loc = Loc { line: 4, col: 9 };
    assert_eq!(loc.step('x'), Loc { line: 4, col: 10 });
    assert_eq!(loc.step('\n'), Loc { line: 5, col: 1 });
    let last = Loc {
        line: u32::MAX,
        col: u32::MAX,
    };
    assert_eq!(last.step('x'), last);
    assert_eq!(
        last.step('\n'),
        Loc {
            line: u32::MAX,
            col: 1
        }
    );
}

#[test]
fn decodes_string_literals() {
    let lit = StrLit {
        escaped: r#"a\nb\t\x41\101\\\"\'\q"#.to_string(),
    };
    assert_eq!(lit.decode_utf8(), Ok("a\nb\tAA\\\"'q".to_string()));
    assert_eq!(lit.quoted(), r#""a\nb\t\x41\101\\\"\'\q""#);
    let bytes = StrLit {
        escaped: r#"\xc3\xa9é\0"#.to_string(),
    };
    assert_eq!(bytes.decode_utf8(), Ok("éé\0".to_string()));
    assert_eq!(
        bytes.decode_bytes(),
        Ok(vec![0xc3, 0xa9, 0xc3, 0xa9, 0])
    );
}

#[test]
fn rejects_literals_that_do_not_decode() {
    let not_utf8 = StrLit {
        escaped: r#"\xff"#.to_string(),
    };
    assert_eq!(not_utf8.decode_bytes(), Ok(vec![0xff]));
    assert_eq!(
        not_utf8.decode_utf8(),
        Err(StrLitDecodeError::FromUtf8Error)
    );
    let bad_escape = StrLit {
        escaped: r#"a\x4"#.to_string(),
    };
    assert_eq!(bad_escape.decode_utf8(), Err(StrLitDecodeError::OtherError));
    let too_large = StrLit {
        escaped: r#"\400"#.to_string(),
    };
    assert_eq!(too_large.decode_bytes(), Err(StrLitDecodeError::OtherError));
    let largest = StrLit {
        escaped: r#"\377"#.to_string(),
    };
    assert_eq!(largest.decode_bytes(), Ok(vec![0xff]));
}

#[test]
fn negates_with_overflow_check() {
    assert_eq!(neg(0), Ok(0));
    assert_eq!(neg(33), Ok(-33));
    assert_eq!(neg(0x7fff_ffff_ffff_ffff), Ok(-0x7fff_ffff_ffff_ffff));
    assert_eq!(neg(0x8000_0000_0000_0000), Ok(i64::MIN));
    assert_eq!(neg(0x8000_0000_0000_0001), Err(Overflow));
}

#[test]
fn numeric_tokens_are_numeric_literals() {
    assert_eq!(Token::IntLit(7).to_num_lit(), Ok(NumLit::U64(7)));
    assert_eq!(
        Token::FloatLit("1.5".to_string()).to_num_lit(),
        Ok(NumLit::F64("1.5".to_string()))
    );
    assert_eq!(
        Token::Symbol('+').to_num_lit(),
        Err(LexerError::IncorrectInput)
    );
}

#[test]
fn tells_the_words_for_numbers_that_are_not_finite() {
    assert_eq!(float_form(""), Err(ProtobufFloatParseError::EmptyString));
    assert_eq!(float_form("nan"), Ok(FloatForm::Nan));
    assert_eq!(float_form("inf"), Ok(FloatForm::Infinity));
    assert_eq!(float_form("+inf"), Ok(FloatForm::Infinity));
    assert_eq!(float_form("-inf"), Ok(FloatForm::NegInfinity));
    assert_eq!(float_form("1.5"), Ok(FloatForm::Decimal));
    assert_eq!(float_form("-nan"), Ok(FloatForm::Decimal));
}

#[test]
fn white_space_is_what_unicode_says() {
    for c in ['\t', '\n', '\u{b}', '\u{c}', '\r', ' ', '\u{85}', '\u{a0}', '\u{2003}', '\u{3000}'] {
        assert!(char_is_whitespace(c), "{:?}", c);
        assert!(CharClass::Whitespace.has(c));
        assert!(c.is_whitespace());
    }
    for c in ['a', '0', '_', '\u{200b}', '\u{feff}'] {
        assert!(!char_is_whitespace(c), "{:?}", c);
        assert!(!c.is_whitespace());
    }
}

#[test]
fn white_space_agrees_with_std_on_every_character() {
    let mut n: u32 = 0;
    while n <= 0x10ffff {
        if let Some(c) = char::from_u32(n) {
            assert_eq!(char_is_whitespace(c), c.is_whitespace(), "{:x}", n);
        }
        n += 1;
    }
}

#[test]
fn a_literal_without_escapes_stands_for_itself() {
    for text in ["", "abc", "path/to/file.midl", "\"quoted\" 'both'", "żółć ☃"] {
        let lit = StrLit {
            escaped: text.to_string(),
        };
        assert_eq!(lit.decode_utf8(), Ok(text.to_string()));
        assert_eq!(lit.decode_bytes(), Ok(text.as_bytes().to_vec()));
    }
}

#[test]
fn words_make_identifiers() {
    let lexed = lex_all("_ a1 A_b9 x.y nanx inf_ nan inf", ParserLanguage::Proto);
    let words: Vec<String> = lexed
        .tokens
        .iter()
        .filter_map(|t| match &t.token {
            Token::Ident(w) => Some(w.clone()),
            _ => None,
        })
        .collect();
    assert_eq!(words, vec!["_", "a1", "A_b9", "x", "y", "nanx", "inf_"]);
    assert_eq!(lexed.tokens.len(), 10);
}
