use midl_parser::lexer::token::{ParserLanguage, StrLit};
use midl_parser::lexer::tokenizer::{Tokenizer, TokenizerError};

type TokenizerResult<R> = Result<R, TokenizerError>;

fn tokenize<P, R>(input: &str, what: P) -> R
where
    P: FnOnce(&mut Tokenizer) -> TokenizerResult<R>,
{
    let mut tokenizer = Tokenizer::new(input, ParserLanguage::Proto);
    let r = what(&mut tokenizer).expect(&format!("parse failed at {:?}", tokenizer.loc()));
    let eof = tokenizer
        .syntax_eof()
        .expect(&format!("check eof failed at {:?}", tokenizer.loc()));
    assert!(eof, "{:?}", tokenizer.loc());
    r
}

#[test]
fn test_ident() {
    let msg = r#"  aabb_c  "#;
    let mess = tokenize(msg, |p| p.next_ident().map(|s| s.to_owned()));
    assert_eq!("aabb_c", mess);
}

#[test]
fn test_str_lit() {
    let msg = r#"  "a\nb"  "#;
    let mess = tokenize(msg, |p| p.next_str_lit());
    assert_eq!(
        StrLit {
            escaped: r#"a\nb"#.to_owned()
        },
        mess
    );
}
