use atomcc::token::{Keyword, Op, Par, Brace, TokenKind};
use atomcc::token::TokenKind as TK;
use atomcc::tokenizer::tokenize;

fn kinds(input: &str) -> Vec<TokenKind<'_>> {
    let mut stream = tokenize(input.as_bytes());
    let mut out = Vec::new();
    loop {
        match stream.next() {
            Ok(Some(tok)) => out.push(tok.kind),
            Ok(None) => break,
            Err(pos) => panic!("lexical failure at {}", pos),
        }
    }
    out
}

fn assert_tk(input: &str, expected: Vec<TokenKind<'_>>) {
    assert_eq!(kinds(input), expected);
}

#[test]
fn tokenizer_tests() {
    assert_tk("", vec![]);
    assert_tk("   ", vec![]);
    assert_tk("42", vec![TK::Num(42)]);
    assert_tk("-42", vec![TK::Op(Op::Sub), TK::Num(42)]);
    assert_tk("   42   ", vec![TK::Num(42)]);
    assert_tk("42+2", vec![TK::Num(42), TK::Op(Op::Add), TK::Num(2)]);
    assert_tk("ho_ge", vec![TK::Ident(b"ho_ge")]);
    assert_tk("hoge42", vec![TK::Ident(b"hoge42")]);
    assert_tk("i<3", vec![TK::Ident(b"i"), TK::Op(Op::Lt), TK::Num(3)]);
    assert_tk(
        "hoge+42",
        vec![TK::Ident(b"hoge"), TK::Op(Op::Add), TK::Num(42)],
    );
    assert_tk(
        "hoge=42",
        vec![TK::Ident(b"hoge"), TK::Op(Op::Assign), TK::Num(42)],
    );
    assert_tk(
        "if(42",
        vec![
            TK::Keyword(Keyword::If),
            TK::Par(Par::Left),
            TK::Num(42),
        ],
    );
    assert_tk("hoge;", vec![TK::Ident(b"hoge"), TK::Keyword(Keyword::Semi)]);
    assert_tk(
        ")else hoge",
        vec![
            TK::Par(Par::Right),
            TK::Keyword(Keyword::Else),
            TK::Ident(b"hoge"),
        ],
    );
    assert_tk(
        "while (",
        vec![TK::Keyword(Keyword::While), TK::Par(Par::Left)],
    );
}

#[test]
fn token_kind_test() {
    assert_tk("", vec![]);
    assert_tk("   ", vec![]);
    assert_tk("42", vec![TK::Num(42)]);
    assert_tk("(", vec![TK::Par(Par::Left)]);
    assert_tk("}", vec![TK::Brace(Brace::Right)]);
    assert_tk("-42", vec![TK::Op(Op::Sub), TK::Num(42)]);
    assert_tk("   42   ", vec![TK::Num(42)]);
    assert_tk("42+2", vec![TK::Num(42), TK::Op(Op::Add), TK::Num(2)]);
    assert_tk("ho_ge", vec![TK::Ident(b"ho_ge")]);
    assert_tk("hoge42", vec![TK::Ident(b"hoge42")]);
    assert_tk("i<3", vec![TK::Ident(b"i"), TK::Op(Op::Lt), TK::Num(3)]);
    assert_tk(
        "hoge+42",
        vec![TK::Ident(b"hoge"), TK::Op(Op::Add), TK::Num(42)],
    );
    assert_tk(
        "hoge=42",
        vec![TK::Ident(b"hoge"), TK::Op(Op::Assign), TK::Num(42)],
    );
    assert_tk(
        "if(42",
        vec![
            TK::Keyword(Keyword::If),
            TK::Par(Par::Left),
            TK::Num(42),
        ],
    );
    assert_tk("hoge;", vec![TK::Ident(b"hoge"), TK::Keyword(Keyword::Semi)]);
    assert_tk(
        ")else hoge",
        vec![
            TK::Par(Par::Right),
            TK::Keyword(Keyword::Else),
            TK::Ident(b"hoge"),
        ],
    );
    assert_tk(
        "while (",
        vec![TK::Keyword(Keyword::While), TK::Par(Par::Left)],
    );
}

#[test]
fn two_char_operators_win_over_one_char() {
    assert_tk(
        "a<=b",
        vec![TK::Ident(b"a"), TK::Op(Op::Lte), TK::Ident(b"b")],
    );
    assert_tk(
        "a>=b",
        vec![TK::Ident(b"a"), TK::Op(Op::Gte), TK::Ident(b"b")],
    );
    assert_tk("1==2", vec![TK::Num(1), TK::Op(Op::Eq), TK::Num(2)]);
    assert_tk("1!=2", vec![TK::Num(1), TK::Op(Op::Neq), TK::Num(2)]);
}

#[test]
fn token_positions_are_strictly_increasing() {
    let src = b"  a = 4; while (a < 3) { a = a + 1; }";
    let mut stream = tokenize(src);
    let mut last: Option<usize> = None;
    while let Ok(Some(tok)) = stream.next() {
        if let Some(prev) = last {
            assert!(prev < tok.pos);
        }
        last = Some(tok.pos);
    }
}

#[test]
fn tokenizer_is_deterministic() {
    let src = b"a = 4; b = a * 2; return b;";
    let one = {
        let mut s = tokenize(src);
        let mut v = Vec::new();
        while let Ok(Some(t)) = s.next() {
            v.push(t);
        }
        v
    };
    let two = {
        let mut s = tokenize(src);
        let mut v = Vec::new();
        while let Ok(Some(t)) = s.next() {
            v.push(t);
        }
        v
    };
    assert_eq!(one, two);
}

#[test]
fn peek_does_not_advance() {
    let src = b"1 + 2";
    let stream = tokenize(src);
    let a = stream.peek().unwrap().unwrap();
    let b = stream.peek().unwrap().unwrap();
    assert_eq!(a, b);
    assert_eq!(stream.pos, 0);
}

#[test]
fn lexical_failure_at_stray_byte() {
    let mut stream = tokenize(b"@;");
    assert_eq!(stream.next(), Err(0));
}

#[test]
fn number_overflow_is_a_lexical_failure() {
    let mut stream = tokenize(b"99999999999999999999999999;");
    assert_eq!(stream.next(), Err(0));
}
