//! Tests of the lexer and of the textual type signatures.

use snlc::ast::{Positional, SNLBaseType, SNLType, SNLTypeArray, TypedIdentifiers};
use snlc::lexer::read_tokens;
use snlc::token::TokenType;

#[test]
fn test_read_token() {
    let result = read_tokens(
        r#"program p
  type t = integer;
  var t    v1;
      char v2;
  begin
    read(v1);
    v1 := v1 + 10;
    write(v1);
end."#,
    )
    .unwrap();
    for token in result {
        println!("{}\t{:?}", token.line, token.token_type);
    }
}

#[test]
fn models_test_type_to_signature() {
    assert_eq!(SNLType::Integer.to_string(), "integer");
    assert_eq!(SNLType::Char.to_string(), "char");
    assert_eq!(SNLType::Others("others".to_owned()).to_string(), "#others");
    assert_eq!(
        SNLType::Array(SNLTypeArray {
            base: SNLBaseType::Integer,
            lower_bound: 0,
            upper_bound: 10,
        })
        .to_string(),
        "[0..10;integer]"
    );
    assert_eq!(
        SNLType::Record(vec![
            TypedIdentifiers {
                typename: SNLType::Integer,
                identifiers: vec![
                    Positional::dump("a".to_owned()),
                    Positional::dump("c".to_owned())
                ],
            },
            TypedIdentifiers {
                typename: SNLType::Integer,
                identifiers: vec![Positional::dump("b".to_owned())]
            },
        ])
        .to_string(),
        "{a,b,c:integer}"
    );
}

#[test]
fn models_test_type_from_signature() {
    assert_eq!(SNLType::Integer, SNLType::from_str("integer").unwrap());
    assert_eq!(SNLType::Char, SNLType::from_str("char").unwrap());
    assert_eq!(
        SNLType::Others("test".to_owned()),
        SNLType::from_str("#test").unwrap()
    );
    assert_eq!(
        SNLType::Array(SNLTypeArray {
            base: SNLBaseType::Integer,
            lower_bound: 0,
            upper_bound: 10,
        }),
        SNLType::from_str("[0..10;integer]").unwrap()
    );
}

#[test]
fn lexer_classifies_every_token_kind() {
    let tokens = read_tokens("begin x := ab1 + 2 * (3 - 4) / 5 end.").unwrap();
    let kinds: Vec<TokenType> = tokens.iter().map(|t| t.token_type).collect();
    assert_eq!(
        kinds,
        vec![
            TokenType::Begin,
            TokenType::Identifer,
            TokenType::Assign,
            TokenType::Identifer,
            TokenType::Add,
            TokenType::Int,
            TokenType::Multiply,
            TokenType::BracketOpen,
            TokenType::Int,
            TokenType::Minus,
            TokenType::Int,
            TokenType::BracketClose,
            TokenType::Divide,
            TokenType::Int,
            TokenType::End,
            TokenType::Dot,
            TokenType::EOF,
        ]
    );
}

#[test]
fn lexer_skips_comments_and_rejects_bad_assign() {
    let tokens = read_tokens("x { this is a comment } y").unwrap();
    assert_eq!(tokens.len(), 3);
    assert_eq!(tokens[0].image, "x");
    assert_eq!(tokens[1].image, "y");
    assert!(read_tokens("x : y").is_err());
}

#[test]
fn record_signature_groups_by_type_and_sorts() {
    let ty = SNLType::Record(vec![
        TypedIdentifiers {
            typename: SNLType::Char,
            identifiers: vec![Positional::dump("z".to_owned())],
        },
        TypedIdentifiers {
            typename: SNLType::Integer,
            identifiers: vec![Positional::dump("b".to_owned())],
        },
        TypedIdentifiers {
            typename: SNLType::Char,
            identifiers: vec![Positional::dump("a".to_owned())],
        },
    ]);
    assert_eq!(ty.to_string(), "{a,z:char;b:integer}");
}
