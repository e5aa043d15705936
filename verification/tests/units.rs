//! Unit tests of the symbol table, the canonical types and the parser.

use snlc::ast::{Positional, SNLBaseType};
use snlc::canonical::{clone_canonical, type_equal, CanonicalType, RecordField};
use snlc::lexer::read_tokens;
use snlc::parser::Parser;
use snlc::symbol::{Symbol, SymbolTable};

#[test]
fn symbol_table_scoping_and_shadowing() {
    let mut table: SymbolTable<Symbol> = SymbolTable::new();
    assert_eq!(table.level(), 1);
    table.insert("x".to_owned(), Symbol::Variable(CanonicalType::Integer));
    assert!(table.has_own_property("x"));
    assert!(!table.has_own_property("y"));
    table.step_in();
    assert_eq!(table.level(), 2);
    assert!(!table.has_own_property("x"));
    assert_eq!(
        table.query("x"),
        Some(&Symbol::Variable(CanonicalType::Integer))
    );
    table.insert("x".to_owned(), Symbol::Variable(CanonicalType::Char));
    assert_eq!(
        table.query("x"),
        Some(&Symbol::Variable(CanonicalType::Char))
    );
    let popped = table.step_out();
    assert_eq!(popped.len(), 1);
    assert_eq!(table.level(), 1);
    assert_eq!(
        table.query("x"),
        Some(&Symbol::Variable(CanonicalType::Integer))
    );
    assert_eq!(table.query("y"), None);
}

#[test]
fn query_at_limits_the_scopes_searched() {
    let mut table: SymbolTable<Symbol> = SymbolTable::new();
    table.insert("x".to_owned(), Symbol::Variable(CanonicalType::Integer));
    table.step_in();
    assert_eq!(table.query_at("x", 1), Some(&Symbol::Variable(CanonicalType::Integer)));
    assert_eq!(table.query_at("x", 0), None);
}

#[test]
fn record_compatibility_ignores_field_order() {
    let ab = CanonicalType::Record(vec![
        RecordField { name: "a".to_owned(), field_type: CanonicalType::Integer },
        RecordField { name: "b".to_owned(), field_type: CanonicalType::Char },
    ]);
    let ba = CanonicalType::Record(vec![
        RecordField { name: "b".to_owned(), field_type: CanonicalType::Char },
        RecordField { name: "a".to_owned(), field_type: CanonicalType::Integer },
    ]);
    assert!(type_equal(&ab, &ba));
    let other = CanonicalType::Record(vec![
        RecordField { name: "a".to_owned(), field_type: CanonicalType::Integer },
    ]);
    assert!(!type_equal(&ab, &other));
}

#[test]
fn unknown_is_compatible_with_everything() {
    assert!(type_equal(&CanonicalType::Unknown, &CanonicalType::Integer));
    assert!(type_equal(&CanonicalType::Char, &CanonicalType::Unknown));
    assert!(!type_equal(&CanonicalType::Char, &CanonicalType::Integer));
}

#[test]
fn arrays_compare_on_base_and_bounds() {
    let a = CanonicalType::Array {
        base: SNLBaseType::Integer,
        lower_bound: 0,
        upper_bound: 5,
    };
    let same = CanonicalType::Array {
        base: SNLBaseType::Integer,
        lower_bound: 0,
        upper_bound: 5,
    };
    let other = CanonicalType::Array {
        base: SNLBaseType::Integer,
        lower_bound: 1,
        upper_bound: 5,
    };
    assert!(type_equal(&a, &same));
    assert!(!type_equal(&a, &other));
    assert_eq!(clone_canonical(&a), a);
}

#[test]
fn parser_builds_the_expected_shape() {
    let tokens = read_tokens(
        "program demo type t = integer; var t v; begin v:=1+2*3; write(v) end.",
    )
    .unwrap();
    let mut parser = Parser::new(tokens);
    let program = parser.parse().unwrap();
    assert_eq!(program.name, "demo");
    assert_eq!(program.declare.type_declare.len(), 1);
    assert_eq!(program.declare.type_declare[0].inner.name, "t");
    assert_eq!(program.declare.variable_declare.len(), 1);
    assert_eq!(program.body.len(), 2);
}

#[test]
fn parser_rejects_missing_assign_value() {
    let tokens = read_tokens("program p var integer x; begin x:= end.").unwrap();
    let mut parser = Parser::new(tokens);
    assert!(parser.parse().is_err());
}

#[test]
fn positional_wraps_and_unwraps() {
    let p = Positional::new(3, 7, "v".to_owned());
    assert_eq!(p.position(), (3, 7));
    assert_eq!(p.inner(), "v");
    assert_eq!(p.into_inner(), "v");
    let d = Positional::dump(5u32);
    assert_eq!(d.position(), (0, 0));
}
