//! End-to-end scenarios: source text through the lexer, the parser and the
//! semantic analysis, with the expected diagnostics.

use snlc::ast::Positional;
use snlc::canonical::CanonicalType;
use snlc::error::Error;
use snlc::lexer::read_tokens;
use snlc::parser::Parser;
use snlc::semantic::Semantic;

fn analyze_source(src: &str) -> Vec<Positional<Error>> {
    let tokens = read_tokens(src).unwrap();
    let mut parser = Parser::new(tokens);
    let ast = parser.parse().unwrap();
    Semantic::new(Positional::dump(ast)).analyze()
}

#[test]
fn valid_program_has_no_diagnostics() {
    let errors = analyze_source("program p var integer x; begin x:=1; write(x) end.");
    assert!(errors.is_empty());
}

#[test]
fn assign_mismatch_expected_then_got() {
    let errors = analyze_source("program p var integer x; char y; begin x:=y end.");
    assert_eq!(errors.len(), 1);
    assert_eq!(
        *errors[0].inner(),
        Error::AssignTypeMismatch {
            expected: CanonicalType::Integer,
            got: CanonicalType::Char,
        }
    );
}

#[test]
fn reversed_array_bounds_are_invalid() {
    let errors =
        analyze_source("program p type t=array[3..1] of integer; var integer x; begin x:=1 end.");
    assert_eq!(errors.len(), 1);
    assert_eq!(*errors[0].inner(), Error::InvalidArrayDefinition);
}

#[test]
fn valid_array_bounds_pass() {
    let errors =
        analyze_source("program p type t=array[0..5] of integer; var integer x; begin x:=1 end.");
    assert!(errors.is_empty());
}

#[test]
fn undefined_identifier_in_write_does_not_cascade() {
    let errors = analyze_source("program p begin write(z) end.");
    assert_eq!(errors.len(), 1);
    assert_eq!(
        *errors[0].inner(),
        Error::UndefinedIdentifier("z".to_owned())
    );
}

#[test]
fn call_with_missing_argument_is_an_arity_error() {
    let errors =
        analyze_source("program p procedure f(var integer a); begin a:=1 end begin f() end.");
    assert_eq!(errors.len(), 1);
    assert_eq!(
        *errors[0].inner(),
        Error::CallParameterCountMismatch { expected: 1, got: 0 }
    );
}

#[test]
fn call_with_wrong_argument_type() {
    let errors = analyze_source(
        "program p var char c; procedure f(integer a); begin a:=1 end begin f(c) end.",
    );
    assert_eq!(errors.len(), 1);
    assert_eq!(
        *errors[0].inner(),
        Error::CallParameterTypeMismatch {
            expected: CanonicalType::Integer,
            got: CanonicalType::Char,
        }
    );
}

#[test]
fn duplicate_variable_reported_once_at_second() {
    let errors = analyze_source("program p var integer x; char x; begin x:=1 end.");
    assert_eq!(errors.len(), 1);
    assert_eq!(
        *errors[0].inner(),
        Error::DuplicatedIdentifier("x".to_owned())
    );
}

#[test]
fn shadowing_in_procedure_is_no_duplicate() {
    let errors = analyze_source(
        "program p var integer x; procedure f(); var char x; begin x:=x end begin x:=1 end.",
    );
    assert!(errors.is_empty());
}

#[test]
fn name_declared_inside_procedure_vanishes_after_it() {
    let errors = analyze_source(
        "program p procedure f(); var integer y; begin y:=1 end begin y:=2 end.",
    );
    assert_eq!(errors.len(), 2);
    assert_eq!(
        *errors[0].inner(),
        Error::UndefinedIdentifier("y".to_owned())
    );
    assert_eq!(*errors[1].inner(), Error::InvalidAssignee);
}

#[test]
fn equivalent_record_groupings_are_one_type() {
    let errors = analyze_source(
        "program p \
         type r1 = record integer a; integer b; end; \
              r2 = record integer a,b; end; \
         var r1 u; r2 v; \
         begin u:=v end.",
    );
    assert!(errors.is_empty());
}

#[test]
fn records_with_different_fields_do_not_assign() {
    let errors = analyze_source(
        "program p \
         type r1 = record integer a; end; \
              r2 = record integer b; end; \
         var r1 u; r2 v; \
         begin u:=v end.",
    );
    assert_eq!(errors.len(), 1);
    assert!(matches!(
        errors[0].inner(),
        Error::AssignTypeMismatch { .. }
    ));
}

#[test]
fn undefined_type_name_is_reported() {
    let errors = analyze_source("program p var t x; begin write(x) end.");
    assert_eq!(errors.len(), 1);
    assert_eq!(*errors[0].inner(), Error::UndefinedType("t".to_owned()));
}

#[test]
fn read_accepts_only_scalars() {
    let errors = analyze_source(
        "program p type t=array[0..5] of integer; var t a; begin read(a) end.",
    );
    assert_eq!(errors.len(), 1);
    assert!(matches!(errors[0].inner(), Error::InvalidReadType(_)));
}

#[test]
fn write_rejects_record_values() {
    let errors = analyze_source(
        "program p type r = record integer a; end; var r v; begin write(v) end.",
    );
    assert_eq!(errors.len(), 1);
    assert!(matches!(errors[0].inner(), Error::InvalidWriteType(_)));
}

#[test]
fn relation_operands_must_be_scalar() {
    let errors = analyze_source(
        "program p type r = record integer a; end; var r v; integer x; \
         begin if v < 1 then x:=1 else x:=2 fi end.",
    );
    assert_eq!(errors.len(), 1);
    assert_eq!(*errors[0].inner(), Error::InvalidBoolExpression);
}

#[test]
fn indexing_a_non_array_is_flagged() {
    let errors = analyze_source("program p var integer x; begin x:=x[1] end.");
    assert_eq!(errors.len(), 1);
    assert_eq!(*errors[0].inner(), Error::UnexpectedArrayIndex);
}

#[test]
fn field_access_needs_a_record() {
    let errors = analyze_source("program p var integer x; begin x:=x.f end.");
    assert_eq!(errors.len(), 1);
    assert!(matches!(errors[0].inner(), Error::InvalidFieldIndexType(_)));
}

#[test]
fn missing_record_field_is_flagged() {
    let errors = analyze_source(
        "program p type r = record integer a; end; var r v; integer x; begin x:=v.b end.",
    );
    assert_eq!(errors.len(), 1);
    assert_eq!(
        *errors[0].inner(),
        Error::UndefinedRecordField("b".to_owned())
    );
}

#[test]
fn record_field_and_index_narrow_types() {
    let errors = analyze_source(
        "program p \
         type r = record array[0..5] of char a; end; \
         var r v; char c; integer i; \
         begin c:=v.a[i] end.",
    );
    assert!(errors.is_empty());
}

#[test]
fn array_index_must_be_integer() {
    let errors = analyze_source(
        "program p type t=array[0..5] of integer; var t a; char c; integer x; \
         begin x:=a[c] end.",
    );
    assert_eq!(errors.len(), 1);
    assert_eq!(
        *errors[0].inner(),
        Error::UncompatableType {
            expected: CanonicalType::Integer,
            got: CanonicalType::Char,
        }
    );
}

#[test]
fn mixed_operand_types_in_expression() {
    let errors = analyze_source(
        "program p var integer x; char y; begin write(x+y) end.",
    );
    assert_eq!(errors.len(), 1);
    assert_eq!(
        *errors[0].inner(),
        Error::UncompatableType {
            expected: CanonicalType::Integer,
            got: CanonicalType::Char,
        }
    );
}

#[test]
fn calling_a_variable_is_not_a_call() {
    let errors = analyze_source("program p var integer x; begin x() end.");
    assert_eq!(errors.len(), 1);
    assert_eq!(
        *errors[0].inner(),
        Error::UncompatableType {
            expected: CanonicalType::Unknown,
            got: CanonicalType::Integer,
        }
    );
}

#[test]
fn type_name_used_as_variable() {
    let errors = analyze_source("program p type t = integer; var integer x; begin x:=t end.");
    assert_eq!(errors.len(), 1);
    assert!(matches!(
        errors[0].inner(),
        Error::InvalidVariableRepresent(_)
    ));
}

#[test]
fn recursive_procedure_sees_itself() {
    let errors =
        analyze_source("program p procedure f(); begin f() end begin f() end.");
    assert!(errors.is_empty());
}

#[test]
fn duplicate_record_field_is_flagged() {
    let errors = analyze_source(
        "program p type r = record integer a; char a; end; var integer x; begin x:=1 end.",
    );
    assert_eq!(errors.len(), 1);
    assert_eq!(
        *errors[0].inner(),
        Error::DuplicatedIdentifier("a".to_owned())
    );
}

#[test]
fn alias_resolves_structurally() {
    let errors = analyze_source(
        "program p type t = integer; var t a; integer b; begin a:=b end.",
    );
    assert!(errors.is_empty());
}

#[test]
fn nested_procedure_is_local_to_its_parent() {
    let errors = analyze_source(
        "program p \
         procedure f(); \
           procedure g(); begin g() end \
         begin g() end \
         begin f(); g() end.",
    );
    assert_eq!(errors.len(), 1);
    assert_eq!(
        *errors[0].inner(),
        Error::UndefinedIdentifier("g".to_owned())
    );
}

#[test]
fn term_chain_checks_both_operands() {
    let errors = analyze_source("program p var integer x; char y; begin write(x*y) end.");
    assert_eq!(errors.len(), 1);
    assert_eq!(
        *errors[0].inner(),
        Error::UncompatableType {
            expected: CanonicalType::Integer,
            got: CanonicalType::Char,
        }
    );
}

#[test]
fn procedure_parameters_live_in_their_own_scope() {
    let errors = analyze_source(
        "program p var integer a; procedure f(char a); begin a:=a end begin a:=1 end.",
    );
    assert!(errors.is_empty());
}

#[test]
fn duplicate_parameter_names_are_flagged() {
    let errors = analyze_source(
        "program p procedure f(integer a, a); begin a:=1 end begin f(1, 1) end.",
    );
    assert!(errors
        .iter()
        .any(|e| *e.inner() == Error::DuplicatedIdentifier("a".to_owned())));
}

#[test]
fn loops_input_and_return_are_checked() {
    let errors = analyze_source(
        "program p var integer x; \
         begin read(x); while x < 10 do x:=x+1 endwh; return(x) end.",
    );
    assert!(errors.is_empty());
}

#[test]
fn loop_condition_operands_are_checked() {
    let errors = analyze_source(
        "program p var integer x; begin while z < 10 do x:=1 endwh end.",
    );
    assert_eq!(errors.len(), 1);
    assert_eq!(
        *errors[0].inner(),
        Error::UndefinedIdentifier("z".to_owned())
    );
}
