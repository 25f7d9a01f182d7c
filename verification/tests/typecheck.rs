use linlang::error::Error;
use linlang::syntax::parse_program;
use linlang::syntax::Context;
use linlang::syntax::Pretype;
use linlang::syntax::Qualifier;
use linlang::syntax::Type;
use linlang::typing::convert_hashmap_to_vec;
use linlang::typing::type_check;

#[test]
fn test_type_atom() {
    let input = "$true";
    let term = parse_program(input).unwrap();
    let type_map = type_check(&term).unwrap();
    println!("{:?}", type_map);
    assert_eq!(type_map.len(), 1);
}

#[test]
fn test_type_if() {
    let input = "if $true { 1 } else { 2 }";
    let term = parse_program(input).unwrap();
    let type_map = type_check(&term).unwrap();
    println!("{:#?}", type_map);
}

#[test]
fn test_type_prog01() {
    let input = "(|x: bool| x) (false)";
    let term = parse_program(input).unwrap();
    let type_map = type_check(&term).unwrap();
    println!("{:?}", type_map);
}

#[test]
fn test_hashmap_to_vec() {
    let input = "(|x: $bool| if x { false } else { true }) ($false)";
    let term = parse_program(input).unwrap();
    let type_map = type_check(&term).unwrap();
    let vec = convert_hashmap_to_vec(&type_map, input);
    println!("{:#?}", type_map);
    println!("{:#?}", vec);
    let mut joined = String::new();
    for tag in &vec {
        joined.push_str(&tag.s);
    }
    assert_eq!(joined, input);
}

#[test]
fn test_type_of_linear_literal() {
    let term = parse_program("$5").unwrap();
    let type_map = type_check(&term).unwrap();
    let ty = type_map.get(Context { start: 0, end: 2 }).unwrap();
    assert_eq!(*ty, Type(Qualifier::Linear, Pretype::Integer));
}

#[test]
fn test_conditional_type_is_int() {
    let term = parse_program("if true { 1 } else { 2 }").unwrap();
    let type_map = type_check(&term).unwrap();
    let ty = type_map.get(Context { start: 0, end: 7 }).unwrap();
    assert_eq!(*ty, Type(Qualifier::Nop, Pretype::Integer));
}

#[test]
fn test_checker_is_deterministic() {
    let term = parse_program("(|x: $bool| if x { false } else { true }) ($true)").unwrap();
    let m1 = type_check(&term).unwrap();
    let m2 = type_check(&term).unwrap();
    assert_eq!(m1.len(), m2.len());
    for i in 0..m1.len() {
        let (span1, ty1) = m1.entry(i);
        let (span2, ty2) = m2.entry(i);
        assert_eq!(span1, span2);
        assert_eq!(*ty1, *ty2);
    }
}

#[test]
fn test_argument_mismatch_rejected() {
    let term = parse_program("(|x: bool->bool->bool| x) (false)").unwrap();
    match type_check(&term) {
        Err(Error::TypeError { message, .. }) => {
            assert_eq!(message, "argument type mismatch");
        }
        other => panic!("expected a type error, got {:?}", other),
    }
}

#[test]
fn test_linear_param_unused_rejected() {
    let term = parse_program("|x: $bool| 1").unwrap();
    match type_check(&term) {
        Err(Error::TypeError { message, .. }) => {
            assert_eq!(message, "linear variable is not consumed in function body");
        }
        other => panic!("expected a type error, got {:?}", other),
    }
}

#[test]
fn test_unrestricted_closure_capture_rejected() {
    let term = parse_program("let y = $true in (|x: bool| y) (false)").unwrap();
    match type_check(&term) {
        Err(Error::TypeError { message, .. }) => {
            assert_eq!(message, "free linear variable referenced in unrestricted closure");
        }
        other => panic!("expected a type error, got {:?}", other),
    }
}

#[test]
fn test_branches_consume_differently_rejected() {
    let term = parse_program("let y = $true in if true { y } else { true }").unwrap();
    match type_check(&term) {
        Err(Error::TypeError { message, .. }) => {
            assert_eq!(message, "variables are consumed differently in different branches");
        }
        other => panic!("expected a type error, got {:?}", other),
    }
}

#[test]
fn test_undefined_variable_rejected() {
    let term = parse_program("nowhere").unwrap();
    match type_check(&term) {
        Err(Error::TypeError { message, .. }) => {
            assert_eq!(message, "undefined variable");
        }
        other => panic!("expected a type error, got {:?}", other),
    }
}

#[test]
fn test_unannotated_abstraction_rejected() {
    let term = parse_program("|x| x").unwrap();
    match type_check(&term) {
        Err(Error::TypeError { message, .. }) => {
            assert_eq!(message, "unknown term");
        }
        other => panic!("expected a type error, got {:?}", other),
    }
}

#[test]
fn test_fix_annotated_recursion_well_typed() {
    let input = "let f = fix(|ff: bool->int| |x: bool| if x { ff(false) } else { ff(true) }) in f(true)";
    let term = parse_program(input).unwrap();
    assert!(type_check(&term).is_ok());
}

#[test]
fn test_fix_linear_recursion_rejected() {
    let term = parse_program("fix($|ff: bool| true)").unwrap();
    match type_check(&term) {
        Err(Error::TypeError { message, .. }) => {
            assert_eq!(message, "linear term is not allowed for recursion");
        }
        other => panic!("expected a type error, got {:?}", other),
    }
}

#[test]
fn test_compound_consumed_once() {
    let input = "let <a, b> = $<$1, $2> in diff(a, b)";
    let term = parse_program(input).unwrap();
    assert!(type_check(&term).is_ok());
}

#[test]
fn test_compound_same_names_rejected() {
    let term = parse_program("let <a, a> = <1, 2> in a").unwrap();
    match type_check(&term) {
        Err(Error::TypeError { message, .. }) => {
            assert_eq!(message, "expect different identifiers");
        }
        other => panic!("expected a type error, got {:?}", other),
    }
}

#[test]
fn test_typing_pipeline_tags() {
    let term = parse_program("if $true { 1 } else { 2 }").unwrap();
    let tags = linlang::typing(&term).unwrap();
    let mut joined = String::new();
    for tag in &tags {
        joined.push_str(&tag.s);
    }
    assert_eq!(joined, "if $true { 1 } else { 2 }");
}

#[test]
fn test_typing_pipeline_rejects_ill_typed() {
    let term = parse_program("|x: $bool| 1").unwrap();
    assert!(linlang::typing(&term).is_err());
}

#[test]
fn test_typing_pipeline_internal_error_on_unprintable_name() {
    // A hand-built tree can bind a name the grammar cannot spell; it
    // checks, but its reprint fails to parse again.
    let body = linlang::syntax::TermCtx(
        Context { start: 10, end: 13 },
        linlang::syntax::Term::Variable("a b".to_string()),
    );
    let term = linlang::syntax::TermCtx(
        Context { start: 0, end: 9 },
        linlang::syntax::Term::Abstraction(
            Qualifier::Nop,
            "a b".to_string(),
            Some(Box::new(Type(Qualifier::Nop, Pretype::Boolean))),
            Box::new(body),
        ),
    );
    assert!(type_check(&term).is_ok());
    match linlang::typing(&term) {
        Err(Error::InternalError { .. }) => {}
        other => panic!("expected an internal error, got {:?}", other),
    }
}
