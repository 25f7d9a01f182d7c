use linlang::eval::get_qualifier;
use linlang::eval::is_value;
use linlang::eval::one_step_eval;
use linlang::eval::Store;
use linlang::eval::TermEval;
use linlang::formatter;
use linlang::formatter::TermFormatter;
use linlang::syntax::parse_program;
use linlang::syntax::Qualifier;
use linlang::syntax::Term;
use linlang::syntax::TermCtx;

fn run_to_value(input: &str, budget: usize) -> TermEval {
    let store = Store::new_empty();
    let term = parse_program(input).unwrap();
    let mut state = TermEval { store, term };
    let mut used: usize = 0;
    while !is_value(&state.term) {
        assert!(used < budget, "step budget exhausted");
        state = one_step_eval(state).unwrap();
        used += 1;
    }
    state
}

fn assert_no_linear_left(store: &Store) {
    for (name, value) in &store.bindings {
        assert_ne!(
            get_qualifier(value),
            Some(Qualifier::Linear),
            "linear entry {} left in the store",
            name
        );
    }
}

#[test]
fn test_eval_simple() {
    let store = Store::new_empty();
    let input = "$5";
    let term = parse_program(input).unwrap();
    let result = one_step_eval(TermEval { store, term }).unwrap();
    println!("{:#?}", result);
}

#[test]
fn test_eval_if() {
    let store = Store::new_empty();
    let input = "if true {1} else {2}";
    let term = parse_program(input).unwrap();
    let result = one_step_eval(TermEval { store, term }).unwrap();
    println!("{:#?}", result);
}

#[test]
fn test_eval_application() {
    let store = Store::new_empty();
    let input = "(|x| x) ($true)";
    let term = parse_program(input).unwrap();
    let result = TermEval { store, term };
    let result = one_step_eval(result).unwrap();
    let result = one_step_eval(result).unwrap();
    let result = one_step_eval(result).unwrap();
    let result = one_step_eval(result).unwrap();
    println!("{:#?}", result);
}

#[test]
fn test_eval_closure() {
    let store = Store::new_empty();
    let formatter = TermFormatter::new(formatter::DEFAULT_LINE_WIDTH);
    let input = "(|x| |y| x) (true) (false)";
    let term = parse_program(input).unwrap();
    let mut result = TermEval { store, term };
    for _ in 0..20 {
        result = one_step_eval(result).unwrap();
        println!(
            "{:?} | {}",
            result.store,
            formatter.format_termctx(&result.term)
        );
    }
}

#[test]
fn test_eval_let_fix() {
    let store = Store::new_empty();
    let formatter = TermFormatter::new(formatter::DEFAULT_LINE_WIDTH);
    let input = "let f = fix(|ff||x| if x {ff(false)} else {ff(true)}) in f(true)";
    let term = parse_program(input).unwrap();
    let mut result = TermEval { store, term };
    for _ in 0..20 {
        result = one_step_eval(result).unwrap();
        println!(
            "{:?} \n {}\n",
            result.store,
            formatter.format_termctx(&result.term)
        );
    }
}

#[test]
fn test_eval_min_file_handle() {
    let store = Store::new_empty();
    let formatter = TermFormatter::new(formatter::DEFAULT_LINE_WIDTH);
    let input = "
        let open = |x| $true in
        let read = |h| h in
        let close = |h| (if h {1} else {0}) in
        let h = open(0) in
        let h = read(h) in
        let h = read(h) in
        close(h)
        ";
    let term = parse_program(input).unwrap();
    let mut result = TermEval { store, term };
    for _ in 0..20 {
        result = one_step_eval(result).unwrap();
        println!(
            "{:?} \n {}\n",
            result.store,
            formatter.format_termctx(&result.term)
        );
    }
}

#[test]
fn test_step_linear_literal_allocates_then_reads_back() {
    // A value standing alone is already a normal form: a step returns the
    // configuration unchanged.
    let store = Store::new_empty();
    let term = parse_program("$5").unwrap();
    let state = one_step_eval(TermEval { store, term }).unwrap();
    assert_eq!(state.store.bindings.len(), 0);
    let TermCtx(_, t) = &state.term;
    assert!(matches!(t, Term::Integer(Qualifier::Linear, 5)));

    // Under a constructor, the value is lifted into the store under a fresh
    // name, and the linear cell is removed when it is read back.
    let store = Store::new_empty();
    let term = parse_program("iszero($5)").unwrap();
    let state = one_step_eval(TermEval { store, term }).unwrap();
    assert_eq!(state.store.bindings.len(), 1);
    assert_eq!(state.store.bindings[0].0, "%x1");
    let TermCtx(_, stored) = &state.store.bindings[0].1;
    assert!(matches!(stored, Term::Integer(Qualifier::Linear, 5)));

    let state = one_step_eval(state).unwrap();
    assert_eq!(state.store.bindings.len(), 0);
    let TermCtx(_, t) = &state.term;
    assert!(matches!(t, Term::Boolean(Qualifier::Nop, false)));
}

#[test]
fn test_eval_if_reduces_to_one() {
    let state = run_to_value("if true { 1 } else { 2 }", 20);
    let TermCtx(_, t) = &state.term;
    assert!(matches!(t, Term::Integer(Qualifier::Nop, 1)));
}

#[test]
fn test_eval_application_result_and_store() {
    let state = run_to_value("(|x| x) ($true)", 20);
    let TermCtx(_, t) = &state.term;
    assert!(matches!(t, Term::Boolean(Qualifier::Linear, true)));
    assert_no_linear_left(&state.store);
}

#[test]
fn test_eval_file_handle_result_and_store() {
    let input = "
        let open = |x| $true in
        let read = |h| h in
        let close = |h| (if h {1} else {0}) in
        let h = open(0) in
        let h = read(h) in
        let h = read(h) in
        close(h)
        ";
    let state = run_to_value(input, 60);
    let TermCtx(_, t) = &state.term;
    assert!(matches!(t, Term::Integer(Qualifier::Nop, 1)));
    assert_no_linear_left(&state.store);
}

#[test]
fn test_eval_negate() {
    let state = run_to_value("let negate = |x| $diff($0, x) in negate($5)", 40);
    let TermCtx(_, t) = &state.term;
    assert!(matches!(t, Term::Integer(Qualifier::Linear, -5)));
}

#[test]
fn test_eval_fix_never_terminates_within_budget() {
    let store = Store::new_empty();
    let input = "let f = fix(|ff||x| if x {ff(false)} else {ff(true)}) in f(true)";
    let term = parse_program(input).unwrap();
    let mut state = TermEval { store, term };
    for _ in 0..20 {
        state = one_step_eval(state).unwrap();
        assert!(!is_value(&state.term));
    }
}

#[test]
fn test_eval_compound_letc() {
    let state = run_to_value("let <a, b> = $<$1, $2> in diff(a, b)", 40);
    let TermCtx(_, t) = &state.term;
    assert!(matches!(t, Term::Integer(Qualifier::Nop, -1)));
    assert_no_linear_left(&state.store);
}

#[test]
fn test_eval_iszero() {
    let state = run_to_value("iszero(diff(2, 2))", 40);
    let TermCtx(_, t) = &state.term;
    assert!(matches!(t, Term::Boolean(Qualifier::Nop, true)));
}

#[test]
fn test_eval_diff_wraps_on_overflow() {
    let state = run_to_value("diff(-9223372036854775808, 1)", 40);
    let TermCtx(_, t) = &state.term;
    assert!(matches!(t, Term::Integer(Qualifier::Nop, 9223372036854775807)));
}

#[test]
fn test_eval_undefined_variable_errors() {
    let store = Store::new_empty();
    let term = parse_program("nowhere").unwrap();
    match one_step_eval(TermEval { store, term }) {
        Err(linlang::error::Error::EvaluateError { message, source }) => {
            assert_eq!(message, "variable not found");
            assert_eq!(source, "[0:7]");
        }
        other => panic!("expected an evaluation error, got {:?}", other),
    }
}

#[test]
fn test_eval_condition_must_be_boolean() {
    let store = Store::new_empty();
    let term = parse_program("if 1 { 2 } else { 3 }").unwrap();
    let state = TermEval { store, term };
    let state = one_step_eval(state).unwrap();
    match one_step_eval(state) {
        Err(linlang::error::Error::EvaluateError { message, .. }) => {
            assert_eq!(message, "conditional term must be boolean");
        }
        other => panic!("expected an evaluation error, got {:?}", other),
    }
}

#[test]
fn test_preservation_on_each_step_of_conditional() {
    let term = parse_program("if true { 1 } else { 2 }").unwrap();
    let root_span = term.0;
    let type_map = linlang::typing::type_check(&term).unwrap();
    let root_ty = type_map.get(root_span).unwrap().clone();
    assert_eq!(
        root_ty,
        linlang::syntax::Type(Qualifier::Nop, linlang::syntax::Pretype::Integer)
    );
    let state = run_to_value("if true { 1 } else { 2 }", 20);
    let TermCtx(_, t) = &state.term;
    assert!(matches!(t, Term::Integer(Qualifier::Nop, _)));
}
