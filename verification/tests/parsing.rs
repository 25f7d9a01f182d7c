use linlang::syntax::parse_program;

#[test]
fn test_keyword() {
    let input = "else";
    assert!(parse_program(input).is_err());
    let input = "if";
    assert!(parse_program(input).is_err());
    let input = "if0";
    assert!(parse_program(input).is_ok());
}

#[test]
fn test_variable() {
    let input = "_";
    assert!(parse_program(input).is_ok());
    let input = "ifhello";
    assert!(parse_program(input).is_ok());
    let input = "__123";
    assert!(parse_program(input).is_ok());
    let input = "0123";
    assert!(parse_program(input).is_ok());
    let input = "true0";
    assert!(parse_program(input).is_ok());
    let input = "123a";
    assert!(parse_program(input).is_err());
    let input = "0a";
    assert!(parse_program(input).is_err());
}

#[test]
fn test_conditional() {
    let input = "if x{ a}else {y}";
    assert!(parse_program(input).is_ok());
    let input = "ifx{ a}else {y}";
    assert!(parse_program(input).is_err());
}

#[test]
fn test_comment() {
    let input = "5 // comment\n";
    let _output = parse_program(input).unwrap();
    let input = "5 //comment";
    let _output = parse_program(input).unwrap();
    let input = "5 /* comment*/";
    let _output = parse_program(input).unwrap();
}

#[test]
fn test_parse_prog01() {
    let input = "x (x (if y { a } else { b }) (y)) (z)";
    println!("{:#?}", parse_program(input).unwrap());
}

#[test]
fn test_parse_prog02() {
    let input = "(x(y))(z)";
    println!("{:#?}", parse_program(input).unwrap());
}

#[test]
fn test_parse_prog03() {
    let input = "|x: $(bool) -> $bool| y";
    println!("{:#?}", parse_program(input).unwrap());
}

#[test]
fn test_parse_prog04() {
    let input = "|x: $($(bool) -> ($bool)) -> int| y";
    println!("{:#?}", parse_program(input).unwrap());
}

#[test]
fn test_parse_prog05() {
    let input = "|x: $($bool)| y";
    assert!(parse_program(input).is_err());
}

#[test]
fn test_parse_prog06() {
    let input = "(|x: $bool| if x { false } else { true }) ($true)";
    let output = parse_program(input).unwrap();
    println!("{:#?}", output);
}

#[test]
fn test_parse_literal() {
    let input = "true";
    println!("{:#?}", parse_program(input).unwrap());
}

#[test]
fn test_linear_values() {
    let input = "$123";
    println!("{:#?}", parse_program(input).unwrap());

    let input = "$    false";
    println!("{:#?}", parse_program(input).unwrap());

    let input = "$ |x| x";
    println!("{:#?}", parse_program(input).unwrap());
}

#[test]
fn test_fix() {
    let input = "fix |x| |y| x";
    println!("{:#?}", parse_program(input).unwrap());
}

#[test]
fn test_let() {
    let input = "let x = 1 (2) in 3 (4)";
    println!("{:#?}", parse_program(input).unwrap());
}

#[test]
fn test_compound_value() {
    let input = "$<p (1),q (2)> ";
    println!("{:#?}", parse_program(input).unwrap());
}

#[test]
fn test_compound_let() {
    let input = "let <x,y >= 1 (2) in 3 (4)";
    println!("{:#?}", parse_program(input).unwrap());
}

#[test]
fn test_compound_typing() {
    let input = "|x : $<int->$bool, $bool> | 1";
    println!("{:#?}", parse_program(input).unwrap());
}

#[test]
fn test_arith() {
    let input = "$diff(1, 2)";
    println!("{:#?}", parse_program(input).unwrap());
}

#[test]
fn test_parse_spans() {
    let linlang::syntax::TermCtx(span, term) = parse_program("$5").unwrap();
    assert_eq!(span, linlang::syntax::Context { start: 0, end: 2 });
    assert!(matches!(term, linlang::syntax::Term::Integer(linlang::syntax::Qualifier::Linear, 5)));
}

#[test]
fn test_parse_number_overflow() {
    assert!(parse_program("9223372036854775807").is_ok());
    assert!(parse_program("9223372036854775808").is_err());
    assert!(parse_program("-9223372036854775808").is_ok());
    assert!(parse_program("99999999999999999999999").is_err());
}

#[test]
fn test_parse_error_variant() {
    match parse_program("123a") {
        Err(linlang::error::Error::ParseError { start, end, .. }) => {
            assert_eq!(start, 0);
            assert_eq!(end, 4);
        }
        other => panic!("expected a parse error, got {:?}", other),
    }
}
