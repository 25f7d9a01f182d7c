use linlang::formatter::format_termctx;
use linlang::syntax::parse_program;
use linlang::syntax::Context;
use linlang::term_lint;

#[test]
fn test_formatter_01() {
    let prog = [
        "if x { y } else { z }",
        "$123",
        "|x| y",
        "$|x| $true",
        "x (y)",
        "x (y) (z)",
        "x (y (z))",
        "x (y (z)) (w)",
        "(|x: bool| x) (false)",
        "(|x: bool->bool->bool| x) (false)",
        "(|x: (bool->bool)->bool| x) (false)",
        "|x: $($int->bool)| x ($5)",
        "|x: $($int->bool)->int| x",
    ];
    for p in prog.iter() {
        let result = format_termctx(&parse_program(p).unwrap());
        assert_eq!(result, p.to_owned());
    }
}

#[test]
fn test_formatter_extended_forms() {
    let prog = [
        "let x = 1 in x",
        "let <a, b> = $<$1, $2> in diff(a, b)",
        "fix |x| |y| x",
        "$<p (1), q (2)>",
        "iszero(5)",
        "$diff(1, 2)",
    ];
    for p in prog.iter() {
        let result = format_termctx(&parse_program(p).unwrap());
        assert_eq!(result, p.to_owned());
    }
}

#[test]
fn test_print_parse_round_trip() {
    let prog = [
        "if x { y } else { z }",
        "$|x| $true",
        "(|x: bool| x) (false)",
        "let open = |x| $true in let read = |h| h in close (h)",
        "let <a, b> = $<$1, $2> in diff(a, b)",
        "fix |x| |y| x (z)",
        "|x: $<int->$bool, $bool>| 1",
        "if iszero(diff(3, 3)) { $1 } else { $2 }",
    ];
    for p in prog.iter() {
        let once = format_termctx(&parse_program(p).unwrap());
        let twice = format_termctx(&parse_program(&once).unwrap());
        assert_eq!(once, twice);
    }
}

#[test]
fn test_long_program_breaks_lines() {
    let input = "application_with_a_long_name (another_rather_long_argument)";
    let result = format_termctx(&parse_program(input).unwrap());
    assert!(result.contains('\n'));
    let reparsed = format_termctx(&parse_program(&result).unwrap());
    assert_eq!(result, reparsed);
}

#[test]
fn test_term_lint_formats_source() {
    assert_eq!(term_lint("if x{ y}else {z}").unwrap(), "if x { y } else { z }");
    assert!(term_lint("123a").is_err());
}

#[test]
fn test_context_to_string() {
    let span = Context { start: 3, end: 14 };
    assert_eq!(span.to_string(), "[3:14]");
    let zero = Context { start: 0, end: 0 };
    assert_eq!(zero.to_string(), "[0:0]");
}
