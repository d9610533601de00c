//! End-to-end runs of small programs through the whole pipeline.

use linescript::errors::Errors;
use linescript::laws::run_source;

fn run(source: &str, inputs: &[&str]) -> (Vec<u8>, Result<linescript::eval::Value, Errors>) {
    let ins: Vec<Vec<u8>> = inputs.iter().map(|s| s.as_bytes().to_vec()).collect();
    run_source(source.as_bytes().to_vec(), ins)
}

fn out_of(source: &str, inputs: &[&str]) -> String {
    let (out, res) = run(source, inputs);
    assert!(res.is_ok(), "run failed: {:?}", res.err().map(|e| String::from_utf8_lossy(&e.render()).into_owned()));
    String::from_utf8(out).unwrap()
}

#[test]
fn assignment_then_write_prints_sum() {
    assert_eq!(out_of("x be 5 plus 3\nwrite x", &[]), "8\n");
}

#[test]
fn integer_power_prints_exact() {
    assert_eq!(out_of("write 2 pow 10", &[]), "1024\n");
}

#[test]
fn tothe_spelling_also_works() {
    assert_eq!(out_of("write 2 tothe 10", &[]), "1024\n");
}

#[test]
fn cross_kind_numeric_equality() {
    assert_eq!(out_of("x be 5 is 5.0\nwrite x", &[]), "yes\n");
}

#[test]
fn jump_past_the_end_names_the_line() {
    let src = "x be 1\ny be 2\nrun at 99";
    let (out, res) = run(src, &[]);
    assert_eq!(out, b"");
    match res {
        Err(Errors::RuntimeError(msg, pos, line)) => {
            assert_eq!(msg, b"INVALID LINE NUMBER".to_vec());
            assert_eq!(pos.0, 3);
            assert_eq!(line, b"run at 99".to_vec());
        },
        other => panic!("expected a runtime error, got {:?}", other),
    }
}

#[test]
fn text_concatenation_prints_joined() {
    assert_eq!(out_of("write \"a\" plus \"b\"", &[]), "ab\n");
}

#[test]
fn mixed_plus_names_the_operator() {
    let (_, res) = run("write 1 plus \"b\"", &[]);
    match res {
        Err(Errors::RuntimeError(msg, _, _)) => {
            let text = String::from_utf8(msg).unwrap();
            assert!(text.contains("plus"), "message must name plus: {}", text);
        },
        other => panic!("expected a runtime error, got {:?}", other),
    }
}

#[test]
fn overflowing_sum_degrades_to_double() {
    let big = i128::MAX;
    let expected = (big as f64) + 1.0f64;
    let src = format!("write {} plus 1", big);
    assert_eq!(out_of(&src, &[]), format!("{}\n", expected));
}

#[test]
fn overflowing_product_degrades_to_double() {
    let big = i128::MAX;
    let expected = (big as f64) * (big as f64);
    let src = format!("write {} times {}", big, big);
    assert_eq!(out_of(&src, &[]), format!("{}\n", expected));
}

#[test]
fn double_addition_matches_hardware() {
    // 0.1 + 0.2 shows both the rounding and the shortest rendering
    let expected = 0.1f64 + 0.2f64;
    assert_eq!(out_of("write 0.1 plus 0.2", &[]), format!("{}\n", expected));
}

#[test]
fn double_literals_compose_by_digits() {
    assert_eq!(out_of("write 3.25 plus 1.5", &[]), format!("{}\n", 3.25f64 + 1.5f64));
    assert_eq!(out_of("write 2.5 times 2", &[]), format!("{}\n", 2.5f64 * 2.0f64));
}

#[test]
fn division_truncates_on_integers() {
    assert_eq!(out_of("write 7 over 2", &[]), "3\n");
    assert_eq!(out_of("write neg 7 over 2", &[]), "-3\n");
    assert_eq!(out_of("write 7 mod 3", &[]), "1\n");
    assert_eq!(out_of("write neg 7 mod 3", &[]), "-1\n");
}

#[test]
fn division_by_zero_is_a_runtime_error() {
    let (_, res) = run("write 1 over 0", &[]);
    match res {
        Err(Errors::RuntimeError(msg, _, _)) => {
            assert!(String::from_utf8(msg).unwrap().contains("over"));
        },
        other => panic!("expected a runtime error, got {:?}", other),
    }
}

#[test]
fn fractional_double_division() {
    assert_eq!(out_of("write 1 over 4.0", &[]), format!("{}\n", 1.0f64 / 4.0f64));
}

#[test]
fn to_boolean_is_total() {
    assert_eq!(out_of("write choice 0", &[]), "no\n");
    assert_eq!(out_of("write choice 7", &[]), "yes\n");
    assert_eq!(out_of("write choice \"\"", &[]), "no\n");
    assert_eq!(out_of("write choice \"x\"", &[]), "yes\n");
    assert_eq!(out_of("write choice no", &[]), "no\n");
    assert_eq!(out_of("write choice 0.0", &[]), "no\n");
    assert_eq!(out_of("write choice 0.5", &[]), "yes\n");
}

#[test]
fn to_number_of_booleans_is_inverted() {
    assert_eq!(out_of("write num yes", &[]), "0\n");
    assert_eq!(out_of("write num no", &[]), "1\n");
    assert_eq!(out_of("write num (choice 5)", &[]), "0\n");
    assert_eq!(out_of("write num (choice 0)", &[]), "1\n");
}

#[test]
fn to_number_reads_text() {
    assert_eq!(out_of("write num \"42\"", &[]), "42\n");
    assert_eq!(out_of("write num \"-7\"", &[]), "-7\n");
    assert_eq!(out_of("write num \"2.5\"", &[]), format!("{}\n", 2.5f64));
    assert_eq!(out_of("write num \"1e3\"", &[]), format!("{}\n", 1e3f64));
    assert_eq!(out_of("write num \"blue\"", &[]), "nothing\n");
    assert_eq!(out_of("write num \"\"", &[]), "nothing\n");
}

#[test]
fn to_text_renders_every_kind() {
    assert_eq!(out_of("write text 12", &[]), "12\n");
    assert_eq!(out_of("write text yes", &[]), "yes\n");
    assert_eq!(out_of("write text \"s\"", &[]), "s\n");
}

#[test]
fn comparisons_and_logic() {
    assert_eq!(out_of("write 1 below 2", &[]), "yes\n");
    assert_eq!(out_of("write 2 below 2", &[]), "no\n");
    assert_eq!(out_of("write 2 atmost 2", &[]), "yes\n");
    assert_eq!(out_of("write 3 above 2.5", &[]), "yes\n");
    assert_eq!(out_of("write 2 atleast 3", &[]), "no\n");
    assert_eq!(out_of("write \"abc\" below \"abd\"", &[]), "yes\n");
    assert_eq!(out_of("write \"b\" below \"abd\"", &[]), "no\n");
    assert_eq!(out_of("write yes and no", &[]), "no\n");
    assert_eq!(out_of("write yes or no", &[]), "yes\n");
    assert_eq!(out_of("write not yes", &[]), "no\n");
    assert_eq!(out_of("write 1 isnt 2", &[]), "yes\n");
    assert_eq!(out_of("write \"a\" is 1", &[]), "no\n");
}

#[test]
fn guard_runs_the_statement_once_or_not_at_all() {
    assert_eq!(out_of("write 1 if yes\nwrite 2 if no\nwrite 3", &[]), "1\n3\n");
}

#[test]
fn jump_to_single_line_comes_back() {
    assert_eq!(out_of("run at 3\nwrite 2\nwrite 3", &[]), "3\n2\n3\n");
}

#[test]
fn range_jump_runs_the_lines_then_returns() {
    assert_eq!(out_of("run 3 to 4\nwrite 9\nwrite 1\nwrite 2", &[]), "1\n2\n9\n1\n2\n");
}

#[test]
fn bad_range_is_a_runtime_error() {
    let (_, res) = run("run 3 to 2\nwrite 1\nwrite 2", &[]);
    match res {
        Err(Errors::RuntimeError(msg, _, _)) => {
            assert_eq!(msg, b"INVALID LINE RANGE".to_vec());
        },
        other => panic!("expected a runtime error, got {:?}", other),
    }
}

#[test]
fn end_stops_quietly() {
    let (out, res) = run("write 1\nend\nwrite 2", &[]);
    assert!(res.is_ok());
    assert_eq!(out, b"1\n");
}

#[test]
fn comments_vanish() {
    assert_eq!(out_of("note this line says nothing\nwrite 1", &[]), "1\n");
}

#[test]
fn blank_lines_keep_numbering() {
    assert_eq!(out_of("\n\nrun at 4\nwrite 7", &[]), "7\n7\n");
}

#[test]
fn read_takes_input_lines_in_order() {
    assert_eq!(out_of("x be read\ny be read\nwrite y\nwrite x", &["one", "two"]), "two\none\n");
}

#[test]
fn read_past_the_input_is_empty_text() {
    assert_eq!(out_of("write read is \"\"", &[]), "yes\n");
}

#[test]
fn unknown_variable_is_named() {
    let (_, res) = run("write ghost", &[]);
    match res {
        Err(Errors::RuntimeError(msg, _, _)) => {
            assert_eq!(msg, b"VARIABLE ghost NOT FOUND".to_vec());
        },
        other => panic!("expected a runtime error, got {:?}", other),
    }
}

#[test]
fn reruns_are_byte_identical() {
    let src = "x be read\nwrite x plus \"!\"\nwrite 6 times 7\nwrite 1.5 over 0.3";
    let a = run(src, &["in"]);
    let b = run(src, &["in"]);
    assert_eq!(a.0, b.0);
    assert!(a.1.is_ok() && b.1.is_ok());
}

#[test]
fn parentheses_group() {
    assert_eq!(out_of("write (1 plus 2) times 3", &[]), "9\n");
    assert_eq!(out_of("write 1 plus 2 times 3", &[]), "7\n");
}

#[test]
fn double_base_integer_exponent() {
    assert_eq!(out_of("write 2.0 pow 3", &[]), format!("{}\n", 2.0f64 * 2.0 * 2.0));
    assert_eq!(out_of("write 9 pow 0", &[]), "1\n");
    assert_eq!(out_of("write 0 pow 0", &[]), "1\n");
}

#[test]
fn enormous_exponent_overflows_to_infinity() {
    assert_eq!(out_of("write 2 pow 4294967296", &[]), format!("{}\n", f64::INFINITY));
}

#[test]
fn negative_power_goes_to_double() {
    assert_eq!(out_of("write 2 pow neg 1", &[]), format!("{}\n", 0.5f64));
}

#[test]
fn fractional_exponent_is_refused() {
    let (_, res) = run("write 2 pow 0.5", &[]);
    match res {
        Err(Errors::RuntimeError(msg, _, _)) => {
            assert!(String::from_utf8(msg).unwrap().contains("pow"));
        },
        other => panic!("expected a runtime error, got {:?}", other),
    }
}

#[test]
fn negation_needs_a_number() {
    let (_, res) = run("write neg \"a\"", &[]);
    match res {
        Err(Errors::RuntimeError(msg, _, _)) => {
            assert!(String::from_utf8(msg).unwrap().contains("neg"));
        },
        other => panic!("expected a runtime error, got {:?}", other),
    }
}

#[test]
fn comparing_text_to_number_is_refused() {
    let (_, res) = run("write \"a\" below 1", &[]);
    match res {
        Err(Errors::RuntimeError(msg, _, _)) => {
            assert!(String::from_utf8(msg).unwrap().contains("below"));
        },
        other => panic!("expected a runtime error, got {:?}", other),
    }
}
