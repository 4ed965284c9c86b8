use basic::error::Error;
use basic::interpreter::{Interpreter, Stop};
use basic::lexer::{Lexer, Token};
use basic::load;
use basic::value::{Sine, Value};

const FUEL: u64 = 100_000;

fn run(src: &str, inputs: &[&str]) -> (Interpreter, Option<Stop>) {
    let mut interp = load(src.to_string()).expect("program should load");
    let lines: Vec<String> = inputs.iter().map(|s| s.to_string()).collect();
    let stop = interp.interpret(&lines, FUEL);
    (interp, stop)
}

fn var(interp: &Interpreter, name: &str) -> Option<Value> {
    interp.state().variable(&name.to_string())
}

fn int_var(interp: &Interpreter, name: &str) -> i64 {
    match var(interp, name) {
        Some(Value::Integer(n)) => n,
        other => panic!("expected an integer, got {:?}", other),
    }
}

fn printed(interp: &Interpreter) -> Vec<String> {
    interp.state().output().iter().map(|v| v.render().expect("not a float")).collect()
}

fn tokens(src: &str) -> Result<Vec<Token>, Error> {
    Lexer::new(src.to_string()).tokenize()
}

#[test]
fn division_truncates_toward_zero() {
    let (i, stop) = run("LET Z = 0 - 7 LET Q = Z / 2 LET R = Z % 2 LET S = 7 / 2 LET T = 7 % 0 - 2", &[]);
    assert_eq!(stop, Some(Stop::Fault(Error::DivisionByZero)));
    assert_eq!(int_var(&i, "Q"), -3);
    assert_eq!(int_var(&i, "R"), -1);
    assert_eq!(int_var(&i, "S"), 3);
    let (i, stop) = run("LET A = 17 LET B = 0 - 5 LET Q = A / B LET R = A % B", &[]);
    assert_eq!(stop, None);
    assert_eq!(int_var(&i, "Q"), 17 / -5);
    assert_eq!(int_var(&i, "R"), 17 % -5);
}

#[test]
fn division_by_zero_fails() {
    let (i, stop) = run("PRINT 1 PRINT 5 / 0 PRINT 2", &[]);
    assert_eq!(stop, Some(Stop::Fault(Error::DivisionByZero)));
    assert_eq!(printed(&i), vec!["1".to_string()]);
}

#[test]
fn arithmetic_precedence_and_overflow() {
    let (i, _) = run("LET X = 2 + 3 * 4 - 10 / 5", &[]);
    assert_eq!(int_var(&i, "X"), 12);
    let (_, stop) = run("LET X = 9223372036854775807 + 1", &[]);
    assert_eq!(stop, Some(Stop::Fault(Error::ArithmeticOverflow)));
}

#[test]
fn print_after_declaration() {
    let (i, stop) = run("LET X = 5\nPRINT X", &[]);
    assert_eq!(stop, None);
    assert_eq!(printed(&i), vec!["5".to_string()]);
}

#[test]
fn reassignment_changes_type() {
    let (i, stop) = run("LET X = 5\nX = \"hi\"\nPRINT X", &[]);
    assert_eq!(stop, None);
    assert!(matches!(var(&i, "X"), Some(Value::String(ref s)) if s == "hi"));
    assert_eq!(printed(&i), vec!["hi".to_string()]);
}

#[test]
fn assign_to_undeclared_fails() {
    let (i, stop) = run("Y = 3", &[]);
    assert_eq!(stop, Some(Stop::Fault(Error::AssignToUndeclared)));
    assert!(var(&i, "Y").is_none());
    let (i, stop) = run("LET Y = 1 Y = 3", &[]);
    assert_eq!(stop, None);
    assert_eq!(int_var(&i, "Y"), 3);
}

#[test]
fn empty_for_loop_leaves_counter_past_end() {
    let (i, stop) = run("FOR I = 1 TO 3 NEXT I", &[]);
    assert_eq!(stop, None);
    assert_eq!(int_var(&i, "I"), 4);
}

#[test]
fn for_loop_runs_body_and_steps() {
    let (i, stop) = run("LET S = 0 FOR I = 10 TO 1 STEP 0 - 3 S = S + I NEXT I PRINT S", &[]);
    assert_eq!(stop, None);
    assert_eq!(int_var(&i, "S"), 10 + 7 + 4 + 1);
    assert_eq!(int_var(&i, "I"), -2);
    let (i, _) = run("FOR I = 5 TO 1 PRINT I NEXT I", &[]);
    assert_eq!(int_var(&i, "I"), 5);
    assert!(printed(&i).is_empty());
}

#[test]
fn long_loop_runs_out_of_fuel() {
    let mut interp = load("FOR I = 1 TO 1000 NEXT I".to_string()).unwrap();
    assert_eq!(interp.interpret(&vec![], 50), Some(Stop::OutOfFuel));
    assert_eq!(interp.interpret(&vec![], 5000), None);
}

#[test]
fn zero_step_loop_never_runs() {
    let (i, stop) = run("FOR I = 1 TO 2 STEP 0 PRINT I NEXT I", &[]);
    assert_eq!(stop, None);
    assert!(printed(&i).is_empty());
    assert_eq!(int_var(&i, "I"), 1);
}

#[test]
fn if_runs_consequent_only_when_true() {
    let (i, stop) = run("IF 1 > 2 THEN PRINT \"x\"", &[]);
    assert_eq!(stop, None);
    assert!(printed(&i).is_empty());
    let (i, _) = run("IF 1 <= 2 THEN PRINT \"x\"", &[]);
    assert_eq!(printed(&i), vec!["x".to_string()]);
}

#[test]
fn relational_results_are_booleans() {
    let (i, _) = run("PRINT 3 <> 4 PRINT 3 = 4 PRINT 2 >= 2", &[]);
    assert_eq!(printed(&i), vec!["true", "false", "true"]);
    // `!` starts no token, so this compares with `=`.
    let (i, stop) = run("PRINT 1 != 2", &[]);
    assert_eq!(stop, None);
    assert_eq!(printed(&i), vec!["false"]);
}

#[test]
fn sine_is_a_float_of_degrees() {
    let (i, stop) = run("LET A = SIN(0) LET B = SIN(90)", &[]);
    assert_eq!(stop, None);
    match var(&i, "A") {
        Some(Value::Float(s)) => {
            assert_eq!(s, Sine { degrees: 0 });
            assert_eq!(format!("{}", (s.degrees as f64).to_radians().sin()), "0");
        }
        other => panic!("expected a float, got {:?}", other),
    }
    match var(&i, "B") {
        Some(Value::Float(s)) => {
            assert_eq!(s.degrees, 90);
            assert!(((s.degrees as f64).to_radians().sin() - 1.0).abs() < 1e-12);
        }
        other => panic!("expected a float, got {:?}", other),
    }
    assert!(var(&i, "A").unwrap().render().is_none());
}

#[test]
fn builtin_errors() {
    assert_eq!(run("LET X = COS(1)", &[]).1, Some(Stop::Fault(Error::UndefinedFunction)));
    assert_eq!(run("LET X = SIN(1, 2)", &[]).1, Some(Stop::Fault(Error::InvalidArgument)));
    assert_eq!(run("LET X = SIN(\"a\")", &[]).1, Some(Stop::Fault(Error::InvalidArgument)));
    assert_eq!(run("SIN(Q)", &[]).1, Some(Stop::Fault(Error::UndefinedVariable)));
}

#[test]
fn number_literals_relex_to_the_same_token() {
    for text in ["0", "7", "12345", "9223372036854775807", "3.14"] {
        let ts = tokens(text).unwrap();
        assert_eq!(ts.len(), 1);
        assert!(matches!(&ts[0], Token::Number(s) if s == text));
    }
    let (i, _) = run("PRINT 12345", &[]);
    let out = printed(&i);
    let again = tokens(&out[0]).unwrap();
    assert!(matches!(&again[0], Token::Number(s) if s == "12345"));
}

#[test]
fn input_reads_integer_or_text() {
    let (i, stop) = run("INPUT \"n?\" X", &["42"]);
    assert_eq!(stop, None);
    assert!(matches!(var(&i, "X"), Some(Value::Integer(42))));
    assert_eq!(printed(&i), vec!["n?".to_string()]);
    let (i, _) = run("INPUT \"n?\" X", &["abc"]);
    assert!(matches!(var(&i, "X"), Some(Value::String(ref s)) if s == "abc"));
    let (i, _) = run("INPUT \"n?\" X", &["  -17 \n"]);
    assert_eq!(int_var(&i, "X"), -17);
}

#[test]
fn input_without_a_line_asks_for_one() {
    let (i, stop) = run("PRINT 1 INPUT \"n?\" X PRINT X", &[]);
    assert_eq!(stop, Some(Stop::NeedInput));
    assert_eq!(printed(&i), vec!["1".to_string(), "n?".to_string()]);
    assert_eq!(i.state().inputs_used(), 0);
}

#[test]
fn lexer_classifies_words_and_operators() {
    let ts = tokens("let x1_y = Sin(3) <= \"a b\" >= <> ,").unwrap();
    assert!(matches!(&ts[0], Token::Keyword(s) if s == "LET"));
    assert!(matches!(&ts[1], Token::Identifier(s) if s == "x"));
    assert!(matches!(&ts[2], Token::Number(s) if s == "1"));
    // An underscore cannot start a word, so it is skipped.
    assert!(matches!(&ts[3], Token::Identifier(s) if s == "y"));
    assert!(matches!(&ts[4], Token::RelOp(s) if s == "="));
    assert!(matches!(&ts[5], Token::BuiltIn(s) if s == "SIN"));
    assert!(matches!(&ts[6], Token::Punc(s) if s == "("));
    assert!(matches!(&ts[8], Token::Punc(s) if s == ")"));
    assert!(matches!(&ts[9], Token::RelOp(s) if s == "<="));
    assert!(matches!(&ts[10], Token::Str(s) if s == "a b"));
    assert!(matches!(&ts[11], Token::RelOp(s) if s == ">="));
    assert!(matches!(&ts[12], Token::RelOp(s) if s == "<>"));
    assert!(matches!(&ts[13], Token::Punc(s) if s == ","));
    assert_eq!(ts.len(), 14);
}

#[test]
fn lexical_errors() {
    assert!(matches!(tokens("PRINT \"open"), Err(Error::UnterminatedString)));
    assert!(matches!(tokens("2 ^ 3"), Err(Error::UnexpectedOperator)));
    assert!(tokens("  \t\n").unwrap().is_empty());
}

#[test]
fn grammar_errors() {
    assert!(matches!(load("LET = 3".to_string()), Err(Error::UnexpectedToken)));
    assert!(matches!(load("INPUT X".to_string()), Err(Error::ExpectedPrompt)));
    assert!(matches!(load("FOR I = 1 TO 3 PRINT I NEXT J".to_string()), Err(Error::MismatchedNext)));
    assert!(matches!(load("FOR I = 1 TO 3 PRINT I".to_string()), Err(Error::MismatchedNext)));
    assert!(matches!(load("PRINT SIN(1 2)".to_string()), Err(Error::MalformedArgumentList)));
    assert!(matches!(load("PRINT 1.5".to_string()), Err(Error::InvalidNumber)));
    assert!(matches!(load("THEN".to_string()), Err(Error::UnexpectedToken)));
}

#[test]
fn type_errors() {
    assert_eq!(run("PRINT \"a\" + 1", &[]).1, Some(Stop::Fault(Error::InvalidOperandType)));
    assert_eq!(run("IF 1 THEN PRINT 2", &[]).1, Some(Stop::Fault(Error::NonBooleanCondition)));
    assert_eq!(run("FOR I = \"a\" TO 2 NEXT I", &[]).1, Some(Stop::Fault(Error::InvalidLoopStart)));
    assert_eq!(run("FOR I = 1 TO 1 < 2 NEXT I", &[]).1, Some(Stop::Fault(Error::InvalidLoopEnd)));
    assert_eq!(run("FOR I = 1 TO 2 STEP \"s\" NEXT I", &[]).1, Some(Stop::Fault(Error::InvalidLoopStep)));
    assert_eq!(run("PRINT Q", &[]).1, Some(Stop::Fault(Error::UndefinedVariable)));
}

#[test]
fn relational_chains_associate_left() {
    // (1 < 2) < 3 compares a boolean with an integer.
    assert_eq!(run("PRINT 1 < 2 < 3", &[]).1, Some(Stop::Fault(Error::InvalidOperandType)));
}

#[test]
fn nested_statements_in_loops() {
    let src = "LET N = 0\nFOR I = 1 TO 4\n  IF I % 2 = 0 THEN N = N + I\n  FOR J = 1 TO 2 NEXT J\nNEXT I\nPRINT N";
    let (i, stop) = run(src, &[]);
    assert_eq!(stop, None);
    assert_eq!(printed(&i), vec!["6".to_string()]);
    assert_eq!(int_var(&i, "J"), 3);
}
