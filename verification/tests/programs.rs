use lscript::ast::AstNode;
use lscript::ast::Type;
use lscript::chance::random_between;
use lscript::errors::InterpretErrors;
use lscript::host::{Action, Event, FloatOp, FloatTask, Num};
use lscript::interpreter::Interpreter;
use lscript::lexer::lex;
use lscript::parser::Parser;
use lscript::value::{MatchResult, RuntimeValue};

struct Run {
    lines: Vec<String>,
    prompts: Vec<String>,
    pauses: Vec<Num>,
    result: Result<RuntimeValue, InterpretErrors>,
}

fn double(n: &Num) -> f64 {
    match n {
        Num::Int(i) => *i as f64,
        Num::Float(t) => t.parse::<f64>().unwrap(),
    }
}

fn compute(task: &FloatTask) -> Event {
    match task {
        FloatTask::Literal(t) | FloatTask::Parse(t) => match t.parse::<f64>() {
            Ok(v) => Event::Float(v.to_string()),
            Err(e) => Event::Failed(e.to_string()),
        },
        FloatTask::FromInt(n) => Event::Float((*n as f64).to_string()),
        FloatTask::ToInt(t) => Event::Number(t.parse::<f64>().unwrap() as i64),
        FloatTask::Binary { op, left, right } => {
            let l = double(left);
            let r = double(right);
            match op {
                FloatOp::Add => Event::Float((l + r).to_string()),
                FloatOp::Sub => Event::Float((l - r).to_string()),
                FloatOp::Mul => Event::Float((l * r).to_string()),
                FloatOp::Div => Event::Float((l / r).to_string()),
                FloatOp::Rem => Event::Float((l % r).to_string()),
                FloatOp::Eq => Event::Boolean(l == r),
                FloatOp::Ne => Event::Boolean(l != r),
                FloatOp::Lt => Event::Boolean(l < r),
                FloatOp::Gt => Event::Boolean(l > r),
                FloatOp::Le => Event::Boolean(l <= r),
                FloatOp::Ge => Event::Boolean(l >= r),
            }
        }
    }
}

fn drive(it: &mut Interpreter, inputs: &[&str], files: &[(&str, &str)]) -> Run {
    let mut run = Run { lines: vec![], prompts: vec![], pauses: vec![], result: Ok(RuntimeValue::Void) };
    let mut inputs = inputs.iter();
    let mut event = Event::Resume;
    for _ in 0..100000 {
        let action = it.step(event);
        event = Event::Resume;
        match action {
            Action::Continue => {}
            Action::Print(line) => run.lines.push(line),
            Action::Input(prompt) => {
                run.prompts.push(prompt);
                event = match inputs.next() {
                    Some(line) => Event::Line(format!("{}\n", line)),
                    None => Event::Failed("end of input".to_string()),
                };
            }
            Action::Sleep(n) => run.pauses.push(n),
            Action::Import(path) => {
                event = match files.iter().find(|f| f.0 == path) {
                    Some(f) => Event::Source(f.1.to_string()),
                    None => Event::Failed("no such file".to_string()),
                };
            }
            Action::Compute(task) => event = compute(&task),
            Action::Done(result) => {
                run.result = result;
                return run;
            }
        }
    }
    panic!("the program did not end");
}

fn run_with(source: &str, inputs: &[&str], files: &[(&str, &str)]) -> Run {
    let tokens = lex(source).unwrap();
    let ast = Parser::new(tokens).parse().unwrap();
    let mut it = Interpreter::new();
    it.interpret(ast);
    drive(&mut it, inputs, files)
}

fn run(source: &str) -> Run {
    run_with(source, &[], &[])
}

fn output(source: &str) -> Vec<String> {
    let r = run(source);
    assert!(r.result.is_ok(), "{:?}", r.result);
    r.lines
}

fn failure(source: &str) -> InterpretErrors {
    run(source).result.unwrap_err()
}

fn n(v: i64) -> RuntimeValue {
    RuntimeValue::Number(v)
}

fn name(s: &str) -> String {
    s.to_string()
}

#[test]
fn scenario_sum_of_two_variables() {
    let r = run("let x: int = 2 let y: int = 3 print(x + y)");
    assert_eq!(r.lines, vec!["5"]);
    assert_eq!(r.result, Ok(RuntimeValue::Void));
}

#[test]
fn scenario_string_and_conversion() {
    assert_eq!(output("let s: string = \"hi\" print(s + \" \" + to(string, 42))"), vec!["hi 42"]);
}

#[test]
fn scenario_push_on_array() {
    assert_eq!(output("let a: array = [1,2,3] a.push(4) print(a)"), vec!["[1, 2, 3, 4]"]);
}

#[test]
fn scenario_factorial() {
    assert_eq!(
        output("func f(n: int) -> int { if (n <= 1) { return 1 } return n * f(n - 1) } print(f(5))"),
        vec!["120"]
    );
}

#[test]
fn scenario_assignment_to_constant_fails() {
    let r = run("let c: int & = 7 c = 8");
    assert_eq!(r.result, Err(InterpretErrors::ConstViolation { name: name("c") }));
    assert_eq!(r.result.unwrap_err().message(), "Cannot reassign constant c");
}

#[test]
fn scenario_for_over_integer() {
    assert_eq!(output("for (i in 3) { print(i) }"), vec!["1", "2", "3"]);
}

#[test]
fn for_over_integer_runs_max_zero_n_rounds() {
    assert_eq!(output("for (i in 0) { print(i) }"), Vec::<String>::new());
    assert_eq!(output("for (i in 0 - 2) { print(i) }"), Vec::<String>::new());
    assert_eq!(output("for (i in 1) { print(i) }"), vec!["1"]);
    let lines = output("for (i in 25) { print(i) }");
    assert_eq!(lines.len(), 25);
    for (k, line) in lines.iter().enumerate() {
        assert_eq!(line, &(k + 1).to_string());
    }
}

#[test]
fn for_over_array_string_and_constant() {
    assert_eq!(output("for (x in [1, \"a\", true]) { print(x) }"), vec!["1", "a", "true"]);
    assert_eq!(output("for (c in \"hey\") { print(c) }"), vec!["h", "e", "y"]);
    assert_eq!(output("let a: array & = [4, 5] for (x in a) { print(x) }"), vec!["4", "5"]);
    assert_eq!(failure("for (x in true) { }"), InterpretErrors::NotIterable);
}

#[test]
fn program_value_is_that_of_the_last_statement() {
    assert_eq!(run("1 + 2").result, Ok(n(3)));
    assert_eq!(run("").result, Ok(RuntimeValue::Void));
    assert_eq!(run("1 2 \"x\"").result, Ok(RuntimeValue::String(name("x"))));
}

#[test]
fn return_at_top_level_ends_the_program() {
    let r = run("print(1) return 5 print(2)");
    assert_eq!(r.lines, vec!["1"]);
    assert_eq!(r.result, Ok(RuntimeValue::ReturnValue(Box::new(n(5)))));
}

#[test]
fn constant_cannot_be_changed() {
    assert_eq!(
        failure("let c: int & = 7 c++"),
        InterpretErrors::InvalidStep { op: name("++") }
    );
    assert_eq!(
        failure("let c: int & = 7 c--"),
        InterpretErrors::InvalidStep { op: name("--") }
    );
    assert_eq!(failure("let a: array & = [1, 2] a[0] = 5"), InterpretErrors::NotIndexable);
    assert_eq!(
        failure("let a: array & = [1, 2] a.push(3)"),
        InterpretErrors::UnsupportedMethod { method: name("push") }
    );
    assert_eq!(
        failure("let c: int & = 7 let c: int = 8"),
        InterpretErrors::Redeclaration { name: name("c") }
    );
    assert_eq!(
        failure("let c: int & = 7 for (c in 3) { }"),
        InterpretErrors::ConstViolation { name: name("c") }
    );
    assert_eq!(output("let c: int & = 7 print(c) print(type(c))"), vec!["Const(7)", "const"]);
}

#[test]
fn integer_binding_takes_only_integers() {
    assert_eq!(
        failure("let x: int = 0 x = \"a\""),
        InterpretErrors::AssignMismatch { name: name("x") }
    );
    assert_eq!(
        failure("let x: int = 0 x = true"),
        InterpretErrors::AssignMismatch { name: name("x") }
    );
    assert_eq!(
        failure("let x: int = 0 x = [1]"),
        InterpretErrors::AssignMismatch { name: name("x") }
    );
    assert_eq!(
        failure("let x: int = 0 x = 1.5"),
        InterpretErrors::AssignMismatch { name: name("x") }
    );
    assert_eq!(output("let x: int = 0 x = 5 x = x + 1 print(x)"), vec!["6"]);
}

#[test]
fn assignment_makes_a_binding_where_none_is() {
    assert_eq!(output("y = 3 print(y)"), vec!["3"]);
    assert_eq!(run("y = 3").result, Ok(RuntimeValue::Void));
}

#[test]
fn assignment_to_something_else_fails() {
    assert_eq!(failure("1 = 2"), InterpretErrors::InvalidTarget);
}

#[test]
fn declared_type_is_checked() {
    assert_eq!(
        failure("let x: int = \"a\""),
        InterpretErrors::DeclaredTypeMismatch { name: name("x") }
    );
    assert_eq!(
        failure("let x: void = 1"),
        InterpretErrors::DeclaredTypeMismatch { name: name("x") }
    );
    assert_eq!(output("let r: string = \\a+\\ print(r)"), vec!["a+"]);
}

#[test]
fn redeclaration_fails() {
    assert_eq!(
        failure("let x: int = 1 let x: int = 2"),
        InterpretErrors::Redeclaration { name: name("x") }
    );
    assert_eq!(output("let x: int = 1 del(x) let x: string = \"a\" print(x)"), vec!["a"]);
}

#[test]
fn names_of_a_function_body_stay_inside() {
    assert_eq!(
        failure("func f() { let inner: int = 1 return inner } print(f()) print(inner)"),
        InterpretErrors::UndefinedVariable { name: name("inner") }
    );
    assert_eq!(
        failure("let outer: int = 1 func f() { return outer } f()"),
        InterpretErrors::UndefinedVariable { name: name("outer") }
    );
    assert_eq!(
        output("let x: int = 1 func f(x) { x = 50 return x } print(f(7)) print(x)"),
        vec!["50", "1"]
    );
}

#[test]
fn function_sees_the_functions_declared_before_the_call() {
    assert_eq!(
        output("func a() { return 1 } func b() { return a() + 1 } print(b())"),
        vec!["2"]
    );
    assert_eq!(
        failure("func b() { func inner() { return 1 } return 2 } b() inner()"),
        InterpretErrors::UndefinedFunction { name: name("inner") }
    );
}

#[test]
fn function_without_return_gives_its_last_value() {
    assert_eq!(output("func f() { 1 2 } print(f())"), vec!["2"]);
    assert_eq!(output("func f() { } print(f())"), vec!["()"]);
}

#[test]
fn call_failures() {
    assert_eq!(failure("f()"), InterpretErrors::UndefinedFunction { name: name("f") });
    assert_eq!(
        failure("func f(a, b) { } f(1)"),
        InterpretErrors::ArityMismatch { name: name("f"), expected: 2, got: 1 }
    );
    assert_eq!(failure("print(x)"), InterpretErrors::UndefinedVariable { name: name("x") });
}

#[test]
fn arguments_are_evaluated_from_left_to_right() {
    assert_eq!(
        output("func p(x) { print(x) return x } func f(a, b, c) { return a + b + c } print(f(p(1), p(2), p(3)))"),
        vec!["1", "2", "3", "6"]
    );
    assert_eq!(output("print([1, 2][0] + [3][0])"), vec!["4"]);
}

#[test]
fn if_takes_truth_values_and_integers() {
    assert_eq!(output("if (true) { print(1) } else { print(2) }"), vec!["1"]);
    assert_eq!(output("if (false) { print(1) } else { print(2) }"), vec!["2"]);
    assert_eq!(output("if (false) { print(1) }"), Vec::<String>::new());
    assert_eq!(output("if (5) { print(1) } else { print(2) }"), vec!["1"]);
    assert_eq!(output("if (0) { print(1) } else { print(2) }"), vec!["2"]);
    assert_eq!(output("if (0 - 1) { print(1) } else { print(2) }"), vec!["2"]);
    assert_eq!(failure("if (\"x\") { }"), InterpretErrors::ConditionMismatch);
}

#[test]
fn question_form_runs_like_if() {
    assert_eq!(output("let ok: bool = true ok ? { print(1) } else { print(2) }"), vec!["1"]);
    assert_eq!(
        output("func no() { return false } no() ? { print(1) } else { print(2) }"),
        vec!["2"]
    );
}

#[test]
fn while_loop() {
    assert_eq!(output("let i: int = 0 while (i < 3) { print(i) i++ }"), vec!["0", "1", "2"]);
    assert_eq!(output("while (1) { print(1) }"), Vec::<String>::new());
    assert_eq!(run("while (false) { }").result, Ok(RuntimeValue::Void));
}

#[test]
fn for_loop_with_three_expressions() {
    assert_eq!(
        output("for (let i: int = 0, i < 3, i++) { print(i) }"),
        vec!["0", "1", "2"]
    );
}

#[test]
fn postfix_steps() {
    assert_eq!(output("let i: int = 5 print(i++) print(i--) print(i)"), vec!["6", "5", "5"]);
    assert_eq!(failure("x++"), InterpretErrors::UndefinedVariable { name: name("x") });
    assert_eq!(failure("let s: string = \"a\" s++"), InterpretErrors::InvalidStep { op: name("++") });
    assert_eq!(failure("(1)++"), InterpretErrors::StepTarget);
}

#[test]
fn arrays_and_indices() {
    assert_eq!(output("let a: array = [10, 20] print(a[1])"), vec!["20"]);
    assert_eq!(
        failure("let a: array = [10, 20] a[5]"),
        InterpretErrors::IndexOutOfBounds { index: 5, len: 2 }
    );
    assert_eq!(output("let a: array = [10, 20] a[0] = 7 print(a)"), vec!["[7, 20]"]);
    assert_eq!(
        failure("let a: array = [10, 20] a[2] = 7"),
        InterpretErrors::IndexOutOfBounds { index: 2, len: 2 }
    );
    assert_eq!(failure("let s: string = \"ab\" s[0] = 7"), InterpretErrors::NotIndexable);
    assert_eq!(run("[1, 2][0] = 9").result, Ok(RuntimeValue::Array(vec![n(9), n(2)])));
}

#[test]
fn methods() {
    assert_eq!(output("print(\"ab\".chars())"), vec!["[\"a\", \"b\"]"]);
    assert_eq!(output("print([1].push(2))"), vec!["[1, 2]"]);
    assert_eq!(
        failure("[1].push()"),
        InterpretErrors::ArityMismatch { name: name("push"), expected: 1, got: 0 }
    );
    assert_eq!(
        failure("\"a\".chars(1)"),
        InterpretErrors::ArityMismatch { name: name("chars"), expected: 0, got: 1 }
    );
    assert_eq!(
        failure("[1].pop()"),
        InterpretErrors::UnsupportedMethod { method: name("pop") }
    );
}

#[test]
fn delete() {
    assert_eq!(
        failure("let x: int = 1 del(x) print(x)"),
        InterpretErrors::UndefinedVariable { name: name("x") }
    );
    assert_eq!(run("del(1 + 1)").result, Ok(n(2)));
    assert_eq!(run("let x: int = 1 del(x)").result, Ok(RuntimeValue::Void));
}

#[test]
fn kinds() {
    assert_eq!(
        output("print(type(1)) print(type(\"a\")) print(type([1])) print(type(true)) print(type(1.5)) print(type(\\a\\))"),
        vec!["int", "string", "array", "bool", "float", "regex"]
    );
}

#[test]
fn integer_operators() {
    assert_eq!(output("print(7 / 2) print(2 * 3 + 1) print(1 - 3)"), vec!["3", "7", "-2"]);
    assert_eq!(failure("1 / 0"), InterpretErrors::DivisionByZero);
    assert_eq!(output("print(1 < 2) print(2 == 3) print(1 && 0)"), vec!["true", "false", "false"]);
}

#[test]
fn arithmetic_on_doubles() {
    assert_eq!(output("print(1.5 + 2)"), vec!["3.5"]);
    assert_eq!(output("print(1.50)"), vec!["1.5"]);
    assert_eq!(output("print(3 * 0.5)"), vec!["1.5"]);
    assert_eq!(output("print(1.5 < 2.5) print(2.0 == 2)"), vec!["true", "true"]);
    assert_eq!(output("print(to(int, 2.7)) print(to(float, 3)) print(to(float, \"1e2\"))"), vec!["2", "3", "100"]);
    assert_eq!(output("print(\"v=\" + 0.25)"), vec!["v=0.25"]);
    assert_eq!(failure("1.0 / 0.0"), InterpretErrors::DivisionByZero);
    assert_eq!(failure("1.0 / 0"), InterpretErrors::DivisionByZero);
    assert_eq!(
        failure("to(float, \"abc\")"),
        InterpretErrors::UnsupportedConversion { target: Type::Float }
    );
    assert_eq!(output("let x: float = 0.5 x = x + 1 print(x)"), vec!["1.5"]);
}

#[test]
fn input_is_read_through_the_host() {
    let r = run_with("let who: string = input(\"Name: \") print(\"Hi \" + who)", &["Bob"], &[]);
    assert_eq!(r.prompts, vec!["Name: "]);
    assert_eq!(r.lines, vec!["Hi Bob"]);
    let r = run_with("input(\"? \")", &[], &[]);
    assert_eq!(r.result, Err(InterpretErrors::UnexpectedReply));
}

#[test]
fn sleep_is_handed_to_the_host() {
    let r = run("sleep(5) sleep(2.5)");
    assert_eq!(r.pauses, vec![Num::Int(5), Num::Float("2.5".to_string())]);
    assert_eq!(r.result, Ok(RuntimeValue::Void));
    assert_eq!(failure("sleep(\"1\")"), InterpretErrors::SleepMismatch);
}

#[test]
fn import_runs_in_the_importing_scope() {
    let files = [("lib.l", "func twice(n: int) { return n * 2 } let shared: int = 4")];
    let r = run_with("import \"lib.l\" print(twice(shared))", &[], &files);
    assert_eq!(r.lines, vec!["8"]);
    let r = run_with("import \"none.l\"", &[], &files);
    assert_eq!(
        r.result,
        Err(InterpretErrors::ImportFailed { path: name("none.l"), message: name("no such file") })
    );
    let r = run_with("import \"bad.l\"", &[], &[("bad.l", "let # = 1")]);
    assert_eq!(
        r.result,
        Err(InterpretErrors::ImportFailed { path: name("bad.l"), message: name("Unexpected character: # at position 4") })
    );
    let r = run_with("import \"bad.l\"", &[], &[("bad.l", "let = 1")]);
    assert_eq!(
        r.result,
        Err(InterpretErrors::ImportFailed { path: name("bad.l"), message: name("Syntax error at position 1: expected ID, found ASSIGN") })
    );
}

#[test]
fn random_lies_between_its_bounds() {
    assert_eq!(output("print(random(3, 3))"), vec!["3"]);
    for _ in 0..50 {
        let r = run("random(1, 6)");
        match r.result {
            Ok(RuntimeValue::Number(v)) => assert!(1 <= v && v <= 6),
            other => panic!("{:?}", other),
        }
        let r = run("random(6, 0 - 2)");
        match r.result {
            Ok(RuntimeValue::Number(v)) => assert!(-2 <= v && v <= 6),
            other => panic!("{:?}", other),
        }
    }
    assert_eq!(failure("random(1, \"a\")"), InterpretErrors::RandomMismatch);
    let v = random_between(10, -10);
    assert!(-10 <= v && v <= 10);
    let mut seen = std::collections::HashSet::new();
    for _ in 0..200 {
        seen.insert(random_between(1, 4));
    }
    assert!(seen.len() > 1);
}

#[test]
fn patterns() {
    assert_eq!(
        output("print(compile(\"a1b22\", \\[0-9]+\\))"),
        vec!["Match(text: \"1\", start: 1, end: 2)"]
    );
    assert_eq!(output("print(compile(\"abc\", \\[0-9]+\\))"), vec!["()"]);
    assert_eq!(
        output("print(compile_all(\"a1b22\", \\[0-9]+\\))"),
        vec!["[Match(text: \"1\", start: 1, end: 2), Match(text: \"22\", start: 3, end: 5)]"]
    );
    assert_eq!(
        run("compile(\"a1\", \\[0-9]\\)").result,
        Ok(RuntimeValue::MatchValue(Box::new(MatchResult {
            text: name("1"),
            start: 1,
            end: 2,
        })))
    );
    assert_eq!(failure("compile(1, \\a\\)"), InterpretErrors::CompileMismatch);
}

#[test]
fn same_program_gives_the_same_steps() {
    let source = "let a: array = [3, 1] for (x in a) { print(x * 2) } print(a + [0])";
    let first = run(source);
    let second = run(source);
    assert_eq!(first.lines, second.lines);
    assert_eq!(first.result, second.result);
    let ast = || Parser::new(lex(source).unwrap()).parse().unwrap();
    let mut one = Interpreter::new();
    let mut two = Interpreter::new();
    one.interpret(ast());
    two.interpret(ast());
    for _ in 0..200 {
        assert_eq!(one.step_with(Event::Resume, 0), two.step_with(Event::Resume, 0));
    }
}

#[test]
fn step_with_uses_the_integer_given() {
    let mut it = Interpreter::new();
    it.interpret(Parser::new(lex("random(1, 100)").unwrap()).parse().unwrap());
    let mut last = Action::Continue;
    for _ in 0..20 {
        if it.next_draw() == Some((1, 100)) {
            assert_eq!(it.step_with(Event::Resume, 42), Action::Continue);
            continue;
        }
        last = it.step_with(Event::Resume, 0);
        if let Action::Done(_) = last {
            break;
        }
    }
    assert_eq!(last, Action::Done(Ok(n(42))));
}

#[test]
fn interpreter_keeps_its_outer_scope_between_programs() {
    let mut it = Interpreter::new();
    it.interpret(Parser::new(lex("let x: int = 4").unwrap()).parse().unwrap());
    assert_eq!(drive(&mut it, &[], &[]).result, Ok(RuntimeValue::Void));
    it.interpret_single(AstNode::print(AstNode::Identifier(name("x"))));
    let r = drive(&mut it, &[], &[]);
    assert_eq!(r.lines, vec!["4"]);
    it.interpret(Parser::new(lex("func f() { y }  f()").unwrap()).parse().unwrap());
    assert_eq!(
        drive(&mut it, &[], &[]).result,
        Err(InterpretErrors::UndefinedVariable { name: name("y") })
    );
    it.interpret_single(AstNode::Identifier(name("x")));
    assert_eq!(drive(&mut it, &[], &[]).result, Ok(n(4)));
}

#[test]
fn finished_interpreter_stays_finished() {
    let mut it = Interpreter::new();
    assert_eq!(it.step(Event::Resume), Action::Done(Ok(RuntimeValue::Void)));
    assert_eq!(it.step(Event::Line(name("x"))), Action::Done(Ok(RuntimeValue::Void)));
}

fn returned(v: i64) -> Result<RuntimeValue, InterpretErrors> {
    Ok(RuntimeValue::ReturnValue(Box::new(n(v))))
}

#[test]
fn return_leaves_a_loop_over_an_integer() {
    let mut it = Interpreter::new();
    it.interpret_single(AstNode::ForIn {
        var: name("i"),
        iterable: Box::new(AstNode::Number(3)),
        body: vec![AstNode::Return(Box::new(AstNode::Identifier(name("i"))))],
    });
    assert_eq!(drive(&mut it, &[], &[]).result, returned(1));
    it.interpret_single(AstNode::Identifier(name("i")));
    assert_eq!(drive(&mut it, &[], &[]).result, Ok(n(1)));

    let r = run("for (i in 3) { print(i) return i print(0) } print(9)");
    assert_eq!(r.lines, vec!["1"]);
    assert_eq!(r.result, returned(1));
}

#[test]
fn return_leaves_the_last_round_of_a_loop() {
    let r = run("for (i in 3) { if (i == 3) { return i } } print(9)");
    assert_eq!(r.lines, Vec::<String>::new());
    assert_eq!(r.result, returned(3));
    let r = run("for (x in [4]) { return x }");
    assert_eq!(r.result, returned(4));
}

#[test]
fn return_leaves_a_loop_over_items() {
    assert_eq!(
        output(
            "func f(a) { for (x in a) { if (x == 3) { return x } } return 0 } \
             print(f([1, 2, 3, 4])) print(f([1, 2]))"
        ),
        vec!["3", "0"]
    );
    let r = run("for (c in \"abc\") { print(c) if (c == \"b\") { return c } }");
    assert_eq!(r.lines, vec!["a", "b"]);
    assert_eq!(r.result, Ok(RuntimeValue::ReturnValue(Box::new(RuntimeValue::String(name("b"))))));
}

#[test]
fn return_leaves_a_while_loop() {
    let r = run("let i: int = 0 while (i < 5) { i++ if (i == 2) { return i } print(i) } print(9)");
    assert_eq!(r.lines, vec!["1"]);
    assert_eq!(r.result, returned(2));
    assert_eq!(
        output("func f() { let i: int = 0 while (true) { i++ if (i == 4) { return i } } } print(f())"),
        vec!["4"]
    );
}

#[test]
fn return_leaves_a_loop_with_three_expressions() {
    let r = run("for (let i: int = 0, i < 5, i++) { if (i == 2) { return i } print(i) } print(9)");
    assert_eq!(r.lines, vec!["0", "1"]);
    assert_eq!(r.result, returned(2));
    let mut it = Interpreter::new();
    it.interpret(
        Parser::new(lex("for (let k: int = 0, k < 5, k++) { return 7 }").unwrap()).parse().unwrap(),
    );
    assert_eq!(drive(&mut it, &[], &[]).result, returned(7));
    it.interpret_single(AstNode::Identifier(name("k")));
    assert_eq!(drive(&mut it, &[], &[]).result, Ok(n(0)));
}

#[test]
fn return_leaves_nested_loops() {
    assert_eq!(
        output(
            "func f() { for (i in 3) { for (j in 3) { if ((i * j) == 4) { return i + j } } } return 0 } \
             print(f())"
        ),
        vec!["4"]
    );
}

fn script(source: &str, steps: usize, draw: i64) -> (Vec<Action>, Interpreter) {
    let mut it = Interpreter::new();
    it.interpret(Parser::new(lex(source).unwrap()).parse().unwrap());
    let events: Vec<Event> = (0..steps).map(|_| Event::Resume).collect();
    let draws = vec![draw; steps];
    let actions = it.run_steps(events, &draws);
    (actions, it)
}

#[test]
fn run_with_given_answers_and_draws_is_fixed() {
    let source = "let r: int = random(1, 10) print(r) for (i in 2) { print(r + i) }";
    let (first, _) = script(source, 200, 7);
    let (second, _) = script(source, 200, 7);
    assert_eq!(first, second);
    assert_eq!(first.len(), 200);
    let lines: Vec<&Action> = first.iter().filter(|a| matches!(a, Action::Print(_))).collect();
    assert_eq!(
        lines,
        vec![&Action::Print(name("7")), &Action::Print(name("8")), &Action::Print(name("9"))]
    );
    assert!(first.contains(&Action::Done(Ok(RuntimeValue::Void))));
    let (other, _) = script(source, 200, 3);
    assert!(other.contains(&Action::Print(name("3"))));
}

#[test]
fn run_takes_as_many_steps_as_it_has_answers_and_draws() {
    let mut it = Interpreter::new();
    it.interpret(Parser::new(lex("print(1) print(2)").unwrap()).parse().unwrap());
    let actions = it.run_steps(vec![Event::Resume, Event::Resume, Event::Resume], &vec![0, 0]);
    assert_eq!(actions.len(), 2);
    let mut it = Interpreter::new();
    assert_eq!(it.run_steps(vec![], &vec![1, 2]), Vec::<Action>::new());
    assert_eq!(
        it.run_steps(vec![Event::Resume], &vec![1]),
        vec![Action::Done(Ok(RuntimeValue::Void))]
    );
}
