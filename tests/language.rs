use interp::ast::Stmt;
use interp::error::{Expected, InterpErr, RuntimeMsg, SyntaxMsg};
use interp::interp::{run, Interpreter};
use interp::value::{Callable, LoxObject};
use interp::lexer::Lexer;
use interp::number::Num;
use interp::parser::Parser;
use interp::token::{Token, TokenKind};

fn scan(src: &str) -> Result<Vec<Token>, InterpErr> {
    let mut lexer = Lexer::new(src.to_string());
    lexer.tokenized()
}

fn exec(src: &str) -> (Result<(), InterpErr>, Vec<String>) {
    let mut interp = Interpreter::new();
    let r = run(src.to_string(), &mut interp);
    (r, interp.take_output())
}

fn output(src: &str) -> Vec<String> {
    let (r, out) = exec(src);
    assert!(r.is_ok(), "unexpected error: {:?}", r);
    out
}

fn runtime_error(src: &str) -> (usize, RuntimeMsg, Vec<String>) {
    match exec(src) {
        (Err(InterpErr::RuntimeError { line, msg }), out) => (line, msg, out),
        other => panic!("expected a runtime error, got {:?}", other),
    }
}

fn syntax_error(src: &str) -> (usize, SyntaxMsg, String) {
    match exec(src) {
        (Err(InterpErr::SyntaxError { line, msg, place }), _) => (line, msg, place),
        other => panic!("expected a syntax error, got {:?}", other),
    }
}

fn is_number(k: &TokenKind, n: i64) -> bool {
    match k {
        TokenKind::Number(x) => x.num == n && x.den == 1,
        _ => false,
    }
}

#[test]
fn scan_one_plus_two() {
    let ts = scan("1 + 2").unwrap();
    assert_eq!(ts.len(), 4);
    assert!(is_number(&ts[0].kind, 1));
    assert!(matches!(ts[1].kind, TokenKind::Plus));
    assert!(is_number(&ts[2].kind, 2));
    assert!(matches!(ts[3].kind, TokenKind::Eof));
    assert_eq!(ts[0].lexeme, "1");
    assert_eq!(ts[1].lexeme, "+");
    assert_eq!(ts[2].lexeme, "2");
    assert_eq!(ts[3].lexeme, "");
    for t in &ts {
        assert_eq!(t.line, 1);
    }
}

#[test]
fn scan_counts_lines() {
    let ts = scan("1\n+\n\n2").unwrap();
    let lines: Vec<usize> = ts.iter().map(|t| t.line).collect();
    assert_eq!(lines, vec![1, 2, 4, 4]);
}

#[test]
fn scan_string_payload_and_lines() {
    let ts = scan("\"ab\ncd\" x").unwrap();
    match &ts[0].kind {
        TokenKind::String(s) => assert_eq!(s, "ab\ncd"),
        other => panic!("{:?}", other),
    }
    assert_eq!(ts[0].lexeme, "\"ab\ncd\"");
    assert_eq!(ts[0].line, 2);
    assert!(matches!(ts[1].kind, TokenKind::Identifier));
    assert_eq!(ts[1].lexeme, "x");
    assert_eq!(ts[1].line, 2);
}

#[test]
fn scan_two_char_operators() {
    let ts = scan("! != = == < <= > >= /").unwrap();
    assert!(matches!(ts[0].kind, TokenKind::Bang));
    assert!(matches!(ts[1].kind, TokenKind::BangEqual));
    assert!(matches!(ts[2].kind, TokenKind::Equal));
    assert!(matches!(ts[3].kind, TokenKind::EqualEqual));
    assert!(matches!(ts[4].kind, TokenKind::Less));
    assert!(matches!(ts[5].kind, TokenKind::LessEqual));
    assert!(matches!(ts[6].kind, TokenKind::Greater));
    assert!(matches!(ts[7].kind, TokenKind::GreaterEqual));
    assert!(matches!(ts[8].kind, TokenKind::Slash));
    assert_eq!(ts[7].lexeme, ">=");
}

#[test]
fn scan_skips_comments() {
    let ts = scan("1 // two\n3").unwrap();
    assert_eq!(ts.len(), 3);
    assert!(is_number(&ts[1].kind, 3));
    assert_eq!(ts[1].line, 2);
}

#[test]
fn scan_keywords_and_identifiers() {
    let ts = scan("let fn for while and or print return if else true false null classy _x9").unwrap();
    assert!(matches!(ts[0].kind, TokenKind::Let));
    assert!(matches!(ts[1].kind, TokenKind::Fn));
    assert!(matches!(ts[2].kind, TokenKind::For));
    assert!(matches!(ts[3].kind, TokenKind::While));
    assert!(matches!(ts[4].kind, TokenKind::And));
    assert!(matches!(ts[5].kind, TokenKind::Or));
    assert!(matches!(ts[6].kind, TokenKind::Print));
    assert!(matches!(ts[7].kind, TokenKind::Return));
    assert!(matches!(ts[8].kind, TokenKind::If));
    assert!(matches!(ts[9].kind, TokenKind::Else));
    assert!(matches!(ts[10].kind, TokenKind::True));
    assert!(matches!(ts[11].kind, TokenKind::False));
    assert!(matches!(ts[12].kind, TokenKind::Null));
    assert!(matches!(ts[13].kind, TokenKind::Identifier));
    assert!(matches!(ts[14].kind, TokenKind::Identifier));
    assert_eq!(ts[14].lexeme, "_x9");
}

#[test]
fn scan_fractions() {
    let ts = scan("3.25 7. 8").unwrap();
    match &ts[0].kind {
        TokenKind::Number(x) => {
            assert_eq!(x.num, 13);
            assert_eq!(x.den, 4);
        },
        other => panic!("{:?}", other),
    }
    assert!(is_number(&ts[1].kind, 7));
    assert!(matches!(ts[2].kind, TokenKind::Dot));
    assert!(is_number(&ts[3].kind, 8));
}

#[test]
fn scan_errors() {
    match scan("1 +\n @") {
        Err(InterpErr::SyntaxError { line, msg, place }) => {
            assert_eq!(line, 2);
            assert_eq!(msg, SyntaxMsg::UnexpectedCharacter);
            assert_eq!(place, "@");
        },
        other => panic!("{:?}", other),
    }
    match scan("\"abc\n") {
        Err(InterpErr::SyntaxError { line, msg, .. }) => {
            assert_eq!(line, 2);
            assert_eq!(msg, SyntaxMsg::UnterminatedString);
        },
        other => panic!("{:?}", other),
    }
    let ts = scan("99999999999999999999").unwrap();
    match &ts[0].kind {
        TokenKind::Number(x) => assert_eq!((x.num, x.den), (1, 0)),
        other => panic!("{:?}", other),
    }
    assert_eq!(ts[0].lexeme, "99999999999999999999");
}

#[test]
fn precedence_and_grouping() {
    assert_eq!(output("print 2 + 3 * 4;"), vec!["14"]);
    assert_eq!(output("print (2 + 3) * 4;"), vec!["20"]);
    assert_eq!(output("print 10 - 4 - 3;"), vec!["3"]);
    assert_eq!(output("print -2 * -3;"), vec!["6"]);
}

#[test]
fn string_concatenation() {
    assert_eq!(output("print \"a\" + \"b\";"), vec!["ab"]);
    let (line, msg, _) = runtime_error("print \"a\" + 1;");
    assert_eq!(line, 1);
    assert!(matches!(msg, RuntimeMsg::OperandsMustBeStringsOrNumbers));
}

#[test]
fn truthiness() {
    assert_eq!(output("print !null;"), vec!["true"]);
    assert_eq!(output("print !0;"), vec!["false"]);
    assert_eq!(output("print !false;"), vec!["true"]);
    assert_eq!(output("print !\"\";"), vec!["false"]);
    assert_eq!(output("if (0) print \"yes\"; else print \"no\";"), vec!["yes"]);
    assert_eq!(output("if (null) print \"yes\"; else print \"no\";"), vec!["no"]);
}

#[test]
fn block_scoping() {
    assert_eq!(output("let a = 1; { let a = 2; print a; } print a;"), vec!["2", "1"]);
    let (line, msg, out) = runtime_error("{ let b = 1; print b; }\nprint b;");
    assert_eq!(out, vec!["1"]);
    assert_eq!(line, 2);
    assert!(matches!(msg, RuntimeMsg::UndefinedVariable(ref n) if n == "b"));
    assert_eq!(output("let a = 1; { a = 5; } print a;"), vec!["5"]);
}

#[test]
fn closures_share_captured_state() {
    let src = "fn makeCounter() { let count = 0; fn inc() { count = count + 1; return count; } return inc; }\n\
               let c = makeCounter();\n\
               print c();\n\
               print c();";
    assert_eq!(output(src), vec!["1", "2"]);
    let two = "fn makeCounter() { let count = 0; fn inc() { count = count + 1; return count; } return inc; }\n\
               let a = makeCounter(); let b = makeCounter();\n\
               print a(); print a(); print b();";
    assert_eq!(output(two), vec!["1", "2", "1"]);
}

#[test]
fn closures_are_lexical() {
    let src = "let x = \"global\";\n\
               fn show_x() { print x; }\n\
               fn f() { let x = \"local\"; show_x(); }\n\
               f();";
    assert_eq!(output(src), vec!["global"]);
}

#[test]
fn undefined_variable_lines() {
    let (line, msg, _) = runtime_error("let x = 1;\nprint y;");
    assert_eq!(line, 2);
    assert!(matches!(msg, RuntimeMsg::UndefinedVariable(ref n) if n == "y"));
    let (line, msg, _) = runtime_error("\n\ny = 3;");
    assert_eq!(line, 3);
    assert!(matches!(msg, RuntimeMsg::UndefinedVariable(ref n) if n == "y"));
}

#[test]
fn short_circuit_skips_right_operand() {
    assert_eq!(output("false and show(\"called\");"), Vec::<String>::new());
    assert_eq!(output("true or show(\"called\");"), Vec::<String>::new());
    assert_eq!(output("true and show(\"called\");"), vec!["called"]);
    assert_eq!(output("print null or \"x\";"), vec!["x"]);
    assert_eq!(output("print 1 and 2;"), vec!["2"]);
    assert_eq!(output("print false and 1;"), vec!["false"]);
}

#[test]
fn arity_mismatch_before_body() {
    let decl = "fn f(a, b) { show(\"body\"); }\n";
    let (line, msg, out) = runtime_error(&format!("{}f(1);", decl));
    assert_eq!(line, 2);
    assert!(matches!(msg, RuntimeMsg::Arity { expected: 2, got: 1 }));
    assert!(out.is_empty());
    let (_, msg, out) = runtime_error(&format!("{}f(1, 2, 3);", decl));
    assert!(matches!(msg, RuntimeMsg::Arity { expected: 2, got: 3 }));
    assert!(out.is_empty());
    assert_eq!(output(&format!("{}f(1, 2);", decl)), vec!["body"]);
}

#[test]
fn for_loop_desugars() {
    assert_eq!(output("for (let i = 0; i < 3; i = i + 1) print i;"), vec!["0", "1", "2"]);
    let (_, msg, out) = runtime_error("for (let i = 0; i < 3; i = i + 1) print i;\nprint i;");
    assert_eq!(out, vec!["0", "1", "2"]);
    assert!(matches!(msg, RuntimeMsg::UndefinedVariable(ref n) if n == "i"));
    let mut lexer = Lexer::new("for (let i = 0; i < 3; i = i + 1) print i;".to_string());
    let mut parser = Parser::new(lexer.tokenized().unwrap());
    let stmts = parser.parse().unwrap();
    assert_eq!(stmts.len(), 1);
    assert!(matches!(stmts[0], Stmt::Block(_)));
    let mut lexer = Lexer::new("for (;;) print 1;".to_string());
    let mut parser = Parser::new(lexer.tokenized().unwrap());
    let stmts = parser.parse().unwrap();
    assert!(matches!(stmts[0], Stmt::WhileStmt { .. }));
}

#[test]
fn while_loop() {
    assert_eq!(output("let i = 3; while (i > 0) { print i; i = i - 1; }"), vec!["3", "2", "1"]);
}

#[test]
fn division_and_number_text() {
    assert_eq!(output("print 7 / 2;"), vec!["3.5"]);
    assert_eq!(output("print 1 / 3;"), vec!["0.3333333333333333"]);
    assert_eq!(output("print -3 / 2;"), vec!["-1.5"]);
    assert_eq!(output("print 0.1 + 0.2;"), vec!["0.3"]);
    assert_eq!(output("print 2.50 * 2;"), vec!["5"]);
    assert_eq!(output("print 0.1234567890123456789999;"), vec!["0.1234567890123456"]);
}

#[test]
fn division_by_zero_follows_doubles() {
    assert_eq!(output("print 1 / 0;"), vec!["inf"]);
    assert_eq!(output("print -1 / 0;"), vec!["-inf"]);
    assert_eq!(output("print 0 / 0;"), vec!["NaN"]);
    assert_eq!(output("let n = 0 / 0; print n == n; print n != n;"), vec!["false", "true"]);
    assert_eq!(output("let i = 1 / 0; print i - i; print i * 0; print 1 / i; print -i < 0;"), vec!["NaN", "NaN", "0", "true"]);
    assert_eq!(output("let n = 0 / 0; print n < 1; print n >= 1; print 1 <= n;"), vec!["false", "false", "false"]);
    assert_eq!(output("print 1 / 0 == 2 / 0;"), vec!["true"]);
}

#[test]
fn number_range() {
    assert_eq!(output("print 9223372036854775807 + 1;"), vec!["inf"]);
    assert_eq!(output("print -9223372036854775807 - 2;"), vec!["-inf"]);
    assert_eq!(output("print 9223372036854775807 - 1;"), vec!["9223372036854775806"]);
    assert_eq!(output("print 99999999999999999999;"), vec!["inf"]);
    let src = "let x = 1; for (let i = 0; i < 30; i = i + 1) x = x / 3; print x * 0 == 0; print x > 0;";
    assert_eq!(output(src), vec!["true", "true"]);
}

#[test]
fn negation_always_succeeds() {
    assert_eq!(output("print -(1 / 0);"), vec!["-inf"]);
    assert_eq!(output("print -(0 / 0);"), vec!["NaN"]);
    let mut interp = Interpreter::new();
    interp.set_clock(i64::MIN);
    run("print -clock();".to_string(), &mut interp).unwrap();
    assert_eq!(interp.take_output(), vec!["inf"]);
}

#[test]
fn equality_and_comparison() {
    assert_eq!(output("print 1 == \"1\";"), vec!["false"]);
    assert_eq!(output("print null == null;"), vec!["true"]);
    assert_eq!(output("print 1 == 1.0;"), vec!["true"]);
    assert_eq!(output("print \"a\" != \"b\";"), vec!["true"]);
    assert_eq!(output("print 1 < 2; print 2 <= 2; print 3 > 4; print 4 >= 5;"), vec!["true", "true", "false", "false"]);
    let (_, msg, _) = runtime_error("print \"a\" < 1;");
    assert!(matches!(msg, RuntimeMsg::OperandsMustBeNumbers));
    let (_, msg, _) = runtime_error("print -\"a\";");
    assert!(matches!(msg, RuntimeMsg::OperandMustBeNumber));
}

#[test]
fn calling_a_non_function() {
    let (line, msg, _) = runtime_error("let s = \"a\";\ns();");
    assert_eq!(line, 2);
    assert!(matches!(msg, RuntimeMsg::NotCallable));
}

#[test]
fn recursion_and_return() {
    let src = "fn fib(n) { if (n < 2) return n; return fib(n - 1) + fib(n - 2); }\nprint fib(15);";
    assert_eq!(output(src), vec!["610"]);
    let src = "fn first() { let i = 0; while (true) { i = i + 1; if (i == 4) return i; } }\nprint first();";
    assert_eq!(output(src), vec!["4"]);
    assert_eq!(output("fn f() {} print f();"), vec!["null"]);
}

#[test]
fn writing_callables() {
    assert_eq!(output("fn f() {} print f;"), vec!["<fn f>"]);
    assert_eq!(output("print clock;"), vec!["<native fn> clock"]);
    assert_eq!(output("print show;"), vec!["<native fn show>"]);
    assert_eq!(output("print true; print null; print \"x y\";"), vec!["true", "null", "x y"]);
}

#[test]
fn clock_reads_the_supplied_time() {
    let mut interp = Interpreter::new();
    interp.set_clock(42);
    run("print clock();".to_string(), &mut interp).unwrap();
    assert_eq!(interp.take_output(), vec!["42"]);
}

#[test]
fn step_limit_stops_endless_loop() {
    let mut interp = Interpreter::with_fuel(5);
    let r = run("let a = 1;\nwhile (true) {}".to_string(), &mut interp);
    assert!(matches!(r, Err(InterpErr::RuntimeError { line: 2, msg: RuntimeMsg::StepLimit })));
    let r = run("for (;;\n) {}".to_string(), &mut interp);
    assert!(matches!(r, Err(InterpErr::RuntimeError { line: 2, msg: RuntimeMsg::StepLimit })));
}

#[test]
fn state_persists_across_chunks() {
    let mut interp = Interpreter::new();
    run("let a = 1;".to_string(), &mut interp).unwrap();
    assert!(run("print a + missing;".to_string(), &mut interp).is_err());
    assert!(run("print (;".to_string(), &mut interp).is_err());
    run("print a;".to_string(), &mut interp).unwrap();
    assert_eq!(interp.take_output(), vec!["1"]);
}

#[test]
fn syntax_errors() {
    let (line, msg, place) = syntax_error("1 = 2;");
    assert_eq!(line, 1);
    assert_eq!(msg, SyntaxMsg::InvalidAssignmentTarget);
    assert_eq!(place, "=");
    let (_, msg, place) = syntax_error("print 1");
    assert_eq!(msg, SyntaxMsg::Expected(Expected::Semicolon));
    assert_eq!(place, "");
    let (line, msg, place) = syntax_error("print 1;\nprint );");
    assert_eq!(line, 2);
    assert_eq!(msg, SyntaxMsg::Expected(Expected::Expression));
    assert_eq!(place, ")");
    let (_, msg, _) = syntax_error("{ print 1;");
    assert_eq!(msg, SyntaxMsg::Expected(Expected::RightBrace));
    let (_, msg, _) = syntax_error("if 1 print 2;");
    assert_eq!(msg, SyntaxMsg::Expected(Expected::LeftParen));
    let (_, msg, _) = syntax_error("let 1 = 2;");
    assert_eq!(msg, SyntaxMsg::Expected(Expected::Identifier));
    let (_, msg, _) = syntax_error("fn f(a b) {}");
    assert_eq!(msg, SyntaxMsg::Expected(Expected::RightParen));
}

#[test]
fn argument_cap() {
    let many = vec!["1"; 256].join(", ");
    let (_, msg, _) = syntax_error(&format!("show({});", many));
    assert_eq!(msg, SyntaxMsg::TooManyArguments);
    let params: Vec<String> = (0..256).map(|i| format!("p{}", i)).collect();
    let (_, msg, _) = syntax_error(&format!("fn f({}) {{}}", params.join(", ")));
    assert_eq!(msg, SyntaxMsg::TooManyParameters);
    let ok = vec!["1"; 255].join(", ");
    let (_, msg, _) = runtime_error(&format!("show({});", ok));
    assert!(matches!(msg, RuntimeMsg::Arity { expected: 1, got: 255 }));
}

#[test]
fn return_outside_function_is_rejected() {
    let (line, msg, place) = syntax_error("print 1;\nreturn;");
    assert_eq!(line, 2);
    assert_eq!(msg, SyntaxMsg::ReturnOutsideFunction);
    assert_eq!(place, "return");
    let (_, msg, _) = syntax_error("{ while (true) { return 1; } }");
    assert_eq!(msg, SyntaxMsg::ReturnOutsideFunction);
    let src = "fn f() { { while (true) { if (true) return 7; } } }\nprint f();";
    assert_eq!(output(src), vec!["7"]);
}

#[test]
fn number_values() {
    let n = Num::from_int(-7);
    assert_eq!((n.num, n.den), (-7, 1));
    let half = Num::from_int(1).div(&Num::from_int(2));
    assert_eq!((half.num, half.den), (1, 2));
    let sum = half.add(&half);
    assert!(sum.same_as(&Num::from_int(1)));
    let big = Num::from_int(i64::MAX).add(&Num::from_int(1));
    assert_eq!((big.num, big.den), (1, 0));
    let odd = Num { num: 4, den: -6 }.canonical_form();
    assert_eq!((odd.num, odd.den), (-2, 3));
    let third = Num { num: 1, den: 3 };
    let tiny = third.mul(&Num { num: 1, den: i64::MAX });
    assert!(tiny.den > 0 && tiny.less_than(&third));
}

#[test]
fn unicode_identifiers() {
    assert_eq!(output("let \u{e9}t\u{e9} = 3; print \u{e9}t\u{e9} * 2;"), vec!["6"]);
    let ts = scan("\u{3c0}r2").unwrap();
    assert!(matches!(ts[0].kind, TokenKind::Identifier));
    assert_eq!(ts[0].lexeme, "\u{3c0}r2");
    let (_, msg, place) = syntax_error("let a = 1 \u{2192} 2;");
    assert_eq!(msg, SyntaxMsg::UnexpectedCharacter);
    assert_eq!(place, "\u{2192}");
}

#[test]
fn embedder_binds_globals() {
    let mut interp = Interpreter::new();
    interp.define_global(&"say".to_string(), LoxObject::Callable(Callable::Print));
    interp.define_global(&"answer".to_string(), LoxObject::Str("yes".to_string()));
    run("say(answer);".to_string(), &mut interp).unwrap();
    assert_eq!(interp.take_output(), vec!["yes"]);
}

#[test]
fn variables_read_and_assigned_from_outside() {
    let mut interp = Interpreter::new();
    run("let a = 1;".to_string(), &mut interp).unwrap();
    let name = scan("a").unwrap().remove(0);
    assert!(matches!(interp.get(0, &name), Ok(LoxObject::Number(n)) if n.num == 1 && n.den == 1));
    interp.assign(0, &name, LoxObject::Bool(true)).unwrap();
    run("print a;".to_string(), &mut interp).unwrap();
    assert_eq!(interp.take_output(), vec!["true"]);
    let missing = scan("b").unwrap().remove(0);
    assert!(matches!(interp.get(0, &missing), Err(InterpErr::RuntimeError { line: 1, .. })));
    assert!(interp.assign(0, &missing, LoxObject::Null).is_err());
}
