use tac_frontend::codegen::{
    generate, parse_boolean, parse_expression, parse_function, parse_if_statement,
    parse_multiply_expression, parse_program, parse_statement, parse_term, parse_while_loop,
    CodeNode, Expression,
};
use tac_frontend::context::Context;
use tac_frontend::driver::{compile, error_location, CompileError};
use tac_frontend::error::SyntaxError;
use tac_frontend::lexer::lex;
use tac_frontend::render::render;
use tac_frontend::tac::{Instr, Label, LabelKind, Operand, Operator};
use tac_frontend::token::{Loc, Token};

fn tokens(code: &str) -> Vec<Token> {
    lex(code).unwrap().0
}

fn statement_text(code: &str) -> String {
    let toks = tokens(code);
    let mut index = 0;
    let mut ctx = Context::new();
    match parse_statement(&toks, &mut index, &mut ctx).unwrap() {
        CodeNode::Code(code) => {
            assert_eq!(index, toks.len());
            render(&code)
        }
        CodeNode::Epsilon => panic!("no statement"),
    }
}

fn statement_error(code: &str) -> (SyntaxError, usize) {
    let toks = tokens(code);
    let mut index = 0;
    let mut ctx = Context::new();
    match parse_statement(&toks, &mut index, &mut ctx) {
        Err(e) => (e, index),
        Ok(_) => panic!("no error"),
    }
}

fn expression(code: &str) -> Expression {
    let toks = tokens(code);
    let mut index = 0;
    let mut ctx = Context::new();
    let e = parse_expression(&toks, &mut index, &mut ctx).unwrap();
    assert_eq!(index, toks.len());
    e
}

/// Runs code that only declares temporaries and applies operators to
/// numbers and temporaries, and gives the value of `name`.
fn evaluate(e: &Expression) -> i64 {
    let mut temps: Vec<(u64, i64)> = Vec::new();
    fn value(temps: &Vec<(u64, i64)>, a: &Operand) -> i64 {
        match a {
            Operand::Num(n) => *n as i64,
            Operand::Temp(t) => temps.iter().rev().find(|(k, _)| k == t).unwrap().1,
            _ => panic!("a variable"),
        }
    }
    for i in &e.code {
        match i {
            Instr::Declare(Operand::Temp(t)) => temps.push((*t, 0)),
            Instr::Binary(op, Operand::Temp(t), a, b) => {
                let (x, y) = (value(&temps, a), value(&temps, b));
                let r = match op {
                    Operator::Add => x + y,
                    Operator::Sub => x - y,
                    Operator::Mul => x * y,
                    Operator::Div => x / y,
                    Operator::Mod => x % y,
                    _ => panic!("a comparison"),
                };
                temps.iter_mut().rev().find(|(k, _)| k == t).unwrap().1 = r;
            }
            _ => panic!("not the code of an expression"),
        }
    }
    value(&temps, &e.name)
}

#[test]
fn expressions_compute_what_they_say() {
    assert_eq!(evaluate(&expression("2 + 3 * 4")), 14);
    assert_eq!(evaluate(&expression("(2 + 3) * 4")), 20);
    assert_eq!(evaluate(&expression("2 * 3 + 4")), 10);
    assert_eq!(evaluate(&expression("20 - 3 - 4")), 13);
    assert_eq!(evaluate(&expression("100 / 5 / 2")), 10);
    assert_eq!(evaluate(&expression("17 % 5 * 2")), 4);
    assert_eq!(evaluate(&expression("2 * (3 + 4) * (5 - 1)")), 56);
    assert_eq!(evaluate(&expression("7")), 7);
}

#[test]
fn expression_code_is_post_order() {
    let e = expression("2 + 3 * 4");
    assert_eq!(
        render(&e.code),
        ". _temp1\n* _temp1, 3, 4\n. _temp2\n+ _temp2, 2, _temp1\n"
    );
    assert!(matches!(e.name, Operand::Temp(2)));
    let e = expression("(2 + 3) * 4");
    assert_eq!(
        render(&e.code),
        ". _temp1\n+ _temp1, 2, 3\n. _temp2\n* _temp2, _temp1, 4\n"
    );
    let e = expression("a - b % c");
    assert_eq!(
        render(&e.code),
        ". _temp1\n% _temp1, b, c\n. _temp2\n- _temp2, a, _temp1\n"
    );
}

#[test]
fn a_name_or_number_needs_no_code() {
    let e = expression("abc");
    assert!(e.code.is_empty());
    assert!(matches!(e.name, Operand::Var(name) if name == "abc"));
    let e = expression("42");
    assert!(e.code.is_empty());
    assert!(matches!(e.name, Operand::Num(42)));
    let e = expression("((42))");
    assert!(e.code.is_empty());
}

#[test]
fn calls_pass_their_arguments_in_order() {
    let e = expression("f(a, 1 + 2, g())");
    assert_eq!(
        render(&e.code),
        ". _temp1\n+ _temp1, 1, 2\n. _temp2\ncall g, _temp2\nparam a\nparam _temp1\nparam _temp2\n. _temp3\ncall f, _temp3\n"
    );
    assert!(matches!(e.name, Operand::Temp(3)));
    // a comma may stand before the closing parenthesis
    let e = expression("f(a,)");
    assert_eq!(render(&e.code), "param a\n. _temp1\ncall f, _temp1\n");
}

#[test]
fn missing_semicolon_names_the_semicolon() {
    assert_eq!(statement_error("a = 1"), (SyntaxError::ExpectedSemicolon, 3));
    assert_eq!(statement_error("a = b"), (SyntaxError::ExpectedSemicolon, 3));
    assert_eq!(statement_error("a = 1 }"), (SyntaxError::ExpectedSemicolon, 4));
    assert_eq!(statement_error("int a"), (SyntaxError::ExpectedSemicolon, 2));
    assert_eq!(statement_error("return 1 + 2"), (SyntaxError::ExpectedSemicolon, 4));
    assert_eq!(statement_error("print(a)"), (SyntaxError::ExpectedSemicolon, 4));
    assert_eq!(SyntaxError::ExpectedSemicolon.message(), "expect ';' closing statement");
}

#[test]
fn while_with_break_lowers_to_labels_and_jumps() {
    assert_eq!(
        statement_text("while a < b { break; }"),
        ": loopbegin1\n. _temp1\n< _temp1, a, b\n?:= loopbody1, _temp1\n:= endloop1\n: loopbody1\n:= endloop1\n:= loopbegin1\n: endloop1\n"
    );
    let toks = tokens("while a < b { break; }");
    let mut ctx = Context::new();
    let code = parse_while_loop(&toks, &mut 0, &mut ctx).unwrap();
    let l = |kind| Label { kind, id: 1 };
    assert!(matches!(code[0], Instr::Label(x) if x == l(LabelKind::LoopBegin)));
    assert!(matches!(&code[3], Instr::BranchIf(x, Operand::Temp(1)) if *x == l(LabelKind::LoopBody)));
    assert!(matches!(code[4], Instr::Jump(x) if x == l(LabelKind::EndLoop)));
    assert!(matches!(code[5], Instr::Label(x) if x == l(LabelKind::LoopBody)));
    assert!(matches!(code[6], Instr::Jump(x) if x == l(LabelKind::EndLoop)));
    assert!(matches!(code[7], Instr::Jump(x) if x == l(LabelKind::LoopBegin)));
    assert!(matches!(code[8], Instr::Label(x) if x == l(LabelKind::EndLoop)));
    assert_eq!(code.len(), 9);
}

#[test]
fn a_condition_in_parentheses_is_no_condition() {
    // a parenthesis opens a term, and a term holds no comparison
    assert_eq!(
        statement_error("while (a < b) { break; }"),
        (SyntaxError::ExpectedRightParen, 4)
    );
    // but each side of a comparison may be a term in parentheses
    assert_eq!(
        statement_text("while (a + 1) < (b) { }"),
        ": loopbegin1\n. _temp1\n+ _temp1, a, 1\n. _temp2\n< _temp2, _temp1, b\n?:= loopbody1, _temp2\n:= endloop1\n: loopbody1\n:= loopbegin1\n: endloop1\n"
    );
}

#[test]
fn break_and_continue_lead_to_the_innermost_loop() {
    let text = statement_text(
        "while a < b { while c < d { break; continue; } break; continue; }",
    );
    assert_eq!(
        text,
        ": loopbegin1\n. _temp1\n< _temp1, a, b\n?:= loopbody1, _temp1\n:= endloop1\n: loopbody1\n\
         : loopbegin2\n. _temp2\n< _temp2, c, d\n?:= loopbody2, _temp2\n:= endloop2\n: loopbody2\n\
         := endloop2\n:= loopbegin2\n\
         := loopbegin2\n: endloop2\n\
         := endloop1\n:= loopbegin1\n\
         := loopbegin1\n: endloop1\n"
    );
    // through a conditional too
    let text = statement_text("while a < b { if a == 1 { break; } else { continue; } }");
    assert_eq!(
        text,
        ": loopbegin1\n. _temp1\n< _temp1, a, b\n?:= loopbody1, _temp1\n:= endloop1\n: loopbody1\n\
         . _temp2\n== _temp2, a, 1\n?:= iftrue1, _temp2\n:= else1\n: iftrue1\n:= endloop1\n:= endif1\n\
         : else1\n:= loopbegin1\n: endif1\n\
         := loopbegin1\n: endloop1\n"
    );
}

#[test]
fn break_and_continue_need_a_loop() {
    assert_eq!(statement_error("break;"), (SyntaxError::BreakOutsideLoop, 1));
    assert_eq!(statement_error("continue;"), (SyntaxError::ContinueOutsideLoop, 1));
    assert_eq!(
        statement_error("if a < b { break; }"),
        (SyntaxError::BreakOutsideLoop, 6)
    );
    // behind a loop no loop is open any more
    let toks = tokens("while a < b { } break;");
    let mut index = 0;
    let mut ctx = Context::new();
    parse_statement(&toks, &mut index, &mut ctx).unwrap();
    assert_eq!(ctx.peek_label_stack(), None);
    assert_eq!(
        parse_statement(&toks, &mut index, &mut ctx).unwrap_err(),
        SyntaxError::BreakOutsideLoop
    );
}

#[test]
fn conditionals_lower_to_labels_and_jumps() {
    assert_eq!(
        statement_text("if a >= 2 { a = 1; }"),
        ". _temp1\n>= _temp1, a, 2\n?:= iftrue1, _temp1\n:= endif1\n: iftrue1\n= a, 1\n:= endif1\n: endif1\n"
    );
    assert_eq!(
        statement_text("if a != 2 { a = 1; } else { a = 2; }"),
        ". _temp1\n!= _temp1, a, 2\n?:= iftrue1, _temp1\n:= else1\n: iftrue1\n= a, 1\n:= endif1\n: else1\n= a, 2\n: endif1\n"
    );
    // nested and following conditionals get numbers of their own
    let toks = tokens("if a <= 2 { if a > 1 { } } if b < 1 { }");
    let mut index = 0;
    let mut ctx = Context::new();
    let first = parse_if_statement(&toks, &mut index, &mut ctx).unwrap();
    let second = parse_if_statement(&toks, &mut index, &mut ctx).unwrap();
    assert_eq!(
        render(&first),
        ". _temp1\n<= _temp1, a, 2\n?:= iftrue1, _temp1\n:= endif1\n: iftrue1\n\
         . _temp2\n> _temp2, a, 1\n?:= iftrue2, _temp2\n:= endif2\n: iftrue2\n:= endif2\n: endif2\n\
         := endif1\n: endif1\n"
    );
    assert_eq!(
        render(&second),
        ". _temp3\n< _temp3, b, 1\n?:= iftrue3, _temp3\n:= endif3\n: iftrue3\n:= endif3\n: endif3\n"
    );
}

#[test]
fn simple_statements() {
    assert_eq!(statement_text("int a;"), ". a\n");
    assert_eq!(statement_text("int a = b + 1;"), ". _temp1\n+ _temp1, b, 1\n. a\n= a, _temp1\n");
    assert_eq!(statement_text("a = 5;"), "= a, 5\n");
    assert_eq!(statement_text("return a * 2;"), ". _temp1\n* _temp1, a, 2\nret _temp1\n");
    assert_eq!(statement_text("print(a);"), ".> a\n");
    assert_eq!(statement_text("read(a);"), ".< a\n");
}

#[test]
fn statements_end_at_a_closing_brace_and_with_the_tokens() {
    let toks = tokens("} a = 1;");
    let mut index = 0;
    let mut ctx = Context::new();
    assert!(matches!(parse_statement(&toks, &mut index, &mut ctx), Ok(CodeNode::Epsilon)));
    assert_eq!(index, 0);
    let mut index = toks.len();
    assert!(matches!(parse_statement(&toks, &mut index, &mut ctx), Ok(CodeNode::Epsilon)));
    assert_eq!(index, toks.len());
    let mut index = toks.len() + 5;
    assert!(matches!(parse_statement(&toks, &mut index, &mut ctx), Ok(CodeNode::Epsilon)));
}

#[test]
fn statement_errors() {
    let cases: Vec<(&str, SyntaxError, usize)> = vec![
        ("int 1;", SyntaxError::ExpectedIdentifier, 2),
        ("int", SyntaxError::ExpectedIdentifier, 1),
        ("a 1;", SyntaxError::ExpectedAssign, 2),
        ("a", SyntaxError::ExpectedAssign, 1),
        ("a = ;", SyntaxError::InvalidExpression, 3),
        ("a = ", SyntaxError::UnexpectedEnd, 2),
        ("a = 1 + ", SyntaxError::UnexpectedEnd, 4),
        ("a = (1 + 2;", SyntaxError::ExpectedRightParen, 7),
        ("a = (1 + 2", SyntaxError::ExpectedRightParen, 6),
        ("a = f(1 2);", SyntaxError::ExpectedCommaOrRightParen, 5),
        ("a = f(1", SyntaxError::ExpectedCommaOrRightParen, 5),
        ("a = f(", SyntaxError::UnexpectedEnd, 4),
        ("print a;", SyntaxError::ExpectedOpeningParen, 2),
        ("print", SyntaxError::ExpectedOpeningParen, 1),
        ("read(a;", SyntaxError::ExpectedClosingParen, 4),
        ("read(a", SyntaxError::ExpectedClosingParen, 3),
        ("while a { }", SyntaxError::InvalidBoolean, 3),
        ("while a", SyntaxError::InvalidBoolean, 2),
        ("while a < b a = 1;", SyntaxError::ExpectedLeftCurly, 5),
        ("while a < b", SyntaxError::ExpectedLeftCurly, 4),
        ("while a < b { a = 1;", SyntaxError::ExpectedRightCurly, 9),
        ("if a < b { a = 1; ", SyntaxError::ExpectedRightCurly, 9),
        ("if a < b { } else a = 1;", SyntaxError::ExpectedLeftCurly, 8),
        ("if a < b { } else { a = 1; ", SyntaxError::ExpectedRightCurly, 12),
        ("+ 1;", SyntaxError::InvalidStatement, 0),
        ("func f() { }", SyntaxError::InvalidStatement, 0),
    ];
    for (code, error, at) in cases {
        assert_eq!(statement_error(code), (error, at), "{}", code);
    }
}

#[test]
fn functions_and_programs() {
    let text = compile("func add(int a, int b) { return a + b; }\nfunc main() { int x; x = add(1, 2); print(x); }").unwrap();
    assert_eq!(
        text,
        "func add\n. a\n= a, $0\n. b\n= b, $1\n. _temp1\n+ _temp1, a, b\nret _temp1\nendfunc\n\n\
         func main\n. x\nparam 1\nparam 2\n. _temp2\ncall add, _temp2\n= x, _temp2\n.> x\nendfunc\n\n"
    );
    assert_eq!(compile("").unwrap(), "");
    assert_eq!(compile("# nothing\n").unwrap(), "");
    assert_eq!(compile("func f() { }").unwrap(), "func f\nendfunc\n\n");
    // a comma may stand before the closing parenthesis
    assert_eq!(compile("func f(int a,) { }").unwrap(), "func f\n. a\n= a, $0\nendfunc\n\n");
}

#[test]
fn function_errors() {
    let cases: Vec<(&str, SyntaxError, usize)> = vec![
        ("int a;", SyntaxError::ExpectedFunc, 1),
        ("func 1() { }", SyntaxError::ExpectedFunctionName, 2),
        ("func", SyntaxError::ExpectedFunctionName, 1),
        ("func f { }", SyntaxError::ExpectedLeftParen, 3),
        ("func f", SyntaxError::ExpectedLeftParen, 2),
        ("func f(a) { }", SyntaxError::ExpectedIntOrRightParen, 4),
        ("func f(", SyntaxError::ExpectedIntOrRightParen, 3),
        ("func f(int 1) { }", SyntaxError::ExpectedParameterName, 5),
        ("func f(int a int b) { }", SyntaxError::ExpectedCommaOrRightParen, 5),
        ("func f() a = 1; }", SyntaxError::ExpectedLeftCurly, 5),
        ("func f() { a = 1; ", SyntaxError::ExpectedRightCurly, 9),
        ("func f() { a = 1; } }", SyntaxError::ExpectedFunc, 11),
        ("func f() { break; }", SyntaxError::BreakOutsideLoop, 6),
    ];
    for (code, error, at) in cases {
        let toks = tokens(code);
        assert_eq!(generate(&toks).unwrap_err(), (error, at), "{}", code);
    }
}

#[test]
fn errors_are_reported_at_a_token() {
    let locations = vec![Loc { line: 1, col: 2 }, Loc { line: 1, col: 5 }, Loc { line: 2, col: 1 }];
    assert_eq!(error_location(&locations, 0), Some(Loc { line: 1, col: 2 }));
    assert_eq!(error_location(&locations, 1), Some(Loc { line: 1, col: 2 }));
    assert_eq!(error_location(&locations, 2), Some(Loc { line: 1, col: 5 }));
    assert_eq!(error_location(&locations, 3), Some(Loc { line: 2, col: 1 }));
    assert_eq!(error_location(&locations, 9), Some(Loc { line: 2, col: 1 }));
    assert_eq!(error_location(&Vec::new(), 0), None);

    match compile("func main() {\n  a = 1\n}") {
        Err(e) => {
            assert!(matches!(
                e,
                CompileError::Syntax {
                    error: SyntaxError::ExpectedSemicolon,
                    location: Some(Loc { line: 3, col: 1 })
                }
            ));
            assert_eq!(e.message(), "Error at line 3:1. expect ';' closing statement");
        }
        Ok(_) => panic!("no error"),
    }
    match compile("func main() { a = 1 $ }") {
        Err(e) => {
            assert!(matches!(e, CompileError::Lexical(_)));
            assert_eq!(e.message(), "Error at line 1:21. Unidentified symbol '$'");
        }
        Ok(_) => panic!("no error"),
    }
}

#[test]
fn every_syntax_error_has_its_message() {
    let all = [
        (SyntaxError::UnexpectedEnd, "expected a token, but got nothing"),
        (SyntaxError::ExpectedFunc, "functions must begin with func"),
        (SyntaxError::ExpectedFunctionName, "functions must have a function identifier"),
        (SyntaxError::ExpectedLeftParen, "expected '('"),
        (SyntaxError::ExpectedCommaOrRightParen, "expected ',' or ')'"),
        (SyntaxError::ExpectedParameterName, "expected ident function parameter"),
        (SyntaxError::ExpectedIntOrRightParen, "expected 'int' keyword or ')' token"),
        (SyntaxError::ExpectedLeftCurly, "expected '{'"),
        (SyntaxError::ExpectedRightCurly, "expected '}'"),
        (SyntaxError::ExpectedIdentifier, "expected identifier"),
        (SyntaxError::ExpectedAssign, "expected '=' assignment operator"),
        (SyntaxError::ExpectedOpeningParen, "expect '(' closing statement"),
        (SyntaxError::ExpectedClosingParen, "expect ')' closing statement"),
        (SyntaxError::InvalidStatement, "invalid statement."),
        (SyntaxError::ExpectedSemicolon, "expect ';' closing statement"),
        (
            SyntaxError::InvalidBoolean,
            "invalid boolean expression. expected comparison operator.",
        ),
        (SyntaxError::ExpectedRightParen, "expected ')' parenthesis"),
        (SyntaxError::InvalidExpression, "invalid expression"),
        (SyntaxError::BreakOutsideLoop, "'break' outside of a loop"),
        (SyntaxError::ContinueOutsideLoop, "'continue' outside of a loop"),
    ];
    for (error, text) in all {
        assert_eq!(error.message(), text);
    }
}

fn declared_temporaries(code: &Vec<Instr>) -> Vec<u64> {
    code.iter()
        .filter_map(|i| match i {
            Instr::Declare(Operand::Temp(t)) => Some(*t),
            _ => None,
        })
        .collect()
}

fn labels_set(code: &[Instr]) -> Vec<Label> {
    code.iter()
        .filter_map(|i| match i {
            Instr::Label(l) => Some(*l),
            _ => None,
        })
        .collect()
}

fn labels_jumped_to(code: &[Instr]) -> Vec<Label> {
    code.iter()
        .filter_map(|i| match i {
            Instr::Jump(l) => Some(*l),
            Instr::BranchIf(l, _) => Some(*l),
            _ => None,
        })
        .collect()
}

const PROGRAM: &str = "func gcd(int a, int b) {\n\
    while b != 0 {\n\
        int t = a % b;\n\
        a = b;\n\
        b = t;\n\
        if a == 1 { break; }\n\
    }\n\
    return a;\n\
}\n\
func main() {\n\
    int i = 0;\n\
    while i < 10 {\n\
        int j = 0;\n\
        while j < i {\n\
            if gcd(i, j) == 1 { print(i * 10 + j); } else { continue; }\n\
            j = j + 1;\n\
        }\n\
        i = i + 1;\n\
    }\n\
}\n";

#[test]
fn every_temporary_is_declared_once() {
    let code = generate(&tokens(PROGRAM)).unwrap();
    let temps = declared_temporaries(&code);
    assert_eq!(temps, (1..=temps.len() as u64).collect::<Vec<u64>>());
    assert_eq!(temps.len(), 11);
}

#[test]
fn every_jump_leads_to_a_label_of_its_function() {
    let code = generate(&tokens(PROGRAM)).unwrap();
    let functions: Vec<&[Instr]> =
        code.split_inclusive(|i| matches!(i, Instr::EndFunc)).collect();
    assert_eq!(functions.len(), 2);
    for f in functions {
        let set = labels_set(f);
        for l in &set {
            assert_eq!(set.iter().filter(|x| *x == l).count(), 1);
        }
        let jumped = labels_jumped_to(f);
        assert!(!jumped.is_empty());
        for l in jumped {
            assert_eq!(set.iter().filter(|x| **x == l).count(), 1);
        }
    }
}

fn raised(a: &Operand, by: u64) -> Operand {
    match a {
        Operand::Temp(t) => Operand::Temp(t + by),
        other => other.clone(),
    }
}

#[test]
fn the_counters_change_the_numbers_only() {
    let toks = tokens("a = b * 2 + f(c);");
    let mut fresh = Context::new();
    let mut used = Context::new();
    for _ in 0..5 {
        used.create_temp();
    }
    let first = match parse_statement(&toks, &mut 0, &mut fresh).unwrap() {
        CodeNode::Code(code) => code,
        CodeNode::Epsilon => panic!("no statement"),
    };
    let second = match parse_statement(&toks, &mut 0, &mut used).unwrap() {
        CodeNode::Code(code) => code,
        CodeNode::Epsilon => panic!("no statement"),
    };
    let renumbered: Vec<Instr> = first
        .iter()
        .map(|i| match i {
            Instr::Declare(a) => Instr::Declare(raised(a, 5)),
            Instr::Move(a, b) => Instr::Move(raised(a, 5), raised(b, 5)),
            Instr::Binary(op, a, b, c) => {
                Instr::Binary(*op, raised(a, 5), raised(b, 5), raised(c, 5))
            }
            Instr::Param(a) => Instr::Param(raised(a, 5)),
            Instr::Call(f, a) => Instr::Call(f.clone(), raised(a, 5)),
            _ => panic!("not in this statement"),
        })
        .collect();
    assert_eq!(render(&renumbered), render(&second));
    assert_eq!(
        render(&second),
        ". _temp6\n* _temp6, b, 2\nparam c\n. _temp7\ncall f, _temp7\n. _temp8\n+ _temp8, _temp6, _temp7\n= a, _temp8\n"
    );
    // and compiling the same source twice gives the same code
    assert_eq!(compile(PROGRAM).unwrap(), compile(PROGRAM).unwrap());
}

#[test]
fn terms_products_and_conditions() {
    let toks = tokens("a * b + c");
    let mut index = 0;
    let mut ctx = Context::new();
    let t = parse_term(&toks, &mut index, &mut ctx).unwrap();
    assert_eq!(index, 1);
    assert!(t.code.is_empty());
    let mut index = 0;
    let p = parse_multiply_expression(&toks, &mut index, &mut ctx).unwrap();
    assert_eq!(index, 3);
    assert_eq!(render(&p.code), ". _temp1\n* _temp1, a, b\n");
    let mut index = 0;
    assert_eq!(
        parse_boolean(&toks, &mut index, &mut ctx).unwrap_err(),
        SyntaxError::InvalidBoolean
    );
    assert_eq!(index, 2);
    let toks = tokens("a == b");
    let c = parse_boolean(&toks, &mut 0, &mut ctx).unwrap();
    assert_eq!(render(&c.code), ". _temp2\n== _temp2, a, b\n");
}

#[test]
fn the_end_mark_ends_the_functions() {
    let mut toks = tokens("func f() { }");
    toks.push(Token::End);
    let mut index = 0;
    let mut ctx = Context::new();
    let code = parse_program(&toks, &mut index, &mut ctx).unwrap();
    assert_eq!(render(&code), "func f\nendfunc\n\n");
    // the end mark is not taken
    assert_eq!(index, toks.len() - 1);
    assert!(matches!(parse_function(&toks, &mut index, &mut ctx), Ok(CodeNode::Epsilon)));
    // but it is no statement
    assert_eq!(
        parse_statement(&toks, &mut index, &mut ctx).unwrap_err(),
        SyntaxError::InvalidStatement
    );
}

#[test]
fn numbers_and_operands_are_written_in_decimal() {
    let code = vec![
        Instr::Move(Operand::Var(String::from("a")), Operand::Num(-2147483648)),
        Instr::Move(Operand::Var(String::from("a")), Operand::Num(2147483647)),
        Instr::Move(Operand::Var(String::from("a")), Operand::Num(0)),
        Instr::Move(Operand::Temp(18446744073709551615), Operand::Arg(10)),
        Instr::Jump(Label { kind: LabelKind::Else, id: 120 }),
    ];
    assert_eq!(
        render(&code),
        "= a, -2147483648\n= a, 2147483647\n= a, 0\n= _temp18446744073709551615, $10\n:= else120\n"
    );
}

#[test]
fn a_construct_that_is_not_read_numbers_nothing() {
    // the comparison is missing: no temporary is given out
    let toks = tokens("a + b {");
    let mut ctx = Context::new();
    ctx.create_temp();
    let mut index = 0;
    assert_eq!(
        parse_boolean(&toks, &mut index, &mut ctx).unwrap_err(),
        SyntaxError::InvalidBoolean
    );
    assert_eq!(index, 2);
    assert_eq!(SyntaxError::InvalidBoolean.message(), "invalid boolean expression. expected comparison operator.");
    assert!(matches!(ctx.create_temp(), Operand::Temp(2)));

    // a product was read before the error: its temporary is free again
    let toks = tokens("a * b + ;");
    let mut ctx = Context::new();
    let mut index = 0;
    assert_eq!(
        parse_expression(&toks, &mut index, &mut ctx).unwrap_err(),
        SyntaxError::InvalidExpression
    );
    assert!(matches!(ctx.create_temp(), Operand::Temp(1)));

    // and so are the numbers of loops and conditionals
    let toks = tokens("while a < b { if a < 1 { a = 1 } }");
    let mut ctx = Context::new();
    let mut index = 0;
    assert_eq!(
        parse_statement(&toks, &mut index, &mut ctx).unwrap_err(),
        SyntaxError::ExpectedSemicolon
    );
    assert_eq!(ctx.create_label_id(), 1);
    assert_eq!(ctx.create_ifs_id(), 1);
    assert!(matches!(ctx.create_temp(), Operand::Temp(1)));
    assert_eq!(ctx.peek_label_stack(), None);
}
