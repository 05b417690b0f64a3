use tac_frontend::ir_lexer::{lex_ir, lex_ir_token, next_token, whitespace_of, IRTok};
use tac_frontend::ir_parser::{
    addr_code3, get_id, lookup_integer_variable_id, next, next_result, parse_instruction, parse_ir,
    peek, peek_result, Bytecode, FunctionBytecode, IrError, Op, Variable, VariableType,
};

#[test]
fn ir_token() {
    assert!(matches!(lex_ir_token("  %int"), (Some(IRTok::Int), _)));
    assert!(matches!(lex_ir_token(" %int[]"), (Some(IRTok::IntArray), _)));
    assert!(matches!(lex_ir_token("%call"), (Some(IRTok::Call), _)));
    assert!(matches!(lex_ir_token("%ret"), (Some(IRTok::Return), _)));
    assert!(matches!(lex_ir_token("%out"), (Some(IRTok::Out), _)));
    assert!(matches!(lex_ir_token("   %in"), (Some(IRTok::In), _)));
    assert!(matches!(lex_ir_token("%mov  "), (Some(IRTok::Mov), _)));
    assert!(matches!(lex_ir_token("%add"), (Some(IRTok::Add), _)));
    assert!(matches!(lex_ir_token("%sub"), (Some(IRTok::Sub), _)));
    assert!(matches!(lex_ir_token("%mult"), (Some(IRTok::Mult), _)));
    assert!(matches!(lex_ir_token("  %div"), (Some(IRTok::Div), _)));
    assert!(matches!(lex_ir_token("%mod"), (Some(IRTok::Mod), _)));
    assert!(matches!(lex_ir_token("%lt"), (Some(IRTok::LessThan), _)));
    assert!(matches!(lex_ir_token("%le"), (Some(IRTok::LessEqual), _)));
    assert!(matches!(lex_ir_token("%neq"), (Some(IRTok::NotEqual), _)));
    assert!(matches!(lex_ir_token("%eq"), (Some(IRTok::Equal), _)));
    assert!(matches!(lex_ir_token("%gt"), (Some(IRTok::GreaterThan), _)));
    assert!(matches!(lex_ir_token("%ge"), (Some(IRTok::GreaterEqual), _)));
    assert!(matches!(lex_ir_token("%jmp"), (Some(IRTok::Jump), _)));
    assert!(matches!(lex_ir_token("%branch_if"), (Some(IRTok::BranchIf), _)));
    assert!(matches!(lex_ir_token("%branch_if_not"), (Some(IRTok::BranchIfNot), _)));
    assert!(matches!(lex_ir_token("[are"), (Some(IRTok::LBrace), "are")));
    assert!(matches!(lex_ir_token("]are"), (Some(IRTok::RBrace), "are")));
    assert!(matches!(lex_ir_token(",are"), (Some(IRTok::Comma), "are")));
    assert!(matches!(lex_ir_token("%bad"), (None, _)));

    let code = "; This is a comment\n%mov";
    assert!(matches!(lex_ir_token(code), (Some(IRTok::EndInstr), "%mov")));
}

#[test]
fn ir_lex() {
    {
        let toks = lex_ir("%add a, b, c\n");
        assert!(toks.len() == 7);
        assert!(matches!(toks[0], IRTok::Add));
        assert!(matches!(toks[1], IRTok::Var(_)));
        assert!(matches!(toks[2], IRTok::Comma));
        assert!(matches!(toks[3], IRTok::Var(_)));
        assert!(matches!(toks[4], IRTok::Comma));
        assert!(matches!(toks[5], IRTok::Var(_)));
        assert!(matches!(toks[6], IRTok::EndInstr));
    }

    {
        let toks = lex_ir("%func main,,,\n");
        assert!(toks.len() == 6);
        assert!(matches!(toks[0], IRTok::Func));
        assert!(matches!(toks[1], IRTok::Var(_)));
        assert!(matches!(toks[2], IRTok::Comma));
        assert!(matches!(toks[3], IRTok::Comma));
        assert!(matches!(toks[4], IRTok::Comma));
        assert!(matches!(toks[5], IRTok::EndInstr));
    }

    {
        let toks = lex_ir("%func,main,,,\n");
        assert!(toks.len() == 7);
        assert!(matches!(toks[0], IRTok::Func));
        assert!(matches!(toks[1], IRTok::Comma));
        assert!(matches!(toks[2], IRTok::Var(_)));
        assert!(matches!(toks[3], IRTok::Comma));
        assert!(matches!(toks[4], IRTok::Comma));
        assert!(matches!(toks[5], IRTok::Comma));
        assert!(matches!(toks[6], IRTok::EndInstr));
    }

    {
        let toks = lex_ir("%mov [arr, 0], 100\n");
        assert!(toks.len() == 9);
        assert!(matches!(toks[0], IRTok::Mov));
        assert!(matches!(toks[1], IRTok::LBrace));
        assert!(matches!(toks[2], IRTok::Var(_)));
        assert!(matches!(toks[3], IRTok::Comma));
        assert!(matches!(toks[4], IRTok::Num(0)));
        assert!(matches!(toks[5], IRTok::RBrace));
        assert!(matches!(toks[6], IRTok::Comma));
        assert!(matches!(toks[7], IRTok::Num(100)));
        assert!(matches!(toks[8], IRTok::EndInstr));
    }
}

#[test]
fn ir_token_edges() {
    // the text behind an opcode starts behind the blank that ends it
    assert!(matches!(lex_ir_token("%mov a"), (Some(IRTok::Mov), "a")));
    assert!(matches!(lex_ir_token("%mov,a"), (Some(IRTok::Mov), ",a")));
    assert!(matches!(lex_ir_token("%mov\n"), (Some(IRTok::Mov), "\n")));
    assert!(matches!(lex_ir_token("\n%mov"), (Some(IRTok::EndInstr), "%mov")));
    // a name runs to the text's end, a number too
    assert!(matches!(lex_ir_token("abc"), (Some(IRTok::Var(name)), "") if name == "abc"));
    assert!(matches!(lex_ir_token("12]"), (Some(IRTok::Num(12)), "]")));
    assert!(matches!(lex_ir_token("12"), (Some(IRTok::Num(12)), "")));
    // no token: blanks only, an open comment, a number that is too large
    assert!(matches!(lex_ir_token("   "), (None, "")));
    assert!(matches!(lex_ir_token(""), (None, "")));
    assert!(matches!(lex_ir_token("; open"), (None, "")));
    assert!(matches!(lex_ir_token("99999999999,"), (None, ",")));
    // the tokens end where there is none
    let toks = lex_ir("%add a\n%bad b\n%sub");
    assert_eq!(toks.len(), 3);
}

#[test]
fn ir_cursor() {
    let toks = lex_ir("%ret 1\n");
    assert!(matches!(peek(&toks, 0), Some(IRTok::Return)));
    assert!(peek(&toks, 3).is_none());
    assert!(matches!(peek_result(&toks, 1), Ok(IRTok::Num(1))));
    assert_eq!(peek_result(&toks, 3).unwrap_err(), IrError::UnexpectedEnd);
    let mut i = 2;
    assert!(matches!(next(&toks, &mut i), Some(IRTok::EndInstr)));
    assert_eq!(i, 3);
    assert!(next(&toks, &mut i).is_none());
    assert_eq!(i, 3);
    assert_eq!(next_result(&toks, &mut i).unwrap_err(), IrError::UnexpectedEnd);
    let mut j = 0;
    assert!(matches!(next_result(&toks, &mut j), Ok(IRTok::Return)));
    assert_eq!(j, 1);
}

fn function_with(names: &[(&str, VariableType)], id: i32) -> FunctionBytecode {
    FunctionBytecode {
        name: String::from("f"),
        id,
        variables: names
            .iter()
            .map(|(n, k)| Variable { name: String::from(*n), kind: *k })
            .collect(),
    }
}

#[test]
fn ir_variables() {
    let mut f = function_with(
        &[("a", VariableType::IntVar(0)), ("v", VariableType::ArrayVar(1, 10))],
        2,
    );
    assert_eq!(lookup_integer_variable_id(&f, &String::from("a")), Ok(Op::Var(0)));
    assert_eq!(
        lookup_integer_variable_id(&f, &String::from("v")),
        Err(IrError::NotAnInteger(String::from("v")))
    );
    assert_eq!(
        lookup_integer_variable_id(&f, &String::from("b")),
        Err(IrError::Undeclared(String::from("b")))
    );
    assert_eq!(f.variables.len(), 2);
    assert_eq!(get_id(&mut f), 2);
    assert_eq!(get_id(&mut f), 3);
    assert_eq!(f.id, 4);
}

#[test]
fn ir_three_operands() {
    let f = function_with(&[("a", VariableType::IntVar(0)), ("b", VariableType::IntVar(1))], 2);
    let toks = lex_ir("a, b, 7\n");
    let mut i = 0;
    assert_eq!(addr_code3(&f, &toks, &mut i), Ok((Op::Var(0), Op::Var(1), Op::Num(7))));
    assert_eq!(i, 5);

    let cases: Vec<(&str, IrError, usize)> = vec![
        ("1, b, 7\n", IrError::InvalidDest, 1),
        ("c, b, 7\n", IrError::Undeclared(String::from("c")), 1),
        ("a b, 7\n", IrError::ExpectedComma, 2),
        ("a, ,, 7\n", IrError::InvalidSrc1, 3),
        ("a, b 7\n", IrError::ExpectedComma, 4),
        ("a, b, \n", IrError::InvalidSrc2, 5),
        ("a, b,", IrError::UnexpectedEnd, 4),
    ];
    for (text, error, at) in cases {
        let toks = lex_ir(text);
        let mut i = 0;
        assert_eq!(addr_code3(&f, &toks, &mut i), Err(error));
        assert_eq!(i, at);
    }
}

#[test]
fn ir_function() {
    let toks = lex_ir(
        "%func main\n%int a\n%int[] v, 4\n%mov a, 3\n%add a, a, 1\n%out a\n%in a\n%ret a\n%endfunc\n",
    );
    let mut i = 0;
    let mut code = Vec::new();
    parse_ir(&toks, &mut i, &mut code).unwrap();
    assert_eq!(
        code,
        vec![
            Bytecode::Int(Op::Var(0)),
            Bytecode::IntArray(Op::Var(1), Op::Num(4)),
            Bytecode::Mov(Op::Var(0), Op::Num(3)),
            Bytecode::Add(Op::Var(0), Op::Var(0), Op::Num(1)),
            Bytecode::Out(Op::Var(0)),
            Bytecode::In(Op::Var(0)),
            Bytecode::Return(Op::Var(0)),
            Bytecode::End,
        ]
    );
    // `%endfunc` is taken, the end of its line is not
    assert_eq!(i, toks.len() - 1);
}

#[test]
fn ir_instruction_errors() {
    let cases: Vec<(&str, IrError)> = vec![
        ("", IrError::UnexpectedEnd),
        ("%int a\n", IrError::ExpectedFunc),
        ("%func 1\n", IrError::ExpectedFunctionName),
        ("%func f g\n", IrError::ExpectedHeaderEnd),
        ("%func f\n%int 1\n", IrError::ExpectedIntOperand),
        ("%func f\n%int a\n%int a\n", IrError::Redeclared(String::from("a"))),
        ("%func f\n%int a\n%int[] a, 3\n", IrError::Redeclared(String::from("a"))),
        ("%func f\n%int[] a 1\n", IrError::ExpectedArrayFormat),
        ("%func f\n%int[] a, b\n", IrError::ExpectedArrayFormat),
        ("%func f\n%ret ,\n", IrError::ExpectedReturnOperand),
        ("%func f\n%out ,\n", IrError::ExpectedOutOperand),
        ("%func f\n%int a\n%in 1\n", IrError::ExpectedInOperand),
        ("%func f\n%mov 1, 1\n", IrError::ExpectedMovFormat),
        ("%func f\n%int a\n%mov a 1\n", IrError::MissingComma),
        ("%func f\n%int a\n%mov a, ,\n", IrError::ExpectedMovFormat),
        ("%func f\n%int[] v, 2\n%out v\n", IrError::NotAnInteger(String::from("v"))),
        ("%func f\n%out b\n", IrError::Undeclared(String::from("b"))),
        ("%func f\n%int a\n%mov a, zz\n", IrError::Undeclared(String::from("zz"))),
        ("%func f\n10\n", IrError::InvalidInstruction),
        ("%func f\n%int a a\n", IrError::ExpectedNewline),
        ("%func f\n%jmp l\n", IrError::Unsupported),
        ("%func f\n%call g\n", IrError::Unsupported),
        ("%func f\n%int a\n", IrError::UnexpectedEnd),
    ];
    for (text, error) in cases {
        let toks = lex_ir(text);
        assert_eq!(parse_ir(&toks, &mut 0, &mut Vec::new()), Err(error), "{}", text);
    }
    let mut full = function_with(&[], i32::MAX);
    let toks = lex_ir("%int a\n");
    assert_eq!(parse_instruction(&mut full, &toks, &mut 0), Err(IrError::TooManyVariables));
}

#[test]
fn ir_error_messages() {
    assert_eq!(IrError::UnexpectedEnd.message(), "unexpected end.");
    assert_eq!(IrError::ExpectedNewline.message(), "expected newline.");
    assert_eq!(IrError::InvalidDest.message(), "invalid dest.");
    assert_eq!(IrError::ExpectedComma.message(), "invalid 3-address code. expected comma.");
    assert_eq!(
        IrError::ExpectedFunc.message(),
        "func IR needs to begin with '%func'"
    );
    assert_eq!(
        IrError::Redeclared(String::from("x")).message(),
        "invalid instruction. identifier 'x' declared too many times"
    );
    assert_eq!(
        IrError::Undeclared(String::from("zz")).message(),
        "invalid instruction. identifier 'zz' has not been declared."
    );
    assert_eq!(
        IrError::NotAnInteger(String::from("v")).message(),
        "invalid operand. v is an array, not an integer."
    );
}

#[test]
fn ir_declarations() {
    let toks = lex_ir("%int a\n");
    let mut f = function_with(&[("b", VariableType::IntVar(0))], 1);
    let mut i = 0;
    assert_eq!(parse_instruction(&mut f, &toks, &mut i), Ok(Bytecode::Int(Op::Var(1))));
    assert_eq!(i, 3);
    assert_eq!(f.id, 2);
    assert_eq!(f.variables.len(), 2);
    assert_eq!(lookup_integer_variable_id(&f, &String::from("a")), Ok(Op::Var(1)));
    // a second declaration names the identifier and changes nothing
    let mut i = 0;
    let e = parse_instruction(&mut f, &toks, &mut i).unwrap_err();
    assert_eq!(e, IrError::Redeclared(String::from("a")));
    assert_eq!(e.message(), "invalid instruction. identifier 'a' declared too many times");
    assert_eq!(f.id, 2);
    assert_eq!(f.variables.len(), 2);
}

#[test]
fn ir_instructions_before_an_error_are_kept() {
    let toks = lex_ir("%func f\n%int a\n%mov a, 1\n%out b\n%endfunc\n");
    let mut code = Vec::new();
    let mut i = 0;
    let e = parse_ir(&toks, &mut i, &mut code).unwrap_err();
    assert_eq!(e, IrError::Undeclared(String::from("b")));
    assert_eq!(code, vec![Bytecode::Int(Op::Var(0)), Bytecode::Mov(Op::Var(0), Op::Num(1))]);
    assert_eq!(i, 13);
}

#[test]
fn ir_tokens_by_what_the_characters_are_taken_for() {
    let chars: Vec<char> = " ab c".chars().collect();
    let white = whitespace_of(&chars);
    assert_eq!(white, vec![true, false, false, true, false]);
    assert!(matches!(next_token(&chars, &white, 0), (Some(IRTok::Var(name)), 4) if name == "ab"));
    assert!(matches!(next_token(&chars, &white, 4), (Some(IRTok::Var(name)), 5) if name == "c"));
    assert!(matches!(next_token(&chars, &white, 5), (None, 5)));
    // with no character taken for white space, the text is one name
    let none = vec![false; 5];
    assert!(matches!(next_token(&chars, &none, 0), (Some(IRTok::Var(name)), 5) if name == " ab c"));
    // with every character taken for white space, there is no token
    let all = vec![true; 5];
    assert!(matches!(next_token(&chars, &all, 0), (None, 5)));
}
