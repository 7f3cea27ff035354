use std::path::PathBuf;

use vm::analysis::{sem_analysis, ssa_form, SemError};
use vm::args::Config;
use vm::exec::{execute, Event, ProgContext, StepOut};
use vm::ir::{BlockID, BranchKind, InstrKind, Operand, Register, Temp, TempID};
use vm::lexer::{lex, Lexeme, Token};
use vm::ops::{BinOp, UnOp};
use vm::parse_error::{ParseError, ParseErrorKind, Span};
use vm::parser::parse;
use vm::{run, run_traced, Error, ErrorTrait, ReturnType};

fn config() -> Config {
    Config::new_defaults(PathBuf::from("test.abs"))
}

fn toks(src: &str) -> Vec<Token> {
    lex(src.as_bytes()).iter().map(|l: &Lexeme| l.tok).collect()
}

fn parse_err(src: &str) -> ParseError {
    match parse(src) {
        Err(e) => e,
        Ok(_) => panic!("parsed"),
    }
}

#[test]
fn binop_edges() {
    assert_eq!(BinOp::Add.eval(i32::MIN, i32::MIN), Some(0));
    assert_eq!(BinOp::Div.eval(i32::MIN, -1), None);
    assert_eq!(BinOp::Mod.eval(i32::MIN, -1), None);
    assert_eq!(BinOp::Div.eval(17, 0), None);
    assert_eq!(BinOp::Mod.eval(17, 0), None);
    assert_eq!(BinOp::Div.eval(-7, 2), Some(-3));
    assert_eq!(BinOp::Mod.eval(-7, 2), Some(-1));
    assert_eq!(BinOp::Mul.eval(65536, 65536), Some(0));
    assert_eq!(BinOp::Sub.eval(i32::MIN, 1), Some(i32::MAX));
}

#[test]
fn binop_shifts_and_logic() {
    assert_eq!(BinOp::LShift.eval(1, 31), Some(i32::MIN));
    assert_eq!(BinOp::LShift.eval(1, 32), None);
    assert_eq!(BinOp::LShift.eval(1, -1), None);
    assert_eq!(BinOp::RShift.eval(-8, 1), Some(-4));
    assert_eq!(BinOp::RShiftLog.eval(-8, 28), Some(15));
    assert_eq!(BinOp::Less.eval(-1, 0), Some(1));
    assert_eq!(BinOp::Geq.eval(-1, 0), Some(0));
    assert_eq!(BinOp::Neq.eval(3, 3), Some(0));
    assert_eq!(BinOp::LogAnd.eval(1, 0), Some(0));
    assert_eq!(BinOp::BitXor.eval(6, 3), Some(5));
}

#[test]
fn unop_values() {
    assert_eq!(UnOp::Neg.eval(i32::MIN), i32::MIN);
    assert_eq!(UnOp::Neg.eval(5), -5);
    assert_eq!(UnOp::BitNot.eval(0), -1);
    assert_eq!(UnOp::LogNot.eval(1), 0);
    assert_eq!(UnOp::LogNot.eval(0), 1);
}

#[test]
fn lexer_tokens() {
    assert_eq!(
        toks("#12 = 0x1F >>> -5 // note\n@3"),
        vec![
            Token::Temp(12),
            Token::Assign,
            Token::Const(31),
            Token::RShiftLog,
            Token::Const(-5),
            Token::NewLine,
            Token::Block(3),
        ]
    );
    assert_eq!(toks("jnle ret foo <= && !="), vec![
        Token::Jnle,
        Token::Ret,
        Token::Id,
        Token::Leq,
        Token::LogAnd,
        Token::Neq,
    ]);
}

#[test]
fn lexer_spans() {
    let lx = lex("  ret 42".as_bytes());
    assert_eq!(lx.len(), 2);
    assert_eq!((lx[0].start, lx[0].end), (2, 5));
    assert_eq!((lx[1].start, lx[1].end), (6, 8));
}

#[test]
fn lexer_number_ranges() {
    assert_eq!(toks("2147483647"), vec![Token::Const(i32::MAX)]);
    assert_eq!(toks("2147483648"), vec![Token::Error]);
    assert_eq!(toks("-2147483648"), vec![Token::Const(i32::MIN)]);
    assert_eq!(toks("-2147483649"), vec![Token::Error]);
    assert_eq!(toks("0xFFFFFFFF"), vec![Token::Const(-1)]);
    assert_eq!(toks("0x000000001"), vec![Token::Const(1)]);
    assert_eq!(toks("0x100000000"), vec![Token::Error]);
    assert_eq!(toks("$"), vec![Token::Error]);
}

#[test]
fn parse_structure() {
    let src = "f t0 eax\n@2 @1\n  #0 = -t0\n  print #0\n  call g 1 2\n  ret\n@1\n  if eax @2\n  jmp @2\n";
    let prog = parse(src).ok().unwrap();
    assert_eq!(prog.funcs.len(), 1);
    let f = &prog.funcs[0];
    assert_eq!(f.name, "f");
    assert_eq!(f.params, vec![Temp(TempID::Num(0)), Temp(TempID::Reg(Register::EAX))]);
    assert_eq!(f.blocks.len(), 2);
    let b = &f.blocks[0];
    assert_eq!(b.id, BlockID(2));
    assert_eq!(b.preds, vec![BlockID(1)]);
    assert_eq!(b.line_start, 2);
    assert_eq!(b.lines[0].line, 3);
    assert_eq!(
        b.lines[0].kind,
        InstrKind::UnOp { op: UnOp::Neg, dest: Temp(TempID::Num(0)), src: Operand::Temp(Temp(TempID::Num(0))) }
    );
    assert_eq!(b.lines[2].kind, InstrKind::Call {
        name: "g".to_string(),
        dest: None,
        src: vec![Operand::Const(1), Operand::Const(2)],
    });
    assert_eq!(b.branch.kind, BranchKind::Ret(None));
    assert_eq!(b.branch.line, 6);
    assert_eq!(f.blocks[1].lines[0].kind, InstrKind::If {
        cond: Operand::Temp(Temp(TempID::Reg(Register::EAX))),
        block: BlockID(2),
    });
}

#[test]
fn parse_single_block_function() {
    let prog = parse("\n\nmain\n  #0 = 3\n  ret #0\n").ok().unwrap();
    let f = &prog.funcs[0];
    assert_eq!(f.line_start, 3);
    assert_eq!(f.blocks.len(), 1);
    assert_eq!(f.blocks[0].id, BlockID(0));
    assert!(f.blocks[0].preds.is_empty());
}

#[test]
fn parse_errors() {
    let e = parse_err("main\n@0\n  frob 1 2\n  ret\n");
    assert_eq!(e.0, ParseErrorKind::UnknownInstr("frob".to_string()));
    assert_eq!(e.1, Span { start: 10, end: 18 });
    assert_eq!(e.code(), 0);
    assert_eq!(parse_err("main\n@0\n  #0 = 1\n").0, ParseErrorKind::EOF);
    assert_eq!(parse_err("main\n").0, ParseErrorKind::FuncNeedBlock);
    assert_eq!(parse_err("main\n5\n").0, ParseErrorKind::NoBlock(Token::Const(5)));
    assert_eq!(parse_err("5\n").0, ParseErrorKind::NoName(Token::Const(5)));
    assert_eq!(parse_err("main 5\n").0, ParseErrorKind::NoTemp(Token::Const(5)));
    assert_eq!(parse_err("main\n@0\n  #0 5\n").0, ParseErrorKind::NoMatch(Token::Assign, Token::Const(5)));
    assert_eq!(parse_err("main\n@0\n  #0 = 1 +\n  ret\n").0, ParseErrorKind::InvalidOperand);
}

#[test]
fn error_tags_and_notes() {
    let e = run(&config(), "foo\n@0\n  ret\n").err().unwrap();
    assert_eq!(e.tag(), "S");
    assert_eq!(e.code(), 0);
    assert_eq!(e.note(), Some("VM needs a function called `main` to start executing at"));
    assert_eq!(e.label(), None);
    let p = run(&config(), "main\n@0\n  ??\n").err().unwrap();
    assert_eq!(p.tag(), "P");
    assert_eq!(p.message(), "Unknown or Invalid Instruction(s)");
    assert!(p.label().is_some());
}

#[test]
fn invalid_cfg() {
    let src = "main\n@0\n  jmp @1\n@1\n  ret 0\n";
    assert_eq!(run(&config(), src), Err(Error::SemError(SemError::InvalidCFG)));
    let phi_arity = "main\n@0\n  jmp @1\n@1 @0\n  #0 = phi 1 2\n  ret #0\n";
    assert_eq!(run(&config(), phi_arity), Err(Error::SemError(SemError::InvalidCFG)));
}

#[test]
fn ssa_form_single_defs() {
    let prog = parse("main\n@0\n  #0 = 1\n  #1 = #0 + 1\n  eax = 2\n  eax = 3\n  ret #1\n").ok().unwrap();
    assert_eq!(ssa_form(&prog), Ok(()));
    assert_eq!(sem_analysis(&prog, true), Ok(()));
}

#[test]
fn print_and_dump_events() {
    let src = "main\n@0\n  #3 = 5\n  ebx = 2\n  print #3\n  dump\n  ret 0\n";
    let (o, events) = run_traced(&config(), src).ok().unwrap();
    assert_eq!(o, ReturnType::Return(0));
    assert_eq!(events.len(), 2);
    assert_eq!(events[0], Event::Print { line: 5, value: Operand::Temp(Temp(TempID::Num(3))), result: 5 });
    match &events[1] {
        Event::Dump { line, temps } => {
            assert_eq!(*line, 6);
            assert_eq!(temps.len(), 16);
            assert_eq!(temps[0], (Temp(TempID::Num(3)), 5));
            assert_eq!(temps[1], (Temp(TempID::Reg(Register::EAX)), 0));
            assert_eq!(temps[2], (Temp(TempID::Reg(Register::EBX)), 2));
        },
        _ => panic!("expected a dump"),
    }
}

#[test]
fn runtime_faults() {
    let cmp_div = "main\n@0\n  cmp 1 / 0 @1 @1\n@1 @0\n  ret 1\n";
    assert_eq!(run(&config(), cmp_div), Ok(ReturnType::DivByZero));
    let min_div = "main\n@0\n  #0 = -2147483648 / -1\n  ret #0\n";
    assert_eq!(run(&config(), min_div), Ok(ReturnType::DivByZero));
    let undefined = "main\n@0\n  #0 = #7 + 1\n  ret #0\n";
    assert_eq!(run(&config(), undefined), Ok(ReturnType::InvalidProgram(3)));
    let entry_phi = "main\n@0\n  #0 = phi\n  ret #0\n";
    assert_eq!(run(&config(), entry_phi), Ok(ReturnType::InvalidProgram(3)));
    let args = "main t0\n@0\n  ret t0\n";
    assert_eq!(run(&config(), args), Ok(ReturnType::InvalidProgram(1)));
}

#[test]
fn calls_propagate_faults_and_loops_run() {
    let src = "bad\n@0\n  #0 = 1 % 0\n  ret #0\nmain\n@0\n  call bad\n  ret 1\n";
    assert_eq!(run(&config(), src), Ok(ReturnType::DivByZero));
    let sum = "main
@0
  #0 = 0
  #1 = 0
  jmp @1
@1 @0 @1
  #2 = phi #0 #4
  #3 = phi #1 #5
  #4 = #2 + 1
  #5 = #3 + #4
  cmp #4 < 10 @1 @2
@2 @1
  ret #5
";
    assert_eq!(run(&config(), sum), Ok(ReturnType::Return(55)));
    let prog = parse(sum).ok().unwrap();
    assert_eq!(execute(&prog, &"nothing".to_string(), &vec![], None).0, ReturnType::InvalidProgram(0));
}

#[test]
fn if_jumps_mid_block() {
    let src = "main\n@0\n  if 1 @1\n  ret 5\n@1 @0\n  ret 9\n";
    assert_eq!(run(&config(), src), Ok(ReturnType::Return(9)));
    let not_taken = "main\n@0\n  if 0 @1\n  ret 5\n@1 @0\n  ret 9\n";
    assert_eq!(run(&config(), not_taken), Ok(ReturnType::Return(5)));
}

#[test]
fn unknown_character_spans_whole_character() {
    let lx = lex("é+".as_bytes());
    assert_eq!(lx.len(), 2);
    assert_eq!((lx[0].tok, lx[0].start, lx[0].end), (Token::Error, 0, 2));
    assert_eq!(lx[1].tok, Token::Add);
    let e = parse_err("main\n@0\n  é\n  ret\n");
    assert_eq!(e.0, ParseErrorKind::UnknownInstr("é".to_string()));
    assert_eq!(e.1, Span { start: 10, end: 12 });
}

#[test]
fn tick_checks_budget_at_block_start() {
    let prog = parse("main\n@0\n  #0 = 1\n  ret #0\n").ok().unwrap();
    let main = "main".to_string();
    let mut m = ProgContext::new(&prog, &main, &vec![]).ok().unwrap();
    assert_eq!(m.tick(&prog, 5, Some(1)), StepOut::Halt(ReturnType::Timeout));
    assert_eq!(m.tick(&prog, 5, None), StepOut::Continue);
    assert_eq!(m.tick(&prog, 5, Some(1)), StepOut::Halt(ReturnType::Return(1)));
}

#[test]
fn entry_block_is_least_id() {
    assert_eq!(run(&config(), "main\n@5\n  ret 5\n@2\n  ret 2\n"), Ok(ReturnType::Return(2)));
}
