use std::path::PathBuf;

use vm::analysis::{BlockLoc, Loc, SemError};
use vm::args::Config;
use vm::exec::execute;
use vm::ir::{BlockID, Temp, TempID};
use vm::parser::parse;
use vm::{run, Error, ReturnType};

fn config() -> Config {
    Config::new_defaults(PathBuf::from("test.abs"))
}

fn run_src(src: &str) -> Result<ReturnType, Error> {
    run(&config(), src)
}

#[test]
fn minimal_return() {
    assert_eq!(run_src("main\n@0\n  ret 7\n"), Ok(ReturnType::Return(7)));
}

#[test]
fn arithmetic_wrapping() {
    let src = "main\n@0\n  #0 = 2147483647 + 1\n  ret #0\n";
    assert_eq!(run_src(src), Ok(ReturnType::Return(-2147483648)));
}

#[test]
fn divide_by_zero() {
    let src = "main\n@0\n  #0 = 10 / 0\n  ret #0\n";
    assert_eq!(run_src(src), Ok(ReturnType::DivByZero));
}

const PHI_SRC: &str = "main t0
@0
  cmp t0 @1 @2
@1 @0
  #0 = 1
  jmp @3
@2 @0
  #0 = 2
  jmp @3
@3 @1 @2
  #1 = phi #0 #0
  ret #1
";

#[test]
fn phi_selection() {
    let prog = parse(PHI_SRC).ok().unwrap();
    let main = "main".to_string();
    assert_eq!(execute(&prog, &main, &vec![0], None).0, ReturnType::Return(2));
    assert_eq!(execute(&prog, &main, &vec![5], None).0, ReturnType::Return(1));
    assert_eq!(execute(&prog, &main, &vec![-1], None).0, ReturnType::Return(1));
}

#[test]
fn call_with_return_value() {
    let src = "add t0 t1\n@0\n  #0 = t0 + t1\n  ret #0\nmain\n@0\n  #0 = call add 3 4\n  ret #0\n";
    assert_eq!(run_src(src), Ok(ReturnType::Return(7)));
}

#[test]
fn timeout_on_infinite_loop() {
    let src = "main\n@0 @0\n  jmp @0\n";
    let cfg = Config::new_timeout(PathBuf::from("loop.abs"), 1);
    assert_eq!(run(&cfg, src), Ok(ReturnType::Timeout));
}

const TWO_DEFS: &str = "main
@0
  #0 = 1
  jmp @1
@1 @0
  #0 = 2
  ret #0
";

#[test]
fn ssa_rejection() {
    let mut cfg = config();
    cfg.ssa = true;
    let expected = SemError::MultiDefs(
        Temp(TempID::Num(0)),
        Loc(BlockID(0), BlockLoc::Line(0)),
        Loc(BlockID(1), BlockLoc::Line(0)),
    );
    assert_eq!(run(&cfg, TWO_DEFS), Err(Error::SemError(expected)));
}

#[test]
fn ssa_off_accepts_two_defs() {
    assert_eq!(run_src(TWO_DEFS), Ok(ReturnType::Return(2)));
}

#[test]
fn missing_main() {
    let src = "foo\n@0\n  ret 1\n";
    assert_eq!(run_src(src), Err(Error::SemError(SemError::NoMain)));
}

#[test]
fn parse_is_deterministic() {
    let a = parse(PHI_SRC).ok().unwrap();
    let b = parse(PHI_SRC).ok().unwrap();
    assert_eq!(a, b);
}

#[test]
fn run_is_deterministic() {
    let src = "main\n@0\n  #0 = 6 * 7\n  print #0\n  ret #0\n";
    let first = vm::run_traced(&config(), src).ok().unwrap();
    let second = vm::run_traced(&config(), src).ok().unwrap();
    assert_eq!(first, second);
    assert_eq!(first.0, ReturnType::Return(42));
}
