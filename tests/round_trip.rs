use vm::ir::Program;
use vm::parser::parse;
use vm::render::render;

/// The program with every source line number set to 0.
fn without_lines(p: &Program) -> Program {
    let mut q = p.clone();
    for f in q.funcs.iter_mut() {
        f.line_start = 0;
        for b in f.blocks.iter_mut() {
            b.line_start = 0;
            b.branch.line = 0;
            for i in b.lines.iter_mut() {
                i.line = 0;
            }
        }
    }
    q
}

fn round_trip(src: &str) {
    let first = parse(src).ok().unwrap();
    let text = String::from_utf8(render(&first)).unwrap();
    let second = parse(&text).ok().unwrap();
    assert_eq!(without_lines(&first), without_lines(&second));
}

#[test]
fn render_text_exact() {
    let src = "f t0 eax\n@1\n  #0 = - t0\n  #1 = #0 >>> 3\n  if #1 @2\n  call g 1 -2\n  jmp @2\n@2 @1 @1\n  #2 = phi #1 5\n  cmp #2 <= -7 @1 @2\n";
    let prog = parse(src).ok().unwrap();
    let text = String::from_utf8(render(&prog)).unwrap();
    assert_eq!(
        text,
        "f #0 eax\n@1\n  #0 = - #0\n  #1 = #0 >>> 3\n  if #1 @2\n  call g 1 -2\n  jmp @2\n@2 @1 @1\n  #2 = phi #1 5\n  cmp #2 <= -7 @1 @2\n"
    );
}

#[test]
fn round_trip_scenarios() {
    round_trip("main\n@0\n  ret 7\n");
    round_trip("main\n@0\n  #0 = 2147483647 + 1\n  ret #0\n");
    round_trip("add t0 t1\n@0\n  #0 = t0 + t1\n  ret #0\nmain\n@0\n  #0 = call add 3 4\n  ret #0\n");
    round_trip("main t0\n@0\n  cmp t0 @1 @2\n@1 @0\n  #0 = 1\n  jmp @3\n@2 @0\n  #0 = 2\n  jmp @3\n@3 @1 @2\n  #1 = phi #0 #0\n  ret #1\n");
    round_trip("main\n  #0 = -2147483648\n  print #0\n  dump\n  nop\n  jz @0 @0\n");
    round_trip("main\n@4 @4\n  ebx = ! 1\n  #9 = ~ ebx\n  jnge @4 @4\n");
}
