use std::collections::HashMap;

use atomcc::compile;
use atomcc::parser::Parser;
use atomcc::token::Pos;
use atomcc::tokenizer::tokenize;

fn compile_text(src: &str) -> String {
    let out = compile(src.as_bytes()).expect("compilation failed");
    String::from_utf8(out).expect("assembly is not text")
}

/// A tiny interpreter for the emitted subset of x86-64: enough to check
/// that a compiled program computes the expected exit value.
fn run(src: &str) -> i64 {
    let text = compile_text(src);
    let lines: Vec<&str> = text.lines().collect();
    let mut labels: HashMap<&str, usize> = HashMap::new();
    for (i, line) in lines.iter().enumerate() {
        if !line.starts_with("  ") && line.ends_with(':') {
            labels.insert(line.trim_end_matches(':'), i);
        }
    }
    let mut regs: HashMap<String, i64> = HashMap::new();
    for r in ["rax", "rdi", "rsi", "rdx", "rcx", "r8", "r9", "rbp", "rsp", "al"] {
        regs.insert(r.to_string(), 0);
    }
    let mut stack: Vec<i64> = Vec::new();
    let mut locals: HashMap<i64, i64> = HashMap::new();
    let mut flags: (i64, i64) = (0, 0);
    let mut pc = labels["_main"] + 1;
    let mut steps = 0u64;
    loop {
        steps += 1;
        assert!(steps < 1_000_000, "interpreter did not terminate");
        let line = lines[pc];
        pc += 1;
        if !line.starts_with("  ") {
            continue; // a label
        }
        let body = &line[2..];
        let (mn, rest) = match body.split_once(' ') {
            Some((m, r)) => (m, r),
            None => (body, ""),
        };
        let ops: Vec<&str> = if rest.is_empty() {
            vec![]
        } else {
            rest.split(", ").collect()
        };
        let val = |regs: &HashMap<String, i64>, o: &str| -> i64 {
            if let Ok(n) = o.parse::<i64>() {
                n
            } else {
                regs[o]
            }
        };
        match mn {
            "push" => {
                let v = val(&regs, ops[0]);
                stack.push(v);
            }
            "pop" => {
                let v = stack.pop().expect("pop from empty stack");
                regs.insert(ops[0].to_string(), v);
            }
            "mov" => {
                if ops[0].starts_with('[') {
                    let off: i64 = ops[0]
                        .trim_start_matches("[rbp - ")
                        .trim_end_matches(']')
                        .parse()
                        .unwrap();
                    let v = val(&regs, ops[1]);
                    locals.insert(off, v);
                } else if ops[1].starts_with('[') {
                    let off: i64 = ops[1]
                        .trim_start_matches("[rbp - ")
                        .trim_end_matches(']')
                        .parse()
                        .unwrap();
                    let v = *locals.get(&off).unwrap_or(&0);
                    regs.insert(ops[0].to_string(), v);
                } else {
                    let v = val(&regs, ops[1]);
                    regs.insert(ops[0].to_string(), v);
                }
            }
            "add" => {
                let v = regs[ops[0]] + val(&regs, ops[1]);
                regs.insert(ops[0].to_string(), v);
            }
            "sub" => {
                let v = regs[ops[0]] - val(&regs, ops[1]);
                regs.insert(ops[0].to_string(), v);
            }
            "imul" => {
                let v = regs[ops[0]] * val(&regs, ops[1]);
                regs.insert(ops[0].to_string(), v);
            }
            "cqo" => {}
            "idiv" => {
                let v = regs["rax"] / val(&regs, ops[0]);
                regs.insert("rax".to_string(), v);
            }
            "cmp" => {
                flags = (val(&regs, ops[0]), val(&regs, ops[1]));
            }
            "sete" => {
                regs.insert("al".to_string(), (flags.0 == flags.1) as i64);
            }
            "setne" => {
                regs.insert("al".to_string(), (flags.0 != flags.1) as i64);
            }
            "setl" => {
                regs.insert("al".to_string(), (flags.0 < flags.1) as i64);
            }
            "setle" => {
                regs.insert("al".to_string(), (flags.0 <= flags.1) as i64);
            }
            "movzx" => {
                let v = regs[ops[1]];
                regs.insert(ops[0].to_string(), v);
            }
            "je" => {
                if flags.0 == flags.1 {
                    pc = labels[ops[0]];
                }
            }
            "jmp" => {
                pc = labels[ops[0]];
            }
            "ret" => {
                return regs["rax"];
            }
            other => panic!("unknown mnemonic {}", other),
        }
    }
}

#[test]
fn bare_number_evaluates_to_itself() {
    assert_eq!(run("42;"), 42);
}

#[test]
fn precedence_of_multiplication() {
    assert_eq!(run("1 + 2 * 3;"), 7);
}

#[test]
fn parentheses_override_precedence() {
    assert_eq!(run("(1 + 2) * 3;"), 9);
}

#[test]
fn unary_minus_desugars_to_subtraction_from_zero() {
    assert_eq!(run("-3 + 5;"), 2);
}

#[test]
fn two_locals_assignment_and_reuse() {
    assert_eq!(run("a = 4; b = 3; a * b;"), 12);
}

#[test]
fn while_loop_counts_to_three() {
    assert_eq!(run("i = 0; while (i < 3) { i = i + 1; } i;"), 3);
}

#[test]
fn if_with_true_condition_returns_early() {
    assert_eq!(run("if (1 == 1) { return 7; } return 9;"), 7);
}

#[test]
fn if_else_takes_the_else_branch() {
    assert_eq!(run("if (1 == 0) { return 7; } else { return 9; }"), 9);
}

#[test]
fn more_evaluation_scenarios() {
    assert_eq!(run("10 / 3;"), 3);
    assert_eq!(run("1 < 2;"), 1);
    assert_eq!(run("2 < 1;"), 0);
    assert_eq!(run("2 > 1;"), 1);
    assert_eq!(run("2 >= 2;"), 1);
    assert_eq!(run("1 != 2;"), 1);
    assert_eq!(run("+4 * 2;"), 8);
    assert_eq!(run("a = 1; if (a) a = 5; a;"), 5);
}

#[test]
fn golden_assembly_for_bare_number() {
    let expected = "\
.intel_syntax noprefix
.global _main
_main:
  push rbp
  mov rbp, rsp
  sub rsp, 208
  push 42
  pop rax
  mov rsp, rbp
  pop rbp
  ret
";
    assert_eq!(compile_text("42;"), expected);
}

#[test]
fn golden_assembly_for_if() {
    let expected = "\
.intel_syntax noprefix
.global _main
_main:
  push rbp
  mov rbp, rsp
  sub rsp, 208
  push 1
  pop rax
  cmp rax, 0
  je L_if_end_0
  push 2
  pop rax
  mov [rbp - 0], rax
L_if_end_0:
  push 3
  pop rax
  mov rsp, rbp
  pop rbp
  ret
";
    assert_eq!(compile_text("if (1) a = 2; 3;"), expected);
}

#[test]
fn emitted_assembly_has_prelude_and_ret() {
    for src in ["42;", "a = 1; a;", "while (0) { 1; } 2;"] {
        let text = compile_text(src);
        assert!(text.starts_with(".intel_syntax noprefix\n.global _main\n_main:\n"));
        assert!(text.lines().filter(|l| *l == "  ret").count() >= 1);
    }
}

#[test]
fn compilation_is_deterministic() {
    let src = "a = 4; while (a < 9) { a = a + 2; } if (a == 10) { return 1; } return a;";
    assert_eq!(compile(src.as_bytes()).unwrap(), compile(src.as_bytes()).unwrap());
}

#[test]
fn labels_are_unique_across_the_unit() {
    let text = compile_text(
        "i = 0; while (i < 3) { if (i == 1) { i = i + 2; } else { i = i + 1; } } i;",
    );
    let mut seen = Vec::new();
    for line in text.lines() {
        if !line.starts_with("  ") && line.ends_with(':') && line != "_main:" {
            assert!(!seen.contains(&line), "label {} repeated", line);
            seen.push(line);
        }
    }
    assert!(seen.len() >= 4);
}

#[test]
fn parser_consumes_every_token() {
    let src = b"a = 4; b = 3; a * b;";
    let mut stream = tokenize(src);
    let mut parser = Parser::new();
    let prog = parser.parse(&mut stream).expect("parse failed");
    assert_eq!(prog.len(), 3);
    assert!(matches!(stream.peek(), Ok(None)));
}

#[test]
fn missing_operand_reports_at_end_of_input() {
    let err = compile(b"1 +").unwrap_err();
    assert_eq!(err.pos, 3);
    assert_eq!(err.msg, b"expected number, ident or \"(\"".to_vec());
    let rendered = Pos { origin: b"1 +", pos: err.pos }.display(&err.msg);
    assert_eq!(
        String::from_utf8(rendered).unwrap(),
        "1 +\n   ^ expected number, ident or \"(\"",
    );
}

#[test]
fn missing_semicolon_reports_after_the_expression() {
    let err = compile(b"1 + 2").unwrap_err();
    assert_eq!(err.pos, 5);
    assert_eq!(err.msg, b"expected \";\"".to_vec());
}

#[test]
fn missing_paren_after_if_reports_at_the_condition() {
    let err = compile(b"if 1 { 2; }").unwrap_err();
    assert_eq!(err.pos, 3);
    assert_eq!(err.msg, b"expected \"(\"".to_vec());
}

#[test]
fn stray_byte_is_a_lexical_failure() {
    let err = compile(b"@;").unwrap_err();
    assert_eq!(err.pos, 0);
    assert_eq!(err.msg, b"Unable to tokenize".to_vec());
}

#[test]
fn too_many_call_arguments_reports_at_the_comma() {
    let err = compile(b"f(1, 2, 3, 4, 5, 6, 7);").unwrap_err();
    assert_eq!(err.msg, b"too many arguments".to_vec());
    assert_eq!(err.pos, 18);
}

#[test]
fn call_arguments_are_passed_in_registers() {
    let text = compile_text("f(1, 2);");
    assert!(text.contains("  pop rsi\n  pop rdi\n"));
    assert!(text.contains("  call _f\n"));
}
