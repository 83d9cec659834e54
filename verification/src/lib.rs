//! A tiny single-pass compiler for a C-like expression and statement
//! language, producing x86-64 assembly in Intel syntax.
//!
//! The pipeline is: source bytes -> token stream (`token`, `tokenizer`)
//! -> abstract syntax tree and symbol table (`ast`, `parser`) -> instruction
//! buffer (`asm`, `generator`) -> rendered assembly text.

pub mod emit;
pub mod generator;
pub mod ast;
pub mod parser;
pub mod token;
pub mod tokenizer;

use vstd::prelude::*;

verus! {

/// Largest source length the compiler accepts.  Bounding the input keeps
/// every derived quantity (symbol-table offsets, label counters) well inside
/// `usize`.
pub const MAX_SRC_LEN: usize = 0x1000_0000;

/// What compilation yields: the assembly text, or a diagnostic.
pub enum CRes {
    Out(Seq<u8>),
    Fault(crate::parser::PErr),
}

/// The compiler as one mathematical function: parse from the start with
/// an empty symbol table, generate code with the label counter at zero,
/// render the instructions to text.
pub open spec fn spec_compile(s: Seq<u8>) -> CRes {
    match crate::parser::sp_program(s, 0, Seq::<Seq<u8>>::empty()) {
        crate::parser::PRes::Done { v, pos, tab } => CRes::Out(
            crate::emit::insts_bytes(crate::generator::sg_gen(v, 0).0),
        ),
        crate::parser::PRes::Fail(e) => CRes::Fault(e),
    }
}

/// A diagnostic: the byte offset the caret points at, and the message.
#[derive(Debug)]
pub struct CompileError {
    pub pos: usize,
    pub msg: Vec<u8>,
}

/// When a reported diagnostic is the one the specification names.
pub open spec fn ce_match(e: crate::parser::PErr, ce: CompileError) -> bool {
    match e {
        crate::parser::PErr::Lex { pos } => ce.pos as int == pos && ce.msg@
            == crate::parser::msg_of_kind(crate::parser::ErrKind::Lex),
        crate::parser::PErr::ExpectedSemi { pos } => ce.pos as int == pos && ce.msg@
            == crate::parser::msg_of_kind(crate::parser::ErrKind::ExpectedSemi),
        crate::parser::PErr::ExpectedParenLeft { pos } => ce.pos as int == pos && ce.msg@
            == crate::parser::msg_of_kind(crate::parser::ErrKind::ExpectedParenLeft),
        crate::parser::PErr::ExpectedParenRight { pos } => ce.pos as int == pos && ce.msg@
            == crate::parser::msg_of_kind(crate::parser::ErrKind::ExpectedParenRight),
        crate::parser::PErr::ExpectedBraceRight { pos } => ce.pos as int == pos && ce.msg@
            == crate::parser::msg_of_kind(crate::parser::ErrKind::ExpectedBraceRight),
        crate::parser::PErr::ExpectedPrimary { pos } => ce.pos as int == pos && ce.msg@
            == crate::parser::msg_of_kind(crate::parser::ErrKind::ExpectedPrimary),
        crate::parser::PErr::TooManyArgs { pos } => ce.pos as int == pos && ce.msg@
            == crate::parser::msg_of_kind(crate::parser::ErrKind::TooManyArgs),
        crate::parser::PErr::Stuck => false,
    }
}

/// Compile one source to assembly text, or report the first diagnostic.
/// The result is a function of the source bytes alone.
pub fn compile(src: &[u8]) -> (r: Result<Vec<u8>, CompileError>)
    requires
        src@.len() <= MAX_SRC_LEN,
    ensures
        match spec_compile(src@) {
            CRes::Out(b) => match r {
                Ok(out) => out@ == b,
                Err(_) => false,
            },
            CRes::Fault(e) => match r {
                Ok(_) => false,
                Err(ce) => ce_match(e, ce),
            },
        },
{
    let mut stream = crate::tokenizer::tokenize(src);
    let mut parser = crate::parser::Parser::new();
    let prog = match parser.parse(&mut stream) {
        Ok(v) => v,
        Err(pe) => {
            return Err(CompileError { pos: pe.pos, msg: crate::parser::kind_msg(pe.kind) });
        },
    };
    proof {
        crate::ast::lemma_stmts_labels_nonneg(crate::ast::stmts_view(prog@));
    }
    let mut buf = crate::emit::AsmBuf::new();
    let mut generator = crate::generator::Generator::new();
    generator.gen(&prog, &mut buf);
    let mut out: Vec<u8> = Vec::new();
    buf.output(&mut out);
    proof {
        assert(buf@ =~= crate::generator::sg_gen(crate::ast::stmts_view(prog@), 0).0);
        assert(out@ =~= crate::emit::insts_bytes(
            crate::generator::sg_gen(crate::ast::stmts_view(prog@), 0).0,
        ));
    }
    Ok(out)
}

} // verus!
