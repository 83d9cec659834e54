//! The instruction model and the assembly buffer.
//!
//! Instructions are a closed family of records; each renders itself to one
//! text line.  `inst_bytes` is the mathematical rendering, and the
//! executable rendering is proven to produce exactly those bytes.

use vstd::prelude::*;

verus! {

/// 64-bit registers the generator uses.
#[derive(Debug, Clone, Copy, PartialEq, Eq, Structural)]
pub enum Reg64 {
    Rax,
    Rdi,
    Rsi,
    Rdx,
    Rcx,
    R8,
    R9,
    Rbp,
    Rsp,
}

/// 8-bit registers the generator uses.
#[derive(Debug, Clone, Copy, PartialEq, Eq, Structural)]
pub enum Reg8 {
    Al,
}

/// An instruction operand: a register, an immediate, or a memory cell at
/// `[reg - disp]`.
#[derive(Debug, Clone, Copy, PartialEq, Eq, Structural)]
pub enum Opnd {
    Reg(Reg64),
    Reg8(Reg8),
    Imm(usize),
    Mem(Reg64, usize),
}

/// Which control-flow label family a label belongs to.
#[derive(Debug, Clone, Copy, PartialEq, Eq, Structural)]
pub enum LabelKind {
    IfEnd,
    IfElse,
    LoopBegin,
    LoopEnd,
}

/// One line of assembly: an instruction, a label, a jump, a call, or a
/// free-form directive.
#[derive(Debug)]
pub enum Inst {
    Arbitrary(Vec<u8>),
    Label(LabelKind, usize),
    Je(LabelKind, usize),
    Jmp(LabelKind, usize),
    Call(Vec<u8>),
    Push(Opnd),
    Pop(Opnd),
    Mov(Opnd, Opnd),
    Add(Opnd, Opnd),
    Sub(Opnd, Opnd),
    Imul(Opnd, Opnd),
    Cqo,
    Idiv(Opnd),
    Cmp(Opnd, Opnd),
    Sete(Opnd),
    Setne(Opnd),
    Setl(Opnd),
    Setle(Opnd),
    Movzx(Opnd, Opnd),
    Ret,
}

/// The mathematical image of an instruction: byte payloads become byte
/// sequences.
pub enum InstM {
    Arbitrary(Seq<u8>),
    Label(LabelKind, usize),
    Je(LabelKind, usize),
    Jmp(LabelKind, usize),
    Call(Seq<u8>),
    Push(Opnd),
    Pop(Opnd),
    Mov(Opnd, Opnd),
    Add(Opnd, Opnd),
    Sub(Opnd, Opnd),
    Imul(Opnd, Opnd),
    Cqo,
    Idiv(Opnd),
    Cmp(Opnd, Opnd),
    Sete(Opnd),
    Setne(Opnd),
    Setl(Opnd),
    Setle(Opnd),
    Movzx(Opnd, Opnd),
    Ret,
}

impl View for Inst {
    type V = InstM;

    open spec fn view(&self) -> InstM {
        match *self {
            Inst::Arbitrary(ref s) => InstM::Arbitrary(s@),
            Inst::Label(k, n) => InstM::Label(k, n),
            Inst::Je(k, n) => InstM::Je(k, n),
            Inst::Jmp(k, n) => InstM::Jmp(k, n),
            Inst::Call(ref s) => InstM::Call(s@),
            Inst::Push(a) => InstM::Push(a),
            Inst::Pop(a) => InstM::Pop(a),
            Inst::Mov(a, b) => InstM::Mov(a, b),
            Inst::Add(a, b) => InstM::Add(a, b),
            Inst::Sub(a, b) => InstM::Sub(a, b),
            Inst::Imul(a, b) => InstM::Imul(a, b),
            Inst::Cqo => InstM::Cqo,
            Inst::Idiv(a) => InstM::Idiv(a),
            Inst::Cmp(a, b) => InstM::Cmp(a, b),
            Inst::Sete(a) => InstM::Sete(a),
            Inst::Setne(a) => InstM::Setne(a),
            Inst::Setl(a) => InstM::Setl(a),
            Inst::Setle(a) => InstM::Setle(a),
            Inst::Movzx(a, b) => InstM::Movzx(a, b),
            Inst::Ret => InstM::Ret,
        }
    }
}

/// The decimal digits of `n`, most significant first.
pub open spec fn dec(n: int) -> Seq<u8>
    decreases n,
        when n >= 0
{
    if n < 10 {
        seq![(48 + n) as u8]
    } else {
        dec(n / 10) + seq![(48 + n % 10) as u8]
    }
}

pub open spec fn b_ind() -> Seq<u8> {
    seq![32u8, 32u8]
}

pub open spec fn b_sep() -> Seq<u8> {
    seq![44u8, 32u8]
}

pub open spec fn b_sp() -> Seq<u8> {
    seq![32u8]
}

pub open spec fn b_nl() -> Seq<u8> {
    seq![10u8]
}

pub open spec fn b_mn_push() -> Seq<u8> {
    seq![112u8, 117u8, 115u8, 104u8]
}

pub open spec fn b_mn_pop() -> Seq<u8> {
    seq![112u8, 111u8, 112u8]
}

pub open spec fn b_mn_mov() -> Seq<u8> {
    seq![109u8, 111u8, 118u8]
}

pub open spec fn b_mn_add() -> Seq<u8> {
    seq![97u8, 100u8, 100u8]
}

pub open spec fn b_mn_sub() -> Seq<u8> {
    seq![115u8, 117u8, 98u8]
}

pub open spec fn b_mn_imul() -> Seq<u8> {
    seq![105u8, 109u8, 117u8, 108u8]
}

pub open spec fn b_mn_cqo() -> Seq<u8> {
    seq![99u8, 113u8, 111u8]
}

pub open spec fn b_mn_idiv() -> Seq<u8> {
    seq![105u8, 100u8, 105u8, 118u8]
}

pub open spec fn b_mn_cmp() -> Seq<u8> {
    seq![99u8, 109u8, 112u8]
}

pub open spec fn b_mn_sete() -> Seq<u8> {
    seq![115u8, 101u8, 116u8, 101u8]
}

pub open spec fn b_mn_setne() -> Seq<u8> {
    seq![115u8, 101u8, 116u8, 110u8, 101u8]
}

pub open spec fn b_mn_setl() -> Seq<u8> {
    seq![115u8, 101u8, 116u8, 108u8]
}

pub open spec fn b_mn_setle() -> Seq<u8> {
    seq![115u8, 101u8, 116u8, 108u8, 101u8]
}

pub open spec fn b_mn_movzx() -> Seq<u8> {
    seq![109u8, 111u8, 118u8, 122u8, 120u8]
}

pub open spec fn b_mn_ret() -> Seq<u8> {
    seq![114u8, 101u8, 116u8]
}

pub open spec fn b_reg_rax() -> Seq<u8> {
    seq![114u8, 97u8, 120u8]
}

pub open spec fn b_reg_rdi() -> Seq<u8> {
    seq![114u8, 100u8, 105u8]
}

pub open spec fn b_reg_rsi() -> Seq<u8> {
    seq![114u8, 115u8, 105u8]
}

pub open spec fn b_reg_rdx() -> Seq<u8> {
    seq![114u8, 100u8, 120u8]
}

pub open spec fn b_reg_rcx() -> Seq<u8> {
    seq![114u8, 99u8, 120u8]
}

pub open spec fn b_reg_r8() -> Seq<u8> {
    seq![114u8, 56u8]
}

pub open spec fn b_reg_r9() -> Seq<u8> {
    seq![114u8, 57u8]
}

pub open spec fn b_reg_rbp() -> Seq<u8> {
    seq![114u8, 98u8, 112u8]
}

pub open spec fn b_reg_rsp() -> Seq<u8> {
    seq![114u8, 115u8, 112u8]
}

pub open spec fn b_reg_al() -> Seq<u8> {
    seq![97u8, 108u8]
}

pub open spec fn b_mem_open() -> Seq<u8> {
    seq![91u8]
}

pub open spec fn b_mem_minus() -> Seq<u8> {
    seq![32u8, 45u8, 32u8]
}

pub open spec fn b_mem_close() -> Seq<u8> {
    seq![93u8]
}

pub open spec fn b_lab_if_end() -> Seq<u8> {
    seq![76u8, 95u8, 105u8, 102u8, 95u8, 101u8, 110u8, 100u8, 95u8]
}

pub open spec fn b_lab_if_else() -> Seq<u8> {
    seq![76u8, 95u8, 105u8, 102u8, 95u8, 101u8, 108u8, 115u8, 101u8, 95u8]
}

pub open spec fn b_lab_loop_begin() -> Seq<u8> {
    seq![76u8, 95u8, 108u8, 111u8, 111u8, 112u8, 95u8, 98u8, 101u8, 103u8, 105u8, 110u8, 95u8]
}

pub open spec fn b_lab_loop_end() -> Seq<u8> {
    seq![76u8, 95u8, 108u8, 111u8, 111u8, 112u8, 95u8, 101u8, 110u8, 100u8, 95u8]
}

pub open spec fn b_colon() -> Seq<u8> {
    seq![58u8]
}

pub open spec fn b_je_head() -> Seq<u8> {
    seq![32u8, 32u8, 106u8, 101u8, 32u8]
}

pub open spec fn b_jmp_head() -> Seq<u8> {
    seq![32u8, 32u8, 106u8, 109u8, 112u8, 32u8]
}

pub open spec fn b_call_head() -> Seq<u8> {
    seq![32u8, 32u8, 99u8, 97u8, 108u8, 108u8, 32u8, 95u8]
}

pub open spec fn b_d_intel() -> Seq<u8> {
    seq![46u8, 105u8, 110u8, 116u8, 101u8, 108u8, 95u8, 115u8, 121u8, 110u8, 116u8, 97u8, 120u8, 32u8, 110u8, 111u8, 112u8, 114u8, 101u8, 102u8, 105u8, 120u8]
}

pub open spec fn b_d_global() -> Seq<u8> {
    seq![46u8, 103u8, 108u8, 111u8, 98u8, 97u8, 108u8, 32u8, 95u8, 109u8, 97u8, 105u8, 110u8]
}

pub open spec fn b_d_main() -> Seq<u8> {
    seq![95u8, 109u8, 97u8, 105u8, 110u8, 58u8]
}

pub open spec fn reg_bytes(r: Reg64) -> Seq<u8> {
    match r {
        Reg64::Rax => b_reg_rax(),
        Reg64::Rdi => b_reg_rdi(),
        Reg64::Rsi => b_reg_rsi(),
        Reg64::Rdx => b_reg_rdx(),
        Reg64::Rcx => b_reg_rcx(),
        Reg64::R8 => b_reg_r8(),
        Reg64::R9 => b_reg_r9(),
        Reg64::Rbp => b_reg_rbp(),
        Reg64::Rsp => b_reg_rsp(),
    }
}

pub open spec fn opnd_bytes(o: Opnd) -> Seq<u8> {
    match o {
        Opnd::Reg(r) => reg_bytes(r),
        Opnd::Reg8(r8) => b_reg_al(),
        Opnd::Imm(n) => dec(n as int),
        Opnd::Mem(r, d) => b_mem_open() + reg_bytes(r) + b_mem_minus() + dec(d as int)
            + b_mem_close(),
    }
}

pub open spec fn label_head(k: LabelKind) -> Seq<u8> {
    match k {
        LabelKind::IfEnd => b_lab_if_end(),
        LabelKind::IfElse => b_lab_if_else(),
        LabelKind::LoopBegin => b_lab_loop_begin(),
        LabelKind::LoopEnd => b_lab_loop_end(),
    }
}

pub open spec fn two_op_line(mn: Seq<u8>, a: Opnd, b: Opnd) -> Seq<u8> {
    b_ind() + mn + b_sp() + opnd_bytes(a) + b_sep() + opnd_bytes(b) + b_nl()
}

pub open spec fn one_op_line(mn: Seq<u8>, a: Opnd) -> Seq<u8> {
    b_ind() + mn + b_sp() + opnd_bytes(a) + b_nl()
}

pub open spec fn zero_op_line(mn: Seq<u8>) -> Seq<u8> {
    b_ind() + mn + b_nl()
}

/// The text line an instruction renders to, newline included.
pub open spec fn inst_bytes(i: InstM) -> Seq<u8> {
    match i {
        InstM::Arbitrary(s) => s + b_nl(),
        InstM::Label(k, n) => label_head(k) + dec(n as int) + b_colon() + b_nl(),
        InstM::Je(k, n) => b_je_head() + label_head(k) + dec(n as int) + b_nl(),
        InstM::Jmp(k, n) => b_jmp_head() + label_head(k) + dec(n as int) + b_nl(),
        InstM::Call(name) => b_call_head() + name + b_nl(),
        InstM::Push(a) => one_op_line(b_mn_push(), a),
        InstM::Pop(a) => one_op_line(b_mn_pop(), a),
        InstM::Mov(a, b) => two_op_line(b_mn_mov(), a, b),
        InstM::Add(a, b) => two_op_line(b_mn_add(), a, b),
        InstM::Sub(a, b) => two_op_line(b_mn_sub(), a, b),
        InstM::Imul(a, b) => two_op_line(b_mn_imul(), a, b),
        InstM::Cqo => zero_op_line(b_mn_cqo()),
        InstM::Idiv(a) => one_op_line(b_mn_idiv(), a),
        InstM::Cmp(a, b) => two_op_line(b_mn_cmp(), a, b),
        InstM::Sete(a) => one_op_line(b_mn_sete(), a),
        InstM::Setne(a) => one_op_line(b_mn_setne(), a),
        InstM::Setl(a) => one_op_line(b_mn_setl(), a),
        InstM::Setle(a) => one_op_line(b_mn_setle(), a),
        InstM::Movzx(a, b) => two_op_line(b_mn_movzx(), a, b),
        InstM::Ret => zero_op_line(b_mn_ret()),
    }
}

/// The text of a whole instruction sequence.
pub open spec fn insts_bytes(s: Seq<InstM>) -> Seq<u8>
    decreases s,
{
    if s.len() == 0 {
        Seq::<u8>::empty()
    } else {
        inst_bytes(s[0]) + insts_bytes(s.drop_first())
    }
}

/// Appending an instruction appends its line.
pub proof fn lemma_insts_bytes_push(s: Seq<InstM>, x: InstM)
    ensures
        insts_bytes(s.push(x)) == insts_bytes(s) + inst_bytes(x),
    decreases s,
{
    assert(insts_bytes(s.push(x)) == inst_bytes(s.push(x)[0]) + insts_bytes(
        s.push(x).drop_first(),
    ));
    if s.len() == 0 {
        assert(s.push(x)[0] == x);
        assert(s.push(x).drop_first() =~= Seq::<InstM>::empty());
        assert(insts_bytes(Seq::<InstM>::empty()) =~= Seq::<u8>::empty());
        assert(insts_bytes(s.push(x)) =~= insts_bytes(s) + inst_bytes(x));
    } else {
        assert(s.push(x)[0] == s[0]);
        assert(s.push(x).drop_first() =~= s.drop_first().push(x));
        lemma_insts_bytes_push(s.drop_first(), x);
        assert(insts_bytes(s) == inst_bytes(s[0]) + insts_bytes(s.drop_first()));
        assert(insts_bytes(s.push(x)) =~= insts_bytes(s) + inst_bytes(x));
    }
}

/// The decimal digits of `n`, appended.
pub fn push_dec(out: &mut Vec<u8>, n: usize)
    ensures
        final(out)@ == old(out)@ + dec(n as int),
    decreases n,
{
    if n < 10 {
        out.push(48 + (n as u8));
        proof {
            assert(out@ =~= old(out)@ + dec(n as int));
        }
    } else {
        push_dec(out, n / 10);
        out.push(48 + ((n % 10) as u8));
        proof {
            assert(out@ =~= old(out)@ + dec(n as int));
        }
    }
}

/// A register name, appended.
pub fn push_reg(out: &mut Vec<u8>, r: Reg64)
    ensures
        final(out)@ == old(out)@ + reg_bytes(r),
{
    match r {
        Reg64::Rax => push_reg_rax(out),
        Reg64::Rdi => push_reg_rdi(out),
        Reg64::Rsi => push_reg_rsi(out),
        Reg64::Rdx => push_reg_rdx(out),
        Reg64::Rcx => push_reg_rcx(out),
        Reg64::R8 => push_reg_r8(out),
        Reg64::R9 => push_reg_r9(out),
        Reg64::Rbp => push_reg_rbp(out),
        Reg64::Rsp => push_reg_rsp(out),
    }
}

/// An operand, appended.
pub fn push_opnd(out: &mut Vec<u8>, o: Opnd)
    ensures
        final(out)@ == old(out)@ + opnd_bytes(o),
{
    match o {
        Opnd::Reg(r) => push_reg(out, r),
        Opnd::Reg8(_) => push_reg_al(out),
        Opnd::Imm(n) => push_dec(out, n),
        Opnd::Mem(r, d) => {
            push_mem_open(out);
            push_reg(out, r);
            push_mem_minus(out);
            push_dec(out, d);
            push_mem_close(out);
            proof {
                assert(out@ =~= old(out)@ + opnd_bytes(o));
            }
        },
    }
}

/// A label family's prefix, appended.
pub fn push_label_head(out: &mut Vec<u8>, k: LabelKind)
    ensures
        final(out)@ == old(out)@ + label_head(k),
{
    match k {
        LabelKind::IfEnd => push_lab_if_end(out),
        LabelKind::IfElse => push_lab_if_else(out),
        LabelKind::LoopBegin => push_lab_loop_begin(out),
        LabelKind::LoopEnd => push_lab_loop_end(out),
    }
}

/// A slice of bytes, appended.
pub fn push_bytes(out: &mut Vec<u8>, s: &[u8])
    ensures
        final(out)@ == old(out)@ + s@,
{
    let n: usize = s.len();
    let mut i: usize = 0;
    while i < n
        invariant
            i <= n,
            n == s@.len(),
            out@ == old(out)@ + s@.subrange(0, i as int),
        decreases n - i,
    {
        out.push(s[i]);
        proof {
            assert(out@ =~= old(out)@ + s@.subrange(0, i + 1));
        }
        i = i + 1;
    }
    proof {
        assert(s@.subrange(0, n as int) =~= s@);
    }
}

/// Appends the text `'  '`.
pub fn push_ind(out: &mut Vec<u8>)
    ensures
        final(out)@ == old(out)@ + b_ind(),
{
    let ghost pre = out@;
    out.push(32);
        out.push(32);
    proof {
        assert(out@ =~= pre + b_ind());
    }
}

/// Appends the text `', '`.
pub fn push_sep(out: &mut Vec<u8>)
    ensures
        final(out)@ == old(out)@ + b_sep(),
{
    let ghost pre = out@;
    out.push(44);
        out.push(32);
    proof {
        assert(out@ =~= pre + b_sep());
    }
}

/// Appends the text `' '`.
pub fn push_sp(out: &mut Vec<u8>)
    ensures
        final(out)@ == old(out)@ + b_sp(),
{
    let ghost pre = out@;
    out.push(32);
    proof {
        assert(out@ =~= pre + b_sp());
    }
}

/// Appends the text `'\n'`.
pub fn push_nl(out: &mut Vec<u8>)
    ensures
        final(out)@ == old(out)@ + b_nl(),
{
    let ghost pre = out@;
    out.push(10);
    proof {
        assert(out@ =~= pre + b_nl());
    }
}

/// Appends the text `'push'`.
pub fn push_mn_push(out: &mut Vec<u8>)
    ensures
        final(out)@ == old(out)@ + b_mn_push(),
{
    let ghost pre = out@;
    out.push(112);
        out.push(117);
        out.push(115);
        out.push(104);
    proof {
        assert(out@ =~= pre + b_mn_push());
    }
}

/// Appends the text `'pop'`.
pub fn push_mn_pop(out: &mut Vec<u8>)
    ensures
        final(out)@ == old(out)@ + b_mn_pop(),
{
    let ghost pre = out@;
    out.push(112);
        out.push(111);
        out.push(112);
    proof {
        assert(out@ =~= pre + b_mn_pop());
    }
}

/// Appends the text `'mov'`.
pub fn push_mn_mov(out: &mut Vec<u8>)
    ensures
        final(out)@ == old(out)@ + b_mn_mov(),
{
    let ghost pre = out@;
    out.push(109);
        out.push(111);
        out.push(118);
    proof {
        assert(out@ =~= pre + b_mn_mov());
    }
}

/// Appends the text `'add'`.
pub fn push_mn_add(out: &mut Vec<u8>)
    ensures
        final(out)@ == old(out)@ + b_mn_add(),
{
    let ghost pre = out@;
    out.push(97);
        out.push(100);
        out.push(100);
    proof {
        assert(out@ =~= pre + b_mn_add());
    }
}

/// Appends the text `'sub'`.
pub fn push_mn_sub(out: &mut Vec<u8>)
    ensures
        final(out)@ == old(out)@ + b_mn_sub(),
{
    let ghost pre = out@;
    out.push(115);
        out.push(117);
        out.push(98);
    proof {
        assert(out@ =~= pre + b_mn_sub());
    }
}

/// Appends the text `'imul'`.
pub fn push_mn_imul(out: &mut Vec<u8>)
    ensures
        final(out)@ == old(out)@ + b_mn_imul(),
{
    let ghost pre = out@;
    out.push(105);
        out.push(109);
        out.push(117);
        out.push(108);
    proof {
        assert(out@ =~= pre + b_mn_imul());
    }
}

/// Appends the text `'cqo'`.
pub fn push_mn_cqo(out: &mut Vec<u8>)
    ensures
        final(out)@ == old(out)@ + b_mn_cqo(),
{
    let ghost pre = out@;
    out.push(99);
        out.push(113);
        out.push(111);
    proof {
        assert(out@ =~= pre + b_mn_cqo());
    }
}

/// Appends the text `'idiv'`.
pub fn push_mn_idiv(out: &mut Vec<u8>)
    ensures
        final(out)@ == old(out)@ + b_mn_idiv(),
{
    let ghost pre = out@;
    out.push(105);
        out.push(100);
        out.push(105);
        out.push(118);
    proof {
        assert(out@ =~= pre + b_mn_idiv());
    }
}

/// Appends the text `'cmp'`.
pub fn push_mn_cmp(out: &mut Vec<u8>)
    ensures
        final(out)@ == old(out)@ + b_mn_cmp(),
{
    let ghost pre = out@;
    out.push(99);
        out.push(109);
        out.push(112);
    proof {
        assert(out@ =~= pre + b_mn_cmp());
    }
}

/// Appends the text `'sete'`.
pub fn push_mn_sete(out: &mut Vec<u8>)
    ensures
        final(out)@ == old(out)@ + b_mn_sete(),
{
    let ghost pre = out@;
    out.push(115);
        out.push(101);
        out.push(116);
        out.push(101);
    proof {
        assert(out@ =~= pre + b_mn_sete());
    }
}

/// Appends the text `'setne'`.
pub fn push_mn_setne(out: &mut Vec<u8>)
    ensures
        final(out)@ == old(out)@ + b_mn_setne(),
{
    let ghost pre = out@;
    out.push(115);
        out.push(101);
        out.push(116);
        out.push(110);
        out.push(101);
    proof {
        assert(out@ =~= pre + b_mn_setne());
    }
}

/// Appends the text `'setl'`.
pub fn push_mn_setl(out: &mut Vec<u8>)
    ensures
        final(out)@ == old(out)@ + b_mn_setl(),
{
    let ghost pre = out@;
    out.push(115);
        out.push(101);
        out.push(116);
        out.push(108);
    proof {
        assert(out@ =~= pre + b_mn_setl());
    }
}

/// Appends the text `'setle'`.
pub fn push_mn_setle(out: &mut Vec<u8>)
    ensures
        final(out)@ == old(out)@ + b_mn_setle(),
{
    let ghost pre = out@;
    out.push(115);
        out.push(101);
        out.push(116);
        out.push(108);
        out.push(101);
    proof {
        assert(out@ =~= pre + b_mn_setle());
    }
}

/// Appends the text `'movzx'`.
pub fn push_mn_movzx(out: &mut Vec<u8>)
    ensures
        final(out)@ == old(out)@ + b_mn_movzx(),
{
    let ghost pre = out@;
    out.push(109);
        out.push(111);
        out.push(118);
        out.push(122);
        out.push(120);
    proof {
        assert(out@ =~= pre + b_mn_movzx());
    }
}

/// Appends the text `'ret'`.
pub fn push_mn_ret(out: &mut Vec<u8>)
    ensures
        final(out)@ == old(out)@ + b_mn_ret(),
{
    let ghost pre = out@;
    out.push(114);
        out.push(101);
        out.push(116);
    proof {
        assert(out@ =~= pre + b_mn_ret());
    }
}

/// Appends the text `'rax'`.
pub fn push_reg_rax(out: &mut Vec<u8>)
    ensures
        final(out)@ == old(out)@ + b_reg_rax(),
{
    let ghost pre = out@;
    out.push(114);
        out.push(97);
        out.push(120);
    proof {
        assert(out@ =~= pre + b_reg_rax());
    }
}

/// Appends the text `'rdi'`.
pub fn push_reg_rdi(out: &mut Vec<u8>)
    ensures
        final(out)@ == old(out)@ + b_reg_rdi(),
{
    let ghost pre = out@;
    out.push(114);
        out.push(100);
        out.push(105);
    proof {
        assert(out@ =~= pre + b_reg_rdi());
    }
}

/// Appends the text `'rsi'`.
pub fn push_reg_rsi(out: &mut Vec<u8>)
    ensures
        final(out)@ == old(out)@ + b_reg_rsi(),
{
    let ghost pre = out@;
    out.push(114);
        out.push(115);
        out.push(105);
    proof {
        assert(out@ =~= pre + b_reg_rsi());
    }
}

/// Appends the text `'rdx'`.
pub fn push_reg_rdx(out: &mut Vec<u8>)
    ensures
        final(out)@ == old(out)@ + b_reg_rdx(),
{
    let ghost pre = out@;
    out.push(114);
        out.push(100);
        out.push(120);
    proof {
        assert(out@ =~= pre + b_reg_rdx());
    }
}

/// Appends the text `'rcx'`.
pub fn push_reg_rcx(out: &mut Vec<u8>)
    ensures
        final(out)@ == old(out)@ + b_reg_rcx(),
{
    let ghost pre = out@;
    out.push(114);
        out.push(99);
        out.push(120);
    proof {
        assert(out@ =~= pre + b_reg_rcx());
    }
}

/// Appends the text `'r8'`.
pub fn push_reg_r8(out: &mut Vec<u8>)
    ensures
        final(out)@ == old(out)@ + b_reg_r8(),
{
    let ghost pre = out@;
    out.push(114);
        out.push(56);
    proof {
        assert(out@ =~= pre + b_reg_r8());
    }
}

/// Appends the text `'r9'`.
pub fn push_reg_r9(out: &mut Vec<u8>)
    ensures
        final(out)@ == old(out)@ + b_reg_r9(),
{
    let ghost pre = out@;
    out.push(114);
        out.push(57);
    proof {
        assert(out@ =~= pre + b_reg_r9());
    }
}

/// Appends the text `'rbp'`.
pub fn push_reg_rbp(out: &mut Vec<u8>)
    ensures
        final(out)@ == old(out)@ + b_reg_rbp(),
{
    let ghost pre = out@;
    out.push(114);
        out.push(98);
        out.push(112);
    proof {
        assert(out@ =~= pre + b_reg_rbp());
    }
}

/// Appends the text `'rsp'`.
pub fn push_reg_rsp(out: &mut Vec<u8>)
    ensures
        final(out)@ == old(out)@ + b_reg_rsp(),
{
    let ghost pre = out@;
    out.push(114);
        out.push(115);
        out.push(112);
    proof {
        assert(out@ =~= pre + b_reg_rsp());
    }
}

/// Appends the text `'al'`.
pub fn push_reg_al(out: &mut Vec<u8>)
    ensures
        final(out)@ == old(out)@ + b_reg_al(),
{
    let ghost pre = out@;
    out.push(97);
        out.push(108);
    proof {
        assert(out@ =~= pre + b_reg_al());
    }
}

/// Appends the text `'['`.
pub fn push_mem_open(out: &mut Vec<u8>)
    ensures
        final(out)@ == old(out)@ + b_mem_open(),
{
    let ghost pre = out@;
    out.push(91);
    proof {
        assert(out@ =~= pre + b_mem_open());
    }
}

/// Appends the text `' - '`.
pub fn push_mem_minus(out: &mut Vec<u8>)
    ensures
        final(out)@ == old(out)@ + b_mem_minus(),
{
    let ghost pre = out@;
    out.push(32);
        out.push(45);
        out.push(32);
    proof {
        assert(out@ =~= pre + b_mem_minus());
    }
}

/// Appends the text `']'`.
pub fn push_mem_close(out: &mut Vec<u8>)
    ensures
        final(out)@ == old(out)@ + b_mem_close(),
{
    let ghost pre = out@;
    out.push(93);
    proof {
        assert(out@ =~= pre + b_mem_close());
    }
}

/// Appends the text `'L_if_end_'`.
pub fn push_lab_if_end(out: &mut Vec<u8>)
    ensures
        final(out)@ == old(out)@ + b_lab_if_end(),
{
    let ghost pre = out@;
    out.push(76);
        out.push(95);
        out.push(105);
        out.push(102);
        out.push(95);
        out.push(101);
        out.push(110);
        out.push(100);
        out.push(95);
    proof {
        assert(out@ =~= pre + b_lab_if_end());
    }
}

/// Appends the text `'L_if_else_'`.
pub fn push_lab_if_else(out: &mut Vec<u8>)
    ensures
        final(out)@ == old(out)@ + b_lab_if_else(),
{
    let ghost pre = out@;
    out.push(76);
        out.push(95);
        out.push(105);
        out.push(102);
        out.push(95);
        out.push(101);
        out.push(108);
        out.push(115);
        out.push(101);
        out.push(95);
    proof {
        assert(out@ =~= pre + b_lab_if_else());
    }
}

/// Appends the text `'L_loop_begin_'`.
pub fn push_lab_loop_begin(out: &mut Vec<u8>)
    ensures
        final(out)@ == old(out)@ + b_lab_loop_begin(),
{
    let ghost pre = out@;
    out.push(76);
        out.push(95);
        out.push(108);
        out.push(111);
        out.push(111);
        out.push(112);
        out.push(95);
        out.push(98);
        out.push(101);
        out.push(103);
        out.push(105);
        out.push(110);
        out.push(95);
    proof {
        assert(out@ =~= pre + b_lab_loop_begin());
    }
}

/// Appends the text `'L_loop_end_'`.
pub fn push_lab_loop_end(out: &mut Vec<u8>)
    ensures
        final(out)@ == old(out)@ + b_lab_loop_end(),
{
    let ghost pre = out@;
    out.push(76);
        out.push(95);
        out.push(108);
        out.push(111);
        out.push(111);
        out.push(112);
        out.push(95);
        out.push(101);
        out.push(110);
        out.push(100);
        out.push(95);
    proof {
        assert(out@ =~= pre + b_lab_loop_end());
    }
}

/// Appends the text `':'`.
pub fn push_colon(out: &mut Vec<u8>)
    ensures
        final(out)@ == old(out)@ + b_colon(),
{
    let ghost pre = out@;
    out.push(58);
    proof {
        assert(out@ =~= pre + b_colon());
    }
}

/// Appends the text `'  je '`.
pub fn push_je_head(out: &mut Vec<u8>)
    ensures
        final(out)@ == old(out)@ + b_je_head(),
{
    let ghost pre = out@;
    out.push(32);
        out.push(32);
        out.push(106);
        out.push(101);
        out.push(32);
    proof {
        assert(out@ =~= pre + b_je_head());
    }
}

/// Appends the text `'  jmp '`.
pub fn push_jmp_head(out: &mut Vec<u8>)
    ensures
        final(out)@ == old(out)@ + b_jmp_head(),
{
    let ghost pre = out@;
    out.push(32);
        out.push(32);
        out.push(106);
        out.push(109);
        out.push(112);
        out.push(32);
    proof {
        assert(out@ =~= pre + b_jmp_head());
    }
}

/// Appends the text `'  call _'`.
pub fn push_call_head(out: &mut Vec<u8>)
    ensures
        final(out)@ == old(out)@ + b_call_head(),
{
    let ghost pre = out@;
    out.push(32);
        out.push(32);
        out.push(99);
        out.push(97);
        out.push(108);
        out.push(108);
        out.push(32);
        out.push(95);
    proof {
        assert(out@ =~= pre + b_call_head());
    }
}

/// Appends the text `'.intel_syntax noprefix'`.
pub fn push_d_intel(out: &mut Vec<u8>)
    ensures
        final(out)@ == old(out)@ + b_d_intel(),
{
    let ghost pre = out@;
    out.push(46);
        out.push(105);
        out.push(110);
        out.push(116);
        out.push(101);
        out.push(108);
        out.push(95);
        out.push(115);
        out.push(121);
        out.push(110);
        out.push(116);
        out.push(97);
        out.push(120);
        out.push(32);
        out.push(110);
        out.push(111);
        out.push(112);
        out.push(114);
        out.push(101);
        out.push(102);
        out.push(105);
        out.push(120);
    proof {
        assert(out@ =~= pre + b_d_intel());
    }
}

/// Appends the text `'.global _main'`.
pub fn push_d_global(out: &mut Vec<u8>)
    ensures
        final(out)@ == old(out)@ + b_d_global(),
{
    let ghost pre = out@;
    out.push(46);
        out.push(103);
        out.push(108);
        out.push(111);
        out.push(98);
        out.push(97);
        out.push(108);
        out.push(32);
        out.push(95);
        out.push(109);
        out.push(97);
        out.push(105);
        out.push(110);
    proof {
        assert(out@ =~= pre + b_d_global());
    }
}

/// Appends the text `'_main:'`.
pub fn push_d_main(out: &mut Vec<u8>)
    ensures
        final(out)@ == old(out)@ + b_d_main(),
{
    let ghost pre = out@;
    out.push(95);
        out.push(109);
        out.push(97);
        out.push(105);
        out.push(110);
        out.push(58);
    proof {
        assert(out@ =~= pre + b_d_main());
    }
}

impl Inst {
    /// Renders this instruction as one text line into `out`.
    #[verifier::rlimit(100)]
    pub fn write(&self, out: &mut Vec<u8>)
        ensures
            final(out)@ == old(out)@ + inst_bytes(self@),
    {
        let ghost pre = out@;
        match self {
            Inst::Arbitrary(s) => {
                push_bytes(out, s.as_slice());
                push_nl(out);
            },
            Inst::Label(k, n) => {
                push_label_head(out, *k);
                push_dec(out, *n);
                push_colon(out);
                push_nl(out);
            },
            Inst::Je(k, n) => {
                push_je_head(out);
                push_label_head(out, *k);
                push_dec(out, *n);
                push_nl(out);
            },
            Inst::Jmp(k, n) => {
                push_jmp_head(out);
                push_label_head(out, *k);
                push_dec(out, *n);
                push_nl(out);
            },
            Inst::Call(name) => {
                push_call_head(out);
                push_bytes(out, name.as_slice());
                push_nl(out);
            },
            Inst::Push(a) => {
                push_ind(out);
                push_mn_push(out);
                push_sp(out);
                push_opnd(out, *a);
                push_nl(out);
            },
            Inst::Pop(a) => {
                push_ind(out);
                push_mn_pop(out);
                push_sp(out);
                push_opnd(out, *a);
                push_nl(out);
            },
            Inst::Mov(a, b) => {
                push_ind(out);
                push_mn_mov(out);
                push_sp(out);
                push_opnd(out, *a);
                push_sep(out);
                push_opnd(out, *b);
                push_nl(out);
            },
            Inst::Add(a, b) => {
                push_ind(out);
                push_mn_add(out);
                push_sp(out);
                push_opnd(out, *a);
                push_sep(out);
                push_opnd(out, *b);
                push_nl(out);
            },
            Inst::Sub(a, b) => {
                push_ind(out);
                push_mn_sub(out);
                push_sp(out);
                push_opnd(out, *a);
                push_sep(out);
                push_opnd(out, *b);
                push_nl(out);
            },
            Inst::Imul(a, b) => {
                push_ind(out);
                push_mn_imul(out);
                push_sp(out);
                push_opnd(out, *a);
                push_sep(out);
                push_opnd(out, *b);
                push_nl(out);
            },
            Inst::Cqo => {
                push_ind(out);
                push_mn_cqo(out);
                push_nl(out);
            },
            Inst::Idiv(a) => {
                push_ind(out);
                push_mn_idiv(out);
                push_sp(out);
                push_opnd(out, *a);
                push_nl(out);
            },
            Inst::Cmp(a, b) => {
                push_ind(out);
                push_mn_cmp(out);
                push_sp(out);
                push_opnd(out, *a);
                push_sep(out);
                push_opnd(out, *b);
                push_nl(out);
            },
            Inst::Sete(a) => {
                push_ind(out);
                push_mn_sete(out);
                push_sp(out);
                push_opnd(out, *a);
                push_nl(out);
            },
            Inst::Setne(a) => {
                push_ind(out);
                push_mn_setne(out);
                push_sp(out);
                push_opnd(out, *a);
                push_nl(out);
            },
            Inst::Setl(a) => {
                push_ind(out);
                push_mn_setl(out);
                push_sp(out);
                push_opnd(out, *a);
                push_nl(out);
            },
            Inst::Setle(a) => {
                push_ind(out);
                push_mn_setle(out);
                push_sp(out);
                push_opnd(out, *a);
                push_nl(out);
            },
            Inst::Movzx(a, b) => {
                push_ind(out);
                push_mn_movzx(out);
                push_sp(out);
                push_opnd(out, *a);
                push_sep(out);
                push_opnd(out, *b);
                push_nl(out);
            },
            Inst::Ret => {
                push_ind(out);
                push_mn_ret(out);
                push_nl(out);
            },
        }
        proof {
            assert(out@ =~= pre + inst_bytes(self@));
        }
    }
}

/// Builds a `cmp` instruction.
pub fn cmp(a: Opnd, b: Opnd) -> (r: Inst)
    ensures
        r@ == InstM::Cmp(a, b),
{
    Inst::Cmp(a, b)
}

/// Builds a `mov` instruction.
pub fn mov(a: Opnd, b: Opnd) -> (r: Inst)
    ensures
        r@ == InstM::Mov(a, b),
{
    Inst::Mov(a, b)
}

/// Builds a `pop` instruction.
pub fn pop(a: Opnd) -> (r: Inst)
    ensures
        r@ == InstM::Pop(a),
{
    Inst::Pop(a)
}

/// Builds a `push` instruction.
pub fn push(a: Opnd) -> (r: Inst)
    ensures
        r@ == InstM::Push(a),
{
    Inst::Push(a)
}

/// Builds a `sub` instruction.
pub fn sub(a: Opnd, b: Opnd) -> (r: Inst)
    ensures
        r@ == InstM::Sub(a, b),
{
    Inst::Sub(a, b)
}

/// Builds a free-form line: a directive or anything already rendered.
pub fn arbitrary(s: Vec<u8>) -> (r: Inst)
    ensures
        r@ == InstM::Arbitrary(s@),
{
    Inst::Arbitrary(s)
}

/// An ordered buffer of instructions, rendered to text at the end.
#[derive(Debug)]
pub struct AsmBuf {
    pub vec: Vec<Inst>,
}

impl View for AsmBuf {
    type V = Seq<InstM>;

    open spec fn view(&self) -> Seq<InstM> {
        self.vec@.map_values(|i: Inst| i@)
    }
}

impl AsmBuf {
    pub fn new() -> (r: AsmBuf)
        ensures
            r@ =~= Seq::<InstM>::empty(),
    {
        AsmBuf { vec: Vec::new() }
    }

    /// Appends one instruction.
    pub fn push(&mut self, inst: Inst)
        ensures
            final(self)@ == old(self)@.push(inst@),
    {
        let ghost a = inst@;
        self.vec.push(inst);
        proof {
            assert(final(self)@ =~= old(self)@.push(a));
        }
    }

    /// Moves every instruction of `others` to the end of this buffer.
    pub fn append(&mut self, others: &mut AsmBuf)
        ensures
            final(self)@ == old(self)@ + old(others)@,
            final(others)@ =~= Seq::<InstM>::empty(),
    {
        self.vec.append(&mut others.vec);
        proof {
            assert(final(self)@ =~= old(self)@ + old(others)@);
            assert(final(others)@ =~= Seq::<InstM>::empty());
        }
    }

    /// Renders every line into `out`, in order.
    pub fn output(&self, out: &mut Vec<u8>)
        ensures
            final(out)@ == old(out)@ + insts_bytes(self@),
    {
        let n: usize = self.vec.len();
        let mut i: usize = 0;
        while i < n
            invariant
                i <= n,
                n == self.vec@.len(),
                out@ == old(out)@ + insts_bytes(self@.subrange(0, i as int)),
            decreases n - i,
        {
            let ghost before = self@.subrange(0, i as int);
            self.vec[i].write(out);
            proof {
                assert(self@.subrange(0, i + 1) =~= before.push(self@[i as int]));
                lemma_insts_bytes_push(before, self@[i as int]);
            }
            i = i + 1;
        }
        proof {
            assert(self@.subrange(0, n as int) =~= self@);
        }
    }
}

} // verus!
