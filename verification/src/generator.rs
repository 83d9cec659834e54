//! The stack-machine code generator.
//!
//! The `sg_*` spec functions are the mathematical generator: from a
//! statement, a label counter and the stack depth (tracked modulo 16,
//! which is all that 16-byte alignment needs) they name the exact
//! instruction sequence emitted and the counter and depth left behind.
//! The executable generator is proven to emit exactly that.

use vstd::prelude::*;

use crate::ast::{
    expr_view, exprs_view, stmt_view, stmts_view, lemma_stmts_view, lemma_stmt_labels_nonneg,
    lemma_stmts_labels_nonneg, stmt_labels, stmts_labels, BinOp, Expr, ExprM, Stmt, StmtM,
};
use crate::emit::{
    arbitrary, b_d_global, b_d_intel, b_d_main, cmp, mov, pop, push, push_d_global, push_d_intel,
    push_d_main, sub, AsmBuf, Inst, InstM, LabelKind, Opnd, Reg64, Reg8,
};

verus! {

/// The register that carries argument `i` of a call.
pub open spec fn argreg(i: int) -> Reg64 {
    if i == 0 {
        Reg64::Rdi
    } else if i == 1 {
        Reg64::Rsi
    } else if i == 2 {
        Reg64::Rdx
    } else if i == 3 {
        Reg64::Rcx
    } else if i == 4 {
        Reg64::R8
    } else if i == 5 {
        Reg64::R9
    } else {
        Reg64::Rdi
    }
}

/// The instructions that combine the two popped operands of a binary
/// operation: left in `rax`, right in `rdi`, result in `rax`.
pub open spec fn binop_insts(op: BinOp) -> Seq<InstM> {
    match op {
        BinOp::Add => seq![InstM::Add(Opnd::Reg(Reg64::Rax), Opnd::Reg(Reg64::Rdi))],
        BinOp::Sub => seq![InstM::Sub(Opnd::Reg(Reg64::Rax), Opnd::Reg(Reg64::Rdi))],
        BinOp::Mul => seq![InstM::Imul(Opnd::Reg(Reg64::Rax), Opnd::Reg(Reg64::Rdi))],
        BinOp::Div => seq![InstM::Cqo, InstM::Idiv(Opnd::Reg(Reg64::Rdi))],
        BinOp::Eq => seq![
            InstM::Cmp(Opnd::Reg(Reg64::Rax), Opnd::Reg(Reg64::Rdi)),
            InstM::Sete(Opnd::Reg8(Reg8::Al)),
            InstM::Movzx(Opnd::Reg(Reg64::Rax), Opnd::Reg8(Reg8::Al)),
        ],
        BinOp::Neq => seq![
            InstM::Cmp(Opnd::Reg(Reg64::Rax), Opnd::Reg(Reg64::Rdi)),
            InstM::Setne(Opnd::Reg8(Reg8::Al)),
            InstM::Movzx(Opnd::Reg(Reg64::Rax), Opnd::Reg8(Reg8::Al)),
        ],
        BinOp::Lt => seq![
            InstM::Cmp(Opnd::Reg(Reg64::Rax), Opnd::Reg(Reg64::Rdi)),
            InstM::Setl(Opnd::Reg8(Reg8::Al)),
            InstM::Movzx(Opnd::Reg(Reg64::Rax), Opnd::Reg8(Reg8::Al)),
        ],
        BinOp::Lte => seq![
            InstM::Cmp(Opnd::Reg(Reg64::Rax), Opnd::Reg(Reg64::Rdi)),
            InstM::Setle(Opnd::Reg8(Reg8::Al)),
            InstM::Movzx(Opnd::Reg(Reg64::Rax), Opnd::Reg8(Reg8::Al)),
        ],
    }
}

/// Pops that move `k` evaluated arguments from the stack into the
/// argument registers, last argument first.
pub open spec fn arg_pops(k: int) -> Seq<InstM>
    decreases k,
        when k >= 0
{
    if k <= 0 {
        Seq::<InstM>::empty()
    } else {
        seq![InstM::Pop(Opnd::Reg(argreg(k - 1)))] + arg_pops(k - 1)
    }
}

/// What an expression compiles to, and the stack depth (modulo 16) after
/// it.  Every expression leaves exactly one 8-byte value on the stack.
pub open spec fn sg_expr(e: ExprM, d: int) -> (Seq<InstM>, int)
    decreases e,
{
    match e {
        ExprM::Num(n) => (seq![InstM::Push(Opnd::Imm(n as usize))], (d + 8) % 16),
        ExprM::Ident { offset } => (
            seq![
                InstM::Mov(Opnd::Reg(Reg64::Rax), Opnd::Mem(Reg64::Rbp, offset as usize)),
                InstM::Push(Opnd::Reg(Reg64::Rax)),
            ],
            (d + 8) % 16,
        ),
        ExprM::Paren(inner) => sg_expr(*inner, d),
        ExprM::BinOp { op, lhs, rhs } => {
            let (lc, d1) = sg_expr(*lhs, d);
            let (rc, d2) = sg_expr(*rhs, d1);
            (
                lc + rc + seq![
                    InstM::Pop(Opnd::Reg(Reg64::Rdi)),
                    InstM::Pop(Opnd::Reg(Reg64::Rax)),
                ] + binop_insts(op) + seq![InstM::Push(Opnd::Reg(Reg64::Rax))],
                (d2 + 8) % 16,
            )
        },
        ExprM::Call { name, args } => {
            let (ac, d1) = sg_exprs(args, d);
            let d2 = (d1 + 8 * args.len()) % 16;
            let pad = if d2 % 16 != 0 {
                seq![InstM::Sub(Opnd::Reg(Reg64::Rsp), Opnd::Imm(8))]
            } else {
                Seq::<InstM>::empty()
            };
            (
                ac + arg_pops(args.len() as int) + pad + seq![
                    InstM::Call(name),
                    InstM::Push(Opnd::Reg(Reg64::Rax)),
                ],
                (d2 + 8) % 16,
            )
        },
    }
}

/// Arguments in source order, each leaving one value on the stack.
pub open spec fn sg_exprs(args: Seq<ExprM>, d: int) -> (Seq<InstM>, int)
    decreases args,
{
    if args.len() == 0 {
        (Seq::<InstM>::empty(), d)
    } else {
        let (c0, d0) = sg_expr(args[0], d);
        let (cr, dr) = sg_exprs(args.drop_first(), d0);
        (c0 + cr, dr)
    }
}

/// The subroutine epilogue: tear the frame down and return.
pub open spec fn epilogue_insts() -> Seq<InstM> {
    seq![
        InstM::Mov(Opnd::Reg(Reg64::Rsp), Opnd::Reg(Reg64::Rbp)),
        InstM::Pop(Opnd::Reg(Reg64::Rbp)),
        InstM::Ret,
    ]
}

/// The subroutine prologue: save the frame pointer and reserve
/// `8 * slots` bytes of locals.
pub open spec fn prologue_insts(slots: usize) -> Seq<InstM> {
    seq![
        InstM::Push(Opnd::Reg(Reg64::Rbp)),
        InstM::Mov(Opnd::Reg(Reg64::Rbp), Opnd::Reg(Reg64::Rsp)),
        InstM::Sub(Opnd::Reg(Reg64::Rsp), Opnd::Imm((8 * slots) as usize)),
    ]
}

/// The three fixed lines every compilation unit starts with.
pub open spec fn prelude_insts() -> Seq<InstM> {
    seq![
        InstM::Arbitrary(b_d_intel()),
        InstM::Arbitrary(b_d_global()),
        InstM::Arbitrary(b_d_main()),
    ]
}

/// What a statement compiles to, with the label counter and depth it
/// leaves behind.
pub open spec fn sg_stmt(s: StmtM, c: int, d: int) -> (Seq<InstM>, int, int)
    decreases s,
{
    match s {
        StmtM::Expr(e) => {
            let (code, d1) = sg_expr(e, d);
            (code, c, d1)
        },
        StmtM::Assign { lhs_offset, rhs } => {
            let (code, d1) = sg_expr(rhs, d);
            (
                code + seq![
                    InstM::Pop(Opnd::Reg(Reg64::Rax)),
                    InstM::Mov(Opnd::Mem(Reg64::Rbp, lhs_offset as usize), Opnd::Reg(Reg64::Rax)),
                ],
                c,
                (d1 + 8) % 16,
            )
        },
        StmtM::Return(e) => {
            let (code, d1) = sg_expr(e, d);
            (
                code + seq![InstM::Pop(Opnd::Reg(Reg64::Rax))] + epilogue_insts(),
                c,
                (d1 + 8) % 16,
            )
        },
        StmtM::If { cond, then_branch, else_branch: None } => {
            let (cc, d1) = sg_expr(cond, d);
            let (tc, c2, d2) = sg_stmt(*then_branch, c + 1, (d1 + 8) % 16);
            (
                cc + seq![
                    InstM::Pop(Opnd::Reg(Reg64::Rax)),
                    InstM::Cmp(Opnd::Reg(Reg64::Rax), Opnd::Imm(0)),
                    InstM::Je(LabelKind::IfEnd, c as usize),
                ] + tc + seq![InstM::Label(LabelKind::IfEnd, c as usize)],
                c2,
                d2,
            )
        },
        StmtM::If { cond, then_branch, else_branch: Some(els) } => {
            let (cc, d1) = sg_expr(cond, d);
            let (tc, c2, d2) = sg_stmt(*then_branch, c + 1, (d1 + 8) % 16);
            let (ec, c3, d3) = sg_stmt(*els, c2, d2);
            (
                cc + seq![
                    InstM::Pop(Opnd::Reg(Reg64::Rax)),
                    InstM::Cmp(Opnd::Reg(Reg64::Rax), Opnd::Imm(0)),
                    InstM::Je(LabelKind::IfElse, c as usize),
                ] + tc + seq![
                    InstM::Jmp(LabelKind::IfEnd, c as usize),
                    InstM::Label(LabelKind::IfElse, c as usize),
                ] + ec + seq![InstM::Label(LabelKind::IfEnd, c as usize)],
                c3,
                d3,
            )
        },
        StmtM::While { cond, block } => {
            let (cc, d1) = sg_expr(cond, d);
            let (bc, c2, d2) = sg_stmt(*block, c + 1, (d1 + 8) % 16);
            (
                seq![InstM::Label(LabelKind::LoopBegin, c as usize)] + cc + seq![
                    InstM::Pop(Opnd::Reg(Reg64::Rax)),
                    InstM::Cmp(Opnd::Reg(Reg64::Rax), Opnd::Imm(0)),
                    InstM::Je(LabelKind::LoopEnd, c as usize),
                ] + bc + seq![
                    InstM::Jmp(LabelKind::LoopBegin, c as usize),
                    InstM::Label(LabelKind::LoopEnd, c as usize),
                ],
                c2,
                d2,
            )
        },
        StmtM::Block(list) => sg_stmts(list, c, d),
    }
}

/// Statements in order.
pub open spec fn sg_stmts(list: Seq<StmtM>, c: int, d: int) -> (Seq<InstM>, int, int)
    decreases list,
{
    if list.len() == 0 {
        (Seq::<InstM>::empty(), c, d)
    } else {
        let (c0, cc0, dd0) = sg_stmt(list[0], c, d);
        let (cr, ccr, ddr) = sg_stmts(list.drop_first(), cc0, dd0);
        (c0 + cr, ccr, ddr)
    }
}

/// The whole `_main` subroutine: prologue, the statements, the pop of the
/// final value into `rax`, and the epilogue.  The depth after the
/// prologue is 16 — the return address and the saved frame pointer — so
/// the body starts at depth 0 modulo 16.
pub open spec fn sg_subroutine(list: Seq<StmtM>, c: int) -> (Seq<InstM>, int) {
    let (body, c2, d2) = sg_stmts(list, c, 0);
    (
        prologue_insts(26) + body + seq![InstM::Pop(Opnd::Reg(Reg64::Rax))] + epilogue_insts(),
        c2,
    )
}

/// A whole compilation unit: the prelude, then the subroutine.
pub open spec fn sg_gen(list: Seq<StmtM>, c: int) -> (Seq<InstM>, int) {
    let (sr, c2) = sg_subroutine(list, c);
    (prelude_insts() + sr, c2)
}

/// The label counter advances by exactly the number of labels the
/// statement needs.
pub proof fn lemma_sg_stmt_counter(s: StmtM, c: int, d: int)
    ensures
        sg_stmt(s, c, d).1 == c + stmt_labels(s),
    decreases s,
{
    match s {
        StmtM::If { cond, then_branch, else_branch } => {
            let d1 = sg_expr(cond, d).1;
            lemma_sg_stmt_counter(*then_branch, c + 1, (d1 + 8) % 16);
            match else_branch {
                Some(els) => {
                    let (tc, c2, d2) = sg_stmt(*then_branch, c + 1, (d1 + 8) % 16);
                    lemma_sg_stmt_counter(*els, c2, d2);
                },
                None => {},
            }
        },
        StmtM::While { cond, block } => {
            let d1 = sg_expr(cond, d).1;
            lemma_sg_stmt_counter(*block, c + 1, (d1 + 8) % 16);
        },
        StmtM::Block(list) => {
            lemma_sg_stmts_counter(list, c, d);
        },
        _ => {},
    }
}

pub proof fn lemma_sg_stmts_counter(list: Seq<StmtM>, c: int, d: int)
    ensures
        sg_stmts(list, c, d).1 == c + stmts_labels(list),
    decreases list,
{
    if list.len() > 0 {
        lemma_sg_stmt_counter(list[0], c, d);
        let (c0, cc0, dd0) = sg_stmt(list[0], c, d);
        lemma_sg_stmts_counter(list.drop_first(), cc0, dd0);
    }
}

/// The generator: a counter of label numbers already handed out.
#[derive(Debug)]
pub struct Generator {
    pub next_label_num: usize,
}

impl Generator {
    pub fn new() -> (g: Generator)
        ensures
            g.next_label_num == 0,
    {
        Generator { next_label_num: 0 }
    }

    /// A fresh label number: never returned twice by the same generator.
    pub fn new_label_num(&mut self) -> (n: usize)
        requires
            old(self).next_label_num < usize::MAX,
        ensures
            n == old(self).next_label_num,
            final(self).next_label_num == old(self).next_label_num + 1,
    {
        let n = self.next_label_num;
        self.next_label_num = self.next_label_num + 1;
        n
    }

    /// The three fixed lines every compilation unit starts with.
    pub fn gen_prelude(&self, buf: &mut AsmBuf)
        ensures
            final(buf)@ == old(buf)@ + prelude_insts(),
    {
        let mut l1: Vec<u8> = Vec::new();
        push_d_intel(&mut l1);
        buf.push(arbitrary(l1));
        let mut l2: Vec<u8> = Vec::new();
        push_d_global(&mut l2);
        buf.push(arbitrary(l2));
        let mut l3: Vec<u8> = Vec::new();
        push_d_main(&mut l3);
        buf.push(arbitrary(l3));
        proof {
            assert(final(buf)@ =~= old(buf)@ + prelude_insts());
        }
    }

    /// Compile a whole program into `buf`.
    pub fn gen(&mut self, stmts: &Vec<Stmt>, buf: &mut AsmBuf)
        requires
            old(self).next_label_num + stmts_labels(stmts_view(stmts@)) <= usize::MAX,
        ensures
            final(buf)@ == old(buf)@ + sg_gen(
                stmts_view(stmts@),
                old(self).next_label_num as int,
            ).0,
            final(self).next_label_num as int == sg_gen(
                stmts_view(stmts@),
                old(self).next_label_num as int,
            ).1,
    {
        self.gen_prelude(buf);
        let mut sub_gen = SubroutineGen::new(self.next_label_num);
        sub_gen.gen_subroutine(stmts, buf);
        self.next_label_num = sub_gen.next_label_num;
        proof {
            assert(final(buf)@ =~= old(buf)@ + sg_gen(
                stmts_view(stmts@),
                old(self).next_label_num as int,
            ).0);
        }
    }
}

/// Generates the code of one subroutine, tracking the logical stack depth
/// modulo 16 so that every `call` site can be kept 16-byte aligned.
#[derive(Debug)]
pub struct SubroutineGen {
    pub next_label_num: usize,
    /// Stack depth in bytes, modulo 16: the only part alignment needs.
    pub stack_len: usize,
}

impl SubroutineGen {
    pub fn new(next_label_num: usize) -> (g: SubroutineGen)
        ensures
            g.next_label_num == next_label_num,
            g.stack_len == 0,
    {
        SubroutineGen { next_label_num, stack_len: 0 }
    }

    /// One more 8-byte slot on the stack.
    pub fn inc_stack_len(&mut self)
        requires
            old(self).stack_len < 16,
        ensures
            final(self).stack_len as int == (old(self).stack_len + 8) % 16,
            final(self).stack_len < 16,
            final(self).next_label_num == old(self).next_label_num,
    {
        self.stack_len = (self.stack_len + 8) % 16;
    }

    /// One 8-byte slot fewer; modulo 16, subtracting 8 is adding 8.
    pub fn dec_stack_len(&mut self)
        requires
            old(self).stack_len < 16,
        ensures
            final(self).stack_len as int == (old(self).stack_len + 8) % 16,
            final(self).stack_len < 16,
            final(self).next_label_num == old(self).next_label_num,
    {
        self.stack_len = (self.stack_len + 8) % 16;
    }

    /// Frame setup.  The return address and the saved frame pointer
    /// contribute 16 bytes of depth; the local area does not count.
    pub fn gen_prologue(&mut self, stack_bytes: usize, buf: &mut AsmBuf)
        requires
            old(self).stack_len < 16,
            stack_bytes <= 0x1000_0000,
        ensures
            final(buf)@ == old(buf)@ + prologue_insts(stack_bytes),
            final(self).stack_len == old(self).stack_len,
            final(self).next_label_num == old(self).next_label_num,
    {
        // The return address pushed by our caller's `call`.
        self.inc_stack_len();
        buf.push(crate::emit::push(Opnd::Reg(Reg64::Rbp)));
        self.inc_stack_len();
        buf.push(mov(Opnd::Reg(Reg64::Rbp), Opnd::Reg(Reg64::Rsp)));
        buf.push(crate::emit::sub(Opnd::Reg(Reg64::Rsp), Opnd::Imm(8 * stack_bytes)));
        proof {
            assert(final(buf)@ =~= old(buf)@ + prologue_insts(stack_bytes));
        }
    }

    /// Frame teardown and return.
    pub fn gen_epilogue(&mut self, buf: &mut AsmBuf)
        ensures
            final(buf)@ == old(buf)@ + epilogue_insts(),
            *final(self) == *old(self),
    {
        buf.push(mov(Opnd::Reg(Reg64::Rsp), Opnd::Reg(Reg64::Rbp)));
        buf.push(pop(Opnd::Reg(Reg64::Rbp)));
        buf.push(Inst::Ret);
        proof {
            assert(final(buf)@ =~= old(buf)@ + epilogue_insts());
        }
    }

    /// The whole subroutine: prologue, statements, the final pop into
    /// `rax`, epilogue.
    pub fn gen_subroutine(&mut self, stmts: &Vec<Stmt>, buf: &mut AsmBuf)
        requires
            old(self).stack_len == 0,
            old(self).next_label_num + stmts_labels(stmts_view(stmts@)) <= usize::MAX,
        ensures
            final(buf)@ == old(buf)@ + sg_subroutine(
                stmts_view(stmts@),
                old(self).next_label_num as int,
            ).0,
            final(self).next_label_num as int == sg_subroutine(
                stmts_view(stmts@),
                old(self).next_label_num as int,
            ).1,
    {
        self.gen_prologue(26, buf);
        self.gen_stmts(stmts, buf);
        buf.push(pop(Opnd::Reg(Reg64::Rax)));
        self.gen_epilogue(buf);
        proof {
            assert(final(buf)@ =~= old(buf)@ + sg_subroutine(
                stmts_view(stmts@),
                old(self).next_label_num as int,
            ).0);
        }
    }

    /// Statements in order.
    #[verifier::rlimit(100)]
    #[verifier::spinoff_prover]
    pub fn gen_stmts(&mut self, stmts: &Vec<Stmt>, buf: &mut AsmBuf)
        requires
            old(self).stack_len < 16,
            old(self).next_label_num + stmts_labels(stmts_view(stmts@)) <= usize::MAX,
        ensures
            ({
                let (code, c2, d2) = sg_stmts(
                    stmts_view(stmts@),
                    old(self).next_label_num as int,
                    old(self).stack_len as int,
                );
                final(buf)@ == old(buf)@ + code && final(self).next_label_num as int == c2
                    && final(self).stack_len as int == d2 && final(self).stack_len < 16
            }),
        decreases stmts@, 0int,
    {
        let ghost whole = stmts_view(stmts@);
        let ghost c0 = self.next_label_num as int;
        let ghost d0 = self.stack_len as int;
        proof {
            lemma_stmts_view(stmts@);
        }
        let n: usize = stmts.len();
        proof {
            assert(whole.subrange(0, n as int) =~= whole);
            assert(buf@.subrange(0, old(buf)@.len() as int) =~= old(buf)@);
            assert(buf@.subrange(old(buf)@.len() as int, buf@.len() as int) =~= Seq::<
                InstM,
            >::empty());
            assert(buf@.subrange(old(buf)@.len() as int, buf@.len() as int) + sg_stmts(
                whole,
                c0,
                d0,
            ).0 =~= sg_stmts(whole, c0, d0).0);
        }
        let mut i: usize = 0;
        while i < n
            invariant
                i <= n,
                n == stmts@.len(),
                whole == stmts_view(stmts@),
                whole.len() == n,
                forall|j: int| 0 <= j < n ==> whole[j] == stmt_view(stmts@[j]),
                c0 + stmts_labels(whole) <= usize::MAX,
                self.stack_len < 16,
                buf.vec@.len() >= 0,
                ({
                    let (code, c2, d2) = sg_stmts(
                        whole.subrange(i as int, n as int),
                        self.next_label_num as int,
                        self.stack_len as int,
                    );
                    sg_stmts(whole, c0, d0) == (
                        buf@.subrange(old(buf)@.len() as int, buf@.len() as int) + code,
                        c2,
                        d2,
                    ) && buf@.len() >= old(buf)@.len() && buf@.subrange(
                        0,
                        old(buf)@.len() as int,
                    ) == old(buf)@ && self.next_label_num as int + stmts_labels(
                        whole.subrange(i as int, n as int),
                    ) <= usize::MAX
                }),
            decreases n - i,
        {
            let ghost rem = whole.subrange(i as int, n as int);
            let ghost cb = self.next_label_num as int;
            let ghost db = self.stack_len as int;
            proof {
                assert(rem[0] == whole[i as int]);
                assert(rem.drop_first() =~= whole.subrange(i + 1, n as int));
                lemma_stmt_labels_nonneg(rem[0]);
                lemma_stmts_labels_nonneg(rem.drop_first());
                assert(stmts_labels(rem) == stmt_labels(rem[0]) + stmts_labels(rem.drop_first()));
                lemma_sg_stmt_counter(rem[0], cb, db);
            }
            self.gen_stmt(&stmts[i], buf);
            i = i + 1;
            proof {
                assert(buf@.subrange(0, old(buf)@.len() as int) =~= old(buf)@);
                assert(buf@.subrange(old(buf)@.len() as int, buf@.len() as int) =~= sg_stmts(
                    whole,
                    c0,
                    d0,
                ).0.subrange(0, buf@.len() - old(buf)@.len()));
                assert(sg_stmts(rem, cb, db).0 == sg_stmt(rem[0], cb, db).0 + sg_stmts(
                    rem.drop_first(),
                    sg_stmt(rem[0], cb, db).1,
                    sg_stmt(rem[0], cb, db).2,
                ).0);
                assert(buf@.subrange(old(buf)@.len() as int, buf@.len() as int) =~= (sg_stmts(
                    whole,
                    c0,
                    d0,
                ).0.subrange(
                    0,
                    buf@.len() - old(buf)@.len(),
                )));
            }
        }
        proof {
            assert(whole.subrange(n as int, n as int) =~= Seq::<StmtM>::empty());
            assert(sg_stmts(
                Seq::<StmtM>::empty(),
                self.next_label_num as int,
                self.stack_len as int,
            ) == (
                Seq::<InstM>::empty(),
                self.next_label_num as int,
                self.stack_len as int,
            ));
            assert(buf@.subrange(old(buf)@.len() as int, buf@.len() as int) + Seq::<
                InstM,
            >::empty() =~= buf@.subrange(old(buf)@.len() as int, buf@.len() as int));
            assert(buf@ =~= buf@.subrange(0, old(buf)@.len() as int) + buf@.subrange(
                old(buf)@.len() as int,
                buf@.len() as int,
            ));
        }
    }

    /// One statement.
    #[verifier::rlimit(100)]
    #[verifier::spinoff_prover]
    pub fn gen_stmt(&mut self, stmt: &Stmt, buf: &mut AsmBuf)
        requires
            old(self).stack_len < 16,
            old(self).next_label_num + stmt_labels(stmt_view(*stmt)) <= usize::MAX,
        ensures
            ({
                let (code, c2, d2) = sg_stmt(
                    stmt_view(*stmt),
                    old(self).next_label_num as int,
                    old(self).stack_len as int,
                );
                final(buf)@ == old(buf)@ + code && final(self).next_label_num as int == c2
                    && final(self).stack_len as int == d2 && final(self).stack_len < 16
            }),
        decreases *stmt, 2int,
    {
        let ghost c0 = self.next_label_num as int;
        let ghost d0 = self.stack_len as int;
        match stmt {
            Stmt::Expr(e) => {
                self.gen_expr(e, buf);
            },
            Stmt::Assign(a) => {
                self.gen_expr(&a.rhs, buf);
                buf.push(pop(Opnd::Reg(Reg64::Rax)));
                self.dec_stack_len();
                buf.push(mov(Opnd::Mem(Reg64::Rbp, a.lhs_offset), Opnd::Reg(Reg64::Rax)));
                proof {
                    assert(final(buf)@ =~= old(buf)@ + sg_stmt(stmt_view(*stmt), c0, d0).0);
                }
            },
            Stmt::Return(r) => {
                self.gen_expr(&r.expr, buf);
                buf.push(pop(Opnd::Reg(Reg64::Rax)));
                self.dec_stack_len();
                self.gen_epilogue(buf);
                proof {
                    assert(final(buf)@ =~= old(buf)@ + sg_stmt(stmt_view(*stmt), c0, d0).0);
                }
            },
            Stmt::If(i) => {
                proof {
                    lemma_stmt_labels_nonneg(stmt_view(*i.then_branch));
                    match i.else_branch {
                        Some(ref e) => {
                            lemma_stmt_labels_nonneg(stmt_view(**e));
                        },
                        None => {},
                    }
                }
                self.gen_expr(&i.cond, buf);
                buf.push(pop(Opnd::Reg(Reg64::Rax)));
                self.dec_stack_len();
                buf.push(cmp(Opnd::Reg(Reg64::Rax), Opnd::Imm(0)));
                let n = self.new_label_num_sub();
                match &i.else_branch {
                    None => {
                        buf.push(Inst::Je(LabelKind::IfEnd, n));
                        self.gen_stmt(&*i.then_branch, buf);
                        buf.push(Inst::Label(LabelKind::IfEnd, n));
                        proof {
                            assert(final(buf)@ =~= old(buf)@ + sg_stmt(
                                stmt_view(*stmt),
                                c0,
                                d0,
                            ).0);
                        }
                    },
                    Some(els) => {
                        proof {
                            lemma_sg_stmt_counter(
                                stmt_view(*i.then_branch),
                                c0 + 1,
                                (sg_expr(expr_view(i.cond), d0).1 + 8) % 16,
                            );
                        }
                        buf.push(Inst::Je(LabelKind::IfElse, n));
                        self.gen_stmt(&*i.then_branch, buf);
                        buf.push(Inst::Jmp(LabelKind::IfEnd, n));
                        buf.push(Inst::Label(LabelKind::IfElse, n));
                        self.gen_stmt(&**els, buf);
                        buf.push(Inst::Label(LabelKind::IfEnd, n));
                        proof {
                            assert(final(buf)@ =~= old(buf)@ + sg_stmt(
                                stmt_view(*stmt),
                                c0,
                                d0,
                            ).0);
                        }
                    },
                }
            },
            Stmt::While(w) => {
                proof {
                    lemma_stmt_labels_nonneg(stmt_view(*w.block));
                }
                let n = self.new_label_num_sub();
                buf.push(Inst::Label(LabelKind::LoopBegin, n));
                self.gen_expr(&w.cond, buf);
                buf.push(pop(Opnd::Reg(Reg64::Rax)));
                self.dec_stack_len();
                buf.push(cmp(Opnd::Reg(Reg64::Rax), Opnd::Imm(0)));
                buf.push(Inst::Je(LabelKind::LoopEnd, n));
                self.gen_stmt(&*w.block, buf);
                buf.push(Inst::Jmp(LabelKind::LoopBegin, n));
                buf.push(Inst::Label(LabelKind::LoopEnd, n));
                proof {
                    assert(final(buf)@ =~= old(buf)@ + sg_stmt(stmt_view(*stmt), c0, d0).0);
                }
            },
            Stmt::Block(b) => {
                self.gen_stmts(&b.stmts, buf);
            },
        }
    }

    /// A fresh label number for this subroutine.
    pub fn new_label_num_sub(&mut self) -> (n: usize)
        requires
            old(self).next_label_num < usize::MAX,
        ensures
            n == old(self).next_label_num,
            final(self).next_label_num == old(self).next_label_num + 1,
            final(self).stack_len == old(self).stack_len,
    {
        let n = self.next_label_num;
        self.next_label_num = self.next_label_num + 1;
        n
    }

    /// One expression: code that leaves exactly one value on the stack.
    #[verifier::rlimit(100)]
    #[verifier::spinoff_prover]
    pub fn gen_expr(&mut self, expr: &Expr, buf: &mut AsmBuf)
        requires
            old(self).stack_len < 16,
        ensures
            ({
                let (code, d2) = sg_expr(expr_view(*expr), old(self).stack_len as int);
                final(buf)@ == old(buf)@ + code && final(self).stack_len as int == d2
                    && final(self).stack_len < 16 && final(self).next_label_num == old(
                    self,
                ).next_label_num
            }),
        decreases *expr, 2int,
    {
        let ghost d0 = self.stack_len as int;
        match expr {
            Expr::Num(nv) => {
                buf.push(crate::emit::push(Opnd::Imm(*nv)));
                self.inc_stack_len();
                proof {
                    assert(final(buf)@ =~= old(buf)@ + sg_expr(expr_view(*expr), d0).0);
                }
            },
            Expr::Ident(id) => {
                buf.push(mov(Opnd::Reg(Reg64::Rax), Opnd::Mem(Reg64::Rbp, id.ident_offset)));
                buf.push(crate::emit::push(Opnd::Reg(Reg64::Rax)));
                self.inc_stack_len();
                proof {
                    assert(final(buf)@ =~= old(buf)@ + sg_expr(expr_view(*expr), d0).0);
                }
            },
            Expr::Paren(p) => {
                self.gen_expr(&*p.expr, buf);
            },
            Expr::BinOp(b) => {
                self.gen_expr(&*b.lhs, buf);
                self.gen_expr(&*b.rhs, buf);
                buf.push(pop(Opnd::Reg(Reg64::Rdi)));
                self.dec_stack_len();
                buf.push(pop(Opnd::Reg(Reg64::Rax)));
                self.dec_stack_len();
                match b.op {
                    BinOp::Add => {
                        buf.push(Inst::Add(Opnd::Reg(Reg64::Rax), Opnd::Reg(Reg64::Rdi)));
                    },
                    BinOp::Sub => {
                        buf.push(crate::emit::sub(Opnd::Reg(Reg64::Rax), Opnd::Reg(Reg64::Rdi)));
                    },
                    BinOp::Mul => {
                        buf.push(Inst::Imul(Opnd::Reg(Reg64::Rax), Opnd::Reg(Reg64::Rdi)));
                    },
                    BinOp::Div => {
                        buf.push(Inst::Cqo);
                        buf.push(Inst::Idiv(Opnd::Reg(Reg64::Rdi)));
                    },
                    BinOp::Eq => {
                        buf.push(cmp(Opnd::Reg(Reg64::Rax), Opnd::Reg(Reg64::Rdi)));
                        buf.push(Inst::Sete(Opnd::Reg8(Reg8::Al)));
                        buf.push(Inst::Movzx(Opnd::Reg(Reg64::Rax), Opnd::Reg8(Reg8::Al)));
                    },
                    BinOp::Neq => {
                        buf.push(cmp(Opnd::Reg(Reg64::Rax), Opnd::Reg(Reg64::Rdi)));
                        buf.push(Inst::Setne(Opnd::Reg8(Reg8::Al)));
                        buf.push(Inst::Movzx(Opnd::Reg(Reg64::Rax), Opnd::Reg8(Reg8::Al)));
                    },
                    BinOp::Lt => {
                        buf.push(cmp(Opnd::Reg(Reg64::Rax), Opnd::Reg(Reg64::Rdi)));
                        buf.push(Inst::Setl(Opnd::Reg8(Reg8::Al)));
                        buf.push(Inst::Movzx(Opnd::Reg(Reg64::Rax), Opnd::Reg8(Reg8::Al)));
                    },
                    BinOp::Lte => {
                        buf.push(cmp(Opnd::Reg(Reg64::Rax), Opnd::Reg(Reg64::Rdi)));
                        buf.push(Inst::Setle(Opnd::Reg8(Reg8::Al)));
                        buf.push(Inst::Movzx(Opnd::Reg(Reg64::Rax), Opnd::Reg8(Reg8::Al)));
                    },
                }
                buf.push(crate::emit::push(Opnd::Reg(Reg64::Rax)));
                self.inc_stack_len();
                proof {
                    assert(final(buf)@ =~= old(buf)@ + sg_expr(expr_view(*expr), d0).0);
                }
            },
            Expr::Call(call) => {
                self.gen_call(call, buf);
            },
        }
    }

    /// A call: arguments, pops into the argument registers, alignment
    /// padding if the depth demands it, the call, and the push of the
    /// returned value.
    #[verifier::rlimit(100)]
    #[verifier::spinoff_prover]
    pub fn gen_call(&mut self, call: &crate::ast::ExprCall, buf: &mut AsmBuf)
        requires
            old(self).stack_len < 16,
        ensures
            ({
                let (code, d2) = sg_expr(
                    ExprM::Call { name: call.name@, args: exprs_view(call.params@) },
                    old(self).stack_len as int,
                );
                final(buf)@ == old(buf)@ + code && final(self).stack_len as int == d2
                    && final(self).stack_len < 16 && final(self).next_label_num == old(
                    self,
                ).next_label_num
            }),
        decreases *call, 1int,
    {
        let ghost d0 = self.stack_len as int;
        proof {
            crate::ast::lemma_exprs_view(call.params@);
        }
        self.gen_exprs(&call.params, buf);
        let k: usize = call.params.len();
        let ghost d1 = self.stack_len as int;
        let mut i: usize = k;
        while i > 0
            invariant
                i <= k,
                0 <= d1 < 16,
                self.stack_len < 16,
                self.stack_len as int == (d1 + 8 * (k - i)) % 16,
                self.next_label_num == old(self).next_label_num,
                buf@ == old(buf)@ + sg_exprs(
                    exprs_view(call.params@),
                    d0,
                ).0 + arg_pops(k as int).subrange(0, (k - i) as int),
                k == call.params@.len(),
                d1 == sg_exprs(exprs_view(call.params@), d0).1,
            decreases i,
        {
            let reg = arg_reg(i - 1);
            buf.push(pop(Opnd::Reg(reg)));
            self.dec_stack_len();
            proof {
                lemma_arg_pops_index(k as int, (k - i) as int);
                assert(arg_pops(k as int).subrange(0, (k - i + 1) as int) =~= arg_pops(
                    k as int,
                ).subrange(0, (k - i) as int).push(InstM::Pop(Opnd::Reg(argreg(i - 1)))));
                assert(buf@ =~= old(buf)@ + sg_exprs(exprs_view(call.params@), d0).0
                    + arg_pops(k as int).subrange(0, (k - i + 1) as int));
                assert((d1 + 8 * (k - i)) % 16 + 8 == d1 + 8 * (k - i) + 8 - 16 * ((d1 + 8
                    * (k - i)) / 16)) by (nonlinear_arith)
                    requires
                        d1 >= 0,
                        k >= i,
                ;
                assert(((d1 + 8 * (k - i)) % 16 + 8) % 16 == (d1 + 8 * (k - i + 1)) % 16)
                    by (nonlinear_arith)
                    requires
                        d1 >= 0,
                        k >= i >= 1,
                ;
            }
            i = i - 1;
        }
        proof {
            lemma_arg_pops_len(k as int);
            assert(arg_pops(k as int).subrange(0, k as int) =~= arg_pops(k as int));
        }
        if self.stack_len % 16 != 0 {
            buf.push(crate::emit::sub(Opnd::Reg(Reg64::Rsp), Opnd::Imm(8)));
        }
        let mut name: Vec<u8> = Vec::new();
        crate::emit::push_bytes(&mut name, call.name.as_slice());
        proof {
            assert(name@ =~= call.name@);
        }
        buf.push(Inst::Call(name));
        buf.push(crate::emit::push(Opnd::Reg(Reg64::Rax)));
        self.inc_stack_len();
        proof {
            assert(final(buf)@ =~= old(buf)@ + sg_expr(
                ExprM::Call { name: call.name@, args: exprs_view(call.params@) },
                d0,
            ).0);
        }

    }

    /// Call arguments in source order.
    #[verifier::rlimit(100)]
    #[verifier::spinoff_prover]
    pub fn gen_exprs(&mut self, exprs: &Vec<Expr>, buf: &mut AsmBuf)
        requires
            old(self).stack_len < 16,
        ensures
            ({
                let (code, d2) = sg_exprs(exprs_view(exprs@), old(self).stack_len as int);
                final(buf)@ == old(buf)@ + code && final(self).stack_len as int == d2
                    && final(self).stack_len < 16 && final(self).next_label_num == old(
                    self,
                ).next_label_num
            }),
        decreases exprs@, 0int,
    {
        let ghost whole = exprs_view(exprs@);
        let ghost d0 = self.stack_len as int;
        proof {
            crate::ast::lemma_exprs_view(exprs@);
        }
        let n: usize = exprs.len();
        proof {
            assert(whole.subrange(0, n as int) =~= whole);
            assert(buf@.subrange(0, old(buf)@.len() as int) =~= old(buf)@);
            assert(buf@.subrange(old(buf)@.len() as int, buf@.len() as int) =~= Seq::<
                InstM,
            >::empty());
            assert(buf@.subrange(old(buf)@.len() as int, buf@.len() as int) + sg_exprs(
                whole,
                d0,
            ).0 =~= sg_exprs(whole, d0).0);
        }
        let mut i: usize = 0;
        while i < n
            invariant
                i <= n,
                n == exprs@.len(),
                whole == exprs_view(exprs@),
                whole.len() == n,
                forall|j: int| 0 <= j < n ==> whole[j] == expr_view(exprs@[j]),
                self.stack_len < 16,
                self.next_label_num == old(self).next_label_num,
                ({
                    let (code, d2) = sg_exprs(
                        whole.subrange(i as int, n as int),
                        self.stack_len as int,
                    );
                    sg_exprs(whole, d0) == (
                        buf@.subrange(old(buf)@.len() as int, buf@.len() as int) + code,
                        d2,
                    ) && buf@.len() >= old(buf)@.len() && buf@.subrange(
                        0,
                        old(buf)@.len() as int,
                    ) == old(buf)@
                }),
            decreases n - i,
        {
            let ghost rem = whole.subrange(i as int, n as int);
            let ghost db = self.stack_len as int;
            proof {
                assert(rem[0] == whole[i as int]);
                assert(rem.drop_first() =~= whole.subrange(i + 1, n as int));
            }
            self.gen_expr(&exprs[i], buf);
            i = i + 1;
            proof {
                assert(buf@.subrange(0, old(buf)@.len() as int) =~= old(buf)@);
                assert(buf@.subrange(old(buf)@.len() as int, buf@.len() as int) =~= (sg_exprs(
                    whole,
                    d0,
                ).0.subrange(
                    0,
                    buf@.len() - old(buf)@.len(),
                )));
            }
        }
        proof {
            assert(whole.subrange(n as int, n as int) =~= Seq::<ExprM>::empty());
            assert(buf@.subrange(old(buf)@.len() as int, buf@.len() as int) + Seq::<
                InstM,
            >::empty() =~= buf@.subrange(old(buf)@.len() as int, buf@.len() as int));
            assert(buf@ =~= buf@.subrange(0, old(buf)@.len() as int) + buf@.subrange(
                old(buf)@.len() as int,
                buf@.len() as int,
            ));
        }
    }
}

/// The register for argument `i`, as executable code.
pub fn arg_reg(i: usize) -> (r: Reg64)
    ensures
        r == argreg(i as int),
{
    if i == 0 {
        Reg64::Rdi
    } else if i == 1 {
        Reg64::Rsi
    } else if i == 2 {
        Reg64::Rdx
    } else if i == 3 {
        Reg64::Rcx
    } else if i == 4 {
        Reg64::R8
    } else if i == 5 {
        Reg64::R9
    } else {
        Reg64::Rdi
    }
}

/// Element `j` (counted from the end) of the argument pops.
pub proof fn lemma_arg_pops_index(k: int, j: int)
    requires
        0 <= j < k,
    ensures
        arg_pops(k).len() == k,
        arg_pops(k)[j] == InstM::Pop(Opnd::Reg(argreg(k - 1 - j))),
    decreases k,
{
    if k > 0 {
        if j > 0 {
            lemma_arg_pops_index(k - 1, j - 1);
        } else if k > 1 {
            lemma_arg_pops_index(k - 1, 0);
        }
        if k - 1 > 0 {
            lemma_arg_pops_len(k - 1);
        }
    }
}

pub proof fn lemma_arg_pops_len(k: int)
    requires
        k >= 0,
    ensures
        arg_pops(k).len() == k,
    decreases k,
{
    if k > 0 {
        lemma_arg_pops_len(k - 1);
    }
}

/// The instruction that only a prologue contains: setting the frame
/// pointer from the stack pointer.
pub open spec fn is_frame_setup(i: InstM) -> bool {
    i == InstM::Mov(Opnd::Reg(Reg64::Rbp), Opnd::Reg(Reg64::Rsp))
}

/// An instruction that is neither a frame setup nor a label: everything
/// expression lowering emits.
pub open spec fn plain_inst(i: InstM) -> bool {
    !is_frame_setup(i) && !(i is Label)
}

/// Every label in `code` carries a counter value in `[lo, hi)`.
pub open spec fn lab_in(code: Seq<InstM>, lo: int, hi: int) -> bool {
    forall|j: int|
        0 <= j < code.len() ==> (match #[trigger] code[j] {
            InstM::Label(k, n) => lo <= n < hi,
            _ => true,
        })
}

/// No two label lines of `code` are equal.
pub open spec fn lab_uniq(code: Seq<InstM>) -> bool {
    forall|j1: int, j2: int|
        0 <= j1 < j2 < code.len() && (#[trigger] code[j1]) is Label ==> code[j1] != (
        #[trigger] code[j2])
}

/// Concatenation keeps ranged labels ranged.
pub proof fn lemma_lab_in_concat(a: Seq<InstM>, b: Seq<InstM>, lo: int, hi: int)
    requires
        lab_in(a, lo, hi),
        lab_in(b, lo, hi),
    ensures
        lab_in(a + b, lo, hi),
{
    assert forall|j: int| 0 <= j < (a + b).len() implies (match #[trigger] (a + b)[j] {
        InstM::Label(k, n) => lo <= n < hi,
        _ => true,
    }) by {
        if j < a.len() {
            assert((a + b)[j] == a[j]);
        } else {
            assert((a + b)[j] == b[j - a.len()]);
        }
    }
}

/// Widening the range keeps ranged labels ranged.
pub proof fn lemma_lab_in_widen(code: Seq<InstM>, lo: int, hi: int, lo2: int, hi2: int)
    requires
        lab_in(code, lo, hi),
        lo2 <= lo,
        hi <= hi2,
    ensures
        lab_in(code, lo2, hi2),
{
}

/// Concatenation keeps labels unique when no label of one part equals a
/// label of the other.
pub proof fn lemma_lab_uniq_concat(a: Seq<InstM>, b: Seq<InstM>)
    requires
        lab_uniq(a),
        lab_uniq(b),
        forall|i: int, j: int|
            0 <= i < a.len() && 0 <= j < b.len() && (#[trigger] a[i]) is Label ==> a[i] != (
            #[trigger] b[j]),
    ensures
        lab_uniq(a + b),
{
    assert forall|j1: int, j2: int|
        0 <= j1 < j2 < (a + b).len() && (#[trigger] (a + b)[j1]) is Label implies (a + b)[j1]
        != (#[trigger] (a + b)[j2]) by {
        if j1 < a.len() && j2 < a.len() {
            assert((a + b)[j1] == a[j1] && (a + b)[j2] == a[j2]);
        } else if j1 < a.len() {
            assert((a + b)[j1] == a[j1] && (a + b)[j2] == b[j2 - a.len()]);
        } else {
            assert((a + b)[j1] == b[j1 - a.len()] && (a + b)[j2] == b[j2 - a.len()]);
        }
    }
}

/// A segment of plain instructions has no labels at all.
pub proof fn lemma_plain_lab(code: Seq<InstM>, lo: int, hi: int)
    requires
        forall|j: int| 0 <= j < code.len() ==> plain_inst(#[trigger] code[j]),
        lo <= hi,
    ensures
        lab_in(code, lo, hi),
        lab_uniq(code),
{
}

pub proof fn lemma_arg_pops_no_fs(k: int)
    requires
        k >= 0,
    ensures
        forall|j: int|
            0 <= j < arg_pops(k).len() ==> plain_inst(#[trigger] arg_pops(k)[j]),
    decreases k,
{
    if k > 0 {
        lemma_arg_pops_no_fs(k - 1);
        assert forall|j: int| 0 <= j < arg_pops(k).len() implies plain_inst(
            #[trigger] arg_pops(k)[j],
        ) by {
            if j == 0 {
                assert(arg_pops(k)[0] == InstM::Pop(Opnd::Reg(argreg(k - 1))));
            } else {
                assert(arg_pops(k)[j] == arg_pops(k - 1)[j - 1]);
            }
        }
    }
}

/// Expression code never sets up a frame.
#[verifier::rlimit(100)]
#[verifier::spinoff_prover]
pub proof fn lemma_sg_expr_no_fs(e: ExprM, d: int)
    ensures
        forall|j: int|
            0 <= j < sg_expr(e, d).0.len() ==> plain_inst(#[trigger] sg_expr(e, d).0[j]),
    decreases e,
{
    let code = sg_expr(e, d).0;
    match e {
        ExprM::Num(n) => {
            assert forall|j: int| 0 <= j < code.len() implies plain_inst(
                #[trigger] code[j],
            ) by {
                assert(code[0] == InstM::Push(Opnd::Imm(n as usize)));
            }
        },
        ExprM::Ident { offset } => {
            assert forall|j: int| 0 <= j < code.len() implies plain_inst(
                #[trigger] code[j],
            ) by {
                if j == 0 {
                    assert(code[0] == InstM::Mov(
                        Opnd::Reg(Reg64::Rax),
                        Opnd::Mem(Reg64::Rbp, offset as usize),
                    ));
                } else {
                    assert(code[1] == InstM::Push(Opnd::Reg(Reg64::Rax)));
                }
            }
        },
        ExprM::Paren(inner) => {
            lemma_sg_expr_no_fs(*inner, d);
            assert forall|j: int| 0 <= j < code.len() implies plain_inst(
                #[trigger] code[j],
            ) by {
                assert(code[j] == sg_expr(*inner, d).0[j]);
            }
        },
        ExprM::BinOp { op, lhs, rhs } => {
            lemma_sg_expr_no_fs(*lhs, d);
            lemma_sg_expr_no_fs(*rhs, sg_expr(*lhs, d).1);
            let lc = sg_expr(*lhs, d).0;
            let rc = sg_expr(*rhs, sg_expr(*lhs, d).1).0;
            let mid = seq![
                InstM::Pop(Opnd::Reg(Reg64::Rdi)),
                InstM::Pop(Opnd::Reg(Reg64::Rax)),
            ];
            let tail = seq![InstM::Push(Opnd::Reg(Reg64::Rax))];
            assert(code =~= lc + rc + mid + binop_insts(op) + tail);
            assert forall|j: int| 0 <= j < code.len() implies plain_inst(
                #[trigger] code[j],
            ) by {
                let b = lc.len() + rc.len();
                if j < lc.len() {
                    assert(code[j] == lc[j]);
                } else if j < b {
                    assert(code[j] == rc[j - lc.len()]);
                } else if j < b + 2 {
                    assert(code[j] == mid[j - b]);
                } else if j < b + 2 + binop_insts(op).len() {
                    assert(code[j] == binop_insts(op)[j - b - 2]);
                    let jj = j - b - 2;
                    if jj == 0 {
                        assert(plain_inst(binop_insts(op)[0]));
                    } else if jj == 1 {
                        assert(plain_inst(binop_insts(op)[1]));
                    } else {
                        assert(plain_inst(binop_insts(op)[2]));
                    }
                } else {
                    assert(code[j] == tail[0]);
                }
            }
        },
        ExprM::Call { name, args } => {
            lemma_sg_exprs_no_fs(args, d);
            lemma_arg_pops_no_fs(args.len() as int);
            let ac = sg_exprs(args, d).0;
            let pops = arg_pops(args.len() as int);
            let d1 = sg_exprs(args, d).1;
            let d2 = (d1 + 8 * args.len()) % 16;
            let pad = if d2 % 16 != 0 {
                seq![InstM::Sub(Opnd::Reg(Reg64::Rsp), Opnd::Imm(8))]
            } else {
                Seq::<InstM>::empty()
            };
            let tail = seq![InstM::Call(name), InstM::Push(Opnd::Reg(Reg64::Rax))];
            assert(code =~= ac + pops + pad + tail);
            assert forall|j: int| 0 <= j < code.len() implies plain_inst(
                #[trigger] code[j],
            ) by {
                let b = ac.len() + pops.len();
                if j < ac.len() {
                    assert(code[j] == ac[j]);
                } else if j < b {
                    assert(code[j] == pops[j - ac.len()]);
                } else if j < b + pad.len() {
                    assert(code[j] == pad[0]);
                } else {
                    assert(code[j] == tail[j - b - pad.len()]);
                    if j - b - pad.len() == 0 {
                        assert(!is_frame_setup(tail[0]));
                    } else {
                        assert(!is_frame_setup(tail[1]));
                    }
                }
            }
        },
    }
}

pub proof fn lemma_sg_exprs_no_fs(args: Seq<ExprM>, d: int)
    ensures
        forall|j: int|
            0 <= j < sg_exprs(args, d).0.len() ==> plain_inst(
                #[trigger] sg_exprs(args, d).0[j],
            ),
    decreases args,
{
    if args.len() > 0 {
        lemma_sg_expr_no_fs(args[0], d);
        lemma_sg_exprs_no_fs(args.drop_first(), sg_expr(args[0], d).1);
        let a = sg_expr(args[0], d).0;
        let b = sg_exprs(args.drop_first(), sg_expr(args[0], d).1).0;
        assert forall|j: int| 0 <= j < sg_exprs(args, d).0.len() implies plain_inst(
            #[trigger] sg_exprs(args, d).0[j],
        ) by {
            if j < a.len() {
                assert(sg_exprs(args, d).0[j] == a[j]);
            } else {
                assert(sg_exprs(args, d).0[j] == b[j - a.len()]);
            }
        }
    }
}

/// Statement code never sets up a frame: the one prologue of the unit is
/// the one the subroutine head emits.
#[verifier::rlimit(100)]
#[verifier::spinoff_prover]
pub proof fn lemma_sg_stmt_no_fs(s: StmtM, c: int, d: int)
    ensures
        forall|j: int|
            0 <= j < sg_stmt(s, c, d).0.len() ==> !is_frame_setup(
                #[trigger] sg_stmt(s, c, d).0[j],
            ),
    decreases s,
{
    let code = sg_stmt(s, c, d).0;
    match s {
        StmtM::Expr(e) => {
            lemma_sg_expr_no_fs(e, d);
            assert forall|j: int| 0 <= j < code.len() implies !is_frame_setup(
                #[trigger] code[j],
            ) by {
                assert(code[j] == sg_expr(e, d).0[j]);
            }
        },
        StmtM::Assign { lhs_offset, rhs } => {
            lemma_sg_expr_no_fs(rhs, d);
            let ec = sg_expr(rhs, d).0;
            let tail = seq![
                InstM::Pop(Opnd::Reg(Reg64::Rax)),
                InstM::Mov(Opnd::Mem(Reg64::Rbp, lhs_offset as usize), Opnd::Reg(Reg64::Rax)),
            ];
            assert(code =~= ec + tail);
            assert forall|j: int| 0 <= j < code.len() implies !is_frame_setup(
                #[trigger] code[j],
            ) by {
                if j < ec.len() {
                    assert(code[j] == ec[j]);
                } else {
                    assert(code[j] == tail[j - ec.len()]);
                    if j - ec.len() == 0 {
                        assert(!is_frame_setup(tail[0]));
                    } else {
                        assert(!is_frame_setup(tail[1]));
                    }
                }
            }
        },
        StmtM::Return(e) => {
            lemma_sg_expr_no_fs(e, d);
            let ec = sg_expr(e, d).0;
            let tail = seq![InstM::Pop(Opnd::Reg(Reg64::Rax))] + epilogue_insts();
            assert(code =~= ec + tail);
            assert forall|j: int| 0 <= j < code.len() implies !is_frame_setup(
                #[trigger] code[j],
            ) by {
                if j < ec.len() {
                    assert(code[j] == ec[j]);
                } else {
                    let jj = j - ec.len();
                    assert(code[j] == tail[jj]);
                    if jj == 0 {
                        assert(!is_frame_setup(tail[0]));
                    } else if jj == 1 {
                        assert(!is_frame_setup(tail[1]));
                    } else if jj == 2 {
                        assert(!is_frame_setup(tail[2]));
                    } else {
                        assert(!is_frame_setup(tail[3]));
                    }
                }
            }
        },
        StmtM::If { cond, then_branch, else_branch: None } => {
            lemma_sg_expr_no_fs(cond, d);
            let d1 = sg_expr(cond, d).1;
            lemma_sg_stmt_no_fs(*then_branch, c + 1, (d1 + 8) % 16);
            let cc = sg_expr(cond, d).0;
            let tc = sg_stmt(*then_branch, c + 1, (d1 + 8) % 16).0;
            let mid = seq![
                InstM::Pop(Opnd::Reg(Reg64::Rax)),
                InstM::Cmp(Opnd::Reg(Reg64::Rax), Opnd::Imm(0)),
                InstM::Je(LabelKind::IfEnd, c as usize),
            ];
            let tail = seq![InstM::Label(LabelKind::IfEnd, c as usize)];
            assert(code =~= cc + mid + tc + tail);
            assert forall|j: int| 0 <= j < code.len() implies !is_frame_setup(
                #[trigger] code[j],
            ) by {
                if j < cc.len() {
                    assert(code[j] == cc[j]);
                } else if j < cc.len() + 3 {
                    assert(code[j] == mid[j - cc.len()]);
                    let jj = j - cc.len();
                    if jj == 0 {
                        assert(!is_frame_setup(mid[0]));
                    } else if jj == 1 {
                        assert(!is_frame_setup(mid[1]));
                    } else {
                        assert(!is_frame_setup(mid[2]));
                    }
                } else if j < cc.len() + 3 + tc.len() {
                    assert(code[j] == tc[j - cc.len() - 3]);
                } else {
                    assert(code[j] == tail[0]);
                }
            }
        },
        StmtM::If { cond, then_branch, else_branch: Some(els) } => {
            lemma_sg_expr_no_fs(cond, d);
            let d1 = sg_expr(cond, d).1;
            lemma_sg_stmt_no_fs(*then_branch, c + 1, (d1 + 8) % 16);
            let (tc, c2, d2) = sg_stmt(*then_branch, c + 1, (d1 + 8) % 16);
            lemma_sg_stmt_no_fs(*els, c2, d2);
            let cc = sg_expr(cond, d).0;
            let ec = sg_stmt(*els, c2, d2).0;
            let mid = seq![
                InstM::Pop(Opnd::Reg(Reg64::Rax)),
                InstM::Cmp(Opnd::Reg(Reg64::Rax), Opnd::Imm(0)),
                InstM::Je(LabelKind::IfElse, c as usize),
            ];
            let mid2 = seq![
                InstM::Jmp(LabelKind::IfEnd, c as usize),
                InstM::Label(LabelKind::IfElse, c as usize),
            ];
            let tail = seq![InstM::Label(LabelKind::IfEnd, c as usize)];
            assert(code =~= cc + mid + tc + mid2 + ec + tail);
            assert forall|j: int| 0 <= j < code.len() implies !is_frame_setup(
                #[trigger] code[j],
            ) by {
                let b1 = cc.len();
                let b2 = b1 + 3;
                let b3 = b2 + tc.len();
                let b4 = b3 + 2;
                let b5 = b4 + ec.len();
                if j < b1 {
                    assert(code[j] == cc[j]);
                } else if j < b2 {
                    assert(code[j] == mid[j - b1]);
                    let jj = j - b1;
                    if jj == 0 {
                        assert(!is_frame_setup(mid[0]));
                    } else if jj == 1 {
                        assert(!is_frame_setup(mid[1]));
                    } else {
                        assert(!is_frame_setup(mid[2]));
                    }
                } else if j < b3 {
                    assert(code[j] == tc[j - b2]);
                } else if j < b4 {
                    assert(code[j] == mid2[j - b3]);
                    if j - b3 == 0 {
                        assert(!is_frame_setup(mid2[0]));
                    } else {
                        assert(!is_frame_setup(mid2[1]));
                    }
                } else if j < b5 {
                    assert(code[j] == ec[j - b4]);
                } else {
                    assert(code[j] == tail[0]);
                }
            }
        },
        StmtM::While { cond, block } => {
            lemma_sg_expr_no_fs(cond, d);
            let d1 = sg_expr(cond, d).1;
            lemma_sg_stmt_no_fs(*block, c + 1, (d1 + 8) % 16);
            let cc = sg_expr(cond, d).0;
            let bc = sg_stmt(*block, c + 1, (d1 + 8) % 16).0;
            let head = seq![InstM::Label(LabelKind::LoopBegin, c as usize)];
            let mid = seq![
                InstM::Pop(Opnd::Reg(Reg64::Rax)),
                InstM::Cmp(Opnd::Reg(Reg64::Rax), Opnd::Imm(0)),
                InstM::Je(LabelKind::LoopEnd, c as usize),
            ];
            let tail = seq![
                InstM::Jmp(LabelKind::LoopBegin, c as usize),
                InstM::Label(LabelKind::LoopEnd, c as usize),
            ];
            assert(code =~= head + cc + mid + bc + tail);
            assert forall|j: int| 0 <= j < code.len() implies !is_frame_setup(
                #[trigger] code[j],
            ) by {
                let b1 = 1 + cc.len();
                let b2 = b1 + 3;
                let b3 = b2 + bc.len();
                if j < 1 {
                    assert(code[0] == head[0]);
                } else if j < b1 {
                    assert(code[j] == cc[j - 1]);
                } else if j < b2 {
                    assert(code[j] == mid[j - b1]);
                    let jj = j - b1;
                    if jj == 0 {
                        assert(!is_frame_setup(mid[0]));
                    } else if jj == 1 {
                        assert(!is_frame_setup(mid[1]));
                    } else {
                        assert(!is_frame_setup(mid[2]));
                    }
                } else if j < b3 {
                    assert(code[j] == bc[j - b2]);
                } else {
                    assert(code[j] == tail[j - b3]);
                    if j - b3 == 0 {
                        assert(!is_frame_setup(tail[0]));
                    } else {
                        assert(!is_frame_setup(tail[1]));
                    }
                }
            }
        },
        StmtM::Block(list) => {
            lemma_sg_stmts_no_fs(list, c, d);
            assert forall|j: int| 0 <= j < code.len() implies !is_frame_setup(
                #[trigger] code[j],
            ) by {
                assert(code[j] == sg_stmts(list, c, d).0[j]);
            }
        },
    }
}

pub proof fn lemma_sg_stmts_no_fs(list: Seq<StmtM>, c: int, d: int)
    ensures
        forall|j: int|
            0 <= j < sg_stmts(list, c, d).0.len() ==> !is_frame_setup(
                #[trigger] sg_stmts(list, c, d).0[j],
            ),
    decreases list,
{
    if list.len() > 0 {
        lemma_sg_stmt_no_fs(list[0], c, d);
        let (c0, cc0, dd0) = sg_stmt(list[0], c, d);
        lemma_sg_stmts_no_fs(list.drop_first(), cc0, dd0);
        let b = sg_stmts(list.drop_first(), cc0, dd0).0;
        assert forall|j: int| 0 <= j < sg_stmts(list, c, d).0.len() implies !is_frame_setup(
            #[trigger] sg_stmts(list, c, d).0[j],
        ) by {
            if j < c0.len() {
                assert(sg_stmts(list, c, d).0[j] == c0[j]);
            } else {
                assert(sg_stmts(list, c, d).0[j] == b[j - c0.len()]);
            }
        }
    }
}

/// A `return` statement always ends in a complete epilogue.
pub proof fn lemma_return_emits_epilogue(e: ExprM, c: int, d: int)
    ensures
        ({
            let code = sg_stmt(StmtM::Return(e), c, d).0;
            code.len() >= 3 && code.subrange(code.len() - 3, code.len() as int)
                == epilogue_insts()
        }),
{
    let code = sg_stmt(StmtM::Return(e), c, d).0;
    assert(code.subrange(code.len() - 3, code.len() as int) =~= epilogue_insts());
}

/// Prologue/epilogue pairing over a whole compilation unit: the prologue
/// stands exactly once, right after the prelude, and the unit ends with a
/// complete epilogue, so it contains at least one `ret`.
pub proof fn lemma_prologue_epilogue_pairing(list: Seq<StmtM>, c: int)
    ensures
        ({
            let out = sg_gen(list, c).0;
            out.len() >= 10 && out.subrange(3, 6) == prologue_insts(26) && out.subrange(
                out.len() - 3,
                out.len() as int,
            ) == epilogue_insts() && out[out.len() - 1] == InstM::Ret && forall|j: int|
                0 <= j < out.len() && is_frame_setup(#[trigger] out[j]) ==> j == 4
        }),
{
    let out = sg_gen(list, c).0;
    let (body, c2, d2) = sg_stmts(list, c, 0);
    lemma_sg_stmts_no_fs(list, c, 0);
    assert(out =~= prelude_insts() + prologue_insts(26) + body + seq![
        InstM::Pop(Opnd::Reg(Reg64::Rax)),
    ] + epilogue_insts());
    assert(out.subrange(3, 6) =~= prologue_insts(26));
    assert(out.subrange(out.len() - 3, out.len() as int) =~= epilogue_insts());
    assert forall|j: int| 0 <= j < out.len() && is_frame_setup(#[trigger] out[j]) implies j
        == 4 by {
        if j < 3 {
            assert(out[j] == prelude_insts()[j]);
        } else if j < 6 {
            assert(out[j] == prologue_insts(26)[j - 3]);
        } else if j < 6 + body.len() {
            assert(out[j] == body[j - 6]);
        }
    }
}

/// Label uniqueness, inductively: a statement's code only carries label
/// numbers from `[c, c')`, where `c'` is the counter it leaves behind,
/// and no two of its label lines are equal.
#[verifier::rlimit(100)]
#[verifier::spinoff_prover]
pub proof fn lemma_sg_stmt_label_uniq(s: StmtM, c: int, d: int)
    requires
        0 <= c,
        c + stmt_labels(s) <= usize::MAX,
    ensures
        lab_in(sg_stmt(s, c, d).0, c, sg_stmt(s, c, d).1),
        lab_uniq(sg_stmt(s, c, d).0),
        c <= sg_stmt(s, c, d).1,
    decreases s,
{
    let code = sg_stmt(s, c, d).0;
    lemma_sg_stmt_counter(s, c, d);
    lemma_stmt_labels_nonneg(s);
    match s {
        StmtM::Expr(e) => {
            lemma_sg_expr_no_fs(e, d);
            assert forall|j: int| 0 <= j < code.len() implies plain_inst(
                #[trigger] code[j],
            ) by {
                assert(code[j] == sg_expr(e, d).0[j]);
            }
            lemma_plain_lab(code, c, c);
        },
        StmtM::Assign { lhs_offset, rhs } => {
            lemma_sg_expr_no_fs(rhs, d);
            let ec = sg_expr(rhs, d).0;
            assert forall|j: int| 0 <= j < code.len() implies plain_inst(
                #[trigger] code[j],
            ) by {
                if j < ec.len() {
                    assert(code[j] == ec[j]);
                } else {
                    assert(!(code[j] is Label));
                }
            }
            lemma_plain_lab(code, c, c);
        },
        StmtM::Return(e) => {
            lemma_sg_expr_no_fs(e, d);
            let ec = sg_expr(e, d).0;
            assert forall|j: int| 0 <= j < code.len() implies plain_inst(
                #[trigger] code[j],
            ) by {
                if j < ec.len() {
                    assert(code[j] == ec[j]);
                } else {
                    assert(!(code[j] is Label) && !is_frame_setup(code[j]));
                }
            }
            lemma_plain_lab(code, c, c);
        },
        StmtM::If { cond, then_branch, else_branch: None } => {
            lemma_sg_expr_no_fs(cond, d);
            let d1 = sg_expr(cond, d).1;
            lemma_sg_stmt_counter(*then_branch, c + 1, (d1 + 8) % 16);
            lemma_stmt_labels_nonneg(*then_branch);
            lemma_sg_stmt_label_uniq(*then_branch, c + 1, (d1 + 8) % 16);
            let cc = sg_expr(cond, d).0;
            let tc = sg_stmt(*then_branch, c + 1, (d1 + 8) % 16).0;
            let c2 = sg_stmt(*then_branch, c + 1, (d1 + 8) % 16).1;
            let b1 = cc.len() + 3;
            let b2 = b1 + tc.len();
            assert forall|j: int| 0 <= j < code.len() implies (match #[trigger] code[j] {
                InstM::Label(k, n) => (c <= n < c2 && (j < b2 ==> c + 1 <= n) && (b2 <= j
                    ==> code[j] == InstM::Label(LabelKind::IfEnd, c as usize))),
                _ => true,
            }) by {
                if j < cc.len() {
                    assert(code[j] == cc[j]);
                } else if j < b1 {
                    assert(!(code[j] is Label));
                } else if j < b2 {
                    assert(code[j] == tc[j - b1]);
                } else {
                    assert(code[j] == InstM::Label(LabelKind::IfEnd, c as usize));
                }
            }
            assert forall|j1: int, j2: int|
                0 <= j1 < j2 < code.len() && (#[trigger] code[j1]) is Label implies code[j1] != (
            #[trigger] code[j2]) by {
                if b1 <= j1 < b2 && b1 <= j2 < b2 {
                    assert(code[j1] == tc[j1 - b1] && code[j2] == tc[j2 - b1]);
                }
            }
        },
        StmtM::If { cond, then_branch, else_branch: Some(els) } => {
            lemma_sg_expr_no_fs(cond, d);
            let d1 = sg_expr(cond, d).1;
            lemma_sg_stmt_counter(*then_branch, c + 1, (d1 + 8) % 16);
            lemma_stmt_labels_nonneg(*then_branch);
            lemma_stmt_labels_nonneg(*els);
            lemma_sg_stmt_label_uniq(*then_branch, c + 1, (d1 + 8) % 16);
            let cc = sg_expr(cond, d).0;
            let tc = sg_stmt(*then_branch, c + 1, (d1 + 8) % 16).0;
            let c2 = sg_stmt(*then_branch, c + 1, (d1 + 8) % 16).1;
            let d2 = sg_stmt(*then_branch, c + 1, (d1 + 8) % 16).2;
            lemma_sg_stmt_counter(*els, c2, d2);
            lemma_sg_stmt_label_uniq(*els, c2, d2);
            let ec = sg_stmt(*els, c2, d2).0;
            let c3 = sg_stmt(*els, c2, d2).1;
            let b1 = cc.len() + 3;
            let b2 = b1 + tc.len();
            let b3 = b2 + 2;
            let b4 = b3 + ec.len();
            assert forall|j: int| 0 <= j < code.len() implies (match #[trigger] code[j] {
                InstM::Label(k, n) => (c <= n < c3 && (j < b2 ==> c + 1 <= n < c2) && (b2 <= j < b3
                    ==> code[j] == InstM::Label(LabelKind::IfElse, c as usize)) && (b3 <= j < b4
                    ==> c2 <= n) && (b4 <= j ==> code[j] == InstM::Label(
                    LabelKind::IfEnd,
                    c as usize,
                ))),
                _ => true,
            }) by {
                if j < cc.len() {
                    assert(code[j] == cc[j]);
                } else if j < b1 {
                    assert(!(code[j] is Label));
                } else if j < b2 {
                    assert(code[j] == tc[j - b1]);
                } else if j < b3 {
                    if j == b2 {
                        assert(code[j] == InstM::Jmp(LabelKind::IfEnd, c as usize));
                    } else {
                        assert(code[j] == InstM::Label(LabelKind::IfElse, c as usize));
                    }
                } else if j < b4 {
                    assert(code[j] == ec[j - b3]);
                } else {
                    assert(code[j] == InstM::Label(LabelKind::IfEnd, c as usize));
                }
            }
            assert forall|j1: int, j2: int|
                0 <= j1 < j2 < code.len() && (#[trigger] code[j1]) is Label implies code[j1] != (
            #[trigger] code[j2]) by {
                if b1 <= j1 < b2 && b1 <= j2 < b2 {
                    assert(code[j1] == tc[j1 - b1] && code[j2] == tc[j2 - b1]);
                }
                if b3 <= j1 < b4 && b3 <= j2 < b4 {
                    assert(code[j1] == ec[j1 - b3] && code[j2] == ec[j2 - b3]);
                }
            }
        },
        StmtM::While { cond, block } => {
            lemma_sg_expr_no_fs(cond, d);
            let d1 = sg_expr(cond, d).1;
            lemma_sg_stmt_counter(*block, c + 1, (d1 + 8) % 16);
            lemma_stmt_labels_nonneg(*block);
            lemma_sg_stmt_label_uniq(*block, c + 1, (d1 + 8) % 16);
            let cc = sg_expr(cond, d).0;
            let bc = sg_stmt(*block, c + 1, (d1 + 8) % 16).0;
            let c2 = sg_stmt(*block, c + 1, (d1 + 8) % 16).1;
            let b1 = 1 + cc.len();
            let b2 = b1 + 3;
            let b3 = b2 + bc.len();
            assert forall|j: int| 0 <= j < code.len() implies (match #[trigger] code[j] {
                InstM::Label(k, n) => (c <= n < c2 && (j == 0 ==> code[j] == InstM::Label(
                    LabelKind::LoopBegin,
                    c as usize,
                )) && (0 < j < b3 ==> c + 1 <= n) && (b3 <= j ==> code[j] == InstM::Label(
                    LabelKind::LoopEnd,
                    c as usize,
                ))),
                _ => true,
            }) by {
                if j == 0 {
                    assert(code[0] == InstM::Label(LabelKind::LoopBegin, c as usize));
                } else if j < b1 {
                    assert(code[j] == cc[j - 1]);
                } else if j < b2 {
                    assert(!(code[j] is Label));
                } else if j < b3 {
                    assert(code[j] == bc[j - b2]);
                } else {
                    if j == b3 {
                        assert(code[j] == InstM::Jmp(LabelKind::LoopBegin, c as usize));
                    } else {
                        assert(code[j] == InstM::Label(LabelKind::LoopEnd, c as usize));
                    }
                }
            }
            assert forall|j1: int, j2: int|
                0 <= j1 < j2 < code.len() && (#[trigger] code[j1]) is Label implies code[j1] != (
            #[trigger] code[j2]) by {
                if b2 <= j1 < b3 && b2 <= j2 < b3 {
                    assert(code[j1] == bc[j1 - b2] && code[j2] == bc[j2 - b2]);
                }
            }
        },
        StmtM::Block(list) => {
            lemma_sg_stmts_label_uniq(list, c, d);
            assert(code =~= sg_stmts(list, c, d).0);
        },
    }
}

/// Label uniqueness for a statement list: adjacent statements use
/// disjoint counter ranges.
pub proof fn lemma_sg_stmts_label_uniq(list: Seq<StmtM>, c: int, d: int)
    requires
        0 <= c,
        c + stmts_labels(list) <= usize::MAX,
    ensures
        lab_in(sg_stmts(list, c, d).0, c, sg_stmts(list, c, d).1),
        lab_uniq(sg_stmts(list, c, d).0),
        c <= sg_stmts(list, c, d).1,
    decreases list,
{
    lemma_sg_stmts_counter(list, c, d);
    lemma_stmts_labels_nonneg(list);
    if list.len() > 0 {
        lemma_stmt_labels_nonneg(list[0]);
        lemma_stmts_labels_nonneg(list.drop_first());
        assert(stmts_labels(list) == stmt_labels(list[0]) + stmts_labels(list.drop_first()));
        lemma_sg_stmt_counter(list[0], c, d);
        lemma_sg_stmt_label_uniq(list[0], c, d);
        let (c0, cc0, dd0) = sg_stmt(list[0], c, d);
        lemma_sg_stmts_label_uniq(list.drop_first(), cc0, dd0);
        let b = sg_stmts(list.drop_first(), cc0, dd0).0;
        let hi = sg_stmts(list.drop_first(), cc0, dd0).1;
        lemma_lab_in_widen(c0, c, cc0, c, hi);
        lemma_lab_in_widen(b, cc0, hi, c, hi);
        lemma_lab_in_concat(c0, b, c, hi);
        assert forall|i: int, j: int|
            0 <= i < c0.len() && 0 <= j < b.len() && (#[trigger] c0[i]) is Label implies c0[i]
            != (#[trigger] b[j]) by {
            if b[j] is Label {
                assert(match c0[i] {
                    InstM::Label(k, n) => n < cc0,
                    _ => true,
                });
                assert(match b[j] {
                    InstM::Label(k, n) => cc0 <= n,
                    _ => true,
                });
            }
        }
        lemma_lab_uniq_concat(c0, b);
        assert(sg_stmts(list, c, d).0 == c0 + b);
    }
}

/// Label uniqueness for a whole compilation unit: every emitted label
/// line is unique.
pub proof fn lemma_label_uniqueness(list: Seq<StmtM>, c: int)
    requires
        0 <= c,
        c + stmts_labels(list) <= usize::MAX,
    ensures
        lab_uniq(sg_gen(list, c).0),
{
    let out = sg_gen(list, c).0;
    let body = sg_stmts(list, c, 0).0;
    lemma_sg_stmts_label_uniq(list, c, 0);
    let head = prelude_insts() + prologue_insts(26);
    let tail = seq![InstM::Pop(Opnd::Reg(Reg64::Rax))] + epilogue_insts();
    assert(out =~= head + body + tail);
    assert forall|j: int| 0 <= j < head.len() implies !((#[trigger] head[j]) is Label) by {
        if j == 0 {
            assert(head[0] == InstM::Arbitrary(b_d_intel()));
        } else if j == 1 {
            assert(head[1] == InstM::Arbitrary(b_d_global()));
        } else if j == 2 {
            assert(head[2] == InstM::Arbitrary(b_d_main()));
        } else if j == 3 {
            assert(head[3] == InstM::Push(Opnd::Reg(Reg64::Rbp)));
        } else if j == 4 {
            assert(head[4] == InstM::Mov(Opnd::Reg(Reg64::Rbp), Opnd::Reg(Reg64::Rsp)));
        } else {
            assert(head[5] == InstM::Sub(Opnd::Reg(Reg64::Rsp), Opnd::Imm((8 * 26) as usize)));
        }
    }
    assert forall|j: int| 0 <= j < tail.len() implies !((#[trigger] tail[j]) is Label) by {
        if j == 0 {
            assert(tail[0] == InstM::Pop(Opnd::Reg(Reg64::Rax)));
        } else if j == 1 {
            assert(tail[1] == InstM::Mov(Opnd::Reg(Reg64::Rsp), Opnd::Reg(Reg64::Rbp)));
        } else if j == 2 {
            assert(tail[2] == InstM::Pop(Opnd::Reg(Reg64::Rbp)));
        } else {
            assert(tail[3] == InstM::Ret);
        }
    }
    assert forall|j1: int, j2: int|
        0 <= j1 < j2 < out.len() && (#[trigger] out[j1]) is Label implies out[j1] != (
    #[trigger] out[j2]) by {
        let hb = head.len() + body.len();
        if head.len() <= j1 < hb && head.len() <= j2 < hb {
            assert(out[j1] == body[j1 - head.len()] && out[j2] == body[j2 - head.len()]);
        } else if j1 < head.len() {
            assert(out[j1] == head[j1]);
        } else if hb <= j1 {
            assert(out[j1] == tail[j1 - hb]);
        } else {
            assert(out[j1] == body[j1 - head.len()]);
            if j2 < hb {
                assert(out[j2] == body[j2 - head.len()]);
            } else {
                assert(out[j2] == tail[j2 - hb]);
            }
        }
    }
}

/// The depth counter only ever holds 0 or 8: expressions move it by one
/// 8-byte slot at a time, modulo 16.
pub proof fn lemma_sg_expr_depth(e: ExprM, d: int)
    requires
        d == 0 || d == 8,
    ensures
        sg_expr(e, d).1 == 0 || sg_expr(e, d).1 == 8,
    decreases e,
{
    match e {
        ExprM::Paren(inner) => {
            lemma_sg_expr_depth(*inner, d);
        },
        ExprM::BinOp { op, lhs, rhs } => {
            lemma_sg_expr_depth(*lhs, d);
            lemma_sg_expr_depth(*rhs, sg_expr(*lhs, d).1);
        },
        ExprM::Call { name, args } => {
            lemma_sg_exprs_depth(args, d);
        },
        _ => {},
    }
}

pub proof fn lemma_sg_exprs_depth(args: Seq<ExprM>, d: int)
    requires
        d == 0 || d == 8,
    ensures
        sg_exprs(args, d).1 == 0 || sg_exprs(args, d).1 == 8,
    decreases args,
{
    if args.len() > 0 {
        lemma_sg_expr_depth(args[0], d);
        lemma_sg_exprs_depth(args.drop_first(), sg_expr(args[0], d).1);
    }
}

/// The alignment invariant at call sites: once the arguments are
/// evaluated and popped, the depth counter `d2` decides the padding, and
/// the counter plus the emitted padding is a multiple of 16.  The pad
/// instruction, when emitted, stands immediately before the `call`.
pub proof fn lemma_call_sites_aligned(name: Seq<u8>, args: Seq<ExprM>, d: int)
    requires
        d == 0 || d == 8,
    ensures
        ({
            let e = ExprM::Call { name, args };
            let (ac, d1) = sg_exprs(args, d);
            let d2 = (d1 + 8 * args.len()) % 16;
            let padded = d2 % 16 != 0;
            let pad = if padded {
                seq![InstM::Sub(Opnd::Reg(Reg64::Rsp), Opnd::Imm(8))]
            } else {
                Seq::<InstM>::empty()
            };
            (d2 + (if padded {
                8int
            } else {
                0int
            })) % 16 == 0 && sg_expr(e, d).0 == ac + arg_pops(args.len() as int) + pad + seq![
                InstM::Call(name),
                InstM::Push(Opnd::Reg(Reg64::Rax)),
            ]
        }),
{
    lemma_sg_exprs_depth(args, d);
    let d1 = sg_exprs(args, d).1;
    let k = args.len() as int;
    let d2 = (d1 + 8 * k) % 16;
    assert(0 <= d2 < 16 && d2 % 8 == 0) by (nonlinear_arith)
        requires
            d1 == 0 || d1 == 8,
            k >= 0,
            d2 == (d1 + 8 * k) % 16,
    ;
    assert((d1 + 8 * args.len()) % 16 == d2);
}

} // verus!
