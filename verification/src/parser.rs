//! The recursive-descent parser and its symbol table.
//!
//! The `sp_*` spec functions are the mathematical parser: a total function
//! from source bytes, cursor position and symbol table to a parse result.
//! Each executable `parse_*` method is proven to return exactly what the
//! corresponding `sp_*` function names.  Recursion in the spec functions is
//! guarded by cursor progress (`adv`); a guard that fails yields the
//! `Stuck` marker, and the executable parser's contracts show that no run
//! of the implementation ever maps to it.

use vstd::prelude::*;

use crate::ast::{expr_view, lemma_exprs_view, lemma_stmts_view, lemma_stmts_labels_push, lemma_stmt_labels_nonneg, lemma_stmts_labels_nonneg, stmt_labels, stmts_labels, stmt_view, stmts_view, exprs_view, lemma_exprs_view_push, lemma_stmts_view_push, BinOp, Expr, ExprM, Stmt, StmtM, ExprIdent, ExprCall, ExprBinOp, ExprParen, StmtAssign, StmtBlock, StmtReturn, StmtIf, StmtWhile};
use crate::token::{Keyword, Op, Par, Brace, TokK, TokM, Token, TokenKind};
use crate::tokenizer::{lemma_spec_next_bounds, spec_next, LexStep, TokenStream};
use crate::MAX_SRC_LEN;

verus! {

/// The symbol table as mathematics: identifier names in order of first
/// appearance.  The name at index `i` lives at stack offset `8 * i`.
pub type Tab = Seq<Seq<u8>>;

/// What can go wrong while parsing, with the byte offset the caret points
/// at.
pub enum PErr {
    /// The tokenizer could not proceed.
    Lex { pos: int },
    ExpectedSemi { pos: int },
    ExpectedParenLeft { pos: int },
    ExpectedParenRight { pos: int },
    ExpectedBraceRight { pos: int },
    /// A number, identifier or `(` was required.
    ExpectedPrimary { pos: int },
    /// A call already has six arguments and another comma follows.
    TooManyArgs { pos: int },
    /// Recursion guard of the specification; no implementation run maps to
    /// it.
    Stuck,
}

/// A parse result: the parsed value, the cursor after it and the symbol
/// table it left behind — or an error.
pub enum PRes<A> {
    Done { v: A, pos: int, tab: Tab },
    Fail(PErr),
}

/// Cursor progress: the guard under which the specification recurses.
pub open spec fn adv(s: Seq<u8>, p: int, q: int) -> bool {
    p < q <= s.len()
}

/// Index of the first occurrence of `name`, or the table's length if it is
/// absent.
pub open spec fn tab_idx(tab: Tab, name: Seq<u8>) -> int
    decreases tab.len(),
{
    if tab.len() == 0 {
        0
    } else if tab[0] == name {
        0
    } else {
        1 + tab_idx(tab.drop_first(), name)
    }
}

/// Offset assignment: a known name keeps its offset, a new name is
/// appended and receives the next free slot, `8 * len`.
pub open spec fn sp_offset(tab: Tab, name: Seq<u8>) -> (int, Tab) {
    let i = tab_idx(tab, name);
    if i < tab.len() {
        (8 * i, tab)
    } else {
        (8 * tab.len() as int, tab.push(name))
    }
}

pub proof fn lemma_tab_idx(tab: Tab, name: Seq<u8>)
    ensures
        0 <= tab_idx(tab, name) <= tab.len(),
        tab_idx(tab, name) < tab.len() ==> tab[tab_idx(tab, name)] == name,
        forall|j: int| 0 <= j < tab_idx(tab, name) ==> tab[j] != name,
    decreases tab.len(),
{
    if tab.len() > 0 && tab[0] != name {
        lemma_tab_idx(tab.drop_first(), name);
        assert forall|j: int| 0 <= j < tab_idx(tab, name) implies tab[j] != name by {
            if j > 0 {
                assert(tab[j] == tab.drop_first()[j - 1]);
            }
        }
    }
}

/// Expect a `;` and attach it to an already parsed value.
pub open spec fn sp_semi_after<A>(s: Seq<u8>, p: int, tab: Tab, v: A) -> PRes<A> {
    match spec_next(s, p) {
        LexStep::Fail { p: e } => PRes::Fail(PErr::Lex { pos: e }),
        LexStep::End { p: q } => PRes::Fail(PErr::ExpectedSemi { pos: q }),
        LexStep::Tok { t, p: q } => if t.k == TokK::Keyword(Keyword::Semi) {
            if adv(s, p, q) {
                PRes::Done { v, pos: q, tab }
            } else {
                PRes::Fail(PErr::Stuck)
            }
        } else {
            PRes::Fail(PErr::ExpectedSemi { pos: t.pos })
        },
    }
}

/// Expect a `)` and attach it to an already parsed value.
pub open spec fn sp_close_after<A>(s: Seq<u8>, p: int, tab: Tab, v: A) -> PRes<A> {
    match spec_next(s, p) {
        LexStep::Fail { p: e } => PRes::Fail(PErr::Lex { pos: e }),
        LexStep::End { p: q } => PRes::Fail(PErr::ExpectedParenRight { pos: q }),
        LexStep::Tok { t, p: q } => if t.k == TokK::Par(Par::Right) {
            if adv(s, p, q) {
                PRes::Done { v, pos: q, tab }
            } else {
                PRes::Fail(PErr::Stuck)
            }
        } else {
            PRes::Fail(PErr::ExpectedParenRight { pos: t.pos })
        },
    }
}

/// primary = num | ident ("(" (expr ("," expr)*)? ")")? | "(" expr ")"
pub open spec fn sp_primary(s: Seq<u8>, p: int, tab: Tab) -> PRes<ExprM>
    decreases s.len() - p, 3int,
        when 0 <= p <= s.len()
{
    match spec_next(s, p) {
        LexStep::Fail { p: e } => PRes::Fail(PErr::Lex { pos: e }),
        LexStep::End { p: q } => PRes::Fail(PErr::ExpectedPrimary { pos: q }),
        LexStep::Tok { t, p: q } => if !adv(s, p, q) {
            PRes::Fail(PErr::Stuck)
        } else {
            match t.k {
                TokK::Num(n) => PRes::Done { v: ExprM::Num(n as int), pos: q, tab },
                TokK::Ident(name) => match spec_next(s, q) {
                    LexStep::Fail { p: e } => PRes::Fail(PErr::Lex { pos: e }),
                    LexStep::Tok { t: t2, p: q2 } => if t2.k == TokK::Par(Par::Left) {
                        if adv(s, q, q2) {
                            match sp_args(s, q2, tab) {
                                PRes::Done { v: args, pos: p3, tab: t3 } => PRes::Done {
                                    v: ExprM::Call { name, args },
                                    pos: p3,
                                    tab: t3,
                                },
                                PRes::Fail(e) => PRes::Fail(e),
                            }
                        } else {
                            PRes::Fail(PErr::Stuck)
                        }
                    } else {
                        sp_var(tab, name, q)
                    },
                    LexStep::End { .. } => sp_var(tab, name, q),
                },
                TokK::Par(Par::Left) => match sp_expr(s, q, tab) {
                    PRes::Done { v, pos: p2, tab: t2 } => sp_close_after(
                        s,
                        p2,
                        t2,
                        ExprM::Paren(Box::new(v)),
                    ),
                    PRes::Fail(e) => PRes::Fail(e),
                },
                _ => PRes::Fail(PErr::ExpectedPrimary { pos: t.pos }),
            }
        },
    }
}

/// A variable use: look the name up, inserting it on first sight.
pub open spec fn sp_var(tab: Tab, name: Seq<u8>, q: int) -> PRes<ExprM> {
    let (off, tab2) = sp_offset(tab, name);
    PRes::Done { v: ExprM::Ident { offset: off }, pos: q, tab: tab2 }
}

/// Argument list, after the opening `(`: empty, or expressions separated
/// by commas, at most six.
pub open spec fn sp_args(s: Seq<u8>, p: int, tab: Tab) -> PRes<Seq<ExprM>>
    decreases s.len() - p, 10int,
        when 0 <= p <= s.len()
{
    match spec_next(s, p) {
        LexStep::Fail { p: e } => PRes::Fail(PErr::Lex { pos: e }),
        LexStep::Tok { t, p: q } => if t.k == TokK::Par(Par::Right) {
            if adv(s, p, q) {
                PRes::Done { v: Seq::<ExprM>::empty(), pos: q, tab }
            } else {
                PRes::Fail(PErr::Stuck)
            }
        } else {
            match sp_expr(s, p, tab) {
                PRes::Done { v, pos: p1, tab: t1 } => if adv(s, p, p1) {
                    sp_args_tail(s, p1, t1, seq![v])
                } else {
                    PRes::Fail(PErr::Stuck)
                },
                PRes::Fail(e) => PRes::Fail(e),
            }
        },
        LexStep::End { .. } => match sp_expr(s, p, tab) {
            PRes::Done { v, pos: p1, tab: t1 } => if adv(s, p, p1) {
                sp_args_tail(s, p1, t1, seq![v])
            } else {
                PRes::Fail(PErr::Stuck)
            },
            PRes::Fail(e) => PRes::Fail(e),
        },
    }
}

/// After each argument: `)` closes the list, `,` demands another argument
/// unless six are already there.
pub open spec fn sp_args_tail(s: Seq<u8>, p: int, tab: Tab, acc: Seq<ExprM>) -> PRes<Seq<ExprM>>
    decreases s.len() - p, 0int,
        when 0 <= p <= s.len()
{
    match spec_next(s, p) {
        LexStep::Fail { p: e } => PRes::Fail(PErr::Lex { pos: e }),
        LexStep::End { p: q } => PRes::Fail(PErr::ExpectedParenRight { pos: q }),
        LexStep::Tok { t, p: q } => if t.k == TokK::Par(Par::Right) {
            if adv(s, p, q) {
                PRes::Done { v: acc, pos: q, tab }
            } else {
                PRes::Fail(PErr::Stuck)
            }
        } else if t.k == TokK::Keyword(Keyword::Comma) {
            if acc.len() == 6 {
                PRes::Fail(PErr::TooManyArgs { pos: t.pos })
            } else if adv(s, p, q) {
                match sp_expr(s, q, tab) {
                    PRes::Done { v, pos: p2, tab: t2 } => if adv(s, q, p2) {
                        sp_args_tail(s, p2, t2, acc.push(v))
                    } else {
                        PRes::Fail(PErr::Stuck)
                    },
                    PRes::Fail(e) => PRes::Fail(e),
                }
            } else {
                PRes::Fail(PErr::Stuck)
            }
        } else {
            PRes::Fail(PErr::ExpectedParenRight { pos: t.pos })
        },
    }
}

/// unary = ("+" | "-")? primary — with `+x` as `0 + x` and `-x` as
/// `0 - x`.
pub open spec fn sp_unary(s: Seq<u8>, p: int, tab: Tab) -> PRes<ExprM>
    decreases s.len() - p, 4int,
        when 0 <= p <= s.len()
{
    match spec_next(s, p) {
        LexStep::Fail { p: e } => PRes::Fail(PErr::Lex { pos: e }),
        LexStep::End { .. } => sp_primary(s, p, tab),
        LexStep::Tok { t, p: q } => if t.k == TokK::Op(Op::Add) || t.k == TokK::Op(Op::Sub) {
            if adv(s, p, q) {
                match sp_primary(s, q, tab) {
                    PRes::Done { v, pos: p2, tab: t2 } => PRes::Done {
                        v: ExprM::BinOp {
                            op: if t.k == TokK::Op(Op::Add) {
                                BinOp::Add
                            } else {
                                BinOp::Sub
                            },
                            lhs: Box::new(ExprM::Num(0)),
                            rhs: Box::new(v),
                        },
                        pos: p2,
                        tab: t2,
                    },
                    PRes::Fail(e) => PRes::Fail(e),
                }
            } else {
                PRes::Fail(PErr::Stuck)
            }
        } else {
            sp_primary(s, p, tab)
        },
    }
}

/// mul = unary (("*" | "/") unary)*
pub open spec fn sp_mul(s: Seq<u8>, p: int, tab: Tab) -> PRes<ExprM>
    decreases s.len() - p, 5int,
        when 0 <= p <= s.len()
{
    match sp_unary(s, p, tab) {
        PRes::Done { v, pos: p1, tab: t1 } => if adv(s, p, p1) {
            sp_mul_tail(s, p1, t1, v)
        } else {
            PRes::Fail(PErr::Stuck)
        },
        PRes::Fail(e) => PRes::Fail(e),
    }
}

pub open spec fn sp_mul_tail(s: Seq<u8>, p: int, tab: Tab, acc: ExprM) -> PRes<ExprM>
    decreases s.len() - p, 0int,
        when 0 <= p <= s.len()
{
    match spec_next(s, p) {
        LexStep::Fail { p: e } => PRes::Fail(PErr::Lex { pos: e }),
        LexStep::End { .. } => PRes::Done { v: acc, pos: p, tab },
        LexStep::Tok { t, p: q } => if t.k == TokK::Op(Op::Mul) || t.k == TokK::Op(Op::Div) {
            if adv(s, p, q) {
                match sp_unary(s, q, tab) {
                    PRes::Done { v, pos: p2, tab: t2 } => if adv(s, q, p2) {
                        sp_mul_tail(
                            s,
                            p2,
                            t2,
                            ExprM::BinOp {
                                op: if t.k == TokK::Op(Op::Mul) {
                                    BinOp::Mul
                                } else {
                                    BinOp::Div
                                },
                                lhs: Box::new(acc),
                                rhs: Box::new(v),
                            },
                        )
                    } else {
                        PRes::Fail(PErr::Stuck)
                    },
                    PRes::Fail(e) => PRes::Fail(e),
                }
            } else {
                PRes::Fail(PErr::Stuck)
            }
        } else {
            PRes::Done { v: acc, pos: p, tab }
        },
    }
}

/// add = mul (("+" | "-") mul)*
pub open spec fn sp_add(s: Seq<u8>, p: int, tab: Tab) -> PRes<ExprM>
    decreases s.len() - p, 6int,
        when 0 <= p <= s.len()
{
    match sp_mul(s, p, tab) {
        PRes::Done { v, pos: p1, tab: t1 } => if adv(s, p, p1) {
            sp_add_tail(s, p1, t1, v)
        } else {
            PRes::Fail(PErr::Stuck)
        },
        PRes::Fail(e) => PRes::Fail(e),
    }
}

pub open spec fn sp_add_tail(s: Seq<u8>, p: int, tab: Tab, acc: ExprM) -> PRes<ExprM>
    decreases s.len() - p, 0int,
        when 0 <= p <= s.len()
{
    match spec_next(s, p) {
        LexStep::Fail { p: e } => PRes::Fail(PErr::Lex { pos: e }),
        LexStep::End { .. } => PRes::Done { v: acc, pos: p, tab },
        LexStep::Tok { t, p: q } => if t.k == TokK::Op(Op::Add) || t.k == TokK::Op(Op::Sub) {
            if adv(s, p, q) {
                match sp_mul(s, q, tab) {
                    PRes::Done { v, pos: p2, tab: t2 } => if adv(s, q, p2) {
                        sp_add_tail(
                            s,
                            p2,
                            t2,
                            ExprM::BinOp {
                                op: if t.k == TokK::Op(Op::Add) {
                                    BinOp::Add
                                } else {
                                    BinOp::Sub
                                },
                                lhs: Box::new(acc),
                                rhs: Box::new(v),
                            },
                        )
                    } else {
                        PRes::Fail(PErr::Stuck)
                    },
                    PRes::Fail(e) => PRes::Fail(e),
                }
            } else {
                PRes::Fail(PErr::Stuck)
            }
        } else {
            PRes::Done { v: acc, pos: p, tab }
        },
    }
}

/// Is this token one of the four relational operators?
pub open spec fn rel_op(k: TokK) -> bool {
    k == TokK::Op(Op::Lt) || k == TokK::Op(Op::Lte) || k == TokK::Op(Op::Gt) || k == TokK::Op(
        Op::Gte,
    )
}

/// The tree node a relational step builds: `>` and `>=` become `<` and
/// `<=` with the operands swapped.
pub open spec fn rel_node(k: TokK, acc: ExprM, v: ExprM) -> ExprM {
    if k == TokK::Op(Op::Lt) {
        ExprM::BinOp { op: BinOp::Lt, lhs: Box::new(acc), rhs: Box::new(v) }
    } else if k == TokK::Op(Op::Lte) {
        ExprM::BinOp { op: BinOp::Lte, lhs: Box::new(acc), rhs: Box::new(v) }
    } else if k == TokK::Op(Op::Gt) {
        ExprM::BinOp { op: BinOp::Lt, lhs: Box::new(v), rhs: Box::new(acc) }
    } else {
        ExprM::BinOp { op: BinOp::Lte, lhs: Box::new(v), rhs: Box::new(acc) }
    }
}

/// relational = add (("<" | "<=" | ">" | ">=") add)*
pub open spec fn sp_relational(s: Seq<u8>, p: int, tab: Tab) -> PRes<ExprM>
    decreases s.len() - p, 7int,
        when 0 <= p <= s.len()
{
    match sp_add(s, p, tab) {
        PRes::Done { v, pos: p1, tab: t1 } => if adv(s, p, p1) {
            sp_rel_tail(s, p1, t1, v)
        } else {
            PRes::Fail(PErr::Stuck)
        },
        PRes::Fail(e) => PRes::Fail(e),
    }
}

pub open spec fn sp_rel_tail(s: Seq<u8>, p: int, tab: Tab, acc: ExprM) -> PRes<ExprM>
    decreases s.len() - p, 0int,
        when 0 <= p <= s.len()
{
    match spec_next(s, p) {
        LexStep::Fail { p: e } => PRes::Fail(PErr::Lex { pos: e }),
        LexStep::End { .. } => PRes::Done { v: acc, pos: p, tab },
        LexStep::Tok { t, p: q } => if rel_op(t.k) {
            if adv(s, p, q) {
                match sp_add(s, q, tab) {
                    PRes::Done { v, pos: p2, tab: t2 } => if adv(s, q, p2) {
                        sp_rel_tail(s, p2, t2, rel_node(t.k, acc, v))
                    } else {
                        PRes::Fail(PErr::Stuck)
                    },
                    PRes::Fail(e) => PRes::Fail(e),
                }
            } else {
                PRes::Fail(PErr::Stuck)
            }
        } else {
            PRes::Done { v: acc, pos: p, tab }
        },
    }
}

/// equality = relational (("==" | "!=") relational)*
pub open spec fn sp_equality(s: Seq<u8>, p: int, tab: Tab) -> PRes<ExprM>
    decreases s.len() - p, 8int,
        when 0 <= p <= s.len()
{
    match sp_relational(s, p, tab) {
        PRes::Done { v, pos: p1, tab: t1 } => if adv(s, p, p1) {
            sp_eq_tail(s, p1, t1, v)
        } else {
            PRes::Fail(PErr::Stuck)
        },
        PRes::Fail(e) => PRes::Fail(e),
    }
}

pub open spec fn sp_eq_tail(s: Seq<u8>, p: int, tab: Tab, acc: ExprM) -> PRes<ExprM>
    decreases s.len() - p, 0int,
        when 0 <= p <= s.len()
{
    match spec_next(s, p) {
        LexStep::Fail { p: e } => PRes::Fail(PErr::Lex { pos: e }),
        LexStep::End { .. } => PRes::Done { v: acc, pos: p, tab },
        LexStep::Tok { t, p: q } => if t.k == TokK::Op(Op::Eq) || t.k == TokK::Op(Op::Neq) {
            if adv(s, p, q) {
                match sp_relational(s, q, tab) {
                    PRes::Done { v, pos: p2, tab: t2 } => if adv(s, q, p2) {
                        sp_eq_tail(
                            s,
                            p2,
                            t2,
                            ExprM::BinOp {
                                op: if t.k == TokK::Op(Op::Eq) {
                                    BinOp::Eq
                                } else {
                                    BinOp::Neq
                                },
                                lhs: Box::new(acc),
                                rhs: Box::new(v),
                            },
                        )
                    } else {
                        PRes::Fail(PErr::Stuck)
                    },
                    PRes::Fail(e) => PRes::Fail(e),
                }
            } else {
                PRes::Fail(PErr::Stuck)
            }
        } else {
            PRes::Done { v: acc, pos: p, tab }
        },
    }
}

/// expr = equality
pub open spec fn sp_expr(s: Seq<u8>, p: int, tab: Tab) -> PRes<ExprM>
    decreases s.len() - p, 9int,
        when 0 <= p <= s.len()
{
    sp_equality(s, p, tab)
}

/// assign = (ident "=")? expr — the two-token lookahead commits only when
/// an identifier is directly followed by `=`.
pub open spec fn sp_assign(s: Seq<u8>, p: int, tab: Tab) -> PRes<StmtM>
    decreases s.len() - p, 11int,
        when 0 <= p <= s.len()
{
    match spec_next(s, p) {
        LexStep::Fail { p: e } => PRes::Fail(PErr::Lex { pos: e }),
        LexStep::Tok { t, p: q } => match t.k {
            TokK::Ident(name) => match spec_next(s, q) {
                LexStep::Fail { p: e } => PRes::Fail(PErr::Lex { pos: e }),
                LexStep::Tok { t: t2, p: q2 } => if t2.k == TokK::Op(Op::Assign) {
                    if adv(s, p, q) && adv(s, q, q2) {
                        let (off, tab2) = sp_offset(tab, name);
                        match sp_expr(s, q2, tab2) {
                            PRes::Done { v, pos: p3, tab: t3 } => PRes::Done {
                                v: StmtM::Assign { lhs_offset: off, rhs: v },
                                pos: p3,
                                tab: t3,
                            },
                            PRes::Fail(e) => PRes::Fail(e),
                        }
                    } else {
                        PRes::Fail(PErr::Stuck)
                    }
                } else {
                    sp_expr_stmt(s, p, tab)
                },
                LexStep::End { .. } => sp_expr_stmt(s, p, tab),
            },
            _ => sp_expr_stmt(s, p, tab),
        },
        LexStep::End { .. } => sp_expr_stmt(s, p, tab),
    }
}

/// A bare expression statement.
pub open spec fn sp_expr_stmt(s: Seq<u8>, p: int, tab: Tab) -> PRes<StmtM>
    decreases s.len() - p, 10int,
        when 0 <= p <= s.len()
{
    match sp_expr(s, p, tab) {
        PRes::Done { v, pos: p1, tab: t1 } => PRes::Done { v: StmtM::Expr(v), pos: p1, tab: t1 },
        PRes::Fail(e) => PRes::Fail(e),
    }
}

/// stmt = "return" expr ";" | "if" "(" expr ")" stmt ("else" stmt)?
///      | "while" "(" expr ")" stmt | "{" stmt* "}" | assign ";"
pub open spec fn sp_stmt(s: Seq<u8>, p: int, tab: Tab) -> PRes<StmtM>
    decreases s.len() - p, 13int,
        when 0 <= p <= s.len()
{
    match spec_next(s, p) {
        LexStep::Fail { p: e } => PRes::Fail(PErr::Lex { pos: e }),
        LexStep::End { .. } => sp_assign_semi(s, p, tab),
        LexStep::Tok { t, p: q } => if t.k == TokK::Keyword(Keyword::Return) {
            if adv(s, p, q) {
                match sp_expr(s, q, tab) {
                    PRes::Done { v, pos: p1, tab: t1 } => sp_semi_after(
                        s,
                        p1,
                        t1,
                        StmtM::Return(v),
                    ),
                    PRes::Fail(e) => PRes::Fail(e),
                }
            } else {
                PRes::Fail(PErr::Stuck)
            }
        } else if t.k == TokK::Keyword(Keyword::If) {
            if adv(s, p, q) {
                sp_if_rest(s, q, tab)
            } else {
                PRes::Fail(PErr::Stuck)
            }
        } else if t.k == TokK::Keyword(Keyword::While) {
            if adv(s, p, q) {
                sp_while_rest(s, q, tab)
            } else {
                PRes::Fail(PErr::Stuck)
            }
        } else if t.k == TokK::Brace(Brace::Left) {
            if adv(s, p, q) {
                match sp_block_items(s, q, tab) {
                    PRes::Done { v: list, pos: p1, tab: t1 } => PRes::Done {
                        v: StmtM::Block(list),
                        pos: p1,
                        tab: t1,
                    },
                    PRes::Fail(e) => PRes::Fail(e),
                }
            } else {
                PRes::Fail(PErr::Stuck)
            }
        } else {
            sp_assign_semi(s, p, tab)
        },
    }
}

/// assign ";"
pub open spec fn sp_assign_semi(s: Seq<u8>, p: int, tab: Tab) -> PRes<StmtM>
    decreases s.len() - p, 12int,
        when 0 <= p <= s.len()
{
    match sp_assign(s, p, tab) {
        PRes::Done { v, pos: p1, tab: t1 } => sp_semi_after(s, p1, t1, v),
        PRes::Fail(e) => PRes::Fail(e),
    }
}

/// The condition and branches of an `if`, after its keyword.
pub open spec fn sp_if_rest(s: Seq<u8>, p: int, tab: Tab) -> PRes<StmtM>
    decreases s.len() - p, 12int,
        when 0 <= p <= s.len()
{
    match spec_next(s, p) {
        LexStep::Fail { p: e } => PRes::Fail(PErr::Lex { pos: e }),
        LexStep::End { p: q } => PRes::Fail(PErr::ExpectedParenLeft { pos: q }),
        LexStep::Tok { t, p: q } => if t.k != TokK::Par(Par::Left) {
            PRes::Fail(PErr::ExpectedParenLeft { pos: t.pos })
        } else if adv(s, p, q) {
            match sp_expr(s, q, tab) {
                PRes::Done { v: cond, pos: p1, tab: t1 } => match spec_next(s, p1) {
                    LexStep::Fail { p: e } => PRes::Fail(PErr::Lex { pos: e }),
                    LexStep::End { p: qq } => PRes::Fail(PErr::ExpectedParenRight { pos: qq }),
                    LexStep::Tok { t: t2, p: q2 } => if t2.k != TokK::Par(Par::Right) {
                        PRes::Fail(PErr::ExpectedParenRight { pos: t2.pos })
                    } else if adv(s, p, q2) {
                        match sp_stmt(s, q2, t1) {
                            PRes::Done { v: thn, pos: p3, tab: t3 } => if adv(s, q2, p3) {
                                sp_else_rest(s, p3, t3, cond, thn)
                            } else {
                                PRes::Fail(PErr::Stuck)
                            },
                            PRes::Fail(e) => PRes::Fail(e),
                        }
                    } else {
                        PRes::Fail(PErr::Stuck)
                    },
                },
                PRes::Fail(e) => PRes::Fail(e),
            }
        } else {
            PRes::Fail(PErr::Stuck)
        },
    }
}

/// The optional `else` branch.
pub open spec fn sp_else_rest(s: Seq<u8>, p: int, tab: Tab, cond: ExprM, thn: StmtM) -> PRes<
    StmtM,
>
    decreases s.len() - p, 12int,
        when 0 <= p <= s.len()
{
    match spec_next(s, p) {
        LexStep::Fail { p: e } => PRes::Fail(PErr::Lex { pos: e }),
        LexStep::Tok { t, p: q } => if t.k == TokK::Keyword(Keyword::Else) {
            if adv(s, p, q) {
                match sp_stmt(s, q, tab) {
                    PRes::Done { v: els, pos: p1, tab: t1 } => PRes::Done {
                        v: StmtM::If {
                            cond,
                            then_branch: Box::new(thn),
                            else_branch: Some(Box::new(els)),
                        },
                        pos: p1,
                        tab: t1,
                    },
                    PRes::Fail(e) => PRes::Fail(e),
                }
            } else {
                PRes::Fail(PErr::Stuck)
            }
        } else {
            PRes::Done {
                v: StmtM::If { cond, then_branch: Box::new(thn), else_branch: None },
                pos: p,
                tab,
            }
        },
        LexStep::End { .. } => PRes::Done {
            v: StmtM::If { cond, then_branch: Box::new(thn), else_branch: None },
            pos: p,
            tab,
        },
    }
}

/// The condition and body of a `while`, after its keyword.
pub open spec fn sp_while_rest(s: Seq<u8>, p: int, tab: Tab) -> PRes<StmtM>
    decreases s.len() - p, 12int,
        when 0 <= p <= s.len()
{
    match spec_next(s, p) {
        LexStep::Fail { p: e } => PRes::Fail(PErr::Lex { pos: e }),
        LexStep::End { p: q } => PRes::Fail(PErr::ExpectedParenLeft { pos: q }),
        LexStep::Tok { t, p: q } => if t.k != TokK::Par(Par::Left) {
            PRes::Fail(PErr::ExpectedParenLeft { pos: t.pos })
        } else if adv(s, p, q) {
            match sp_expr(s, q, tab) {
                PRes::Done { v: cond, pos: p1, tab: t1 } => match spec_next(s, p1) {
                    LexStep::Fail { p: e } => PRes::Fail(PErr::Lex { pos: e }),
                    LexStep::End { p: qq } => PRes::Fail(PErr::ExpectedParenRight { pos: qq }),
                    LexStep::Tok { t: t2, p: q2 } => if t2.k != TokK::Par(Par::Right) {
                        PRes::Fail(PErr::ExpectedParenRight { pos: t2.pos })
                    } else if adv(s, p, q2) {
                        match sp_stmt(s, q2, t1) {
                            PRes::Done { v: body, pos: p3, tab: t3 } => PRes::Done {
                                v: StmtM::While { cond, block: Box::new(body) },
                                pos: p3,
                                tab: t3,
                            },
                            PRes::Fail(e) => PRes::Fail(e),
                        }
                    } else {
                        PRes::Fail(PErr::Stuck)
                    },
                },
                PRes::Fail(e) => PRes::Fail(e),
            }
        } else {
            PRes::Fail(PErr::Stuck)
        },
    }
}

/// Statements until the closing `}`.
pub open spec fn sp_block_items(s: Seq<u8>, p: int, tab: Tab) -> PRes<Seq<StmtM>>
    decreases s.len() - p, 14int,
        when 0 <= p <= s.len()
{
    match spec_next(s, p) {
        LexStep::Fail { p: e } => PRes::Fail(PErr::Lex { pos: e }),
        LexStep::End { p: q } => PRes::Fail(PErr::ExpectedBraceRight { pos: q }),
        LexStep::Tok { t, p: q } => if t.k == TokK::Brace(Brace::Right) {
            if adv(s, p, q) {
                PRes::Done { v: Seq::<StmtM>::empty(), pos: q, tab }
            } else {
                PRes::Fail(PErr::Stuck)
            }
        } else {
            match sp_stmt(s, p, tab) {
                PRes::Done { v: st, pos: p1, tab: t1 } => if adv(s, p, p1) {
                    match sp_block_items(s, p1, t1) {
                        PRes::Done { v: list, pos: p2, tab: t2 } => PRes::Done {
                            v: seq![st] + list,
                            pos: p2,
                            tab: t2,
                        },
                        PRes::Fail(e) => PRes::Fail(e),
                    }
                } else {
                    PRes::Fail(PErr::Stuck)
                },
                PRes::Fail(e) => PRes::Fail(e),
            }
        },
    }
}

/// program = stmt*, to the end of the input.
pub open spec fn sp_program(s: Seq<u8>, p: int, tab: Tab) -> PRes<Seq<StmtM>>
    decreases s.len() - p, 15int,
        when 0 <= p <= s.len()
{
    match spec_next(s, p) {
        LexStep::Fail { p: e } => PRes::Fail(PErr::Lex { pos: e }),
        LexStep::End { .. } => PRes::Done { v: Seq::<StmtM>::empty(), pos: p, tab },
        LexStep::Tok { .. } => match sp_stmt(s, p, tab) {
            PRes::Done { v: st, pos: p1, tab: t1 } => if adv(s, p, p1) {
                match sp_program(s, p1, t1) {
                    PRes::Done { v: list, pos: p2, tab: t2 } => PRes::Done {
                        v: seq![st] + list,
                        pos: p2,
                        tab: t2,
                    },
                    PRes::Fail(e) => PRes::Fail(e),
                }
            } else {
                PRes::Fail(PErr::Stuck)
            },
            PRes::Fail(e) => PRes::Fail(e),
        },
    }
}

/// One step of parsing a block: folding a parsed statement into the peel
/// relation that ties the whole block to what remains.
pub proof fn lemma_block_peel_step(
    s: Seq<u8>,
    p0: int,
    tab0: Tab,
    pos: int,
    tab: Tab,
    done: Seq<StmtM>,
    st: StmtM,
    pos2: int,
    tab2: Tab,
)
    requires
        0 <= pos <= s.len(),
        match sp_block_items(s, pos, tab) {
            PRes::Done { v: rest, pos: pe, tab: te } => sp_block_items(s, p0, tab0)
                == (PRes::Done { v: done + rest, pos: pe, tab: te }),
            PRes::Fail(e) => sp_block_items(s, p0, tab0) == PRes::<Seq<StmtM>>::Fail(e),
        },
        match spec_next(s, pos) {
            LexStep::Tok { t, p: q } => t.k != TokK::Brace(Brace::Right),
            _ => false,
        },
        sp_stmt(s, pos, tab) == (PRes::Done { v: st, pos: pos2, tab: tab2 }),
        adv(s, pos, pos2),
    ensures
        match sp_block_items(s, pos2, tab2) {
            PRes::Done { v: rest, pos: pe, tab: te } => sp_block_items(s, p0, tab0)
                == (PRes::Done { v: done.push(st) + rest, pos: pe, tab: te }),
            PRes::Fail(e) => sp_block_items(s, p0, tab0) == PRes::<Seq<StmtM>>::Fail(e),
        },
{
    match sp_block_items(s, pos2, tab2) {
        PRes::Done { v: rest, pos: pe, tab: te } => {
            assert(sp_block_items(s, pos, tab) == (PRes::Done {
                v: seq![st] + rest,
                pos: pe,
                tab: te,
            }));
            assert(done + (seq![st] + rest) =~= done.push(st) + rest);
        },
        PRes::Fail(e) => {},
    }
}

/// One step of parsing the program, in the same peel form.
pub proof fn lemma_program_peel_step(
    s: Seq<u8>,
    p0: int,
    tab0: Tab,
    pos: int,
    tab: Tab,
    done: Seq<StmtM>,
    st: StmtM,
    pos2: int,
    tab2: Tab,
)
    requires
        0 <= pos <= s.len(),
        match sp_program(s, pos, tab) {
            PRes::Done { v: rest, pos: pe, tab: te } => sp_program(s, p0, tab0) == (PRes::Done {
                v: done + rest,
                pos: pe,
                tab: te,
            }),
            PRes::Fail(e) => sp_program(s, p0, tab0) == PRes::<Seq<StmtM>>::Fail(e),
        },
        spec_next(s, pos) is Tok,
        sp_stmt(s, pos, tab) == (PRes::Done { v: st, pos: pos2, tab: tab2 }),
        adv(s, pos, pos2),
    ensures
        match sp_program(s, pos2, tab2) {
            PRes::Done { v: rest, pos: pe, tab: te } => sp_program(s, p0, tab0) == (PRes::Done {
                v: done.push(st) + rest,
                pos: pe,
                tab: te,
            }),
            PRes::Fail(e) => sp_program(s, p0, tab0) == PRes::<Seq<StmtM>>::Fail(e),
        },
{
    match sp_program(s, pos2, tab2) {
        PRes::Done { v: rest, pos: pe, tab: te } => {
            assert(sp_program(s, pos, tab) == (PRes::Done {
                v: seq![st] + rest,
                pos: pe,
                tab: te,
            }));
            assert(done + (seq![st] + rest) =~= done.push(st) + rest);
        },
        PRes::Fail(e) => {},
    }
}

/// What can go wrong at run time, with the byte offset the caret points
/// at.
#[derive(Debug, Clone, Copy, PartialEq, Eq, Structural)]
pub enum ErrKind {
    Lex,
    ExpectedSemi,
    ExpectedParenLeft,
    ExpectedParenRight,
    ExpectedBraceRight,
    ExpectedPrimary,
    TooManyArgs,
}

/// A parse error as the implementation reports it.
#[derive(Debug, Clone, Copy, PartialEq, Eq, Structural)]
pub struct PError {
    pub kind: ErrKind,
    pub pos: usize,
}

/// When a reported error is the one the specification names.  `Stuck`
/// matches nothing, so a function whose contract relates its result to the
/// specification thereby shows its runs never reach a recursion guard.
pub open spec fn err_match(e: PErr, x: PError) -> bool {
    match e {
        PErr::Lex { pos } => x.kind == ErrKind::Lex && x.pos as int == pos,
        PErr::ExpectedSemi { pos } => x.kind == ErrKind::ExpectedSemi && x.pos as int == pos,
        PErr::ExpectedParenLeft { pos } => x.kind == ErrKind::ExpectedParenLeft && x.pos as int
            == pos,
        PErr::ExpectedParenRight { pos } => x.kind == ErrKind::ExpectedParenRight && x.pos as int
            == pos,
        PErr::ExpectedBraceRight { pos } => x.kind == ErrKind::ExpectedBraceRight && x.pos as int
            == pos,
        PErr::ExpectedPrimary { pos } => x.kind == ErrKind::ExpectedPrimary && x.pos as int == pos,
        PErr::TooManyArgs { pos } => x.kind == ErrKind::TooManyArgs && x.pos as int == pos,
        PErr::Stuck => false,
    }
}

/// Byte-slice equality.
pub fn bytes_eq(a: &[u8], b: &[u8]) -> (r: bool)
    ensures
        r == (a@ == b@),
{
    if a.len() != b.len() {
        return false;
    }
    let n: usize = a.len();
    let mut i: usize = 0;
    while i < n
        invariant
            i <= n,
            n == a@.len() == b@.len(),
            forall|j: int| 0 <= j < i ==> a@[j] == b@[j],
        decreases n - i,
    {
        if a[i] != b[i] {
            return false;
        }
        i = i + 1;
    }
    proof {
        assert(a@ =~= b@);
    }
    true
}

/// The parser: its only state is the symbol table, identifier names in
/// order of first appearance.
pub struct Parser {
    pub local_vars: Vec<Vec<u8>>,
}

/// What every parsing method requires of the parser and the stream: a
/// cursor inside the source, a bounded source, and a table no larger than
/// the number of bytes already consumed.
pub open spec fn parse_pre<'a>(p: Parser, t: TokenStream<'a>) -> bool {
    t.wf() && t.src@.len() <= MAX_SRC_LEN && p.tab().len() <= t.pos
}

/// What every parsing method re-establishes: same source, cursor still
/// inside it, table still bounded by the bytes consumed.
pub open spec fn parse_frame<'a>(
    pre_p: Parser,
    pre_t: TokenStream<'a>,
    post_p: Parser,
    post_t: TokenStream<'a>,
) -> bool {
    post_t.src == pre_t.src && post_t.wf() && post_p.tab().len() <= post_t.pos && pre_t.pos
        <= post_t.pos
}

/// The result and final state an expression parser must produce: exactly
/// what the specification names.
pub open spec fn expr_res_match<'a>(
    sp: PRes<ExprM>,
    r: Result<Expr, PError>,
    post_p: Parser,
    post_t: TokenStream<'a>,
) -> bool {
    match sp {
        PRes::Done { v, pos, tab } => match r {
            Ok(e) => expr_view(e) == v && post_t.pos as int == pos && post_p.tab() == tab,
            Err(_) => false,
        },
        PRes::Fail(pe) => match r {
            Ok(_) => false,
            Err(x) => err_match(pe, x),
        },
    }
}

/// The result and final state a statement parser must produce.
pub open spec fn stmt_res_match<'a>(
    sp: PRes<StmtM>,
    r: Result<Stmt, PError>,
    post_p: Parser,
    post_t: TokenStream<'a>,
) -> bool {
    match sp {
        PRes::Done { v, pos, tab } => match r {
            Ok(st) => stmt_view(st) == v && post_t.pos as int == pos && post_p.tab() == tab,
            Err(_) => false,
        },
        PRes::Fail(pe) => match r {
            Ok(_) => false,
            Err(x) => err_match(pe, x),
        },
    }
}

/// The result and final state a statement-list parser must produce.
pub open spec fn stmts_res_match<'a>(
    sp: PRes<Seq<StmtM>>,
    r: Result<Vec<Stmt>, PError>,
    post_p: Parser,
    post_t: TokenStream<'a>,
) -> bool {
    match sp {
        PRes::Done { v, pos, tab } => match r {
            Ok(list) => stmts_view(list@) == v && post_t.pos as int == pos && post_p.tab() == tab,
            Err(_) => false,
        },
        PRes::Fail(pe) => match r {
            Ok(_) => false,
            Err(x) => err_match(pe, x),
        },
    }
}

impl Parser {
    /// The table as mathematics.
    pub open spec fn tab(self) -> Tab {
        self.local_vars@.map_values(|v: Vec<u8>| v@)
    }

    pub fn new() -> (p: Parser)
        ensures
            p.tab() =~= Seq::<Seq<u8>>::empty(),
    {
        Parser { local_vars: Vec::new() }
    }

    /// The stack offset of a local: its existing one, or the next free
    /// slot for a name seen for the first time.
    #[verifier::loop_isolation(false)]
    pub fn offset_of_local_var(&mut self, ident: &[u8]) -> (r: usize)
        requires
            8 * old(self).local_vars@.len() + 8 <= usize::MAX,
        ensures
            ({
                let (off, tab2) = sp_offset(old(self).tab(), ident@);
                r as int == off && final(self).tab() == tab2
            }),
            final(self).local_vars@.len() <= old(self).local_vars@.len() + 1,
            old(self).local_vars@.len() <= final(self).local_vars@.len(),
    {
        proof {
            lemma_tab_idx(self.tab(), ident@);
        }
        let n: usize = self.local_vars.len();
        let mut i: usize = 0;
        while i < n
            invariant
                i <= n,
                forall|j: int| 0 <= j < i ==> self.tab()[j] != ident@,
            decreases n - i,
        {
            if bytes_eq(self.local_vars[i].as_slice(), ident) {
                proof {
                    assert(self.tab()[i as int] == ident@);
                }
                return 8 * i;
            }
            i = i + 1;
        }
        let off: usize = 8 * n;
        self.local_vars.push(vstd::slice::slice_to_vec(ident));
        proof {
            assert(self.tab() =~= old(self).tab().push(ident@));
        }
        off
    }

    /// assign = (ident "=")? expr — commits to an assignment only when the
    /// two-token lookahead sees an identifier directly followed by `=`.
    #[verifier::rlimit(100)]
    #[verifier::spinoff_prover]
    pub fn parse_assign<'a>(&mut self, tokens: &mut TokenStream<'a>) -> (r: Result<Stmt, PError>)
        requires
            parse_pre(*old(self), *old(tokens)),
        ensures
            parse_frame(*old(self), *old(tokens), *final(self), *final(tokens)),
            stmt_res_match(
                sp_assign(old(tokens).src@, old(tokens).pos as int, old(self).tab()),
                r,
                *final(self),
                *final(tokens),
            ),
            r is Ok ==> old(tokens).pos < final(tokens).pos,
        decreases tokens.src@.len() - tokens.pos, 11int,
    {
        let ghost s = tokens.src@;
        let ghost p0 = tokens.pos as int;
        let ghost tab0 = self.tab();
        proof {
            lemma_spec_next_bounds(s, p0);
        }
        let mut look = *tokens;
        let la1 = look.next();
        match la1 {
            Err(e) => {
                return Err(PError { kind: ErrKind::Lex, pos: e });
            },
            Ok(Some(t1)) => match t1.kind {
                TokenKind::Ident(name) => {
                    proof {
                        lemma_spec_next_bounds(s, look.pos as int);
                    }
                    let la2 = look.next();
                    match la2 {
                        Err(e) => {
                            return Err(PError { kind: ErrKind::Lex, pos: e });
                        },
                        Ok(Some(t2)) => match t2.kind {
                            TokenKind::Op(Op::Assign) => {
                                // Commit: advance the real stream past the
                                // identifier and the `=`.
                                let _ = tokens.next();
                                let _ = tokens.next();
                                let off = self.offset_of_local_var(name);
                                let rhs = match self.parse_expr(tokens) {
                                    Ok(v) => v,
                                    Err(er) => {
                                        return Err(er);
                                    },
                                };
                                let result = Stmt::Assign(
                                    StmtAssign { lhs_offset: off, rhs },
                                );
                                proof {
                                    assert(stmt_view(result) == (StmtM::Assign {
                                        lhs_offset: off as int,
                                        rhs: expr_view(rhs),
                                    }));
                                }
                                return Ok(result);
                            },
                            _ => {},
                        },
                        Ok(None) => {},
                    }
                },
                _ => {},
            },
            Ok(None) => {},
        }
        let e = match self.parse_expr(tokens) {
            Ok(v) => v,
            Err(er) => {
                return Err(er);
            },
        };
        let result = Stmt::Expr(e);
        proof {
            assert(stmt_view(result) == StmtM::Expr(expr_view(e)));
        }
        Ok(result)
    }

    /// The statements of a block, up to and including the closing `}`.
    #[verifier::rlimit(100)]
    #[verifier::spinoff_prover]
    pub fn parse_block_items<'a>(&mut self, tokens: &mut TokenStream<'a>) -> (r: Result<
        Vec<Stmt>,
        PError,
    >)
        requires
            parse_pre(*old(self), *old(tokens)),
        ensures
            parse_frame(*old(self), *old(tokens), *final(self), *final(tokens)),
            stmts_res_match(
                sp_block_items(old(tokens).src@, old(tokens).pos as int, old(self).tab()),
                r,
                *final(self),
                *final(tokens),
            ),
            r is Ok ==> old(tokens).pos < final(tokens).pos,
            match r {
                Ok(list) => stmts_labels(stmts_view(list@)) <= final(tokens).pos - old(
                    tokens,
                ).pos,
                Err(_) => true,
            },
        decreases tokens.src@.len() - tokens.pos, 14int,
    {
        let ghost s = tokens.src@;
        let ghost p0 = tokens.pos as int;
        let ghost tab0 = self.tab();
        let mut stmts: Vec<Stmt> = Vec::new();
        proof {
            assert(stmts_view(stmts@) =~= Seq::<StmtM>::empty());
        }
        loop
            invariant_except_break
                match sp_block_items(s, tokens.pos as int, self.tab()) {
                    PRes::Done { v: rest, pos: pe, tab: te } => sp_block_items(s, p0, tab0)
                        == (PRes::Done { v: stmts_view(stmts@) + rest, pos: pe, tab: te }),
                    PRes::Fail(e) => sp_block_items(s, p0, tab0) == PRes::<Seq<StmtM>>::Fail(e),
                },
            invariant
                tokens.wf(),
                tokens.src == old(tokens).src,
                s == old(tokens).src@,
                tokens.src@ == s,
                p0 == old(tokens).pos as int,
                tab0 == old(self).tab(),
                s.len() <= MAX_SRC_LEN,
                old(tokens).pos <= tokens.pos,
                self.tab().len() <= tokens.pos,
                p0 <= tokens.pos as int <= s.len(),
                stmts_labels(stmts_view(stmts@)) <= tokens.pos - p0,
            ensures
                tokens.wf(),
                tokens.src == old(tokens).src,
                tokens.src@ == s,
                self.tab().len() <= tokens.pos,
                p0 < tokens.pos as int <= s.len(),
                stmts_labels(stmts_view(stmts@)) <= tokens.pos - p0,
                sp_block_items(s, p0, tab0) == (PRes::Done {
                    v: stmts_view(stmts@),
                    pos: tokens.pos as int,
                    tab: self.tab(),
                }),
            decreases s.len() - tokens.pos,
        {
            proof {
                lemma_spec_next_bounds(s, tokens.pos as int);
            }
            let pk = tokens.peek();
            let closing = match pk {
                Err(e) => {
                    return Err(PError { kind: ErrKind::Lex, pos: e });
                },
                Ok(None) => {
                    return Err(
                        PError { kind: ErrKind::ExpectedBraceRight, pos: tokens.src.len() },
                    );
                },
                Ok(Some(t)) => matches!(t.kind, TokenKind::Brace(Brace::Right)),
            };
            if closing {
                let _ = tokens.next();
                proof {
                    assert(stmts_view(stmts@) + Seq::<StmtM>::empty() =~= stmts_view(stmts@));
                }
                break ;
            }
            let ghost pos_before = tokens.pos as int;
            let ghost tab_before = self.tab();
            let ghost done0 = stmts_view(stmts@);
            let st = match self.parse_stmt(tokens) {
                Ok(v) => v,
                Err(er) => {
                    return Err(er);
                },
            };
            proof {
                lemma_stmts_view_push(stmts@, st);
                lemma_stmts_labels_push(stmts_view(stmts@), stmt_view(st));
                lemma_stmts_labels_nonneg(stmts_view(stmts@));
                lemma_stmt_labels_nonneg(stmt_view(st));
            }
            stmts.push(st);
            proof {
                lemma_block_peel_step(
                    s,
                    p0,
                    tab0,
                    pos_before,
                    tab_before,
                    done0,
                    stmt_view(st),
                    tokens.pos as int,
                    self.tab(),
                );
                assert(stmts_view(stmts@) == done0.push(stmt_view(st)));
            }
        }
        Ok(stmts)
    }

    /// After `if`: the parenthesised condition, the branch, and an
    /// optional `else` branch.
    #[verifier::rlimit(100)]
    #[verifier::spinoff_prover]
    pub fn parse_if_rest<'a>(&mut self, tokens: &mut TokenStream<'a>) -> (r: Result<Stmt, PError>)
        requires
            parse_pre(*old(self), *old(tokens)),
        ensures
            parse_frame(*old(self), *old(tokens), *final(self), *final(tokens)),
            stmt_res_match(
                sp_if_rest(old(tokens).src@, old(tokens).pos as int, old(self).tab()),
                r,
                *final(self),
                *final(tokens),
            ),
            r is Ok ==> old(tokens).pos < final(tokens).pos,
            match r {
                Ok(st) => stmt_labels(stmt_view(st)) <= 1 + final(tokens).pos - old(tokens).pos,
                Err(_) => true,
            },
        decreases tokens.src@.len() - tokens.pos, 12int,
    {
        let ghost s = tokens.src@;
        let ghost p0 = tokens.pos as int;
        proof {
            lemma_spec_next_bounds(s, p0);
        }
        let nx = tokens.next();
        match nx {
            Err(e2) => {
                return Err(PError { kind: ErrKind::Lex, pos: e2 });
            },
            Ok(None) => {
                return Err(PError { kind: ErrKind::ExpectedParenLeft, pos: tokens.pos });
            },
            Ok(Some(t2)) => {
                if !matches!(t2.kind, TokenKind::Par(Par::Left)) {
                    return Err(PError { kind: ErrKind::ExpectedParenLeft, pos: t2.pos });
                }
            },
        }
        let cond = match self.parse_expr(tokens) {
            Ok(v) => v,
            Err(er) => {
                return Err(er);
            },
        };
        proof {
            lemma_spec_next_bounds(s, tokens.pos as int);
        }
        let nx2 = tokens.next();
        match nx2 {
            Err(e2) => {
                return Err(PError { kind: ErrKind::Lex, pos: e2 });
            },
            Ok(None) => {
                return Err(PError { kind: ErrKind::ExpectedParenRight, pos: tokens.pos });
            },
            Ok(Some(t3)) => {
                if !matches!(t3.kind, TokenKind::Par(Par::Right)) {
                    return Err(PError { kind: ErrKind::ExpectedParenRight, pos: t3.pos });
                }
            },
        }
        let thn = match self.parse_stmt(tokens) {
            Ok(v) => v,
            Err(er) => {
                return Err(er);
            },
        };
        proof {
            lemma_spec_next_bounds(s, tokens.pos as int);
        }
        let pk2 = tokens.peek();
        let has_else = match pk2 {
            Err(e2) => {
                return Err(PError { kind: ErrKind::Lex, pos: e2 });
            },
            Ok(Some(t4)) => matches!(t4.kind, TokenKind::Keyword(Keyword::Else)),
            Ok(None) => false,
        };
        if has_else {
            let _ = tokens.next();
            let els = match self.parse_stmt(tokens) {
                Ok(v) => v,
                Err(er) => {
                    return Err(er);
                },
            };
            let result = Stmt::If(
                StmtIf { cond, then_branch: Box::new(thn), else_branch: Some(Box::new(els)) },
            );
            proof {
                assert(stmt_view(result) == (StmtM::If {
                    cond: expr_view(cond),
                    then_branch: Box::new(stmt_view(thn)),
                    else_branch: Some(Box::new(stmt_view(els))),
                }));
            }
            Ok(result)
        } else {
            let result = Stmt::If(StmtIf { cond, then_branch: Box::new(thn), else_branch: None });
            proof {
                assert(stmt_view(result) == (StmtM::If {
                    cond: expr_view(cond),
                    then_branch: Box::new(stmt_view(thn)),
                    else_branch: None,
                }));
            }
            Ok(result)
        }
    }

    /// After `while`: the parenthesised condition and the body.
    #[verifier::rlimit(100)]
    #[verifier::spinoff_prover]
    pub fn parse_while_rest<'a>(&mut self, tokens: &mut TokenStream<'a>) -> (r: Result<
        Stmt,
        PError,
    >)
        requires
            parse_pre(*old(self), *old(tokens)),
        ensures
            parse_frame(*old(self), *old(tokens), *final(self), *final(tokens)),
            stmt_res_match(
                sp_while_rest(old(tokens).src@, old(tokens).pos as int, old(self).tab()),
                r,
                *final(self),
                *final(tokens),
            ),
            r is Ok ==> old(tokens).pos < final(tokens).pos,
            match r {
                Ok(st) => stmt_labels(stmt_view(st)) <= 1 + final(tokens).pos - old(tokens).pos,
                Err(_) => true,
            },
        decreases tokens.src@.len() - tokens.pos, 12int,
    {
        let ghost s = tokens.src@;
        let ghost p0 = tokens.pos as int;
        proof {
            lemma_spec_next_bounds(s, p0);
        }
        let nx = tokens.next();
        match nx {
            Err(e2) => {
                return Err(PError { kind: ErrKind::Lex, pos: e2 });
            },
            Ok(None) => {
                return Err(PError { kind: ErrKind::ExpectedParenLeft, pos: tokens.pos });
            },
            Ok(Some(t2)) => {
                if !matches!(t2.kind, TokenKind::Par(Par::Left)) {
                    return Err(PError { kind: ErrKind::ExpectedParenLeft, pos: t2.pos });
                }
            },
        }
        let cond = match self.parse_expr(tokens) {
            Ok(v) => v,
            Err(er) => {
                return Err(er);
            },
        };
        proof {
            lemma_spec_next_bounds(s, tokens.pos as int);
        }
        let nx2 = tokens.next();
        match nx2 {
            Err(e2) => {
                return Err(PError { kind: ErrKind::Lex, pos: e2 });
            },
            Ok(None) => {
                return Err(PError { kind: ErrKind::ExpectedParenRight, pos: tokens.pos });
            },
            Ok(Some(t3)) => {
                if !matches!(t3.kind, TokenKind::Par(Par::Right)) {
                    return Err(PError { kind: ErrKind::ExpectedParenRight, pos: t3.pos });
                }
            },
        }
        let body = match self.parse_stmt(tokens) {
            Ok(v) => v,
            Err(er) => {
                return Err(er);
            },
        };
        let result = Stmt::While(StmtWhile { cond, block: Box::new(body) });
        proof {
            assert(stmt_view(result) == (StmtM::While {
                cond: expr_view(cond),
                block: Box::new(stmt_view(body)),
            }));
        }
        Ok(result)
    }

    /// stmt = "return" expr ";" | "if" "(" expr ")" stmt ("else" stmt)?
    ///      | "while" "(" expr ")" stmt | "{" stmt* "}" | assign ";"
    #[verifier::rlimit(100)]
    #[verifier::spinoff_prover]
    pub fn parse_stmt<'a>(&mut self, tokens: &mut TokenStream<'a>) -> (r: Result<Stmt, PError>)
        requires
            parse_pre(*old(self), *old(tokens)),
        ensures
            parse_frame(*old(self), *old(tokens), *final(self), *final(tokens)),
            stmt_res_match(
                sp_stmt(old(tokens).src@, old(tokens).pos as int, old(self).tab()),
                r,
                *final(self),
                *final(tokens),
            ),
            r is Ok ==> old(tokens).pos < final(tokens).pos,
            match r {
                Ok(st) => stmt_labels(stmt_view(st)) <= final(tokens).pos - old(tokens).pos,
                Err(_) => true,
            },
        decreases tokens.src@.len() - tokens.pos, 13int,
    {
        let ghost s = tokens.src@;
        let ghost p0 = tokens.pos as int;
        let ghost tab0 = self.tab();
        proof {
            lemma_spec_next_bounds(s, p0);
        }
        let pk = tokens.peek();
        let head = match pk {
            Err(e) => {
                return Err(PError { kind: ErrKind::Lex, pos: e });
            },
            Ok(ot) => ot,
        };
        match head {
            Some(tok) if matches!(tok.kind, TokenKind::Keyword(Keyword::Return)) => {
                let _ = tokens.next();
                let e = match self.parse_expr(tokens) {
                    Ok(v) => v,
                    Err(er) => {
                        return Err(er);
                    },
                };
                proof {
                    lemma_spec_next_bounds(s, tokens.pos as int);
                }
                let nx = tokens.next();
                match nx {
                    Err(e2) => Err(PError { kind: ErrKind::Lex, pos: e2 }),
                    Ok(None) => Err(PError { kind: ErrKind::ExpectedSemi, pos: tokens.pos }),
                    Ok(Some(t2)) => match t2.kind {
                        TokenKind::Keyword(Keyword::Semi) => {
                            let result = Stmt::Return(StmtReturn { expr: e });
                            proof {
                                assert(stmt_view(result) == StmtM::Return(expr_view(e)));
                            }
                            Ok(result)
                        },
                        _ => Err(PError { kind: ErrKind::ExpectedSemi, pos: t2.pos }),
                    },
                }
            },
            Some(tok) if matches!(tok.kind, TokenKind::Keyword(Keyword::If)) => {
                let _ = tokens.next();
                self.parse_if_rest(tokens)
            },
            Some(tok) if matches!(tok.kind, TokenKind::Keyword(Keyword::While)) => {
                let _ = tokens.next();
                self.parse_while_rest(tokens)
            },
            Some(tok) if matches!(tok.kind, TokenKind::Brace(Brace::Left)) => {
                let _ = tokens.next();
                let stmts = match self.parse_block_items(tokens) {
                    Ok(v) => v,
                    Err(er) => {
                        return Err(er);
                    },
                };
                let ghost listv = stmts_view(stmts@);
                let result = Stmt::Block(StmtBlock { stmts });
                proof {
                    assert(stmt_view(result) == StmtM::Block(listv));
                }
                Ok(result)
            },
            _ => {
                let st = match self.parse_assign(tokens) {
                    Ok(v) => v,
                    Err(er) => {
                        return Err(er);
                    },
                };
                proof {
                    lemma_spec_next_bounds(s, tokens.pos as int);
                }
                let nx = tokens.next();
                match nx {
                    Err(e2) => Err(PError { kind: ErrKind::Lex, pos: e2 }),
                    Ok(None) => Err(PError { kind: ErrKind::ExpectedSemi, pos: tokens.pos }),
                    Ok(Some(t2)) => match t2.kind {
                        TokenKind::Keyword(Keyword::Semi) => Ok(st),
                        _ => Err(PError { kind: ErrKind::ExpectedSemi, pos: t2.pos }),
                    },
                }
            },
        }
    }

    /// program = stmt*, to the end of the input.
    #[verifier::rlimit(100)]
    #[verifier::spinoff_prover]
    pub fn parse_program<'a>(&mut self, tokens: &mut TokenStream<'a>) -> (r: Result<
        Vec<Stmt>,
        PError,
    >)
        requires
            parse_pre(*old(self), *old(tokens)),
        ensures
            parse_frame(*old(self), *old(tokens), *final(self), *final(tokens)),
            stmts_res_match(
                sp_program(old(tokens).src@, old(tokens).pos as int, old(self).tab()),
                r,
                *final(self),
                *final(tokens),
            ),
            match r {
                Ok(list) => stmts_labels(stmts_view(list@)) <= final(tokens).pos - old(
                    tokens,
                ).pos,
                Err(_) => true,
            },
        decreases tokens.src@.len() - tokens.pos, 15int,
    {
        let ghost s = tokens.src@;
        let ghost p0 = tokens.pos as int;
        let ghost tab0 = self.tab();
        let mut stmts: Vec<Stmt> = Vec::new();
        proof {
            assert(stmts_view(stmts@) =~= Seq::<StmtM>::empty());
        }
        loop
            invariant
                tokens.wf(),
                tokens.src == old(tokens).src,
                s == old(tokens).src@,
                tokens.src@ == s,
                p0 == old(tokens).pos as int,
                tab0 == old(self).tab(),
                s.len() <= MAX_SRC_LEN,
                old(tokens).pos <= tokens.pos,
                self.tab().len() <= tokens.pos,
                p0 <= tokens.pos as int <= s.len(),
                stmts_labels(stmts_view(stmts@)) <= tokens.pos - p0,
                match sp_program(s, tokens.pos as int, self.tab()) {
                    PRes::Done { v: rest, pos: pe, tab: te } => sp_program(s, p0, tab0)
                        == (PRes::Done { v: stmts_view(stmts@) + rest, pos: pe, tab: te }),
                    PRes::Fail(e) => sp_program(s, p0, tab0) == PRes::<Seq<StmtM>>::Fail(e),
                },
            ensures
                tokens.wf(),
                tokens.src == old(tokens).src,
                tokens.src@ == s,
                self.tab().len() <= tokens.pos,
                p0 <= tokens.pos as int <= s.len(),
                stmts_labels(stmts_view(stmts@)) <= tokens.pos - p0,
                sp_program(s, p0, tab0) == (PRes::Done {
                    v: stmts_view(stmts@),
                    pos: tokens.pos as int,
                    tab: self.tab(),
                }),
            decreases s.len() - tokens.pos,
        {
            proof {
                lemma_spec_next_bounds(s, tokens.pos as int);
            }
            let pk = tokens.peek();
            match pk {
                Err(e) => {
                    return Err(PError { kind: ErrKind::Lex, pos: e });
                },
                Ok(None) => {
                    proof {
                        assert(stmts_view(stmts@) + Seq::<StmtM>::empty() =~= stmts_view(
                            stmts@,
                        ));
                    }
                    break ;
                },
                Ok(Some(_)) => {},
            }
            let ghost pos_before = tokens.pos as int;
            let ghost tab_before = self.tab();
            let ghost done0 = stmts_view(stmts@);
            let st = match self.parse_stmt(tokens) {
                Ok(v) => v,
                Err(er) => {
                    return Err(er);
                },
            };
            proof {
                lemma_stmts_view_push(stmts@, st);
                lemma_stmts_labels_push(stmts_view(stmts@), stmt_view(st));
                lemma_stmts_labels_nonneg(stmts_view(stmts@));
                lemma_stmt_labels_nonneg(stmt_view(st));
            }
            stmts.push(st);
            proof {
                lemma_program_peel_step(
                    s,
                    p0,
                    tab0,
                    pos_before,
                    tab_before,
                    done0,
                    stmt_view(st),
                    tokens.pos as int,
                    self.tab(),
                );
                assert(stmts_view(stmts@) == done0.push(stmt_view(st)));
            }
        }
        Ok(stmts)
    }

    /// Parse a whole source: the grammar's start symbol.
    pub fn parse<'a>(&mut self, tokens: &mut TokenStream<'a>) -> (r: Result<Vec<Stmt>, PError>)
        requires
            parse_pre(*old(self), *old(tokens)),
        ensures
            parse_frame(*old(self), *old(tokens), *final(self), *final(tokens)),
            stmts_res_match(
                sp_program(old(tokens).src@, old(tokens).pos as int, old(self).tab()),
                r,
                *final(self),
                *final(tokens),
            ),
            match r {
                Ok(list) => stmts_labels(stmts_view(list@)) <= final(tokens).pos - old(
                    tokens,
                ).pos,
                Err(_) => true,
            },
    {
        self.parse_program(tokens)
    }

    /// A call's argument list, after the opening `(`: empty, or
    /// comma-separated expressions, at most six.
    #[verifier::rlimit(100)]
    #[verifier::spinoff_prover]
    pub fn parse_args<'a>(&mut self, tokens: &mut TokenStream<'a>) -> (r: Result<
        Vec<Expr>,
        PError,
    >)
        requires
            parse_pre(*old(self), *old(tokens)),
        ensures
            parse_frame(*old(self), *old(tokens), *final(self), *final(tokens)),
            ({
                let sp = sp_args(old(tokens).src@, old(tokens).pos as int, old(self).tab());
                match sp {
                    PRes::Done { v, pos, tab } => match r {
                        Ok(list) => exprs_view(list@) == v && final(tokens).pos as int == pos
                            && final(self).tab() == tab,
                        Err(_) => false,
                    },
                    PRes::Fail(pe) => match r {
                        Ok(_) => false,
                        Err(x) => err_match(pe, x),
                    },
                }
            }),
            r is Ok ==> old(tokens).pos < final(tokens).pos,
        decreases tokens.src@.len() - tokens.pos, 10int,
    {
        let ghost s = tokens.src@;
        let ghost p0 = tokens.pos as int;
        let ghost tab0 = self.tab();
        let mut params: Vec<Expr> = Vec::new();
        proof {
            lemma_spec_next_bounds(s, p0);
        }
        let pk = tokens.peek();
        let empty_list = match pk {
            Err(e) => {
                return Err(PError { kind: ErrKind::Lex, pos: e });
            },
            Ok(Some(t)) => matches!(t.kind, TokenKind::Par(Par::Right)),
            Ok(None) => false,
        };
        if empty_list {
            let _ = tokens.next();
            proof {
                assert(exprs_view(params@) =~= Seq::<ExprM>::empty());
            }
            return Ok(params);
        }
        let e1 = match self.parse_expr(tokens) {
            Ok(v) => v,
            Err(er) => {
                return Err(er);
            },
        };
        proof {
            lemma_exprs_view_push(params@, e1);
            assert(exprs_view(params@) =~= Seq::<ExprM>::empty());
            assert(exprs_view(params@.push(e1)) =~= seq![expr_view(e1)]);
            assert(sp_expr(s, p0, tab0) == (PRes::Done {
                v: expr_view(e1),
                pos: tokens.pos as int,
                tab: self.tab(),
            }));
            assert(adv(s, p0, tokens.pos as int));
            assert(sp_args(s, p0, tab0) == sp_args_tail(
                s,
                tokens.pos as int,
                self.tab(),
                seq![expr_view(e1)],
            ));
        }
        params.push(e1);
        loop
            invariant_except_break
                sp_args(s, p0, tab0) == sp_args_tail(
                    s,
                    tokens.pos as int,
                    self.tab(),
                    exprs_view(params@),
                ),
            invariant
                tokens.wf(),
                tokens.src == old(tokens).src,
                s == old(tokens).src@,
                tokens.src@ == s,
                p0 == old(tokens).pos as int,
                tab0 == old(self).tab(),
                s.len() <= MAX_SRC_LEN,
                old(tokens).pos <= tokens.pos,
                self.tab().len() <= tokens.pos,
                p0 < tokens.pos as int <= s.len(),
                1 <= params@.len() <= 6,
            ensures
                tokens.wf(),
                tokens.src == old(tokens).src,
                tokens.src@ == s,
                self.tab().len() <= tokens.pos,
                p0 < tokens.pos as int <= s.len(),
                sp_args(s, p0, tab0) == (PRes::Done {
                    v: exprs_view(params@),
                    pos: tokens.pos as int,
                    tab: self.tab(),
                }),
            decreases s.len() - tokens.pos,
        {
            proof {
                lemma_spec_next_bounds(s, tokens.pos as int);
                lemma_exprs_view(params@);
            }
            let pk3 = tokens.peek();
            let t4 = match pk3 {
                Err(e) => {
                    return Err(PError { kind: ErrKind::Lex, pos: e });
                },
                Ok(None) => {
                    return Err(
                        PError { kind: ErrKind::ExpectedParenRight, pos: tokens.src.len() },
                    );
                },
                Ok(Some(t)) => t,
            };
            match t4.kind {
                TokenKind::Par(Par::Right) => {
                    let _ = tokens.next();
                    break ;
                },
                TokenKind::Keyword(Keyword::Comma) => {
                    if params.len() == 6 {
                        return Err(PError { kind: ErrKind::TooManyArgs, pos: t4.pos });
                    }
                    let _ = tokens.next();
                    let en = match self.parse_expr(tokens) {
                        Ok(v) => v,
                        Err(er) => {
                            return Err(er);
                        },
                    };
                    proof {
                        lemma_exprs_view_push(params@, en);
                    }
                    params.push(en);
                    proof {
                        assert(sp_args(s, p0, tab0) == sp_args_tail(
                            s,
                            tokens.pos as int,
                            self.tab(),
                            exprs_view(params@),
                        ));
                    }
                },
                _ => {
                    return Err(PError { kind: ErrKind::ExpectedParenRight, pos: t4.pos });
                },
            }
        }
        Ok(params)
    }

    /// primary = num | ident ("(" (expr ("," expr)*)? ")")? | "(" expr ")"
    #[verifier::rlimit(100)]
    #[verifier::spinoff_prover]
    pub fn parse_primary<'a>(&mut self, tokens: &mut TokenStream<'a>) -> (r: Result<
        Expr,
        PError,
    >)
        requires
            parse_pre(*old(self), *old(tokens)),
        ensures
            parse_frame(*old(self), *old(tokens), *final(self), *final(tokens)),
            expr_res_match(
                sp_primary(old(tokens).src@, old(tokens).pos as int, old(self).tab()),
                r,
                *final(self),
                *final(tokens),
            ),
            r is Ok ==> old(tokens).pos < final(tokens).pos,
        decreases tokens.src@.len() - tokens.pos, 3int,
    {
        let ghost s = tokens.src@;
        let ghost p0 = tokens.pos as int;
        let ghost tab0 = self.tab();
        proof {
            lemma_spec_next_bounds(s, p0);
        }
        let nx = tokens.next();
        let tok = match nx {
            Err(e) => {
                return Err(PError { kind: ErrKind::Lex, pos: e });
            },
            Ok(None) => {
                return Err(PError { kind: ErrKind::ExpectedPrimary, pos: tokens.pos });
            },
            Ok(Some(t)) => t,
        };
        match tok.kind {
            TokenKind::Num(n) => {
                proof {
                    assert(expr_view(Expr::Num(n)) == ExprM::Num(n as int));
                }
                Ok(Expr::Num(n))
            },
            TokenKind::Ident(name) => {
                let ghost q = tokens.pos as int;
                proof {
                    lemma_spec_next_bounds(s, q);
                }
                let pk = tokens.peek();
                let is_call = match pk {
                    Err(e) => {
                        return Err(PError { kind: ErrKind::Lex, pos: e });
                    },
                    Ok(Some(t2)) => matches!(t2.kind, TokenKind::Par(Par::Left)),
                    Ok(None) => false,
                };
                if !is_call {
                    let off = self.offset_of_local_var(name);
                    let result = Expr::Ident(ExprIdent { ident_offset: off });
                    proof {
                        assert(expr_view(result) == (ExprM::Ident { offset: off as int }));
                    }
                    return Ok(result);
                }
                // A call: consume the `(` and read the argument list.
                let _ = tokens.next();
                let params = match self.parse_args(tokens) {
                    Ok(v) => v,
                    Err(er) => {
                        return Err(er);
                    },
                };
                let ghost argsv = exprs_view(params@);
                let result = Expr::Call(ExprCall { name: vstd::slice::slice_to_vec(name), params });
                proof {
                    assert(expr_view(result) == (ExprM::Call { name: name@, args: argsv }));
                }
                Ok(result)
            },
            TokenKind::Par(Par::Left) => {
                let inner = match self.parse_expr(tokens) {
                    Ok(v) => v,
                    Err(er) => {
                        return Err(er);
                    },
                };
                proof {
                    lemma_spec_next_bounds(s, tokens.pos as int);
                }
                let nx2 = tokens.next();
                match nx2 {
                    Err(e) => Err(PError { kind: ErrKind::Lex, pos: e }),
                    Ok(None) => Err(PError { kind: ErrKind::ExpectedParenRight, pos: tokens.pos }),
                    Ok(Some(t3)) => match t3.kind {
                        TokenKind::Par(Par::Right) => {
                            let result = Expr::Paren(ExprParen { expr: Box::new(inner) });
                            proof {
                                assert(expr_view(result) == ExprM::Paren(
                                    Box::new(expr_view(inner)),
                                ));
                            }
                            Ok(result)
                        },
                        _ => Err(PError { kind: ErrKind::ExpectedParenRight, pos: t3.pos }),
                    },
                }
            },
            _ => Err(PError { kind: ErrKind::ExpectedPrimary, pos: tok.pos }),
        }
    }

    /// unary = ("+" | "-")? primary, desugared to `0 + x` and `0 - x`.
    #[verifier::rlimit(100)]
    pub fn parse_unary<'a>(&mut self, tokens: &mut TokenStream<'a>) -> (r: Result<Expr, PError>)
        requires
            parse_pre(*old(self), *old(tokens)),
        ensures
            parse_frame(*old(self), *old(tokens), *final(self), *final(tokens)),
            expr_res_match(
                sp_unary(old(tokens).src@, old(tokens).pos as int, old(self).tab()),
                r,
                *final(self),
                *final(tokens),
            ),
            r is Ok ==> old(tokens).pos < final(tokens).pos,
        decreases tokens.src@.len() - tokens.pos, 4int,
    {
        let ghost s = tokens.src@;
        let ghost p0 = tokens.pos as int;
        proof {
            lemma_spec_next_bounds(s, p0);
        }
        let pk = tokens.peek();
        let sign = match pk {
            Err(e) => {
                return Err(PError { kind: ErrKind::Lex, pos: e });
            },
            Ok(Some(tok)) => match tok.kind {
                TokenKind::Op(Op::Add) => Some(BinOp::Add),
                TokenKind::Op(Op::Sub) => Some(BinOp::Sub),
                _ => None,
            },
            Ok(None) => None,
        };
        match sign {
            Some(op) => {
                let _ = tokens.next();
                let prim = match self.parse_primary(tokens) {
                    Ok(v) => v,
                    Err(er) => {
                        return Err(er);
                    },
                };
                let result = Expr::BinOp(
                    ExprBinOp { lhs: Box::new(Expr::Num(0)), op, rhs: Box::new(prim) },
                );
                proof {
                    assert(expr_view(Expr::Num(0)) == ExprM::Num(0));
                    assert(expr_view(result) == (ExprM::BinOp {
                        op,
                        lhs: Box::new(ExprM::Num(0)),
                        rhs: Box::new(expr_view(prim)),
                    }));
                }
                Ok(result)
            },
            None => self.parse_primary(tokens),
        }
    }

    /// mul = unary (("*" | "/") unary)*, folded to the left.
    #[verifier::rlimit(100)]
    pub fn parse_mul<'a>(&mut self, tokens: &mut TokenStream<'a>) -> (r: Result<Expr, PError>)
        requires
            parse_pre(*old(self), *old(tokens)),
        ensures
            parse_frame(*old(self), *old(tokens), *final(self), *final(tokens)),
            expr_res_match(
                sp_mul(old(tokens).src@, old(tokens).pos as int, old(self).tab()),
                r,
                *final(self),
                *final(tokens),
            ),
            r is Ok ==> old(tokens).pos < final(tokens).pos,
        decreases tokens.src@.len() - tokens.pos, 5int,
    {
        let ghost s = tokens.src@;
        let ghost p0 = tokens.pos as int;
        let ghost tab0 = self.tab();
        let mut expr = match self.parse_unary(tokens) {
            Ok(v) => v,
            Err(er) => {
                return Err(er);
            },
        };
        loop
            invariant
                tokens.wf(),
                tokens.src == old(tokens).src,
                s == old(tokens).src@,
                tokens.src@ == s,
                p0 == old(tokens).pos as int,
                tab0 == old(self).tab(),
                s.len() <= MAX_SRC_LEN,
                old(tokens).pos <= tokens.pos,
                self.tab().len() <= tokens.pos,
                p0 < tokens.pos as int <= s.len(),
                sp_mul(s, p0, tab0) == sp_mul_tail(
                    s,
                    tokens.pos as int,
                    self.tab(),
                    expr_view(expr),
                ),
            ensures
                tokens.wf(),
                tokens.src == old(tokens).src,
                tokens.src@ == s,
                self.tab().len() <= tokens.pos,
                p0 < tokens.pos as int <= s.len(),
                sp_mul(s, p0, tab0) == (PRes::Done {
                    v: expr_view(expr),
                    pos: tokens.pos as int,
                    tab: self.tab(),
                }),
            decreases s.len() - tokens.pos,
        {
            proof {
                lemma_spec_next_bounds(s, tokens.pos as int);
            }
            let pk = tokens.peek();
            let tok = match pk {
                Err(e) => {
                    return Err(PError { kind: ErrKind::Lex, pos: e });
                },
                Ok(None) => {
                    break ;
                },
                Ok(Some(t)) => t,
            };
            let op = match tok.kind {
                TokenKind::Op(Op::Mul) => BinOp::Mul,
                TokenKind::Op(Op::Div) => BinOp::Div,
                _ => {
                    break ;
                },
            };
            let _ = tokens.next();
            let rhs = match self.parse_unary(tokens) {
                Ok(v) => v,
                Err(er) => {
                    return Err(er);
                },
            };
            let folded = Expr::BinOp(ExprBinOp { lhs: Box::new(expr), op, rhs: Box::new(rhs) });
            expr = folded;
        }
        Ok(expr)
    }

    /// add = mul (("+" | "-") mul)*, folded to the left.
    #[verifier::rlimit(100)]
    pub fn parse_add<'a>(&mut self, tokens: &mut TokenStream<'a>) -> (r: Result<Expr, PError>)
        requires
            parse_pre(*old(self), *old(tokens)),
        ensures
            parse_frame(*old(self), *old(tokens), *final(self), *final(tokens)),
            expr_res_match(
                sp_add(old(tokens).src@, old(tokens).pos as int, old(self).tab()),
                r,
                *final(self),
                *final(tokens),
            ),
            r is Ok ==> old(tokens).pos < final(tokens).pos,
        decreases tokens.src@.len() - tokens.pos, 6int,
    {
        let ghost s = tokens.src@;
        let ghost p0 = tokens.pos as int;
        let ghost tab0 = self.tab();
        let mut expr = match self.parse_mul(tokens) {
            Ok(v) => v,
            Err(er) => {
                return Err(er);
            },
        };
        loop
            invariant
                tokens.wf(),
                tokens.src == old(tokens).src,
                s == old(tokens).src@,
                tokens.src@ == s,
                p0 == old(tokens).pos as int,
                tab0 == old(self).tab(),
                s.len() <= MAX_SRC_LEN,
                old(tokens).pos <= tokens.pos,
                self.tab().len() <= tokens.pos,
                p0 < tokens.pos as int <= s.len(),
                sp_add(s, p0, tab0) == sp_add_tail(
                    s,
                    tokens.pos as int,
                    self.tab(),
                    expr_view(expr),
                ),
            ensures
                tokens.wf(),
                tokens.src == old(tokens).src,
                tokens.src@ == s,
                self.tab().len() <= tokens.pos,
                p0 < tokens.pos as int <= s.len(),
                sp_add(s, p0, tab0) == (PRes::Done {
                    v: expr_view(expr),
                    pos: tokens.pos as int,
                    tab: self.tab(),
                }),
            decreases s.len() - tokens.pos,
        {
            proof {
                lemma_spec_next_bounds(s, tokens.pos as int);
            }
            let pk = tokens.peek();
            let tok = match pk {
                Err(e) => {
                    return Err(PError { kind: ErrKind::Lex, pos: e });
                },
                Ok(None) => {
                    break ;
                },
                Ok(Some(t)) => t,
            };
            let op = match tok.kind {
                TokenKind::Op(Op::Add) => BinOp::Add,
                TokenKind::Op(Op::Sub) => BinOp::Sub,
                _ => {
                    break ;
                },
            };
            let _ = tokens.next();
            let rhs = match self.parse_mul(tokens) {
                Ok(v) => v,
                Err(er) => {
                    return Err(er);
                },
            };
            let folded = Expr::BinOp(ExprBinOp { lhs: Box::new(expr), op, rhs: Box::new(rhs) });
            expr = folded;
        }
        Ok(expr)
    }

    /// relational = add (("<" | "<=" | ">" | ">=") add)*; `>` and `>=`
    /// swap their operands and become `<` and `<=`.
    #[verifier::rlimit(100)]
    pub fn parse_relational<'a>(&mut self, tokens: &mut TokenStream<'a>) -> (r: Result<
        Expr,
        PError,
    >)
        requires
            parse_pre(*old(self), *old(tokens)),
        ensures
            parse_frame(*old(self), *old(tokens), *final(self), *final(tokens)),
            expr_res_match(
                sp_relational(old(tokens).src@, old(tokens).pos as int, old(self).tab()),
                r,
                *final(self),
                *final(tokens),
            ),
            r is Ok ==> old(tokens).pos < final(tokens).pos,
        decreases tokens.src@.len() - tokens.pos, 7int,
    {
        let ghost s = tokens.src@;
        let ghost p0 = tokens.pos as int;
        let ghost tab0 = self.tab();
        let mut expr = match self.parse_add(tokens) {
            Ok(v) => v,
            Err(er) => {
                return Err(er);
            },
        };
        loop
            invariant
                tokens.wf(),
                tokens.src == old(tokens).src,
                s == old(tokens).src@,
                tokens.src@ == s,
                p0 == old(tokens).pos as int,
                tab0 == old(self).tab(),
                s.len() <= MAX_SRC_LEN,
                old(tokens).pos <= tokens.pos,
                self.tab().len() <= tokens.pos,
                p0 < tokens.pos as int <= s.len(),
                sp_relational(s, p0, tab0) == sp_rel_tail(
                    s,
                    tokens.pos as int,
                    self.tab(),
                    expr_view(expr),
                ),
            ensures
                tokens.wf(),
                tokens.src == old(tokens).src,
                tokens.src@ == s,
                self.tab().len() <= tokens.pos,
                p0 < tokens.pos as int <= s.len(),
                sp_relational(s, p0, tab0) == (PRes::Done {
                    v: expr_view(expr),
                    pos: tokens.pos as int,
                    tab: self.tab(),
                }),
            decreases s.len() - tokens.pos,
        {
            proof {
                lemma_spec_next_bounds(s, tokens.pos as int);
            }
            let pk = tokens.peek();
            let tok = match pk {
                Err(e) => {
                    return Err(PError { kind: ErrKind::Lex, pos: e });
                },
                Ok(None) => {
                    break ;
                },
                Ok(Some(t)) => t,
            };
            let parsed = match tok.kind {
                TokenKind::Op(Op::Lt) => Some((BinOp::Lt, false)),
                TokenKind::Op(Op::Lte) => Some((BinOp::Lte, false)),
                TokenKind::Op(Op::Gt) => Some((BinOp::Lt, true)),
                TokenKind::Op(Op::Gte) => Some((BinOp::Lte, true)),
                _ => None,
            };
            let (op, reverse) = match parsed {
                Some(pair) => pair,
                None => {
                    break ;
                },
            };
            let _ = tokens.next();
            let rhs = match self.parse_add(tokens) {
                Ok(v) => v,
                Err(er) => {
                    return Err(er);
                },
            };
            let folded = if reverse {
                Expr::BinOp(ExprBinOp { lhs: Box::new(rhs), op, rhs: Box::new(expr) })
            } else {
                Expr::BinOp(ExprBinOp { lhs: Box::new(expr), op, rhs: Box::new(rhs) })
            };
            expr = folded;
        }
        Ok(expr)
    }

    /// equality = relational (("==" | "!=") relational)*, folded to the
    /// left.
    #[verifier::rlimit(100)]
    pub fn parse_equality<'a>(&mut self, tokens: &mut TokenStream<'a>) -> (r: Result<
        Expr,
        PError,
    >)
        requires
            parse_pre(*old(self), *old(tokens)),
        ensures
            parse_frame(*old(self), *old(tokens), *final(self), *final(tokens)),
            expr_res_match(
                sp_equality(old(tokens).src@, old(tokens).pos as int, old(self).tab()),
                r,
                *final(self),
                *final(tokens),
            ),
            r is Ok ==> old(tokens).pos < final(tokens).pos,
        decreases tokens.src@.len() - tokens.pos, 8int,
    {
        let ghost s = tokens.src@;
        let ghost p0 = tokens.pos as int;
        let ghost tab0 = self.tab();
        let mut expr = match self.parse_relational(tokens) {
            Ok(v) => v,
            Err(er) => {
                return Err(er);
            },
        };
        loop
            invariant
                tokens.wf(),
                tokens.src == old(tokens).src,
                s == old(tokens).src@,
                tokens.src@ == s,
                p0 == old(tokens).pos as int,
                tab0 == old(self).tab(),
                s.len() <= MAX_SRC_LEN,
                old(tokens).pos <= tokens.pos,
                self.tab().len() <= tokens.pos,
                p0 < tokens.pos as int <= s.len(),
                sp_equality(s, p0, tab0) == sp_eq_tail(
                    s,
                    tokens.pos as int,
                    self.tab(),
                    expr_view(expr),
                ),
            ensures
                tokens.wf(),
                tokens.src == old(tokens).src,
                tokens.src@ == s,
                self.tab().len() <= tokens.pos,
                p0 < tokens.pos as int <= s.len(),
                sp_equality(s, p0, tab0) == (PRes::Done {
                    v: expr_view(expr),
                    pos: tokens.pos as int,
                    tab: self.tab(),
                }),
            decreases s.len() - tokens.pos,
        {
            proof {
                lemma_spec_next_bounds(s, tokens.pos as int);
            }
            let pk = tokens.peek();
            let tok = match pk {
                Err(e) => {
                    return Err(PError { kind: ErrKind::Lex, pos: e });
                },
                Ok(None) => {
                    break ;
                },
                Ok(Some(t)) => t,
            };
            let op = match tok.kind {
                TokenKind::Op(Op::Eq) => BinOp::Eq,
                TokenKind::Op(Op::Neq) => BinOp::Neq,
                _ => {
                    break ;
                },
            };
            let _ = tokens.next();
            let rhs = match self.parse_relational(tokens) {
                Ok(v) => v,
                Err(er) => {
                    return Err(er);
                },
            };
            let folded = Expr::BinOp(ExprBinOp { lhs: Box::new(expr), op, rhs: Box::new(rhs) });
            expr = folded;
        }
        Ok(expr)
    }

    /// expr = equality
    pub fn parse_expr<'a>(&mut self, tokens: &mut TokenStream<'a>) -> (r: Result<Expr, PError>)
        requires
            parse_pre(*old(self), *old(tokens)),
        ensures
            parse_frame(*old(self), *old(tokens), *final(self), *final(tokens)),
            expr_res_match(
                sp_expr(old(tokens).src@, old(tokens).pos as int, old(self).tab()),
                r,
                *final(self),
                *final(tokens),
            ),
            r is Ok ==> old(tokens).pos < final(tokens).pos,
        decreases tokens.src@.len() - tokens.pos, 9int,
    {
        self.parse_equality(tokens)
    }
}

/// The diagnostic message for each error kind.
pub open spec fn msg_of_kind(k: ErrKind) -> Seq<u8> {
    match k {
        ErrKind::Lex => seq![85u8, 110u8, 97u8, 98u8, 108u8, 101u8, 32u8, 116u8, 111u8, 32u8, 116u8, 111u8, 107u8, 101u8, 110u8, 105u8, 122u8, 101u8],
        ErrKind::ExpectedSemi => seq![101u8, 120u8, 112u8, 101u8, 99u8, 116u8, 101u8, 100u8, 32u8, 34u8, 59u8, 34u8],
        ErrKind::ExpectedParenLeft => seq![101u8, 120u8, 112u8, 101u8, 99u8, 116u8, 101u8, 100u8, 32u8, 34u8, 40u8, 34u8],
        ErrKind::ExpectedParenRight => seq![101u8, 120u8, 112u8, 101u8, 99u8, 116u8, 101u8, 100u8, 32u8, 34u8, 41u8, 34u8],
        ErrKind::ExpectedBraceRight => seq![101u8, 120u8, 112u8, 101u8, 99u8, 116u8, 101u8, 100u8, 32u8, 34u8, 125u8, 34u8],
        ErrKind::ExpectedPrimary => seq![101u8, 120u8, 112u8, 101u8, 99u8, 116u8, 101u8, 100u8, 32u8, 110u8, 117u8, 109u8, 98u8, 101u8, 114u8, 44u8, 32u8, 105u8, 100u8, 101u8, 110u8, 116u8, 32u8, 111u8, 114u8, 32u8, 34u8, 40u8, 34u8],
        ErrKind::TooManyArgs => seq![116u8, 111u8, 111u8, 32u8, 109u8, 97u8, 110u8, 121u8, 32u8, 97u8, 114u8, 103u8, 117u8, 109u8, 101u8, 110u8, 116u8, 115u8],
    }
}

/// Builds the diagnostic message for an error kind.
pub fn kind_msg(k: ErrKind) -> (r: Vec<u8>)
    ensures
        r@ == msg_of_kind(k),
{
    let mut out: Vec<u8> = Vec::new();
    match k {
        ErrKind::Lex => {
            out.push(85);
        out.push(110);
        out.push(97);
        out.push(98);
        out.push(108);
        out.push(101);
        out.push(32);
        out.push(116);
        out.push(111);
        out.push(32);
        out.push(116);
        out.push(111);
        out.push(107);
        out.push(101);
        out.push(110);
        out.push(105);
        out.push(122);
        out.push(101);
        },
        ErrKind::ExpectedSemi => {
            out.push(101);
        out.push(120);
        out.push(112);
        out.push(101);
        out.push(99);
        out.push(116);
        out.push(101);
        out.push(100);
        out.push(32);
        out.push(34);
        out.push(59);
        out.push(34);
        },
        ErrKind::ExpectedParenLeft => {
            out.push(101);
        out.push(120);
        out.push(112);
        out.push(101);
        out.push(99);
        out.push(116);
        out.push(101);
        out.push(100);
        out.push(32);
        out.push(34);
        out.push(40);
        out.push(34);
        },
        ErrKind::ExpectedParenRight => {
            out.push(101);
        out.push(120);
        out.push(112);
        out.push(101);
        out.push(99);
        out.push(116);
        out.push(101);
        out.push(100);
        out.push(32);
        out.push(34);
        out.push(41);
        out.push(34);
        },
        ErrKind::ExpectedBraceRight => {
            out.push(101);
        out.push(120);
        out.push(112);
        out.push(101);
        out.push(99);
        out.push(116);
        out.push(101);
        out.push(100);
        out.push(32);
        out.push(34);
        out.push(125);
        out.push(34);
        },
        ErrKind::ExpectedPrimary => {
            out.push(101);
        out.push(120);
        out.push(112);
        out.push(101);
        out.push(99);
        out.push(116);
        out.push(101);
        out.push(100);
        out.push(32);
        out.push(110);
        out.push(117);
        out.push(109);
        out.push(98);
        out.push(101);
        out.push(114);
        out.push(44);
        out.push(32);
        out.push(105);
        out.push(100);
        out.push(101);
        out.push(110);
        out.push(116);
        out.push(32);
        out.push(111);
        out.push(114);
        out.push(32);
        out.push(34);
        out.push(40);
        out.push(34);
        },
        ErrKind::TooManyArgs => {
            out.push(116);
        out.push(111);
        out.push(111);
        out.push(32);
        out.push(109);
        out.push(97);
        out.push(110);
        out.push(121);
        out.push(32);
        out.push(97);
        out.push(114);
        out.push(103);
        out.push(117);
        out.push(109);
        out.push(101);
        out.push(110);
        out.push(116);
        out.push(115);
        },
    }
    proof {
        assert(out@ =~= msg_of_kind(k));
    }
    out
}

/// Left-associativity for the additive class: parsing `a + b + c` (with
/// any mix of `+` and `-`) folds to the left, `(a op1 b) op2 c`.
pub proof fn lemma_left_assoc_add(
    s: Seq<u8>,
    p: int,
    tab: Tab,
    a: ExprM,
    p1: int,
    t1: Tab,
    x1: int,
    op1: Op,
    q1: int,
    b: ExprM,
    p2: int,
    t2: Tab,
    x2: int,
    op2: Op,
    q2: int,
    c: ExprM,
    p3: int,
    t3: Tab,
)
    requires
        0 <= p <= s.len(),
        sp_mul(s, p, tab) == (PRes::Done { v: a, pos: p1, tab: t1 }),
        adv(s, p, p1),
        spec_next(s, p1) == (LexStep::Tok { t: TokM { k: TokK::Op(op1), pos: x1 }, p: q1 }),
        op1 == Op::Add || op1 == Op::Sub,
        adv(s, p1, q1),
        sp_mul(s, q1, t1) == (PRes::Done { v: b, pos: p2, tab: t2 }),
        adv(s, q1, p2),
        spec_next(s, p2) == (LexStep::Tok { t: TokM { k: TokK::Op(op2), pos: x2 }, p: q2 }),
        op2 == Op::Add || op2 == Op::Sub,
        adv(s, p2, q2),
        sp_mul(s, q2, t2) == (PRes::Done { v: c, pos: p3, tab: t3 }),
        adv(s, q2, p3),
        match spec_next(s, p3) {
            LexStep::Tok { t, p: q } => t.k != TokK::Op(Op::Add) && t.k != TokK::Op(Op::Sub),
            LexStep::End { .. } => true,
            LexStep::Fail { .. } => false,
        },
    ensures
        sp_add(s, p, tab) == (PRes::Done {
            v: ExprM::BinOp {
                op: if op2 == Op::Add {
                    BinOp::Add
                } else {
                    BinOp::Sub
                },
                lhs: Box::new(
                    ExprM::BinOp {
                        op: if op1 == Op::Add {
                            BinOp::Add
                        } else {
                            BinOp::Sub
                        },
                        lhs: Box::new(a),
                        rhs: Box::new(b),
                    },
                ),
                rhs: Box::new(c),
            },
            pos: p3,
            tab: t3,
        }),
{
    let ab = ExprM::BinOp {
        op: if op1 == Op::Add {
            BinOp::Add
        } else {
            BinOp::Sub
        },
        lhs: Box::new(a),
        rhs: Box::new(b),
    };
    let abc = ExprM::BinOp {
        op: if op2 == Op::Add {
            BinOp::Add
        } else {
            BinOp::Sub
        },
        lhs: Box::new(ab),
        rhs: Box::new(c),
    };
    assert(sp_add(s, p, tab) == sp_add_tail(s, p1, t1, a));
    assert(sp_add_tail(s, p1, t1, a) == sp_add_tail(s, p2, t2, ab));
    assert(sp_add_tail(s, p2, t2, ab) == sp_add_tail(s, p3, t3, abc));
    assert(sp_add_tail(s, p3, t3, abc) == (PRes::Done { v: abc, pos: p3, tab: t3 }));
}

/// Left-associativity for the multiplicative class.
pub proof fn lemma_left_assoc_mul(
    s: Seq<u8>,
    p: int,
    tab: Tab,
    a: ExprM,
    p1: int,
    t1: Tab,
    x1: int,
    op1: Op,
    q1: int,
    b: ExprM,
    p2: int,
    t2: Tab,
    x2: int,
    op2: Op,
    q2: int,
    c: ExprM,
    p3: int,
    t3: Tab,
)
    requires
        0 <= p <= s.len(),
        sp_unary(s, p, tab) == (PRes::Done { v: a, pos: p1, tab: t1 }),
        adv(s, p, p1),
        spec_next(s, p1) == (LexStep::Tok { t: TokM { k: TokK::Op(op1), pos: x1 }, p: q1 }),
        op1 == Op::Mul || op1 == Op::Div,
        adv(s, p1, q1),
        sp_unary(s, q1, t1) == (PRes::Done { v: b, pos: p2, tab: t2 }),
        adv(s, q1, p2),
        spec_next(s, p2) == (LexStep::Tok { t: TokM { k: TokK::Op(op2), pos: x2 }, p: q2 }),
        op2 == Op::Mul || op2 == Op::Div,
        adv(s, p2, q2),
        sp_unary(s, q2, t2) == (PRes::Done { v: c, pos: p3, tab: t3 }),
        adv(s, q2, p3),
        match spec_next(s, p3) {
            LexStep::Tok { t, p: q } => t.k != TokK::Op(Op::Mul) && t.k != TokK::Op(Op::Div),
            LexStep::End { .. } => true,
            LexStep::Fail { .. } => false,
        },
    ensures
        sp_mul(s, p, tab) == (PRes::Done {
            v: ExprM::BinOp {
                op: if op2 == Op::Mul {
                    BinOp::Mul
                } else {
                    BinOp::Div
                },
                lhs: Box::new(
                    ExprM::BinOp {
                        op: if op1 == Op::Mul {
                            BinOp::Mul
                        } else {
                            BinOp::Div
                        },
                        lhs: Box::new(a),
                        rhs: Box::new(b),
                    },
                ),
                rhs: Box::new(c),
            },
            pos: p3,
            tab: t3,
        }),
{
    let ab = ExprM::BinOp {
        op: if op1 == Op::Mul {
            BinOp::Mul
        } else {
            BinOp::Div
        },
        lhs: Box::new(a),
        rhs: Box::new(b),
    };
    let abc = ExprM::BinOp {
        op: if op2 == Op::Mul {
            BinOp::Mul
        } else {
            BinOp::Div
        },
        lhs: Box::new(ab),
        rhs: Box::new(c),
    };
    assert(sp_mul(s, p, tab) == sp_mul_tail(s, p1, t1, a));
    assert(sp_mul_tail(s, p1, t1, a) == sp_mul_tail(s, p2, t2, ab));
    assert(sp_mul_tail(s, p2, t2, ab) == sp_mul_tail(s, p3, t3, abc));
    assert(sp_mul_tail(s, p3, t3, abc) == (PRes::Done { v: abc, pos: p3, tab: t3 }));
}

/// Left-associativity for the equality class.
pub proof fn lemma_left_assoc_equality(
    s: Seq<u8>,
    p: int,
    tab: Tab,
    a: ExprM,
    p1: int,
    t1: Tab,
    x1: int,
    op1: Op,
    q1: int,
    b: ExprM,
    p2: int,
    t2: Tab,
    x2: int,
    op2: Op,
    q2: int,
    c: ExprM,
    p3: int,
    t3: Tab,
)
    requires
        0 <= p <= s.len(),
        sp_relational(s, p, tab) == (PRes::Done { v: a, pos: p1, tab: t1 }),
        adv(s, p, p1),
        spec_next(s, p1) == (LexStep::Tok { t: TokM { k: TokK::Op(op1), pos: x1 }, p: q1 }),
        op1 == Op::Eq || op1 == Op::Neq,
        adv(s, p1, q1),
        sp_relational(s, q1, t1) == (PRes::Done { v: b, pos: p2, tab: t2 }),
        adv(s, q1, p2),
        spec_next(s, p2) == (LexStep::Tok { t: TokM { k: TokK::Op(op2), pos: x2 }, p: q2 }),
        op2 == Op::Eq || op2 == Op::Neq,
        adv(s, p2, q2),
        sp_relational(s, q2, t2) == (PRes::Done { v: c, pos: p3, tab: t3 }),
        adv(s, q2, p3),
        match spec_next(s, p3) {
            LexStep::Tok { t, p: q } => t.k != TokK::Op(Op::Eq) && t.k != TokK::Op(Op::Neq),
            LexStep::End { .. } => true,
            LexStep::Fail { .. } => false,
        },
    ensures
        sp_equality(s, p, tab) == (PRes::Done {
            v: ExprM::BinOp {
                op: if op2 == Op::Eq {
                    BinOp::Eq
                } else {
                    BinOp::Neq
                },
                lhs: Box::new(
                    ExprM::BinOp {
                        op: if op1 == Op::Eq {
                            BinOp::Eq
                        } else {
                            BinOp::Neq
                        },
                        lhs: Box::new(a),
                        rhs: Box::new(b),
                    },
                ),
                rhs: Box::new(c),
            },
            pos: p3,
            tab: t3,
        }),
{
    let ab = ExprM::BinOp {
        op: if op1 == Op::Eq {
            BinOp::Eq
        } else {
            BinOp::Neq
        },
        lhs: Box::new(a),
        rhs: Box::new(b),
    };
    let abc = ExprM::BinOp {
        op: if op2 == Op::Eq {
            BinOp::Eq
        } else {
            BinOp::Neq
        },
        lhs: Box::new(ab),
        rhs: Box::new(c),
    };
    assert(sp_equality(s, p, tab) == sp_eq_tail(s, p1, t1, a));
    assert(sp_eq_tail(s, p1, t1, a) == sp_eq_tail(s, p2, t2, ab));
    assert(sp_eq_tail(s, p2, t2, ab) == sp_eq_tail(s, p3, t3, abc));
    assert(sp_eq_tail(s, p3, t3, abc) == (PRes::Done { v: abc, pos: p3, tab: t3 }));
}

/// `>` and `>=` reduction: one relational step on any operator parses to
/// `rel_node`, and for `>` and `>=` that node is exactly the `<` or `<=`
/// node with the operands swapped — parsing `a > b` builds the tree of
/// `b < a`.  The tree's operator type has no variant for `>` or `>=` at
/// all.
pub proof fn lemma_gt_gte_reduction(
    s: Seq<u8>,
    p: int,
    tab: Tab,
    a: ExprM,
    p1: int,
    t1: Tab,
    x1: int,
    op: Op,
    q1: int,
    b: ExprM,
    p2: int,
    t2: Tab,
)
    requires
        0 <= p <= s.len(),
        sp_add(s, p, tab) == (PRes::Done { v: a, pos: p1, tab: t1 }),
        adv(s, p, p1),
        spec_next(s, p1) == (LexStep::Tok { t: TokM { k: TokK::Op(op), pos: x1 }, p: q1 }),
        op == Op::Lt || op == Op::Lte || op == Op::Gt || op == Op::Gte,
        adv(s, p1, q1),
        sp_add(s, q1, t1) == (PRes::Done { v: b, pos: p2, tab: t2 }),
        adv(s, q1, p2),
        match spec_next(s, p2) {
            LexStep::Tok { t, p: q } => !rel_op(t.k),
            LexStep::End { .. } => true,
            LexStep::Fail { .. } => false,
        },
    ensures
        sp_relational(s, p, tab) == (PRes::Done {
            v: rel_node(TokK::Op(op), a, b),
            pos: p2,
            tab: t2,
        }),
        rel_node(TokK::Op(Op::Gt), a, b) == rel_node(TokK::Op(Op::Lt), b, a),
        rel_node(TokK::Op(Op::Gte), a, b) == rel_node(TokK::Op(Op::Lte), b, a),
{
    let node = rel_node(TokK::Op(op), a, b);
    assert(sp_relational(s, p, tab) == sp_rel_tail(s, p1, t1, a));
    assert(sp_rel_tail(s, p1, t1, a) == sp_rel_tail(s, p2, t2, node));
    assert(sp_rel_tail(s, p2, t2, node) == (PRes::Done { v: node, pos: p2, tab: t2 }));
}

/// Unary desugaring: `-x` parses as `0 - x` and `+x` as `0 + x`.
pub proof fn lemma_unary_desugaring(
    s: Seq<u8>,
    p: int,
    tab: Tab,
    op: Op,
    x1: int,
    q: int,
    x: ExprM,
    p2: int,
    t2: Tab,
)
    requires
        0 <= p <= s.len(),
        spec_next(s, p) == (LexStep::Tok { t: TokM { k: TokK::Op(op), pos: x1 }, p: q }),
        op == Op::Add || op == Op::Sub,
        adv(s, p, q),
        sp_primary(s, q, tab) == (PRes::Done { v: x, pos: p2, tab: t2 }),
    ensures
        sp_unary(s, p, tab) == (PRes::Done {
            v: ExprM::BinOp {
                op: if op == Op::Add {
                    BinOp::Add
                } else {
                    BinOp::Sub
                },
                lhs: Box::new(ExprM::Num(0)),
                rhs: Box::new(x),
            },
            pos: p2,
            tab: t2,
        }),
{
}

/// Symbol-table stability: the name first seen `i`-th lives at offset
/// `8 * i`; a reoccurring name keeps its offset and leaves the table
/// unchanged, a new name is appended and takes the next slot.
pub proof fn lemma_symbol_table_stability(tab: Tab, name: Seq<u8>)
    ensures
        sp_offset(tab, name).0 == 8 * tab_idx(tab, name),
        tab.contains(name) ==> sp_offset(tab, name).1 == tab && tab_idx(tab, name) < tab.len()
            && tab[tab_idx(tab, name)] == name,
        !tab.contains(name) ==> sp_offset(tab, name).1 == tab.push(name) && tab_idx(tab, name)
            == tab.len(),
{
    lemma_tab_idx(tab, name);
    if tab_idx(tab, name) < tab.len() {
        assert(tab.contains(name));
    } else {
        if tab.contains(name) {
            let i = choose|i: int| 0 <= i < tab.len() && tab[i] == name;
            assert(tab[i] != name);
            assert(false);
        }
    }
}

} // verus!
