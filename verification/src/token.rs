//! The token model: operators, parentheses, braces, keywords, numbers and
//! identifiers, each carrying the byte offset at which it starts.

use vstd::prelude::*;

verus! {

/// Binary and assignment operators.
#[derive(Debug, Clone, Copy, PartialEq, Eq, Structural)]
pub enum Op {
    Add,
    Sub,
    Mul,
    Div,
    Lt,
    Lte,
    Gt,
    Gte,
    Eq,
    Neq,
    Assign,
}

/// Parentheses.
#[derive(Debug, Clone, Copy, PartialEq, Eq, Structural)]
pub enum Par {
    Left,
    Right,
}

/// Braces.
#[derive(Debug, Clone, Copy, PartialEq, Eq, Structural)]
pub enum Brace {
    Left,
    Right,
}

/// Keywords, together with the separator punctuation that drives statement
/// and argument-list structure.
#[derive(Debug, Clone, Copy, PartialEq, Eq, Structural)]
pub enum Keyword {
    Return,
    If,
    Else,
    While,
    Semi,
    Comma,
}

/// What a token is, with the payload for numbers and identifiers.  An
/// identifier borrows its name from the source string.
#[derive(Debug, Clone, Copy, PartialEq, Eq)]
pub enum TokenKind<'a> {
    Op(Op),
    Par(Par),
    Brace(Brace),
    Num(usize),
    Ident(&'a [u8]),
    Keyword(Keyword),
}

/// One token: its kind and the byte offset of its first byte in the source.
#[derive(Debug, Clone, Copy, PartialEq, Eq)]
pub struct Token<'a> {
    pub kind: TokenKind<'a>,
    pub pos: usize,
}

/// The mathematical image of a `TokenKind`: identifier names become byte
/// sequences.
pub enum TokK {
    Op(Op),
    Par(Par),
    Brace(Brace),
    Num(usize),
    Ident(Seq<u8>),
    Keyword(Keyword),
}

/// The mathematical image of a `Token`.
pub struct TokM {
    pub k: TokK,
    pub pos: int,
}

impl<'a> View for TokenKind<'a> {
    type V = TokK;

    open spec fn view(&self) -> TokK {
        match *self {
            TokenKind::Op(o) => TokK::Op(o),
            TokenKind::Par(p) => TokK::Par(p),
            TokenKind::Brace(b) => TokK::Brace(b),
            TokenKind::Num(n) => TokK::Num(n),
            TokenKind::Ident(s) => TokK::Ident(s@),
            TokenKind::Keyword(k) => TokK::Keyword(k),
        }
    }
}

impl<'a> View for Token<'a> {
    type V = TokM;

    open spec fn view(&self) -> TokM {
        TokM { k: self.kind@, pos: self.pos as int }
    }
}

impl<'a> Token<'a> {
    pub fn new(kind: TokenKind<'a>, pos: usize) -> (t: Token<'a>)
        ensures
            t.kind == kind,
            t.pos == pos,
    {
        Token { kind, pos }
    }

    /// The operator carried by this token, if it is an operator token.
    pub fn op(&self) -> (r: Option<Op>)
        ensures
            r == (match self.kind {
                TokenKind::Op(o) => Some(o),
                _ => None::<Op>,
            }),
    {
        match self.kind {
            TokenKind::Op(o) => Some(o),
            _ => None,
        }
    }

    /// The operator, or the token's own position as the error.
    pub fn expect_op(&self) -> (r: Result<Op, usize>)
        ensures
            r == (match self.kind {
                TokenKind::Op(o) => Ok::<Op, usize>(o),
                _ => Err::<Op, usize>(self.pos),
            }),
    {
        match self.kind {
            TokenKind::Op(o) => Ok(o),
            _ => Err(self.pos),
        }
    }

    pub fn par(&self) -> (r: Option<Par>)
        ensures
            r == (match self.kind {
                TokenKind::Par(p) => Some(p),
                _ => None::<Par>,
            }),
    {
        match self.kind {
            TokenKind::Par(p) => Some(p),
            _ => None,
        }
    }

    pub fn expect_par(&self) -> (r: Result<Par, usize>)
        ensures
            r == (match self.kind {
                TokenKind::Par(p) => Ok::<Par, usize>(p),
                _ => Err::<Par, usize>(self.pos),
            }),
    {
        match self.kind {
            TokenKind::Par(p) => Ok(p),
            _ => Err(self.pos),
        }
    }

    pub fn num(&self) -> (r: Option<usize>)
        ensures
            r == (match self.kind {
                TokenKind::Num(n) => Some(n),
                _ => None::<usize>,
            }),
    {
        match self.kind {
            TokenKind::Num(n) => Some(n),
            _ => None,
        }
    }

    pub fn expect_num(&self) -> (r: Result<usize, usize>)
        ensures
            r == (match self.kind {
                TokenKind::Num(n) => Ok::<usize, usize>(n),
                _ => Err::<usize, usize>(self.pos),
            }),
    {
        match self.kind {
            TokenKind::Num(n) => Ok(n),
            _ => Err(self.pos),
        }
    }

    pub fn ident(&self) -> (r: Option<&'a [u8]>)
        ensures
            r == (match self.kind {
                TokenKind::Ident(s) => Some(s),
                _ => None::<&'a [u8]>,
            }),
    {
        match self.kind {
            TokenKind::Ident(s) => Some(s),
            _ => None,
        }
    }

    pub fn expect_ident(&self) -> (r: Result<&'a [u8], usize>)
        ensures
            r == (match self.kind {
                TokenKind::Ident(s) => Ok::<&'a [u8], usize>(s),
                _ => Err::<&'a [u8], usize>(self.pos),
            }),
    {
        match self.kind {
            TokenKind::Ident(s) => Ok(s),
            _ => Err(self.pos),
        }
    }

    pub fn keyword(&self) -> (r: Option<Keyword>)
        ensures
            r == (match self.kind {
                TokenKind::Keyword(k) => Some(k),
                _ => None::<Keyword>,
            }),
    {
        match self.kind {
            TokenKind::Keyword(k) => Some(k),
            _ => None,
        }
    }

    pub fn expect_keyword(&self) -> (r: Result<Keyword, usize>)
        ensures
            r == (match self.kind {
                TokenKind::Keyword(k) => Ok::<Keyword, usize>(k),
                _ => Err::<Keyword, usize>(self.pos),
            }),
    {
        match self.kind {
            TokenKind::Keyword(k) => Ok(k),
            _ => Err(self.pos),
        }
    }

    /// Checks that this token has exactly the given payload-free kind,
    /// reporting the token's position otherwise.
    pub fn expect(&self, kind: TokenKind<'a>) -> (r: Result<(), usize>)
        requires
            !(kind is Num),
            !(kind is Ident),
        ensures
            r == (if self.kind@ == kind@ {
                Ok::<(), usize>(())
            } else {
                Err::<(), usize>(self.pos)
            }),
    {
        let same = match (self.kind, kind) {
            (TokenKind::Op(a), TokenKind::Op(b)) => a == b,
            (TokenKind::Par(a), TokenKind::Par(b)) => a == b,
            (TokenKind::Brace(a), TokenKind::Brace(b)) => a == b,
            (TokenKind::Keyword(a), TokenKind::Keyword(b)) => a == b,
            _ => false,
        };
        if same {
            Ok(())
        } else {
            Err(self.pos)
        }
    }
}

/// A position in the source: the whole source and a byte offset into it.
#[derive(Debug, Clone, Copy, PartialEq, Eq)]
pub struct Pos<'a> {
    pub origin: &'a [u8],
    pub pos: usize,
}

/// `n` spaces.
pub open spec fn spaces(n: int) -> Seq<u8>
    decreases n,
        when n >= 0
{
    if n <= 0 {
        Seq::<u8>::empty()
    } else {
        spaces(n - 1) + seq![32u8]
    }
}

/// The two-line caret diagnostic: the source, then spaces up to the
/// offset, a caret and the message.
pub open spec fn caret_msg(origin: Seq<u8>, pos: int, msg: Seq<u8>) -> Seq<u8> {
    origin + seq![10u8] + spaces(pos) + seq![94u8, 32u8] + msg
}

impl<'a> Pos<'a> {
    pub fn new(origin: &'a [u8]) -> (p: Pos<'a>)
        ensures
            p.origin == origin,
            p.pos == 0,
    {
        Pos { origin, pos: 0 }
    }

    /// Renders the caret diagnostic for a message at this position.
    #[verifier::loop_isolation(false)]
    pub fn display(&self, msg: &[u8]) -> (r: Vec<u8>)
        requires
            self.pos <= self.origin@.len(),
        ensures
            r@ == caret_msg(self.origin@, self.pos as int, msg@),
    {
        let mut out: Vec<u8> = Vec::new();
        crate::emit::push_bytes(&mut out, self.origin);
        out.push(10);
        let ghost head = out@;
        let mut i: usize = 0;
        while i < self.pos
            invariant
                i <= self.pos,
                out@ == head + spaces(i as int),
            decreases self.pos - i,
        {
            out.push(32);
            proof {
                assert(out@ =~= head + spaces(i + 1));
            }
            i = i + 1;
        }
        out.push(94);
        out.push(32);
        crate::emit::push_bytes(&mut out, msg);
        proof {
            assert(out@ =~= caret_msg(self.origin@, self.pos as int, msg@));
        }
        out
    }
}

} // verus!
