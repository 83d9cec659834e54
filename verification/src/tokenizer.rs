//! The tokenizer: a lazy, copyable cursor over the source bytes.
//!
//! `spec_next` is the mathematical lexer: it says, for any source and byte
//! position, what the next token is, where it starts, and where the cursor
//! lands.  The executable `next` is proven to return exactly that.

use vstd::prelude::*;

use crate::token::{Brace, Keyword, Op, Par, TokM, TokK, Token, TokenKind};

verus! {

/// Whitespace: space, tab, line feed, vertical tab, form feed, carriage
/// return.
pub open spec fn is_ws_b(b: u8) -> bool {
    b == 32 || (9 <= b && b <= 13)
}

/// Decimal digit.
pub open spec fn is_digit_b(b: u8) -> bool {
    48 <= b && b <= 57
}

/// Bytes that may form an identifier or keyword: letters, digits and
/// underscore.
pub open spec fn is_word_b(b: u8) -> bool {
    (97u8 <= b && b <= 122u8) || (65u8 <= b && b <= 90u8) || is_digit_b(b) || b == 95u8
}

/// Index of the first non-whitespace byte at or after `p`.
pub open spec fn skip_ws(s: Seq<u8>, p: int) -> int
    decreases s.len() - p,
        when 0 <= p <= s.len()
{
    if p == s.len() || !is_ws_b(s[p]) {
        p
    } else {
        skip_ws(s, p + 1)
    }
}

/// End of the maximal digit run starting at `p`.
pub open spec fn digit_end(s: Seq<u8>, p: int) -> int
    decreases s.len() - p,
        when 0 <= p <= s.len()
{
    if p == s.len() || !is_digit_b(s[p]) {
        p
    } else {
        digit_end(s, p + 1)
    }
}

/// End of the maximal word-byte run starting at `p`.
pub open spec fn word_end(s: Seq<u8>, p: int) -> int
    decreases s.len() - p,
        when 0 <= p <= s.len()
{
    if p == s.len() || !is_word_b(s[p]) {
        p
    } else {
        word_end(s, p + 1)
    }
}

/// Value of the decimal digit run `s[p..q]`.
pub open spec fn digits_val(s: Seq<u8>, p: int, q: int) -> int
    decreases q - p,
        when p <= q
{
    if q <= p {
        0
    } else {
        digits_val(s, p, q - 1) * 10 + (s[q - 1] - 48)
    }
}

/// The two-byte operators, tried before anything else.
pub open spec fn two_char_kind(b0: u8, b1: u8) -> Option<TokK> {
    if b0 == 60u8 && b1 == 61u8 {
        Some(TokK::Op(Op::Lte))
    } else if b0 == 62u8 && b1 == 61u8 {
        Some(TokK::Op(Op::Gte))
    } else if b0 == 61u8 && b1 == 61u8 {
        Some(TokK::Op(Op::Eq))
    } else if b0 == 33u8 && b1 == 61u8 {
        Some(TokK::Op(Op::Neq))
    } else {
        None
    }
}

/// The single-byte tokens.
pub open spec fn one_char_kind(b: u8) -> Option<TokK> {
    if b == 43u8 {
        Some(TokK::Op(Op::Add))
    } else if b == 45u8 {
        Some(TokK::Op(Op::Sub))
    } else if b == 42u8 {
        Some(TokK::Op(Op::Mul))
    } else if b == 47u8 {
        Some(TokK::Op(Op::Div))
    } else if b == 60u8 {
        Some(TokK::Op(Op::Lt))
    } else if b == 62u8 {
        Some(TokK::Op(Op::Gt))
    } else if b == 61u8 {
        Some(TokK::Op(Op::Assign))
    } else if b == 40u8 {
        Some(TokK::Par(Par::Left))
    } else if b == 41u8 {
        Some(TokK::Par(Par::Right))
    } else if b == 123u8 {
        Some(TokK::Brace(Brace::Left))
    } else if b == 125u8 {
        Some(TokK::Brace(Brace::Right))
    } else if b == 59u8 {
        Some(TokK::Keyword(Keyword::Semi))
    } else if b == 44u8 {
        Some(TokK::Keyword(Keyword::Comma))
    } else {
        None
    }
}

pub open spec fn kw_return() -> Seq<u8> {
    seq![114u8, 101u8, 116u8, 117u8, 114u8, 110u8]
}

pub open spec fn kw_if() -> Seq<u8> {
    seq![105u8, 102u8]
}

pub open spec fn kw_else() -> Seq<u8> {
    seq![101u8, 108u8, 115u8, 101u8]
}

pub open spec fn kw_while() -> Seq<u8> {
    seq![119u8, 104u8, 105u8, 108u8, 101u8]
}

/// A word is a keyword exactly when it matches one of the four reserved
/// words; otherwise it is an identifier carrying its own bytes.
pub open spec fn word_kind(w: Seq<u8>) -> TokK {
    if w == kw_return() {
        TokK::Keyword(Keyword::Return)
    } else if w == kw_if() {
        TokK::Keyword(Keyword::If)
    } else if w == kw_else() {
        TokK::Keyword(Keyword::Else)
    } else if w == kw_while() {
        TokK::Keyword(Keyword::While)
    } else {
        TokK::Ident(w)
    }
}

/// One step of the lexer: the next token, the end of the input, or a
/// lexical failure, each with the byte position the cursor reaches.
pub enum LexStep {
    End { p: int },
    Tok { t: TokM, p: int },
    Fail { p: int },
}

/// Word branch of the lexer: a non-empty run of word bytes is a keyword or
/// an identifier; anything else cannot be tokenized.
pub open spec fn lex_word(s: Seq<u8>, q: int) -> LexStep {
    let e = word_end(s, q);
    if e == q {
        LexStep::Fail { p: q }
    } else {
        LexStep::Tok { t: TokM { k: word_kind(s.subrange(q, e)), pos: q }, p: e }
    }
}

/// Number branch: a maximal digit run whose value must fit in `usize`.
pub open spec fn lex_digit_or_word(s: Seq<u8>, q: int) -> LexStep {
    if is_digit_b(s[q]) {
        let e = digit_end(s, q);
        let v = digits_val(s, q, e);
        if v <= usize::MAX as int {
            LexStep::Tok { t: TokM { k: TokK::Num(v as usize), pos: q }, p: e }
        } else {
            LexStep::Fail { p: q }
        }
    } else {
        lex_word(s, q)
    }
}

pub open spec fn lex_one(s: Seq<u8>, q: int) -> LexStep {
    match one_char_kind(s[q]) {
        Some(k) => LexStep::Tok { t: TokM { k: k, pos: q }, p: q + 1 },
        None => lex_digit_or_word(s, q),
    }
}

pub open spec fn lex_at(s: Seq<u8>, q: int) -> LexStep {
    if q + 1 < s.len() {
        match two_char_kind(s[q], s[q + 1]) {
            Some(k) => LexStep::Tok { t: TokM { k: k, pos: q }, p: q + 2 },
            None => lex_one(s, q),
        }
    } else {
        lex_one(s, q)
    }
}

/// The mathematical lexer: skip whitespace, then in order try the two-byte
/// operators, the single-byte tokens, a number, and a word.
pub open spec fn spec_next(s: Seq<u8>, p: int) -> LexStep {
    let q = skip_ws(s, p);
    if q == s.len() {
        LexStep::End { p: q }
    } else {
        lex_at(s, q)
    }
}

pub proof fn lemma_skip_ws(s: Seq<u8>, p: int)
    requires
        0 <= p <= s.len(),
    ensures
        p <= skip_ws(s, p) <= s.len(),
        skip_ws(s, p) < s.len() ==> !is_ws_b(s[skip_ws(s, p)]),
    decreases s.len() - p,
{
    if p < s.len() && is_ws_b(s[p]) {
        lemma_skip_ws(s, p + 1);
    }
}

pub proof fn lemma_digit_end(s: Seq<u8>, p: int)
    requires
        0 <= p <= s.len(),
    ensures
        p <= digit_end(s, p) <= s.len(),
        forall|j: int| p <= j < digit_end(s, p) ==> is_digit_b(s[j]),
    decreases s.len() - p,
{
    if p < s.len() && is_digit_b(s[p]) {
        lemma_digit_end(s, p + 1);
    }
}

pub proof fn lemma_word_end(s: Seq<u8>, p: int)
    requires
        0 <= p <= s.len(),
    ensures
        p <= word_end(s, p) <= s.len(),
        forall|j: int| p <= j < word_end(s, p) ==> is_word_b(s[j]),
    decreases s.len() - p,
{
    if p < s.len() && is_word_b(s[p]) {
        lemma_word_end(s, p + 1);
    }
}

pub proof fn lemma_digits_val_nonneg(s: Seq<u8>, p: int, q: int)
    requires
        p <= q,
        forall|j: int| p <= j < q ==> is_digit_b(s[j]),
    ensures
        digits_val(s, p, q) >= 0,
    decreases q - p,
{
    if q > p {
        lemma_digits_val_nonneg(s, p, q - 1);
    }
}

/// Reading further digits never shrinks the value.
pub proof fn lemma_digits_val_monotone(s: Seq<u8>, p: int, q: int, r: int)
    requires
        p <= q <= r,
        forall|j: int| p <= j < r ==> is_digit_b(s[j]),
    ensures
        digits_val(s, p, q) <= digits_val(s, p, r),
    decreases r - q,
{
    if q < r {
        lemma_digits_val_monotone(s, p, q, r - 1);
        lemma_digits_val_nonneg(s, p, r - 1);
    }
}

/// Positions reported by the lexer stay inside the source, and a token
/// starts at or after the cursor and ends before the new cursor position.
pub proof fn lemma_spec_next_bounds(s: Seq<u8>, p: int)
    requires
        0 <= p <= s.len(),
    ensures
        match spec_next(s, p) {
            LexStep::End { p: q } => p <= q == s.len(),
            LexStep::Tok { t, p: q } => p <= t.pos < q <= s.len(),
            LexStep::Fail { p: e } => p <= e < s.len(),
        },
{
    lemma_skip_ws(s, p);
    let q = skip_ws(s, p);
    if q < s.len() {
        lemma_digit_end(s, q);
        lemma_word_end(s, q);
        if is_digit_b(s[q]) {
            assert(digit_end(s, q) == digit_end(s, q + 1));
            lemma_digit_end(s, q + 1);
        }
    }
}

/// Runtime test for whitespace.
pub fn is_ws_byte(b: u8) -> (r: bool)
    ensures
        r == is_ws_b(b),
{
    b == 32 || (9 <= b && b <= 13)
}

/// Runtime test for a decimal digit.
pub fn is_digit_byte(b: u8) -> (r: bool)
    ensures
        r == is_digit_b(b),
{
    48u8 <= b && b <= 57u8
}

/// Runtime test for an identifier byte.
pub fn is_word_byte(b: u8) -> (r: bool)
    ensures
        r == is_word_b(b),
{
    (97u8 <= b && b <= 122u8) || (65u8 <= b && b <= 90u8) || (48u8 <= b && b <= 57u8) || b == 95u8
}

/// The token stream: the whole source and a cursor.  Copying the stream and
/// advancing the copy is how lookahead is done.
#[derive(Debug, Clone, Copy)]
pub struct TokenStream<'a> {
    pub src: &'a [u8],
    pub pos: usize,
}

/// A fresh stream at the start of the source.
pub fn tokenize<'a>(src: &'a [u8]) -> (ts: TokenStream<'a>)
    ensures
        ts.src == src,
        ts.pos == 0,
{
    TokenStream { src, pos: 0 }
}

impl<'a> TokenStream<'a> {
    /// The cursor never passes the end of the source.
    pub open spec fn wf(self) -> bool {
        self.pos <= self.src@.len()
    }

    /// What `next` must do to this stream: land exactly where `spec_next`
    /// says and hand back exactly the token it names.
    pub open spec fn next_ensures(
        pre: TokenStream<'a>,
        post: TokenStream<'a>,
        r: Result<Option<Token<'a>>, usize>,
    ) -> bool {
        post.src == pre.src && post.wf() && match spec_next(pre.src@, pre.pos as int) {
            LexStep::End { p } => r == Ok::<Option<Token<'a>>, usize>(None) && post.pos as int
                == p,
            LexStep::Tok { t, p } => match r {
                Ok(Some(tok)) => tok@ == t && post.pos as int == p && pre.pos <= tok.pos
                    && (tok.pos as int) < p,
                _ => false,
            },
            LexStep::Fail { p } => match r {
                Err(e) => e as int == p && pre.pos <= post.pos,
                _ => false,
            },
        }
    }

    /// Advance past the next token and return it; `Ok(None)` at the end of
    /// the input, `Err(pos)` on a lexical failure at byte `pos`.
    #[verifier::loop_isolation(false)]
    pub fn next(&mut self) -> (r: Result<Option<Token<'a>>, usize>)
        requires
            old(self).wf(),
        ensures
            Self::next_ensures(*old(self), *final(self), r),
    {
        let ghost s = self.src@;
        let ghost p0 = self.pos as int;
        let src: &'a [u8] = self.src;
        let n: usize = src.len();

        // Skip leading whitespace.
        while self.pos < n && is_ws_byte(src[self.pos])
            invariant
                self.src == src,
                src@ == s,
                n == s.len(),
                0 <= p0 <= self.pos <= n,
                skip_ws(s, p0) == skip_ws(s, self.pos as int),
            decreases n - self.pos,
        {
            self.pos = self.pos + 1;
        }
        let q: usize = self.pos;
        assert(q as int == skip_ws(s, p0));

        if q == n {
            return Ok(None);
        }

        // Two-byte operators.
        if q + 1 < n {
            let b0 = src[q];
            let b1 = src[q + 1];
            let two: Option<TokenKind<'a>> = if b0 == 60u8 && b1 == 61u8 {
                Some(TokenKind::Op(Op::Lte))
            } else if b0 == 62u8 && b1 == 61u8 {
                Some(TokenKind::Op(Op::Gte))
            } else if b0 == 61u8 && b1 == 61u8 {
                Some(TokenKind::Op(Op::Eq))
            } else if b0 == 33u8 && b1 == 61u8 {
                Some(TokenKind::Op(Op::Neq))
            } else {
                None
            };
            if let Some(kind) = two {
                self.pos = q + 2;
                return Ok(Some(Token { kind, pos: q }));
            }
        }

        // Single-byte tokens.
        let b = src[q];
        let one: Option<TokenKind<'a>> = if b == 43u8 {
            Some(TokenKind::Op(Op::Add))
        } else if b == 45u8 {
            Some(TokenKind::Op(Op::Sub))
        } else if b == 42u8 {
            Some(TokenKind::Op(Op::Mul))
        } else if b == 47u8 {
            Some(TokenKind::Op(Op::Div))
        } else if b == 60u8 {
            Some(TokenKind::Op(Op::Lt))
        } else if b == 62u8 {
            Some(TokenKind::Op(Op::Gt))
        } else if b == 61u8 {
            Some(TokenKind::Op(Op::Assign))
        } else if b == 40u8 {
            Some(TokenKind::Par(Par::Left))
        } else if b == 41u8 {
            Some(TokenKind::Par(Par::Right))
        } else if b == 123u8 {
            Some(TokenKind::Brace(Brace::Left))
        } else if b == 125u8 {
            Some(TokenKind::Brace(Brace::Right))
        } else if b == 59u8 {
            Some(TokenKind::Keyword(Keyword::Semi))
        } else if b == 44u8 {
            Some(TokenKind::Keyword(Keyword::Comma))
        } else {
            None
        };
        if let Some(kind) = one {
            self.pos = q + 1;
            return Ok(Some(Token { kind, pos: q }));
        }

        // A number: a maximal digit run, which must fit in usize.
        if 48u8 <= b && b <= 57u8 {
            proof {
                lemma_digit_end(s, q as int);
            }
            let ghost e = digit_end(s, q as int);
            let mut i: usize = q;
            let mut acc: usize = 0;
            while i < n && is_digit_byte(src[i])
                invariant
                    src@ == s,
                    n == s.len(),
                    q <= i <= n,
                    digit_end(s, i as int) == e,
                    q as int <= e <= n,
                    forall|j: int| q <= j < e ==> is_digit_b(s[j]),
                    acc == digits_val(s, q as int, i as int),
                decreases n - i,
            {
                let d: usize = (src[i] - 48) as usize;
                if acc > (usize::MAX - d) / 10 {
                    // The run's value exceeds usize::MAX: lexical failure.
                    proof {
                        assert(acc * 10 + d > usize::MAX) by (nonlinear_arith)
                            requires
                                acc > (usize::MAX - d) / 10,
                                d <= 9,
                        ;
                        assert(digit_end(s, i as int) == digit_end(s, i as int + 1));
                        lemma_digit_end(s, i as int + 1);
                        assert(digits_val(s, q as int, i + 1) == acc * 10 + d);
                        lemma_digits_val_monotone(s, q as int, i + 1, e);
                        assert(digits_val(s, q as int, e) > usize::MAX as int);
                    }
                    return Err(q);
                }
                proof {
                    assert(acc * 10 + d <= usize::MAX) by (nonlinear_arith)
                        requires
                            acc <= (usize::MAX - d) / 10,
                            d <= 9,
                    ;
                }
                acc = acc * 10 + d;
                i = i + 1;
            }
            assert(i as int == e);
            self.pos = i;
            return Ok(Some(Token { kind: TokenKind::Num(acc), pos: q }));
        }

        // A word: keyword or identifier.
        proof {
            lemma_word_end(s, q as int);
        }
        let ghost e = word_end(s, q as int);
        let mut i: usize = q;
        while i < n && is_word_byte(src[i])
            invariant
                src@ == s,
                n == s.len(),
                q <= i <= n,
                word_end(s, i as int) == e,
            decreases n - i,
        {
            i = i + 1;
        }
        assert(i as int == e);
        if i == q {
            return Err(q);
        }
        let name: &'a [u8] = &src[q..i];
        let kind: TokenKind<'a> = if i - q == 6 && src[q] == 114u8 && src[q + 1] == 101u8 && src[q
            + 2] == 116u8 && src[q + 3] == 117u8 && src[q + 4] == 114u8 && src[q + 5] == 110u8 {
            proof {
                assert(name@ =~= kw_return());
            }
            TokenKind::Keyword(Keyword::Return)
        } else if i - q == 2 && src[q] == 105u8 && src[q + 1] == 102u8 {
            proof {
                assert(name@ =~= kw_if());
            }
            TokenKind::Keyword(Keyword::If)
        } else if i - q == 4 && src[q] == 101u8 && src[q + 1] == 108u8 && src[q + 2] == 115u8 && src[q
            + 3] == 101u8 {
            proof {
                assert(name@ =~= kw_else());
            }
            TokenKind::Keyword(Keyword::Else)
        } else if i - q == 5 && src[q] == 119u8 && src[q + 1] == 104u8 && src[q + 2] == 105u8 && src[q
            + 3] == 108u8 && src[q + 4] == 101u8 {
            proof {
                assert(name@ =~= kw_while());
            }
            TokenKind::Keyword(Keyword::While)
        } else {
            proof {
                let qi = q as int;
                if name@ == kw_return() {
                    assert(kw_return().len() == 6);
                    assert(i - q == 6);
                    assert(s[qi] == name@[0] && s[qi + 1] == name@[1] && s[qi + 2] == name@[2]
                        && s[qi + 3] == name@[3] && s[qi + 4] == name@[4] && s[qi + 5] == name@[5]);
                }
                if name@ == kw_if() {
                    assert(kw_if().len() == 2);
                    assert(i - q == 2);
                    assert(s[qi] == name@[0] && s[qi + 1] == name@[1]);
                }
                if name@ == kw_else() {
                    assert(kw_else().len() == 4);
                    assert(i - q == 4);
                    assert(s[qi] == name@[0] && s[qi + 1] == name@[1] && s[qi + 2] == name@[2]
                        && s[qi + 3] == name@[3]);
                }
                if name@ == kw_while() {
                    assert(kw_while().len() == 5);
                    assert(i - q == 5);
                    assert(s[qi] == name@[0] && s[qi + 1] == name@[1] && s[qi + 2] == name@[2]
                        && s[qi + 3] == name@[3] && s[qi + 4] == name@[4]);
                }
            }
            TokenKind::Ident(name)
        };
        self.pos = i;
        Ok(Some(Token { kind, pos: q }))
    }

    /// Look at the next token without advancing: copy the stream and
    /// advance the copy.
    pub fn peek(&self) -> (r: Result<Option<Token<'a>>, usize>)
        requires
            self.wf(),
        ensures
            match spec_next(self.src@, self.pos as int) {
                LexStep::End { p } => r == Ok::<Option<Token<'a>>, usize>(None),
                LexStep::Tok { t, p } => match r {
                    Ok(Some(tok)) => tok@ == t && self.pos <= tok.pos && (tok.pos as int) < p,
                    _ => false,
                },
                LexStep::Fail { p } => match r {
                    Err(e) => e as int == p,
                    _ => false,
                },
            },
    {
        let mut copied = *self;
        copied.next()
    }
}

/// The whole token sequence of a source, when it lexes without failure.
pub open spec fn spec_tokens_from(s: Seq<u8>, p: int) -> Option<Seq<TokM>>
    decreases s.len() - p,
        when 0 <= p <= s.len()
{
    match spec_next(s, p) {
        LexStep::End { .. } => Some(Seq::<TokM>::empty()),
        LexStep::Fail { .. } => None,
        LexStep::Tok { t, p: q } => if p < q <= s.len() {
            match spec_tokens_from(s, q) {
                Some(rest) => Some(seq![t] + rest),
                None => None,
            }
        } else {
            None
        },
    }
}

/// Token positions are strictly increasing: each token starts strictly
/// after the start of the one before it.
pub proof fn lemma_token_positions_monotonic(s: Seq<u8>, p: int, toks: Seq<TokM>)
    requires
        0 <= p <= s.len(),
        spec_tokens_from(s, p) == Some(toks),
    ensures
        forall|i: int| 0 <= i < toks.len() ==> p <= #[trigger] toks[i].pos,
        forall|i: int| 0 <= i < toks.len() - 1 ==> #[trigger] toks[i].pos < toks[i + 1].pos,
    decreases s.len() - p,
{
    lemma_spec_next_bounds(s, p);
    match spec_next(s, p) {
        LexStep::Tok { t, p: q } => {
            let rest = spec_tokens_from(s, q).unwrap();
            lemma_token_positions_monotonic(s, q, rest);
            assert forall|i: int| 0 <= i < toks.len() implies p <= #[trigger] toks[i].pos by {
                if i > 0 {
                    assert(toks[i] == rest[i - 1]);
                }
            }
            assert forall|i: int| 0 <= i < toks.len() - 1 implies #[trigger] toks[i].pos < toks[i
                + 1].pos by {
                if i == 0 {
                    assert(toks[1] == rest[0]);
                    assert(t.pos < q <= rest[0].pos);
                } else {
                    assert(toks[i] == rest[i - 1] && toks[i + 1] == rest[i]);
                }
            }
        },
        _ => {},
    }
}

/// The tokenizer is deterministic: what it produces is a function of the
/// source bytes and the cursor position alone.
pub proof fn lemma_tokenizer_deterministic(s1: Seq<u8>, p1: int, s2: Seq<u8>, p2: int)
    requires
        s1 == s2,
        p1 == p2,
    ensures
        spec_next(s1, p1) == spec_next(s2, p2),
        spec_tokens_from(s1, p1) == spec_tokens_from(s2, p2),
{
}

} // verus!
