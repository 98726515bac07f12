//! The lexical grammar as a mathematical model.
//!
//! `next_token_spec` says, for any byte buffer and cursor, exactly what one
//! scanning step does: which token comes next (as byte ranges into the
//! buffer), where the cursor lands, or which fault is reported at which
//! index. The scanner is verified against this function.

use vstd::prelude::*;
use crate::error::LexErrorKind;
use crate::keyword::kw_of;
use crate::operator::op_of;
use crate::separator::sep_of;
use crate::text::{
    chars_of, digit_val, hex_val, is_digit_b, is_hex_digit_b, is_space_b, is_word_b,
    is_word_start_b,
};
use crate::token::{NumV, TokenType, TokenV, base_type, built_token};

verus! {

// ---------------------------------------------------------------------------
// Position tracking
// ---------------------------------------------------------------------------
/// The 1-indexed line after consuming the first `n` bytes.
pub open spec fn line_at(src: Seq<u8>, n: int) -> int
    decreases n,
{
    if n <= 0 {
        1
    } else {
        line_at(src, n - 1) + if src[n - 1] == 10 {
            1int
        } else {
            0int
        }
    }
}

/// The 1-indexed column after consuming the first `n` bytes.
pub open spec fn col_at(src: Seq<u8>, n: int) -> int
    decreases n,
{
    if n <= 0 {
        1
    } else if src[n - 1] == 10 {
        1
    } else {
        col_at(src, n - 1) + 1
    }
}

/// Line and column stay positive and grow by at most one per byte.
pub proof fn lemma_pos_bounds(src: Seq<u8>, n: int)
    requires
        0 <= n,
    ensures
        1 <= line_at(src, n) <= n + 1,
        1 <= col_at(src, n) <= n + 1,
    decreases n,
{
    if n > 0 {
        lemma_pos_bounds(src, n - 1);
    }
}

// ---------------------------------------------------------------------------
// Byte runs
// ---------------------------------------------------------------------------
/// The first index at or after `i` holding no decimal digit (or the end).
pub open spec fn digit_end(src: Seq<u8>, i: int) -> int
    decreases src.len() - i,
{
    if i < 0 || i >= src.len() || !is_digit_b(src[i]) {
        i
    } else {
        digit_end(src, i + 1)
    }
}

/// The first index at or after `i` holding no hexadecimal digit.
pub open spec fn hex_end(src: Seq<u8>, i: int) -> int
    decreases src.len() - i,
{
    if i < 0 || i >= src.len() || !is_hex_digit_b(src[i]) {
        i
    } else {
        hex_end(src, i + 1)
    }
}

/// The first index at or after `i` holding no identifier character.
pub open spec fn word_end(src: Seq<u8>, i: int) -> int
    decreases src.len() - i,
{
    if i < 0 || i >= src.len() || !is_word_b(src[i]) {
        i
    } else {
        word_end(src, i + 1)
    }
}

/// The first index at or after `i` holding no `=`.
pub open spec fn eq_end(src: Seq<u8>, i: int) -> int
    decreases src.len() - i,
{
    if i < 0 || i >= src.len() || src[i] != 61 {
        i
    } else {
        eq_end(src, i + 1)
    }
}

/// The first index at or after `i` holding a newline (or the end).
pub open spec fn line_rest(src: Seq<u8>, i: int) -> int
    decreases src.len() - i,
{
    if i < 0 || i >= src.len() || src[i] == 10 {
        i
    } else {
        line_rest(src, i + 1)
    }
}

pub proof fn lemma_digit_end(src: Seq<u8>, i: int)
    requires
        0 <= i <= src.len(),
    ensures
        i <= digit_end(src, i) <= src.len(),
        forall|k: int| i <= k < digit_end(src, i) ==> is_digit_b(src[k]),
        digit_end(src, i) < src.len() ==> !is_digit_b(src[digit_end(src, i)]),
    decreases src.len() - i,
{
    if i < src.len() && is_digit_b(src[i]) {
        lemma_digit_end(src, i + 1);
    }
}

pub proof fn lemma_hex_end(src: Seq<u8>, i: int)
    requires
        0 <= i <= src.len(),
    ensures
        i <= hex_end(src, i) <= src.len(),
        forall|k: int| i <= k < hex_end(src, i) ==> is_hex_digit_b(src[k]),
        hex_end(src, i) < src.len() ==> !is_hex_digit_b(src[hex_end(src, i)]),
    decreases src.len() - i,
{
    if i < src.len() && is_hex_digit_b(src[i]) {
        lemma_hex_end(src, i + 1);
    }
}

pub proof fn lemma_word_end(src: Seq<u8>, i: int)
    requires
        0 <= i <= src.len(),
    ensures
        i <= word_end(src, i) <= src.len(),
        forall|k: int| i <= k < word_end(src, i) ==> is_word_b(src[k]),
        word_end(src, i) < src.len() ==> !is_word_b(src[word_end(src, i)]),
    decreases src.len() - i,
{
    if i < src.len() && is_word_b(src[i]) {
        lemma_word_end(src, i + 1);
    }
}

pub proof fn lemma_eq_end(src: Seq<u8>, i: int)
    requires
        0 <= i <= src.len(),
    ensures
        i <= eq_end(src, i) <= src.len(),
        forall|k: int| i <= k < eq_end(src, i) ==> src[k] == 61,
        eq_end(src, i) < src.len() ==> src[eq_end(src, i)] != 61,
    decreases src.len() - i,
{
    if i < src.len() && src[i] == 61 {
        lemma_eq_end(src, i + 1);
    }
}

pub proof fn lemma_line_rest(src: Seq<u8>, i: int)
    requires
        0 <= i <= src.len(),
    ensures
        i <= line_rest(src, i) <= src.len(),
        forall|k: int| i <= k < line_rest(src, i) ==> src[k] != 10,
        line_rest(src, i) < src.len() ==> src[line_rest(src, i)] == 10,
    decreases src.len() - i,
{
    if i < src.len() && src[i] != 10 {
        lemma_line_rest(src, i + 1);
    }
}

/// `eq_end` is determined by the run: if `[i, e)` is all `=` and `e` is not,
/// the run ends at `e`.
pub proof fn lemma_eq_end_is(src: Seq<u8>, i: int, e: int)
    requires
        0 <= i <= e <= src.len(),
        forall|k: int| i <= k < e ==> src[k] == 61,
        e < src.len() ==> src[e] != 61,
    ensures
        eq_end(src, i) == e,
    decreases e - i,
{
    if i < e {
        lemma_eq_end_is(src, i + 1, e);
    }
}

/// `line_rest` is determined: if `[i, e)` holds no newline and `e` is one
/// (or the end), the line rest ends at `e`.
pub proof fn lemma_line_rest_is(src: Seq<u8>, i: int, e: int)
    requires
        0 <= i <= e <= src.len(),
        forall|k: int| i <= k < e ==> src[k] != 10,
        e < src.len() ==> src[e] == 10,
    ensures
        line_rest(src, i) == e,
    decreases e - i,
{
    if i < e {
        lemma_line_rest_is(src, i + 1, e);
    }
}

// ---------------------------------------------------------------------------
// Quoted-string and long-bracket delimiters
// ---------------------------------------------------------------------------
/// Where the body of a quoted string ends: at its closing delimiter, at a
/// byte the string may not contain, or nowhere before the end of input.
pub ghost enum QuoteScan {
    Closed(int),
    Bad(int),
    Missing,
}

/// Scans forward from `i` for the closing delimiter `d`; a newline, carriage
/// return or NUL byte before it is a fault.
pub open spec fn quote_end(src: Seq<u8>, i: int, d: u8) -> QuoteScan
    decreases src.len() - i,
{
    if i < 0 || i >= src.len() {
        QuoteScan::Missing
    } else if src[i] == d {
        QuoteScan::Closed(i)
    } else if src[i] == 10 || src[i] == 13 || src[i] == 0 {
        QuoteScan::Bad(i)
    } else {
        quote_end(src, i + 1, d)
    }
}

pub proof fn lemma_quote_end(src: Seq<u8>, i: int, d: u8)
    requires
        0 <= i <= src.len(),
    ensures
        match quote_end(src, i, d) {
            QuoteScan::Closed(c) => i <= c < src.len() && src[c] == d,
            QuoteScan::Bad(j) => i <= j < src.len() && (src[j] == 10 || src[j] == 13 || src[j]
                == 0),
            QuoteScan::Missing => true,
        },
    decreases src.len() - i,
{
    if i < src.len() && src[i] != d && src[i] != 10 && src[i] != 13 && src[i] != 0 {
        lemma_quote_end(src, i + 1, d);
    }
}

/// True when a closing long-bracket of level `n` (`]` `=`*n `]`) stands at `i`.
pub open spec fn long_close_at(src: Seq<u8>, i: int, n: int) -> bool {
    &&& 0 <= i
    &&& 0 <= n
    &&& i + n + 2 <= src.len()
    &&& src[i] == 93
    &&& src[i + n + 1] == 93
    &&& forall|k: int| i < k < i + n + 1 ==> src[k] == 61
}

/// The first index at or after `i` where a closing long-bracket of level `n`
/// stands, if any.
pub open spec fn long_close(src: Seq<u8>, i: int, n: int) -> Option<int>
    decreases src.len() - i,
{
    if i < 0 || i >= src.len() {
        None
    } else if long_close_at(src, i, n) {
        Some(i)
    } else {
        long_close(src, i + 1, n)
    }
}

pub proof fn lemma_long_close(src: Seq<u8>, i: int, n: int)
    requires
        0 <= i <= src.len(),
    ensures
        match long_close(src, i, n) {
            Some(c) => i <= c && long_close_at(src, c, n) && forall|j: int|
                i <= j < c ==> !long_close_at(src, j, n),
            None => forall|j: int| i <= j ==> !long_close_at(src, j, n),
        },
    decreases src.len() - i,
{
    if i < src.len() && !long_close_at(src, i, n) {
        lemma_long_close(src, i + 1, n);
    }
    if i >= src.len() {
        assert forall|j: int| i <= j implies !long_close_at(src, j, n) by {
            if 0 <= n {
                assert(j + n + 2 > src.len());
            }
        }
    }
}

/// `quote_end` is determined: if nothing before `c` closes or faults the
/// string and `c` holds the delimiter, the string closes at `c`.
pub proof fn lemma_quote_end_closed(src: Seq<u8>, i: int, d: u8, c: int)
    requires
        0 <= i <= c < src.len(),
        src[c] == d,
        forall|k: int| i <= k < c ==> src[k] != d && src[k] != 10 && src[k] != 13 && src[k] != 0,
    ensures
        quote_end(src, i, d) == QuoteScan::Closed(c),
    decreases c - i,
{
    if i < c {
        lemma_quote_end_closed(src, i + 1, d, c);
    }
}

/// `long_close` is determined: if no closing long-bracket of level `n`
/// stands in `[i, c)` and one stands at `c`, the first is at `c`.
pub proof fn lemma_long_close_is(src: Seq<u8>, i: int, n: int, c: int)
    requires
        0 <= i <= c,
        long_close_at(src, c, n),
        forall|j: int| i <= j < c ==> !long_close_at(src, j, n),
    ensures
        long_close(src, i, n) == Some(c),
    decreases c - i,
{
    if i < c {
        lemma_long_close_is(src, i + 1, n, c);
    }
}

// ---------------------------------------------------------------------------
// One scanning step
// ---------------------------------------------------------------------------
/// A token, described as byte ranges into the source buffer: its full lexeme
/// is `[start, end)`; a string token's value is `[vstart, vend)`; a numeric
/// token records the ranges of its digit runs and the exponent's sign.
pub ghost enum SpecTok {
    Fixed { start: int, end: int },
    Word { start: int, end: int },
    Str { start: int, end: int, vstart: int, vend: int },
    Num {
        start: int,
        end: int,
        hex: bool,
        int_start: int,
        int_end: int,
        frac_start: int,
        frac_end: int,
        exp_neg: bool,
        exp_start: int,
        exp_end: int,
    },
}

/// The outcome of one scanning step: a token and the cursor after it, end of
/// input, or a fault with its kind, its index, and the range of the partial
/// lexeme accumulated so far.
pub ghost enum Scanned {
    Tok(SpecTok, int),
    End,
    Fail { kind: LexErrorKind, at: int, pstart: int, pend: int },
}

/// What scanning a numeric literal at `i` (a digit) yields.
pub open spec fn num_scan(src: Seq<u8>, i: int) -> Scanned {
    let len = src.len() as int;
    if i + 1 < len && src[i] == 48 && (src[i + 1] == 120 || src[i + 1] == 88) {
        let he = hex_end(src, i + 2);
        Scanned::Tok(
            SpecTok::Num {
                start: i,
                end: he,
                hex: true,
                int_start: i + 2,
                int_end: he,
                frac_start: he,
                frac_end: he,
                exp_neg: false,
                exp_start: he,
                exp_end: he,
            },
            he,
        )
    } else {
        let ie = digit_end(src, i);
        let dot = ie < len && src[ie] == 46;
        let fs = if dot {
            ie + 1
        } else {
            ie
        };
        let fe = if dot {
            digit_end(src, ie + 1)
        } else {
            ie
        };
        if fe < len && (src[fe] == 101 || src[fe] == 69) {
            let sgn = fe + 1 < len && src[fe + 1] == 45;
            let es = if sgn {
                fe + 2
            } else {
                fe + 1
            };
            let ee = digit_end(src, es);
            if ee == es {
                Scanned::Fail { kind: LexErrorKind::NumericDecodeMismatch, at: es, pstart: i, pend: es }
            } else {
                Scanned::Tok(
                    SpecTok::Num {
                        start: i,
                        end: ee,
                        hex: false,
                        int_start: i,
                        int_end: ie,
                        frac_start: fs,
                        frac_end: fe,
                        exp_neg: sgn,
                        exp_start: es,
                        exp_end: ee,
                    },
                    ee,
                )
            }
        } else {
            Scanned::Tok(
                SpecTok::Num {
                    start: i,
                    end: fe,
                    hex: false,
                    int_start: i,
                    int_end: ie,
                    frac_start: fs,
                    frac_end: fe,
                    exp_neg: false,
                    exp_start: fe,
                    exp_end: fe,
                },
                fe,
            )
        }
    }
}

/// What scanning a long bracketed string whose `[` stands at `i` yields.
pub open spec fn long_string_scan(src: Seq<u8>, i: int) -> Scanned {
    let len = src.len() as int;
    let ne = eq_end(src, i + 1);
    let n = ne - (i + 1);
    if ne < len && src[ne] == 91 {
        match long_close(src, ne + 1, n) {
            Some(c) => Scanned::Tok(
                SpecTok::Str { start: i, end: c + n + 2, vstart: ne + 1, vend: c },
                c + n + 2,
            ),
            None => Scanned::Fail {
                kind: LexErrorKind::UnterminatedLongString,
                at: len,
                pstart: ne + 1,
                pend: len,
            },
        }
    } else {
        Scanned::Fail {
            kind: LexErrorKind::InvalidLongStringDelimiter,
            at: ne,
            pstart: ne,
            pend: if ne < len {
                ne + 1
            } else {
                ne
            },
        }
    }
}

/// What skipping a block comment whose `=` run starts at `i` (just after
/// `--[`) yields: the cursor after the closing long-bracket, or a fault.
pub ghost enum BlockSkip {
    To(int),
    Failed { kind: LexErrorKind, at: int, pstart: int, pend: int },
}

pub open spec fn block_comment_skip(src: Seq<u8>, i: int) -> BlockSkip {
    let len = src.len() as int;
    let ne = eq_end(src, i);
    let n = ne - i;
    if ne < len && src[ne] == 91 {
        match long_close(src, ne + 1, n) {
            Some(c) => BlockSkip::To(c + n + 2),
            None => BlockSkip::Failed {
                kind: LexErrorKind::UnterminatedComment,
                at: len,
                pstart: len,
                pend: len,
            },
        }
    } else {
        BlockSkip::Failed {
            kind: LexErrorKind::InvalidLongStringDelimiter,
            at: ne,
            pstart: ne,
            pend: if ne < len {
                ne + 1
            } else {
                ne
            },
        }
    }
}

pub proof fn lemma_block_comment_skip(src: Seq<u8>, i: int)
    requires
        0 <= i <= src.len(),
    ensures
        match block_comment_skip(src, i) {
            BlockSkip::To(j) => i < j <= src.len(),
            BlockSkip::Failed { at, pstart, pend, .. } => 0 <= pstart <= pend <= src.len() && 0
                <= at <= src.len(),
        },
{
    lemma_eq_end(src, i);
    let ne = eq_end(src, i);
    let n = ne - i;
    if ne < src.len() && src[ne] == 91 {
        lemma_long_close(src, ne + 1, n);
    }
}

/// Bytes that form a complete token by themselves in every context.
pub open spec fn is_bare_b(b: u8) -> bool {
    b == 43 || b == 42 || b == 37 || b == 94 || b == 35 || b == 38 || b == 124 || b == 44 || b
        == 59 || b == 40 || b == 41 || b == 93 || b == 123 || b == 125
}

/// One scanning step at cursor `i`: skips whitespace and comments, then
/// produces the next token, reports end of input, or fails.
pub open spec fn next_token_spec(src: Seq<u8>, i: int) -> Scanned
    decreases src.len() - i,
{
    let len = src.len() as int;
    if i < 0 || i >= len {
        Scanned::End
    } else {
        let b = src[i];
        if is_space_b(b) {
            next_token_spec(src, i + 1)
        } else if is_bare_b(b) {
            Scanned::Tok(SpecTok::Fixed { start: i, end: i + 1 }, i + 1)
        } else if b == 45 {  // '-'
            if i + 1 < len && src[i + 1] == 45 {
                if i + 2 < len && src[i + 2] == 91 {
                    match block_comment_skip(src, i + 3) {
                        BlockSkip::To(j) => {
                            proof {
                                lemma_block_comment_skip(src, i + 3);
                            }
                            next_token_spec(src, j)
                        },
                        BlockSkip::Failed { kind, at, pstart, pend } => Scanned::Fail {
                            kind,
                            at,
                            pstart,
                            pend,
                        },
                    }
                } else {
                    let e = line_rest(src, i + 2);
                    proof {
                        lemma_line_rest(src, i + 2);
                    }
                    next_token_spec(
                        src,
                        if e < len {
                            e + 1
                        } else {
                            e
                        },
                    )
                }
            } else {
                Scanned::Tok(SpecTok::Fixed { start: i, end: i + 1 }, i + 1)
            }
        } else if b == 47 {  // '/'
            if i + 1 < len && src[i + 1] == 47 {
                Scanned::Tok(SpecTok::Fixed { start: i, end: i + 2 }, i + 2)
            } else {
                Scanned::Tok(SpecTok::Fixed { start: i, end: i + 1 }, i + 1)
            }
        } else if b == 61 {  // '='
            if i + 1 < len && src[i + 1] == 61 {
                Scanned::Tok(SpecTok::Fixed { start: i, end: i + 2 }, i + 2)
            } else {
                Scanned::Tok(SpecTok::Fixed { start: i, end: i + 1 }, i + 1)
            }
        } else if b == 60 {  // '<'
            if i + 1 < len && (src[i + 1] == 61 || src[i + 1] == 60) {
                Scanned::Tok(SpecTok::Fixed { start: i, end: i + 2 }, i + 2)
            } else {
                Scanned::Tok(SpecTok::Fixed { start: i, end: i + 1 }, i + 1)
            }
        } else if b == 62 {  // '>'
            if i + 1 < len && (src[i + 1] == 61 || src[i + 1] == 62) {
                Scanned::Tok(SpecTok::Fixed { start: i, end: i + 2 }, i + 2)
            } else {
                Scanned::Tok(SpecTok::Fixed { start: i, end: i + 1 }, i + 1)
            }
        } else if b == 126 {  // '~'
            if i + 1 < len && src[i + 1] == 61 {
                Scanned::Tok(SpecTok::Fixed { start: i, end: i + 2 }, i + 2)
            } else {
                Scanned::Tok(SpecTok::Fixed { start: i, end: i + 1 }, i + 1)
            }
        } else if b == 58 {  // ':'
            if i + 1 < len && src[i + 1] == 58 {
                Scanned::Tok(SpecTok::Fixed { start: i, end: i + 2 }, i + 2)
            } else {
                Scanned::Tok(SpecTok::Fixed { start: i, end: i + 1 }, i + 1)
            }
        } else if b == 91 {  // '['
            if i + 1 < len && (src[i + 1] == 91 || src[i + 1] == 61) {
                long_string_scan(src, i)
            } else {
                Scanned::Tok(SpecTok::Fixed { start: i, end: i + 1 }, i + 1)
            }
        } else if b == 34 || b == 39 {  // '"' or '\''
            match quote_end(src, i + 1, b) {
                QuoteScan::Closed(c) => Scanned::Tok(
                    SpecTok::Str { start: i, end: c + 1, vstart: i + 1, vend: c },
                    c + 1,
                ),
                QuoteScan::Bad(j) => Scanned::Fail {
                    kind: LexErrorKind::UnterminatedString,
                    at: j,
                    pstart: i + 1,
                    pend: j,
                },
                QuoteScan::Missing => Scanned::Fail {
                    kind: LexErrorKind::UnterminatedString,
                    at: len,
                    pstart: i + 1,
                    pend: len,
                },
            }
        } else if b == 46 {  // '.'
            if i + 2 < len && src[i + 1] == 46 && src[i + 2] == 46 {
                Scanned::Tok(SpecTok::Fixed { start: i, end: i + 3 }, i + 3)
            } else if i + 1 < len && src[i + 1] == 46 {
                Scanned::Tok(SpecTok::Fixed { start: i, end: i + 2 }, i + 2)
            } else {
                Scanned::Tok(SpecTok::Fixed { start: i, end: i + 1 }, i + 1)
            }
        } else if is_digit_b(b) {
            num_scan(src, i)
        } else if is_word_start_b(b) {
            Scanned::Tok(SpecTok::Word { start: i, end: word_end(src, i) }, word_end(src, i))
        } else {
            Scanned::Fail { kind: LexErrorKind::UnexpectedCharacter, at: i, pstart: i, pend: i + 1 }
        }
    }
}

/// A scanning step that produces a token strictly advances the cursor, and
/// never past the end of the buffer.
pub proof fn lemma_scan_advances(src: Seq<u8>, i: int)
    requires
        0 <= i <= src.len(),
    ensures
        match next_token_spec(src, i) {
            Scanned::Tok(st, j) => i < j <= src.len(),
            _ => true,
        },
    decreases src.len() - i,
{
    let len = src.len() as int;
    if 0 <= i < len {
        let b = src[i];
        if is_space_b(b) {
            lemma_scan_advances(src, i + 1);
        } else if is_bare_b(b) {
        } else if b == 45 {
            if i + 1 < len && src[i + 1] == 45 {
                if i + 2 < len && src[i + 2] == 91 {
                    lemma_block_comment_skip(src, i + 3);
                    match block_comment_skip(src, i + 3) {
                        BlockSkip::To(j) => {
                            lemma_scan_advances(src, j);
                        },
                        BlockSkip::Failed { .. } => {},
                    }
                } else {
                    lemma_line_rest(src, i + 2);
                    let e = line_rest(src, i + 2);
                    lemma_scan_advances(
                        src,
                        if e < len {
                            e + 1
                        } else {
                            e
                        },
                    );
                }
            }
        } else if b == 91 {
            if i + 1 < len && (src[i + 1] == 91 || src[i + 1] == 61) {
                lemma_eq_end(src, i + 1);
                let ne = eq_end(src, i + 1);
                let n = ne - (i + 1);
                if ne < len && src[ne] == 91 {
                    lemma_long_close(src, ne + 1, n);
                }
            }
        } else if b == 34 || b == 39 {
            lemma_quote_end(src, i + 1, b);
        } else if is_digit_b(b) {
            if i + 1 < len && src[i] == 48 && (src[i + 1] == 120 || src[i + 1] == 88) {
                lemma_hex_end(src, i + 2);
            } else {
                lemma_digit_end(src, i);
                lemma_digit_end(src, i + 1);
                let ie = digit_end(src, i);
                let dot = ie < len && src[ie] == 46;
                let fe = if dot {
                    digit_end(src, ie + 1)
                } else {
                    ie
                };
                if dot {
                    lemma_digit_end(src, ie + 1);
                }
                if fe < len && (src[fe] == 101 || src[fe] == 69) {
                    let sgn = fe + 1 < len && src[fe + 1] == 45;
                    let es = if sgn {
                        fe + 2
                    } else {
                        fe + 1
                    };
                    lemma_digit_end(src, es);
                }
            }
        } else if is_word_start_b(b) {
            lemma_word_end(src, i);
            lemma_word_end(src, i + 1);
        }
    }
}

/// The characters of a token's observable text: the lexeme, or for a string
/// token its value.
pub open spec fn lexeme_of(src: Seq<u8>, st: SpecTok) -> Seq<char> {
    match st {
        SpecTok::Fixed { start, end } => chars_of(src.subrange(start, end)),
        SpecTok::Word { start, end } => chars_of(src.subrange(start, end)),
        SpecTok::Str { vstart, vend, .. } => chars_of(src.subrange(vstart, vend)),
        SpecTok::Num { start, end, .. } => chars_of(src.subrange(start, end)),
    }
}

/// The texts of all tokens from cursor `i` to the end of input, in order;
/// `None` when scanning faults before the end.
pub open spec fn spec_lexemes(src: Seq<u8>, i: int) -> Option<Seq<Seq<char>>>
    decreases src.len() - i,
{
    if i < 0 || i > src.len() {
        None
    } else {
        match next_token_spec(src, i) {
            Scanned::End => Some(Seq::empty()),
            Scanned::Fail { .. } => None,
            Scanned::Tok(st, j) => {
                proof {
                    lemma_scan_advances(src, i);
                }
                match spec_lexemes(src, j) {
                    None => None,
                    Some(rest) => Some(seq![lexeme_of(src, st)] + rest),
                }
            },
        }
    }
}

// ---------------------------------------------------------------------------
// The token a scanning step denotes
// ---------------------------------------------------------------------------
/// The digit values (base 10) of the byte range `[a, b)`.
pub open spec fn digs(src: Seq<u8>, a: int, b: int) -> Seq<u8> {
    Seq::new(
        if b >= a {
            (b - a) as nat
        } else {
            0
        },
        |k: int| digit_val(src[a + k]),
    )
}

/// The digit values (base 16) of the byte range `[a, b)`.
pub open spec fn hex_digs(src: Seq<u8>, a: int, b: int) -> Seq<u8> {
    Seq::new(
        if b >= a {
            (b - a) as nat
        } else {
            0
        },
        |k: int| hex_val(src[a + k]),
    )
}

/// The token value a scanning step's description denotes: its lexeme (or
/// string value) read from the buffer, the position of its first byte, its
/// kind, the vocabulary lookups on the lexeme, and for numbers the exact
/// digit decomposition.
pub open spec fn token_of(src: Seq<u8>, st: SpecTok) -> TokenV {
    match st {
        SpecTok::Fixed { start, end } => built_token(
            chars_of(src.subrange(start, end)),
            line_at(src, start),
            col_at(src, start),
        ),
        SpecTok::Word { start, end } => {
            let w = chars_of(src.subrange(start, end));
            TokenV {
                token_type: if base_type(w) is Some {
                    base_type(w)
                } else {
                    Some(TokenType::IDENTIFIER)
                },
                ..built_token(w, line_at(src, start), col_at(src, start))
            }
        },
        SpecTok::Str { start, end, vstart, vend } => {
            let w = chars_of(src.subrange(vstart, vend));
            TokenV {
                token_type: Some(TokenType::STRING),
                ..built_token(w, line_at(src, start), col_at(src, start))
            }
        },
        SpecTok::Num {
            start,
            end,
            hex,
            int_start,
            int_end,
            frac_start,
            frac_end,
            exp_neg,
            exp_start,
            exp_end,
        } => {
            let w = chars_of(src.subrange(start, end));
            TokenV {
                token_type: Some(TokenType::NUMBER),
                number: Some(
                    NumV {
                        hex,
                        int_digits: if hex {
                            hex_digs(src, int_start, int_end)
                        } else {
                            digs(src, int_start, int_end)
                        },
                        frac_digits: digs(src, frac_start, frac_end),
                        exp_neg,
                        exp_digits: digs(src, exp_start, exp_end),
                    },
                ),
                ..built_token(w, line_at(src, start), col_at(src, start))
            }
        },
    }
}

} // verus!
