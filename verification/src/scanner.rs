//! The lexical scanner: a single-token-lookahead stream over a byte buffer.
//!
//! The scanner owns an immutable source buffer, a cursor, and the line/column
//! position of the cursor. Each `next_token` call skips whitespace and
//! comments, produces the next token (caching it as the current token), and
//! is proved to behave exactly as `grammar::next_token_spec` says.

use vstd::prelude::*;
use vstd::string::StrSliceExecFns;
use vstd::string::StringSliceAdditionalSpecFns;
use crate::error::{LexError, LexErrorKind};
use crate::grammar::{
    block_comment_skip, col_at, digit_end, digs, eq_end, hex_digs, hex_end, line_at, line_rest,
    long_close, long_close_at, long_string_scan, next_token_spec, num_scan, quote_end, token_of,
    word_end, BlockSkip, QuoteScan, Scanned, SpecTok,
};
use crate::grammar::{
    lemma_block_comment_skip, lemma_digit_end, lemma_eq_end, lemma_hex_end, lemma_line_rest,
    lemma_long_close, lemma_pos_bounds, lemma_quote_end, lemma_word_end,
};
use crate::srcpos::SrcPos;
use crate::text::{
    chars_of, digit_byte, hex_digit_byte, is_digit_b, is_hex_digit_b, is_word_start_b, push_char,
    word_byte,
};
use crate::token::{NumberParts, NumV, Token, TokenV};

verus! {

/// What a `LexError` says: its kind, the position of source index `at`, and
/// the characters of the partial lexeme `[pstart, pend)`.
pub open spec fn lex_err_is(
    e: LexError,
    src: Seq<u8>,
    kind: LexErrorKind,
    at: int,
    pstart: int,
    pend: int,
) -> bool {
    &&& e.kind == kind
    &&& e.line as int == line_at(src, at)
    &&& e.col as int == col_at(src, at)
    &&& e.partial@ == chars_of(src.subrange(pstart, pend))
}

/// What scanning a numeric literal at `i` must return and where it must leave
/// the cursor, as `num_scan` describes it.
pub open spec fn num_scan_post(
    src: Seq<u8>,
    i: int,
    post_loc: int,
    r: Result<(NumberParts, String), LexError>,
) -> bool {
    match num_scan(src, i) {
        Scanned::Tok(
            SpecTok::Num {
                start,
                end,
                hex,
                int_start,
                int_end,
                frac_start,
                frac_end,
                exp_neg,
                exp_start,
                exp_end,
            },
            j,
        ) => {
            &&& post_loc == j
            &&& (r matches Ok(ps) && ps.1@ == chars_of(src.subrange(start, end)) && ps.0@
                == (NumV {
                hex,
                int_digits: if hex {
                    hex_digs(src, int_start, int_end)
                } else {
                    digs(src, int_start, int_end)
                },
                frac_digits: digs(src, frac_start, frac_end),
                exp_neg,
                exp_digits: digs(src, exp_start, exp_end),
            }))
        },
        Scanned::Fail { kind, at, pstart, pend } => r matches Err(e) && lex_err_is(
            e,
            src,
            kind,
            at,
            pstart,
            pend,
        ) && post_loc == at,
        _ => false,
    }
}

/// The mathematical view of a scanner: the source bytes, the cursor, and the
/// view of the cached current token.
pub ghost struct ScannerV {
    pub src: Seq<u8>,
    pub loc: int,
    pub cur: Option<TokenV>,
}

/// A single-token-lookahead scanner over an immutable byte buffer.
pub struct Scanner {
    cur_token: Option<Token>,
    src: Vec<u8>,
    srcloc: usize,
    pos: SrcPos,
    eof: bool,
}

impl View for Scanner {
    type V = ScannerV;

    closed spec fn view(&self) -> ScannerV {
        ScannerV {
            src: self.src@,
            loc: self.srcloc as int,
            cur: match self.cur_token {
                Some(t) => Some(t@),
                None => None,
            },
        }
    }
}

impl Scanner {
    /// The scanner's invariant: the cursor is inside the buffer, the buffer
    /// leaves room for position arithmetic, the tracked position is exactly
    /// the position of the cursor, and the end flag mirrors the cursor.
    pub closed spec fn wf(&self) -> bool {
        &&& self.srcloc as int <= self.src@.len()
        &&& self.src@.len() < usize::MAX as int
        &&& self.pos.line() == line_at(self.src@, self.srcloc as int)
        &&& self.pos.col() == col_at(self.src@, self.srcloc as int)
        &&& (self.eof <==> self.srcloc as int == self.src@.len())
    }

    /// Builds a scanner over a byte buffer, cursor at the start.
    pub fn from_bytes(src: Vec<u8>) -> (s: Scanner)
        requires
            src@.len() < usize::MAX as int,
        ensures
            s.wf(),
            s@.src == src@,
            s@.loc == 0,
            s@.cur is None,
    {
        let eof = src.len() == 0;
        Scanner { cur_token: None, src, srcloc: 0, pos: SrcPos::build(), eof }
    }

    /// Builds a scanner over caller-supplied source text.
    pub fn read_source(code: &str) -> (s: Scanner)
        requires
            code.spec_bytes().len() < usize::MAX as int,
        ensures
            s.wf(),
            s@.src == code.spec_bytes(),
            s@.loc == 0,
            s@.cur is None,
    {
        Scanner::from_bytes(code.as_bytes_vec())
    }

    /// True once the cursor has consumed the final byte.
    pub fn is_eof(&self) -> (r: bool)
        requires
            self.wf(),
        ensures
            r == (self@.loc == self@.src.len()),
    {
        self.eof
    }

    /// The most recently produced token, if any; no side effect.
    pub fn current_token(&self) -> (r: Option<&Token>)
        ensures
            match r {
                Some(t) => self@.cur == Some(t@),
                None => self@.cur is None,
            },
    {
        self.cur_token.as_ref()
    }

    /// The byte under the cursor, if any.
    fn cur_char(&self) -> (r: Option<u8>)
        requires
            self.wf(),
        ensures
            r == if self@.loc < self@.src.len() {
                Some(self@.src[self@.loc])
            } else {
                None::<u8>
            },
    {
        if self.srcloc < self.src.len() {
            Some(self.src[self.srcloc])
        } else {
            None
        }
    }

    /// The byte `offset` places past the cursor, if any.
    fn look_ahead_char(&self, offset: usize) -> (r: Option<u8>)
        requires
            self.wf(),
            self@.loc + offset <= usize::MAX as int,
        ensures
            r == if self@.loc + offset < self@.src.len() {
                Some(self@.src[self@.loc + offset])
            } else {
                None::<u8>
            },
    {
        let target_loc = self.srcloc + offset;
        if target_loc < self.src.len() {
            Some(self.src[target_loc])
        } else {
            None
        }
    }

    /// Consumes one byte: advances the cursor and the position past it, and
    /// returns the byte now under the cursor, if any.
    fn next_char(&mut self) -> (r: Option<u8>)
        requires
            old(self).wf(),
            old(self)@.loc < old(self)@.src.len(),
        ensures
            final(self).wf(),
            final(self)@.src == old(self)@.src,
            final(self)@.cur == old(self)@.cur,
            final(self)@.loc == old(self)@.loc + 1,
            r == if old(self)@.loc + 1 < old(self)@.src.len() {
                Some(old(self)@.src[old(self)@.loc + 1])
            } else {
                None::<u8>
            },
    {
        let b = self.src[self.srcloc];
        proof {
            lemma_pos_bounds(self.src@, self.srcloc as int);
            assert((b as char) == '\n' <==> b == 10);
        }
        self.pos.update(b as char);
        self.srcloc = self.srcloc + 1;
        if self.srcloc == self.src.len() {
            self.eof = true;
            None
        } else {
            Some(self.src[self.srcloc])
        }
    }

    /// Consumes `n` bytes.
    fn skip_n_char(&mut self, n: usize)
        requires
            old(self).wf(),
            old(self)@.loc + n <= old(self)@.src.len(),
        ensures
            final(self).wf(),
            final(self)@.src == old(self)@.src,
            final(self)@.cur == old(self)@.cur,
            final(self)@.loc == old(self)@.loc + n,
    {
        let mut k: usize = 0;
        while k < n
            invariant
                self.wf(),
                self@.src == old(self)@.src,
                self@.cur == old(self)@.cur,
                k <= n,
                self@.loc == old(self)@.loc + k,
                old(self)@.loc + n <= old(self)@.src.len(),
            decreases n - k,
        {
            self.next_char();
            k = k + 1;
        }
    }

    /// Copies the byte range `[a, b)` out of the buffer as characters.
    fn take_chars(&self, a: usize, b: usize) -> (s: String)
        requires
            self.wf(),
            a <= b <= self@.src.len(),
        ensures
            s@ == chars_of(self@.src.subrange(a as int, b as int)),
    {
        let mut s = String::new();
        let mut k: usize = a;
        while k < b
            invariant
                self.wf(),
                a <= k <= b <= self@.src.len(),
                s@ == chars_of(self@.src.subrange(a as int, k as int)),
            decreases b - k,
        {
            push_char(&mut s, self.src[k] as char);
            k = k + 1;
            proof {
                assert(s@ =~= chars_of(self@.src.subrange(a as int, k as int)));
            }
        }
        s
    }

    /// Copies the decimal digit values of the byte range `[a, b)`.
    fn take_digits(&self, a: usize, b: usize) -> (v: Vec<u8>)
        requires
            self.wf(),
            a <= b <= self@.src.len(),
            forall|k: int| a <= k < b ==> is_digit_b(self@.src[k]),
        ensures
            v@ == digs(self@.src, a as int, b as int),
    {
        let mut v: Vec<u8> = Vec::new();
        let mut k: usize = a;
        while k < b
            invariant
                self.wf(),
                a <= k <= b <= self@.src.len(),
                forall|j: int| a <= j < b ==> is_digit_b(self@.src[j]),
                v@ == digs(self@.src, a as int, k as int),
            decreases b - k,
        {
            v.push(self.src[k] - 48);
            k = k + 1;
            proof {
                assert(v@ =~= digs(self@.src, a as int, k as int));
            }
        }
        v
    }

    /// Copies the hexadecimal digit values of the byte range `[a, b)`.
    fn take_hex_digits(&self, a: usize, b: usize) -> (v: Vec<u8>)
        requires
            self.wf(),
            a <= b <= self@.src.len(),
            forall|k: int| a <= k < b ==> is_hex_digit_b(self@.src[k]),
        ensures
            v@ == hex_digs(self@.src, a as int, b as int),
    {
        let mut v: Vec<u8> = Vec::new();
        let mut k: usize = a;
        while k < b
            invariant
                self.wf(),
                a <= k <= b <= self@.src.len(),
                forall|j: int| a <= j < b ==> is_hex_digit_b(self@.src[j]),
                v@ == hex_digs(self@.src, a as int, k as int),
            decreases b - k,
        {
            let d = self.src[k];
            let val = if d <= 57 {
                d - 48
            } else if d >= 97 {
                d - 87
            } else {
                d - 55
            };
            v.push(val);
            k = k + 1;
            proof {
                assert(v@ =~= hex_digs(self@.src, a as int, k as int));
            }
        }
        v
    }

    /// Consumes the run of `=` bytes under the cursor and returns its length.
    fn count_eq_run(&mut self) -> (n: usize)
        requires
            old(self).wf(),
        ensures
            final(self).wf(),
            final(self)@.src == old(self)@.src,
            final(self)@.cur == old(self)@.cur,
            final(self)@.loc == eq_end(old(self)@.src, old(self)@.loc),
            old(self)@.loc + n == final(self)@.loc,
    {
        proof {
            lemma_eq_end(self.src@, self.srcloc as int);
        }
        let mut n: usize = 0;
        while self.srcloc < self.src.len() && self.src[self.srcloc] == 61
            invariant
                self.wf(),
                self@.src == old(self)@.src,
                self@.cur == old(self)@.cur,
                self@.loc == old(self)@.loc + n,
                self@.loc <= eq_end(old(self)@.src, old(self)@.loc),
                eq_end(old(self)@.src, old(self)@.loc) == eq_end(self@.src, self@.loc),
            decreases self@.src.len() - self@.loc,
        {
            proof {
                assert(eq_end(self@.src, self@.loc) == eq_end(self@.src, self@.loc + 1));
                lemma_eq_end(self@.src, self@.loc + 1);
            }
            self.next_char();
            n = n + 1;
        }
        n
    }

    /// True when a closing long-bracket of level `n` stands at the cursor.
    fn long_close_here(&self, n: usize) -> (r: bool)
        requires
            self.wf(),
        ensures
            r == long_close_at(self@.src, self@.loc, n as int),
    {
        let len = self.src.len();
        if self.srcloc >= len {
            return false;
        }
        let rem = len - self.srcloc;
        if rem < 2 || n > rem - 2 {
            return false;
        }
        if self.src[self.srcloc] != 93 {
            return false;
        }
        if self.src[self.srcloc + n + 1] != 93 {
            return false;
        }
        let mut k: usize = 0;
        while k < n
            invariant
                self.wf(),
                k <= n,
                self@.loc + n + 2 <= self@.src.len(),
                forall|j: int| self@.loc < j <= self@.loc + k ==> self@.src[j] == 61,
            decreases n - k,
        {
            if self.src[self.srcloc + 1 + k] != 61 {
                return false;
            }
            k = k + 1;
        }
        true
    }

    /// Advances the cursor to the first closing long-bracket of level `n`, or
    /// to the end of input when none exists; reports which happened.
    fn find_long_close(&mut self, n: usize) -> (found: bool)
        requires
            old(self).wf(),
        ensures
            final(self).wf(),
            final(self)@.src == old(self)@.src,
            final(self)@.cur == old(self)@.cur,
            old(self)@.loc <= final(self)@.loc,
            match long_close(old(self)@.src, old(self)@.loc, n as int) {
                Some(c) => found && final(self)@.loc == c && long_close_at(
                    old(self)@.src,
                    c,
                    n as int,
                ),
                None => !found && final(self)@.loc == old(self)@.src.len(),
            },
    {
        proof {
            lemma_long_close(self.src@, self.srcloc as int, n as int);
        }
        loop
            invariant
                self.wf(),
                self@.src == old(self)@.src,
                self@.cur == old(self)@.cur,
                old(self)@.loc <= self@.loc,
                long_close(old(self)@.src, old(self)@.loc, n as int) == long_close(
                    self@.src,
                    self@.loc,
                    n as int,
                ),
            ensures
                self.wf(),
                self@.src == old(self)@.src,
                self@.cur == old(self)@.cur,
                old(self)@.loc <= self@.loc,
                match long_close(old(self)@.src, old(self)@.loc, n as int) {
                    Some(c) => self@.loc == c && long_close_at(old(self)@.src, c, n as int),
                    None => self@.loc == old(self)@.src.len(),
                },
            decreases self@.src.len() - self@.loc,
        {
            if self.srcloc >= self.src.len() {
                proof {
                    lemma_long_close(self@.src, self@.loc, n as int);
                }
                return false;
            }
            if self.long_close_here(n) {
                return true;
            }
            proof {
                assert(long_close(self@.src, self@.loc, n as int) == long_close(
                    self@.src,
                    self@.loc + 1,
                    n as int,
                ));
            }
            self.next_char();
        }
    }

    /// Skips a short comment: everything up to and including the next
    /// newline, or to the end of input.
    fn skip_short_comment(&mut self)
        requires
            old(self).wf(),
        ensures
            final(self).wf(),
            final(self)@.src == old(self)@.src,
            final(self)@.cur == old(self)@.cur,
            final(self)@.loc == if line_rest(old(self)@.src, old(self)@.loc) < old(
                self,
            )@.src.len() {
                line_rest(old(self)@.src, old(self)@.loc) + 1
            } else {
                line_rest(old(self)@.src, old(self)@.loc)
            },
    {
        proof {
            lemma_line_rest(self.src@, self.srcloc as int);
        }
        while self.srcloc < self.src.len() && self.src[self.srcloc] != 10
            invariant
                self.wf(),
                self@.src == old(self)@.src,
                self@.cur == old(self)@.cur,
                old(self)@.loc <= self@.loc <= line_rest(old(self)@.src, old(self)@.loc),
                line_rest(old(self)@.src, old(self)@.loc) == line_rest(self@.src, self@.loc),
            decreases self@.src.len() - self@.loc,
        {
            proof {
                assert(line_rest(self@.src, self@.loc) == line_rest(self@.src, self@.loc + 1));
                lemma_line_rest(self@.src, self@.loc + 1);
            }
            self.next_char();
        }
        if self.srcloc < self.src.len() {
            self.next_char();
        }
    }

    /// Skips a block comment. On entry the cursor stands just after `--[`,
    /// at the comment's `=` run; on success it lands just after the closing
    /// long-bracket.
    fn skip_block_comment(&mut self) -> (r: Result<(), LexError>)
        requires
            old(self).wf(),
        ensures
            final(self).wf(),
            final(self)@.src == old(self)@.src,
            final(self)@.cur == old(self)@.cur,
            match block_comment_skip(old(self)@.src, old(self)@.loc) {
                BlockSkip::To(j) => r is Ok && final(self)@.loc == j,
                BlockSkip::Failed { kind, at, pstart, pend } => r matches Err(e) && lex_err_is(
                    e,
                    old(self)@.src,
                    kind,
                    at,
                    pstart,
                    pend,
                ),
            },
    {
        let n = self.count_eq_run();
        proof {
            lemma_eq_end(self.src@, old(self)@.loc);
        }
        let at_open = self.srcloc < self.src.len() && self.src[self.srcloc] == 91;
        if !at_open {
            let pend = if self.srcloc < self.src.len() {
                self.srcloc + 1
            } else {
                self.srcloc
            };
            return Err(self.make_error(LexErrorKind::InvalidLongStringDelimiter, self.srcloc, pend));
        }
        self.next_char();
        if self.find_long_close(n) {
            self.skip_n_char(n + 2);
            Ok(())
        } else {
            Err(self.make_error(LexErrorKind::UnterminatedComment, self.srcloc, self.srcloc))
        }
    }

    /// Scans a quoted string. On entry the cursor stands on the opening
    /// delimiter (`"` or `'`); on success it lands just past the closing
    /// delimiter and the value is everything between them, verbatim.
    fn scan_string(&mut self) -> (r: Result<String, LexError>)
        requires
            old(self).wf(),
            old(self)@.loc < old(self)@.src.len(),
            old(self)@.src[old(self)@.loc] == 34 || old(self)@.src[old(self)@.loc] == 39,
        ensures
            final(self).wf(),
            final(self)@.src == old(self)@.src,
            final(self)@.cur == old(self)@.cur,
            match quote_end(old(self)@.src, old(self)@.loc + 1, old(self)@.src[old(self)@.loc]) {
                QuoteScan::Closed(c) => r matches Ok(s) && s@ == chars_of(
                    old(self)@.src.subrange(old(self)@.loc + 1, c),
                ) && final(self)@.loc == c + 1,
                QuoteScan::Bad(j) => r matches Err(e) && lex_err_is(
                    e,
                    old(self)@.src,
                    LexErrorKind::UnterminatedString,
                    j,
                    old(self)@.loc + 1,
                    j,
                ),
                QuoteScan::Missing => r matches Err(e) && lex_err_is(
                    e,
                    old(self)@.src,
                    LexErrorKind::UnterminatedString,
                    old(self)@.src.len() as int,
                    old(self)@.loc + 1,
                    old(self)@.src.len() as int,
                ),
            },
    {
        let start = self.srcloc;
        let delim = self.src[self.srcloc];
        self.next_char();
        proof {
            lemma_quote_end(self.src@, start + 1, delim);
        }
        loop
            invariant
                self.wf(),
                self@.src == old(self)@.src,
                self@.cur == old(self)@.cur,
                start as int == old(self)@.loc,
                delim == self@.src[start as int],
                start + 1 <= self@.loc <= self@.src.len(),
                quote_end(self@.src, start + 1, delim) == quote_end(self@.src, self@.loc, delim),
            ensures
                self.wf(),
                self@.src == old(self)@.src,
                self@.cur == old(self)@.cur,
                match quote_end(self@.src, start + 1, delim) {
                    QuoteScan::Closed(c) => self@.loc == c,
                    QuoteScan::Bad(j) => self@.loc == j,
                    QuoteScan::Missing => self@.loc == self@.src.len(),
                },
            decreases self@.src.len() - self@.loc,
        {
            if self.srcloc >= self.src.len() {
                break;
            }
            let b = self.src[self.srcloc];
            if b == delim {
                break;
            }
            if b == 10 || b == 13 || b == 0 {
                break;
            }
            self.next_char();
        }
        proof {
            lemma_quote_end(self.src@, start + 1, delim);
        }
        if self.srcloc >= self.src.len() {
            return Err(self.make_error(LexErrorKind::UnterminatedString, start + 1, self.srcloc));
        }
        let b = self.src[self.srcloc];
        if b == delim {
            let s = self.take_chars(start + 1, self.srcloc);
            self.next_char();
            Ok(s)
        } else {
            Err(self.make_error(LexErrorKind::UnterminatedString, start + 1, self.srcloc))
        }
    }

    /// Scans a long bracketed string. On entry the cursor stands just after
    /// the opening `[`, at the `=` run; on success it lands just past the
    /// closing long-bracket and the value is the body, verbatim, newlines
    /// included.
    fn scan_long_string(&mut self) -> (r: Result<String, LexError>)
        requires
            old(self).wf(),
            1 <= old(self)@.loc,
        ensures
            final(self).wf(),
            final(self)@.src == old(self)@.src,
            final(self)@.cur == old(self)@.cur,
            match long_string_scan(old(self)@.src, old(self)@.loc - 1) {
                Scanned::Tok(SpecTok::Str { vstart, vend, .. }, j) => r matches Ok(s) && s@
                    == chars_of(old(self)@.src.subrange(vstart, vend)) && final(self)@.loc == j,
                Scanned::Fail { kind, at, pstart, pend } => r matches Err(e) && lex_err_is(
                    e,
                    old(self)@.src,
                    kind,
                    at,
                    pstart,
                    pend,
                ),
                _ => false,
            },
    {
        let n = self.count_eq_run();
        proof {
            lemma_eq_end(self.src@, old(self)@.loc);
        }
        let at_open = self.srcloc < self.src.len() && self.src[self.srcloc] == 91;
        if !at_open {
            let pend = if self.srcloc < self.src.len() {
                self.srcloc + 1
            } else {
                self.srcloc
            };
            return Err(self.make_error(LexErrorKind::InvalidLongStringDelimiter, self.srcloc, pend));
        }
        self.next_char();
        let body = self.srcloc;
        if self.find_long_close(n) {
            let s = self.take_chars(body, self.srcloc);
            self.skip_n_char(n + 2);
            Ok(s)
        } else {
            Err(self.make_error(LexErrorKind::UnterminatedLongString, body, self.srcloc))
        }
    }

    /// Scans an identifier-or-keyword spelling: a letter or `_`, then any
    /// run of letters, digits and `_`.
    fn scan_identifier_or_keyword(&mut self) -> (s: String)
        requires
            old(self).wf(),
            old(self)@.loc < old(self)@.src.len(),
            is_word_start_b(old(self)@.src[old(self)@.loc]),
        ensures
            final(self).wf(),
            final(self)@.src == old(self)@.src,
            final(self)@.cur == old(self)@.cur,
            final(self)@.loc == word_end(old(self)@.src, old(self)@.loc),
            s@ == chars_of(
                old(self)@.src.subrange(old(self)@.loc, word_end(old(self)@.src, old(self)@.loc)),
            ),
    {
        let start = self.srcloc;
        proof {
            lemma_word_end(self.src@, start as int);
        }
        while self.srcloc < self.src.len() && word_byte(self.src[self.srcloc])
            invariant
                self.wf(),
                self@.src == old(self)@.src,
                self@.cur == old(self)@.cur,
                start as int == old(self)@.loc,
                start as int <= self@.loc <= word_end(self@.src, start as int),
                word_end(self@.src, start as int) == word_end(self@.src, self@.loc),
            decreases self@.src.len() - self@.loc,
        {
            proof {
                assert(word_end(self@.src, self@.loc) == word_end(self@.src, self@.loc + 1));
                lemma_word_end(self@.src, self@.loc + 1);
            }
            self.next_char();
        }
        self.take_chars(start, self.srcloc)
    }

    /// Scans a hexadecimal literal. On entry the cursor stands on the `0` of
    /// a `0x`/`0X` prefix; the run of hex digits after the prefix (possibly
    /// empty) is the literal.
    fn scan_hexadecimal_number(&mut self) -> (r: Result<(NumberParts, String), LexError>)
        requires
            old(self).wf(),
            old(self)@.loc + 1 < old(self)@.src.len(),
            old(self)@.src[old(self)@.loc] == 48,
            old(self)@.src[old(self)@.loc + 1] == 120 || old(self)@.src[old(self)@.loc + 1]
                == 88,
        ensures
            final(self).wf(),
            final(self)@.src == old(self)@.src,
            final(self)@.cur == old(self)@.cur,
            num_scan_post(old(self)@.src, old(self)@.loc, final(self)@.loc, r),
    {
        let start = self.srcloc;
        self.next_char();
        self.next_char();
        proof {
            lemma_hex_end(self.src@, start + 2);
        }
        while self.srcloc < self.src.len() && hex_digit_byte(self.src[self.srcloc])
            invariant
                self.wf(),
                self@.src == old(self)@.src,
                self@.cur == old(self)@.cur,
                start as int == old(self)@.loc,
                start + 2 <= self@.loc <= hex_end(self@.src, start + 2),
                hex_end(self@.src, start + 2) == hex_end(self@.src, self@.loc),
            decreases self@.src.len() - self@.loc,
        {
            proof {
                assert(hex_end(self@.src, self@.loc) == hex_end(self@.src, self@.loc + 1));
                lemma_hex_end(self@.src, self@.loc + 1);
            }
            self.next_char();
        }
        proof {
            lemma_hex_end(self.src@, start + 2);
        }
        let frac: Vec<u8> = Vec::new();
        let expd: Vec<u8> = Vec::new();
        let parts = NumberParts {
            hex: true,
            int_digits: self.take_hex_digits(start + 2, self.srcloc),
            frac_digits: frac,
            exp_neg: false,
            exp_digits: expd,
        };
        let s = self.take_chars(start, self.srcloc);
        proof {
            let he = hex_end(self@.src, start + 2);
            assert(parts.frac_digits@ =~= digs(self@.src, he, he));
            assert(parts.exp_digits@ =~= digs(self@.src, he, he));
        }
        Ok((parts, s))
    }

    /// Scans a decimal literal: an integer digit run, an optional `.` and
    /// fraction digit run, and an optional `e`/`E` exponent with an optional
    /// `-` sign. An exponent marker with no digits after it is the one
    /// internal-consistency fault of the decoder.
    fn scan_decimal_number(&mut self) -> (r: Result<(NumberParts, String), LexError>)
        requires
            old(self).wf(),
            old(self)@.loc < old(self)@.src.len(),
            is_digit_b(old(self)@.src[old(self)@.loc]),
            !(old(self)@.loc + 1 < old(self)@.src.len() && old(self)@.src[old(self)@.loc] == 48
                && (old(self)@.src[old(self)@.loc + 1] == 120 || old(self)@.src[old(self)@.loc
                + 1] == 88)),
        ensures
            final(self).wf(),
            final(self)@.src == old(self)@.src,
            final(self)@.cur == old(self)@.cur,
            num_scan_post(old(self)@.src, old(self)@.loc, final(self)@.loc, r),
    {
        let start = self.srcloc;
        proof {
            lemma_digit_end(self.src@, start as int);
        }
        while self.srcloc < self.src.len() && digit_byte(self.src[self.srcloc])
            invariant
                self.wf(),
                self@.src == old(self)@.src,
                self@.cur == old(self)@.cur,
                start as int == old(self)@.loc,
                start as int <= self@.loc <= digit_end(self@.src, start as int),
                digit_end(self@.src, start as int) == digit_end(self@.src, self@.loc),
            decreases self@.src.len() - self@.loc,
        {
            proof {
                assert(digit_end(self@.src, self@.loc) == digit_end(self@.src, self@.loc + 1));
                lemma_digit_end(self@.src, self@.loc + 1);
            }
            self.next_char();
        }
        let ie = self.srcloc;
        proof {
            lemma_digit_end(self.src@, start as int);
        }
        let mut fs = ie;
        let mut fe = ie;
        let dot = self.srcloc < self.src.len() && self.src[self.srcloc] == 46;
        if dot {
            self.next_char();
            proof {
                lemma_digit_end(self.src@, ie + 1);
            }
            while self.srcloc < self.src.len() && digit_byte(self.src[self.srcloc])
                invariant
                    self.wf(),
                    self@.src == old(self)@.src,
                    self@.cur == old(self)@.cur,
                    ie + 1 <= self@.loc <= digit_end(self@.src, ie + 1),
                    digit_end(self@.src, ie + 1) == digit_end(self@.src, self@.loc),
                decreases self@.src.len() - self@.loc,
            {
                proof {
                    assert(digit_end(self@.src, self@.loc) == digit_end(
                        self@.src,
                        self@.loc + 1,
                    ));
                    lemma_digit_end(self@.src, self@.loc + 1);
                }
                self.next_char();
            }
            fs = ie + 1;
            fe = self.srcloc;
            proof {
                lemma_digit_end(self.src@, ie + 1);
            }
        }
        let marker = self.srcloc < self.src.len() && (self.src[self.srcloc] == 101
            || self.src[self.srcloc] == 69);
        if marker {
            self.next_char();
            let sgn = self.srcloc < self.src.len() && self.src[self.srcloc] == 45;
            if sgn {
                self.next_char();
            }
            let es = self.srcloc;
            proof {
                lemma_digit_end(self.src@, es as int);
            }
            while self.srcloc < self.src.len() && digit_byte(self.src[self.srcloc])
                invariant
                    self.wf(),
                    self@.src == old(self)@.src,
                    self@.cur == old(self)@.cur,
                    es as int <= self@.loc <= digit_end(self@.src, es as int),
                    digit_end(self@.src, es as int) == digit_end(self@.src, self@.loc),
                decreases self@.src.len() - self@.loc,
            {
                proof {
                    assert(digit_end(self@.src, self@.loc) == digit_end(
                        self@.src,
                        self@.loc + 1,
                    ));
                    lemma_digit_end(self@.src, self@.loc + 1);
                }
                self.next_char();
            }
            let ee = self.srcloc;
            proof {
                lemma_digit_end(self.src@, es as int);
            }
            if ee == es {
                return Err(self.make_error(LexErrorKind::NumericDecodeMismatch, start, es));
            }
            let parts = NumberParts {
                hex: false,
                int_digits: self.take_digits(start, ie),
                frac_digits: self.take_digits(fs, fe),
                exp_neg: sgn,
                exp_digits: self.take_digits(es, ee),
            };
            let s = self.take_chars(start, ee);
            Ok((parts, s))
        } else {
            let expd: Vec<u8> = Vec::new();
            let parts = NumberParts {
                hex: false,
                int_digits: self.take_digits(start, ie),
                frac_digits: self.take_digits(fs, fe),
                exp_neg: false,
                exp_digits: expd,
            };
            let s = self.take_chars(start, self.srcloc);
            proof {
                assert(parts.exp_digits@ =~= digs(self@.src, fe as int, fe as int));
            }
            Ok((parts, s))
        }
    }

    /// Scans a numeric literal: `0x`/`0X` selects hexadecimal, anything else
    /// decimal.
    fn scan_number(&mut self) -> (r: Result<(NumberParts, String), LexError>)
        requires
            old(self).wf(),
            old(self)@.loc < old(self)@.src.len(),
            is_digit_b(old(self)@.src[old(self)@.loc]),
        ensures
            final(self).wf(),
            final(self)@.src == old(self)@.src,
            final(self)@.cur == old(self)@.cur,
            num_scan_post(old(self)@.src, old(self)@.loc, final(self)@.loc, r),
    {
        let b = self.src[self.srcloc];
        let mut ishex = false;
        if b == 48 {
            if let Some(x) = self.look_ahead_char(1) {
                if x == 120 || x == 88 {
                    ishex = true;
                }
            }
        }
        if ishex {
            self.scan_hexadecimal_number()
        } else {
            self.scan_decimal_number()
        }
    }

    /// Produces the next token. Whitespace and comments are skipped; then the
    /// leading byte selects the token form, longest match first. Returns
    /// `Ok(Some(token))` and caches the token as current, `Ok(None)` once the
    /// input is exhausted (idempotently), or the first fatal fault. The
    /// outcome is exactly what `next_token_spec` says for the buffer and the
    /// entry cursor.
    pub fn next_token(&mut self) -> (r: Result<Option<Token>, LexError>)
        requires
            old(self).wf(),
        ensures
            final(self).wf(),
            final(self)@.src == old(self)@.src,
            match next_token_spec(old(self)@.src, old(self)@.loc) {
                Scanned::Tok(st, j) => (r matches Ok(Some(t)) && t@ == token_of(
                    old(self)@.src,
                    st,
                ) && final(self)@.loc == j && final(self)@.cur == Some(t@)),
                Scanned::End => r == Ok::<Option<Token>, LexError>(None) && final(self)@.cur
                    is None && final(self)@.loc == old(self)@.src.len(),
                Scanned::Fail { kind, at, pstart, pend } => (r matches Err(e) && lex_err_is(
                    e,
                    old(self)@.src,
                    kind,
                    at,
                    pstart,
                    pend,
                )),
            },
    {
        let ghost src = self@.src;
        let ghost loc0 = self@.loc;
        loop
            invariant
                self.wf(),
                self@.src == src,
                src == old(self)@.src,
                loc0 == old(self)@.loc,
                next_token_spec(src, loc0) == next_token_spec(src, self@.loc),
            decreases src.len() - self@.loc,
        {
            if self.srcloc >= self.src.len() {
                self.cur_token = None;
                return Ok(None);
            }
            let init_pos = self.pos;
            let start = self.srcloc;
            let ghost i = self@.loc;
            let b = self.src[start];
            if b == 32 || b == 9 || b == 13 || b == 10 {
                self.next_char();
                proof {
                    assert(next_token_spec(src, i) == next_token_spec(src, i + 1));
                }
            } else if b == 43 || b == 42 || b == 37 || b == 94 || b == 35 || b == 38 || b == 124
                || b == 44 || b == 59 || b == 40 || b == 41 || b == 93 || b == 123 || b == 125 {
                self.next_char();
                let w = self.take_chars(start, start + 1);
                let t = Token::build(w, &init_pos);
                self.cur_token = Some(t.duplicate());
                return Ok(Some(t));
            } else if b == 45 {
                self.next_char();
                let second = self.srcloc < self.src.len() && self.src[self.srcloc] == 45;
                if !second {
                    let w = self.take_chars(start, start + 1);
                    let t = Token::build(w, &init_pos);
                    self.cur_token = Some(t.duplicate());
                    return Ok(Some(t));
                }
                self.next_char();
                let blk = self.srcloc < self.src.len() && self.src[self.srcloc] == 91;
                if blk {
                    self.next_char();
                    proof {
                        lemma_block_comment_skip(src, i + 3);
                    }
                    match self.skip_block_comment() {
                        Ok(()) => {
                            proof {
                                assert(next_token_spec(src, i) == next_token_spec(
                                    src,
                                    self@.loc,
                                ));
                            }
                        },
                        Err(e) => {
                            return Err(e);
                        },
                    }
                } else {
                    proof {
                        lemma_line_rest(src, i + 2);
                    }
                    self.skip_short_comment();
                    proof {
                        assert(next_token_spec(src, i) == next_token_spec(src, self@.loc));
                    }
                }
            } else if b == 47 || b == 61 || b == 60 || b == 62 || b == 126 || b == 58 {
                self.next_char();
                let mut two = false;
                if self.srcloc < self.src.len() {
                    let x = self.src[self.srcloc];
                    if b == 47 {
                        two = x == 47;
                    } else if b == 61 {
                        two = x == 61;
                    } else if b == 60 {
                        two = x == 61 || x == 60;
                    } else if b == 62 {
                        two = x == 61 || x == 62;
                    } else if b == 126 {
                        two = x == 61;
                    } else {
                        two = x == 58;
                    }
                }
                if two {
                    self.next_char();
                }
                let w = self.take_chars(start, self.srcloc);
                let t = Token::build(w, &init_pos);
                self.cur_token = Some(t.duplicate());
                return Ok(Some(t));
            } else if b == 91 {
                self.next_char();
                let longstr = self.srcloc < self.src.len() && (self.src[self.srcloc] == 91
                    || self.src[self.srcloc] == 61);
                if longstr {
                    match self.scan_long_string() {
                        Ok(s) => {
                            let t = Token::build_string(s, &init_pos);
                            self.cur_token = Some(t.duplicate());
                            return Ok(Some(t));
                        },
                        Err(e) => {
                            return Err(e);
                        },
                    }
                } else {
                    let w = self.take_chars(start, start + 1);
                    let t = Token::build(w, &init_pos);
                    self.cur_token = Some(t.duplicate());
                    return Ok(Some(t));
                }
            } else if b == 34 || b == 39 {
                match self.scan_string() {
                    Ok(s) => {
                        let t = Token::build_string(s, &init_pos);
                        self.cur_token = Some(t.duplicate());
                        return Ok(Some(t));
                    },
                    Err(e) => {
                        return Err(e);
                    },
                }
            } else if b == 46 {
                self.next_char();
                let mut ndots: usize = 1;
                if self.srcloc + 1 < self.src.len() && self.src[self.srcloc] == 46
                    && self.src[self.srcloc + 1] == 46 {
                    ndots = 3;
                } else if self.srcloc < self.src.len() && self.src[self.srcloc] == 46 {
                    ndots = 2;
                }
                if ndots == 3 {
                    self.skip_n_char(2);
                } else if ndots == 2 {
                    self.next_char();
                }
                let w = self.take_chars(start, self.srcloc);
                let t = Token::build(w, &init_pos);
                self.cur_token = Some(t.duplicate());
                return Ok(Some(t));
            } else if 48 <= b && b <= 57 {
                match self.scan_number() {
                    Ok(ps) => {
                        let (parts, s) = ps;
                        let t = Token::build_number(parts, s, &init_pos);
                        self.cur_token = Some(t.duplicate());
                        return Ok(Some(t));
                    },
                    Err(e) => {
                        return Err(e);
                    },
                }
            } else if (97 <= b && b <= 122) || (65 <= b && b <= 90) || b == 95 {
                let s = self.scan_identifier_or_keyword();
                let t = Token::build_ident_or_keyword(s, &init_pos);
                self.cur_token = Some(t.duplicate());
                return Ok(Some(t));
            } else {
                return Err(self.make_error(LexErrorKind::UnexpectedCharacter, start, start + 1));
            }
        }
    }

    /// Builds a `LexError` of kind `kind` at the cursor's position, carrying
    /// the partial lexeme `[pstart, pend)`.
    fn make_error(&self, kind: LexErrorKind, pstart: usize, pend: usize) -> (e: LexError)
        requires
            self.wf(),
            pstart <= pend <= self@.src.len(),
        ensures
            lex_err_is(e, self@.src, kind, self@.loc, pstart as int, pend as int),
    {
        let (line, col) = self.pos.position();
        LexError { kind, line, col, partial: self.take_chars(pstart, pend) }
    }
}

} // verus!
