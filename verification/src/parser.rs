//! The expression parser: precedence climbing over the scanner's tokens.
//!
//! The parser pulls one token at a time from its scanner and structures
//! binary expressions with the precedence-climbing algorithm: a primary
//! operand, then, while the current operator binds strictly tighter than the
//! caller's threshold, the operator is consumed and its right operand parsed
//! with that operator's binding power as the new threshold. This yields
//! left-associative grouping, and the recursion depth is bounded by the
//! number of distinct binding powers, never by the input. The whole algorithm
//! is specified by `spec_sub`/`spec_climb` and the executable parser is
//! proved to match it.

use vstd::prelude::*;
use vstd::string::StringSliceAdditionalSpecFns;
use crate::error::{LexErrorKind, ParseError};
use crate::grammar::{lemma_scan_advances, next_token_spec, token_of, Scanned};
use crate::keyword::Keyword;
use crate::operator::Operator;
use crate::scanner::{lex_err_is, Scanner, ScannerV};
use crate::token::{Token, TokenType, TokenV};

verus! {

/// The binding power of each operator: a higher power binds tighter. An
/// operator that cannot be used as a binary operator has power 0, which never
/// exceeds a caller's threshold. The ladder orders comparisons below bitwise
/// operators, below concatenation, below additive, below multiplicative,
/// below exponentiation.
pub open spec fn bp_of(op: Operator) -> u32 {
    match op {
        Operator::EQ => 3,
        Operator::NEQ => 3,
        Operator::LT => 3,
        Operator::GT => 3,
        Operator::LE => 3,
        Operator::GE => 3,
        Operator::OR => 4,
        Operator::XOR_NOT => 5,
        Operator::AND => 6,
        Operator::LSHIFT => 7,
        Operator::RSHIFT => 7,
        Operator::CONCAT => 9,
        Operator::ADD => 10,
        Operator::SUB_MINUS => 10,
        Operator::MUL => 14,
        Operator::DIV => 14,
        Operator::FLRDIV => 14,
        Operator::MOD => 14,
        Operator::EXP => 18,
        Operator::ASSIGN => 0,
        Operator::LENGTH => 0,
        Operator::VARARG => 0,
    }
}

/// An expression: a single operand token, or a binary combination.
#[derive(Debug)]
pub enum Expr {
    Operand(Token),
    Binary(Operator, Box<Expr>, Box<Expr>),
}

/// The mathematical view of an expression.
pub ghost enum ExprV {
    Operand(TokenV),
    Binary(Operator, Box<ExprV>, Box<ExprV>),
}

/// The view of an expression tree.
pub open spec fn expr_view(e: Expr) -> ExprV
    decreases e,
{
    match e {
        Expr::Operand(t) => ExprV::Operand(t@),
        Expr::Binary(op, l, r) => ExprV::Binary(
            op,
            Box::new(expr_view(*l)),
            Box::new(expr_view(*r)),
        ),
    }
}

/// True when a token may stand as a primary operand: a number, a string, an
/// identifier, or one of the keywords `true`, `false`, `nil`.
pub open spec fn is_primary(t: TokenV) -> bool {
    match t.token_type {
        Some(TokenType::NUMBER) => true,
        Some(TokenType::STRING) => true,
        Some(TokenType::IDENTIFIER) => true,
        Some(TokenType::KEYWORD) => t.keyword == Some(Keyword::TRUE) || t.keyword == Some(
            Keyword::FALSE,
        ) || t.keyword == Some(Keyword::NIL),
        _ => false,
    }
}

/// The view of an optional token.
pub open spec fn opt_tok_view(t: Option<Token>) -> Option<TokenV> {
    match t {
        Some(tok) => Some(tok@),
        None => None,
    }
}

/// The outcome of a (sub)expression parse: the expression, the operator that
/// stopped it (`None` for "no applicable operator"), and the parser state
/// after it; or a scanner fault; or a token that cannot begin an operand.
pub ghost enum POut {
    Done { e: ExprV, stop: Option<Operator>, cur: Option<TokenV>, loc: int },
    Lex { kind: LexErrorKind, at: int, pstart: int, pend: int },
    NoOperand { cur: Option<TokenV> },
}

/// The outcome of parsing one primary operand and advancing past it.
pub ghost enum PSimple {
    Got { e: ExprV, cur: Option<TokenV>, loc: int },
    Lex { kind: LexErrorKind, at: int, pstart: int, pend: int },
    NoOperand { cur: Option<TokenV> },
}

/// Parsing one primary operand: the current token must be a primary; it
/// becomes a leaf and the cursor advances past it.
pub open spec fn spec_simple(src: Seq<u8>, cur: Option<TokenV>, loc: int) -> PSimple {
    match cur {
        None => PSimple::NoOperand { cur: None },
        Some(t) => if !is_primary(t) {
            PSimple::NoOperand { cur: Some(t) }
        } else {
            match next_token_spec(src, loc) {
                Scanned::Fail { kind, at, pstart, pend } => PSimple::Lex {
                    kind,
                    at,
                    pstart,
                    pend,
                },
                Scanned::End => PSimple::Got {
                    e: ExprV::Operand(t),
                    cur: None,
                    loc: src.len() as int,
                },
                Scanned::Tok(st, j) => PSimple::Got {
                    e: ExprV::Operand(t),
                    cur: Some(token_of(src, st)),
                    loc: j,
                },
            }
        },
    }
}

/// A (sub)expression parse with minimum binding power `min_bp`: one primary
/// operand, then climbing.
pub open spec fn spec_sub(src: Seq<u8>, cur: Option<TokenV>, loc: int, min_bp: u32) -> POut
    decreases src.len() - loc, 1int,
{
    if loc < 0 || loc > src.len() {
        POut::NoOperand { cur: None }
    } else {
        match spec_simple(src, cur, loc) {
            PSimple::Lex { kind, at, pstart, pend } => POut::Lex { kind, at, pstart, pend },
            PSimple::NoOperand { cur: c } => POut::NoOperand { cur: c },
            PSimple::Got { e, cur: cur1, loc: loc1 } => {
                proof {
                    lemma_scan_advances(src, loc);
                }
                spec_climb(src, cur1, loc1, min_bp, e)
            },
        }
    }
}

/// The climbing loop: while the current token is an operator binding
/// strictly tighter than `min_bp`, consume it, parse its right operand with
/// its binding power as the threshold, and combine left-associatively.
pub open spec fn spec_climb(
    src: Seq<u8>,
    cur: Option<TokenV>,
    loc: int,
    min_bp: u32,
    lhs: ExprV,
) -> POut
    decreases src.len() - loc, 0int,
{
    if loc < 0 || loc > src.len() {
        POut::Done { e: lhs, stop: None, cur, loc }
    } else {
        match cur {
            None => POut::Done { e: lhs, stop: None, cur: None, loc },
            Some(t) => {
                if t.token_type == Some(TokenType::OPERATOR) && t.operator is Some {
                    let op = t.operator->0;
                    let bp = bp_of(op);
                    if bp <= min_bp {
                        POut::Done { e: lhs, stop: Some(op), cur, loc }
                    } else {
                        match next_token_spec(src, loc) {
                            Scanned::Fail { kind, at, pstart, pend } => POut::Lex {
                                kind,
                                at,
                                pstart,
                                pend,
                            },
                            Scanned::End => POut::NoOperand { cur: None },
                            Scanned::Tok(st2, l2) => {
                                proof {
                                    lemma_scan_advances(src, loc);
                                }
                                match spec_sub(src, Some(token_of(src, st2)), l2, bp) {
                                    POut::Done { e: e2, stop: _stop2, cur: cur3, loc: loc3 } => {
                                        let lc = if loc < loc3 && loc3 <= src.len() {
                                            loc3
                                        } else {
                                            loc + 1
                                        };
                                        spec_climb(
                                            src,
                                            cur3,
                                            lc,
                                            min_bp,
                                            ExprV::Binary(op, Box::new(lhs), Box::new(e2)),
                                        )
                                    },
                                    other => other,
                                }
                            },
                        }
                    }
                } else {
                    POut::Done { e: lhs, stop: None, cur, loc }
                }
            },
        }
    }
}

/// What a `ParseError` says, relative to the source and the parser state at
/// the point of failure.
pub open spec fn parse_err_is(r: ParseError, src: Seq<u8>, out: POut) -> bool {
    match out {
        POut::Lex { kind, at, pstart, pend } => r matches ParseError::Lex(le) && lex_err_is(
            le,
            src,
            kind,
            at,
            pstart,
            pend,
        ),
        POut::NoOperand { cur } => r matches ParseError::ExpectedOperand(t) && opt_tok_view(t)
            == cur,
        POut::Done { .. } => false,
    }
}

/// What `parse_simple_expression` must return and in which state it must
/// leave the parser, given the state it started from.
pub open spec fn simple_post(pre: ScannerV, post: ScannerV, r: Result<Expr, ParseError>) -> bool {
    match spec_simple(pre.src, pre.cur, pre.loc) {
        PSimple::Got { e, cur, loc } => {
            &&& (r matches Ok(ex) && expr_view(ex) == e)
            &&& post.cur == cur
            &&& post.loc == loc
            &&& pre.loc <= loc <= pre.src.len()
        },
        PSimple::Lex { kind, at, pstart, pend } => (r matches Err(pe) && (
        pe matches ParseError::Lex(le) && lex_err_is(le, pre.src, kind, at, pstart, pend))),
        PSimple::NoOperand { cur } => {
            &&& (r matches Err(pe) && (pe matches ParseError::ExpectedOperand(t) && opt_tok_view(t)
                == cur))
            &&& post.cur == pre.cur
            &&& post.loc == pre.loc
        },
    }
}

/// What `parse_sub_expression` must return and in which state it must leave
/// the parser, given the state it started from and its threshold.
pub open spec fn sub_post(
    pre: ScannerV,
    post: ScannerV,
    min_bp: u32,
    r: Result<(Expr, Option<Operator>), ParseError>,
) -> bool {
    match spec_sub(pre.src, pre.cur, pre.loc, min_bp) {
        POut::Done { e, stop, cur, loc } => {
            &&& (r matches Ok(pair) && expr_view(pair.0) == e && pair.1 == stop)
            &&& post.cur == cur
            &&& post.loc == loc
            &&& pre.loc <= loc <= pre.src.len()
        },
        other => (r matches Err(pe) && parse_err_is(pe, pre.src, other)),
    }
}

/// An expression parser over a scanner it exclusively owns.
pub struct Parser {
    scanner: Scanner,
}

impl View for Parser {
    type V = ScannerV;

    closed spec fn view(&self) -> ScannerV {
        self.scanner@
    }
}

impl Parser {
    /// The parser's invariant: its scanner's.
    pub closed spec fn wf(&self) -> bool {
        self.scanner.wf()
    }

    /// Builds a parser over caller-supplied source text.
    pub fn read_source(code: &str) -> (p: Parser)
        requires
            code.spec_bytes().len() < usize::MAX as int,
        ensures
            p.wf(),
            p@.src == code.spec_bytes(),
            p@.loc == 0,
            p@.cur is None,
    {
        Parser { scanner: Scanner::read_source(code) }
    }

    /// Builds a parser over a byte buffer.
    pub fn from_bytes(src: Vec<u8>) -> (p: Parser)
        requires
            src@.len() < usize::MAX as int,
        ensures
            p.wf(),
            p@.src == src@,
            p@.loc == 0,
            p@.cur is None,
    {
        Parser { scanner: Scanner::from_bytes(src) }
    }

    /// The binding power of `op`, per `bp_of`.
    fn get_binop_priority(&self, op: &Operator) -> (r: u32)
        ensures
            r == bp_of(*op),
            r <= 18,
    {
        match op {
            Operator::EQ => 3,
            Operator::NEQ => 3,
            Operator::LT => 3,
            Operator::GT => 3,
            Operator::LE => 3,
            Operator::GE => 3,
            Operator::OR => 4,
            Operator::XOR_NOT => 5,
            Operator::AND => 6,
            Operator::LSHIFT => 7,
            Operator::RSHIFT => 7,
            Operator::CONCAT => 9,
            Operator::ADD => 10,
            Operator::SUB_MINUS => 10,
            Operator::MUL => 14,
            Operator::DIV => 14,
            Operator::FLRDIV => 14,
            Operator::MOD => 14,
            Operator::EXP => 18,
            Operator::ASSIGN => 0,
            Operator::LENGTH => 0,
            Operator::VARARG => 0,
        }
    }

    /// True when `t` may stand as a primary operand.
    fn primary_check(t: &Token) -> (r: bool)
        ensures
            r == is_primary(t@),
    {
        match t.kind() {
            Some(TokenType::NUMBER) => true,
            Some(TokenType::STRING) => true,
            Some(TokenType::IDENTIFIER) => true,
            Some(TokenType::KEYWORD) => match t.keyword() {
                Some(k) => match k {
                    Keyword::TRUE => true,
                    Keyword::FALSE => true,
                    Keyword::NIL => true,
                    _ => false,
                },
                None => false,
            },
            _ => false,
        }
    }

    /// Parses one primary operand — a number, string, identifier, or
    /// `true`/`false`/`nil` — and advances the cursor past it, uniformly for
    /// every primary kind.
    fn parse_simple_expression(&mut self) -> (r: Result<Expr, ParseError>)
        requires
            old(self).wf(),
            0 <= old(self)@.loc <= old(self)@.src.len(),
        ensures
            final(self).wf(),
            final(self)@.src == old(self)@.src,
            simple_post(old(self)@, final(self)@, r),
    {
        let prim = match self.scanner.current_token() {
            None => {
                return Err(ParseError::ExpectedOperand(None));
            },
            Some(t) => t.duplicate(),
        };
        if !Parser::primary_check(&prim) {
            return Err(ParseError::ExpectedOperand(Some(prim)));
        }
        proof {
            lemma_scan_advances(self@.src, self@.loc);
        }
        match self.scanner.next_token() {
            Err(le) => Err(ParseError::Lex(le)),
            Ok(_) => Ok(Expr::Operand(prim)),
        }
    }

    /// Parses a (sub)expression with minimum binding power `priority`,
    /// returning the expression and the operator that stopped the climb
    /// (`None` when no applicable operator did). The recursion climbs only to
    /// strictly higher binding powers, so its depth is bounded by the ladder.
    fn parse_sub_expression(&mut self, priority: u32) -> (r: Result<
        (Expr, Option<Operator>),
        ParseError,
    >)
        requires
            old(self).wf(),
            0 <= old(self)@.loc <= old(self)@.src.len(),
            priority <= 18,
        ensures
            final(self).wf(),
            final(self)@.src == old(self)@.src,
            sub_post(old(self)@, final(self)@, priority, r),
        decreases 18 - priority,
    {
        let ghost src = self@.src;
        let ghost cur0 = self@.cur;
        let ghost loc0 = self@.loc;
        let mut lhs = match self.parse_simple_expression() {
            Err(e) => {
                return Err(e);
            },
            Ok(ex) => ex,
        };
        loop
            invariant
                self.wf(),
                self@.src == src,
                src == old(self)@.src,
                cur0 == old(self)@.cur,
                loc0 == old(self)@.loc,
                priority <= 18,
                loc0 <= self@.loc <= src.len(),
                spec_climb(src, self@.cur, self@.loc, priority, expr_view(lhs)) == spec_sub(
                    src,
                    cur0,
                    loc0,
                    priority,
                ),
            decreases src.len() - self@.loc,
        {
            let op = match self.scanner.current_token() {
                None => {
                    return Ok((lhs, None));
                },
                Some(t) => {
                    let is_op = match t.kind() {
                        Some(TokenType::OPERATOR) => true,
                        _ => false,
                    };
                    if !is_op {
                        return Ok((lhs, None));
                    }
                    match t.operator() {
                        Some(o) => *o,
                        None => {
                            return Ok((lhs, None));
                        },
                    }
                },
            };
            let bp = self.get_binop_priority(&op);
            if bp <= priority {
                return Ok((lhs, Some(op)));
            }
            let ghost loc_here = self@.loc;
            proof {
                lemma_scan_advances(src, loc_here);
            }
            match self.scanner.next_token() {
                Err(le) => {
                    return Err(ParseError::Lex(le));
                },
                Ok(_) => {},
            }
            let rhs = match self.parse_sub_expression(bp) {
                Err(e) => {
                    return Err(e);
                },
                Ok(pair) => pair.0,
            };
            lhs = Expr::Binary(op, Box::new(lhs), Box::new(rhs));
        }
    }

    /// Parses one expression from the start of the source: pulls the first
    /// token, then climbs from binding power 0.
    pub fn parse(&mut self) -> (r: Result<Expr, ParseError>)
        requires
            old(self).wf(),
            0 <= old(self)@.loc <= old(self)@.src.len(),
        ensures
            final(self).wf(),
            final(self)@.src == old(self)@.src,
            match spec_parse(old(self)@.src, old(self)@.loc) {
                POut::Done { e, .. } => r matches Ok(ex) && expr_view(ex) == e,
                other => r matches Err(pe) && parse_err_is(pe, old(self)@.src, other),
            },
    {
        proof {
            lemma_scan_advances(self@.src, self@.loc);
        }
        match self.scanner.next_token() {
            Err(le) => {
                return Err(ParseError::Lex(le));
            },
            Ok(_) => {},
        }
        match self.parse_sub_expression(0) {
            Err(e) => Err(e),
            Ok(pair) => Ok(pair.0),
        }
    }
}

/// Parsing a whole source unit from cursor `loc`: pull the first token, then
/// one (sub)expression parse with threshold 0.
pub open spec fn spec_parse(src: Seq<u8>, loc: int) -> POut {
    match next_token_spec(src, loc) {
        Scanned::Fail { kind, at, pstart, pend } => POut::Lex { kind, at, pstart, pend },
        Scanned::End => POut::NoOperand { cur: None },
        Scanned::Tok(st, j) => spec_sub(src, Some(token_of(src, st)), j, 0),
    }
}

} // verus!
