//! The closed operator vocabulary.

use vstd::prelude::*;
use crate::text::str_eq;

verus! {

/// An operator tag. Unary minus shares a tag with binary subtraction, and
/// unary bitwise NOT shares a tag with bitwise XOR, since they share a
/// spelling; "not an operator" is represented by `Option::None` at use sites,
/// never by a variant of this enum.
#[allow(non_camel_case_types)]
#[derive(Debug, Clone, Copy, PartialEq, Eq, Structural)]
pub enum Operator {
    // Arithmetic operators
    ADD,  // addition
    SUB_MINUS,  // subtraction or unary minus
    MUL,  // multiplication
    DIV,  // division
    FLRDIV,  // floor division
    MOD,  // modulo
    EXP,  // exponentiation
    // Bitwise operators
    AND,  // bitwise AND
    OR,  // bitwise OR
    XOR_NOT,  // bitwise XOR or unary bitwise NOT
    LSHIFT,  // left shift
    RSHIFT,  // right shift
    // Relational operators
    EQ,  // equality
    NEQ,  // inequality
    LT,  // less than
    GT,  // greater than
    LE,  // less or equal
    GE,  // greater or equal
    // Others
    ASSIGN,  // assignment
    LENGTH,  // length
    CONCAT,  // concatenation
    VARARG,  // variadic argument
}

/// The operator spelled by `s`, if any.
pub open spec fn op_of(s: Seq<char>) -> Option<Operator> {
    if s == "+"@ {
        Some(Operator::ADD)
    } else if s == "-"@ {
        Some(Operator::SUB_MINUS)
    } else if s == "*"@ {
        Some(Operator::MUL)
    } else if s == "/"@ {
        Some(Operator::DIV)
    } else if s == "//"@ {
        Some(Operator::FLRDIV)
    } else if s == "%"@ {
        Some(Operator::MOD)
    } else if s == "^"@ {
        Some(Operator::EXP)
    } else if s == "&"@ {
        Some(Operator::AND)
    } else if s == "|"@ {
        Some(Operator::OR)
    } else if s == "~"@ {
        Some(Operator::XOR_NOT)
    } else if s == "<<"@ {
        Some(Operator::LSHIFT)
    } else if s == ">>"@ {
        Some(Operator::RSHIFT)
    } else if s == "=="@ {
        Some(Operator::EQ)
    } else if s == "~="@ {
        Some(Operator::NEQ)
    } else if s == "<"@ {
        Some(Operator::LT)
    } else if s == ">"@ {
        Some(Operator::GT)
    } else if s == "<="@ {
        Some(Operator::LE)
    } else if s == ">="@ {
        Some(Operator::GE)
    } else if s == "="@ {
        Some(Operator::ASSIGN)
    } else if s == "#"@ {
        Some(Operator::LENGTH)
    } else if s == ".."@ {
        Some(Operator::CONCAT)
    } else if s == "..."@ {
        Some(Operator::VARARG)
    } else {
        None
    }
}

impl Operator {
    /// Looks a spelling up in the operator table.
    pub fn identify(word: &str) -> (r: Option<Operator>)
        ensures
            r == op_of(word@),
    {
        if str_eq(word, "+") {
            Some(Operator::ADD)
        } else if str_eq(word, "-") {
            Some(Operator::SUB_MINUS)
        } else if str_eq(word, "*") {
            Some(Operator::MUL)
        } else if str_eq(word, "/") {
            Some(Operator::DIV)
        } else if str_eq(word, "//") {
            Some(Operator::FLRDIV)
        } else if str_eq(word, "%") {
            Some(Operator::MOD)
        } else if str_eq(word, "^") {
            Some(Operator::EXP)
        } else if str_eq(word, "&") {
            Some(Operator::AND)
        } else if str_eq(word, "|") {
            Some(Operator::OR)
        } else if str_eq(word, "~") {
            Some(Operator::XOR_NOT)
        } else if str_eq(word, "<<") {
            Some(Operator::LSHIFT)
        } else if str_eq(word, ">>") {
            Some(Operator::RSHIFT)
        } else if str_eq(word, "==") {
            Some(Operator::EQ)
        } else if str_eq(word, "~=") {
            Some(Operator::NEQ)
        } else if str_eq(word, "<") {
            Some(Operator::LT)
        } else if str_eq(word, ">") {
            Some(Operator::GT)
        } else if str_eq(word, "<=") {
            Some(Operator::LE)
        } else if str_eq(word, ">=") {
            Some(Operator::GE)
        } else if str_eq(word, "=") {
            Some(Operator::ASSIGN)
        } else if str_eq(word, "#") {
            Some(Operator::LENGTH)
        } else if str_eq(word, "..") {
            Some(Operator::CONCAT)
        } else if str_eq(word, "...") {
            Some(Operator::VARARG)
        } else {
            None
        }
    }
}

} // verus!
