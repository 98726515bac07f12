//! The closed separator vocabulary.

use vstd::prelude::*;
use crate::text::str_eq;

verus! {

/// A separator tag.
#[derive(Debug, Clone, Copy, PartialEq, Eq, Structural)]
pub enum Separator {
    COMMA,  // ,
    SEMICOLON,  // ;
    COLON,  // :
    DOUBLECOLON,  // ::
    DOT,  // .
    LPAREN,  // (
    RPAREN,  // )
    LSQUAR,  // [
    RSQUAR,  // ]
    LBRACE,  // {
    RBRACE,  // }
}

/// The separator spelled by `s`, if any.
pub open spec fn sep_of(s: Seq<char>) -> Option<Separator> {
    if s == ","@ {
        Some(Separator::COMMA)
    } else if s == ";"@ {
        Some(Separator::SEMICOLON)
    } else if s == ":"@ {
        Some(Separator::COLON)
    } else if s == "::"@ {
        Some(Separator::DOUBLECOLON)
    } else if s == "."@ {
        Some(Separator::DOT)
    } else if s == "("@ {
        Some(Separator::LPAREN)
    } else if s == ")"@ {
        Some(Separator::RPAREN)
    } else if s == "["@ {
        Some(Separator::LSQUAR)
    } else if s == "]"@ {
        Some(Separator::RSQUAR)
    } else if s == "{"@ {
        Some(Separator::LBRACE)
    } else if s == "}"@ {
        Some(Separator::RBRACE)
    } else {
        None
    }
}

impl Separator {
    /// Looks a spelling up in the separator table.
    pub fn identify(word: &str) -> (r: Option<Separator>)
        ensures
            r == sep_of(word@),
    {
        if str_eq(word, ",") {
            Some(Separator::COMMA)
        } else if str_eq(word, ";") {
            Some(Separator::SEMICOLON)
        } else if str_eq(word, ":") {
            Some(Separator::COLON)
        } else if str_eq(word, "::") {
            Some(Separator::DOUBLECOLON)
        } else if str_eq(word, ".") {
            Some(Separator::DOT)
        } else if str_eq(word, "(") {
            Some(Separator::LPAREN)
        } else if str_eq(word, ")") {
            Some(Separator::RPAREN)
        } else if str_eq(word, "[") {
            Some(Separator::LSQUAR)
        } else if str_eq(word, "]") {
            Some(Separator::RSQUAR)
        } else if str_eq(word, "{") {
            Some(Separator::LBRACE)
        } else if str_eq(word, "}") {
            Some(Separator::RBRACE)
        } else {
            None
        }
    }
}

} // verus!
