//! The closed keyword vocabulary.

use vstd::prelude::*;
use crate::text::str_eq;

verus! {

/// A reserved word of the language. Lookup is case-sensitive: only the exact
/// lower-case spelling is a keyword.
#[allow(non_camel_case_types)]
#[derive(Debug, Clone, Copy, PartialEq, Eq, Structural)]
pub enum Keyword {
    AND,
    BREAK,
    DO,
    ELSE,
    ELSEIF,
    END,
    FALSE,
    FOR,
    FUNCTION,
    GOTO,
    IF,
    IN,
    LOCAL,
    NIL,
    NOT,
    OR,
    REPEAT,
    RETURN,
    THEN,
    TRUE,
    UNTIL,
    WHILE,
}

/// The keyword spelled by `s`, if any.
pub open spec fn kw_of(s: Seq<char>) -> Option<Keyword> {
    if s == "and"@ {
        Some(Keyword::AND)
    } else if s == "break"@ {
        Some(Keyword::BREAK)
    } else if s == "do"@ {
        Some(Keyword::DO)
    } else if s == "else"@ {
        Some(Keyword::ELSE)
    } else if s == "elseif"@ {
        Some(Keyword::ELSEIF)
    } else if s == "end"@ {
        Some(Keyword::END)
    } else if s == "false"@ {
        Some(Keyword::FALSE)
    } else if s == "for"@ {
        Some(Keyword::FOR)
    } else if s == "function"@ {
        Some(Keyword::FUNCTION)
    } else if s == "goto"@ {
        Some(Keyword::GOTO)
    } else if s == "if"@ {
        Some(Keyword::IF)
    } else if s == "in"@ {
        Some(Keyword::IN)
    } else if s == "local"@ {
        Some(Keyword::LOCAL)
    } else if s == "nil"@ {
        Some(Keyword::NIL)
    } else if s == "not"@ {
        Some(Keyword::NOT)
    } else if s == "or"@ {
        Some(Keyword::OR)
    } else if s == "repeat"@ {
        Some(Keyword::REPEAT)
    } else if s == "return"@ {
        Some(Keyword::RETURN)
    } else if s == "then"@ {
        Some(Keyword::THEN)
    } else if s == "true"@ {
        Some(Keyword::TRUE)
    } else if s == "until"@ {
        Some(Keyword::UNTIL)
    } else if s == "while"@ {
        Some(Keyword::WHILE)
    } else {
        None
    }
}

impl Keyword {
    /// Looks a spelling up in the keyword table.
    pub fn identify(word: &str) -> (r: Option<Keyword>)
        ensures
            r == kw_of(word@),
    {
        if str_eq(word, "and") {
            Some(Keyword::AND)
        } else if str_eq(word, "break") {
            Some(Keyword::BREAK)
        } else if str_eq(word, "do") {
            Some(Keyword::DO)
        } else if str_eq(word, "else") {
            Some(Keyword::ELSE)
        } else if str_eq(word, "elseif") {
            Some(Keyword::ELSEIF)
        } else if str_eq(word, "end") {
            Some(Keyword::END)
        } else if str_eq(word, "false") {
            Some(Keyword::FALSE)
        } else if str_eq(word, "for") {
            Some(Keyword::FOR)
        } else if str_eq(word, "function") {
            Some(Keyword::FUNCTION)
        } else if str_eq(word, "goto") {
            Some(Keyword::GOTO)
        } else if str_eq(word, "if") {
            Some(Keyword::IF)
        } else if str_eq(word, "in") {
            Some(Keyword::IN)
        } else if str_eq(word, "local") {
            Some(Keyword::LOCAL)
        } else if str_eq(word, "nil") {
            Some(Keyword::NIL)
        } else if str_eq(word, "not") {
            Some(Keyword::NOT)
        } else if str_eq(word, "or") {
            Some(Keyword::OR)
        } else if str_eq(word, "repeat") {
            Some(Keyword::REPEAT)
        } else if str_eq(word, "return") {
            Some(Keyword::RETURN)
        } else if str_eq(word, "then") {
            Some(Keyword::THEN)
        } else if str_eq(word, "true") {
            Some(Keyword::TRUE)
        } else if str_eq(word, "until") {
            Some(Keyword::UNTIL)
        } else if str_eq(word, "while") {
            Some(Keyword::WHILE)
        } else {
            None
        }
    }
}

} // verus!
