//! The classified lexical unit handed from the scanner to the parser.
//!
//! A token records the exact lexeme (for string literals, the string value),
//! the position of its first character, one kind tag, and the result of the
//! closed-vocabulary lookups on the lexeme. A numeric token additionally
//! carries the literal's decoded digits as an exact decomposition
//! (`NumberParts`), so the numeric value is pinned without any floating-point
//! rounding: the value denoted is
//! `(integer digits . fraction digits) * base^(+/- exponent digits)`.

use vstd::prelude::*;
use vstd::string::StringExecFns;
use crate::keyword::{Keyword, kw_of};
use crate::operator::{Operator, op_of};
use crate::separator::{Separator, sep_of};
use crate::srcpos::SrcPos;

verus! {

/// The kind of a token; every produced token has exactly one.
#[allow(non_camel_case_types)]
#[derive(Debug, Clone, Copy, PartialEq, Eq, Structural)]
pub enum TokenType {
    KEYWORD,
    OPERATOR,
    SEPARATOR,
    NUMBER,
    IDENTIFIER,
    STRING,
}

/// The exact decomposition of a numeric literal: digit values (not ASCII
/// bytes), most significant first. For a hexadecimal literal `hex` is true,
/// the digits are base-16 values and the fraction and exponent are empty; for
/// a decimal literal the value is
/// `(int_digits . frac_digits) * 10^(exp_digits with sign exp_neg)`.
#[derive(Debug, Clone, PartialEq, Eq)]
pub struct NumberParts {
    pub hex: bool,
    pub int_digits: Vec<u8>,
    pub frac_digits: Vec<u8>,
    pub exp_neg: bool,
    pub exp_digits: Vec<u8>,
}

/// The mathematical view of a `NumberParts`.
pub ghost struct NumV {
    pub hex: bool,
    pub int_digits: Seq<u8>,
    pub frac_digits: Seq<u8>,
    pub exp_neg: bool,
    pub exp_digits: Seq<u8>,
}

impl View for NumberParts {
    type V = NumV;

    open spec fn view(&self) -> NumV {
        NumV {
            hex: self.hex,
            int_digits: self.int_digits@,
            frac_digits: self.frac_digits@,
            exp_neg: self.exp_neg,
            exp_digits: self.exp_digits@,
        }
    }
}

/// The mathematical view of a `Token`.
pub ghost struct TokenV {
    pub word: Seq<char>,
    pub number: Option<NumV>,
    pub line: int,
    pub col: int,
    pub token_type: Option<TokenType>,
    pub keyword: Option<Keyword>,
    pub operator: Option<Operator>,
    pub separator: Option<Separator>,
}

/// The kind a bare lexeme is classified as by the vocabulary lookups, in
/// priority order: keyword, then operator, then separator; `None` for any
/// other spelling.
pub open spec fn base_type(w: Seq<char>) -> Option<TokenType> {
    if kw_of(w) is Some {
        Some(TokenType::KEYWORD)
    } else if op_of(w) is Some {
        Some(TokenType::OPERATOR)
    } else if sep_of(w) is Some {
        Some(TokenType::SEPARATOR)
    } else {
        None
    }
}

/// A classified lexical unit.
#[derive(Debug, Clone)]
pub struct Token {
    word: String,
    number: Option<NumberParts>,
    srcpos: SrcPos,
    token_type: Option<TokenType>,
    keyword: Option<Keyword>,
    operator: Option<Operator>,
    separator: Option<Separator>,
}

impl View for Token {
    type V = TokenV;

    closed spec fn view(&self) -> TokenV {
        TokenV {
            word: self.word@,
            number: match self.number {
                Some(n) => Some(n@),
                None => None,
            },
            line: self.srcpos.line(),
            col: self.srcpos.col(),
            token_type: self.token_type,
            keyword: self.keyword,
            operator: self.operator,
            separator: self.separator,
        }
    }
}

/// The view a token built from the bare lexeme `w` at position (`l`, `c`)
/// has: vocabulary lookups on `w`, kind from `base_type`, no numeric payload.
pub open spec fn built_token(w: Seq<char>, l: int, c: int) -> TokenV {
    TokenV {
        word: w,
        number: None,
        line: l,
        col: c,
        token_type: base_type(w),
        keyword: kw_of(w),
        operator: op_of(w),
        separator: sep_of(w),
    }
}

impl Token {
    /// Builds a token from a fixed-spelling lexeme, classifying it by the
    /// vocabulary lookups in keyword/operator/separator priority order.
    pub fn build(token_str: String, srcpos: &SrcPos) -> (t: Token)
        ensures
            t@ == built_token(token_str@, srcpos.line(), srcpos.col()),
    {
        let keyword = Keyword::identify(token_str.as_str());
        let operator = Operator::identify(token_str.as_str());
        let separator = Separator::identify(token_str.as_str());
        let token_type = if keyword.is_some() {
            Some(TokenType::KEYWORD)
        } else if operator.is_some() {
            Some(TokenType::OPERATOR)
        } else if separator.is_some() {
            Some(TokenType::SEPARATOR)
        } else {
            None
        };
        Token { word: token_str, number: None, srcpos: *srcpos, token_type, keyword, operator, separator }
    }

    /// Builds an identifier-or-keyword token: a spelling in the keyword table
    /// is a keyword, any other word is an identifier.
    pub fn build_ident_or_keyword(ident_keyword_str: String, srcpos: &SrcPos) -> (t: Token)
        ensures
            t@ == (TokenV {
                token_type: if base_type(ident_keyword_str@) is Some {
                    base_type(ident_keyword_str@)
                } else {
                    Some(TokenType::IDENTIFIER)
                },
                ..built_token(ident_keyword_str@, srcpos.line(), srcpos.col())
            }),
    {
        let mut token = Token::build(ident_keyword_str, srcpos);
        if token.token_type.is_none() {
            token.token_type = Some(TokenType::IDENTIFIER);
        }
        token
    }

    /// Builds a numeric token carrying the literal's exact decomposition
    /// beside its spelling.
    pub fn build_number(number: NumberParts, number_string: String, srcpos: &SrcPos) -> (t: Token)
        ensures
            t@ == (TokenV {
                token_type: Some(TokenType::NUMBER),
                number: Some(number@),
                ..built_token(number_string@, srcpos.line(), srcpos.col())
            }),
    {
        let mut token = Token::build(number_string, srcpos);
        token.number = Some(number);
        token.token_type = Some(TokenType::NUMBER);
        token
    }

    /// Builds a string token whose `word` is the string's decoded value.
    pub fn build_string(string: String, srcpos: &SrcPos) -> (t: Token)
        ensures
            t@ == (TokenV {
                token_type: Some(TokenType::STRING),
                ..built_token(string@, srcpos.line(), srcpos.col())
            }),
    {
        let mut token = Token::build(string, srcpos);
        token.token_type = Some(TokenType::STRING);
        token
    }
}

impl NumberParts {
    /// A view-equal copy of the decomposition.
    pub(crate) fn duplicate(&self) -> (p: NumberParts)
        ensures
            p@ == self@,
    {
        NumberParts {
            hex: self.hex,
            int_digits: crate::text::copy_bytes(&self.int_digits),
            frac_digits: crate::text::copy_bytes(&self.frac_digits),
            exp_neg: self.exp_neg,
            exp_digits: crate::text::copy_bytes(&self.exp_digits),
        }
    }
}

impl Token {
    /// A view-equal copy of the token, cached by the scanner as the current
    /// token while the original is handed to the caller.
    pub(crate) fn duplicate(&self) -> (t: Token)
        ensures
            t@ == self@,
    {
        Token {
            word: String::from_str(self.word.as_str()),
            number: match &self.number {
                Some(p) => Some(p.duplicate()),
                None => None,
            },
            srcpos: self.srcpos,
            token_type: self.token_type,
            keyword: self.keyword,
            operator: self.operator,
            separator: self.separator,
        }
    }
}

impl Token {
    /// The lexeme (for a string token, the string value).
    pub fn word(&self) -> (w: &String)
        ensures
            w@ == self@.word,
    {
        &self.word
    }

    /// The exact numeric decomposition; present exactly on number tokens.
    pub fn number(&self) -> (r: Option<&NumberParts>)
        ensures
            match r {
                Some(n) => self@.number == Some(n@),
                None => self@.number is None,
            },
    {
        self.number.as_ref()
    }

    /// The position of the token's first character.
    pub fn srcpos(&self) -> (p: &SrcPos)
        ensures
            p.line() == self@.line,
            p.col() == self@.col,
    {
        &self.srcpos
    }

    /// The keyword tag, if the lexeme is in the keyword table.
    pub fn keyword(&self) -> (r: Option<&Keyword>)
        ensures
            match r {
                Some(k) => self@.keyword == Some(*k),
                None => self@.keyword is None,
            },
    {
        self.keyword.as_ref()
    }

    /// The operator tag, if the lexeme is in the operator table.
    pub fn operator(&self) -> (r: Option<&Operator>)
        ensures
            match r {
                Some(o) => self@.operator == Some(*o),
                None => self@.operator is None,
            },
    {
        self.operator.as_ref()
    }

    /// The separator tag, if the lexeme is in the separator table.
    pub fn separator(&self) -> (r: Option<&Separator>)
        ensures
            match r {
                Some(s) => self@.separator == Some(*s),
                None => self@.separator is None,
            },
    {
        self.separator.as_ref()
    }

    /// The token's kind, if one was assigned; unlike `token_type` this never
    /// demands that one was.
    pub fn kind(&self) -> (r: Option<TokenType>)
        ensures
            r == self@.token_type,
    {
        self.token_type
    }

    /// The token's kind. Every token the scanner produces has one.
    pub fn token_type(&self) -> (r: &TokenType)
        requires
            self@.token_type is Some,
        ensures
            self@.token_type == Some(*r),
    {
        match &self.token_type {
            Some(token_t) => token_t,
            None => unreached(),
        }
    }
}

} // verus!
