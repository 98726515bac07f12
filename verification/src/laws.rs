//! Laws of the scanner, stated over the lexical model and proved once for
//! all inputs of the shape they describe.

use vstd::prelude::*;
use crate::grammar::{
    block_comment_skip, lemma_eq_end_is, lemma_line_rest_is, lemma_long_close_is,
    lemma_quote_end_closed, lemma_scan_advances, lexeme_of, long_close_at, next_token_spec,
    spec_lexemes, token_of, BlockSkip, Scanned, SpecTok,
};
use crate::keyword::kw_of;
use crate::operator::op_of;
use crate::separator::sep_of;
use crate::text::chars_of;

verus! {

/// The three closed vocabularies are disjoint: a lexeme matches at most one
/// of the keyword, operator and separator tables, so no token ever carries
/// more than one of the three payloads, whatever the lookup order.
#[verifier::rlimit(100)]
pub proof fn lemma_vocabularies_disjoint(w: Seq<char>)
    ensures
        kw_of(w) is Some ==> op_of(w) is None && sep_of(w) is None,
        op_of(w) is Some ==> sep_of(w) is None,
{
    broadcast use vstd::string::group_string_axioms;

    reveal_strlit("and");
    reveal_strlit("break");
    reveal_strlit("do");
    reveal_strlit("else");
    reveal_strlit("elseif");
    reveal_strlit("end");
    reveal_strlit("false");
    reveal_strlit("for");
    reveal_strlit("function");
    reveal_strlit("goto");
    reveal_strlit("if");
    reveal_strlit("in");
    reveal_strlit("local");
    reveal_strlit("nil");
    reveal_strlit("not");
    reveal_strlit("or");
    reveal_strlit("repeat");
    reveal_strlit("return");
    reveal_strlit("then");
    reveal_strlit("true");
    reveal_strlit("until");
    reveal_strlit("while");
    reveal_strlit("+");
    reveal_strlit("-");
    reveal_strlit("*");
    reveal_strlit("/");
    reveal_strlit("//");
    reveal_strlit("%");
    reveal_strlit("^");
    reveal_strlit("&");
    reveal_strlit("|");
    reveal_strlit("~");
    reveal_strlit("<<");
    reveal_strlit(">>");
    reveal_strlit("==");
    reveal_strlit("~=");
    reveal_strlit("<");
    reveal_strlit(">");
    reveal_strlit("<=");
    reveal_strlit(">=");
    reveal_strlit("=");
    reveal_strlit("#");
    reveal_strlit("..");
    reveal_strlit("...");
    reveal_strlit(",");
    reveal_strlit(";");
    reveal_strlit(":");
    reveal_strlit("::");
    reveal_strlit(".");
    reveal_strlit("(");
    reveal_strlit(")");
    reveal_strlit("[");
    reveal_strlit("]");
    reveal_strlit("{");
    reveal_strlit("}");
    assert("and"@.len() == 3);
    assert("and"@[0] == 'a');
    assert("break"@.len() == 5);
    assert("break"@[0] == 'b');
    assert("do"@.len() == 2);
    assert("do"@[0] == 'd');
    assert("else"@.len() == 4);
    assert("else"@[0] == 'e');
    assert("elseif"@.len() == 6);
    assert("elseif"@[0] == 'e');
    assert("end"@.len() == 3);
    assert("end"@[0] == 'e');
    assert("false"@.len() == 5);
    assert("false"@[0] == 'f');
    assert("for"@.len() == 3);
    assert("for"@[0] == 'f');
    assert("function"@.len() == 8);
    assert("function"@[0] == 'f');
    assert("goto"@.len() == 4);
    assert("goto"@[0] == 'g');
    assert("if"@.len() == 2);
    assert("if"@[0] == 'i');
    assert("in"@.len() == 2);
    assert("in"@[0] == 'i');
    assert("local"@.len() == 5);
    assert("local"@[0] == 'l');
    assert("nil"@.len() == 3);
    assert("nil"@[0] == 'n');
    assert("not"@.len() == 3);
    assert("not"@[0] == 'n');
    assert("or"@.len() == 2);
    assert("or"@[0] == 'o');
    assert("repeat"@.len() == 6);
    assert("repeat"@[0] == 'r');
    assert("return"@.len() == 6);
    assert("return"@[0] == 'r');
    assert("then"@.len() == 4);
    assert("then"@[0] == 't');
    assert("true"@.len() == 4);
    assert("true"@[0] == 't');
    assert("until"@.len() == 5);
    assert("until"@[0] == 'u');
    assert("while"@.len() == 5);
    assert("while"@[0] == 'w');
    assert("+"@.len() == 1);
    assert("+"@[0] == '+');
    assert("-"@.len() == 1);
    assert("-"@[0] == '-');
    assert("*"@.len() == 1);
    assert("*"@[0] == '*');
    assert("/"@.len() == 1);
    assert("/"@[0] == '/');
    assert("//"@.len() == 2);
    assert("//"@[0] == '/');
    assert("%"@.len() == 1);
    assert("%"@[0] == '%');
    assert("^"@.len() == 1);
    assert("^"@[0] == '^');
    assert("&"@.len() == 1);
    assert("&"@[0] == '&');
    assert("|"@.len() == 1);
    assert("|"@[0] == '|');
    assert("~"@.len() == 1);
    assert("~"@[0] == '~');
    assert("<<"@.len() == 2);
    assert("<<"@[0] == '<');
    assert(">>"@.len() == 2);
    assert(">>"@[0] == '>');
    assert("=="@.len() == 2);
    assert("=="@[0] == '=');
    assert("~="@.len() == 2);
    assert("~="@[0] == '~');
    assert("<"@.len() == 1);
    assert("<"@[0] == '<');
    assert(">"@.len() == 1);
    assert(">"@[0] == '>');
    assert("<="@.len() == 2);
    assert("<="@[0] == '<');
    assert(">="@.len() == 2);
    assert(">="@[0] == '>');
    assert("="@.len() == 1);
    assert("="@[0] == '=');
    assert("#"@.len() == 1);
    assert("#"@[0] == '#');
    assert(".."@.len() == 2);
    assert(".."@[0] == '.');
    assert("..."@.len() == 3);
    assert("..."@[0] == '.');
    assert(","@.len() == 1);
    assert(","@[0] == ',');
    assert(";"@.len() == 1);
    assert(";"@[0] == ';');
    assert(":"@.len() == 1);
    assert(":"@[0] == ':');
    assert("::"@.len() == 2);
    assert("::"@[0] == ':');
    assert("."@.len() == 1);
    assert("."@[0] == '.');
    assert("("@.len() == 1);
    assert("("@[0] == '(');
    assert(")"@.len() == 1);
    assert(")"@[0] == ')');
    assert("["@.len() == 1);
    assert("["@[0] == '[');
    assert("]"@.len() == 1);
    assert("]"@[0] == ']');
    assert("{"@.len() == 1);
    assert("{"@[0] == '{');
    assert("}"@.len() == 1);
    assert("}"@[0] == '}');
}

/// A source holding nothing but a short comment — `--`, then any text
/// without a newline (and not starting a long bracket) — yields zero tokens.
pub proof fn lemma_short_comment_scans_nothing(src: Seq<u8>)
    requires
        2 <= src.len(),
        src[0] == 45,
        src[1] == 45,
        src.len() > 2 ==> src[2] != 91,
        forall|k: int| 2 <= k < src.len() ==> src[k] != 10,
    ensures
        next_token_spec(src, 0) == Scanned::End,
{
    lemma_line_rest_is(src, 2, src.len() as int);
    assert(next_token_spec(src, src.len() as int) == Scanned::End);
}

/// A source holding nothing but a correctly delimited block comment —
/// `--[` `=`*n `[`, a body with no closing long-bracket of level `n`, then
/// `]` `=`*n `]` — yields zero tokens, whatever the body holds.
pub proof fn lemma_block_comment_scans_nothing(src: Seq<u8>, n: int)
    requires
        0 <= n,
        src.len() >= 2 * n + 6,
        src[0] == 45,
        src[1] == 45,
        src[2] == 91,
        forall|k: int| 3 <= k < 3 + n ==> src[k] == 61,
        src[3 + n] == 91,
        src[src.len() - n - 2] == 93,
        forall|k: int| src.len() - n - 1 <= k < src.len() - 1 ==> src[k] == 61,
        src[src.len() - 1] == 93,
        forall|j: int| 4 + n <= j < src.len() - n - 2 ==> !long_close_at(src, j, n),
    ensures
        next_token_spec(src, 0) == Scanned::End,
{
    let len = src.len() as int;
    let c = len - n - 2;
    lemma_eq_end_is(src, 3, 3 + n);
    assert(long_close_at(src, c, n));
    lemma_long_close_is(src, 4 + n, n, c);
    assert(block_comment_skip(src, 3) == BlockSkip::To(len));
    assert(next_token_spec(src, len) == Scanned::End);
}

/// Quoted strings never decode escapes: for any body free of the delimiter
/// and of newline, carriage return and NUL, the token's value is exactly the
/// body, byte for byte — a backslash is ordinary content.
pub proof fn lemma_quoted_string_verbatim(src: Seq<u8>)
    requires
        2 <= src.len(),
        src[0] == 34 || src[0] == 39,
        src[src.len() - 1] == src[0],
        forall|k: int|
            1 <= k < src.len() - 1 ==> #[trigger] src[k] != src[0] && src[k] != 10 && src[k]
                != 13 && src[k] != 0,
    ensures
        next_token_spec(src, 0) == Scanned::Tok(
            SpecTok::Str {
                start: 0,
                end: src.len() as int,
                vstart: 1,
                vend: src.len() - 1,
            },
            src.len() as int,
        ),
        token_of(src, next_token_spec(src, 0)->Tok_0).word == chars_of(
            src.subrange(1, src.len() - 1),
        ),
{
    let len = src.len() as int;
    lemma_quote_end_closed(src, 1, src[0], len - 1);
}

/// Long strings preserve delimiter-incompatible content verbatim: for any
/// body with no closing long-bracket of the string's own level, the token's
/// value is exactly the body, newlines and all.
pub proof fn lemma_long_string_verbatim(src: Seq<u8>, n: int)
    requires
        0 <= n,
        src.len() >= 2 * n + 4,
        src[0] == 91,
        forall|k: int| 1 <= k < 1 + n ==> src[k] == 61,
        src[1 + n] == 91,
        src[src.len() - n - 2] == 93,
        forall|k: int| src.len() - n - 1 <= k < src.len() - 1 ==> src[k] == 61,
        src[src.len() - 1] == 93,
        forall|j: int| 2 + n <= j < src.len() - n - 2 ==> !long_close_at(src, j, n),
    ensures
        next_token_spec(src, 0) == Scanned::Tok(
            SpecTok::Str {
                start: 0,
                end: src.len() as int,
                vstart: 2 + n,
                vend: src.len() - n - 2,
            },
            src.len() as int,
        ),
        token_of(src, next_token_spec(src, 0)->Tok_0).word == chars_of(
            src.subrange(2 + n, src.len() - n - 2),
        ),
{
    let len = src.len() as int;
    let c = len - n - 2;
    lemma_eq_end_is(src, 1, 1 + n);
    assert(long_close_at(src, c, n));
    lemma_long_close_is(src, 2 + n, n, c);
}

/// The 33 fixed spellings of the operator and separator vocabularies, as
/// byte sequences.
pub open spec fn fixed_spelling(w: Seq<u8>) -> bool {
    ||| w == seq![43u8]  // +
    ||| w == seq![45u8]  // -
    ||| w == seq![42u8]  // *
    ||| w == seq![47u8]  // /
    ||| w == seq![37u8]  // %
    ||| w == seq![94u8]  // ^
    ||| w == seq![35u8]  // #
    ||| w == seq![38u8]  // &
    ||| w == seq![126u8]  // ~
    ||| w == seq![124u8]  // |
    ||| w == seq![60u8, 60u8]  // <<
    ||| w == seq![62u8, 62u8]  // >>
    ||| w == seq![47u8, 47u8]  // //
    ||| w == seq![61u8, 61u8]  // ==
    ||| w == seq![126u8, 61u8]  // ~=
    ||| w == seq![60u8, 61u8]  // <=
    ||| w == seq![62u8, 61u8]  // >=
    ||| w == seq![60u8]  // <
    ||| w == seq![62u8]  // >
    ||| w == seq![61u8]  // =
    ||| w == seq![40u8]  // (
    ||| w == seq![41u8]  // )
    ||| w == seq![123u8]  // {
    ||| w == seq![125u8]  // }
    ||| w == seq![91u8]  // [
    ||| w == seq![93u8]  // ]
    ||| w == seq![58u8, 58u8]  // ::
    ||| w == seq![59u8]  // ;
    ||| w == seq![58u8]  // :
    ||| w == seq![44u8]  // ,
    ||| w == seq![46u8]  // .
    ||| w == seq![46u8, 46u8]  // ..
    ||| w == seq![46u8, 46u8, 46u8]  // ...
}

/// A fixed spelling followed by a space (or the end of input) scans as one
/// token whose lexeme is exactly that spelling.
#[verifier::rlimit(50)]
pub proof fn lemma_fixed_token_at(src: Seq<u8>, i: int, w: Seq<u8>)
    requires
        fixed_spelling(w),
        0 <= i,
        i + w.len() <= src.len(),
        src.subrange(i, i + w.len() as int) == w,
        i + w.len() == src.len() || src[i + w.len()] == 32,
    ensures
        next_token_spec(src, i) == Scanned::Tok(
            SpecTok::Fixed { start: i, end: i + w.len() },
            i + w.len(),
        ),
{
    assert(src[i] == w[0]) by {
        assert(src.subrange(i, i + w.len() as int)[0] == w[0]);
    }
    if w.len() >= 2 {
        assert(src[i + 1] == w[1]) by {
            assert(src.subrange(i, i + w.len() as int)[1] == w[1]);
        }
    }
    if w.len() >= 3 {
        assert(src[i + 2] == w[2]) by {
            assert(src.subrange(i, i + w.len() as int)[2] == w[2]);
        }
    }
}

/// The source spells, from `i` to the end, the given fixed spellings in
/// order, separated by single spaces.
pub open spec fn spelled_at(src: Seq<u8>, i: int, ws: Seq<Seq<u8>>) -> bool
    decreases ws.len(),
{
    if ws.len() == 0 {
        i == src.len()
    } else {
        let w = ws[0];
        &&& fixed_spelling(w)
        &&& 0 <= i
        &&& i + w.len() <= src.len()
        &&& src.subrange(i, i + w.len() as int) == w
        &&& if ws.len() == 1 {
            i + w.len() == src.len()
        } else {
            &&& i + w.len() < src.len()
            &&& src[i + w.len()] == 32
            &&& spelled_at(src, i + w.len() + 1, ws.drop_first())
        }
    }
}

/// Round-trip from position `i`: scanning a source that spells fixed
/// vocabulary tokens separated by single spaces reproduces, in order, the
/// exact original spellings.
pub proof fn lemma_round_trip_at(src: Seq<u8>, i: int, ws: Seq<Seq<u8>>)
    requires
        spelled_at(src, i, ws),
    ensures
        spec_lexemes(src, i) == Some(Seq::new(ws.len(), |k: int| chars_of(ws[k]))),
    decreases ws.len(),
{
    if ws.len() == 0 {
        assert(next_token_spec(src, src.len() as int) == Scanned::End);
        assert(Seq::new(0, |k: int| chars_of(ws[k])) =~= Seq::<Seq<char>>::empty());
    } else {
        let w = ws[0];
        lemma_fixed_token_at(src, i, w);
        let j = i + w.len() as int;
        let st = SpecTok::Fixed { start: i, end: j };
        assert(lexeme_of(src, st) == chars_of(w));
        if ws.len() == 1 {
            assert(next_token_spec(src, src.len() as int) == Scanned::End);
            assert(spec_lexemes(src, j) == Some(Seq::<Seq<char>>::empty()));
            assert(spec_lexemes(src, i) == Some(seq![chars_of(w)] + Seq::<Seq<char>>::empty()));
            assert(seq![chars_of(w)] + Seq::<Seq<char>>::empty() =~= Seq::new(
                ws.len(),
                |k: int| chars_of(ws[k]),
            ));
        } else {
            let rest = ws.drop_first();
            lemma_round_trip_at(src, j + 1, rest);
            lemma_scan_advances(src, j + 1);
            assert(next_token_spec(src, j) == next_token_spec(src, j + 1));
            assert(spec_lexemes(src, j) == spec_lexemes(src, j + 1));
            assert(spec_lexemes(src, i) == Some(
                seq![chars_of(w)] + Seq::new(rest.len(), |k: int| chars_of(rest[k])),
            ));
            assert(seq![chars_of(w)] + Seq::new(rest.len(), |k: int| chars_of(rest[k])) =~= Seq::new(
                ws.len(),
                |k: int| chars_of(ws[k]),
            ));
        }
    }
}

/// Round-trip: for every sequence of fixed-spelling operator/separator
/// tokens, tokenizing the source that concatenates them separated by single
/// spaces reproduces, in order, the exact original spellings, and nothing
/// else.
pub proof fn lemma_operator_separator_round_trip(src: Seq<u8>, ws: Seq<Seq<u8>>)
    requires
        spelled_at(src, 0, ws),
    ensures
        spec_lexemes(src, 0) == Some(Seq::new(ws.len(), |k: int| chars_of(ws[k]))),
{
    lemma_round_trip_at(src, 0, ws);
}

} // verus!

