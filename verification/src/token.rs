use vstd::prelude::*;

verus! {

/// The closed set of token categories the scanner can produce.
#[derive(Debug, PartialEq, Eq, Structural, Clone, Copy)]
pub enum TokenKind {
    Illegal,
    Eof,
    Int,
    Ident,
    Assign,
    Plus,
    Minus,
    Asterisk,
    Slash,
    Eq,
    NotEq,
    Bang,
    Gt,
    Lt,
    GtEq,
    LtEq,
    Comma,
    Semicolon,
    Lparen,
    Rparen,
    Lbrace,
    Rbrace,
    Fn,
    Let,
}

/// A token: its kind together with the exact source text that produced it.
#[derive(Debug)]
pub struct Token {
    pub kind: TokenKind,
    pub literal: String,
}

/// The kind that a run of letters/underscores resolves to: a keyword kind when
/// the text is exactly a reserved word, the identifier kind otherwise.
pub open spec fn spec_keyword_kind(text: Seq<char>) -> TokenKind {
    if text == seq!['f', 'n'] {
        TokenKind::Fn
    } else if text == seq!['l', 'e', 't'] {
        TokenKind::Let
    } else {
        TokenKind::Ident
    }
}

/// Classifies a scanned word as one of the two reserved words or an identifier.
pub fn match_literal_to_kind(literal: &str) -> (kind: TokenKind)
    ensures
        kind == spec_keyword_kind(literal@),
{
    let len = literal.unicode_len();
    if len == 2 && literal.get_char(0) == 'f' && literal.get_char(1) == 'n' {
        proof {
            assert(literal@ =~= seq!['f', 'n']);
        }
        TokenKind::Fn
    } else if len == 3 && literal.get_char(0) == 'l' && literal.get_char(1) == 'e'
        && literal.get_char(2) == 't' {
        proof {
            assert(literal@ =~= seq!['l', 'e', 't']);
        }
        TokenKind::Let
    } else {
        TokenKind::Ident
    }
}

} // verus!
