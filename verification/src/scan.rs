use vstd::prelude::*;

use crate::token::{spec_keyword_kind, TokenKind};

verus! {

/// The whitespace characters the scanner skips between tokens.
pub open spec fn is_whitespace_char(c: char) -> bool {
    c == ' ' || c == '\t' || c == '\n' || c == '\r'
}

/// Whether the character has the Unicode `Alphabetic` property, as
/// `char::is_alphabetic` decides it.
pub uninterp spec fn is_alphabetic_char(c: char) -> bool;

/// Relies on char::is_alphabetic: whether the character is alphabetic is a
/// property of the character alone, named by `is_alphabetic_char`.
#[verifier::external_body]
pub(crate) fn char_is_alphabetic(c: char) -> (r: bool)
    ensures
        r == is_alphabetic_char(c),
{
    c.is_alphabetic()
}

/// The characters that may start or continue an identifier: alphabetic
/// characters and the underscore.
pub open spec fn is_letter_char(c: char) -> bool {
    is_alphabetic_char(c) || c == '_'
}

/// The decimal digits.
pub open spec fn is_digit_char(c: char) -> bool {
    '0' <= c && c <= '9'
}

/// The first index at or after `pos` that holds no whitespace; the input
/// length when whitespace runs to the end.
pub open spec fn ws_end(input: Seq<char>, pos: int) -> int
    recommends
        0 <= pos <= input.len(),
    decreases input.len() - pos,
{
    if pos < input.len() && is_whitespace_char(input[pos]) {
        ws_end(input, pos + 1)
    } else {
        pos
    }
}

/// The first index at or after `pos` that holds no letter/underscore.
pub open spec fn word_end(input: Seq<char>, pos: int) -> int
    recommends
        0 <= pos <= input.len(),
    decreases input.len() - pos,
{
    if pos < input.len() && is_letter_char(input[pos]) {
        word_end(input, pos + 1)
    } else {
        pos
    }
}

/// The first index at or after `pos` that holds no decimal digit.
pub open spec fn num_end(input: Seq<char>, pos: int) -> int
    recommends
        0 <= pos <= input.len(),
    decreases input.len() - pos,
{
    if pos < input.len() && is_digit_char(input[pos]) {
        num_end(input, pos + 1)
    } else {
        pos
    }
}

/// What a single scan starting at `pos` produces, once whitespace is skipped:
/// the token's kind, the token's literal, and the cursor position one past the
/// last character the scan consumed.
pub open spec fn spec_next_token(input: Seq<char>, pos: int) -> (TokenKind, Seq<char>, int)
    recommends
        0 <= pos <= input.len(),
{
    let s = ws_end(input, pos);
    if s >= input.len() {
        (TokenKind::Eof, Seq::<char>::empty(), input.len() as int)
    } else {
        let c = input[s];
        if c == '=' && s + 1 < input.len() && input[s + 1] == '=' {
            (TokenKind::Eq, seq!['=', '='], s + 2)
        } else if c == '=' {
            (TokenKind::Assign, seq!['='], s + 1)
        } else if c == '!' && s + 1 < input.len() && input[s + 1] == '=' {
            (TokenKind::NotEq, seq!['!', '='], s + 2)
        } else if c == '!' {
            (TokenKind::Bang, seq!['!'], s + 1)
        } else if c == '<' && s + 1 < input.len() && input[s + 1] == '=' {
            (TokenKind::LtEq, seq!['<', '='], s + 2)
        } else if c == '<' {
            (TokenKind::Lt, seq!['<'], s + 1)
        } else if c == '>' && s + 1 < input.len() && input[s + 1] == '=' {
            (TokenKind::GtEq, seq!['>', '='], s + 2)
        } else if c == '>' {
            (TokenKind::Gt, seq!['>'], s + 1)
        } else if c == '+' {
            (TokenKind::Plus, seq!['+'], s + 1)
        } else if c == '-' {
            (TokenKind::Minus, seq!['-'], s + 1)
        } else if c == '*' {
            (TokenKind::Asterisk, seq!['*'], s + 1)
        } else if c == '/' {
            (TokenKind::Slash, seq!['/'], s + 1)
        } else if c == ',' {
            (TokenKind::Comma, seq![','], s + 1)
        } else if c == ';' {
            (TokenKind::Semicolon, seq![';'], s + 1)
        } else if c == '(' {
            (TokenKind::Lparen, seq!['('], s + 1)
        } else if c == ')' {
            (TokenKind::Rparen, seq![')'], s + 1)
        } else if c == '{' {
            (TokenKind::Lbrace, seq!['{'], s + 1)
        } else if c == '}' {
            (TokenKind::Rbrace, seq!['}'], s + 1)
        } else if is_letter_char(c) {
            let e = word_end(input, s);
            (spec_keyword_kind(input.subrange(s, e)), input.subrange(s, e), e)
        } else if is_digit_char(c) {
            let e = num_end(input, s);
            (TokenKind::Int, input.subrange(s, e), e)
        } else {
            (TokenKind::Illegal, seq![c], s + 1)
        }
    }
}

/// The run of whitespace starting at `pos` ends within the input, consists of
/// whitespace only, and stops at the first non-whitespace character.
pub proof fn lemma_ws_end(input: Seq<char>, pos: int)
    requires
        0 <= pos <= input.len(),
    ensures
        pos <= ws_end(input, pos) <= input.len(),
        forall|i: int| pos <= i < ws_end(input, pos) ==> is_whitespace_char(#[trigger] input[i]),
        ws_end(input, pos) < input.len() ==> !is_whitespace_char(input[ws_end(input, pos)]),
    decreases input.len() - pos,
{
    if pos < input.len() && is_whitespace_char(input[pos]) {
        lemma_ws_end(input, pos + 1);
    }
}

/// The run of letters starting at `pos` ends within the input, consists of
/// letters only, and stops at the first non-letter character.
pub proof fn lemma_word_end(input: Seq<char>, pos: int)
    requires
        0 <= pos <= input.len(),
    ensures
        pos <= word_end(input, pos) <= input.len(),
        forall|i: int| pos <= i < word_end(input, pos) ==> is_letter_char(#[trigger] input[i]),
        word_end(input, pos) < input.len() ==> !is_letter_char(input[word_end(input, pos)]),
        pos < input.len() && is_letter_char(input[pos]) ==> word_end(input, pos) > pos,
    decreases input.len() - pos,
{
    if pos < input.len() && is_letter_char(input[pos]) {
        lemma_word_end(input, pos + 1);
    }
}

/// The run of digits starting at `pos` ends within the input, consists of
/// digits only, and stops at the first non-digit character.
pub proof fn lemma_num_end(input: Seq<char>, pos: int)
    requires
        0 <= pos <= input.len(),
    ensures
        pos <= num_end(input, pos) <= input.len(),
        forall|i: int| pos <= i < num_end(input, pos) ==> is_digit_char(#[trigger] input[i]),
        num_end(input, pos) < input.len() ==> !is_digit_char(input[num_end(input, pos)]),
        pos < input.len() && is_digit_char(input[pos]) ==> num_end(input, pos) > pos,
    decreases input.len() - pos,
{
    if pos < input.len() && is_digit_char(input[pos]) {
        lemma_num_end(input, pos + 1);
    }
}

/// Each scan accounts exactly for the characters it consumes: everything from
/// the starting position to the literal's start is whitespace, the literal is
/// the exact source text from there to the new position, and end-of-input is
/// returned exactly when the whole input has been consumed.
pub proof fn lemma_token_accounting(input: Seq<char>, pos: int)
    requires
        0 <= pos <= input.len(),
    ensures
        ({
            let s = ws_end(input, pos);
            let r = spec_next_token(input, pos);
            &&& pos <= s <= r.2 <= input.len()
            &&& forall|i: int| pos <= i < s ==> is_whitespace_char(#[trigger] input[i])
            &&& r.1 == input.subrange(s, r.2)
            &&& r.1.len() == r.2 - s
            &&& (r.0 == TokenKind::Eof <==> s == input.len())
            &&& (r.0 == TokenKind::Eof ==> r.1 == Seq::<char>::empty() && r.2 == input.len())
            &&& (r.0 != TokenKind::Eof ==> r.2 > pos)
        }),
{
    lemma_ws_end(input, pos);
    let s = ws_end(input, pos);
    let r = spec_next_token(input, pos);
    if s >= input.len() {
        assert(r.1 =~= input.subrange(s, r.2));
    } else {
        let c = input[s];
        if (c == '=' || c == '!' || c == '<' || c == '>') && s + 1 < input.len() && input[s + 1]
            == '=' {
            assert(r.1 =~= input.subrange(s, s + 2));
        } else if c == '=' || c == '!' || c == '<' || c == '>' || c == '+' || c == '-' || c == '*'
            || c == '/' || c == ',' || c == ';' || c == '(' || c == ')' || c == '{' || c == '}' {
            assert(r.1 =~= input.subrange(s, s + 1));
        } else if is_letter_char(c) {
            lemma_word_end(input, s);
        } else if is_digit_char(c) {
            lemma_num_end(input, s);
        } else {
            assert(r.1 =~= input.subrange(s, s + 1));
        }
    }
}

/// How many characters the scans starting at `pos` consume in total, summed
/// over every call up to and including the one that returns end-of-input; a
/// call consumes the whitespace it skips plus the characters of its literal.
pub open spec fn consumed_from(input: Seq<char>, pos: int) -> int
    recommends
        0 <= pos <= input.len(),
    decreases input.len() - pos,
        when 0 <= pos <= input.len() via consumed_from_decreases
{
    let r = spec_next_token(input, pos);
    if r.0 == TokenKind::Eof {
        r.2 - pos
    } else {
        (r.2 - pos) + consumed_from(input, r.2)
    }
}

#[via_fn]
proof fn consumed_from_decreases(input: Seq<char>, pos: int) {
    lemma_token_accounting(input, pos);
}

proof fn lemma_consumed_from(input: Seq<char>, pos: int)
    requires
        0 <= pos <= input.len(),
    ensures
        consumed_from(input, pos) == input.len() - pos,
    decreases input.len() - pos,
{
    lemma_token_accounting(input, pos);
    let r = spec_next_token(input, pos);
    if r.0 != TokenKind::Eof {
        lemma_consumed_from(input, r.2);
    }
}

/// Scanning the whole input consumes exactly as many characters as the input
/// holds: the literal lengths of all returned tokens plus all skipped
/// whitespace total the input length once end-of-input is reached.
pub proof fn lemma_scan_consumes_whole_input(input: Seq<char>)
    ensures
        consumed_from(input, 0) == input.len(),
{
    lemma_consumed_from(input, 0);
}

/// Once a scan returns end-of-input the cursor rests at the end of the input,
/// and every further scan from there returns end-of-input again, with an empty
/// literal and an unchanged cursor position.
pub proof fn lemma_eof_idempotent(input: Seq<char>, pos: int)
    requires
        0 <= pos <= input.len(),
        spec_next_token(input, pos).0 == TokenKind::Eof,
    ensures
        spec_next_token(input, pos).2 == input.len(),
        spec_next_token(input, input.len() as int).0 == TokenKind::Eof,
        spec_next_token(input, input.len() as int).1 == Seq::<char>::empty(),
        spec_next_token(input, input.len() as int).2 == input.len(),
{
    lemma_token_accounting(input, pos);
    lemma_token_accounting(input, input.len() as int);
}

/// Maximal munch: an identifier, keyword or integer literal extends as far as
/// its character class allows — every character of the literal belongs to the
/// class, and the character right after the literal (if any) does not, so the
/// scan never stops at a shorter prefix.
pub proof fn lemma_maximal_munch(input: Seq<char>, pos: int)
    requires
        0 <= pos <= input.len(),
    ensures
        ({
            let s = ws_end(input, pos);
            let r = spec_next_token(input, pos);
            &&& (r.0 == TokenKind::Ident || r.0 == TokenKind::Fn || r.0 == TokenKind::Let) ==> {
                &&& r.1.len() > 0
                &&& forall|i: int| s <= i < r.2 ==> is_letter_char(#[trigger] input[i])
                &&& (r.2 == input.len() || !is_letter_char(input[r.2]))
            }
            &&& r.0 == TokenKind::Int ==> {
                &&& r.1.len() > 0
                &&& forall|i: int| s <= i < r.2 ==> is_digit_char(#[trigger] input[i])
                &&& (r.2 == input.len() || !is_digit_char(input[r.2]))
            }
        }),
{
    lemma_ws_end(input, pos);
    let s = ws_end(input, pos);
    if s < input.len() {
        if is_letter_char(input[s]) {
            lemma_word_end(input, s);
        } else if is_digit_char(input[s]) {
            lemma_num_end(input, s);
        }
    }
}

/// Two-character operators take priority over their one-character prefix: when
/// the current character is `=`, `!`, `<` or `>` and the character after it is
/// `=`, the scan emits the paired two-character kind and consumes both
/// characters; otherwise it emits the one-character kind and consumes one.
pub proof fn lemma_two_char_priority(input: Seq<char>, pos: int)
    requires
        0 <= pos <= input.len(),
    ensures
        ({
            let s = ws_end(input, pos);
            let r = spec_next_token(input, pos);
            let paired = s + 1 < input.len() && input[s + 1] == '=';
            &&& (s < input.len() && input[s] == '=' && paired) ==> r == (
                TokenKind::Eq,
                seq!['=', '='],
                s + 2,
            )
            &&& (s < input.len() && input[s] == '=' && !paired) ==> r == (
                TokenKind::Assign,
                seq!['='],
                s + 1,
            )
            &&& (s < input.len() && input[s] == '!' && paired) ==> r == (
                TokenKind::NotEq,
                seq!['!', '='],
                s + 2,
            )
            &&& (s < input.len() && input[s] == '!' && !paired) ==> r == (
                TokenKind::Bang,
                seq!['!'],
                s + 1,
            )
            &&& (s < input.len() && input[s] == '<' && paired) ==> r == (
                TokenKind::LtEq,
                seq!['<', '='],
                s + 2,
            )
            &&& (s < input.len() && input[s] == '<' && !paired) ==> r == (
                TokenKind::Lt,
                seq!['<'],
                s + 1,
            )
            &&& (s < input.len() && input[s] == '>' && paired) ==> r == (
                TokenKind::GtEq,
                seq!['>', '='],
                s + 2,
            )
            &&& (s < input.len() && input[s] == '>' && !paired) ==> r == (
                TokenKind::Gt,
                seq!['>'],
                s + 1,
            )
        }),
{
}

/// Literal fidelity: every token's literal is the exact source text it was
/// scanned from; operator and punctuation tokens carry their canonical
/// spelling, the end-of-input token an empty literal, and an illegal token
/// exactly the one offending character.
pub proof fn lemma_literal_fidelity(input: Seq<char>, pos: int)
    requires
        0 <= pos <= input.len(),
    ensures
        ({
            let s = ws_end(input, pos);
            let r = spec_next_token(input, pos);
            &&& r.1 == input.subrange(s, r.2)
            &&& r.0 == TokenKind::Assign ==> r.1 == seq!['=']
            &&& r.0 == TokenKind::Plus ==> r.1 == seq!['+']
            &&& r.0 == TokenKind::Minus ==> r.1 == seq!['-']
            &&& r.0 == TokenKind::Asterisk ==> r.1 == seq!['*']
            &&& r.0 == TokenKind::Slash ==> r.1 == seq!['/']
            &&& r.0 == TokenKind::Eq ==> r.1 == seq!['=', '=']
            &&& r.0 == TokenKind::NotEq ==> r.1 == seq!['!', '=']
            &&& r.0 == TokenKind::Bang ==> r.1 == seq!['!']
            &&& r.0 == TokenKind::Lt ==> r.1 == seq!['<']
            &&& r.0 == TokenKind::Gt ==> r.1 == seq!['>']
            &&& r.0 == TokenKind::LtEq ==> r.1 == seq!['<', '=']
            &&& r.0 == TokenKind::GtEq ==> r.1 == seq!['>', '=']
            &&& r.0 == TokenKind::Comma ==> r.1 == seq![',']
            &&& r.0 == TokenKind::Semicolon ==> r.1 == seq![';']
            &&& r.0 == TokenKind::Lparen ==> r.1 == seq!['(']
            &&& r.0 == TokenKind::Rparen ==> r.1 == seq![')']
            &&& r.0 == TokenKind::Lbrace ==> r.1 == seq!['{']
            &&& r.0 == TokenKind::Rbrace ==> r.1 == seq!['}']
            &&& r.0 == TokenKind::Eof ==> r.1 == Seq::<char>::empty()
            &&& r.0 == TokenKind::Illegal ==> r.1 == seq![input[s]]
        }),
{
    lemma_token_accounting(input, pos);
}

} // verus!
