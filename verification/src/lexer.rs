use vstd::prelude::*;

use crate::scan::{
    char_is_alphabetic, is_digit_char, is_letter_char, is_whitespace_char, num_end,
    spec_next_token, word_end, ws_end,
};
use crate::token::{match_literal_to_kind, Token, TokenKind};

verus! {

/// The scanner: the decoded source characters and a forward-only cursor over
/// them, held as a current index and a read (lookahead) index.
pub struct Lexer {
    input: Vec<char>,
    current_position: usize,
    read_position: usize,
}

/// Relies on String::push: appends exactly the given character.
#[verifier::external_body]
fn push_char(s: &mut String, c: char)
    ensures
        final(s)@ == old(s)@.push(c),
{
    s.push(c);
}

impl Lexer {
    /// The characters being scanned.
    pub closed spec fn chars(self) -> Seq<char> {
        self.input@
    }

    /// The cursor: how many characters have been consumed so far. It only
    /// moves forward, and saturates at the input length.
    pub closed spec fn pos(self) -> int {
        self.current_position as int
    }

    /// The cursor invariant: the read index trails the current index by
    /// exactly one until the cursor saturates at the input length, where both
    /// indices rest.
    pub closed spec fn well_formed(self) -> bool {
        &&& self.current_position <= self.input@.len()
        &&& (self.current_position < self.input@.len() ==> self.read_position
            == self.current_position + 1)
        &&& (self.current_position == self.input@.len() ==> self.read_position == self.input@.len())
    }

    /// A well-formed scanner's cursor lies within its input: the bound the
    /// scan lemmas ask of a position.
    pub proof fn lemma_pos_in_range(self)
        requires
            self.well_formed(),
        ensures
            0 <= self.pos() <= self.chars().len(),
    {
    }

    /// Builds a scanner over the whole input and primes the cursor on the
    /// first character. Never fails; empty input is valid.
    pub fn new(input: Vec<char>) -> (lexer: Lexer)
        ensures
            lexer.well_formed(),
            lexer.chars() == input@,
            lexer.pos() == 0,
    {
        let read_position: usize = if input.len() == 0 {
            0
        } else {
            1
        };
        Lexer { input, current_position: 0, read_position }
    }

    /// Advances the cursor by one character, saturating at the end of the
    /// input.
    pub fn read_ch(&mut self)
        requires
            old(self).well_formed(),
        ensures
            final(self).well_formed(),
            final(self).chars() == old(self).chars(),
            final(self).pos() == if old(self).pos() < old(self).chars().len() {
                old(self).pos() + 1
            } else {
                old(self).chars().len() as int
            },
    {
        if self.read_position >= self.input.len() {
            self.current_position = self.input.len();
            self.read_position = self.input.len();
        } else {
            self.current_position = self.read_position;
            self.read_position = self.read_position + 1;
        }
    }

    /// The character one past the current one, if the input still holds one.
    fn peek_ahead(&self) -> (c: Option<char>)
        requires
            self.well_formed(),
        ensures
            c == if self.pos() + 1 < self.chars().len() {
                Some(self.chars()[self.pos() + 1])
            } else {
                None::<char>
            },
    {
        if self.read_position < self.input.len() {
            Some(self.input[self.read_position])
        } else {
            None
        }
    }

    /// Whether the character can start or continue an identifier.
    fn is_letter(ch: char) -> (r: bool)
        ensures
            r == is_letter_char(ch),
    {
        char_is_alphabetic(ch) || ch == '_'
    }

    /// Whether the character is a decimal digit.
    fn is_digit(ch: char) -> (r: bool)
        ensures
            r == is_digit_char(ch),
    {
        '0' <= ch && ch <= '9'
    }

    /// Whether the character is whitespace the scanner skips.
    fn is_whitespace(ch: char) -> (r: bool)
        ensures
            r == is_whitespace_char(ch),
    {
        ch == ' ' || ch == '\t' || ch == '\n' || ch == '\r'
    }

    /// Advances the cursor past every whitespace character before the next
    /// token.
    fn skip_whitespace(&mut self)
        requires
            old(self).well_formed(),
        ensures
            final(self).well_formed(),
            final(self).chars() == old(self).chars(),
            final(self).pos() == ws_end(old(self).chars(), old(self).pos()),
    {
        let ghost input0 = self.chars();
        let ghost pos0: int = self.pos();
        while self.current_position < self.input.len() && Lexer::is_whitespace(
            self.input[self.current_position],
        )
            invariant
                self.well_formed(),
                self.chars() == input0,
                0 <= pos0 <= self.pos() <= input0.len(),
                ws_end(input0, pos0) == ws_end(input0, self.pos()),
            decreases input0.len() - self.pos(),
        {
            self.read_ch();
        }
    }

    /// Consumes the maximal run of letters/underscores at the cursor and
    /// returns it as the literal text.
    fn read_identifier(&mut self) -> (literal: String)
        requires
            old(self).well_formed(),
        ensures
            final(self).well_formed(),
            final(self).chars() == old(self).chars(),
            final(self).pos() == word_end(old(self).chars(), old(self).pos()),
            literal@ == old(self).chars().subrange(
                old(self).pos(),
                word_end(old(self).chars(), old(self).pos()),
            ),
    {
        let mut identifier = String::new();
        let ghost input0 = self.chars();
        let ghost pos0: int = self.pos();
        while self.current_position < self.input.len() && Lexer::is_letter(
            self.input[self.current_position],
        )
            invariant
                self.well_formed(),
                self.chars() == input0,
                0 <= pos0 <= self.pos() <= input0.len(),
                word_end(input0, pos0) == word_end(input0, self.pos()),
                identifier@ == input0.subrange(pos0, self.pos()),
            decreases input0.len() - self.pos(),
        {
            push_char(&mut identifier, self.input[self.current_position]);
            proof {
                assert(input0.subrange(pos0, self.pos() + 1) =~= input0.subrange(
                    pos0,
                    self.pos(),
                ).push(input0[self.pos()]));
            }
            self.read_ch();
        }
        proof {
            assert(identifier@ =~= input0.subrange(pos0, word_end(input0, pos0)));
        }
        identifier
    }

    /// Consumes the maximal run of decimal digits at the cursor and returns it
    /// as the literal text.
    fn read_number(&mut self) -> (literal: String)
        requires
            old(self).well_formed(),
        ensures
            final(self).well_formed(),
            final(self).chars() == old(self).chars(),
            final(self).pos() == num_end(old(self).chars(), old(self).pos()),
            literal@ == old(self).chars().subrange(
                old(self).pos(),
                num_end(old(self).chars(), old(self).pos()),
            ),
    {
        let mut num = String::new();
        let ghost input0 = self.chars();
        let ghost pos0: int = self.pos();
        while self.current_position < self.input.len() && Lexer::is_digit(
            self.input[self.current_position],
        )
            invariant
                self.well_formed(),
                self.chars() == input0,
                0 <= pos0 <= self.pos() <= input0.len(),
                num_end(input0, pos0) == num_end(input0, self.pos()),
                num@ == input0.subrange(pos0, self.pos()),
            decreases input0.len() - self.pos(),
        {
            push_char(&mut num, self.input[self.current_position]);
            proof {
                assert(input0.subrange(pos0, self.pos() + 1) =~= input0.subrange(
                    pos0,
                    self.pos(),
                ).push(input0[self.pos()]));
            }
            self.read_ch();
        }
        proof {
            assert(num@ =~= input0.subrange(pos0, num_end(input0, pos0)));
        }
        num
    }

    /// Packs a kind and a literal into a token.
    fn new_token(token_kind: TokenKind, token_literal: String) -> (token: Token)
        ensures
            token.kind == token_kind,
            token.literal == token_literal,
    {
        Token { kind: token_kind, literal: token_literal }
    }

    /// Produces the next token: skips whitespace, classifies the current
    /// character, consumes exactly the token's characters, and leaves the
    /// cursor one past them. At end of input it returns the end-of-input token
    /// and stays there.
    pub fn next_token(&mut self) -> (token: Token)
        requires
            old(self).well_formed(),
        ensures
            final(self).well_formed(),
            final(self).chars() == old(self).chars(),
            token.kind == spec_next_token(old(self).chars(), old(self).pos()).0,
            token.literal@ == spec_next_token(old(self).chars(), old(self).pos()).1,
            final(self).pos() == spec_next_token(old(self).chars(), old(self).pos()).2,
    {
        self.skip_whitespace();

        if self.current_position >= self.input.len() {
            return Lexer::new_token(TokenKind::Eof, String::new());
        }
        let ch = self.input[self.current_position];

        let token: Token = match ch {
            '=' => {
                if self.peek_ahead() == Some('=') {
                    self.read_ch();
                    proof {
                        reveal_strlit("==");
                        assert("=="@ =~= seq!['=', '=']);
                    }
                    Lexer::new_token(TokenKind::Eq, "==".to_owned())
                } else {
                    proof {
                        reveal_strlit("=");
                        assert("="@ =~= seq!['=']);
                    }
                    Lexer::new_token(TokenKind::Assign, "=".to_owned())
                }
            },
            '+' => {
                proof {
                    reveal_strlit("+");
                    assert("+"@ =~= seq!['+']);
                }
                Lexer::new_token(TokenKind::Plus, "+".to_owned())
            },
            '(' => {
                proof {
                    reveal_strlit("(");
                    assert("("@ =~= seq!['(']);
                }
                Lexer::new_token(TokenKind::Lparen, "(".to_owned())
            },
            ')' => {
                proof {
                    reveal_strlit(")");
                    assert(")"@ =~= seq![')']);
                }
                Lexer::new_token(TokenKind::Rparen, ")".to_owned())
            },
            '{' => {
                proof {
                    reveal_strlit("{");
                    assert("{"@ =~= seq!['{']);
                }
                Lexer::new_token(TokenKind::Lbrace, "{".to_owned())
            },
            '}' => {
                proof {
                    reveal_strlit("}");
                    assert("}"@ =~= seq!['}']);
                }
                Lexer::new_token(TokenKind::Rbrace, "}".to_owned())
            },
            ',' => {
                proof {
                    reveal_strlit(",");
                    assert(","@ =~= seq![',']);
                }
                Lexer::new_token(TokenKind::Comma, ",".to_owned())
            },
            ';' => {
                proof {
                    reveal_strlit(";");
                    assert(";"@ =~= seq![';']);
                }
                Lexer::new_token(TokenKind::Semicolon, ";".to_owned())
            },
            '-' => {
                proof {
                    reveal_strlit("-");
                    assert("-"@ =~= seq!['-']);
                }
                Lexer::new_token(TokenKind::Minus, "-".to_owned())
            },
            '/' => {
                proof {
                    reveal_strlit("/");
                    assert("/"@ =~= seq!['/']);
                }
                Lexer::new_token(TokenKind::Slash, "/".to_owned())
            },
            '*' => {
                proof {
                    reveal_strlit("*");
                    assert("*"@ =~= seq!['*']);
                }
                Lexer::new_token(TokenKind::Asterisk, "*".to_owned())
            },
            '!' => {
                if self.peek_ahead() == Some('=') {
                    self.read_ch();
                    proof {
                        reveal_strlit("!=");
                        assert("!="@ =~= seq!['!', '=']);
                    }
                    Lexer::new_token(TokenKind::NotEq, "!=".to_owned())
                } else {
                    proof {
                        reveal_strlit("!");
                        assert("!"@ =~= seq!['!']);
                    }
                    Lexer::new_token(TokenKind::Bang, "!".to_owned())
                }
            },
            '<' => {
                if self.peek_ahead() == Some('=') {
                    self.read_ch();
                    proof {
                        reveal_strlit("<=");
                        assert("<="@ =~= seq!['<', '=']);
                    }
                    Lexer::new_token(TokenKind::LtEq, "<=".to_owned())
                } else {
                    proof {
                        reveal_strlit("<");
                        assert("<"@ =~= seq!['<']);
                    }
                    Lexer::new_token(TokenKind::Lt, "<".to_owned())
                }
            },
            '>' => {
                if self.peek_ahead() == Some('=') {
                    self.read_ch();
                    proof {
                        reveal_strlit(">=");
                        assert(">="@ =~= seq!['>', '=']);
                    }
                    Lexer::new_token(TokenKind::GtEq, ">=".to_owned())
                } else {
                    proof {
                        reveal_strlit(">");
                        assert(">"@ =~= seq!['>']);
                    }
                    Lexer::new_token(TokenKind::Gt, ">".to_owned())
                }
            },
            _ => {
                if Lexer::is_letter(ch) {
                    let literal = self.read_identifier();
                    let kind = match_literal_to_kind(literal.as_str());
                    return Token { kind, literal };
                }
                if Lexer::is_digit(ch) {
                    let literal = self.read_number();
                    return Token { kind: TokenKind::Int, literal };
                }
                let mut illegal = String::new();
                push_char(&mut illegal, ch);
                proof {
                    assert(illegal@ =~= seq![ch]);
                }
                Lexer::new_token(TokenKind::Illegal, illegal)
            },
        };

        self.read_ch();

        token
    }
}

} // verus!
