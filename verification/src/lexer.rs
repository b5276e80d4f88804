//! The lexer of the surface language.
//!
//! It scans the input's UTF-8 bytes one token per call: identifiers and
//! keywords, decimal integers, one- and two-byte operators, delimiters, and
//! `Eof` once the input is exhausted. A byte that starts no token lexes as
//! `Illegal`, as does a decimal literal too large for the token's integer.
//! `next_token_v` is the mathematical model every call is proved against.

use vstd::prelude::*;
use vstd::utf8::encode_utf8;

use crate::token::{Token, TokenV};

verus! {

/// Whitespace the lexer skips between tokens.
pub open spec fn is_ws_byte(c: u8) -> bool {
    c == 32u8 || c == 9u8 || c == 10u8 || c == 13u8
}

/// A byte that may appear in an identifier: an ASCII letter or underscore.
pub open spec fn is_letter_byte(c: u8) -> bool {
    (97u8 <= c && c <= 122u8) || (65u8 <= c && c <= 90u8) || c == 95u8
}

/// An ASCII decimal digit.
pub open spec fn is_digit_byte(c: u8) -> bool {
    48u8 <= c && c <= 57u8
}

/// The byte at position `i`, or zero past the end (the lexer's end marker).
pub open spec fn byte_at(s: Seq<u8>, i: int) -> u8 {
    if 0 <= i < s.len() {
        s[i]
    } else {
        0
    }
}

/// The position after `i`, staying put at the end of the input.
pub open spec fn advance_v(s: Seq<u8>, i: int) -> int {
    if i < s.len() {
        i + 1
    } else {
        i
    }
}

/// The first position at or after `i` holding no whitespace.
pub open spec fn skip_ws_v(s: Seq<u8>, i: int) -> int
    decreases s.len() - i,
{
    if 0 <= i < s.len() && is_ws_byte(s[i]) {
        skip_ws_v(s, i + 1)
    } else {
        i
    }
}

/// The first position at or after `i` holding no identifier byte.
pub open spec fn ident_end_v(s: Seq<u8>, i: int) -> int
    decreases s.len() - i,
{
    if 0 <= i < s.len() && is_letter_byte(s[i]) {
        ident_end_v(s, i + 1)
    } else {
        i
    }
}

/// The first position at or after `i` holding no digit.
pub open spec fn digit_end_v(s: Seq<u8>, i: int) -> int
    decreases s.len() - i,
{
    if 0 <= i < s.len() && is_digit_byte(s[i]) {
        digit_end_v(s, i + 1)
    } else {
        i
    }
}

/// The value of a run of decimal digits, most significant first.
pub open spec fn digits_value_v(s: Seq<u8>) -> int
    decreases s.len(),
{
    if s.len() == 0 {
        0
    } else {
        digits_value_v(s.drop_last()) * 10 + (s.last() - 48u8)
    }
}

/// The token a word of identifier bytes stands for: one of the eight
/// keywords, a boolean literal, or an identifier.
pub open spec fn keyword_token_v(name: Seq<u8>) -> TokenV {
    if name == seq![102u8, 117u8, 110u8, 99u8, 116u8, 105u8, 111u8, 110u8] {
        TokenV::Function
    } else if name == seq![108u8, 101u8, 116u8] {
        TokenV::Let
    } else if name == seq![116u8, 114u8, 117u8, 101u8] {
        TokenV::Bool { value: true }
    } else if name == seq![102u8, 97u8, 108u8, 115u8, 101u8] {
        TokenV::Bool { value: false }
    } else if name == seq![105u8, 102u8] {
        TokenV::If
    } else if name == seq![101u8, 108u8, 115u8, 101u8] {
        TokenV::Else
    } else if name == seq![114u8, 101u8, 116u8, 117u8, 114u8, 110u8] {
        TokenV::Return
    } else if name == seq![97u8, 115u8, 115u8, 101u8, 114u8, 116u8] {
        TokenV::Assert
    } else {
        TokenV::Ident { name }
    }
}

/// The token a digit run's value lexes to: the integer if it fits the token's
/// machine integer, `Illegal` otherwise.
pub open spec fn int_token_v(v: int) -> TokenV {
    if v <= i64::MAX as int {
        TokenV::Int { value: v }
    } else {
        TokenV::Illegal
    }
}

/// The next token of `s` from position `pos`, and the position after it.
pub open spec fn next_token_v(s: Seq<u8>, pos: int) -> (TokenV, int) {
    let i = skip_ws_v(s, pos);
    let c = byte_at(s, i);
    if is_letter_byte(c) {
        let e = ident_end_v(s, i);
        (keyword_token_v(s.subrange(i, e)), e)
    } else if is_digit_byte(c) {
        let e = digit_end_v(s, i);
        (int_token_v(digits_value_v(s.subrange(i, e))), e)
    } else if c == 61u8 {
        if byte_at(s, i + 1) == 61u8 {
            (TokenV::Equal, advance_v(s, advance_v(s, i)))
        } else {
            (TokenV::Assign, advance_v(s, i))
        }
    } else if c == 33u8 {
        if byte_at(s, i + 1) == 61u8 {
            (TokenV::NotEqual, advance_v(s, advance_v(s, i)))
        } else {
            (TokenV::Bang, advance_v(s, i))
        }
    } else if c == 43u8 {
        (TokenV::Plus, advance_v(s, i))
    } else if c == 45u8 {
        (TokenV::Minus, advance_v(s, i))
    } else if c == 42u8 {
        (TokenV::Asterisk, advance_v(s, i))
    } else if c == 47u8 {
        (TokenV::Slash, advance_v(s, i))
    } else if c == 60u8 {
        (TokenV::LessThan, advance_v(s, i))
    } else if c == 62u8 {
        (TokenV::GreaterThan, advance_v(s, i))
    } else if c == 44u8 {
        (TokenV::Comma, advance_v(s, i))
    } else if c == 59u8 {
        (TokenV::Semicolon, advance_v(s, i))
    } else if c == 40u8 {
        (TokenV::Lparen, advance_v(s, i))
    } else if c == 41u8 {
        (TokenV::Rparen, advance_v(s, i))
    } else if c == 123u8 {
        (TokenV::Lbrace, advance_v(s, i))
    } else if c == 125u8 {
        (TokenV::Rbrace, advance_v(s, i))
    } else if c == 0 {
        (TokenV::Eof, advance_v(s, i))
    } else {
        (TokenV::Illegal, advance_v(s, i))
    }
}

/// Relies on `String::from_utf8`: bytes below 128 are valid UTF-8 and decode
/// one character per byte, so the result's UTF-8 encoding is exactly the
/// input. `requires` rules the `Err` case out.
#[verifier::external_body]
fn string_from_ascii(bytes: Vec<u8>) -> (r: String)
    requires
        forall|k: int| 0 <= k < bytes@.len() ==> bytes@[k] < 128,
    ensures
        encode_utf8(r@) == bytes@,
{
    String::from_utf8(bytes).unwrap()
}

fn keyword_or_ident(word: Vec<u8>) -> (t: Token)
    requires
        forall|k: int| 0 <= k < word@.len() ==> is_letter_byte(#[trigger] word@[k]),
    ensures
        t.deep_view() == keyword_token_v(word@),
{
    let t = if word.len() == 8 && word[0] == 102u8 && word[1] == 117u8 && word[2] == 110u8
        && word[3] == 99u8 && word[4] == 116u8 && word[5] == 105u8 && word[6] == 111u8
        && word[7] == 110u8 {
        proof {
            assert(word@ =~= seq![102u8, 117u8, 110u8, 99u8, 116u8, 105u8, 111u8, 110u8]);
        }
        Token::Function
    } else if word.len() == 3 && word[0] == 108u8 && word[1] == 101u8 && word[2] == 116u8 {
        proof {
            assert(word@ =~= seq![108u8, 101u8, 116u8]);
        }
        Token::Let
    } else if word.len() == 4 && word[0] == 116u8 && word[1] == 114u8 && word[2] == 117u8
        && word[3] == 101u8 {
        proof {
            assert(word@ =~= seq![116u8, 114u8, 117u8, 101u8]);
        }
        Token::Bool(true)
    } else if word.len() == 5 && word[0] == 102u8 && word[1] == 97u8 && word[2] == 108u8
        && word[3] == 115u8 && word[4] == 101u8 {
        proof {
            assert(word@ =~= seq![102u8, 97u8, 108u8, 115u8, 101u8]);
        }
        Token::Bool(false)
    } else if word.len() == 2 && word[0] == 105u8 && word[1] == 102u8 {
        proof {
            assert(word@ =~= seq![105u8, 102u8]);
        }
        Token::If
    } else if word.len() == 4 && word[0] == 101u8 && word[1] == 108u8 && word[2] == 115u8
        && word[3] == 101u8 {
        proof {
            assert(word@ =~= seq![101u8, 108u8, 115u8, 101u8]);
        }
        Token::Else
    } else if word.len() == 6 && word[0] == 114u8 && word[1] == 101u8 && word[2] == 116u8
        && word[3] == 117u8 && word[4] == 114u8 && word[5] == 110u8 {
        proof {
            assert(word@ =~= seq![114u8, 101u8, 116u8, 117u8, 114u8, 110u8]);
        }
        Token::Return
    } else if word.len() == 6 && word[0] == 97u8 && word[1] == 115u8 && word[2] == 115u8
        && word[3] == 101u8 && word[4] == 114u8 && word[5] == 116u8 {
        proof {
            assert(word@ =~= seq![97u8, 115u8, 115u8, 101u8, 114u8, 116u8]);
        }
        Token::Assert
    } else {
        let ghost w = word@;
        let s = string_from_ascii(word);
        proof {
            assert(keyword_token_v(w) == (TokenV::Ident { name: w }));
        }
        Token::Ident(s)
    };
    t
}

/// A lexer over one input string, consuming its UTF-8 bytes left to right.
pub struct Lexer<'a> {
    input: &'a [u8],
    position: usize,
}

impl<'a> Lexer<'a> {
    /// The input's bytes.
    pub closed spec fn bytes(&self) -> Seq<u8> {
        self.input@
    }

    /// The position of the next byte to read.
    pub closed spec fn pos(&self) -> int {
        self.position as int
    }

    /// A lexer positioned at the start of `input`.
    pub fn new(input: &'a str) -> (r: Self)
        ensures
            r.bytes() == encode_utf8(input@),
            r.pos() == 0,
    {
        Lexer { input: input.as_bytes(), position: 0 }
    }

    fn current(&self) -> (c: u8)
        ensures
            c == byte_at(self.bytes(), self.pos()),
    {
        if self.position < self.input.len() {
            self.input[self.position]
        } else {
            0
        }
    }

    fn peek_char(&self) -> (c: u8)
        ensures
            c == byte_at(self.bytes(), self.pos() + 1),
    {
        if self.position < self.input.len() {
            if self.position + 1 < self.input.len() {
                self.input[self.position + 1]
            } else {
                0
            }
        } else {
            0
        }
    }

    fn read_char(&mut self)
        ensures
            final(self).bytes() == old(self).bytes(),
            final(self).pos() == advance_v(old(self).bytes(), old(self).pos()),
    {
        if self.position < self.input.len() {
            self.position = self.position + 1;
        }
    }

    fn skip_whitespace(&mut self)
        ensures
            final(self).bytes() == old(self).bytes(),
            final(self).pos() == skip_ws_v(old(self).bytes(), old(self).pos()),
    {
        loop
            invariant
                self.bytes() == old(self).bytes(),
                skip_ws_v(self.bytes(), old(self).pos()) == skip_ws_v(self.bytes(), self.pos()),
            ensures
                self.bytes() == old(self).bytes(),
                skip_ws_v(self.bytes(), old(self).pos()) == skip_ws_v(self.bytes(), self.pos()),
                !is_ws_byte(byte_at(self.bytes(), self.pos())),
            decreases self.bytes().len() - self.pos(),
        {
            let c = self.current();
            if c == 32u8 || c == 9u8 || c == 10u8 || c == 13u8 {
                self.read_char();
            } else {
                break ;
            }
        }
    }

    fn read_identifier(&mut self) -> (t: Token)
        requires
            is_letter_byte(byte_at(old(self).bytes(), old(self).pos())),
        ensures
            final(self).bytes() == old(self).bytes(),
            final(self).pos() == ident_end_v(old(self).bytes(), old(self).pos()),
            t.deep_view() == keyword_token_v(
                old(self).bytes().subrange(
                    old(self).pos(),
                    ident_end_v(old(self).bytes(), old(self).pos()),
                ),
            ),
    {
        let mut word: Vec<u8> = Vec::new();
        proof {
            assert(word@ =~= self.bytes().subrange(old(self).pos(), self.pos()));
        }
        loop
            invariant
                self.bytes() == old(self).bytes(),
                old(self).pos() <= self.pos() <= self.bytes().len(),
                word@ == self.bytes().subrange(old(self).pos(), self.pos()),
                forall|k: int| 0 <= k < word@.len() ==> is_letter_byte(#[trigger] word@[k]),
                ident_end_v(self.bytes(), old(self).pos()) == ident_end_v(
                    self.bytes(),
                    self.pos(),
                ),
            ensures
                self.bytes() == old(self).bytes(),
                self.pos() == ident_end_v(old(self).bytes(), old(self).pos()),
                word@ == self.bytes().subrange(old(self).pos(), self.pos()),
                forall|k: int| 0 <= k < word@.len() ==> is_letter_byte(#[trigger] word@[k]),
            decreases self.bytes().len() - self.pos(),
        {
            let c = self.current();
            if (97u8 <= c && c <= 122u8) || (65u8 <= c && c <= 90u8) || c == 95u8 {
                word.push(c);
                self.read_char();
                proof {
                    assert(word@ =~= self.bytes().subrange(old(self).pos(), self.pos()));
                }
            } else {
                break ;
            }
        }
        proof {
            assert(forall|k: int|
                0 <= k < word@.len() ==> (#[trigger] word@[k]) < 128 && is_letter_byte(word@[k]));
        }
        keyword_or_ident(word)
    }

    fn read_number(&mut self) -> (t: Token)
        requires
            is_digit_byte(byte_at(old(self).bytes(), old(self).pos())),
        ensures
            final(self).bytes() == old(self).bytes(),
            final(self).pos() == digit_end_v(old(self).bytes(), old(self).pos()),
            t.deep_view() == int_token_v(
                digits_value_v(
                    old(self).bytes().subrange(
                        old(self).pos(),
                        digit_end_v(old(self).bytes(), old(self).pos()),
                    ),
                ),
            ),
    {
        let mut word: Vec<u8> = Vec::new();
        proof {
            assert(word@ =~= self.bytes().subrange(old(self).pos(), self.pos()));
        }
        loop
            invariant
                self.bytes() == old(self).bytes(),
                old(self).pos() <= self.pos() <= self.bytes().len(),
                word@ == self.bytes().subrange(old(self).pos(), self.pos()),
                forall|k: int| 0 <= k < word@.len() ==> is_digit_byte(#[trigger] word@[k]),
                digit_end_v(self.bytes(), old(self).pos()) == digit_end_v(
                    self.bytes(),
                    self.pos(),
                ),
            ensures
                self.bytes() == old(self).bytes(),
                self.pos() == digit_end_v(old(self).bytes(), old(self).pos()),
                word@ == self.bytes().subrange(old(self).pos(), self.pos()),
                forall|k: int| 0 <= k < word@.len() ==> is_digit_byte(#[trigger] word@[k]),
            decreases self.bytes().len() - self.pos(),
        {
            let c = self.current();
            if 48u8 <= c && c <= 57u8 {
                word.push(c);
                self.read_char();
                proof {
                    assert(word@ =~= self.bytes().subrange(old(self).pos(), self.pos()));
                }
            } else {
                break ;
            }
        }
        // decode the digits, watching for overflow of the token's integer
        let ghost w = word@;
        let mut acc: i64 = 0;
        let mut k: usize = 0;
        while k < word.len()
            invariant
                0 <= k <= word@.len(),
                word@ == w,
                self.bytes() == old(self).bytes(),
                self.pos() == digit_end_v(old(self).bytes(), old(self).pos()),
                w == old(self).bytes().subrange(old(self).pos(), self.pos()),
                forall|j: int| 0 <= j < word@.len() ==> is_digit_byte(#[trigger] word@[j]),
                0 <= acc as int <= i64::MAX as int,
                acc as int == digits_value_v(w.take(k as int)),
            decreases word@.len() - k,
        {
            let d = word[k] - 48u8;
            proof {
                assert(w.take(k as int + 1).drop_last() =~= w.take(k as int));
                assert(w.take(k as int + 1).last() == w[k as int]);
            }
            if acc <= (i64::MAX - d as i64) / 10 {
                acc = acc * 10 + d as i64;
            } else {
                proof {
                    assert(digits_value_v(w.take(k as int + 1)) > i64::MAX as int);
                    lemma_digits_value_grows(w, k as int + 1);
                }
                return Token::Illegal;
            }
            k = k + 1;
        }
        proof {
            assert(w.take(word@.len() as int) =~= w);
        }
        Token::Int(acc)
    }

    /// Skips whitespace, then lexes the next token, leaving the position just
    /// after it. At the end of the input every further call yields `Eof`.
    pub fn next_token(&mut self) -> (t: Token)
        ensures
            final(self).bytes() == old(self).bytes(),
            ({
                let (tv, p) = next_token_v(old(self).bytes(), old(self).pos());
                &&& t.deep_view() == tv
                &&& final(self).pos() == p
            }),
    {
        self.skip_whitespace();
        let c = self.current();
        if (97u8 <= c && c <= 122u8) || (65u8 <= c && c <= 90u8) || c == 95u8 {
            return self.read_identifier();
        }
        if 48u8 <= c && c <= 57u8 {
            return self.read_number();
        }
        if c == 61u8 {
            if self.peek_char() == 61u8 {
                self.read_char();
                self.read_char();
                return Token::Equal;
            }
            self.read_char();
            return Token::Assign;
        }
        if c == 33u8 {
            if self.peek_char() == 61u8 {
                self.read_char();
                self.read_char();
                return Token::NotEqual;
            }
            self.read_char();
            return Token::Bang;
        }
        let t = if c == 43u8 {
            Token::Plus
        } else if c == 45u8 {
            Token::Minus
        } else if c == 42u8 {
            Token::Asterisk
        } else if c == 47u8 {
            Token::Slash
        } else if c == 60u8 {
            Token::LessThan
        } else if c == 62u8 {
            Token::GreaterThan
        } else if c == 44u8 {
            Token::Comma
        } else if c == 59u8 {
            Token::Semicolon
        } else if c == 40u8 {
            Token::Lparen
        } else if c == 41u8 {
            Token::Rparen
        } else if c == 123u8 {
            Token::Lbrace
        } else if c == 125u8 {
            Token::Rbrace
        } else if c == 0 {
            Token::Eof
        } else {
            Token::Illegal
        };
        self.read_char();
        t
    }
}

/// A run of digits is worth at least any of its prefixes: appending digits
/// never shrinks the value.
proof fn lemma_digits_value_grows(s: Seq<u8>, k: int)
    requires
        0 <= k <= s.len(),
        forall|j: int| 0 <= j < s.len() ==> is_digit_byte(#[trigger] s[j]),
    ensures
        digits_value_v(s) >= digits_value_v(s.take(k)),
        digits_value_v(s.take(k)) >= 0,
    decreases s.len() - k,
{
    lemma_digits_value_nonneg(s.take(k));
    if k < s.len() {
        lemma_digits_value_grows(s, k + 1);
        assert(s.take(k + 1).drop_last() =~= s.take(k));
        assert(digits_value_v(s.take(k + 1)) >= digits_value_v(s.take(k)));
    } else {
        assert(s.take(k) =~= s);
    }
}

/// A run of digits is never worth a negative value.
proof fn lemma_digits_value_nonneg(s: Seq<u8>)
    requires
        forall|j: int| 0 <= j < s.len() ==> is_digit_byte(#[trigger] s[j]),
    ensures
        digits_value_v(s) >= 0,
    decreases s.len(),
{
    if s.len() > 0 {
        lemma_digits_value_nonneg(s.drop_last());
    }
}

} // verus!
