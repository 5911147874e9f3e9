//! The scanner: a byte buffer, a cursor, and the classification rules that
//! produce one token per call.

use vstd::prelude::*;
use crate::model::{joined, spec_step, step_value, is_ident_byte, is_digit_byte, is_ws_run_byte, ident_end, num_end, num_sees_dot, ws_end, newline_count, bytes_as_chars, invalid_char};
use crate::laws::lemma_newline_count_snoc;
use crate::token::Token;
use crate::token::TokenKind;

verus! {

/// The scanner state: the input buffer, the cached buffer length, the byte
/// offset of the next unconsumed byte, and the 1-based column and row
/// counters.  `col` grows once per consumed byte and is never reset; `row`
/// grows once per consumed newline.
pub struct Lexer {
    pub input: Vec<u8>,
    pub max_position: usize,
    pub position: usize,
    pub col: usize,
    pub row: usize,
}

impl Lexer {
    /// Well-formedness: the cached length is the buffer's, the cursor stays
    /// inside the buffer, and the counters stay small enough that advancing
    /// one byte cannot overflow them.  The buffer is kept strictly below
    /// `usize::MAX` bytes so that a column counter one past the end still
    /// fits.
    pub open spec fn wf(&self) -> bool {
        &&& self.max_position == self.input@.len()
        &&& self.input@.len() < usize::MAX
        &&& self.position <= self.max_position
        &&& 1 <= self.col && self.col <= self.position + 1
        &&& 1 <= self.row && self.row <= self.col
    }

    /// A fresh scanner over `input`, cursor at the start, row and column 1.
    pub fn new(input: Vec<u8>) -> (r: Lexer)
        requires
            input@.len() < usize::MAX,
        ensures
            r.wf(),
            r.input@ == input@,
            r.position == 0,
            r.row == 1,
            r.col == 1,
    {
        let max = input.len();
        Lexer { input, max_position: max, position: 0, col: 1, row: 1 }
    }

    /// A scanner over the given argument buffers joined with single spaces;
    /// no arguments yield an empty buffer.
    pub fn from_args(args: Vec<Vec<u8>>) -> (r: Lexer)
        requires
            joined(args@.map(|_i: int, a: Vec<u8>| a@)).len() < usize::MAX,
        ensures
            r.wf(),
            r.input@ == joined(args@.map(|_i: int, a: Vec<u8>| a@)),
            r.position == 0,
            r.row == 1,
            r.col == 1,
    {
        let ghost parts = args@.map(|_i: int, a: Vec<u8>| a@);
        let mut buf: Vec<u8> = Vec::new();
        let n = args.len();
        let mut i: usize = 0;
        while i < n
            invariant
                n == args@.len(),
                i <= n,
                parts == args@.map(|_i: int, a: Vec<u8>| a@),
                buf@ == joined(parts.subrange(0, i as int)),
                joined(parts).len() < usize::MAX,
            decreases n - i,
        {
            proof {
                assert(parts.subrange(0, i + 1).drop_last() =~= parts.subrange(0, i as int));
                assert(parts.subrange(0, i + 1).last() == parts[i as int]);
            }
            if i > 0 {
                buf.push(32);
            }
            let ghost base = buf@;
            let m = args[i].len();
            let mut j: usize = 0;
            while j < m
                invariant
                    i < args@.len(),
                    m == args@[i as int]@.len(),
                    j <= m,
                    buf@ == base + args@[i as int]@.subrange(0, j as int),
                decreases m - j,
            {
                let b = args[i][j];
                buf.push(b);
                proof {
                    assert(base + args@[i as int]@.subrange(0, j + 1) =~= (base + args@[
                        i as int]@.subrange(0, j as int)).push(b));
                }
                j = j + 1;
            }
            proof {
                assert(args@[i as int]@.subrange(0, m as int) =~= parts[i as int]);
                if i == 0 {
                    assert(buf@ =~= joined(parts.subrange(0, i + 1)));
                } else {
                    assert(buf@ =~= joined(parts.subrange(0, i as int)) + seq![32]
                        + parts[i as int]);
                }
            }
            i = i + 1;
        }
        proof {
            assert(parts.subrange(0, n as int) =~= parts);
        }
        Lexer::new(buf)
    }

    /// The byte at the cursor, or 0 once the input is exhausted.
    fn current_byte(&self) -> (b: u8)
        requires
            self.wf(),
        ensures
            b == (if self.position < self.input@.len() {
                self.input@[self.position as int]
            } else {
                0u8
            }),
    {
        if self.has_next() {
            self.input[self.position]
        } else {
            0
        }
    }

    /// The byte one past the cursor, or 0 when none exists.
    fn next_byte(&self) -> (b: u8)
        requires
            self.wf(),
            self.position < self.max_position,
        ensures
            b == (if self.position + 1 < self.input@.len() {
                self.input@[self.position + 1]
            } else {
                0u8
            }),
    {
        self.peek(1)
    }

    /// The byte `offset` places past the cursor, or 0 when that falls outside
    /// the buffer.
    fn peek(&self, offset: usize) -> (b: u8)
        requires
            self.wf(),
            self.position + offset <= usize::MAX,
        ensures
            b == (if self.position + offset < self.input@.len() {
                self.input@[self.position + offset]
            } else {
                0u8
            }),
    {
        let index = self.position + offset;
        if index < self.max_position {
            self.input[index]
        } else {
            0
        }
    }

    /// Consume one byte: the cursor and the column counter move one step.
    /// The row counter is left to the caller, who alone can see a newline.
    fn advance_char(&mut self)
        requires
            old(self).position < old(self).max_position,
            old(self).max_position == old(self).input@.len(),
            old(self).input@.len() < usize::MAX,
            old(self).col <= old(self).position + 1,
        ensures
            final(self).input@ == old(self).input@,
            final(self).max_position == old(self).max_position,
            final(self).position == old(self).position + 1,
            final(self).col == old(self).col + 1,
            final(self).row == old(self).row,
    {
        self.position += 1;
        self.col += 1;
    }

    /// Whether any unconsumed byte remains.
    fn has_next(&self) -> (r: bool)
        requires
            self.wf(),
        ensures
            r == (self.position < self.input@.len()),
    {
        self.position < self.max_position
    }

    /// Whether the cursor stands on a byte the whitespace rule consumes.
    fn at_ws_run(&self) -> (r: bool)
        requires
            self.wf(),
        ensures
            r == (self.position < self.input@.len() && is_ws_run_byte(
                self.input@[self.position as int],
            )),
    {
        if self.has_next() {
            let b = self.current_byte();
            b == 32 || b == 9 || b == 13 || b == 10
        } else {
            false
        }
    }

    /// Whether the cursor stands on an identifier byte.
    fn at_ident(&self) -> (r: bool)
        requires
            self.wf(),
        ensures
            r == (self.position < self.input@.len() && is_ident_byte(
                self.input@[self.position as int],
            )),
    {
        if self.has_next() {
            let b = self.current_byte();
            (97 <= b && b <= 122) || (65 <= b && b <= 90) || b == 95
        } else {
            false
        }
    }

    /// Produce one token, advancing the cursor past its bytes.  The whole
    /// effect — classification, consumed range, token text, and the new
    /// cursor state — is exactly one step of the model's scanner.
    pub fn next(&mut self) -> (t: Token)
        requires
            old(self).wf(),
        ensures
            final(self).wf(),
            final(self).input@ == old(self).input@,
            final(self).max_position == old(self).max_position,
            ({
                let s = spec_step(
                    old(self).input@,
                    old(self).position as int,
                    old(self).row as int,
                    old(self).col as int,
                );
                &&& final(self).position as int == s.pos
                &&& final(self).row as int == s.row
                &&& final(self).col as int == s.col
                &&& t.kind == s.kind
                &&& t.value@ == step_value(old(self).input@, s)
                &&& t.loc.0 == final(self).row
                &&& t.loc.1 == final(self).col
            }),
    {
        let b = self.current_byte();
        if (97 <= b && b <= 122) || (65 <= b && b <= 90) || b == 95 {
            let start = self.position;
            self.identifier(start)
        } else if 48 <= b && b <= 57 {
            self.number()
        } else if (0x21 <= b && b <= 0x2f) || (0x3a <= b && b <= 0x40) || (0x5b <= b && b <= 0x60)
            || (0x7b <= b && b <= 0x7e) {
            let start = self.position;
            self.advance_char();
            self.token(TokenKind::Ponct, start)
        } else if b == 32 || b == 9 || b == 10 || b == 0x0c || b == 13 {
            self.whitespace()
        } else {
            if self.has_next() {
                let start = self.position;
                self.invalid(start, start + 1)
            } else {
                self.null()
            }
        }
    }

    /// Consume the maximal whitespace run at the cursor, counting newlines
    /// into `row`, and produce the `Whitespace` token covering it.
    fn whitespace(&mut self) -> (t: Token)
        requires
            old(self).wf(),
        ensures
            final(self).wf(),
            final(self).input@ == old(self).input@,
            final(self).max_position == old(self).max_position,
            final(self).position as int == ws_end(old(self).input@, old(self).position as int),
            final(self).row as int == old(self).row + newline_count(
                old(self).input@,
                old(self).position as int,
                final(self).position as int,
            ),
            final(self).col as int == old(self).col + (final(self).position
                - old(self).position),
            t.kind == TokenKind::Whitespace,
            t.value@ == bytes_as_chars(
                old(self).input@.subrange(old(self).position as int, final(self).position as int),
            ),
            t.loc.0 == final(self).row,
            t.loc.1 == final(self).col,
    {
        let ghost input0 = self.input@;
        let ghost pos0 = self.position as int;
        let ghost row0 = self.row as int;
        let ghost col0 = self.col as int;
        let start = self.position;
        while self.at_ws_run()
            invariant
                self.wf(),
                self.input@ == input0,
                start as int == pos0,
                pos0 <= self.position as int <= input0.len(),
                ws_end(input0, pos0) == ws_end(input0, self.position as int),
                self.row as int == row0 + newline_count(input0, pos0, self.position as int),
                self.col as int == col0 + (self.position - pos0),
                forall|k: int| pos0 <= k < self.position as int ==> is_ws_run_byte(input0[k]),
            decreases input0.len() - self.position,
        {
            let ghost prev = self.position as int;
            let b = self.current_byte();
            if b == 10 {
                self.row += 1;
            }
            self.advance_char();
            proof {
                lemma_newline_count_snoc(input0, pos0, prev);
            }
        }
        self.token(TokenKind::Whitespace, start)
    }

    /// Consume the maximal numeric run at the cursor — digits, and any dot
    /// directly followed by a digit — and produce the `Int` or `Float` token
    /// covering it.
    fn number(&mut self) -> (t: Token)
        requires
            old(self).wf(),
        ensures
            final(self).wf(),
            final(self).input@ == old(self).input@,
            final(self).max_position == old(self).max_position,
            final(self).position as int == num_end(old(self).input@, old(self).position as int),
            final(self).row == old(self).row,
            final(self).col as int == old(self).col + (final(self).position
                - old(self).position),
            t.kind == (if num_sees_dot(old(self).input@, old(self).position as int) {
                TokenKind::Float
            } else {
                TokenKind::Int
            }),
            t.value@ == bytes_as_chars(
                old(self).input@.subrange(old(self).position as int, final(self).position as int),
            ),
            t.loc.0 == final(self).row,
            t.loc.1 == final(self).col,
    {
        let ghost input0 = self.input@;
        let ghost pos0 = self.position as int;
        let ghost row0 = self.row as int;
        let ghost col0 = self.col as int;
        let start = self.position;
        let mut kind = TokenKind::Int;
        loop
            invariant
                self.wf(),
                self.input@ == input0,
                start as int == pos0,
                pos0 <= self.position as int <= input0.len(),
                num_end(input0, pos0) == num_end(input0, self.position as int),
                num_sees_dot(input0, pos0) == (kind == TokenKind::Float || num_sees_dot(
                    input0,
                    self.position as int,
                )),
                kind == TokenKind::Int || kind == TokenKind::Float,
                self.row as int == row0,
                self.col as int == col0 + (self.position - pos0),
                forall|k: int|
                    pos0 <= k < self.position as int ==> (is_digit_byte(input0[k]) || input0[k]
                        == 46),
            ensures
                self.wf(),
                self.input@ == input0,
                self.position as int == num_end(input0, pos0),
                (kind == TokenKind::Float) == num_sees_dot(input0, pos0),
                kind == TokenKind::Int || kind == TokenKind::Float,
                self.row as int == row0,
                self.col as int == col0 + (self.position - pos0),
                forall|k: int|
                    pos0 <= k < self.position as int ==> (is_digit_byte(input0[k]) || input0[k]
                        == 46),
            decreases input0.len() - self.position,
        {
            let b = self.current_byte();
            if 48 <= b && b <= 57 {
                self.advance_char();
            } else if b == 46 {
                let nb = self.next_byte();
                if 48 <= nb && nb <= 57 {
                    kind = TokenKind::Float;
                    self.advance_char();
                } else {
                    break;
                }
            } else {
                break;
            }
        }
        self.token(kind, start)
    }

    /// Consume the maximal identifier run beginning at `start` (the cursor)
    /// and produce the `Identifier` token covering it.
    fn identifier(&mut self, start: usize) -> (t: Token)
        requires
            old(self).wf(),
            start == old(self).position,
        ensures
            final(self).wf(),
            final(self).input@ == old(self).input@,
            final(self).max_position == old(self).max_position,
            final(self).position as int == ident_end(old(self).input@, old(self).position as int),
            final(self).row == old(self).row,
            final(self).col as int == old(self).col + (final(self).position
                - old(self).position),
            t.kind == TokenKind::Identifier,
            t.value@ == bytes_as_chars(
                old(self).input@.subrange(old(self).position as int, final(self).position as int),
            ),
            t.loc.0 == final(self).row,
            t.loc.1 == final(self).col,
    {
        let ghost input0 = self.input@;
        let ghost pos0 = self.position as int;
        let ghost row0 = self.row as int;
        let ghost col0 = self.col as int;
        while self.at_ident()
            invariant
                self.wf(),
                self.input@ == input0,
                pos0 <= self.position as int <= input0.len(),
                ident_end(input0, pos0) == ident_end(input0, self.position as int),
                self.row as int == row0,
                self.col as int == col0 + (self.position - pos0),
                forall|k: int| pos0 <= k < self.position as int ==> is_ident_byte(input0[k]),
            decreases input0.len() - self.position,
        {
            self.advance_char();
        }
        self.token(TokenKind::Identifier, start)
    }

    /// The token covering `[start, position)`, its text decoded from those
    /// bytes, its location the cursor state after consumption.
    fn token(&self, kind: TokenKind, start: usize) -> (t: Token)
        requires
            self.wf(),
            start <= self.position,
            forall|k: int| start <= k < self.position as int ==> self.input@[k] < 0x80,
        ensures
            t.kind == kind,
            t.value@ == bytes_as_chars(
                self.input@.subrange(start as int, self.position as int),
            ),
            t.loc.0 == self.row,
            t.loc.1 == self.col,
    {
        let value = self.slice_string(start, self.position);
        Token::new(kind, value, (self.row, self.col))
    }

    /// The bytes `[start, stop)` decoded as text, invalid sequences replaced.
    ///
    /// Relies on `String::from_utf8_lossy`: bytes below 0x80 are valid UTF-8
    /// and decode to the characters they encode, and a lone byte at or above
    /// 0x80 is one invalid sequence, replaced by one replacement character.
    #[verifier::external_body]
    fn slice_string(&self, start: usize, stop: usize) -> (r: String)
        requires
            start <= stop,
            stop <= self.input@.len(),
        ensures
            (forall|k: int| start <= k < stop ==> self.input@[k] < 0x80) ==> r@ == bytes_as_chars(
                self.input@.subrange(start as int, stop as int),
            ),
            (stop == start + 1 && self.input@[start as int] >= 0x80) ==> r@ == seq!['\u{FFFD}'],
    {
        String::from_utf8_lossy(&self.input[start..stop]).into_owned()
    }

    /// Consume the one byte at the cursor as an `Invalid` token and end the
    /// scan for good by jumping the cursor to the end of the buffer.
    fn invalid(&mut self, start: usize, stop: usize) -> (t: Token)
        requires
            old(self).wf(),
            start == old(self).position,
            stop == start + 1,
            old(self).position < old(self).input@.len(),
        ensures
            final(self).wf(),
            final(self).input@ == old(self).input@,
            final(self).max_position == old(self).max_position,
            final(self).position == old(self).max_position,
            final(self).row == old(self).row,
            final(self).col == old(self).col + 1,
            t.kind == TokenKind::Invalid,
            t.value@ == seq![invalid_char(old(self).input@[start as int])],
            t.loc.0 == final(self).row,
            t.loc.1 == final(self).col,
    {
        let value = self.slice_string(start, stop);
        proof {
            if self.input@[start as int] < 0x80 {
                assert(value@ =~= seq![invalid_char(self.input@[start as int])]);
            }
        }
        self.col += 1;
        self.position = self.max_position;
        Token::invalid(value, (self.row, self.col))
    }

    /// The terminal token: nothing remains, nothing is consumed.
    fn null(&self) -> (t: Token)
        ensures
            t.kind == TokenKind::Null,
            t.value@ == Seq::<char>::empty(),
            t.loc.0 == self.row,
            t.loc.1 == self.col,
    {
        Token::null((self.row, self.col))
    }
}

} // verus!

