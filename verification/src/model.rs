//! The mathematical model of the scanner: byte classification, maximal runs,
//! and the one-token step function that every call of `Lexer::next` realises.

use vstd::prelude::*;
use crate::token::TokenKind;

verus! {

/// Bytes that start and continue an identifier: ASCII letters and underscore.
/// Digits are deliberately excluded, even mid-token.
pub open spec fn is_ident_byte(b: u8) -> bool {
    (97 <= b && b <= 122) || (65 <= b && b <= 90) || b == 95
}

/// ASCII decimal digits.
pub open spec fn is_digit_byte(b: u8) -> bool {
    48 <= b && b <= 57
}

/// ASCII punctuation, `!` through `~` minus letters and digits.
pub open spec fn is_punct_byte(b: u8) -> bool {
    (0x21 <= b && b <= 0x2f) || (0x3a <= b && b <= 0x40) || (0x5b <= b && b <= 0x60) || (0x7b
        <= b && b <= 0x7e)
}

/// Bytes that dispatch to the whitespace rule: ASCII whitespace, form feed
/// included.
pub open spec fn is_ws_dispatch_byte(b: u8) -> bool {
    b == 32 || b == 9 || b == 10 || b == 0x0c || b == 13
}

/// Bytes the whitespace rule actually consumes: space, tab, carriage return
/// and newline.  Form feed dispatches to the rule but is never consumed.
pub open spec fn is_ws_run_byte(b: u8) -> bool {
    b == 32 || b == 9 || b == 13 || b == 10
}

/// A byte in no class at all; one of these ends the scan.
pub open spec fn is_invalid_byte(b: u8) -> bool {
    !is_ident_byte(b) && !is_digit_byte(b) && !is_punct_byte(b) && !is_ws_dispatch_byte(b)
}

/// End of the maximal identifier run starting at `i`.
pub open spec fn ident_end(input: Seq<u8>, i: int) -> int
    decreases input.len() - i,
{
    if 0 <= i && i < input.len() && is_ident_byte(input[i]) {
        ident_end(input, i + 1)
    } else {
        i
    }
}

/// End of the maximal numeric run starting at `i`: digits, and a dot whenever
/// the byte right after the dot is again a digit.
pub open spec fn num_end(input: Seq<u8>, i: int) -> int
    decreases input.len() - i,
{
    if 0 <= i && i < input.len() && is_digit_byte(input[i]) {
        num_end(input, i + 1)
    } else if 0 <= i && i + 1 < input.len() && input[i] == 46 && is_digit_byte(input[i + 1]) {
        num_end(input, i + 1)
    } else {
        i
    }
}

/// Whether the numeric run starting at `i` consumes a dot, which turns the
/// token from `Int` into `Float`.
pub open spec fn num_sees_dot(input: Seq<u8>, i: int) -> bool
    decreases input.len() - i,
{
    if 0 <= i && i < input.len() && is_digit_byte(input[i]) {
        num_sees_dot(input, i + 1)
    } else if 0 <= i && i + 1 < input.len() && input[i] == 46 && is_digit_byte(input[i + 1]) {
        true
    } else {
        false
    }
}

/// End of the maximal whitespace run starting at `i`.
pub open spec fn ws_end(input: Seq<u8>, i: int) -> int
    decreases input.len() - i,
{
    if 0 <= i && i < input.len() && is_ws_run_byte(input[i]) {
        ws_end(input, i + 1)
    } else {
        i
    }
}

/// How many newline bytes stand in `input[i..j)`; each one advances `row`.
pub open spec fn newline_count(input: Seq<u8>, i: int, j: int) -> int
    decreases j - i,
{
    if i < j {
        (if 0 <= i && i < input.len() && input[i] == 10 {
            1int
        } else {
            0int
        }) + newline_count(input, i + 1, j)
    } else {
        0
    }
}

/// ASCII bytes read as the characters they encode.
pub open spec fn bytes_as_chars(bytes: Seq<u8>) -> Seq<char> {
    bytes.map(|_i: int, b: u8| b as char)
}

/// The character a lone invalid byte decodes to: itself when it is ASCII, the
/// replacement character otherwise (lossy decoding).
pub open spec fn invalid_char(b: u8) -> char {
    if b < 0x80 {
        b as char
    } else {
        '\u{FFFD}'
    }
}

/// Everything one call of the scanner does: the token's kind, the byte range
/// `[lo, hi)` its text covers, and the cursor state after the call.
pub ghost struct Step {
    pub kind: TokenKind,
    pub lo: int,
    pub hi: int,
    pub pos: int,
    pub row: int,
    pub col: int,
}

/// One scanning step from cursor state `(pos, row, col)`, in dispatch order:
/// identifier, number, punctuation, whitespace, then invalid or end of input.
pub open spec fn spec_step(input: Seq<u8>, pos: int, row: int, col: int) -> Step {
    if !(0 <= pos && pos < input.len()) {
        Step { kind: TokenKind::Null, lo: pos, hi: pos, pos, row, col }
    } else {
        let b = input[pos];
        if is_ident_byte(b) {
            let end = ident_end(input, pos);
            Step {
                kind: TokenKind::Identifier,
                lo: pos,
                hi: end,
                pos: end,
                row,
                col: col + (end - pos),
            }
        } else if is_digit_byte(b) {
            let end = num_end(input, pos);
            Step {
                kind: if num_sees_dot(input, pos) {
                    TokenKind::Float
                } else {
                    TokenKind::Int
                },
                lo: pos,
                hi: end,
                pos: end,
                row,
                col: col + (end - pos),
            }
        } else if is_punct_byte(b) {
            Step { kind: TokenKind::Ponct, lo: pos, hi: pos + 1, pos: pos + 1, row, col: col + 1 }
        } else if is_ws_dispatch_byte(b) {
            let end = ws_end(input, pos);
            Step {
                kind: TokenKind::Whitespace,
                lo: pos,
                hi: end,
                pos: end,
                row: row + newline_count(input, pos, end),
                col: col + (end - pos),
            }
        } else {
            Step {
                kind: TokenKind::Invalid,
                lo: pos,
                hi: pos + 1,
                pos: input.len() as int,
                row,
                col: col + 1,
            }
        }
    }
}

/// The text of a step's token: the lossy decoding of the bytes it covers.
/// Every consumed byte of a non-`Invalid` token is ASCII, so there the
/// decoding reads the bytes as characters directly.
pub open spec fn step_value(input: Seq<u8>, s: Step) -> Seq<char> {
    if s.kind == TokenKind::Invalid {
        seq![invalid_char(input[s.lo])]
    } else {
        bytes_as_chars(input.subrange(s.lo, s.hi))
    }
}

/// The cursor state after `n` tokens have been requested from a fresh scan.
pub ghost struct ScanState {
    pub pos: int,
    pub row: int,
    pub col: int,
}

/// The state a fresh scanner over `input` is in after `n` calls.
pub open spec fn scan_state(input: Seq<u8>, n: nat) -> ScanState
    decreases n,
{
    if n == 0 {
        ScanState { pos: 0, row: 1, col: 1 }
    } else {
        let st = scan_state(input, (n - 1) as nat);
        let s = spec_step(input, st.pos, st.row, st.col);
        ScanState { pos: s.pos, row: s.row, col: s.col }
    }
}

/// The `n`-th token (counting from zero) of a fresh scan over `input`.
pub open spec fn scan_token(input: Seq<u8>, n: nat) -> Step {
    let st = scan_state(input, n);
    spec_step(input, st.pos, st.row, st.col)
}

/// The concatenated texts of the first `n` tokens of a fresh scan.
pub open spec fn scan_values(input: Seq<u8>, n: nat) -> Seq<char>
    decreases n,
{
    if n == 0 {
        Seq::<char>::empty()
    } else {
        scan_values(input, (n - 1) as nat) + step_value(input, scan_token(input, (n - 1) as nat))
    }
}

/// The argument buffers joined into one, a single space between neighbours.
pub open spec fn joined(parts: Seq<Seq<u8>>) -> Seq<u8>
    decreases parts.len(),
{
    if parts.len() == 0 {
        Seq::<u8>::empty()
    } else if parts.len() == 1 {
        parts[0]
    } else {
        joined(parts.drop_last()) + seq![32] + parts.last()
    }
}

} // verus!
