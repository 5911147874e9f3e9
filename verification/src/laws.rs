//! Stream-wide guarantees of the scanner, proved over the model in
//! [`crate::model`]: bounds of the maximal runs, strict cursor progress,
//! termination of every scan, the halt-on-invalid rule, and the tiling of the
//! buffer by the produced tokens.

use vstd::prelude::*;
use crate::model::{spec_step, step_value, scan_state, scan_token, scan_values, is_ident_byte, is_digit_byte, is_punct_byte, is_ws_dispatch_byte, is_ws_run_byte, is_invalid_byte, ident_end, num_end, ws_end, newline_count, bytes_as_chars};
use crate::token::TokenKind;

verus! {

/// The maximal identifier run stays inside the buffer, covers only
/// identifier bytes, and stops right before the first byte of another class.
pub proof fn lemma_ident_end(input: Seq<u8>, i: int)
    requires
        0 <= i <= input.len(),
    ensures
        i <= ident_end(input, i) <= input.len(),
        forall|k: int| i <= k < ident_end(input, i) ==> is_ident_byte(input[k]),
        ident_end(input, i) < input.len() ==> !is_ident_byte(input[ident_end(input, i)]),
    decreases input.len() - i,
{
    if i < input.len() && is_ident_byte(input[i]) {
        lemma_ident_end(input, i + 1);
    }
}

/// The maximal numeric run stays inside the buffer and covers only digits and
/// dots, which are all ASCII.
pub proof fn lemma_num_end(input: Seq<u8>, i: int)
    requires
        0 <= i <= input.len(),
    ensures
        i <= num_end(input, i) <= input.len(),
        forall|k: int|
            i <= k < num_end(input, i) ==> (is_digit_byte(input[k]) || input[k] == 46),
    decreases input.len() - i,
{
    if i < input.len() && is_digit_byte(input[i]) {
        lemma_num_end(input, i + 1);
    } else if i + 1 < input.len() && input[i] == 46 && is_digit_byte(input[i + 1]) {
        lemma_num_end(input, i + 1);
    }
}

/// The maximal whitespace run stays inside the buffer and covers only
/// whitespace run bytes.
pub proof fn lemma_ws_end(input: Seq<u8>, i: int)
    requires
        0 <= i <= input.len(),
    ensures
        i <= ws_end(input, i) <= input.len(),
        forall|k: int| i <= k < ws_end(input, i) ==> is_ws_run_byte(input[k]),
    decreases input.len() - i,
{
    if i < input.len() && is_ws_run_byte(input[i]) {
        lemma_ws_end(input, i + 1);
    }
}

/// Determinism: the `n`-th token of a fresh scan is a function of the buffer
/// alone, so scans over equal buffers agree on every token and on every text.
/// The contract of `Lexer::next` ties each call of a scanner to exactly these
/// steps, so repeated full scans of one buffer produce identical sequences.
pub proof fn lemma_scan_deterministic(first: Seq<u8>, second: Seq<u8>, n: nat)
    requires
        first == second,
    ensures
        scan_token(first, n) == scan_token(second, n),
        scan_values(first, n) == scan_values(second, n),
{
}

/// One scanning step stays inside the buffer, never moves the cursor
/// backwards, covers exactly the bytes between the old and new cursor (one
/// byte for `Invalid`, which then jumps to the end), produces `Null` exactly
/// at the end of input, and moves strictly forward wherever a token is still
/// to be had — that is, everywhere but at a form-feed byte, which the
/// whitespace rule claims and never consumes.
pub proof fn lemma_step_bounds(input: Seq<u8>, pos: int, row: int, col: int)
    requires
        0 <= pos <= input.len(),
    ensures
        ({
            let s = spec_step(input, pos, row, col);
            &&& s.lo == pos
            &&& pos <= s.pos <= input.len()
            &&& s.lo <= s.hi <= input.len()
            &&& s.kind != TokenKind::Invalid ==> s.hi == s.pos
            &&& s.kind == TokenKind::Invalid ==> s.hi == s.lo + 1 && s.pos == input.len()
            &&& (s.kind == TokenKind::Null <==> pos == input.len())
            &&& s.kind == TokenKind::Null ==> s.pos == pos && s.row == row && s.col == col
                && s.hi == s.lo
            &&& (pos < input.len() && input[pos] != 0x0c) ==> s.pos > pos
        }),
{
    if 0 <= pos < input.len() {
        let b = input[pos];
        if is_ident_byte(b) {
            lemma_ident_end(input, pos + 1);
        } else if is_digit_byte(b) {
            lemma_num_end(input, pos + 1);
        } else if is_punct_byte(b) {
        } else if is_ws_dispatch_byte(b) {
            lemma_ws_end(input, pos);
            if b != 0x0c {
                lemma_ws_end(input, pos + 1);
            }
        }
    }
}

/// The cursor of a fresh scan stays inside the buffer.
pub proof fn lemma_scan_state_bounds(input: Seq<u8>, n: nat)
    ensures
        0 <= scan_state(input, n).pos <= input.len(),
    decreases n,
{
    if n > 0 {
        lemma_scan_state_bounds(input, (n - 1) as nat);
        let st = scan_state(input, (n - 1) as nat);
        lemma_step_bounds(input, st.pos, st.row, st.col);
    }
}

/// After `n` calls the cursor is at least `n` bytes in, unless it has already
/// reached the end — each call makes strict progress while the buffer holds
/// no form-feed byte.
proof fn lemma_scan_pos_lower(input: Seq<u8>, n: nat)
    requires
        forall|i: int| 0 <= i < input.len() ==> input[i] != 0x0c,
    ensures
        scan_state(input, n).pos >= n || scan_state(input, n).pos == input.len(),
    decreases n,
{
    if n > 0 {
        lemma_scan_pos_lower(input, (n - 1) as nat);
        lemma_scan_state_bounds(input, (n - 1) as nat);
        let st = scan_state(input, (n - 1) as nat);
        lemma_step_bounds(input, st.pos, st.row, st.col);
    }
}

/// Once the cursor has reached the end of the buffer it stays there.
proof fn lemma_stuck_at_end(input: Seq<u8>, n: nat, m: nat)
    requires
        scan_state(input, n).pos == input.len(),
        n <= m,
    ensures
        scan_state(input, m).pos == input.len(),
    decreases m - n,
{
    if n < m {
        lemma_stuck_at_end(input, n, (m - 1) as nat);
    }
}

/// Termination: over a buffer without form-feed bytes, a scan reaches the end
/// of input within one call per byte, and from then on every call yields the
/// terminal `Null` token without moving.
pub proof fn lemma_scan_terminates(input: Seq<u8>, n: nat)
    requires
        forall|i: int| 0 <= i < input.len() ==> input[i] != 0x0c,
        n >= input.len(),
    ensures
        scan_state(input, n).pos == input.len(),
        scan_token(input, n).kind == TokenKind::Null,
{
    lemma_scan_pos_lower(input, n);
    lemma_scan_state_bounds(input, n);
    let st = scan_state(input, n);
    lemma_step_bounds(input, st.pos, st.row, st.col);
}

/// Halt on invalid: after an `Invalid` token, every later call yields `Null`,
/// whatever bytes remain in the buffer.
pub proof fn lemma_invalid_then_null(input: Seq<u8>, n: nat, m: nat)
    requires
        scan_token(input, n).kind == TokenKind::Invalid,
        n < m,
    ensures
        scan_token(input, m).kind == TokenKind::Null,
{
    lemma_scan_state_bounds(input, n);
    let st = scan_state(input, n);
    lemma_step_bounds(input, st.pos, st.row, st.col);
    assert(scan_state(input, (n + 1) as nat).pos == input.len());
    lemma_stuck_at_end(input, (n + 1) as nat, m);
    let stm = scan_state(input, m);
    lemma_step_bounds(input, stm.pos, stm.row, stm.col);
}

/// A byte in no class yields an `Invalid` token covering exactly that one
/// byte, and ends productive scanning: every later call yields `Null`.
pub proof fn lemma_invalid_byte_halts(input: Seq<u8>, n: nat)
    requires
        scan_state(input, n).pos < input.len(),
        is_invalid_byte(input[scan_state(input, n).pos]),
    ensures
        scan_token(input, n).kind == TokenKind::Invalid,
        scan_token(input, n).lo == scan_state(input, n).pos,
        scan_token(input, n).hi == scan_state(input, n).pos + 1,
        forall|m: nat| m > n ==> #[trigger] scan_token(input, m).kind == TokenKind::Null,
{
    lemma_scan_state_bounds(input, n);
    let st = scan_state(input, n);
    lemma_step_bounds(input, st.pos, st.row, st.col);
    assert forall|m: nat| m > n implies #[trigger] scan_token(input, m).kind == TokenKind::Null by {
        lemma_invalid_then_null(input, n, m);
    }
}

/// An empty buffer yields the terminal `Null` token, with an empty text, on
/// the very first call.
pub proof fn lemma_empty_scan(input: Seq<u8>)
    requires
        input.len() == 0,
    ensures
        scan_token(input, 0).kind == TokenKind::Null,
        step_value(input, scan_token(input, 0)) == Seq::<char>::empty(),
{
    assert(step_value(input, scan_token(input, 0)) =~= Seq::<char>::empty());
}

/// Coverage: while neither `Invalid` nor `Null` has been produced, the
/// concatenated token texts spell exactly the decoded prefix of the buffer
/// that the cursor has consumed so far — token byte ranges tile the buffer
/// from its start, with nothing skipped and nothing read twice.
pub proof fn lemma_scan_coverage(input: Seq<u8>, n: nat)
    requires
        forall|m: nat|
            m < n ==> (#[trigger] scan_token(input, m).kind != TokenKind::Invalid && scan_token(
                input,
                m,
            ).kind != TokenKind::Null),
    ensures
        scan_values(input, n) == bytes_as_chars(input.subrange(0, scan_state(input, n).pos)),
    decreases n,
{
    lemma_scan_state_bounds(input, n);
    if n == 0 {
        assert(scan_values(input, 0) =~= bytes_as_chars(input.subrange(0, 0)));
    } else {
        lemma_scan_coverage(input, (n - 1) as nat);
        lemma_scan_state_bounds(input, (n - 1) as nat);
        let st = scan_state(input, (n - 1) as nat);
        let s = scan_token(input, (n - 1) as nat);
        lemma_step_bounds(input, st.pos, st.row, st.col);
        assert(bytes_as_chars(input.subrange(0, st.pos)) + bytes_as_chars(
            input.subrange(st.pos, s.pos),
        ) =~= bytes_as_chars(input.subrange(0, s.pos)));
    }
}

/// Consuming one more byte adds one newline to the count exactly when that
/// byte is a newline.
pub proof fn lemma_newline_count_snoc(input: Seq<u8>, i: int, j: int)
    requires
        i <= j,
    ensures
        newline_count(input, i, j + 1) == newline_count(input, i, j) + (
        if 0 <= j < input.len() && input[j] == 10 {
            1int
        } else {
            0int
        }),
    decreases j - i,
{
    if i < j {
        lemma_newline_count_snoc(input, i + 1, j);
    } else {
        assert(newline_count(input, j + 1, j + 1) == 0);
    }
}

} // verus!
