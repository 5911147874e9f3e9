//! Token values: one classified unit of input, with its kind, its exact text,
//! and the cursor position recorded after its bytes were consumed.

use vstd::prelude::*;
use vstd::string::StringExecFns;

verus! {

/// The closed set of token classifications.  `Op` is reserved: no
/// classification rule currently produces it.
#[derive(PartialEq, Eq, Debug, Copy, Clone, Structural)]
pub enum TokenKind {
    Whitespace,
    Invalid,
    Null,
    Int,
    Float,
    Identifier,
    Ponct,
    Op,
}

/// One lexical unit.  `value` is the text consumed for this token and `loc`
/// is the `(row, col)` pair read after consumption finished.
#[derive(PartialEq, Eq, Debug)]
pub struct Token {
    pub kind: TokenKind,
    pub value: String,
    pub loc: (usize, usize),
}

impl Clone for Token {
    /// A clone keeps the kind, the text and the location.
    fn clone(&self) -> (r: Self)
        ensures
            r.kind == self.kind,
            r.value@ == self.value@,
            r.loc == self.loc,
    {
        Token { kind: self.kind, value: self.value.clone(), loc: (self.loc.0, self.loc.1) }
    }
}

/// The canonical name of a kind, as its human-readable rendering shows it.
pub open spec fn kind_name(kind: TokenKind) -> Seq<char> {
    match kind {
        TokenKind::Whitespace => "Whitespace"@,
        TokenKind::Invalid => "Invalid"@,
        TokenKind::Null => "Null"@,
        TokenKind::Int => "Int"@,
        TokenKind::Float => "Float"@,
        TokenKind::Identifier => "Identifier"@,
        TokenKind::Ponct => "Ponct"@,
        TokenKind::Op => "Op"@,
    }
}

/// The character for one decimal digit value.
pub open spec fn dec_digit(d: int) -> char {
    (d + 48) as char
}

/// The decimal rendering of a non-negative integer, most significant digit
/// first, with no sign and no padding.
pub open spec fn dec_of(n: int) -> Seq<char>
    decreases n,
{
    if n < 10 {
        seq![dec_digit(n)]
    } else {
        dec_of(n / 10).push(dec_digit(n % 10))
    }
}

/// The rendering of a location pair, `"{row}:{col}"`.
pub open spec fn loc_text(loc: (usize, usize)) -> Seq<char> {
    dec_of(loc.0 as int) + seq![':'] + dec_of(loc.1 as int)
}

fn digit_str(d: u8) -> (r: &'static str)
    requires
        d < 10,
    ensures
        r@ == seq![dec_digit(d as int)],
{
    proof {
        reveal_strlit("0");
        reveal_strlit("1");
        reveal_strlit("2");
        reveal_strlit("3");
        reveal_strlit("4");
        reveal_strlit("5");
        reveal_strlit("6");
        reveal_strlit("7");
        reveal_strlit("8");
        reveal_strlit("9");
    }
    match d {
        0 => "0",
        1 => "1",
        2 => "2",
        3 => "3",
        4 => "4",
        5 => "5",
        6 => "6",
        7 => "7",
        8 => "8",
        _ => "9",
    }
}

/// The decimal rendering of `n`, built digit by digit.
fn dec_string(n: usize) -> (r: String)
    ensures
        r@ == dec_of(n as int),
    decreases n,
{
    if n < 10 {
        String::from_str(digit_str(n as u8))
    } else {
        let prefix = dec_string(n / 10);
        let r = prefix.concat(digit_str((n % 10) as u8));
        proof {
            assert(r@ =~= dec_of((n / 10) as int).push(dec_digit((n % 10) as int)));
        }
        r
    }
}

impl Token {
    /// A token assembled from its parts.
    pub(crate) fn new(kind: TokenKind, value: String, loc: (usize, usize)) -> (t: Token)
        ensures
            t.kind == kind,
            t.value == value,
            t.loc == loc,
    {
        Token { kind, value, loc }
    }

    /// An `Invalid` token holding the offending text.
    pub(crate) fn invalid(value: String, loc: (usize, usize)) -> (t: Token)
        ensures
            t.kind == TokenKind::Invalid,
            t.value == value,
            t.loc == loc,
    {
        Token::new(TokenKind::Invalid, value, loc)
    }

    /// A terminal `Null` token, with an empty text.
    pub(crate) fn null(loc: (usize, usize)) -> (t: Token)
        ensures
            t.kind == TokenKind::Null,
            t.value@ == Seq::<char>::empty(),
            t.loc == loc,
    {
        Token::new(TokenKind::Null, String::new(), loc)
    }

    /// The terminal placeholder: a `Null` token at the origin.
    pub fn empty() -> (t: Token)
        ensures
            t.kind == TokenKind::Null,
            t.value@ == Seq::<char>::empty(),
            t.loc == ((0usize, 0usize)),
    {
        let t = Token { kind: TokenKind::Null, value: String::new(), loc: (0, 0) };
        t
    }

    /// The location rendered as `"{row}:{col}"`.
    pub fn fmt_loc(&self) -> (r: String)
        ensures
            r@ == loc_text(self.loc),
    {
        proof {
            reveal_strlit(":");
        }
        let row = dec_string(self.loc.0);
        let col = dec_string(self.loc.1);
        let r = row.concat(":").concat(col.as_str());
        r
    }

    /// The kind's name, e.g. `"Identifier"`.
    pub fn fmt_kind(&self) -> (r: String)
        ensures
            r@ == kind_name(self.kind),
    {
        match self.kind {
            TokenKind::Whitespace => String::from_str("Whitespace"),
            TokenKind::Invalid => String::from_str("Invalid"),
            TokenKind::Null => String::from_str("Null"),
            TokenKind::Int => String::from_str("Int"),
            TokenKind::Float => String::from_str("Float"),
            TokenKind::Identifier => String::from_str("Identifier"),
            TokenKind::Ponct => String::from_str("Ponct"),
            TokenKind::Op => String::from_str("Op"),
        }
    }

    /// The token's text.
    pub fn fmt_value(&self) -> (r: String)
        ensures
            r@ == self.value@,
    {
        self.value.clone()
    }

    /// The full human-readable rendering, `"{row}:{col} {KindName} -> {value}"`.
    pub fn fmt_token(&self) -> (r: String)
        ensures
            r@ == loc_text(self.loc) + seq![' '] + kind_name(self.kind) + seq![' ', '-', '>', ' ']
                + self.value@,
    {
        proof {
            reveal_strlit(" ");
            reveal_strlit(" -> ");
        }
        let r = self
            .fmt_loc()
            .concat(" ")
            .concat(self.fmt_kind().as_str())
            .concat(" -> ")
            .concat(self.value.as_str());
        r
    }
}

} // verus!
