//! The error reported by the accessors of a matrix, and its rendering.

use vstd::prelude::*;
use vstd::string::*;

verus! {

/// The only way an access to a matrix can fail.
#[derive(Debug, Clone, Copy, PartialEq, Eq, Structural)]
pub enum BoundError {
    /// The coordinate pair `(x, y)` does not address a cell of the matrix.
    Exceed(usize, usize),
}

/// The character that stands for a single decimal digit.
pub open spec fn digit(d: nat) -> char
    recommends
        d < 10,
{
    if d == 0 {
        '0'
    } else if d == 1 {
        '1'
    } else if d == 2 {
        '2'
    } else if d == 3 {
        '3'
    } else if d == 4 {
        '4'
    } else if d == 5 {
        '5'
    } else if d == 6 {
        '6'
    } else if d == 7 {
        '7'
    } else if d == 8 {
        '8'
    } else {
        '9'
    }
}

/// The decimal notation of `n`, most significant digit first, without
/// leading zeros.
pub open spec fn decimal(n: nat) -> Seq<char>
    decreases n,
{
    if n < 10 {
        seq![digit(n)]
    } else {
        decimal(n / 10).push(digit(n % 10))
    }
}

/// The text of a single decimal digit.
fn digit_text(d: usize) -> (text: &'static str)
    requires
        d < 10,
    ensures
        text@ == seq![digit(d as nat)],
{
    proof {
        reveal_strlit("0");
        reveal_strlit("1");
        reveal_strlit("2");
        reveal_strlit("3");
        reveal_strlit("4");
        reveal_strlit("5");
        reveal_strlit("6");
        reveal_strlit("7");
        reveal_strlit("8");
        reveal_strlit("9");
    }
    let text = if d == 0 {
        "0"
    } else if d == 1 {
        "1"
    } else if d == 2 {
        "2"
    } else if d == 3 {
        "3"
    } else if d == 4 {
        "4"
    } else if d == 5 {
        "5"
    } else if d == 6 {
        "6"
    } else if d == 7 {
        "7"
    } else if d == 8 {
        "8"
    } else {
        "9"
    };
    assert(text@ =~= seq![digit(d as nat)]);
    text
}

/// Appends the decimal notation of `n` to `out`.
fn push_decimal(out: &mut String, n: usize)
    ensures
        final(out)@ == old(out)@ + decimal(n as nat),
    decreases n,
{
    if n >= 10 {
        push_decimal(out, n / 10);
    }
    out.append(digit_text(n % 10));
    assert(out@ =~= old(out)@ + decimal(n as nat));
}

impl BoundError {
    /// The text of the error: a fixed phrase, then the rejected pair in
    /// decimal, in parentheses and separated by a comma and a space.
    pub open spec fn message_text(self) -> Seq<char> {
        match self {
            BoundError::Exceed(x, y) => "out of bounds, got index ("@ + decimal(x as nat) + ", "@
                + decimal(y as nat) + ")"@,
        }
    }

    /// Renders the error for display.
    pub fn message(&self) -> (text: String)
        ensures
            text@ == self.message_text(),
    {
        match self {
            BoundError::Exceed(x, y) => {
                let mut text = String::from_str("out of bounds, got index (");
                push_decimal(&mut text, *x);
                text.append(", ");
                push_decimal(&mut text, *y);
                text.append(")");
                text
            },
        }
    }
}

} // verus!
