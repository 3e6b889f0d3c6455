use vstd::prelude::*;

verus! {

/// The character of a decimal digit `d` (`d < 10`).
pub open spec fn digit_char(d: int) -> char {
    seq!['0', '1', '2', '3', '4', '5', '6', '7', '8', '9'][d]
}

/// The decimal numeral of `n`, most significant digit first, with no leading zeros.
pub open spec fn decimal_digits(n: nat) -> Seq<char>
    decreases n,
{
    if n < 10 {
        seq![digit_char(n as int)]
    } else {
        decimal_digits(n / 10).push(digit_char((n % 10) as int))
    }
}

/// A number given to the hundredth: `magnitude` hundredths, with a sign.
/// A negative zero is kept apart from zero, as it prints differently.
#[derive(Clone, Copy, Debug, PartialEq, Eq)]
pub struct Hundredths {
    pub negative: bool,
    pub magnitude: u64,
}

/// The text of a number to two decimal places: an optional minus sign, the
/// integer part, a point and exactly two decimals.
pub open spec fn hundredths_text(negative: bool, magnitude: nat) -> Seq<char> {
    let sign = if negative { seq!['-'] } else { Seq::<char>::empty() };
    sign + decimal_digits(magnitude / 100) + seq![
        '.',
        digit_char(((magnitude / 10) % 10) as int),
        digit_char((magnitude % 10) as int),
    ]
}

/// A coordinate as it appears in a curve command: either a finite number
/// rounded to the hundredth, or text taken as it is (a value that is not
/// finite, or too large to be held to the hundredth).
#[derive(Debug)]
pub enum Coordinate {
    Fixed(Hundredths),
    Verbatim(String),
}

/// The text of a coordinate.
pub open spec fn coordinate_text(c: Coordinate) -> Seq<char> {
    match c {
        Coordinate::Fixed(h) => hundredths_text(h.negative, h.magnitude as nat),
        Coordinate::Verbatim(s) => s@,
    }
}

/// The text of one decimal digit.
fn digit_str(d: u64) -> (r: &'static str)
    requires
        d < 10,
    ensures
        r@ == seq![digit_char(d as int)],
{
    proof {
        reveal_strlit("0");
        reveal_strlit("1");
        reveal_strlit("2");
        reveal_strlit("3");
        reveal_strlit("4");
        reveal_strlit("5");
        reveal_strlit("6");
        reveal_strlit("7");
        reveal_strlit("8");
        reveal_strlit("9");
    }
    match d {
        0 => "0",
        1 => "1",
        2 => "2",
        3 => "3",
        4 => "4",
        5 => "5",
        6 => "6",
        7 => "7",
        8 => "8",
        _ => "9",
    }
}

/// Appends the decimal numeral of `n` to `out`.
pub fn push_decimal(n: u64, out: &mut String)
    ensures
        final(out)@ == old(out)@ + decimal_digits(n as nat),
    decreases n,
{
    if n >= 10 {
        push_decimal(n / 10, out);
    }
    out.append(digit_str(n % 10));
    proof {
        if n < 10 {
            assert(n % 10 == n);
        }
        assert(final(out)@ =~= old(out)@ + decimal_digits(n as nat));
    }
}

impl Hundredths {
    /// The text of the number to two decimal places.
    pub fn to_text(&self) -> (r: String)
        ensures
            r@ == hundredths_text(self.negative, self.magnitude as nat),
    {
        let mut out = String::new();
        if self.negative {
            out.append("-");
        }
        proof {
            reveal_strlit("-");
        }
        push_decimal(self.magnitude / 100, &mut out);
        out.append(".");
        out.append(digit_str((self.magnitude / 10) % 10));
        out.append(digit_str(self.magnitude % 10));
        proof {
            reveal_strlit(".");
            assert(out@ =~= hundredths_text(self.negative, self.magnitude as nat));
        }
        out
    }
}

impl Coordinate {
    /// The text of the coordinate.
    pub fn to_text(&self) -> (r: String)
        ensures
            r@ == coordinate_text(*self),
    {
        match self {
            Coordinate::Fixed(h) => h.to_text(),
            Coordinate::Verbatim(s) => s.clone(),
        }
    }
}

} // verus!
