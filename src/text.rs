use separator::Separatable;
use vstd::prelude::*;

verus! {

/// The character of the decimal digit `d`.
pub open spec fn digit_char(d: int) -> char {
    seq!['0', '1', '2', '3', '4', '5', '6', '7', '8', '9'][d]
}

/// The decimal digits of `n`, most significant first, without leading zeros.
pub open spec fn decimal(n: nat) -> Seq<char>
    decreases n,
{
    if n < 10 {
        seq![digit_char(n as int)]
    } else {
        decimal(n / 10).push(digit_char((n % 10) as int))
    }
}

/// `s` with a comma ahead of each group of three characters, counted from
/// the right.
pub open spec fn grouped(s: Seq<char>) -> Seq<char>
    decreases s.len(),
{
    if s.len() <= 3 {
        s
    } else {
        grouped(s.subrange(0, s.len() - 3)) + seq![','] + s.subrange(s.len() - 3, s.len() as int)
    }
}

/// `n` written in decimal with thousands separators, as in `19,031,333,328`.
pub open spec fn separated_spec(n: u64) -> Seq<char> {
    grouped(decimal(n as nat))
}

/// `n` spaces.
pub open spec fn spaces(n: nat) -> Seq<char> {
    Seq::new(n, |_i: int| ' ')
}

/// `s` right-aligned in a column of `width` characters; never cut.
pub open spec fn padded(s: Seq<char>, width: nat) -> Seq<char> {
    if s.len() >= width {
        s
    } else {
        spaces((width - s.len()) as nat) + s
    }
}

/// `s` left-aligned in a column of `width` characters; never cut.
pub open spec fn padded_right(s: Seq<char>, width: nat) -> Seq<char> {
    if s.len() >= width {
        s
    } else {
        s + spaces((width - s.len()) as nat)
    }
}

/// The display line of a counter: its name right-aligned in 30 columns, a
/// colon, and its value with separators right-aligned in 14 columns.
pub open spec fn counter_line(name: Seq<char>, value: u64) -> Seq<char> {
    padded(name, 30) + ": "@ + padded(separated_spec(value), 14)
}

/// Relies on separator's `Separatable::separated_string` for `u64`: the
/// decimal digits of the value with a comma ahead of each group of three,
/// counted from the right.
#[verifier::external_body]
fn separated(n: u64) -> (r: String)
    ensures
        r@ == separated_spec(n),
{
    n.separated_string()
}

/// `s` right-aligned in a column of `width` characters.
pub fn pad_left(s: &str, width: usize) -> (r: String)
    ensures
        r@ == padded(s@, width as nat),
{
    let len = s.unicode_len();
    let mut out = String::new();
    if len < width {
        let mut i: usize = len;
        while i < width
            invariant
                len <= i <= width,
                out@ == spaces((i - len) as nat),
            decreases width - i,
        {
            proof {
                reveal_strlit(" ");
            }
            out.append(" ");
            assert(out@ =~= spaces((i + 1 - len) as nat));
            i += 1;
        }
    }
    out.append(s);
    assert(out@ =~= padded(s@, width as nat));
    out
}

/// `s` left-aligned in a column of `width` characters.
pub fn pad_right(s: &str, width: usize) -> (r: String)
    ensures
        r@ == padded_right(s@, width as nat),
{
    let len = s.unicode_len();
    let mut out = String::from_str(s);
    if len < width {
        let mut i: usize = len;
        while i < width
            invariant
                len <= i <= width,
                out@ == s@ + spaces((i - len) as nat),
            decreases width - i,
        {
            proof {
                reveal_strlit(" ");
            }
            out.append(" ");
            assert(out@ =~= s@ + spaces((i + 1 - len) as nat));
            i += 1;
        }
    }
    assert(out@ =~= padded_right(s@, width as nat));
    out
}

/// The display line of a counter named `name` whose value is `value`.
pub fn render_line(name: &str, value: u64) -> (r: String)
    ensures
        r@ == counter_line(name@, value),
{
    let mut out = pad_left(name, 30);
    out.append(": ");
    let digits = separated(value);
    let column = pad_left(digits.as_str(), 14);
    out.append(column.as_str());
    out
}

} // verus!
