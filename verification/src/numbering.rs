//! Decimal rendering of the line counter and the numbered-line format: the
//! counter right-justified in a six-character field, a tab, then the line.

use vstd::prelude::*;

verus! {

/// Width of the field in which the line counter is right-justified.
pub const NUMBER_WIDTH: usize = 6;

/// The character for a single decimal digit.
pub open spec fn digit_char(d: nat) -> char {
    if d == 0 {
        '0'
    } else if d == 1 {
        '1'
    } else if d == 2 {
        '2'
    } else if d == 3 {
        '3'
    } else if d == 4 {
        '4'
    } else if d == 5 {
        '5'
    } else if d == 6 {
        '6'
    } else if d == 7 {
        '7'
    } else if d == 8 {
        '8'
    } else {
        '9'
    }
}

/// The decimal digits of `n`, most significant first, with no leading zeros
/// (except that zero itself is written `"0"`).
pub open spec fn decimal_digits(n: nat) -> Seq<char>
    decreases n,
{
    if n < 10 {
        seq![digit_char(n)]
    } else {
        decimal_digits(n / 10).push(digit_char(n % 10))
    }
}

/// `k` space characters.
pub open spec fn spaces(k: nat) -> Seq<char> {
    Seq::new(k, |i: int| ' ')
}

/// `s` preceded by as many spaces as it takes to reach `width`; `s` itself
/// when it is already that long or longer.
pub open spec fn right_justified(s: Seq<char>, width: nat) -> Seq<char> {
    if s.len() >= width {
        s
    } else {
        spaces((width - s.len()) as nat) + s
    }
}

/// One numbered output line: the counter right-justified in a field of
/// `NUMBER_WIDTH` characters, a tab, then the line content.
pub open spec fn numbered_line(counter: nat, line: Seq<char>) -> Seq<char> {
    right_justified(decimal_digits(counter), NUMBER_WIDTH as nat) + seq!['\t'] + line
}

/// The one-character string for a decimal digit.
fn digit_str(d: u64) -> (s: &'static str)
    requires
        d < 10,
    ensures
        s@ =~= seq![digit_char(d as nat)],
{
    proof {
        reveal_strlit("0");
        reveal_strlit("1");
        reveal_strlit("2");
        reveal_strlit("3");
        reveal_strlit("4");
        reveal_strlit("5");
        reveal_strlit("6");
        reveal_strlit("7");
        reveal_strlit("8");
        reveal_strlit("9");
    }
    match d {
        0 => "0",
        1 => "1",
        2 => "2",
        3 => "3",
        4 => "4",
        5 => "5",
        6 => "6",
        7 => "7",
        8 => "8",
        _ => "9",
    }
}

/// Writes `n` in decimal, most significant digit first, no leading zeros.
pub fn u64_to_string(n: u64) -> (s: String)
    ensures
        s@ == decimal_digits(n as nat),
    decreases n,
{
    if n < 10 {
        let s = String::from_str(digit_str(n));
        proof {
            assert(s@ =~= decimal_digits(n as nat));
        }
        s
    } else {
        proof {
            assert(n / 10 < n) by (nonlinear_arith)
                requires
                    n >= 10,
            ;
        }
        let mut s = u64_to_string(n / 10);
        s.append(digit_str(n % 10));
        proof {
            assert(s@ =~= decimal_digits(n as nat));
        }
        s
    }
}

/// Right-justifies `s` in a field of `width` characters, padding with spaces
/// on the left; a longer `s` is returned unchanged.
pub fn right_justify(s: &str, width: usize) -> (r: String)
    ensures
        r@ == right_justified(s@, width as nat),
{
    let n = s.unicode_len();
    if n >= width {
        s.to_owned()
    } else {
        let mut r = String::new();
        let mut i: usize = 0;
        while i < width - n
            invariant
                n == s@.len(),
                n < width,
                i <= width - n,
                r@ =~= spaces(i as nat),
            decreases width - n - i,
        {
            proof {
                reveal_strlit(" ");
            }
            r.append(" ");
            i = i + 1;
            proof {
                assert(r@ =~= spaces(i as nat));
            }
        }
        r.append(s);
        proof {
            assert(r@ =~= right_justified(s@, width as nat));
        }
        r
    }
}

/// Formats one numbered output line: the counter right-justified to
/// `NUMBER_WIDTH` characters, a tab, then the line content.
pub fn format_numbered(counter: u64, line: &str) -> (r: String)
    ensures
        r@ == numbered_line(counter as nat, line@),
{
    let digits = u64_to_string(counter);
    let mut r = right_justify(digits.as_str(), NUMBER_WIDTH);
    proof {
        reveal_strlit("\t");
    }
    r.append("\t");
    r.append(line);
    proof {
        assert(r@ =~= numbered_line(counter as nat, line@));
    }
    r
}

} // verus!
