//! Rendering of integers as zero-padded decimal text.

use vstd::prelude::*;

verus! {

/// The decimal digit character for a value below ten.
pub open spec fn spec_digit_char(d: nat) -> char {
    if d == 0 {
        '0'
    } else if d == 1 {
        '1'
    } else if d == 2 {
        '2'
    } else if d == 3 {
        '3'
    } else if d == 4 {
        '4'
    } else if d == 5 {
        '5'
    } else if d == 6 {
        '6'
    } else if d == 7 {
        '7'
    } else if d == 8 {
        '8'
    } else {
        '9'
    }
}

/// The decimal digit characters of `n`, most significant first.
pub open spec fn spec_digits(n: nat) -> Seq<char>
    decreases n,
{
    if n < 10 {
        seq![spec_digit_char(n)]
    } else {
        spec_digits(n / 10).push(spec_digit_char(n % 10))
    }
}

/// The magnitude of an integer.
pub open spec fn spec_abs(n: int) -> nat {
    if n < 0 {
        (-n) as nat
    } else {
        n as nat
    }
}

/// `num` rendered as decimal digits, left-padded with `'0'` up to `width`
/// characters. A negative value gets a single `'-'` prefix which does not
/// count toward the width; digits are never truncated.
pub open spec fn spec_pad(num: int, width: nat) -> Seq<char> {
    let ds = spec_digits(spec_abs(num));
    let zs = Seq::new(if ds.len() < width { (width - ds.len()) as nat } else { 0nat }, |i: int| '0');
    if num < 0 {
        seq!['-'] + zs + ds
    } else {
        zs + ds
    }
}

/// A digit sequence is never empty.
pub proof fn lemma_digits_nonempty(n: nat)
    ensures
        spec_digits(n).len() >= 1,
    decreases n,
{
    if n >= 10 {
        lemma_digits_nonempty(n / 10);
    }
}

/// The padded rendering is exactly `width` characters (plus the sign for a
/// negative value) whenever the digit count does not exceed `width`, and the
/// bare digits otherwise: padding never truncates.
pub proof fn lemma_pad_width(num: int, width: nat)
    ensures
        spec_digits(spec_abs(num)).len() <= width ==> spec_pad(num, width).len() == width + (
        if num < 0 {
            1nat
        } else {
            0nat
        }),
        spec_digits(spec_abs(num)).len() >= width ==> spec_pad(num, width).len() == spec_digits(
            spec_abs(num),
        ).len() + (
        if num < 0 {
            1nat
        } else {
            0nat
        }),
{
}

/// Relies on String::push: appends the character to the end of the string.
#[verifier::external_body]
pub(crate) fn push_char(s: &mut String, c: char)
    ensures
        final (s)@ == old(s)@.push(c),
{
    s.push(c);
}

fn digit_char(d: u32) -> (c: char)
    requires
        d < 10,
    ensures
        c == spec_digit_char(d as nat),
{
    match d {
        0 => '0',
        1 => '1',
        2 => '2',
        3 => '3',
        4 => '4',
        5 => '5',
        6 => '6',
        7 => '7',
        8 => '8',
        _ => '9',
    }
}

/// The decimal digits of `n`, without sign or padding.
pub fn digits_string(n: u32) -> (r: String)
    ensures
        r@ == spec_digits(n as nat),
    decreases n,
{
    if n < 10 {
        let mut s = String::new();
        push_char(&mut s, digit_char(n));
        proof {
            assert(s@ =~= spec_digits(n as nat));
        }
        s
    } else {
        let mut s = digits_string(n / 10);
        push_char(&mut s, digit_char(n % 10));
        s
    }
}

/// Renders `num` in decimal, left-padded with zeros so that the digits span at
/// least `target_length` characters; a negative value is prefixed with `'-'`,
/// which does not count toward the padding width. Digits are never truncated.
pub fn add_leading_zeroes(num: i32, target_length: usize) -> (r: String)
    ensures
        r@ == spec_pad(num as int, target_length as nat),
{
    let magnitude: u32 = if num < 0 {
        (-(num as i64)) as u32
    } else {
        num as u32
    };
    let digits = digits_string(magnitude);
    let digit_count = digits.as_str().unicode_len();
    let padding: usize = if target_length > digit_count {
        target_length - digit_count
    } else {
        0
    };
    let mut result = String::new();
    if num < 0 {
        push_char(&mut result, '-');
    }
    let ghost sign: Seq<char> = if num < 0 {
        seq!['-']
    } else {
        Seq::empty()
    };
    let mut k: usize = 0;
    while k < padding
        invariant
            k <= padding,
            result@ =~= sign + Seq::new(k as nat, |i: int| '0'),
        decreases padding - k,
    {
        push_char(&mut result, '0');
        k = k + 1;
        proof {
            assert(result@ =~= sign + Seq::new(k as nat, |i: int| '0'));
        }
    }
    result.append(digits.as_str());
    proof {
        assert(result@ =~= spec_pad(num as int, target_length as nat));
    }
    result
}

} // verus!
