//! Small verified helpers on text.

use vstd::prelude::*;
use vstd::string::*;

verus! {

/// Whether two texts hold the same characters.
pub fn same_text(a: &str, b: &str) -> (r: bool)
    ensures
        r == (a@ == b@),
{
    let n = a.unicode_len();
    if n != b.unicode_len() {
        return false;
    }
    let mut i: usize = 0;
    while i < n
        invariant
            n == a@.len() == b@.len(),
            i <= n,
            a@.subrange(0, i as int) == b@.subrange(0, i as int),
        decreases n - i,
    {
        if a.get_char(i) != b.get_char(i) {
            return false;
        }
        assert(a@.subrange(0, i + 1) == a@.subrange(0, i as int).push(a@[i as int]));
        assert(b@.subrange(0, i + 1) == b@.subrange(0, i as int).push(b@[i as int]));
        i = i + 1;
    }
    assert(a@ == a@.subrange(0, n as int));
    assert(b@ == b@.subrange(0, n as int));
    true
}

pub open spec fn digit_char(d: int) -> char {
    if d == 0 {
        '0'
    } else if d == 1 {
        '1'
    } else if d == 2 {
        '2'
    } else if d == 3 {
        '3'
    } else if d == 4 {
        '4'
    } else if d == 5 {
        '5'
    } else if d == 6 {
        '6'
    } else if d == 7 {
        '7'
    } else if d == 8 {
        '8'
    } else {
        '9'
    }
}

/// `value` written in decimal with exactly `width` digits, most significant first.
pub open spec fn padded(value: nat, width: nat) -> Seq<char>
    decreases width,
{
    if width == 0 {
        Seq::empty()
    } else {
        padded(value / 10, (width - 1) as nat).push(digit_char((value % 10) as int))
    }
}

fn digit_str(d: u64) -> (r: &'static str)
    requires
        d < 10,
    ensures
        r@ == seq![digit_char(d as int)],
{
    proof {
        reveal_strlit("0");
        reveal_strlit("1");
        reveal_strlit("2");
        reveal_strlit("3");
        reveal_strlit("4");
        reveal_strlit("5");
        reveal_strlit("6");
        reveal_strlit("7");
        reveal_strlit("8");
        reveal_strlit("9");
    }
    if d == 0 {
        "0"
    } else if d == 1 {
        "1"
    } else if d == 2 {
        "2"
    } else if d == 3 {
        "3"
    } else if d == 4 {
        "4"
    } else if d == 5 {
        "5"
    } else if d == 6 {
        "6"
    } else if d == 7 {
        "7"
    } else if d == 8 {
        "8"
    } else {
        "9"
    }
}

/// Appends `value` with exactly `width` digits (leading zeros, high digits dropped).
pub fn push_padded(out: &mut String, value: u64, width: u32)
    ensures
        final(out)@ == old(out)@ + padded(value as nat, width as nat),
    decreases width,
{
    if width > 0 {
        push_padded(out, value / 10, width - 1);
        let d = digit_str(value % 10);
        out.append(d);
        proof {
            assert(old(out)@ + padded(value as nat, width as nat) == (old(out)@ + padded(
                (value / 10) as nat,
                (width - 1) as nat,
            )).push(digit_char((value % 10) as int)));
        }
    } else {
        assert(old(out)@ + padded(value as nat, 0) == old(out)@);
    }
}

/// `value` in decimal without leading zeros ("0" for zero).
pub open spec fn decimal(value: nat) -> Seq<char>
    decreases value,
{
    if value < 10 {
        seq![digit_char(value as int)]
    } else {
        decimal(value / 10).push(digit_char((value % 10) as int))
    }
}

/// Appends `value` in decimal.
pub fn push_decimal(out: &mut String, value: u64)
    ensures
        final(out)@ == old(out)@ + decimal(value as nat),
    decreases value,
{
    if value >= 10 {
        push_decimal(out, value / 10);
    }
    let d = digit_str(value % 10);
    out.append(d);
    proof {
        if value >= 10 {
            assert(old(out)@ + decimal(value as nat) == (old(out)@ + decimal((value / 10) as nat)).push(
                digit_char((value % 10) as int),
            ));
        } else {
            assert(old(out)@ + decimal(value as nat) == old(out)@.push(digit_char((value % 10) as int)));
        }
    }
}

/// The first `n` characters of a text (all of it when shorter).
pub fn prefix_chars(text: &str, n: usize) -> (r: String)
    ensures
        r@ == if text@.len() <= n {
            text@
        } else {
            text@.subrange(0, n as int)
        },
{
    let len = text.unicode_len();
    if len <= n {
        String::from_str(text)
    } else {
        String::from_str(text.substring_char(0, n))
    }
}

} // verus!
