use vstd::prelude::*;

verus! {

/// The decimal digit character for a value in `0..10`.
pub open spec fn digit_char_of(v: int) -> char {
    if v == 0 {
        '0'
    } else if v == 1 {
        '1'
    } else if v == 2 {
        '2'
    } else if v == 3 {
        '3'
    } else if v == 4 {
        '4'
    } else if v == 5 {
        '5'
    } else if v == 6 {
        '6'
    } else if v == 7 {
        '7'
    } else if v == 8 {
        '8'
    } else {
        '9'
    }
}

/// The decimal numeral of a nonnegative integer, most significant digit
/// first, with no sign and no leading zeros (`0` itself is "0").
pub open spec fn dec_str_of(n: int) -> Seq<char>
    decreases n,
{
    if n < 10 {
        seq![digit_char_of(n)]
    } else {
        dec_str_of(n / 10).push(digit_char_of(n % 10))
    }
}

fn digit_char(v: u128) -> (c: char)
    requires
        v < 10,
    ensures
        c == digit_char_of(v as int),
{
    match v {
        0 => '0',
        1 => '1',
        2 => '2',
        3 => '3',
        4 => '4',
        5 => '5',
        6 => '6',
        7 => '7',
        8 => '8',
        _ => '9',
    }
}

/// Relies on `String::push`: appends exactly the given character at the end.
#[verifier::external_body]
pub fn push_char(s: &mut String, c: char)
    ensures
        final(s)@ == old(s)@.push(c),
{
    s.push(c);
}

/// Renders an integer as its decimal numeral.
pub fn u128_to_dec(n: u128) -> (s: String)
    ensures
        s@ == dec_str_of(n as int),
    decreases n,
{
    if n < 10 {
        let mut s = String::new();
        push_char(&mut s, digit_char(n));
        proof {
            assert(s@ =~= dec_str_of(n as int));
        }
        s
    } else {
        let mut s = u128_to_dec(n / 10);
        push_char(&mut s, digit_char(n % 10));
        s
    }
}

/// Renders an integer as its decimal numeral.
pub fn u64_to_dec(n: u64) -> (s: String)
    ensures
        s@ == dec_str_of(n as int),
{
    u128_to_dec(n as u128)
}

} // verus!
