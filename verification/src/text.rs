//! Building strings: decimal numbers, zero padding, text pieces.

use vstd::prelude::*;
use vstd::string::StrSliceExecFns;

verus! {

/// `std`'s `String::push`: appends one character.
#[verifier::external_body]
pub(crate) fn push_char(s: &mut String, c: char)
    ensures
        final(s)@ == old(s)@.push(c),
{
    s.push(c);
}

/// The character of a decimal digit.
pub open spec fn digit_char(d: int) -> char
    recommends
        0 <= d < 10,
{
    if d == 0 {
        '0'
    } else if d == 1 {
        '1'
    } else if d == 2 {
        '2'
    } else if d == 3 {
        '3'
    } else if d == 4 {
        '4'
    } else if d == 5 {
        '5'
    } else if d == 6 {
        '6'
    } else if d == 7 {
        '7'
    } else if d == 8 {
        '8'
    } else {
        '9'
    }
}

/// The decimal digits of `n`, most significant first, without leading
/// zeros ("0" for zero).
pub open spec fn spec_decimal(n: nat) -> Seq<char>
    decreases n,
{
    if n < 10 {
        seq![digit_char(n as int)]
    } else {
        spec_decimal(n / 10).push(digit_char((n % 10) as int))
    }
}

/// `n` in decimal, padded on the left with zeros to at least `width`
/// characters.
pub open spec fn spec_padded_decimal(n: nat, width: nat) -> Seq<char> {
    let d = spec_decimal(n);
    if d.len() < width {
        Seq::new((width - d.len()) as nat, |_i: int| '0') + d
    } else {
        d
    }
}

/// The decimal number has at least one digit.
pub proof fn lemma_decimal_len(n: nat)
    ensures
        spec_decimal(n).len() >= 1,
    decreases n,
{
    if n >= 10 {
        lemma_decimal_len(n / 10);
    }
}

fn digit(d: u128) -> (c: char)
    requires
        d < 10,
    ensures
        c == digit_char(d as int),
{
    if d == 0 {
        '0'
    } else if d == 1 {
        '1'
    } else if d == 2 {
        '2'
    } else if d == 3 {
        '3'
    } else if d == 4 {
        '4'
    } else if d == 5 {
        '5'
    } else if d == 6 {
        '6'
    } else if d == 7 {
        '7'
    } else if d == 8 {
        '8'
    } else {
        '9'
    }
}

/// The decimal digits of `n`.
pub fn decimal_digits(n: u128) -> (r: Vec<char>)
    ensures
        r@ == spec_decimal(n as nat),
    decreases n,
{
    if n < 10 {
        let mut v = Vec::new();
        v.push(digit(n));
        v
    } else {
        let mut v = decimal_digits(n / 10);
        v.push(digit(n % 10));
        v
    }
}

/// Append the characters of `cs`.
pub fn push_chars(s: &mut String, cs: &Vec<char>)
    ensures
        final(s)@ == old(s)@ + cs@,
{
    let mut i: usize = 0;
    while i < cs.len()
        invariant
            i <= cs.len(),
            s@ == old(s)@ + cs@.subrange(0, i as int),
        decreases cs.len() - i,
    {
        push_char(s, cs[i]);
        i = i + 1;
        assert(cs@.subrange(0, i as int) == cs@.subrange(0, i - 1).push(cs@[i - 1]));
    }
    assert(cs@.subrange(0, cs.len() as int) == cs@);
}

/// Append `n` in decimal.
pub fn push_decimal(s: &mut String, n: u128)
    ensures
        final(s)@ == old(s)@ + spec_decimal(n as nat),
{
    let d = decimal_digits(n);
    push_chars(s, &d);
}

/// Append `n` in decimal, padded with zeros to at least `width` characters.
pub fn push_padded_decimal(s: &mut String, n: u128, width: usize)
    ensures
        final(s)@ == old(s)@ + spec_padded_decimal(n as nat, width as nat),
{
    let d = decimal_digits(n);
    let ghost start = s@;
    if d.len() < width {
        let pad = width - d.len();
        let mut i: usize = 0;
        while i < pad
            invariant
                i <= pad,
                pad == width - d@.len(),
                s@ == start + Seq::new(i as nat, |_j: int| '0'),
            decreases pad - i,
        {
            push_char(s, '0');
            i = i + 1;
            assert(Seq::new(i as nat, |_j: int| '0') == Seq::new((i - 1) as nat, |_j: int| '0').push(
                '0',
            ));
        }
        push_chars(s, &d);
        assert(s@ == start + (Seq::new(pad as nat, |_j: int| '0') + d@));
    } else {
        push_chars(s, &d);
    }
}

/// Append the characters of `t`.
pub fn push_str(s: &mut String, t: &str)
    ensures
        final(s)@ == old(s)@ + t@,
{
    s.append(t);
}

/// `n` with its sign ('+' for zero and above), padded on the left with
/// spaces to at least `width` characters, as `{:>+width}` prints it.
pub open spec fn spec_signed_right(n: int, width: nat) -> Seq<char> {
    let body = if n >= 0 {
        seq!['+'] + spec_decimal(n as nat)
    } else {
        seq!['-'] + spec_decimal((-n) as nat)
    };
    spec_spaces(width - body.len()) + body
}

/// `n` spaces (none when `n` is not positive).
pub open spec fn spec_spaces(n: int) -> Seq<char> {
    if n > 0 {
        Seq::new(n as nat, |_i: int| ' ')
    } else {
        Seq::empty()
    }
}

/// `t` followed by spaces up to at least `width` characters, as
/// `{:<width}` prints it.
pub open spec fn spec_left_aligned(t: Seq<char>, width: nat) -> Seq<char> {
    t + spec_spaces(width - t.len())
}

/// Append `n` spaces.
pub fn push_spaces(s: &mut String, n: usize)
    ensures
        final(s)@ == old(s)@ + spec_spaces(n as int),
{
    let ghost start = s@;
    let mut i: usize = 0;
    while i < n
        invariant
            i <= n,
            s@ == start + Seq::new(i as nat, |_j: int| ' '),
        decreases n - i,
    {
        push_char(s, ' ');
        i = i + 1;
        assert(Seq::new(i as nat, |_j: int| ' ') == Seq::new((i - 1) as nat, |_j: int| ' ').push(' '));
    }
    assert(start + Seq::new(n as nat, |_j: int| ' ') == start + spec_spaces(n as int));
}

/// Append `n` with its sign, right-aligned in `width` characters.
pub fn push_signed_right(s: &mut String, n: i32, width: usize)
    ensures
        final(s)@ == old(s)@ + spec_signed_right(n as int, width as nat),
{
    let mut body: Vec<char> = Vec::new();
    if n >= 0 {
        body.push('+');
        let d = decimal_digits(n as u128);
        let mut i: usize = 0;
        while i < d.len()
            invariant
                i <= d.len(),
                body@ == seq!['+'] + d@.subrange(0, i as int),
            decreases d.len() - i,
        {
            body.push(d[i]);
            i = i + 1;
            assert(d@.subrange(0, i as int) == d@.subrange(0, i - 1).push(d@[i - 1]));
        }
        assert(d@.subrange(0, d.len() as int) == d@);
    } else {
        body.push('-');
        let m = (0 - (n as i64)) as u128;
        let d = decimal_digits(m);
        let mut i: usize = 0;
        while i < d.len()
            invariant
                i <= d.len(),
                body@ == seq!['-'] + d@.subrange(0, i as int),
            decreases d.len() - i,
        {
            body.push(d[i]);
            i = i + 1;
            assert(d@.subrange(0, i as int) == d@.subrange(0, i - 1).push(d@[i - 1]));
        }
        assert(d@.subrange(0, d.len() as int) == d@);
    }
    if body.len() < width {
        push_spaces(s, width - body.len());
    } else {
        push_spaces(s, 0);
    }
    push_chars(s, &body);
}

/// Append `t`, left-aligned in `width` characters.
pub fn push_left_aligned(s: &mut String, t: &str, width: usize)
    ensures
        final(s)@ == old(s)@ + spec_left_aligned(t@, width as nat),
{
    let len = t.unicode_len();
    push_str(s, t);
    if len < width {
        push_spaces(s, width - len);
    } else {
        push_spaces(s, 0);
    }
}

/// `t` after spaces up to at least `width` characters, as `{:>width}`
/// prints it.
pub open spec fn spec_right_aligned(t: Seq<char>, width: nat) -> Seq<char> {
    spec_spaces(width - t.len()) + t
}

/// Append `t`, right-aligned in `width` characters.
pub fn push_right_aligned(s: &mut String, t: &str, width: usize)
    ensures
        final(s)@ == old(s)@ + spec_right_aligned(t@, width as nat),
{
    let len = t.unicode_len();
    if len < width {
        push_spaces(s, width - len);
    } else {
        push_spaces(s, 0);
    }
    push_str(s, t);
}

/// `n` in decimal as `{}` prints a signed integer.
pub open spec fn spec_signed_decimal(n: int) -> Seq<char> {
    if n >= 0 {
        spec_decimal(n as nat)
    } else {
        seq!['-'] + spec_decimal((-n) as nat)
    }
}

/// Append `n` in decimal (with a '-' when negative).
pub fn push_signed_decimal(s: &mut String, n: i64)
    ensures
        final(s)@ == old(s)@ + spec_signed_decimal(n as int),
{
    if n >= 0 {
        push_decimal(s, n as u128);
    } else {
        let ghost start = s@;
        push_char(s, '-');
        let m: u128 = (0 - (n as i128)) as u128;
        push_decimal(s, m);
        assert(s@ == start + (seq!['-'] + spec_decimal((-n) as nat)));
    }
}


/// The characters of `t`, in order.
pub fn str_chars(t: &str) -> (r: Vec<char>)
    ensures
        r@ == t@,
{
    let n = t.unicode_len();
    let mut r: Vec<char> = Vec::new();
    let mut i: usize = 0;
    while i < n
        invariant
            n == t@.len(),
            i <= n,
            r@ == t@.subrange(0, i as int),
        decreases n - i,
    {
        r.push(t.get_char(i));
        i = i + 1;
    }
    assert(t@.subrange(0, n as int) == t@);
    r
}

/// Whether two strings hold the same characters.
pub fn str_equals(a: &str, b: &str) -> (r: bool)
    ensures
        r == (a@ == b@),
{
    let n = a.unicode_len();
    let m = b.unicode_len();
    if n != m {
        return false;
    }
    let mut i: usize = 0;
    while i < n
        invariant
            n == a@.len(),
            m == b@.len(),
            n == m,
            i <= n,
            forall|k: int| 0 <= k < i ==> a@[k] == b@[k],
        decreases n - i,
    {
        if a.get_char(i) != b.get_char(i) {
            return false;
        }
        i = i + 1;
    }
    assert(a@ == b@);
    true
}

} // verus!
