//! Text that the library writes: characters appended to strings, and
//! numbers in decimal and hexadecimal.

use vstd::prelude::*;

verus! {

/// Appends one character to a string. This is `String::push` of the
/// standard library, which puts the character at the end and leaves what
/// was there in place.
#[verifier::external_body]
pub(crate) fn push_char(s: &mut String, c: char)
    ensures
        final(s)@ == old(s)@.push(c),
{
    s.push(c)
}

/// Appends the characters with the codes `bytes` to `s`.
pub fn push_text(s: &mut String, bytes: &Vec<u8>)
    ensures
        final(s)@ == old(s)@ + bytes@.map_values(|x: u8| x as char),
{
    let mut i: usize = 0;
    while i < bytes.len()
        invariant
            i <= bytes.len(),
            s@ == old(s)@ + bytes@.take(i as int).map_values(|x: u8| x as char),
        decreases bytes.len() - i,
    {
        push_char(s, bytes[i] as char);
        proof {
            assert(bytes@.take(i + 1) =~= bytes@.take(i as int).push(bytes@[i as int]));
            assert(bytes@.take(i + 1).map_values(|x: u8| x as char) =~= bytes@.take(
                i as int,
            ).map_values(|x: u8| x as char).push(bytes@[i as int] as char));
        }
        i += 1;
    }
    proof {
        assert(bytes@.take(i as int) =~= bytes@);
    }
}

/// The character of a digit below sixteen: `0` to `9`, then the letters
/// from `a` or, where `upper` holds, from `A`.
pub open spec fn digit_char(d: nat, upper: bool) -> char {
    if d < 10 {
        (48 + d) as char
    } else if upper {
        (55 + d) as char
    } else {
        (87 + d) as char
    }
}

/// The digits of a number in a base of at most sixteen, the highest
/// first and without leading zeros; zero is the one digit `0`.
pub open spec fn digits_text(n: nat, base: nat, upper: bool) -> Seq<char>
    decreases n,
    via digits_text_decreases
{
    if base < 2 || n < base {
        seq![digit_char(n, upper)]
    } else {
        digits_text(n / base, base, upper).push(digit_char(n % base, upper))
    }
}

#[via_fn]
proof fn digits_text_decreases(n: nat, base: nat, upper: bool) {
    if base >= 2 && n >= base {
        assert(n / base < n) by (nonlinear_arith)
            requires
                base >= 2,
                n >= base,
        ;
    }
}

/// The decimal digits of a number.
pub open spec fn decimal_text(n: nat) -> Seq<char> {
    digits_text(n, 10, false)
}

/// The hexadecimal digits of a number, in lower or upper case.
pub open spec fn hex_text(n: nat, upper: bool) -> Seq<char> {
    digits_text(n, 16, upper)
}

/// The character of one digit.
pub fn digit(d: u8, upper: bool) -> (r: char)
    requires
        d < 16,
    ensures
        r == digit_char(d as nat, upper),
{
    if d < 10 {
        (48 + d) as char
    } else if upper {
        (55 + d) as char
    } else {
        (87 + d) as char
    }
}

/// Writes a number in base ten or sixteen.
pub fn digits(n: u64, base: u64, upper: bool) -> (r: String)
    requires
        base == 10 || base == 16,
    ensures
        r@ == digits_text(n as nat, base as nat, upper),
{
    // The digits come out lowest first: collect them, then write them in turn.
    let mut low_first: Vec<char> = Vec::new();
    let mut rest: u64 = n;
    let ghost mut tail: Seq<char> = Seq::empty();
    while rest >= base
        invariant
            base == 10 || base == 16,
            low_first@.len() == tail.len(),
            forall|j: int|
                0 <= j < tail.len() ==> low_first@[j] == #[trigger] tail[tail.len() - 1 - j],
            digits_text(n as nat, base as nat, upper) == digits_text(
                rest as nat,
                base as nat,
                upper,
            ) + tail,
        decreases rest,
    {
        let c = digit((rest % base) as u8, upper);
        proof {
            let head = digits_text((rest / base) as nat, base as nat, upper);
            assert(head.push(c) + tail =~= head + (seq![c] + tail));
            let old_tail = tail;
            tail = seq![c] + tail;
            assert forall|j: int| 0 <= j < tail.len() implies low_first@.push(c)[j]
                == #[trigger] tail[tail.len() - 1 - j] by {
                if j < old_tail.len() {
                    assert(tail[tail.len() - 1 - j] == old_tail[old_tail.len() - 1 - j]);
                }
            }
        }
        low_first.push(c);
        rest = rest / base;
    }
    let mut out = String::new();
    push_char(&mut out, digit(rest as u8, upper));
    let mut i: usize = low_first.len();
    while i > 0
        invariant
            i <= low_first@.len(),
            low_first@.len() == tail.len(),
            forall|j: int|
                0 <= j < tail.len() ==> low_first@[j] == #[trigger] tail[tail.len() - 1 - j],
            out@ == seq![digit_char(rest as nat, upper)] + tail.take(tail.len() - i),
        decreases i,
    {
        i -= 1;
        push_char(&mut out, low_first[i]);
        proof {
            let k = tail.len() - 1 - i;
            assert(low_first@[i as int] == tail[k]);
            assert(tail.take(k + 1) =~= tail.take(k).push(tail[k]));
        }
    }
    proof {
        assert(tail.take(tail.len() as int) =~= tail);
    }
    out
}

/// Writes a number in decimal.
pub fn decimal(n: u64) -> (r: String)
    ensures
        r@ == decimal_text(n as nat),
{
    digits(n, 10, false)
}

/// Writes a number in hexadecimal, without a prefix.
pub fn hex(n: u64, upper: bool) -> (r: String)
    ensures
        r@ == hex_text(n as nat, upper),
{
    digits(n, 16, upper)
}

} // verus!
