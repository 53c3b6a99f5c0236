//! Numbers and identities written as text.

use vstd::prelude::*;
use vstd::string::{StrSliceExecFns, StringExecFns};

verus! {

/// The lower-case hexadecimal digit of a value below 16.
pub open spec fn hex_digit(d: int) -> char {
    "0123456789abcdef"@[d]
}

/// A number in decimal, without leading zeros.
pub open spec fn decimal_text(n: nat) -> Seq<char>
    decreases n,
{
    if n < 10 {
        seq![hex_digit(n as int)]
    } else {
        decimal_text(n / 10) + seq![hex_digit((n % 10) as int)]
    }
}

/// The value of the `i`-th hexadecimal digit of a UUID, from the most
/// significant.
pub open spec fn uuid_nibble(v: u128, i: int) -> int {
    ((v >> ((124 - 4 * i) as u128)) & 0xFu128) as int
}

/// The first `k` hexadecimal digits of a UUID in its hyphenated form, a
/// hyphen standing before digits 8, 12, 16 and 20.
pub open spec fn uuid_prefix(v: u128, k: int) -> Seq<char>
    decreases k,
{
    if k <= 0 {
        seq![]
    } else {
        let i = k - 1;
        let hyphen: Seq<char> = if i == 8 || i == 12 || i == 16 || i == 20 {
            seq!['-']
        } else {
            seq![]
        };
        uuid_prefix(v, i) + hyphen + seq![hex_digit(uuid_nibble(v, i))]
    }
}

/// A UUID in its hyphenated lower-case form, `xxxxxxxx-xxxx-xxxx-xxxx-xxxxxxxxxxxx`.
pub open spec fn uuid_text(v: u128) -> Seq<char> {
    uuid_prefix(v, 32)
}

/// Appends the hexadecimal digit `d`.
fn push_hex_digit(s: &mut String, d: u32)
    requires
        d < 16,
    ensures
        final(s)@ == old(s)@ + seq![hex_digit(d as int)],
{
    let digits = "0123456789abcdef";
    proof {
        reveal_strlit("0123456789abcdef");
    }
    let one = digits.substring_char(d as usize, d as usize + 1);
    assert(one@ =~= seq![hex_digit(d as int)]);
    s.append(one);
}

/// Appends `n` in decimal.
pub fn push_decimal(s: &mut String, n: u32)
    ensures
        final(s)@ == old(s)@ + decimal_text(n as nat),
    decreases n,
{
    if n >= 10 {
        push_decimal(s, n / 10);
    }
    push_hex_digit(s, n % 10);
    proof {
        if n >= 10 {
            assert(decimal_text(n as nat) == decimal_text((n / 10) as nat) + seq![hex_digit((n % 10) as int)]);
        } else {
            assert(n % 10 == n);
        }
    }
    assert(final(s)@ =~= old(s)@ + decimal_text(n as nat));
}

/// Appends a UUID in its hyphenated lower-case form.
pub fn push_uuid(s: &mut String, v: u128)
    ensures
        final(s)@ == old(s)@ + uuid_text(v),
{
    let ghost start = s@;
    let mut i: u32 = 0;
    while i < 32
        invariant
            i <= 32,
            s@ == start + uuid_prefix(v, i as int),
        decreases 32 - i,
    {
        proof {
            reveal_strlit("-");
        }
        let ghost before = s@;
        if i == 8 || i == 12 || i == 16 || i == 20 {
            s.append("-");
        }
        let shift: u128 = (124 - 4 * i) as u128;
        let masked: u128 = (v >> shift) & 0xFu128;
        assert((v >> shift) & 0xFu128 < 16) by (bit_vector);
        let nibble = masked as u32;
        assert(nibble as int == uuid_nibble(v, i as int));
        push_hex_digit(s, nibble);
        assert(uuid_prefix(v, i + 1) == uuid_prefix(v, i as int) + (if i == 8 || i == 12 || i
            == 16 || i == 20 {
            seq!['-']
        } else {
            Seq::<char>::empty()
        }) + seq![hex_digit(nibble as int)]);
        assert(s@ =~= start + uuid_prefix(v, i + 1));
        i = i + 1;
    }
}

} // verus!
