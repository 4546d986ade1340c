//! Verified decimal and hexadecimal numerals.
//!
//! The persisted dataset configuration and the derived resource names embed
//! numbers as text; these are the codecs for them, with the round-trip facts
//! the configuration codec relies on.

use vstd::prelude::*;

verus! {

pub open spec fn is_dec_digit(c: u8) -> bool {
    48 <= c <= 57
}

pub open spec fn is_hex_digit(c: u8) -> bool {
    is_dec_digit(c) || (97 <= c <= 102)
}

pub open spec fn all_dec(s: Seq<u8>) -> bool {
    forall|i: int| 0 <= i < s.len() ==> is_dec_digit(#[trigger] s[i])
}

pub open spec fn all_hex(s: Seq<u8>) -> bool {
    forall|i: int| 0 <= i < s.len() ==> is_hex_digit(#[trigger] s[i])
}

/// Value of one decimal digit byte.
pub open spec fn dec_digit_val(c: u8) -> nat {
    (c - 48) as nat
}

/// Value of one hexadecimal digit byte (lowercase letters).
pub open spec fn hex_digit_val(c: u8) -> nat {
    if c >= 97 {
        (c - 97 + 10) as nat
    } else {
        (c - 48) as nat
    }
}

/// Numeric value of a string of decimal digit bytes.
pub open spec fn dec_val(s: Seq<u8>) -> nat
    decreases s.len(),
{
    if s.len() == 0 {
        0
    } else {
        dec_val(s.drop_last()) * 10 + dec_digit_val(s.last())
    }
}

/// Numeric value of a string of hexadecimal digit bytes.
pub open spec fn hex_val(s: Seq<u8>) -> nat
    decreases s.len(),
{
    if s.len() == 0 {
        0
    } else {
        hex_val(s.drop_last()) * 16 + hex_digit_val(s.last())
    }
}

/// Canonical decimal spelling of `n`: no leading zeros, "0" for zero.
pub open spec fn dec_rep(n: nat) -> Seq<u8>
    decreases n,
{
    if n < 10 {
        seq![(n + 48) as u8]
    } else {
        dec_rep(n / 10).push(((n % 10) + 48) as u8)
    }
}

/// Canonical lowercase hexadecimal spelling of `n`.
pub open spec fn hex_rep(n: nat) -> Seq<u8>
    decreases n,
{
    if n < 16 {
        seq![hex_digit_byte(n)]
    } else {
        hex_rep(n / 16).push(hex_digit_byte(n % 16))
    }
}

pub open spec fn hex_digit_byte(d: nat) -> u8 {
    if d < 10 {
        (d + 48) as u8
    } else {
        (d - 10 + 97) as u8
    }
}

pub proof fn lemma_dec_val_push(s: Seq<u8>, c: u8)
    ensures
        dec_val(s.push(c)) == dec_val(s) * 10 + dec_digit_val(c),
{
    assert(s.push(c).drop_last() =~= s);
    assert(s.push(c).last() == c);
}

pub proof fn lemma_hex_val_push(s: Seq<u8>, c: u8)
    ensures
        hex_val(s.push(c)) == hex_val(s) * 16 + hex_digit_val(c),
{
    assert(s.push(c).drop_last() =~= s);
    assert(s.push(c).last() == c);
}

/// The value of a digit string never drops when it is extended to the right.
pub proof fn lemma_dec_val_prefix_le(s: Seq<u8>, i: int)
    requires
        0 <= i <= s.len(),
    ensures
        dec_val(s.subrange(0, i)) <= dec_val(s),
    decreases s.len() - i,
{
    if i == s.len() {
        assert(s.subrange(0, i) =~= s);
    } else {
        assert(s.subrange(0, i + 1) =~= s.subrange(0, i).push(s[i]));
        lemma_dec_val_push(s.subrange(0, i), s[i]);
        lemma_dec_val_prefix_le(s, i + 1);
    }
}

pub proof fn lemma_hex_val_prefix_le(s: Seq<u8>, i: int)
    requires
        0 <= i <= s.len(),
    ensures
        hex_val(s.subrange(0, i)) <= hex_val(s),
    decreases s.len() - i,
{
    if i == s.len() {
        assert(s.subrange(0, i) =~= s);
    } else {
        assert(s.subrange(0, i + 1) =~= s.subrange(0, i).push(s[i]));
        lemma_hex_val_push(s.subrange(0, i), s[i]);
        lemma_hex_val_prefix_le(s, i + 1);
    }
}

/// The canonical spelling is made of digits, is non-empty, and reads back to
/// the number it spells.
pub proof fn lemma_dec_rep_val(n: nat)
    ensures
        all_dec(dec_rep(n)),
        dec_rep(n).len() >= 1,
        dec_val(dec_rep(n)) == n,
    decreases n,
{
    if n < 10 {
        assert(dec_val(dec_rep(n)) == dec_val(dec_rep(n).drop_last()) * 10 + dec_digit_val(
            dec_rep(n).last(),
        ));
        assert(dec_rep(n).drop_last() =~= Seq::<u8>::empty());
    } else {
        lemma_dec_rep_val(n / 10);
        lemma_dec_val_push(dec_rep(n / 10), ((n % 10) + 48) as u8);
        assert(all_dec(dec_rep(n))) by {
            let s = dec_rep(n / 10);
            let full = s.push(((n % 10) + 48) as u8);
            assert(forall|i: int|
                0 <= i < full.len() ==> is_dec_digit(#[trigger] full[i]) || i == s.len());
        }
    }
}

pub proof fn lemma_hex_rep_val(n: nat)
    ensures
        all_hex(hex_rep(n)),
        hex_rep(n).len() >= 1,
        hex_val(hex_rep(n)) == n,
    decreases n,
{
    if n < 16 {
        assert(hex_val(hex_rep(n)) == hex_val(hex_rep(n).drop_last()) * 16 + hex_digit_val(
            hex_rep(n).last(),
        ));
        assert(hex_rep(n).drop_last() =~= Seq::<u8>::empty());
    } else {
        lemma_hex_rep_val(n / 16);
        lemma_hex_val_push(hex_rep(n / 16), hex_digit_byte(n % 16));
        assert(all_hex(hex_rep(n))) by {
            let s = hex_rep(n / 16);
            let full = s.push(hex_digit_byte(n % 16));
            assert(forall|i: int|
                0 <= i < full.len() ==> is_hex_digit(#[trigger] full[i]) || i == s.len());
        }
    }
}

/// Writes the canonical decimal spelling of `n` onto the end of `out`.
pub fn write_dec_u64(n: u64, out: &mut Vec<u8>)
    ensures
        final(out)@ == old(out)@ + dec_rep(n as nat),
    decreases n,
{
    if n < 10 {
        out.push((n + 48) as u8);
        assert(old(out)@.push((n + 48) as u8) =~= old(out)@ + dec_rep(n as nat));
    } else {
        write_dec_u64(n / 10, out);
        out.push(((n % 10) + 48) as u8);
        assert(old(out)@ + dec_rep((n / 10) as nat) + seq![(((n as nat) % 10) + 48) as u8]
            =~= old(out)@ + dec_rep(n as nat));
    }
}

/// Writes the canonical lowercase hexadecimal spelling of `n` onto `out`.
pub fn write_hex_u16(n: u16, out: &mut Vec<u8>)
    ensures
        final(out)@ == old(out)@ + hex_rep(n as nat),
    decreases n,
{
    if n < 16 {
        let d: u8 = if n < 10 {
            (n + 48) as u8
        } else {
            (n as u8 - 10) + 97
        };
        assert(d == hex_digit_byte(n as nat));
        out.push(d);
        assert(old(out)@.push(d) =~= old(out)@ + hex_rep(n as nat));
    } else {
        write_hex_u16(n / 16, out);
        let m: u16 = n % 16;
        let d: u8 = if m < 10 {
            (m + 48) as u8
        } else {
            (m as u8 - 10) + 97
        };
        assert(d == hex_digit_byte((n as nat) % 16));
        out.push(d);
        assert(old(out)@ + hex_rep((n / 16) as nat) + seq![hex_digit_byte((n as nat) % 16)]
            =~= old(out)@ + hex_rep(n as nat));
    }
}

/// Reads a decimal numeral. Accepts leading zeros; rejects the empty string,
/// any non-digit byte, and values over `u16::MAX`.
pub fn parse_dec_u16(s: &[u8]) -> (r: Option<u16>)
    ensures
        match r {
            Some(v) => s@.len() > 0 && all_dec(s@) && dec_val(s@) == v,
            None => s@.len() == 0 || !all_dec(s@) || dec_val(s@) > 65535,
        },
{
    if s.len() == 0 {
        return None;
    }
    let mut acc: u32 = 0;
    let mut i: usize = 0;
    while i < s.len()
        invariant
            i <= s.len(),
            s@.len() > 0,
            acc == dec_val(s@.subrange(0, i as int)),
            acc <= 65535,
            forall|j: int| 0 <= j < i ==> is_dec_digit(#[trigger] s@[j]),
        decreases s.len() - i,
    {
        let c = s[i];
        if c < 48 || c > 57 {
            return None;
        }
        proof {
            assert(s@.subrange(0, i + 1) =~= s@.subrange(0, i as int).push(s@[i as int]));
            lemma_dec_val_push(s@.subrange(0, i as int), s@[i as int]);
        }
        acc = acc * 10 + ((c - 48) as u32);
        if acc > 65535 {
            proof {
                lemma_dec_val_prefix_le(s@, i + 1);
            }
            return None;
        }
        i += 1;
    }
    proof {
        assert(s@.subrange(0, s@.len() as int) =~= s@);
    }
    Some(acc as u16)
}

/// Reads a lowercase hexadecimal numeral, rejecting the empty string, any
/// byte that is not a hexadecimal digit, and values over `u16::MAX`.
pub fn parse_hex_u16(s: &[u8]) -> (r: Option<u16>)
    ensures
        match r {
            Some(v) => s@.len() > 0 && all_hex(s@) && hex_val(s@) == v,
            None => s@.len() == 0 || !all_hex(s@) || hex_val(s@) > 0xffff,
        },
{
    if s.len() == 0 {
        return None;
    }
    let mut acc: u32 = 0;
    let mut i: usize = 0;
    while i < s.len()
        invariant
            i <= s.len(),
            s@.len() > 0,
            acc == hex_val(s@.subrange(0, i as int)),
            acc <= 0xffff,
            forall|j: int| 0 <= j < i ==> is_hex_digit(#[trigger] s@[j]),
        decreases s.len() - i,
    {
        let c = s[i];
        let d: u32 = if 48 <= c && c <= 57 {
            (c - 48) as u32
        } else if 97 <= c && c <= 102 {
            (c - 97) as u32 + 10
        } else {
            return None;
        };
        assert(d == hex_digit_val(s@[i as int]));
        proof {
            assert(s@.subrange(0, i + 1) =~= s@.subrange(0, i as int).push(s@[i as int]));
            lemma_hex_val_push(s@.subrange(0, i as int), s@[i as int]);
        }
        acc = acc * 16 + d;
        if acc > 0xffff {
            proof {
                lemma_hex_val_prefix_le(s@, i + 1);
            }
            return None;
        }
        i += 1;
    }
    proof {
        assert(s@.subrange(0, s@.len() as int) =~= s@);
    }
    Some(acc as u16)
}

} // verus!
