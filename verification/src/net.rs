//! Listen addresses.
//!
//! A dataset's service listens on an IP address and port. Addresses are held
//! as plain values and rendered to (and read back from) the textual form used
//! by the persisted dataset configuration: `a.b.c.d:port` for IPv4 and
//! `[g:g:g:g:g:g:g:g]:port` for IPv6, with one hexadecimal group per word.

use vstd::prelude::*;
use crate::num::all_dec;
use crate::num::all_hex;
use crate::num::dec_rep;
use crate::num::dec_val;
use crate::num::hex_rep;
use crate::num::hex_val;
use crate::num::is_dec_digit;
use crate::num::is_hex_digit;
use crate::num::lemma_dec_rep_val;
use crate::num::lemma_hex_rep_val;
use crate::num::parse_dec_u16;
use crate::num::parse_hex_u16;
use crate::num::write_dec_u64;
use crate::num::write_hex_u16;

verus! {

pub const DOT: u8 = 46;

pub const COLON: u8 = 58;

pub const LBRACK: u8 = 91;

pub const RBRACK: u8 = 93;

#[derive(Clone, Copy, PartialEq, Eq, Structural, Debug)]
pub enum IpValue {
    V4(u8, u8, u8, u8),
    V6(u16, u16, u16, u16, u16, u16, u16, u16),
}

/// An IP address and port, as plain values.
#[derive(Clone, Copy, PartialEq, Eq, Structural, Debug)]
pub struct NetAddress {
    pub ip: IpValue,
    pub port: u16,
}

impl NetAddress {
    /// The on-link prefix length used when binding a zone to this address.
    pub fn prefix_len(&self) -> (r: u8)
        ensures
            r == spec_prefix_len(*self),
    {
        match self.ip {
            IpValue::V4(..) => 32,
            IpValue::V6(..) => 64,
        }
    }
}

pub open spec fn spec_prefix_len(a: NetAddress) -> u8 {
    match a.ip {
        IpValue::V4(..) => 32,
        IpValue::V6(..) => 64,
    }
}

// ---------------------------------------------------------------------------
// Locating a byte in a string.
// ---------------------------------------------------------------------------

/// Index of the first occurrence of `c` in `s`, if any.
pub open spec fn find_byte(s: Seq<u8>, c: u8) -> Option<int>
    decreases s.len(),
{
    if s.len() == 0 {
        None
    } else if s[0] == c {
        Some(0)
    } else {
        match find_byte(s.subrange(1, s.len() as int), c) {
            Some(i) => Some(i + 1),
            None => None,
        }
    }
}

pub proof fn lemma_find_byte_range(s: Seq<u8>, c: u8)
    ensures
        match find_byte(s, c) {
            Some(i) => 0 <= i < s.len() && s[i] == c && (forall|j: int| 0 <= j < i ==> s[j] != c),
            None => forall|j: int| 0 <= j < s.len() ==> s[j] != c,
        },
    decreases s.len(),
{
    if s.len() == 0 {
    } else if s[0] == c {
    } else {
        let t = s.subrange(1, s.len() as int);
        lemma_find_byte_range(t, c);
        assert(forall|j: int| 0 <= j < t.len() ==> t[j] == s[j + 1]);
        match find_byte(t, c) {
            Some(i) => {
                assert(s[i + 1] == t[i]);
                assert(forall|j: int| 1 <= j < i + 1 ==> s[j] == t[j - 1] && t[j - 1] != c);
            },
            None => {
                assert(forall|j: int| 1 <= j < s.len() ==> s[j] == t[j - 1] && t[j - 1] != c);
            },
        }
    }
}

pub proof fn lemma_find_byte_none(s: Seq<u8>, c: u8)
    requires
        forall|j: int| 0 <= j < s.len() ==> s[j] != c,
    ensures
        find_byte(s, c) is None,
    decreases s.len(),
{
    if s.len() > 0 {
        let t = s.subrange(1, s.len() as int);
        assert(forall|j: int| 0 <= j < t.len() ==> t[j] == s[j + 1] && s[j + 1] != c);
        lemma_find_byte_none(t, c);
    }
}

pub proof fn lemma_find_byte_at(s: Seq<u8>, c: u8, k: int)
    requires
        0 <= k < s.len(),
        s[k] == c,
        forall|j: int| 0 <= j < k ==> s[j] != c,
    ensures
        find_byte(s, c) == Some(k),
    decreases k,
{
    if k == 0 {
    } else {
        let t = s.subrange(1, s.len() as int);
        assert(forall|j: int| 0 <= j < t.len() ==> t[j] == s[j + 1]);
        lemma_find_byte_at(t, c, k - 1);
    }
}

/// Looking for `c` in `x + [c] + y` finds the occurrence between `x` and `y`
/// when `x` itself is free of `c`.
pub proof fn lemma_find_byte_concat(x: Seq<u8>, y: Seq<u8>, c: u8)
    requires
        forall|j: int| 0 <= j < x.len() ==> x[j] != c,
    ensures
        find_byte(x + seq![c] + y, c) == Some(x.len() as int),
{
    let s = x + seq![c] + y;
    assert(s[x.len() as int] == c);
    assert(forall|j: int| 0 <= j < x.len() ==> s[j] == x[j]);
    lemma_find_byte_at(s, c, x.len() as int);
}

/// First occurrence of `c` in `s`, executable form.
pub fn find_byte_in(s: &[u8], c: u8) -> (r: Option<usize>)
    ensures
        match r {
            Some(k) => k < s@.len() && find_byte(s@, c) == Some(k as int),
            None => find_byte(s@, c) is None,
        },
{
    let mut i: usize = 0;
    while i < s.len()
        invariant
            i <= s.len(),
            forall|j: int| 0 <= j < i ==> s@[j] != c,
        decreases s.len() - i,
    {
        if s[i] == c {
            proof {
                lemma_find_byte_at(s@, c, i as int);
            }
            return Some(i);
        }
        i += 1;
    }
    proof {
        lemma_find_byte_none(s@, c);
    }
    None
}

// ---------------------------------------------------------------------------
// Rendering an address to text.
// ---------------------------------------------------------------------------

/// Colon-separated hexadecimal groups, one per word of `gs`.
pub open spec fn groups_text(gs: Seq<u16>) -> Seq<u8>
    decreases gs.len(),
{
    if gs.len() == 0 {
        Seq::empty()
    } else if gs.len() == 1 {
        hex_rep(gs[0] as nat)
    } else {
        hex_rep(gs[0] as nat) + seq![COLON] + groups_text(gs.subrange(1, gs.len() as int))
    }
}

pub open spec fn spec_format_ip(ip: IpValue) -> Seq<u8> {
    match ip {
        IpValue::V4(a, b, c, d) => dec_rep(a as nat) + seq![DOT] + dec_rep(b as nat) + seq![DOT]
            + dec_rep(c as nat) + seq![DOT] + dec_rep(d as nat),
        IpValue::V6(g0, g1, g2, g3, g4, g5, g6, g7) => seq![LBRACK] + groups_text(
            seq![g0, g1, g2, g3, g4, g5, g6, g7],
        ) + seq![RBRACK],
    }
}

pub open spec fn spec_format_addr(a: NetAddress) -> Seq<u8> {
    spec_format_ip(a.ip) + seq![COLON] + dec_rep(a.port as nat)
}

/// Renders `a` onto the end of `out` in the textual form described above.
#[verifier::rlimit(50)]
pub fn write_addr(a: &NetAddress, out: &mut Vec<u8>)
    ensures
        final(out)@ == old(out)@ + spec_format_addr(*a),
{
    match a.ip {
        IpValue::V4(x0, x1, x2, x3) => {
            write_dec_u64(x0 as u64, out);
            out.push(DOT);
            write_dec_u64(x1 as u64, out);
            out.push(DOT);
            write_dec_u64(x2 as u64, out);
            out.push(DOT);
            write_dec_u64(x3 as u64, out);
            out.push(COLON);
            write_dec_u64(a.port as u64, out);
            assert(final(out)@ =~= old(out)@ + spec_format_addr(*a));
        },
        IpValue::V6(g0, g1, g2, g3, g4, g5, g6, g7) => {
            let mut gv: Vec<u16> = Vec::new();
            gv.push(g0);
            gv.push(g1);
            gv.push(g2);
            gv.push(g3);
            gv.push(g4);
            gv.push(g5);
            gv.push(g6);
            gv.push(g7);
            assert(gv@ =~= seq![g0, g1, g2, g3, g4, g5, g6, g7]);
            out.push(LBRACK);
            write_groups(gv.as_slice(), out);
            out.push(RBRACK);
            out.push(COLON);
            write_dec_u64(a.port as u64, out);
            assert(final(out)@ =~= old(out)@ + spec_format_addr(*a));
        },
    }
}

/// Renders colon-separated hexadecimal groups.
fn write_groups(gs: &[u16], out: &mut Vec<u8>)
    requires
        gs@.len() >= 1,
    ensures
        final(out)@ == old(out)@ + groups_text(gs@),
    decreases gs@.len(),
{
    write_hex_u16(gs[0], out);
    if gs.len() > 1 {
        out.push(COLON);
        let n = gs.len();
        write_groups(&gs[1..n], out);
        assert(final(out)@ =~= old(out)@ + groups_text(gs@));
    }
}

// ---------------------------------------------------------------------------
// Reading an address back from text.
// ---------------------------------------------------------------------------

pub open spec fn valid_group(g: Seq<u8>) -> bool {
    g.len() > 0 && all_hex(g) && hex_val(g) <= 0xffff
}

pub open spec fn valid_octet(o: Seq<u8>) -> bool {
    o.len() > 0 && all_dec(o) && dec_val(o) <= 255
}

pub open spec fn valid_port(p: Seq<u8>) -> bool {
    p.len() > 0 && all_dec(p) && dec_val(p) <= 65535
}

/// Colon-separated hexadecimal groups, as their values.
pub open spec fn spec_parse_groups(s: Seq<u8>) -> Option<Seq<u16>>
    decreases s.len(),
    via spec_parse_groups_decreases
{
    match find_byte(s, COLON) {
        None => if valid_group(s) {
            Some(seq![hex_val(s) as u16])
        } else {
            None
        },
        Some(i) => {
            let g = s.subrange(0, i);
            if valid_group(g) {
                match spec_parse_groups(s.subrange(i + 1, s.len() as int)) {
                    Some(rest) => Some(seq![hex_val(g) as u16] + rest),
                    None => None,
                }
            } else {
                None
            }
        },
    }
}

#[via_fn]
proof fn spec_parse_groups_decreases(s: Seq<u8>) {
    lemma_find_byte_range(s, COLON);
}

/// Dot-separated decimal octets, as their values.
pub open spec fn spec_parse_octets(s: Seq<u8>) -> Option<Seq<u8>>
    decreases s.len(),
    via spec_parse_octets_decreases
{
    match find_byte(s, DOT) {
        None => if valid_octet(s) {
            Some(seq![dec_val(s) as u8])
        } else {
            None
        },
        Some(i) => {
            let o = s.subrange(0, i);
            if valid_octet(o) {
                match spec_parse_octets(s.subrange(i + 1, s.len() as int)) {
                    Some(rest) => Some(seq![dec_val(o) as u8] + rest),
                    None => None,
                }
            } else {
                None
            }
        },
    }
}

#[via_fn]
proof fn spec_parse_octets_decreases(s: Seq<u8>) {
    lemma_find_byte_range(s, DOT);
}

/// The address denoted by `s`, if `s` is the textual form of one.
pub open spec fn spec_parse_addr(s: Seq<u8>) -> Option<NetAddress> {
    if s.len() == 0 {
        None
    } else if s[0] == LBRACK {
        match find_byte(s, RBRACK) {
            Some(j) => {
                let inner = s.subrange(1, j);
                let rest = s.subrange(j + 1, s.len() as int);
                if rest.len() >= 2 && rest[0] == COLON && valid_port(
                    rest.subrange(1, rest.len() as int),
                ) {
                    match spec_parse_groups(inner) {
                        Some(gs) => if gs.len() == 8 {
                            Some(
                                NetAddress {
                                    ip: IpValue::V6(
                                        gs[0],
                                        gs[1],
                                        gs[2],
                                        gs[3],
                                        gs[4],
                                        gs[5],
                                        gs[6],
                                        gs[7],
                                    ),
                                    port: dec_val(rest.subrange(1, rest.len() as int)) as u16,
                                },
                            )
                        } else {
                            None
                        },
                        None => None,
                    }
                } else {
                    None
                }
            },
            None => None,
        }
    } else {
        match find_byte(s, COLON) {
            Some(i) => {
                let left = s.subrange(0, i);
                let right = s.subrange(i + 1, s.len() as int);
                if valid_port(right) {
                    match spec_parse_octets(left) {
                        Some(os) => if os.len() == 4 {
                            Some(
                                NetAddress {
                                    ip: IpValue::V4(os[0], os[1], os[2], os[3]),
                                    port: dec_val(right) as u16,
                                },
                            )
                        } else {
                            None
                        },
                        None => None,
                    }
                } else {
                    None
                }
            },
            None => None,
        }
    }
}

/// Reads colon-separated hexadecimal groups.
fn parse_groups(s: &[u8]) -> (r: Option<Vec<u16>>)
    ensures
        match r {
            Some(v) => spec_parse_groups(s@) == Some(v@),
            None => spec_parse_groups(s@) is None,
        },
{
    let mut acc: Vec<u16> = Vec::new();
    let mut rem: &[u8] = s;
    loop
        invariant
            forall|rest: Seq<u16>|
                spec_parse_groups(rem@) == Some(rest) ==> spec_parse_groups(s@) == Some(acc@ + rest),
            spec_parse_groups(rem@) is None ==> spec_parse_groups(s@) is None,
        decreases rem@.len(),
    {
        match find_byte_in(rem, COLON) {
            None => {
                match parse_hex_u16(rem) {
                    Some(v) => {
                        assert(spec_parse_groups(rem@) == Some(seq![v]));
                        let ghost oa = acc@;
                        acc.push(v);
                        proof {
                            assert(oa + seq![v] =~= acc@);
                        }
                        return Some(acc);
                    },
                    None => {
                        assert(!valid_group(rem@));
                        return None;
                    },
                }
            },
            Some(i) => {
                let g = &rem[0..i];
                match parse_hex_u16(g) {
                    Some(v) => {
                        proof {
                            assert(spec_parse_groups(rem@) matches Some(rest) ==> rest == seq![v]
                                + spec_parse_groups(rem@.subrange(i + 1, rem@.len() as int))->Some_0);
                        }
                        let ghost old_acc = acc@;
                        let ghost old_rem = rem@;
                        let n = rem.len();
                        assert(i < n);
                        acc.push(v);
                        rem = &rem[i + 1..n];
                        proof {
                            assert forall|rest: Seq<u16>|
                                spec_parse_groups(rem@) == Some(rest) implies spec_parse_groups(s@)
                                == Some(acc@ + rest) by {
                                assert(spec_parse_groups(old_rem) == Some(seq![v] + rest));
                                assert(old_acc + (seq![v] + rest) =~= acc@ + rest);
                            }
                        }
                    },
                    None => {
                        assert(!valid_group(rem@.subrange(0, i as int)));
                        return None;
                    },
                }
            },
        }
    }
}

/// Reads dot-separated decimal octets.
fn parse_octets(s: &[u8]) -> (r: Option<Vec<u8>>)
    ensures
        match r {
            Some(v) => spec_parse_octets(s@) == Some(v@),
            None => spec_parse_octets(s@) is None,
        },
{
    let mut acc: Vec<u8> = Vec::new();
    let mut rem: &[u8] = s;
    loop
        invariant
            forall|rest: Seq<u8>|
                spec_parse_octets(rem@) == Some(rest) ==> spec_parse_octets(s@) == Some(acc@ + rest),
            spec_parse_octets(rem@) is None ==> spec_parse_octets(s@) is None,
        decreases rem@.len(),
    {
        match find_byte_in(rem, DOT) {
            None => {
                match parse_dec_u16(rem) {
                    Some(v) => {
                        if v > 255 {
                            assert(!valid_octet(rem@));
                            return None;
                        }
                        assert(spec_parse_octets(rem@) == Some(seq![v as u8]));
                        let ghost oa = acc@;
                        acc.push(v as u8);
                        proof {
                            assert(oa + seq![v as u8] =~= acc@);
                        }
                        return Some(acc);
                    },
                    None => {
                        assert(!valid_octet(rem@));
                        return None;
                    },
                }
            },
            Some(i) => {
                let o = &rem[0..i];
                match parse_dec_u16(o) {
                    Some(v) => {
                        if v > 255 {
                            assert(!valid_octet(rem@.subrange(0, i as int)));
                            return None;
                        }
                        let ghost old_acc = acc@;
                        let ghost old_rem = rem@;
                        let n = rem.len();
                        assert(i < n);
                        acc.push(v as u8);
                        rem = &rem[i + 1..n];
                        proof {
                            assert forall|rest: Seq<u8>|
                                spec_parse_octets(rem@) == Some(rest) implies spec_parse_octets(s@)
                                == Some(acc@ + rest) by {
                                assert(spec_parse_octets(old_rem) == Some(seq![v as u8] + rest));
                                assert(old_acc + (seq![v as u8] + rest) =~= acc@ + rest);
                            }
                        }
                    },
                    None => {
                        assert(!valid_octet(rem@.subrange(0, i as int)));
                        return None;
                    },
                }
            },
        }
    }
}

/// Reads an address from its textual form.
pub fn parse_addr(s: &[u8]) -> (r: Option<NetAddress>)
    ensures
        r == spec_parse_addr(s@),
{
    if s.len() == 0 {
        return None;
    }
    if s[0] == LBRACK {
        match find_byte_in(s, RBRACK) {
            Some(j) => {
                proof {
                    lemma_find_byte_range(s@, RBRACK);
                }
                assert(j >= 1);
                let inner = &s[1..j];
                let rest = &s[j + 1..s.len()];
                if rest.len() >= 2 && rest[0] == COLON {
                    let ptxt = &rest[1..rest.len()];
                    match parse_dec_u16(ptxt) {
                        Some(port) => {
                            match parse_groups(inner) {
                                Some(gs) => {
                                    if gs.len() == 8 {
                                        Some(
                                            NetAddress {
                                                ip: IpValue::V6(
                                                    gs[0],
                                                    gs[1],
                                                    gs[2],
                                                    gs[3],
                                                    gs[4],
                                                    gs[5],
                                                    gs[6],
                                                    gs[7],
                                                ),
                                                port,
                                            },
                                        )
                                    } else {
                                        None
                                    }
                                },
                                None => None,
                            }
                        },
                        None => {
                            assert(!valid_port(rest@.subrange(1, rest@.len() as int)));
                            None
                        },
                    }
                } else {
                    None
                }
            },
            None => None,
        }
    } else {
        match find_byte_in(s, COLON) {
            Some(i) => {
                let left = &s[0..i];
                let right = &s[i + 1..s.len()];
                match parse_dec_u16(right) {
                    Some(port) => {
                        match parse_octets(left) {
                            Some(os) => {
                                if os.len() == 4 {
                                    Some(
                                        NetAddress {
                                            ip: IpValue::V4(os[0], os[1], os[2], os[3]),
                                            port,
                                        },
                                    )
                                } else {
                                    None
                                }
                            },
                            None => None,
                        }
                    },
                    None => {
                        assert(!valid_port(s@.subrange(i + 1, s@.len() as int)));
                        None
                    },
                }
            },
            None => None,
        }
    }
}

// ---------------------------------------------------------------------------
// The textual form reads back to the address it was rendered from.
// ---------------------------------------------------------------------------

proof fn lemma_parse_groups_last(g: u16)
    ensures
        spec_parse_groups(hex_rep(g as nat)) == Some(seq![g]),
{
    lemma_hex_rep_val(g as nat);
    lemma_find_byte_none(hex_rep(g as nat), COLON);
}

proof fn lemma_parse_groups_cons(g: u16, rest: Seq<u8>, tail: Seq<u16>)
    requires
        spec_parse_groups(rest) == Some(tail),
    ensures
        spec_parse_groups(hex_rep(g as nat) + seq![COLON] + rest) == Some(seq![g] + tail),
{
    let h = hex_rep(g as nat);
    lemma_hex_rep_val(g as nat);
    let s = h + seq![COLON] + rest;
    lemma_find_byte_concat(h, rest, COLON);
    assert(s.subrange(0, h.len() as int) =~= h);
    assert(s.subrange(h.len() as int + 1, s.len() as int) =~= rest);
}

proof fn lemma_parse_octets_last(o: u8)
    ensures
        spec_parse_octets(dec_rep(o as nat)) == Some(seq![o]),
{
    lemma_dec_rep_val(o as nat);
    lemma_find_byte_none(dec_rep(o as nat), DOT);
}

proof fn lemma_parse_octets_cons(o: u8, rest: Seq<u8>, tail: Seq<u8>)
    requires
        spec_parse_octets(rest) == Some(tail),
    ensures
        spec_parse_octets(dec_rep(o as nat) + seq![DOT] + rest) == Some(seq![o] + tail),
{
    let d = dec_rep(o as nat);
    lemma_dec_rep_val(o as nat);
    let s = d + seq![DOT] + rest;
    lemma_find_byte_concat(d, rest, DOT);
    assert(s.subrange(0, d.len() as int) =~= d);
    assert(s.subrange(d.len() as int + 1, s.len() as int) =~= rest);
}

/// Reading back the rendered form of an address yields that address.
pub proof fn lemma_addr_roundtrip(a: NetAddress)
    ensures
        spec_parse_addr(spec_format_addr(a)) == Some(a),
{
    match a.ip {
        IpValue::V4(..) => lemma_addr_roundtrip_v4(a),
        IpValue::V6(..) => lemma_addr_roundtrip_v6(a),
    }
}

#[verifier::rlimit(50)]
proof fn lemma_addr_roundtrip_v4(a: NetAddress)
    requires
        a.ip is V4,
    ensures
        spec_parse_addr(spec_format_addr(a)) == Some(a),
{
    let s = spec_format_addr(a);
    lemma_dec_rep_val(a.port as nat);
    match a.ip {
        IpValue::V6(..) => {},
        IpValue::V4(x0, x1, x2, x3) => {
            let t3 = dec_rep(x3 as nat);
            let t2 = dec_rep(x2 as nat) + seq![DOT] + t3;
            let t1 = dec_rep(x1 as nat) + seq![DOT] + t2;
            let t0 = dec_rep(x0 as nat) + seq![DOT] + t1;
            lemma_parse_octets_last(x3);
            lemma_parse_octets_cons(x2, t3, seq![x3]);
            lemma_parse_octets_cons(x1, t2, seq![x2] + seq![x3]);
            lemma_parse_octets_cons(x0, t1, seq![x1] + (seq![x2] + seq![x3]));
            assert(spec_parse_octets(t0) == Some(seq![x0] + (seq![x1] + (seq![x2] + seq![x3]))));
            assert(seq![x0] + (seq![x1] + (seq![x2] + seq![x3])) =~= seq![x0, x1, x2, x3]);
            lemma_dec_rep_val(x0 as nat);
            lemma_dec_rep_val(x1 as nat);
            lemma_dec_rep_val(x2 as nat);
            lemma_dec_rep_val(x3 as nat);
            assert(forall|j: int| 0 <= j < t0.len() ==> t0[j] != COLON) by {
                assert(forall|j: int| 0 <= j < t0.len() ==> is_dec_digit(t0[j]) || t0[j] == DOT);
            }
            assert(s =~= t0 + seq![COLON] + dec_rep(a.port as nat));
            lemma_find_byte_concat(t0, dec_rep(a.port as nat), COLON);
            assert(s.len() > 0 && s[0] != LBRACK) by {
                assert(is_dec_digit(dec_rep(x0 as nat)[0]));
                assert(s[0] == dec_rep(x0 as nat)[0]);
            }
            assert(s.subrange(0, t0.len() as int) =~= t0);
            assert(s.subrange(t0.len() as int + 1, s.len() as int) =~= dec_rep(a.port as nat));
        },
    }
}

/// Group text parses back to the group values.
proof fn lemma_groups_text_parse(gs: Seq<u16>)
    requires
        gs.len() >= 1,
    ensures
        spec_parse_groups(groups_text(gs)) == Some(gs),
    decreases gs.len(),
{
    if gs.len() == 1 {
        lemma_parse_groups_last(gs[0]);
        assert(seq![gs[0]] =~= gs);
    } else {
        let rest = gs.subrange(1, gs.len() as int);
        lemma_groups_text_parse(rest);
        lemma_parse_groups_cons(gs[0], groups_text(rest), rest);
        assert(seq![gs[0]] + rest =~= gs);
    }
}

/// Group text is made of hexadecimal digits and colons.
proof fn lemma_groups_text_bytes(gs: Seq<u16>)
    ensures
        forall|j: int|
            0 <= j < groups_text(gs).len() ==> is_hex_digit(#[trigger] groups_text(gs)[j])
                || groups_text(gs)[j] == COLON,
    decreases gs.len(),
{
    if gs.len() == 0 {
    } else if gs.len() == 1 {
        lemma_hex_rep_val(gs[0] as nat);
    } else {
        let h = hex_rep(gs[0] as nat);
        let rest = gs.subrange(1, gs.len() as int);
        lemma_hex_rep_val(gs[0] as nat);
        lemma_groups_text_bytes(rest);
        let t = groups_text(gs);
        assert forall|j: int| 0 <= j < t.len() implies is_hex_digit(#[trigger] t[j]) || t[j]
            == COLON by {
            if j < h.len() {
                assert(t[j] == h[j]);
            } else if j == h.len() {
                assert(t[j] == COLON);
            } else {
                assert(t[j] == groups_text(rest)[j - h.len() - 1]);
            }
        }
    }
}

#[verifier::rlimit(50)]
proof fn lemma_addr_roundtrip_v6(a: NetAddress)
    requires
        a.ip is V6,
    ensures
        spec_parse_addr(spec_format_addr(a)) == Some(a),
{
    let s = spec_format_addr(a);
    lemma_dec_rep_val(a.port as nat);
    match a.ip {
        IpValue::V4(..) => {},
        IpValue::V6(g0, g1, g2, g3, g4, g5, g6, g7) => {
            let gs = seq![g0, g1, g2, g3, g4, g5, g6, g7];
            let gtext = groups_text(gs);
            lemma_groups_text_parse(gs);
            lemma_groups_text_bytes(gs);
            assert(s =~= seq![LBRACK] + gtext + seq![RBRACK] + (seq![COLON] + dec_rep(
                a.port as nat,
            )));
            assert(s[0] == LBRACK);
            let j = 1 + gtext.len() as int;
            assert(forall|k: int| 1 <= k < j ==> s[k] == gtext[k - 1]);
            assert(forall|k: int| 0 <= k < j ==> s[k] != RBRACK);
            assert(s[j] == RBRACK);
            lemma_find_byte_at(s, RBRACK, j);
            assert(s.subrange(1, j) =~= gtext);
            let rest = s.subrange(j + 1, s.len() as int);
            assert(rest =~= seq![COLON] + dec_rep(a.port as nat));
            assert(rest.subrange(1, rest.len() as int) =~= dec_rep(a.port as nat));
        },
    }
}

/// Every byte of a rendered address stays clear of quotes and line breaks.
pub proof fn lemma_format_addr_bytes(a: NetAddress)
    ensures
        forall|j: int|
            0 <= j < spec_format_addr(a).len() ==> {
                let c = #[trigger] spec_format_addr(a)[j];
                c != 34 && c != 10
            },
{
    let s = spec_format_addr(a);
    match a.ip {
        IpValue::V4(x0, x1, x2, x3) => {
            lemma_dec_rep_val(x0 as nat);
            lemma_dec_rep_val(x1 as nat);
            lemma_dec_rep_val(x2 as nat);
            lemma_dec_rep_val(x3 as nat);
            lemma_dec_rep_val(a.port as nat);
            assert(forall|j: int|
                0 <= j < s.len() ==> is_dec_digit(#[trigger] s[j]) || s[j] == DOT || s[j] == COLON);
        },
        IpValue::V6(g0, g1, g2, g3, g4, g5, g6, g7) => {
            lemma_groups_text_bytes(seq![g0, g1, g2, g3, g4, g5, g6, g7]);
            lemma_dec_rep_val(a.port as nat);
            assert(forall|j: int|
                0 <= j < s.len() ==> is_hex_digit(#[trigger] s[j]) || s[j] == COLON || s[j]
                    == LBRACK || s[j] == RBRACK);
        },
    }
}

} // verus!
