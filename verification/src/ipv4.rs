//! IPv4 addresses in the form DCC carries them: one unsigned 32-bit number,
//! most significant octet first.

use crate::decimal::{numeral, render};
use vstd::prelude::*;
use vstd::string::StringExecFns;

verus! {

/// An IPv4 address `a.b.c.d`.
#[derive(Clone, Copy, Debug, PartialEq, Eq, Structural)]
pub struct Ipv4 {
    pub a: u8,
    pub b: u8,
    pub c: u8,
    pub d: u8,
}

/// The address that the number `n` stands for: its four octets, most
/// significant first.
pub open spec fn decode(n: u32) -> Ipv4 {
    Ipv4 {
        a: (n / 0x100_0000) as u8,
        b: (n / 0x1_0000 % 0x100) as u8,
        c: (n / 0x100 % 0x100) as u8,
        d: (n % 0x100) as u8,
    }
}

impl Ipv4 {
    /// The number that stands for this address:
    /// `a * 2^24 + b * 2^16 + c * 2^8 + d`.
    pub open spec fn number(self) -> nat {
        (self.a * 0x100_0000 + self.b * 0x1_0000 + self.c * 0x100 + self.d) as nat
    }

    /// Dotted-quad notation, `a.b.c.d`, each octet in decimal.
    pub open spec fn dotted(self) -> Seq<char> {
        numeral(self.a as nat) + seq!['.'] + numeral(self.b as nat) + seq!['.'] + numeral(
            self.c as nat,
        ) + seq!['.'] + numeral(self.d as nat)
    }

    /// Decodes the 32-bit number of a DCC offer.
    pub fn from_number(n: u32) -> (ip: Ipv4)
        ensures
            ip == decode(n),
            ip.number() == n,
    {
        let a = (n >> 24) & 0xff;
        let b = (n >> 16) & 0xff;
        let c = (n >> 8) & 0xff;
        let d = n & 0xff;
        assert(a == n / 0x100_0000 && a < 0x100) by (bit_vector)
            requires
                a == (n >> 24) & 0xff,
        ;
        assert(b == n / 0x1_0000 % 0x100 && b < 0x100) by (bit_vector)
            requires
                b == (n >> 16) & 0xff,
        ;
        assert(c == n / 0x100 % 0x100 && c < 0x100) by (bit_vector)
            requires
                c == (n >> 8) & 0xff,
        ;
        assert(d == n % 0x100 && d < 0x100) by (bit_vector)
            requires
                d == n & 0xff,
        ;
        proof {
            lemma_decode_number(n);
        }
        Ipv4 { a: a as u8, b: b as u8, c: c as u8, d: d as u8 }
    }

    /// The 32-bit number of this address.
    pub fn to_number(&self) -> (n: u32)
        ensures
            n == self.number(),
            decode(n) == *self,
    {
        proof {
            lemma_number_decode(*self);
        }
        let a: u32 = self.a as u32;
        let b: u32 = self.b as u32;
        let c: u32 = self.c as u32;
        let d: u32 = self.d as u32;
        a * 0x100_0000 + b * 0x1_0000 + c * 0x100 + d
    }

    /// The address in dotted-quad notation.
    pub fn to_text(&self) -> (s: String)
        ensures
            s@ == self.dotted(),
    {
        let mut s = render(self.a as u64);
        s.append(".");
        s.append(render(self.b as u64).as_str());
        s.append(".");
        s.append(render(self.c as u64).as_str());
        s.append(".");
        s.append(render(self.d as u64).as_str());
        proof {
            reveal_strlit(".");
            assert("."@ =~= seq!['.']);
        }
        s
    }
}

/// Decoding loses nothing: the address of `n` has the number `n`.
pub proof fn lemma_decode_number(n: u32)
    ensures
        decode(n).number() == n,
{
}

/// Every address is the decoding of its number, and that number fits in 32
/// bits.
pub proof fn lemma_number_decode(ip: Ipv4)
    ensures
        ip.number() <= u32::MAX,
        decode(ip.number() as u32) == ip,
{
    let a: u32 = ip.a as u32;
    let b: u32 = ip.b as u32;
    let c: u32 = ip.c as u32;
    let d: u32 = ip.d as u32;
    let n: u32 = (a * 0x100_0000 + b * 0x1_0000 + c * 0x100 + d) as u32;
    assert(n / 0x100_0000 == a && n / 0x1_0000 % 0x100 == b && n / 0x100 % 0x100 == c && n % 0x100
        == d) by (bit_vector)
        requires
            a < 0x100,
            b < 0x100,
            c < 0x100,
            d < 0x100,
            n == a * 0x100_0000 + b * 0x1_0000 + c * 0x100 + d,
    ;
}

/// Decoding is one-to-one and onto: two numbers with the same address are the
/// same number, and every address is the address of some number.
pub proof fn lemma_decode_bijective(m: u32, n: u32, ip: Ipv4)
    ensures
        decode(m) == decode(n) ==> m == n,
        exists|k: u32| decode(k) == ip,
{
    lemma_decode_number(m);
    lemma_decode_number(n);
    lemma_number_decode(ip);
    assert(decode(ip.number() as u32) == ip);
}

} // verus!
