//! The base64 variant used by salted hash strings: six bits at a time,
//! least significant first, over the alphabet `./0-9A-Za-z`.

use vstd::prelude::*;

verus! {

/// The output character for one six-bit value.
pub open spec fn b64_char(v: int) -> u8 {
    if v == 0 {
        46u8
    } else if v == 1 {
        47u8
    } else if v < 12 {
        (48 + (v - 2)) as u8
    } else if v < 38 {
        (65 + (v - 12)) as u8
    } else {
        (97 + (v - 38)) as u8
    }
}

/// The packed 24-bit word for one group of three bytes.
pub open spec fn w_of(b2: u8, b1: u8, b0: u8) -> int {
    b2 as int * 0x10000 + b1 as int * 0x100 + b0 as int
}

/// The `n` characters emitted for a word, six bits at a time, least
/// significant first.
pub open spec fn b64_seq(w: int, n: nat) -> Seq<u8>
    decreases n,
{
    if n == 0 {
        Seq::empty()
    } else {
        seq![b64_char(w % 64)] + b64_seq(w / 64, (n - 1) as nat)
    }
}

/// The output character for one six-bit value.
fn b64_char_of(v: u32) -> (c: u8)
    requires
        v < 64,
    ensures
        c == b64_char(v as int),
{
    if v == 0 {
        46
    } else if v == 1 {
        47
    } else if v < 12 {
        (v - 2 + 48) as u8
    } else if v < 38 {
        (v - 12 + 65) as u8
    } else {
        (v - 38 + 97) as u8
    }
}

/// Accumulates the base64 text of a hash, three bytes at a time.
pub struct B64CryptEncoder {
    buf: Vec<u8>,
}

impl View for B64CryptEncoder {
    type V = Seq<u8>;

    closed spec fn view(&self) -> Seq<u8> {
        self.buf@
    }
}

impl B64CryptEncoder {
    /// An empty encoder with room for `capacity` characters.
    pub fn new(capacity: usize) -> (enc: Self)
        ensures
            enc@ == Seq::<u8>::empty(),
    {
        B64CryptEncoder { buf: Vec::with_capacity(capacity) }
    }

    /// Packs three bytes into a word and appends its `n` characters.
    pub fn push(&mut self, b2: u8, b1: u8, b0: u8, n: usize)
        requires
            n <= 4,
        ensures
            final(self)@ == old(self)@ + b64_seq(w_of(b2, b1, b0), n as nat),
    {
        let mut w: u32 = b2 as u32 * 0x10000 + b1 as u32 * 0x100 + b0 as u32;
        let ghost w0 = w as int;
        let mut i: usize = 0;
        while i < n
            invariant
                i <= n,
                w < 0x1000000,
                old(self)@ + b64_seq(w0, n as nat) == self.buf@ + b64_seq(w as int, (n - i) as nat),
            decreases n - i,
        {
            let c = b64_char_of(w % 64);
            let ghost before = self.buf@;
            self.buf.push(c);
            proof {
                assert(b64_seq(w as int, (n - i) as nat)
                    == seq![b64_char(w as int % 64)] + b64_seq(w as int / 64, (n - i - 1) as nat));
                assert(before + b64_seq(w as int, (n - i) as nat)
                    =~= self.buf@ + b64_seq(w as int / 64, (n - i - 1) as nat));
            }
            w = w / 64;
            i += 1;
        }
        proof {
            assert(b64_seq(w as int, 0) == Seq::<u8>::empty());
            assert(self.buf@ + Seq::<u8>::empty() =~= self.buf@);
        }
    }

    /// Hands the accumulated text out.
    pub fn into_bytes(self) -> (r: Vec<u8>)
        ensures
            r@ == self@,
    {
        self.buf
    }
}

} // verus!
