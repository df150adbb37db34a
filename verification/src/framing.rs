//! The framing of a SAME transmission: each message is sent three times,
//! each time as a burst of sixteen preamble bytes followed by the bytes of
//! the message, every byte with its lowest bit first.

use vstd::prelude::*;
use vstd::string::StringSliceAdditionalSpecFns;

verus! {

/// The byte that a burst opens with, sixteen times.
pub const PREAMBLE_BYTE: u8 = 0xAB;

/// How many preamble bytes open a burst.
pub const PREAMBLE_LEN: usize = 16;

/// How many times a message is sent.
pub const BURSTS: usize = 3;

/// The message that ends a transmission.
pub const END_OF_MESSAGE: &'static str = "NNNN";

/// The bytes of one burst: the preamble, then the bytes of the message.
pub open spec fn burst_bytes(message: Seq<u8>) -> Seq<u8> {
    Seq::new(PREAMBLE_LEN as nat, |i: int| PREAMBLE_BYTE) + message
}

/// Bit `k` of a byte, counted from the lowest.
pub open spec fn bit_of(b: u8, k: u8) -> bool {
    (b >> k) & 1 == 1
}

/// How many bits a burst of the message takes.
pub open spec fn burst_bit_count(message: Seq<u8>) -> nat {
    (8 * (PREAMBLE_LEN + message.len())) as nat
}

/// The bytes of one burst for a message.
pub fn same_burst_bytes(message: &str) -> (r: Vec<u8>)
    ensures
        r@ == burst_bytes(message.spec_bytes()),
{
    let mut r: Vec<u8> = Vec::new();
    let mut i: usize = 0;
    while i < PREAMBLE_LEN
        invariant
            i <= PREAMBLE_LEN,
            r@ == Seq::new(i as nat, |k: int| PREAMBLE_BYTE),
        decreases PREAMBLE_LEN - i,
    {
        r.push(PREAMBLE_BYTE);
        assert(r@ =~= Seq::new((i + 1) as nat, |k: int| PREAMBLE_BYTE));
        i += 1;
    }
    let bytes = message.as_bytes();
    let mut j: usize = 0;
    let ghost head = r@;
    while j < bytes.len()
        invariant
            j <= bytes.len(),
            bytes@ == message.spec_bytes(),
            r@ == head + bytes@.take(j as int),
        decreases bytes.len() - j,
    {
        r.push(bytes[j]);
        assert(bytes@.take(j + 1) =~= bytes@.take(j as int).push(bytes@[j as int]));
        assert(head + bytes@.take(j + 1) =~= (head + bytes@.take(j as int)).push(bytes@[j as int]));
        j += 1;
    }
    assert(bytes@.take(bytes.len() as int) =~= bytes@);
    r
}

/// The bits of a run of bytes in the order in which they are sent: byte
/// after byte, each with its lowest bit first.
pub fn frame_bits(bytes: &Vec<u8>) -> (bits: Vec<bool>)
    requires
        bytes.len() <= usize::MAX / 8,
    ensures
        bits@.len() == 8 * bytes@.len(),
        forall|i: int, k: u8|
            0 <= i < bytes@.len() && k < 8 ==> bits@[8 * i + k] == bit_of(bytes@[i], k),
{
    let mut bits: Vec<bool> = Vec::new();
    let mut i: usize = 0;
    while i < bytes.len()
        invariant
            i <= bytes.len(),
            bytes.len() <= usize::MAX / 8,
            bits@.len() == 8 * i,
            forall|j: int, k: u8| 0 <= j < i && k < 8 ==> bits@[8 * j + k] == bit_of(bytes@[j], k),
        decreases bytes.len() - i,
    {
        let b = bytes[i];
        let mut k: u8 = 0;
        while k < 8
            invariant
                k <= 8,
                i < bytes.len(),
                b == bytes@[i as int],
                bits@.len() == 8 * i + k,
                forall|j: int, m: u8|
                    0 <= j < i && m < 8 ==> bits@[8 * j + m] == bit_of(bytes@[j], m),
                forall|m: u8| m < k ==> bits@[8 * i + m] == bit_of(b, m),
            decreases 8 - k,
        {
            bits.push((b >> k) & 1 == 1);
            k += 1;
        }
        i += 1;
    }
    bits
}

} // verus!
