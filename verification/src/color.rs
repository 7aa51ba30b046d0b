//! The colour that stands for a name: the same name always has the same
//! colour, and every colour is light enough to be read on a dark screen.

use vstd::prelude::*;

verus! {

/// The first `k` of `bytes` mixed into a number of twenty-four bits.
pub open spec fn mixed(bytes: Seq<u8>, k: int) -> nat
    decreases k,
{
    if k <= 0 {
        5381
    } else {
        (mixed(bytes, k - 1) * 33 + bytes[k - 1] as nat) % 16777216
    }
}

/// A part of a colour from eight bits: in the upper half of its range.
pub open spec fn light(part: nat) -> u8 {
    (128 + (part % 256) / 2) as u8
}

/// The colour that stands for `name`: the bytes of the name are mixed into
/// twenty-four bits, eight for each of red, green and blue.
pub open spec fn rgb_of(name: Seq<char>) -> (u8, u8, u8) {
    let bytes = vstd::utf8::encode_utf8(name);
    let hash = mixed(bytes, bytes.len() as int);
    (light(hash / 65536), light(hash / 256), light(hash))
}

/// The colour that stands for `name`.
pub fn id_to_rgb(name: &str) -> (colour: (u8, u8, u8))
    ensures
        colour == rgb_of(name@),
        colour.0 >= 128 && colour.1 >= 128 && colour.2 >= 128,
{
    let bytes = name.as_bytes();
    let mut hash: u64 = 5381;
    let mut i: usize = 0;
    while i < bytes.len()
        invariant
            i <= bytes@.len(),
            hash == mixed(bytes@, i as int),
            hash < 16777216,
        decreases bytes.len() - i,
    {
        hash = (hash * 33 + bytes[i] as u64) % 16777216;
        i = i + 1;
    }
    let red: u64 = 128 + ((hash / 65536) % 256) / 2;
    let green: u64 = 128 + ((hash / 256) % 256) / 2;
    let blue: u64 = 128 + (hash % 256) / 2;
    (red as u8, green as u8, blue as u8)
}

} // verus!
