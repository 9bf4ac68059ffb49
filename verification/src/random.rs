//! Random numbers from the operating system.
use vstd::prelude::*;

use crate::buffer;

verus! {

/// `rand::rngs::OsRng` through `fill_bytes`: four bytes from the operating
/// system's generator. Nothing is claimed of their values; where the operating
/// system has none to give, the call does not return.
#[verifier::external_body]
fn os_random_bytes() -> (r: [u8; 4]) {
    let mut buf = [0u8; 4];
    rand::RngCore::fill_bytes(&mut rand::rngs::OsRng, &mut buf);
    buf
}

/// The number that four bytes write in network byte order.
pub fn word_of_bytes(bytes: [u8; 4]) -> (r: u32)
    ensures
        r == buffer::be_value(bytes@),
{
    proof {
        reveal_with_fuel(buffer::be_value, 5);
        let s = bytes@;
        assert(s.drop_last() =~= seq![s[0], s[1], s[2]]);
        assert(s.drop_last().drop_last() =~= seq![s[0], s[1]]);
        assert(s.drop_last().drop_last().drop_last() =~= seq![s[0]]);
    }
    ((bytes[0] as u32 * 256 + bytes[1] as u32) * 256 + bytes[2] as u32) * 256 + bytes[3] as u32
}

/// A random number. Nothing is promised of its value.
pub fn random_word() -> (r: u32) {
    word_of_bytes(os_random_bytes())
}

/// Four bytes make up a number with the most significant byte first.
pub proof fn law_word_of_bytes(bytes: [u8; 4], r: u32)
    requires
        call_ensures(word_of_bytes, (bytes,), r),
    ensures
        r == 0x100_0000 * bytes@[0] + 0x1_0000 * bytes@[1] + 0x100 * bytes@[2] + bytes@[3],
{
    reveal_with_fuel(buffer::be_value, 5);
    let s = bytes@;
    assert(s.drop_last() =~= seq![s[0], s[1], s[2]]);
    assert(s.drop_last().drop_last() =~= seq![s[0], s[1]]);
    assert(s.drop_last().drop_last().drop_last() =~= seq![s[0]]);
}

} // verus!
