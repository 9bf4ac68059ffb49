//! Byte buffers: copying in and out, and integers in network byte order.
use vstd::prelude::*;

verus! {

/// `s` with the bytes from `at` on replaced by those of `data`.
pub open spec fn splice(s: Seq<u8>, at: int, data: Seq<u8>) -> Seq<u8> {
    s.subrange(0, at) + data + s.subrange(at + data.len(), s.len() as int)
}

/// What was copied into a buffer is read back from the same place.
pub proof fn law_splice_read_back(s: Seq<u8>, at: int, data: Seq<u8>)
    requires
        0 <= at,
        at + data.len() <= s.len(),
    ensures
        splice(s, at, data).len() == s.len(),
        splice(s, at, data).subrange(at, at + data.len()) == data,
{
    assert(splice(s, at, data).subrange(at, at + data.len()) =~= data);
}

/// Copying into a buffer changes no byte outside the place copied to.
pub proof fn law_splice_elsewhere(s: Seq<u8>, at: int, data: Seq<u8>, i: int)
    requires
        0 <= at,
        at + data.len() <= s.len(),
        0 <= i < s.len(),
        i < at || at + data.len() <= i,
    ensures
        splice(s, at, data)[i] == s[i],
{
}

/// Copies `data` into `buf` from index `at` on.
pub fn copy_into(buf: &mut Vec<u8>, at: usize, data: &[u8])
    requires
        at + data@.len() <= old(buf)@.len(),
    ensures
        final(buf)@ == splice(old(buf)@, at as int, data@),
{
    let mut i: usize = 0;
    while i < data.len()
        invariant
            i <= data@.len(),
            at + data@.len() <= buf@.len(),
            buf@.len() == old(buf)@.len(),
            forall|j: int|
                0 <= j < buf@.len() ==> #[trigger] buf@[j] == if at <= j < at + i {
                    data@[j - at]
                } else {
                    old(buf)@[j]
                },
        decreases data@.len() - i,
    {
        assert(at + i < buf.len());
        buf[at + i] = data[i];
        i += 1;
    }
    proof {
        assert(buf@ =~= splice(old(buf)@, at as int, data@));
    }
}

/// The bytes of `s` from `from` up to `to`.
pub fn copy_range(s: &[u8], from: usize, to: usize) -> (r: Vec<u8>)
    requires
        from <= to <= s@.len(),
    ensures
        r@ == s@.subrange(from as int, to as int),
{
    vstd::slice::slice_to_vec(vstd::slice::slice_subrange(s, from, to))
}

/// `len` zero bytes.
pub fn zeroed(len: usize) -> (r: Vec<u8>)
    requires
        len <= isize::MAX,
    ensures
        r@ == Seq::new(len as nat, |i: int| 0u8),
{
    let r: Vec<u8> = vec![0u8; len];
    proof {
        assert(r@ =~= Seq::new(len as nat, |i: int| 0u8));
    }
    r
}

/// The number that the bytes of `s` write in network byte order.
pub open spec fn be_value(s: Seq<u8>) -> nat
    decreases s.len(),
{
    if s.len() == 0 {
        0
    } else {
        be_value(s.drop_last()) * 256 + s.last() as nat
    }
}

/// `n` in network byte order, in `len` bytes; what does not fit is cut off.
pub open spec fn be_bytes(n: nat, len: nat) -> Seq<u8>
    decreases len,
{
    if len == 0 {
        Seq::empty()
    } else {
        be_bytes(n / 256, (len - 1) as nat).push((n % 256) as u8)
    }
}

/// How many numbers `len` bytes can write.
pub open spec fn be_count(len: nat) -> nat
    decreases len,
{
    if len == 0 {
        1
    } else {
        256 * be_count((len - 1) as nat)
    }
}

pub proof fn lemma_be_bytes_len(n: nat, len: nat)
    ensures
        be_bytes(n, len).len() == len,
    decreases len,
{
    if len > 0 {
        lemma_be_bytes_len(n / 256, (len - 1) as nat);
    }
}

pub proof fn lemma_be_value_bound(s: Seq<u8>)
    ensures
        be_value(s) < be_count(s.len()),
    decreases s.len(),
{
    if s.len() > 0 {
        lemma_be_value_bound(s.drop_last());
    }
}

/// A number that `len` bytes can write is read back from them.
pub proof fn law_be_value_of_bytes(n: nat, len: nat)
    requires
        n < be_count(len),
    ensures
        be_bytes(n, len).len() == len,
        be_value(be_bytes(n, len)) == n,
    decreases len,
{
    lemma_be_bytes_len(n, len);
    if len > 0 {
        law_be_value_of_bytes(n / 256, (len - 1) as nat);
        assert(be_bytes(n, len).drop_last() =~= be_bytes(n / 256, (len - 1) as nat));
    }
}

/// Bytes are written again from the number that they write.
pub proof fn law_be_bytes_of_value(s: Seq<u8>)
    ensures
        be_bytes(be_value(s), s.len()) == s,
    decreases s.len(),
{
    if s.len() > 0 {
        law_be_bytes_of_value(s.drop_last());
        assert(s =~= s.drop_last().push(s.last()));
    } else {
        assert(s =~= Seq::<u8>::empty());
    }
}

/// Eight bytes write a number with the most significant byte first.
pub proof fn law_be_value_of_eight(s: Seq<u8>)
    requires
        s.len() == 8,
    ensures
        be_value(s) == 0x100_0000_0000_0000 * s[0] + 0x1_0000_0000_0000 * s[1] + 0x100_0000_0000
            * s[2] + 0x1_0000_0000 * s[3] + 0x100_0000 * s[4] + 0x1_0000 * s[5] + 0x100 * s[6]
            + s[7],
        be_value(s) <= u64::MAX,
{
    law_be_value_of_two(s.take(2));
    let s3 = s.take(3);
    let s4 = s.take(4);
    let s5 = s.take(5);
    let s6 = s.take(6);
    let s7 = s.take(7);
    assert(s3.drop_last() =~= s.take(2));
    assert(be_value(s3) == 0x1_0000 * s[0] + 0x100 * s[1] + s[2]);
    assert(s4.drop_last() =~= s3);
    assert(be_value(s4) == be_value(s3) * 256 + s[3]);
    assert(s5.drop_last() =~= s4);
    assert(be_value(s5) == be_value(s4) * 256 + s[4]);
    assert(s6.drop_last() =~= s5);
    assert(be_value(s6) == be_value(s5) * 256 + s[5]);
    assert(s7.drop_last() =~= s6);
    assert(be_value(s7) == be_value(s6) * 256 + s[6]);
    assert(s.drop_last() =~= s7);
    assert(be_value(s) == be_value(s7) * 256 + s[7]);
}

/// Two bytes write a number with the most significant byte first.
pub proof fn law_be_value_of_two(s: Seq<u8>)
    requires
        s.len() == 2,
    ensures
        be_value(s) == 0x100 * s[0] + s[1],
{
    reveal_with_fuel(be_value, 3);
}

/// Reads the eight bytes of `s` from `at` on as a number.
pub fn read_be_u64(s: &[u8], at: usize) -> (r: u64)
    requires
        at + 8 <= s@.len(),
    ensures
        r == be_value(s@.subrange(at as int, at + 8)),
{
    let mut r: u64 = 0;
    let mut i: usize = 0;
    let ghost word = s@.subrange(at as int, at + 8);
    while i < 8
        invariant
            i <= 8,
            at + 8 <= s@.len(),
            word == s@.subrange(at as int, at + 8),
            r == be_value(word.take(i as int)),
        decreases 8 - i,
    {
        proof {
            reveal_with_fuel(be_count, 9);
            lemma_be_value_bound(word.take(i + 1));
            assert(word.take(i + 1).drop_last() =~= word.take(i as int));
            assert(be_count((i + 1) as nat) <= be_count(8)) by {
                assert(i == 0 || i == 1 || i == 2 || i == 3 || i == 4 || i == 5 || i == 6 || i
                    == 7);
            }
        }
        assert(at + i < s.len());
        r = r * 256 + s[at + i] as u64;
        i += 1;
    }
    proof {
        assert(word.take(8) =~= word);
    }
    r
}

/// The eight bytes of `n`.
pub fn be_u64_bytes(n: u64) -> (r: Vec<u8>)
    ensures
        r@ == be_bytes(n as nat, 8),
{
    be_vec(n, 8)
}

fn be_vec(n: u64, len: usize) -> (r: Vec<u8>)
    ensures
        r@ == be_bytes(n as nat, len as nat),
    decreases len,
{
    if len == 0 {
        Vec::new()
    } else {
        let mut r = be_vec(n / 256, len - 1);
        r.push((n % 256) as u8);
        r
    }
}

} // verus!
