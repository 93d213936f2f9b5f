//! Byte-level serialization primitives: fixed-width unsigned integers in
//! big-endian order, written to and read from byte buffers. The entity
//! codecs are built from these and stated over the spec functions here.

use vstd::prelude::*;

verus! {

/// The one way the codec fails: the bytes or the value do not fit the
/// fixed layout.
#[derive(Debug, Clone, Copy, PartialEq, Eq, Structural)]
pub enum SerError {
    CorruptedData,
}

/// The two big-endian bytes of a 16-bit value.
pub open spec fn be16(n: u16) -> Seq<u8> {
    seq![(n >> 8) as u8, n as u8]
}

/// The 16-bit value of two big-endian bytes.
pub open spec fn be16_val(b: Seq<u8>) -> u16
    recommends
        b.len() == 2,
{
    ((b[0] as u16) << 8) | (b[1] as u16)
}

/// The eight big-endian bytes of a 64-bit value.
pub open spec fn be64(n: u64) -> Seq<u8> {
    seq![
        (n >> 56) as u8,
        (n >> 48) as u8,
        (n >> 40) as u8,
        (n >> 32) as u8,
        (n >> 24) as u8,
        (n >> 16) as u8,
        (n >> 8) as u8,
        n as u8,
    ]
}

/// The 64-bit value of eight big-endian bytes.
pub open spec fn be64_val(b: Seq<u8>) -> u64
    recommends
        b.len() == 8,
{
    ((b[0] as u64) << 56) | ((b[1] as u64) << 48) | ((b[2] as u64) << 40) | ((b[3] as u64) << 32)
        | ((b[4] as u64) << 24) | ((b[5] as u64) << 16) | ((b[6] as u64) << 8) | (b[7] as u64)
}

/// A 16-bit value survives the trip through its big-endian bytes.
pub proof fn lemma_be16_round_trip(n: u16)
    ensures
        be16_val(be16(n)) == n,
{
    assert((((n >> 8) as u8 as u16) << 8) | ((n as u8) as u16) == n) by (bit_vector);
}

/// A 64-bit value survives the trip through its big-endian bytes.
pub proof fn lemma_be64_round_trip(n: u64)
    ensures
        be64_val(be64(n)) == n,
{
    assert((((n >> 56) as u8 as u64) << 56) | (((n >> 48) as u8 as u64) << 48) | (((n
        >> 40) as u8 as u64) << 40) | (((n >> 32) as u8 as u64) << 32) | (((n
        >> 24) as u8 as u64) << 24) | (((n >> 16) as u8 as u64) << 16) | (((n >> 8) as u8 as u64)
        << 8) | ((n as u8) as u64) == n) by (bit_vector);
}

/// Append one byte.
pub fn write_u8(w: &mut Vec<u8>, v: u8)
    ensures
        final(w)@ == old(w)@.push(v),
{
    w.push(v);
}

/// Append a 16-bit value, big-endian.
pub fn write_u16(w: &mut Vec<u8>, v: u16)
    ensures
        final(w)@ == old(w)@ + be16(v),
{
    w.push((v >> 8) as u8);
    w.push(v as u8);
    proof {
        assert(w@ =~= old(w)@ + be16(v));
    }
}

/// Append a 64-bit value, big-endian.
pub fn write_u64(w: &mut Vec<u8>, v: u64)
    ensures
        final(w)@ == old(w)@ + be64(v),
{
    w.push((v >> 56) as u8);
    w.push((v >> 48) as u8);
    w.push((v >> 40) as u8);
    w.push((v >> 32) as u8);
    w.push((v >> 24) as u8);
    w.push((v >> 16) as u8);
    w.push((v >> 8) as u8);
    w.push(v as u8);
    proof {
        assert(w@ =~= old(w)@ + be64(v));
    }
}

/// Read one byte, advancing the position; fails on a short buffer.
pub fn read_u8(data: &Vec<u8>, pos: &mut usize) -> (r: Result<u8, SerError>)
    ensures
        *old(pos) + 1 <= data@.len() ==> r == Ok::<u8, SerError>(data@[*old(pos) as int])
            && *final(pos) == *old(pos) + 1,
        *old(pos) + 1 > data@.len() ==> r == Err::<u8, SerError>(SerError::CorruptedData)
            && *final(pos) == *old(pos),
{
    if *pos < data.len() {
        let v = data[*pos];
        *pos = *pos + 1;
        Ok(v)
    } else {
        Err(SerError::CorruptedData)
    }
}

/// Read a big-endian 16-bit value, advancing the position; fails on a
/// short buffer.
pub fn read_u16(data: &Vec<u8>, pos: &mut usize) -> (r: Result<u16, SerError>)
    ensures
        *old(pos) + 2 <= data@.len() ==> r == Ok::<u16, SerError>(
            be16_val(data@.subrange(*old(pos) as int, *old(pos) + 2)),
        ) && *final(pos) == *old(pos) + 2,
        *old(pos) + 2 > data@.len() ==> r == Err::<u16, SerError>(SerError::CorruptedData)
            && *final(pos) == *old(pos),
{
    if data.len() >= 2 && *pos <= data.len() - 2 {
        let b0 = data[*pos];
        let b1 = data[*pos + 1];
        let v = ((b0 as u16) << 8) | (b1 as u16);
        proof {
            let s = data@.subrange(*pos as int, *pos + 2);
            assert(s[0] == b0 && s[1] == b1);
        }
        *pos = *pos + 2;
        Ok(v)
    } else {
        Err(SerError::CorruptedData)
    }
}

/// Read a big-endian 64-bit value, advancing the position; fails on a
/// short buffer.
pub fn read_u64(data: &Vec<u8>, pos: &mut usize) -> (r: Result<u64, SerError>)
    ensures
        *old(pos) + 8 <= data@.len() ==> r == Ok::<u64, SerError>(
            be64_val(data@.subrange(*old(pos) as int, *old(pos) + 8)),
        ) && *final(pos) == *old(pos) + 8,
        *old(pos) + 8 > data@.len() ==> r == Err::<u64, SerError>(SerError::CorruptedData)
            && *final(pos) == *old(pos),
{
    if data.len() >= 8 && *pos <= data.len() - 8 {
        let b0 = data[*pos];
        let b1 = data[*pos + 1];
        let b2 = data[*pos + 2];
        let b3 = data[*pos + 3];
        let b4 = data[*pos + 4];
        let b5 = data[*pos + 5];
        let b6 = data[*pos + 6];
        let b7 = data[*pos + 7];
        let v = ((b0 as u64) << 56) | ((b1 as u64) << 48) | ((b2 as u64) << 40) | ((b3 as u64)
            << 32) | ((b4 as u64) << 24) | ((b5 as u64) << 16) | ((b6 as u64) << 8) | (b7 as u64);
        proof {
            let s = data@.subrange(*pos as int, *pos + 8);
            assert(s[0] == b0 && s[1] == b1 && s[2] == b2 && s[3] == b3 && s[4] == b4 && s[5] == b5
                && s[6] == b6 && s[7] == b7);
        }
        *pos = *pos + 8;
        Ok(v)
    } else {
        Err(SerError::CorruptedData)
    }
}

} // verus!
