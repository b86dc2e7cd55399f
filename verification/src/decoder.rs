//! Stateless readers of fixed-width little-endian integers and of
//! NUL-delimited bytes, each at a cursor that it advances.

use vstd::prelude::*;
use vstd::slice::slice_subrange;
use crate::error::Error;

verus! {

/// The unsigned value of the four bytes of `bytes` that start at `pos`,
/// least significant byte first.
pub open spec fn le_u32(bytes: Seq<u8>, pos: int) -> int {
    bytes[pos] as int + 0x100 * (bytes[pos + 1] as int) + 0x1_0000 * (bytes[pos + 2] as int)
        + 0x100_0000 * (bytes[pos + 3] as int)
}

/// The unsigned value of the eight bytes of `bytes` that start at `pos`,
/// least significant byte first.
pub open spec fn le_u64(bytes: Seq<u8>, pos: int) -> int {
    le_u32(bytes, pos) + 0x1_0000_0000 * le_u32(bytes, pos + 4)
}

/// The unsigned value of the sixteen bytes of `bytes` that start at `pos`,
/// least significant byte first.
pub open spec fn le_u128(bytes: Seq<u8>, pos: int) -> int {
    le_u64(bytes, pos) + 0x1_0000_0000_0000_0000 * le_u64(bytes, pos + 8)
}

/// The two's complement reading of a 32-bit pattern.
pub open spec fn signed32(v: int) -> int {
    if v < 0x8000_0000 {
        v
    } else {
        v - 0x1_0000_0000
    }
}

/// The two's complement reading of a 64-bit pattern.
pub open spec fn signed64(v: int) -> int {
    if v < 0x8000_0000_0000_0000 {
        v
    } else {
        v - 0x1_0000_0000_0000_0000
    }
}

/// Whether `width` bytes can be read from a buffer of `len` bytes at `pos`.
pub open spec fn in_bounds(len: nat, pos: int, width: int) -> bool {
    0 <= pos && pos + width <= len
}

/// Reads a `u32` at the cursor and moves the cursor past it. A buffer that
/// ends before the fourth byte gives `BufferTooShort` and leaves the cursor
/// where it was.
pub fn get_u32(buf: &[u8], index: &mut usize) -> (r: Result<u32, Error>)
    ensures
        match r {
            Ok(v) => in_bounds(buf@.len(), *old(index) as int, 4) && v == le_u32(buf@, *old(index) as int)
                && *final(index) == *old(index) + 4,
            Err(e) => !in_bounds(buf@.len(), *old(index) as int, 4) && e
                == Error::BufferTooShort && *final(index) == *old(index),
        },
{
    let i: usize = *index;
    if i > buf.len() || buf.len() - i < 4 {
        return Err(Error::BufferTooShort);
    }
    let b0: u32 = buf[i] as u32;
    let b1: u32 = buf[i + 1] as u32;
    let b2: u32 = buf[i + 2] as u32;
    let b3: u32 = buf[i + 3] as u32;
    *index = i + 4;
    Ok(b0 + 0x100 * b1 + 0x1_0000 * b2 + 0x100_0000 * b3)
}

/// Reads a `u64` at the cursor and moves the cursor past it. A buffer that
/// ends before the eighth byte gives `BufferTooShort` and leaves the cursor
/// where it was.
pub fn get_u64(buf: &[u8], index: &mut usize) -> (r: Result<u64, Error>)
    ensures
        match r {
            Ok(v) => in_bounds(buf@.len(), *old(index) as int, 8) && v == le_u64(buf@, *old(index) as int)
                && *final(index) == *old(index) + 8,
            Err(e) => !in_bounds(buf@.len(), *old(index) as int, 8) && e
                == Error::BufferTooShort && *final(index) == *old(index),
        },
{
    let i: usize = *index;
    if i > buf.len() || buf.len() - i < 8 {
        return Err(Error::BufferTooShort);
    }
    let mut cursor: usize = i;
    let lo: u32 = match get_u32(buf, &mut cursor) {
        Ok(v) => v,
        Err(e) => { return Err(e); },
    };
    let hi: u32 = match get_u32(buf, &mut cursor) {
        Ok(v) => v,
        Err(e) => { return Err(e); },
    };
    *index = cursor;
    Ok((lo as u64) + 0x1_0000_0000 * (hi as u64))
}

/// Reads a `u128` at the cursor and moves the cursor past it. A buffer that
/// ends before the sixteenth byte gives `BufferTooShort` and leaves the
/// cursor where it was.
pub fn get_u128(buf: &[u8], index: &mut usize) -> (r: Result<u128, Error>)
    ensures
        match r {
            Ok(v) => in_bounds(buf@.len(), *old(index) as int, 16) && v == le_u128(buf@, *old(index) as int)
                && *final(index) == *old(index) + 16,
            Err(e) => !in_bounds(buf@.len(), *old(index) as int, 16) && e
                == Error::BufferTooShort && *final(index) == *old(index),
        },
{
    let i: usize = *index;
    if i > buf.len() || buf.len() - i < 16 {
        return Err(Error::BufferTooShort);
    }
    let mut cursor: usize = i;
    let lo: u64 = match get_u64(buf, &mut cursor) {
        Ok(v) => v,
        Err(e) => { return Err(e); },
    };
    let hi: u64 = match get_u64(buf, &mut cursor) {
        Ok(v) => v,
        Err(e) => { return Err(e); },
    };
    *index = cursor;
    Ok((lo as u128) + 0x1_0000_0000_0000_0000 * (hi as u128))
}

/// Reads an `i32` in two's complement at the cursor and moves the cursor past
/// it; fails as `get_u32` does.
pub fn get_i32(buf: &[u8], index: &mut usize) -> (r: Result<i32, Error>)
    ensures
        match r {
            Ok(v) => in_bounds(buf@.len(), *old(index) as int, 4) && v == signed32(le_u32(buf@, *old(index) as int))
                && *final(index) == *old(index) + 4,
            Err(e) => !in_bounds(buf@.len(), *old(index) as int, 4) && e
                == Error::BufferTooShort && *final(index) == *old(index),
        },
{
    match get_u32(buf, index) {
        Ok(v) => {
            if v < 0x8000_0000 {
                Ok(v as i32)
            } else {
                Ok(((v - 0x8000_0000) as i32) + i32::MIN)
            }
        },
        Err(e) => Err(e),
    }
}

/// Reads an `i64` in two's complement at the cursor and moves the cursor past
/// it; fails as `get_u64` does.
pub fn get_i64(buf: &[u8], index: &mut usize) -> (r: Result<i64, Error>)
    ensures
        match r {
            Ok(v) => in_bounds(buf@.len(), *old(index) as int, 8) && v == signed64(le_u64(buf@, *old(index) as int))
                && *final(index) == *old(index) + 8,
            Err(e) => !in_bounds(buf@.len(), *old(index) as int, 8) && e
                == Error::BufferTooShort && *final(index) == *old(index),
        },
{
    match get_u64(buf, index) {
        Ok(v) => {
            if v < 0x8000_0000_0000_0000 {
                Ok(v as i64)
            } else {
                Ok(((v - 0x8000_0000_0000_0000) as i64) + i64::MIN)
            }
        },
        Err(e) => Err(e),
    }
}

/// The place of the first zero byte of `bytes` at or after `from`, or the
/// length of `bytes` where there is none.
pub open spec fn text_end(bytes: Seq<u8>, from: int) -> int
    decreases bytes.len() - from,
{
    if from < 0 || from >= bytes.len() {
        bytes.len() as int
    } else if bytes[from] == 0 {
        from
    } else {
        text_end(bytes, from + 1)
    }
}

/// Reads the bytes from the cursor up to the next zero byte and moves the
/// cursor past that byte. A buffer that ends before a zero byte gives
/// `BufferTooShort` and leaves the cursor where it was.
pub fn get_delimited<'a>(buf: &'a [u8], index: &mut usize) -> (r: Result<&'a [u8], Error>)
    ensures
        match r {
            Ok(bytes) => text_end(buf@, *old(index) as int) < buf@.len() && bytes@
                == buf@.subrange(*old(index) as int, text_end(buf@, *old(index) as int))
                && *final(index) == text_end(buf@, *old(index) as int) + 1,
            Err(e) => text_end(buf@, *old(index) as int) >= buf@.len() && e
                == Error::BufferTooShort && *final(index) == *old(index),
        },
{
    let start: usize = *index;
    if start >= buf.len() {
        return Err(Error::BufferTooShort);
    }
    let mut end: usize = start;
    while end < buf.len() && buf[end] != 0
        invariant
            start <= end <= buf@.len(),
            text_end(buf@, start as int) == text_end(buf@, end as int),
        decreases buf@.len() - end,
    {
        end += 1;
    }
    if end >= buf.len() {
        return Err(Error::BufferTooShort);
    }
    *index = end + 1;
    Ok(slice_subrange(buf, start, end))
}

} // verus!
