//! Bounds-checked reads off the front of a byte cursor.
//!
//! A read that succeeds takes exactly the bytes it returns and leaves the
//! cursor on the byte after them. Nothing is promised of the cursor after a
//! read that fails.

use vstd::prelude::*;
use crate::error::ErrorKind;

verus! {

/// Taking `len` bytes: the bytes and what is left, or `Fatal` when fewer
/// than `len` are there.
pub open spec fn spec_read_bytes(s: Seq<u8>, len: nat) -> Result<(Seq<u8>, Seq<u8>), ErrorKind> {
    if s.len() < len {
        Err(ErrorKind::Fatal)
    } else {
        Ok((s.take(len as int), s.skip(len as int)))
    }
}

/// Taking one byte.
pub open spec fn spec_read_u8(s: Seq<u8>) -> Result<(u8, Seq<u8>), ErrorKind> {
    if s.len() < 1 {
        Err(ErrorKind::Fatal)
    } else {
        Ok((s[0], s.skip(1)))
    }
}

/// Taking one byte that must be below 128.
pub open spec fn spec_read_u7(s: Seq<u8>) -> Result<(u8, Seq<u8>), ErrorKind> {
    if s.len() < 1 {
        Err(ErrorKind::Fatal)
    } else if s[0] > 0x7f {
        Err(ErrorKind::Invalid)
    } else {
        Ok((s[0], s.skip(1)))
    }
}

/// The number that two bytes spell, most significant first.
pub open spec fn be16(b0: u8, b1: u8) -> u16 {
    (b0 as nat * 0x100 + b1 as nat) as u16
}

/// The number that three bytes spell, most significant first.
pub open spec fn be24(b0: u8, b1: u8, b2: u8) -> u32 {
    (b0 as nat * 0x1_0000 + b1 as nat * 0x100 + b2 as nat) as u32
}

/// The number that four bytes spell, most significant first.
pub open spec fn be32(b0: u8, b1: u8, b2: u8, b3: u8) -> u32 {
    (b0 as nat * 0x100_0000 + b1 as nat * 0x1_0000 + b2 as nat * 0x100 + b3 as nat) as u32
}

/// Taking a big-endian 16-bit number.
pub open spec fn spec_read_u16(s: Seq<u8>) -> Result<(u16, Seq<u8>), ErrorKind> {
    if s.len() < 2 {
        Err(ErrorKind::Fatal)
    } else {
        Ok((be16(s[0], s[1]), s.skip(2)))
    }
}

/// Taking a big-endian 24-bit number.
pub open spec fn spec_read_u24(s: Seq<u8>) -> Result<(u32, Seq<u8>), ErrorKind> {
    if s.len() < 3 {
        Err(ErrorKind::Fatal)
    } else {
        Ok((be24(s[0], s[1], s[2]), s.skip(3)))
    }
}

/// Taking a big-endian 32-bit number.
pub open spec fn spec_read_u32(s: Seq<u8>) -> Result<(u32, Seq<u8>), ErrorKind> {
    if s.len() < 4 {
        Err(ErrorKind::Fatal)
    } else {
        Ok((be32(s[0], s[1], s[2], s[3]), s.skip(4)))
    }
}

/// Taking the bytes `expected`: what is left after them, `Fatal` when the
/// buffer is shorter than `expected`, `Invalid` when it starts otherwise.
pub open spec fn spec_expect_bytes(s: Seq<u8>, expected: Seq<u8>) -> Result<Seq<u8>, ErrorKind> {
    if s.len() < expected.len() {
        Err(ErrorKind::Fatal)
    } else if s.take(expected.len() as int) != expected {
        Err(ErrorKind::Invalid)
    } else {
        Ok(s.skip(expected.len() as int))
    }
}

/// Taking one byte that must be `expected`.
pub open spec fn spec_expect_u8(s: Seq<u8>, expected: u8) -> Result<Seq<u8>, ErrorKind> {
    if s.len() < 1 {
        Err(ErrorKind::Fatal)
    } else if s[0] != expected {
        Err(ErrorKind::Invalid)
    } else {
        Ok(s.skip(1))
    }
}

/// Taking a big-endian 32-bit number that must be `expected`.
pub open spec fn spec_expect_u32(s: Seq<u8>, expected: u32) -> Result<Seq<u8>, ErrorKind> {
    if s.len() < 4 {
        Err(ErrorKind::Fatal)
    } else if be32(s[0], s[1], s[2], s[3]) != expected {
        Err(ErrorKind::Invalid)
    } else {
        Ok(s.skip(4))
    }
}

/// Takes the next `len` bytes off the cursor.
pub fn read_bytes<'a>(data: &mut &'a [u8], len: usize) -> (r: Result<&'a [u8], ErrorKind>)
    ensures
        match spec_read_bytes(old(data)@, len as nat) {
            Ok((bytes, rest)) => r matches Ok(b) && b@ == bytes && final(data)@ == rest,
            Err(kind) => r matches Err(k) && k == kind,
        },
{
    if data.len() < len {
        return Err(ErrorKind::Fatal);
    }
    let (result, rest) = data.split_at(len);
    *data = rest;
    Ok(result)
}

/// Takes one byte that must be below 128.
pub fn read_u7(data: &mut &[u8]) -> (r: Result<u8, ErrorKind>)
    ensures
        match spec_read_u7(old(data)@) {
            Ok((value, rest)) => r == Ok::<u8, ErrorKind>(value) && final(data)@ == rest,
            Err(kind) => r == Err::<u8, ErrorKind>(kind),
        },
{
    let byte = read_u8(data)?;
    if byte <= 0x7f {
        Ok(byte)
    } else {
        Err(ErrorKind::Invalid)
    }
}

/// Takes one byte.
pub fn read_u8(data: &mut &[u8]) -> (r: Result<u8, ErrorKind>)
    ensures
        match spec_read_u8(old(data)@) {
            Ok((value, rest)) => r == Ok::<u8, ErrorKind>(value) && final(data)@ == rest,
            Err(kind) => r == Err::<u8, ErrorKind>(kind),
        },
{
    let b = read_bytes(data, 1)?;
    Ok(b[0])
}

/// Takes a big-endian 16-bit number.
pub fn read_u16(data: &mut &[u8]) -> (r: Result<u16, ErrorKind>)
    ensures
        match spec_read_u16(old(data)@) {
            Ok((value, rest)) => r == Ok::<u16, ErrorKind>(value) && final(data)@ == rest,
            Err(kind) => r == Err::<u16, ErrorKind>(kind),
        },
{
    let b = read_bytes(data, 2)?;
    Ok(b[0] as u16 * 0x100 + b[1] as u16)
}

/// Takes a big-endian 24-bit number.
pub fn read_u24(data: &mut &[u8]) -> (r: Result<u32, ErrorKind>)
    ensures
        match spec_read_u24(old(data)@) {
            Ok((value, rest)) => r == Ok::<u32, ErrorKind>(value) && final(data)@ == rest,
            Err(kind) => r == Err::<u32, ErrorKind>(kind),
        },
{
    let b = read_bytes(data, 3)?;
    Ok(b[0] as u32 * 0x1_0000 + b[1] as u32 * 0x100 + b[2] as u32)
}

/// Takes a big-endian 32-bit number.
pub fn read_u32(data: &mut &[u8]) -> (r: Result<u32, ErrorKind>)
    ensures
        match spec_read_u32(old(data)@) {
            Ok((value, rest)) => r == Ok::<u32, ErrorKind>(value) && final(data)@ == rest,
            Err(kind) => r == Err::<u32, ErrorKind>(kind),
        },
{
    let b = read_bytes(data, 4)?;
    Ok(b[0] as u32 * 0x100_0000 + b[1] as u32 * 0x1_0000 + b[2] as u32 * 0x100 + b[3] as u32)
}

/// Whether two slices hold the same bytes.
fn same_bytes(a: &[u8], b: &[u8]) -> (same: bool)
    ensures
        same <==> a@ == b@,
{
    if a.len() != b.len() {
        return false;
    }
    let mut i: usize = 0;
    while i < a.len()
        invariant
            a@.len() == b@.len(),
            i <= a@.len(),
            forall|j: int| 0 <= j < i ==> a@[j] == b@[j],
        decreases a@.len() - i,
    {
        if a[i] != b[i] {
            return false;
        }
        i += 1;
    }
    assert(a@ =~= b@);
    true
}

/// Takes the bytes `expected` off the cursor.
pub fn expect_bytes(data: &mut &[u8], expected: &[u8]) -> (r: Result<(), ErrorKind>)
    ensures
        match spec_expect_bytes(old(data)@, expected@) {
            Ok(rest) => r is Ok && final(data)@ == rest,
            Err(kind) => r == Err::<(), ErrorKind>(kind),
        },
{
    let found = read_bytes(data, expected.len())?;
    if !same_bytes(found, expected) {
        return Err(ErrorKind::Invalid);
    }
    Ok(())
}

/// Takes one byte that must be `expected`.
pub fn expect_u8(data: &mut &[u8], expected: u8) -> (r: Result<(), ErrorKind>)
    ensures
        match spec_expect_u8(old(data)@, expected) {
            Ok(rest) => r is Ok && final(data)@ == rest,
            Err(kind) => r == Err::<(), ErrorKind>(kind),
        },
{
    if read_u8(data)? != expected {
        return Err(ErrorKind::Invalid);
    }
    Ok(())
}

/// Takes a big-endian 32-bit number that must be `expected`.
pub fn expect_u32(data: &mut &[u8], expected: u32) -> (r: Result<(), ErrorKind>)
    ensures
        match spec_expect_u32(old(data)@, expected) {
            Ok(rest) => r is Ok && final(data)@ == rest,
            Err(kind) => r == Err::<(), ErrorKind>(kind),
        },
{
    if read_u32(data)? != expected {
        return Err(ErrorKind::Invalid);
    }
    Ok(())
}

/// Taking bytes looks at no byte after those it takes: with `b` behind the
/// buffer, the same bytes are taken and `b` is behind what is left.
pub proof fn lemma_read_bytes_extends(a: Seq<u8>, b: Seq<u8>, len: nat)
    ensures
        spec_read_bytes(a, len) matches Ok((bytes, rest)) ==> spec_read_bytes(a + b, len) == Ok::<
            (Seq<u8>, Seq<u8>),
            ErrorKind,
        >((bytes, rest + b)),
{
    if a.len() >= len {
        assert((a + b).take(len as int) =~= a.take(len as int));
        assert((a + b).skip(len as int) =~= a.skip(len as int) + b);
    }
}

/// Taking a data byte looks at no byte after it.
pub proof fn lemma_read_u7_extends(a: Seq<u8>, b: Seq<u8>)
    ensures
        spec_read_u7(a) matches Ok((value, rest)) ==> spec_read_u7(a + b) == Ok::<
            (u8, Seq<u8>),
            ErrorKind,
        >((value, rest + b)),
{
    if a.len() >= 1 {
        assert((a + b).skip(1) =~= a.skip(1) + b);
    }
}

} // verus!
