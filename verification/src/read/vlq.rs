//! Variable-length quantities and the spans they measure.
//!
//! A quantity is a run of at most four bytes. Each byte carries seven bits of
//! the number, most significant first; every byte but the last has its high
//! bit set.

use vstd::prelude::*;
use crate::error::ErrorKind;
use crate::event::Text;
use crate::read::cursor::{lemma_read_bytes_extends, read_bytes, read_u8, spec_read_bytes};

verus! {

/// How many bytes at the front of `s` have their high bit set.
pub open spec fn vlq_continuations(s: Seq<u8>) -> nat
    decreases s.len(),
{
    if s.len() == 0 || s[0] < 0x80 {
        0
    } else {
        1 + vlq_continuations(s.skip(1))
    }
}

/// The number that the low seven bits of each byte of `digits` spell in
/// base 128, most significant first.
pub open spec fn vlq_value(digits: Seq<u8>) -> nat
    decreases digits.len(),
{
    if digits.len() == 0 {
        0
    } else {
        vlq_value(digits.drop_last()) * 0x80 + (digits.last() % 0x80) as nat
    }
}

/// Taking a variable-length quantity: `Invalid` when the first four bytes all
/// ask for another, `Fatal` when the buffer ends before the last byte of the
/// quantity, else the number and what is left after its last byte.
pub open spec fn spec_read_vlq(s: Seq<u8>) -> Result<(u32, Seq<u8>), ErrorKind> {
    let n = vlq_continuations(s);
    if n >= 4 {
        Err(ErrorKind::Invalid)
    } else if n >= s.len() {
        Err(ErrorKind::Fatal)
    } else {
        Ok((vlq_value(s.take((n + 1) as int)) as u32, s.skip((n + 1) as int)))
    }
}

/// Taking a span whose length comes first, as a variable-length quantity.
pub open spec fn spec_read_data(s: Seq<u8>) -> Result<(Seq<u8>, Seq<u8>), ErrorKind> {
    match spec_read_vlq(s) {
        Err(kind) => Err(kind),
        Ok((len, rest)) => spec_read_bytes(rest, len as nat),
    }
}

/// A run of `k` bytes with the high bit set at the front of `s` bounds the
/// count from below, and fixes it when the run ends at a byte without the bit
/// or at the end of `s`.
pub proof fn lemma_vlq_continuations(s: Seq<u8>, k: nat)
    requires
        k <= s.len(),
        forall|i: int| 0 <= i < k ==> s[i] >= 0x80,
    ensures
        vlq_continuations(s) >= k,
        k == s.len() ==> vlq_continuations(s) == k,
        k < s.len() && s[k as int] < 0x80 ==> vlq_continuations(s) == k,
    decreases k,
{
    if k > 0 {
        let tail = s.skip(1);
        assert forall|i: int| 0 <= i < k - 1 implies tail[i] >= 0x80 by {
            assert(tail[i] == s[i + 1]);
        }
        lemma_vlq_continuations(tail, (k - 1) as nat);
        if k < s.len() {
            assert(tail[k - 1] == s[k as int]);
        }
    }
}

/// Appending a byte to the digits multiplies by 128 and adds its low seven
/// bits.
pub proof fn lemma_vlq_value_step(s: Seq<u8>, n: nat)
    requires
        n < s.len(),
    ensures
        vlq_value(s.take((n + 1) as int)) == vlq_value(s.take(n as int)) * 0x80 + (s[n as int] % 0x80),
{
    assert(s.take((n + 1) as int).drop_last() =~= s.take(n as int));
}

/// Takes a variable-length quantity off the cursor.
pub fn read_vlq(data: &mut &[u8]) -> (r: Result<u32, ErrorKind>)
    ensures
        match spec_read_vlq(old(data)@) {
            Ok((value, rest)) => r == Ok::<u32, ErrorKind>(value) && final(data)@ == rest,
            Err(kind) => r == Err::<u32, ErrorKind>(kind),
        },
{
    let ghost s = data@;
    let ghost limit: nat = 1;
    let mut result: u32 = 0;
    let mut size: usize = 0;
    loop
        invariant
            s == old(data)@,
            size <= 4,
            size <= s.len(),
            data@ == s.skip(size as int),
            forall|i: int| 0 <= i < size ==> s[i] >= 0x80,
            size <= 3 ==> result == vlq_value(s.take(size as int)) * 0x80,
            size <= 3 ==> vlq_value(s.take(size as int)) < limit,
            limit == (if size == 0 {
                1nat
            } else if size == 1 {
                0x80
            } else if size == 2 {
                0x4000
            } else if size == 3 {
                0x20_0000
            } else {
                0x1000_0000
            }),
        decreases 4 - size,
    {
        proof {
            lemma_vlq_continuations(s, size as nat);
        }
        // a quantity must fit into 32 bits
        if size > 3 {
            return Err(ErrorKind::Invalid);
        }
        let byte = read_u8(data)?;
        let low: u32 = (byte & 0x7f) as u32;
        proof {
            lemma_vlq_value_step(s, size as nat);
            assert(data@ =~= s.skip(size + 1));
            assert(byte == s[size as int]);
            assert(byte & 0x7f == byte % 0x80) by (bit_vector);
            assert((byte & 0x80 != 0) <==> byte >= 0x80) by (bit_vector);
            assert(result % 0x80 == 0 && low < 0x80 ==> result | low == result + low)
                by (bit_vector);
        }
        size += 1;
        result |= low;
        if byte & 0x80 == 0 {
            proof {
                lemma_vlq_continuations(s, (size - 1) as nat);
            }
            return Ok(result);
        }
        proof {
            assert(result < 0x200_0000 ==> (result << 7) == result * 0x80) by (bit_vector);
            limit = limit * 0x80;
        }
        result <<= 7;
    }
}

/// Takes a length, then that many bytes.
pub fn read_data<'a>(data: &mut &'a [u8]) -> (r: Result<&'a [u8], ErrorKind>)
    ensures
        match spec_read_data(old(data)@) {
            Ok((bytes, rest)) => r matches Ok(b) && b@ == bytes && final(data)@ == rest,
            Err(kind) => r matches Err(k) && k == kind,
        },
{
    let length = read_vlq(data)?;
    read_bytes(data, length as usize)
}

/// Takes a length, then that many bytes as a text.
pub fn read_text<'a>(data: &mut &'a [u8]) -> (r: Result<Text<'a>, ErrorKind>)
    ensures
        match spec_read_data(old(data)@) {
            Ok((bytes, rest)) => r matches Ok(t) && t@ == bytes && final(data)@ == rest,
            Err(kind) => r matches Err(k) && k == kind,
        },
{
    let bytes = read_data(data)?;
    Ok(Text::new(bytes))
}

/// Bytes behind a run that ends inside `a` do not change its length.
pub proof fn lemma_vlq_continuations_extends(a: Seq<u8>, b: Seq<u8>)
    requires
        vlq_continuations(a) < a.len(),
    ensures
        vlq_continuations(a + b) == vlq_continuations(a),
    decreases a.len(),
{
    if a[0] >= 0x80 {
        assert((a + b).skip(1) =~= a.skip(1) + b);
        lemma_vlq_continuations_extends(a.skip(1), b);
    }
}

/// Taking a quantity looks at no byte after its last.
pub proof fn lemma_read_vlq_extends(a: Seq<u8>, b: Seq<u8>)
    ensures
        spec_read_vlq(a) matches Ok((value, rest)) ==> spec_read_vlq(a + b) == Ok::<
            (u32, Seq<u8>),
            ErrorKind,
        >((value, rest + b)),
{
    let n = vlq_continuations(a);
    if n < 4 && n < a.len() {
        lemma_vlq_continuations_extends(a, b);
        assert((a + b).take((n + 1) as int) =~= a.take((n + 1) as int));
        assert((a + b).skip((n + 1) as int) =~= a.skip((n + 1) as int) + b);
    }
}

/// Taking a measured span looks at no byte after its last.
pub proof fn lemma_read_data_extends(a: Seq<u8>, b: Seq<u8>)
    ensures
        spec_read_data(a) matches Ok((bytes, rest)) ==> spec_read_data(a + b) == Ok::<
            (Seq<u8>, Seq<u8>),
            ErrorKind,
        >((bytes, rest + b)),
{
    lemma_read_vlq_extends(a, b);
    if let Ok((len, rest)) = spec_read_vlq(a) {
        lemma_read_bytes_extends(rest, b, len as nat);
    }
}

} // verus!
