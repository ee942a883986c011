use crate::format::{
    abs, encoding, frame, lemma_class_fits, lemma_pow256_values, magnitude_bytes, CodecError,
    WidthClass, SIGN,
};
use crate::le::append_le;
use vstd::prelude::*;

verus! {

/// Writes integers and fractions in the rational encoding.
///
/// A denominator of one is always left out, zero and one included: the
/// checks of `RationalNumberReader` decode the value rather than look for a
/// fixed layout. Every magnitude, a four-byte denominator too, is followed
/// by nothing but its own bytes, so that the reader finds each part where the
/// discriminant places it.
pub trait RationalNumberWriter: Sized {
    /// The integer that a value stands for.
    spec fn as_int(&self) -> int;

    /// Appends `self` as a numerator over an implicit denominator of one.
    fn write_num(&self, dest: &mut Vec<u8>)
        ensures
            final(dest)@ == old(dest)@ + encoding(self.as_int(), 1),
    ;

    /// Appends the fraction `self / den`.
    fn write_frac(&self, den: Self, dest: &mut Vec<u8>)
        ensures
            final(dest)@ == old(dest)@ + encoding(self.as_int(), den.as_int()),
    ;

    /// Writes the fraction `self / den` at the start of `dest` and returns the
    /// number of bytes written; fails, leaving `dest` as it was, when `dest`
    /// is too short.
    fn write_frac_fixed(&self, den: Self, dest: &mut [u8]) -> (r: Result<usize, CodecError>)
        ensures
            r is Ok <==> encoding(self.as_int(), den.as_int()).len() <= old(dest)@.len(),
            match r {
                Ok(k) => k == encoding(self.as_int(), den.as_int()).len() && final(dest)@
                    == encoding(self.as_int(), den.as_int()) + old(dest)@.skip(k as int),
                Err(e) => e == CodecError::BufferOverflow && final(dest)@ == old(dest)@,
            },
    ;
}

fn put_magnitude(m: u64, dest: &mut Vec<u8>)
    ensures
        final(dest)@ == old(dest)@ + magnitude_bytes(m as nat),
{
    proof {
        lemma_pow256_values();
        lemma_class_fits(m as nat);
    }
    append_le(dest, m, WidthClass::for_magnitude(m).byte_width());
}

/// Appends the encoding of the magnitudes `num` / `den` with the sign flag
/// `negative`.
pub fn write_parts(num: u64, den: u64, negative: bool, dest: &mut Vec<u8>)
    ensures
        final(dest)@ == old(dest)@ + frame(num as nat, den as nat, negative),
{
    let ghost start = dest@;
    let nc = WidthClass::for_magnitude(num).code();
    let dc: u8 = if den == 1 {
        WidthClass::Absent.code()
    } else {
        WidthClass::for_magnitude(den).code()
    };
    let sign: u8 = if negative {
        SIGN
    } else {
        0
    };
    let disc: u8 = sign + 16 * dc + nc;
    dest.push(disc);
    put_magnitude(num, dest);
    if den != 1 {
        put_magnitude(den, dest);
    }
    assert(dest@ =~= start + frame(num as nat, den as nat, negative));
}

/// Copies `src` to the start of `dest` when it fits.
fn copy_into(src: &Vec<u8>, dest: &mut [u8]) -> (r: Result<usize, CodecError>)
    ensures
        r is Ok <==> src@.len() <= old(dest)@.len(),
        match r {
            Ok(k) => k == src@.len() && final(dest)@ == src@ + old(dest)@.skip(k as int),
            Err(e) => e == CodecError::BufferOverflow && final(dest)@ == old(dest)@,
        },
{
    if src.len() > dest.len() {
        return Err(CodecError::BufferOverflow);
    }
    let ghost start = dest@;
    let mut i: usize = 0;
    while i < src.len()
        invariant
            src@.len() <= start.len(),
            dest@.len() == start.len(),
            i <= src@.len(),
            forall|j: int| 0 <= j < i ==> dest@[j] == src@[j],
            forall|j: int| i <= j < start.len() ==> dest@[j] == start[j],
        decreases src@.len() - i,
    {
        dest[i] = src[i];
        i += 1;
    }
    assert(dest@ =~= src@ + start.skip(src@.len() as int));
    Ok(src.len())
}

/// The magnitude of a signed integer.
fn magnitude(x: i64) -> (m: u64)
    ensures
        m as nat == abs(x as int),
{
    if x >= 0 {
        x as u64
    } else if x == i64::MIN {
        9223372036854775808
    } else {
        (-x) as u64
    }
}

impl RationalNumberWriter for i64 {
    open spec fn as_int(&self) -> int {
        *self as int
    }

    fn write_num(&self, dest: &mut Vec<u8>) {
        write_parts(magnitude(*self), 1, *self < 0, dest);
    }

    fn write_frac(&self, den: i64, dest: &mut Vec<u8>) {
        write_parts(magnitude(*self), magnitude(den), (*self < 0) != (den < 0), dest);
    }

    fn write_frac_fixed(&self, den: i64, dest: &mut [u8]) -> (r: Result<usize, CodecError>) {
        let mut buf: Vec<u8> = Vec::new();
        self.write_frac(den, &mut buf);
        assert(buf@ =~= encoding(self.as_int(), den.as_int()));
        copy_into(&buf, dest)
    }
}

impl RationalNumberWriter for u64 {
    open spec fn as_int(&self) -> int {
        *self as int
    }

    fn write_num(&self, dest: &mut Vec<u8>) {
        write_parts(*self, 1, false, dest);
    }

    fn write_frac(&self, den: u64, dest: &mut Vec<u8>) {
        write_parts(*self, den, false, dest);
    }

    fn write_frac_fixed(&self, den: u64, dest: &mut [u8]) -> (r: Result<usize, CodecError>) {
        let mut buf: Vec<u8> = Vec::new();
        self.write_frac(den, &mut buf);
        assert(buf@ =~= encoding(self.as_int(), den.as_int()));
        copy_into(&buf, dest)
    }
}

} // verus!
