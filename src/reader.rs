use crate::format::{
    class_width, decode, den_class, denotes_one, denotes_zero, num_class, sign_flag, skip_spec,
    CodecError, WidthClass, DEN_MASK, NUM_MASK, SIGN,
};
use crate::le::read_le;
use vstd::prelude::*;
use vstd::slice::slice_subrange;

verus! {

/// Reads values of the rational encoding from the start of a byte buffer.
///
/// `skip_rational` advances by the true byte widths of both width-classes
/// (1, 2, 4 or 8 bytes each), so that it lands where `get_frac_i64` does.
pub trait RationalNumberReader: View<V = Seq<u8>> {
    /// Decodes the value at the start: its numerator (carrying the sign),
    /// its denominator, and the bytes after it.
    fn get_frac_i64(&self) -> (r: Result<(i64, i64, &[u8]), CodecError>)
        ensures
            match r {
                Ok((n, d, rest)) => decode(self@) == Ok::<(int, int, Seq<u8>), CodecError>(
                    (n as int, d as int, rest@),
                ),
                Err(e) => decode(self@) == Err::<(int, int, Seq<u8>), CodecError>(e),
            },
    ;

    /// The bytes after the value at the start, found without decoding it.
    fn skip_rational(&self) -> (r: Result<&[u8], CodecError>)
        ensures
            match r {
                Ok(rest) => skip_spec(self@) == Ok::<Seq<u8>, CodecError>(rest@),
                Err(e) => skip_spec(self@) == Err::<Seq<u8>, CodecError>(e),
            },
    ;

    /// Whether the value at the start decodes to zero over a non-zero
    /// denominator; false where it does not decode.
    fn is_zero_rat(&self) -> (r: bool)
        ensures
            r == denotes_zero(self@),
    ;

    /// Whether the value at the start decodes to a numerator equal to its
    /// non-zero denominator; false where it does not decode.
    fn is_one_rat(&self) -> (r: bool)
        ensures
            r == denotes_one(self@),
    ;
}

/// The byte widths of numerator and denominator of the value at the start of
/// `b`, once its discriminant is known to be supported and its body present.
fn layout(b: &[u8]) -> (r: Result<(usize, usize), CodecError>)
    ensures
        match r {
            Ok((nw, dw)) => {
                &&& skip_spec(b@) is Ok
                &&& b@.len() >= 1 + nw + dw
                &&& nw as nat == class_width(num_class(b@[0]))
                &&& dw as nat == class_width(den_class(b@[0]))
                &&& 1 <= nw <= 8
                &&& dw <= 8
            },
            Err(e) => skip_spec(b@) == Err::<Seq<u8>, CodecError>(e),
        },
{
    if b.len() == 0 {
        return Err(CodecError::BufferUnderrun);
    }
    let disc = b[0];
    let nc = disc & NUM_MASK;
    let dc = (disc & DEN_MASK) >> 4u8;
    assert(nc == disc % 16) by (bit_vector)
        requires
            nc == disc & 0b0000_1111u8,
    ;
    assert(dc == (disc / 16) % 8) by (bit_vector)
        requires
            dc == (disc & 0b0111_0000u8) >> 4u8,
    ;
    let numerator_class = match WidthClass::from_code(nc) {
        None | Some(WidthClass::Absent) => return Err(CodecError::FormatError),
        Some(w) => w,
    };
    let denominator_class = match WidthClass::from_code(dc) {
        None => return Err(CodecError::FormatError),
        Some(w) => w,
    };
    let nw = numerator_class.byte_width();
    let dw = denominator_class.byte_width();
    if b.len() < 1 + nw + dw {
        return Err(CodecError::BufferUnderrun);
    }
    Ok((nw, dw))
}

impl RationalNumberReader for [u8] {
    fn get_frac_i64(&self) -> (r: Result<(i64, i64, &[u8]), CodecError>) {
        let (nw, dw) = match layout(self) {
            Ok(widths) => widths,
            Err(e) => return Err(e),
        };
        let disc = self[0];
        let num_bytes = slice_subrange(self, 1, 1 + nw);
        assert(num_bytes@.subrange(0, nw as int) =~= self@.subrange(1, 1 + nw as int));
        let nm = read_le(num_bytes, nw);
        let dm: u64 = if dw == 0 {
            1
        } else {
            let den_bytes = slice_subrange(self, 1 + nw, 1 + nw + dw);
            assert(den_bytes@.subrange(0, dw as int) =~= self@.subrange(
                1 + nw as int,
                1 + nw + dw as int,
            ));
            read_le(den_bytes, dw)
        };
        let negative = disc & SIGN != 0;
        assert(negative == (disc >= 128)) by (bit_vector)
            requires
                negative == (disc & 0b1000_0000u8 != 0),
        ;
        assert(negative == sign_flag(self@[0]));
        let rest = slice_subrange(self, 1 + nw + dw, self.len());
        if dm > i64::MAX as u64 {
            return Err(CodecError::OutOfRange);
        }
        let num: i64 = if negative {
            if nm > 9223372036854775808 {
                return Err(CodecError::OutOfRange);
            } else if nm == 9223372036854775808 {
                i64::MIN
            } else {
                -(nm as i64)
            }
        } else {
            if nm > i64::MAX as u64 {
                return Err(CodecError::OutOfRange);
            }
            nm as i64
        };
        Ok((num, dm as i64, rest))
    }

    fn skip_rational(&self) -> (r: Result<&[u8], CodecError>) {
        match layout(self) {
            Ok((nw, dw)) => Ok(slice_subrange(self, 1 + nw + dw, self.len())),
            Err(e) => Err(e),
        }
    }

    fn is_zero_rat(&self) -> (r: bool) {
        match self.get_frac_i64() {
            Ok((n, d, _)) => n == 0 && d != 0,
            Err(_) => false,
        }
    }

    fn is_one_rat(&self) -> (r: bool) {
        match self.get_frac_i64() {
            Ok((n, d, _)) => n == d && d != 0,
            Err(_) => false,
        }
    }
}

} // verus!
