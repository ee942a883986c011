use vstd::prelude::*;

verus! {

/// Bits of the discriminant that hold the numerator's width-class.
pub const NUM_MASK: u8 = 0b0000_1111;
/// Bits of the discriminant that hold the denominator's width-class.
pub const DEN_MASK: u8 = 0b0111_0000;
/// Bit of the discriminant that marks a negative numerator.
pub const SIGN: u8 = 0b1000_0000;

/// Why a value could not be encoded or decoded.
#[derive(Debug, Clone, Copy, PartialEq, Eq, Structural)]
pub enum CodecError {
    /// The discriminant names a width-class that this format does not define
    /// (a numerator class of 0 or above 4, a denominator class above 4).
    FormatError,
    /// Fewer bytes remain than the discriminant announces.
    BufferUnderrun,
    /// The destination buffer is too small for the encoded value.
    BufferOverflow,
    /// The decoded numerator or denominator does not fit in an `i64`.
    OutOfRange,
}

/// How many bytes hold a magnitude; its code is what the discriminant
/// stores. Codes above 4 are reserved for representations that this format
/// does not define.
#[derive(Debug, Clone, Copy, PartialEq, Eq, Structural)]
pub enum WidthClass {
    /// No bytes: only for a denominator, which is then one.
    Absent,
    OneByte,
    TwoBytes,
    FourBytes,
    EightBytes,
}

impl WidthClass {
    pub open spec fn spec_code(self) -> nat {
        match self {
            WidthClass::Absent => 0,
            WidthClass::OneByte => 1,
            WidthClass::TwoBytes => 2,
            WidthClass::FourBytes => 3,
            WidthClass::EightBytes => 4,
        }
    }

    /// The class's code in the discriminant.
    pub fn code(self) -> (r: u8)
        ensures
            r as nat == self.spec_code(),
    {
        match self {
            WidthClass::Absent => 0,
            WidthClass::OneByte => 1,
            WidthClass::TwoBytes => 2,
            WidthClass::FourBytes => 3,
            WidthClass::EightBytes => 4,
        }
    }

    /// The class with code `c`, or `None` for a reserved code.
    pub fn from_code(c: u8) -> (r: Option<WidthClass>)
        ensures
            match r {
                Some(w) => w.spec_code() == c as nat,
                None => c > 4,
            },
    {
        match c {
            0 => Some(WidthClass::Absent),
            1 => Some(WidthClass::OneByte),
            2 => Some(WidthClass::TwoBytes),
            3 => Some(WidthClass::FourBytes),
            4 => Some(WidthClass::EightBytes),
            _ => None,
        }
    }

    /// The number of bytes that hold a magnitude of this class.
    pub fn byte_width(self) -> (r: usize)
        ensures
            r as nat == class_width(self.spec_code()),
    {
        match self {
            WidthClass::Absent => 0,
            WidthClass::OneByte => 1,
            WidthClass::TwoBytes => 2,
            WidthClass::FourBytes => 4,
            WidthClass::EightBytes => 8,
        }
    }

    /// The class in which a magnitude is written: the smallest whose largest
    /// value lies strictly above it, so that 255 takes two bytes.
    pub fn for_magnitude(m: u64) -> (r: WidthClass)
        ensures
            r.spec_code() == class_of(m as nat),
    {
        if m < u8::MAX as u64 {
            WidthClass::OneByte
        } else if m < u16::MAX as u64 {
            WidthClass::TwoBytes
        } else if m < u32::MAX as u64 {
            WidthClass::FourBytes
        } else {
            WidthClass::EightBytes
        }
    }
}

/// `256` to the power `w`.
pub open spec fn pow256(w: nat) -> nat
    decreases w,
{
    if w == 0 {
        1
    } else {
        256 * pow256((w - 1) as nat)
    }
}

/// The `w` low bytes of `n`, least significant first.
pub open spec fn le_bytes(n: nat, w: nat) -> Seq<u8>
    decreases w,
{
    if w == 0 {
        Seq::empty()
    } else {
        seq![(n % 256) as u8] + le_bytes(n / 256, (w - 1) as nat)
    }
}

/// The number that the bytes `s` spell, least significant first.
pub open spec fn le_value(s: Seq<u8>) -> nat
    decreases s.len(),
{
    if s.len() == 0 {
        0
    } else {
        s[0] as nat + 256 * le_value(s.drop_first())
    }
}

/// The byte width that a width-class code stands for (0 for none).
pub open spec fn class_width(c: nat) -> nat {
    if c == 1 {
        1
    } else if c == 2 {
        2
    } else if c == 3 {
        4
    } else if c == 4 {
        8
    } else {
        0
    }
}

/// The largest value of a width-class's byte width; the class holds only
/// magnitudes strictly below it.
pub open spec fn class_max(c: nat) -> nat {
    (pow256(class_width(c)) - 1) as nat
}

/// The width-class chosen for a magnitude: the smallest one whose largest
/// value lies strictly above it, and the eight-byte class otherwise.
pub open spec fn class_of(m: nat) -> nat {
    if m < 255 {
        1
    } else if m < 65535 {
        2
    } else if m < 4294967295 {
        3
    } else {
        4
    }
}

/// The bytes that follow the discriminant for a magnitude.
pub open spec fn magnitude_bytes(m: nat) -> Seq<u8> {
    le_bytes(m, class_width(class_of(m)))
}

pub open spec fn abs(x: int) -> nat {
    if x < 0 {
        (-x) as nat
    } else {
        x as nat
    }
}

/// The discriminant for numerator and denominator magnitudes and a sign.
pub open spec fn discriminant(nm: nat, dm: nat, negative: bool) -> nat {
    (if negative { 128nat } else { 0nat }) + 16 * (if dm == 1 { 0 } else { class_of(dm) })
        + class_of(nm)
}

/// The encoding of magnitudes `nm` / `dm` with the sign flag `negative`:
/// a denominator of one is left out.
pub open spec fn frame(nm: nat, dm: nat, negative: bool) -> Seq<u8> {
    seq![discriminant(nm, dm, negative) as u8] + magnitude_bytes(nm) + (if dm == 1 {
        Seq::empty()
    } else {
        magnitude_bytes(dm)
    })
}

/// The encoding of the rational `n / d`: the sign flag is set when exactly
/// one of `n` and `d` is negative.
pub open spec fn encoding(n: int, d: int) -> Seq<u8> {
    frame(abs(n), abs(d), (n < 0) != (d < 0))
}

pub open spec fn num_class(disc: u8) -> nat {
    (disc % 16) as nat
}

pub open spec fn den_class(disc: u8) -> nat {
    ((disc / 16) % 8) as nat
}

pub open spec fn sign_flag(disc: u8) -> bool {
    disc >= 128
}

/// Whether the discriminant names width-classes that this format defines.
pub open spec fn classes_supported(disc: u8) -> bool {
    1 <= num_class(disc) <= 4 && den_class(disc) <= 4
}

/// The number of bytes after the discriminant.
pub open spec fn body_len(disc: u8) -> nat {
    class_width(num_class(disc)) + class_width(den_class(disc))
}

/// What follows the value that `b` starts with, or why there is none.
pub open spec fn skip_spec(b: Seq<u8>) -> Result<Seq<u8>, CodecError> {
    if b.len() == 0 {
        Err(CodecError::BufferUnderrun)
    } else if !classes_supported(b[0]) {
        Err(CodecError::FormatError)
    } else if b.len() < 1 + body_len(b[0]) {
        Err(CodecError::BufferUnderrun)
    } else {
        Ok(b.skip(1 + body_len(b[0]) as int))
    }
}

/// The numerator magnitude of a value whose body is present.
pub open spec fn num_magnitude(b: Seq<u8>) -> nat {
    le_value(b.subrange(1, 1 + class_width(num_class(b[0])) as int))
}

/// The denominator of a value whose body is present (one when left out).
pub open spec fn den_magnitude(b: Seq<u8>) -> nat {
    let nw = class_width(num_class(b[0]));
    let dw = class_width(den_class(b[0]));
    if dw == 0 {
        1
    } else {
        le_value(b.subrange(1 + nw as int, 1 + nw + dw as int))
    }
}

/// The numerator, denominator and rest of the bytes of the value that `b`
/// starts with, or why it cannot be read as a pair of `i64`.
pub open spec fn decode(b: Seq<u8>) -> Result<(int, int, Seq<u8>), CodecError> {
    match skip_spec(b) {
        Err(e) => Err(e),
        Ok(rest) => {
            let nm = num_magnitude(b);
            let num: int = if sign_flag(b[0]) { -nm } else { nm as int };
            let den = den_magnitude(b);
            if num < i64::MIN || num > i64::MAX || den > i64::MAX {
                Err(CodecError::OutOfRange)
            } else {
                Ok((num, den as int, rest))
            }
        },
    }
}

/// Whether `b` starts with a value that decodes to zero over a non-zero
/// denominator.
pub open spec fn denotes_zero(b: Seq<u8>) -> bool {
    match decode(b) {
        Ok((n, d, _)) => n == 0 && d != 0,
        Err(_) => false,
    }
}

/// Whether `b` starts with a value that decodes to a numerator equal to its
/// non-zero denominator.
pub open spec fn denotes_one(b: Seq<u8>) -> bool {
    match decode(b) {
        Ok((n, d, _)) => n == d && d != 0,
        Err(_) => false,
    }
}

pub proof fn lemma_pow256_values()
    ensures
        pow256(0) == 1,
        pow256(1) == 256,
        pow256(2) == 65536,
        pow256(4) == 4294967296,
        pow256(8) == 18446744073709551616,
{
    reveal_with_fuel(pow256, 9);
}

/// Reading back `w` bytes written from `n` gives `n` when it fits.
pub proof fn lemma_le_round_trip(n: nat, w: nat)
    requires
        n < pow256(w),
    ensures
        le_bytes(n, w).len() == w,
        le_value(le_bytes(n, w)) == n,
    decreases w,
{
    if w > 0 {
        let s = le_bytes(n, w);
        let w1 = (w - 1) as nat;
        assert(n / 256 < pow256(w1)) by (nonlinear_arith)
            requires
                n < 256 * pow256(w1),
        ;
        lemma_le_round_trip(n / 256, w1);
        assert(s.drop_first() =~= le_bytes(n / 256, w1));
        assert(n == n % 256 + 256 * (n / 256)) by (nonlinear_arith);
    } else {
        assert(n == 0);
    }
}

/// A magnitude that fits in 64 bits fits in the width of its class.
pub proof fn lemma_class_fits(m: nat)
    requires
        m < pow256(8),
    ensures
        1 <= class_of(m) <= 4,
        m < pow256(class_width(class_of(m))),
        magnitude_bytes(m).len() == class_width(class_of(m)),
        le_value(magnitude_bytes(m)) == m,
{
    lemma_pow256_values();
    lemma_le_round_trip(m, class_width(class_of(m)));
}

/// Where the parts of an encoding stand: the discriminant announces the
/// classes of both magnitudes, and the body is read back as written.
pub proof fn lemma_frame_layout(nm: nat, dm: nat, negative: bool, tail: Seq<u8>)
    requires
        nm < pow256(8),
        dm < pow256(8),
    ensures
        ({
            let b = frame(nm, dm, negative) + tail;
            &&& b.len() > 0
            &&& num_class(b[0]) == class_of(nm)
            &&& den_class(b[0]) == (if dm == 1 { 0 } else { class_of(dm) })
            &&& sign_flag(b[0]) == negative
            &&& skip_spec(b) == Ok::<Seq<u8>, CodecError>(tail)
            &&& num_magnitude(b) == nm
            &&& den_magnitude(b) == dm
        }),
{
    lemma_class_fits(nm);
    lemma_class_fits(dm);
    let b = frame(nm, dm, negative) + tail;
    let disc = discriminant(nm, dm, negative);
    let nc = class_of(nm);
    let dc: nat = if dm == 1 { 0 } else { class_of(dm) };
    let nw = class_width(nc);
    let dw = class_width(dc);
    let nb = magnitude_bytes(nm);
    let db: Seq<u8> = if dm == 1 { Seq::empty() } else { magnitude_bytes(dm) };
    assert(disc < 256);
    assert(b[0] == disc as u8);
    assert(num_class(b[0]) == nc);
    assert(den_class(b[0]) == dc);
    assert(sign_flag(b[0]) == negative);
    assert(db.len() == dw);
    assert(b.len() == 1 + nw + dw + tail.len());
    assert(b.skip(1 + nw + dw as int) =~= tail);
    assert(b.subrange(1, 1 + nw as int) =~= nb);
    if dm != 1 {
        assert(b.subrange(1 + nw as int, 1 + nw + dw as int) =~= db);
    }
}

} // verus!
