//! Properties that relate the writer to the reader.
use crate::format::{
    abs, class_max, class_of, class_width, decode, den_class, denotes_one, denotes_zero,
    encoding, lemma_frame_layout, lemma_pow256_values, magnitude_bytes, num_class, skip_spec,
    CodecError,
};
use vstd::prelude::*;

verus! {

/// Whether `c` is the smallest width-class whose largest value exceeds `m`,
/// or the eight-byte class where none does.
pub open spec fn is_smallest_class(c: nat, m: nat) -> bool {
    &&& 1 <= c <= 4
    &&& (c == 4 || m < class_max(c))
    &&& forall|k: nat| 1 <= k < c ==> class_max(k) <= m
}

/// Decoding what was encoded from `n / d` gives back the numerator with the
/// sign of the fraction and the magnitude of the denominator, and the bytes
/// that followed; where that numerator or denominator does not fit in an
/// `i64` (a denominator of `i64::MIN`, or a numerator of `i64::MIN` over a
/// negative denominator) it cannot come back.
pub proof fn lemma_round_trip(n: i64, d: i64, tail: Seq<u8>)
    requires
        d != 0,
        d != i64::MIN,
        n != i64::MIN || d > 0,
    ensures
        decode(encoding(n as int, d as int) + tail) == Ok::<(int, int, Seq<u8>), CodecError>(
            (if d < 0 { -n } else { n as int }, abs(d as int) as int, tail),
        ),
{
    lemma_pow256_values();
    lemma_frame_layout(abs(n as int), abs(d as int), (n < 0) != (d < 0), tail);
}

/// Each magnitude is written with the smallest width-class whose largest
/// value lies strictly above it: the numerator always, the denominator
/// unless it is one.
pub proof fn lemma_width_class_selection(n: int, d: int)
    requires
        abs(n) <= u64::MAX,
        abs(d) <= u64::MAX,
    ensures
        num_class(encoding(n, d)[0]) == class_of(abs(n)),
        is_smallest_class(class_of(abs(n)), abs(n)),
        abs(d) != 1 ==> den_class(encoding(n, d)[0]) == class_of(abs(d)),
        abs(d) != 1 ==> is_smallest_class(class_of(abs(d)), abs(d)),
{
    lemma_pow256_values();
    lemma_frame_layout(abs(n), abs(d), (n < 0) != (d < 0), Seq::empty());
    assert(encoding(n, d) + Seq::empty() =~= encoding(n, d));
    assert(class_max(1) == 255 && class_max(2) == 65535 && class_max(3) == 4294967295);
}

/// A denominator of one leaves the denominator's class at 0 and writes no
/// denominator bytes.
pub proof fn lemma_implicit_denominator(n: int)
    requires
        abs(n) <= u64::MAX,
    ensures
        den_class(encoding(n, 1)[0]) == 0,
        encoding(n, 1) == seq![encoding(n, 1)[0]] + magnitude_bytes(abs(n)),
        encoding(n, 1).len() == 1 + class_width(class_of(abs(n))),
{
    lemma_pow256_values();
    lemma_frame_layout(abs(n), 1, n < 0, Seq::empty());
    assert(encoding(n, 1) + Seq::empty() =~= encoding(n, 1));
    assert(encoding(n, 1) =~= seq![encoding(n, 1)[0]] + magnitude_bytes(abs(n)));
}

/// The zero and one checks agree with a full decode on every encoded
/// fraction: zero exactly when the numerator is zero, one exactly when the
/// numerator equals the denominator.
pub proof fn lemma_zero_one_checks(n: i64, d: i64, tail: Seq<u8>)
    requires
        d != 0,
        d != i64::MIN,
        n != i64::MIN || d > 0,
    ensures
        denotes_zero(encoding(n as int, d as int) + tail) == (n == 0),
        denotes_one(encoding(n as int, d as int) + tail) == (n == d),
{
    lemma_round_trip(n, d, tail);
}

/// Skipping a freshly encoded value lands exactly on what follows it.
pub proof fn lemma_skip_lands_after(n: int, d: int, tail: Seq<u8>)
    requires
        abs(n) <= u64::MAX,
        abs(d) <= u64::MAX,
    ensures
        skip_spec(encoding(n, d) + tail) == Ok::<Seq<u8>, CodecError>(tail),
{
    lemma_pow256_values();
    lemma_frame_layout(abs(n), abs(d), (n < 0) != (d < 0), tail);
}

} // verus!
