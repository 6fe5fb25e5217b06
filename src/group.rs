use vstd::prelude::*;

use k256::elliptic_curve::sec1::{FromEncodedPoint, ToEncodedPoint};
use k256::{AffinePoint, EncodedPoint, ProjectivePoint};
use rayon::prelude::{IntoParallelRefIterator, ParallelIterator};

verus! {

/// The SEC1 uncompressed encoding, as k256 writes it, of the point `k·G` on
/// secp256k1, where `G` is the curve's generator and `k` is taken modulo the
/// group order. The identity is written as the single byte `0x00`.
///
/// Every point of the group is `k·G` for some `k`, so this names every value
/// that the arithmetic below can produce.
pub uninterp spec fn multiple_encoding(k: int) -> Seq<u8>;

/// `p` is the encoding of some multiple of the generator.
pub open spec fn is_group_element(p: Seq<u8>) -> bool {
    exists|k: int| p == #[trigger] multiple_encoding(k)
}

/// Sum of a sequence of integers, from the left.
pub open spec fn sum_of(ks: Seq<int>) -> int
    decreases ks.len(),
{
    if ks.len() == 0 {
        0
    } else {
        sum_of(ks.drop_last()) + ks.last()
    }
}

/// Summing two parts of a list separately and adding the results gives the
/// sum of the whole list: a reduction may split the terms at any point, so
/// the combined point does not depend on how the work is partitioned.
pub proof fn lemma_sum_split(a: Seq<int>, b: Seq<int>)
    ensures
        sum_of(a + b) == sum_of(a) + sum_of(b),
    decreases b.len(),
{
    if b.len() == 0 {
        assert(a + b =~= a);
    } else {
        lemma_sum_split(a, b.drop_last());
        assert((a + b).drop_last() =~= a + b.drop_last());
    }
}

/// Relies on `AffinePoint::IDENTITY` and `ToEncodedPoint::to_encoded_point`:
/// the encoding of the point at infinity, `0·G`.
#[verifier::external_body]
fn identity_point() -> (r: Vec<u8>)
    ensures
        r@ == multiple_encoding(0),
{
    AffinePoint::IDENTITY.to_encoded_point(false).as_bytes().to_vec()
}

/// Relies on `AffinePoint::GENERATOR` and `ToEncodedPoint::to_encoded_point`:
/// the encoding of the generator, `1·G`.
#[verifier::external_body]
fn generator_point() -> (r: Vec<u8>)
    ensures
        r@ == multiple_encoding(1),
{
    AffinePoint::GENERATOR.to_encoded_point(false).as_bytes().to_vec()
}

/// Relies on k256's point addition (`ProjectivePoint + &AffinePoint`), with the
/// operands read by `EncodedPoint::from_bytes` and `from_encoded_point`, and the
/// sum written back by `to_affine` and `to_encoded_point`: the sum of `x·G` and
/// `y·G` is `(x + y)·G`.
#[verifier::external_body]
fn point_add(a: &Vec<u8>, b: &Vec<u8>) -> (r: Vec<u8>)
    requires
        is_group_element(a@),
        is_group_element(b@),
    ensures
        forall|x: int, y: int|
            #![trigger multiple_encoding(x), multiple_encoding(y)]
            a@ == multiple_encoding(x) && b@ == multiple_encoding(y) ==> r@ == multiple_encoding(
                x + y,
            ),
{
    let pa = ProjectivePoint::from_encoded_point(&EncodedPoint::from_bytes(a).unwrap()).unwrap();
    let pb = AffinePoint::from_encoded_point(&EncodedPoint::from_bytes(b).unwrap()).unwrap();
    (pa + &pb).to_affine().to_encoded_point(false).as_bytes().to_vec()
}

/// Relies on `ProjectivePoint::double`, with the operand read by
/// `EncodedPoint::from_bytes` and `from_encoded_point`, and the result written
/// back by `to_affine` and `to_encoded_point`: doubling `x·G` gives `(2x)·G`.
#[verifier::external_body]
fn point_double(a: &Vec<u8>) -> (r: Vec<u8>)
    requires
        is_group_element(a@),
    ensures
        forall|x: int| a@ == #[trigger] multiple_encoding(x) ==> r@ == multiple_encoding(2 * x),
{
    let pa = ProjectivePoint::from_encoded_point(&EncodedPoint::from_bytes(a).unwrap()).unwrap();
    pa.double().to_affine().to_encoded_point(false).as_bytes().to_vec()
}

/// Relies on rayon's `ParallelIterator::reduce`: with an associative operation
/// and an identity that leaves every item unchanged, it combines all the items
/// in one of the orders the operation allows, which here all give one sum.
#[verifier::external_body]
fn parallel_sum(terms: &Vec<Vec<u8>>) -> (r: Vec<u8>)
    requires
        forall|i: int| 0 <= i < terms.len() ==> is_group_element(#[trigger] terms[i]@),
    ensures
        forall|ks: Seq<int>|
            ks.len() == terms.len() && (forall|i: int|
                0 <= i < ks.len() ==> terms[i]@ == multiple_encoding(#[trigger] ks[i]))
                ==> r@ == multiple_encoding(#[trigger] sum_of(ks)),
{
    terms.par_iter().cloned().reduce(|| neutral(), |a, b| combine(&a, &b))
}

/// The neutral element of `combine`: the group identity.
pub fn neutral() -> (r: Vec<u8>)
    ensures
        r@ == multiple_encoding(0),
        is_group_element(r@),
{
    identity_point()
}

/// The generator `G` of the group.
pub fn generator() -> (r: Vec<u8>)
    ensures
        r@ == multiple_encoding(1),
        is_group_element(r@),
{
    generator_point()
}

/// Group addition of two encoded points: `x·G` and `y·G` give `(x + y)·G`.
pub fn combine(a: &Vec<u8>, b: &Vec<u8>) -> (r: Vec<u8>)
    requires
        is_group_element(a@),
        is_group_element(b@),
    ensures
        is_group_element(r@),
        forall|x: int, y: int|
            #![trigger multiple_encoding(x), multiple_encoding(y)]
            a@ == multiple_encoding(x) && b@ == multiple_encoding(y) ==> r@ == multiple_encoding(
                x + y,
            ),
{
    let r = point_add(a, b);
    proof {
        let x = choose|x: int| a@ == multiple_encoding(x);
        let y = choose|y: int| b@ == multiple_encoding(y);
        assert(r@ == multiple_encoding(x + y));
    }
    r
}

/// Point doubling: `x·G` gives `(2x)·G`.
pub fn double(a: &Vec<u8>) -> (r: Vec<u8>)
    requires
        is_group_element(a@),
    ensures
        is_group_element(r@),
        forall|x: int| a@ == #[trigger] multiple_encoding(x) ==> r@ == multiple_encoding(2 * x),
{
    let r = point_double(a);
    proof {
        let x = choose|x: int| a@ == multiple_encoding(x);
        assert(r@ == multiple_encoding(2 * x));
    }
    r
}

/// Sum of a list of encoded points, combined in parallel. Whatever order the
/// workers combine them in, the result is the point of the summed multiples.
pub(crate) fn sum_parallel(terms: &Vec<Vec<u8>>, ks: Ghost<Seq<int>>) -> (r: Vec<u8>)
    requires
        ks@.len() == terms.len(),
        forall|i: int| 0 <= i < ks@.len() ==> terms[i]@ == multiple_encoding(#[trigger] ks@[i]),
    ensures
        r@ == multiple_encoding(sum_of(ks@)),
{
    assert forall|i: int| 0 <= i < terms.len() implies is_group_element(#[trigger] terms[i]@) by {
        assert(terms[i]@ == multiple_encoding(ks@[i]));
    }
    let r = parallel_sum(terms);
    assert(r@ == multiple_encoding(sum_of(ks@)));
    r
}

} // verus!
