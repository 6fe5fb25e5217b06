use vstd::prelude::*;

use crate::group::{
    combine, double, generator, is_group_element, multiple_encoding, neutral, sum_of,
    sum_parallel,
};

verus! {

/// `256^i`.
pub open spec fn pow256(i: nat) -> int
    decreases i,
{
    if i == 0 {
        1
    } else {
        256 * pow256((i - 1) as nat)
    }
}

/// `2^k`.
pub open spec fn pow2(k: nat) -> int
    decreases k,
{
    if k == 0 {
        1
    } else {
        2 * pow2((k - 1) as nat)
    }
}

/// The multiple of the generator that cell `(i, j)` of the table holds:
/// `j · 256^i`.
pub open spec fn cell_multiple(i: int, j: int) -> int {
    j * pow256(i as nat)
}

/// What a correct table is: 32 rows of 256 cells, cell `(i, j)` holding the
/// encoding of `(j · 256^i)·G`.
pub open spec fn table_correct(t: Seq<Seq<Seq<u8>>>) -> bool {
    &&& t.len() == 32
    &&& forall|i: int| 0 <= i < 32 ==> (#[trigger] t[i]).len() == 256
    &&& forall|i: int, j: int|
        0 <= i < 32 && 0 <= j < 256 ==> #[trigger] t[i][j] == multiple_encoding(cell_multiple(i, j))
}

/// The terms of a little-endian scalar: byte `i` weighted by `256^i`.
pub open spec fn scalar_terms(s: Seq<u8>) -> Seq<int> {
    Seq::new(s.len(), |i: int| cell_multiple(i, s[i] as int))
}

/// The integer that a little-endian byte string stands for.
pub open spec fn scalar_value(s: Seq<u8>) -> int {
    sum_of(scalar_terms(s))
}

/// Moving one row down multiplies a cell's multiple by 256.
proof fn lemma_cell_step(i: int, j: int)
    requires
        i >= 1,
    ensures
        cell_multiple(i, j) == 256 * cell_multiple(i - 1, j),
{
    assert(pow256(i as nat) == 256 * pow256((i - 1) as nat));
    assert(j * (256 * pow256((i - 1) as nat)) == 256 * (j * pow256((i - 1) as nat)))
        by (nonlinear_arith);
}

/// Taking one more term adds it to the sum.
proof fn lemma_sum_take_step(ks: Seq<int>, i: int)
    requires
        0 <= i < ks.len(),
    ensures
        sum_of(ks.take(i + 1)) == sum_of(ks.take(i)) + ks[i],
{
    assert(ks.take(i + 1).drop_last() =~= ks.take(i));
}

/// A sum whose terms after the first are all zero is its first term.
proof fn lemma_sum_of_leading(ks: Seq<int>, n: int)
    requires
        1 <= n <= ks.len(),
        forall|i: int| 1 <= i < ks.len() ==> #[trigger] ks[i] == 0,
    ensures
        sum_of(ks.take(n)) == ks[0],
    decreases n,
{
    lemma_sum_take_step(ks, n - 1);
    if n == 1 {
        assert(ks.take(0) =~= Seq::<int>::empty());
    } else {
        lemma_sum_of_leading(ks, n - 1);
        assert(ks[n - 1] == 0);
    }
}

/// The value of a byte string is its first byte when every later byte is zero.
proof fn lemma_scalar_value_low_byte(s: Seq<u8>)
    requires
        s.len() >= 1,
        forall|i: int| 1 <= i < s.len() ==> #[trigger] s[i] == 0,
    ensures
        scalar_value(s) == s[0] as int,
{
    let ks = scalar_terms(s);
    assert forall|i: int| 1 <= i < ks.len() implies #[trigger] ks[i] == 0 by {
        assert(ks[i] == cell_multiple(i, s[i] as int));
        assert(s[i] as int == 0);
        assert(0 * pow256(i as nat) == 0);
    }
    assert(ks[0] == s[0] as int * pow256(0));
    lemma_sum_of_leading(ks, ks.len() as int);
    assert(ks.take(ks.len() as int) =~= ks);
}

/// The all-zero scalar stands for 0, so `mul` and `mul_rayon` give the group
/// identity for it, the value of `neutral`.
pub proof fn lemma_scalar_zero(s: Seq<u8>)
    requires
        s.len() == 32,
        forall|i: int| 0 <= i < 32 ==> #[trigger] s[i] == 0,
    ensures
        scalar_value(s) == 0,
        multiple_encoding(scalar_value(s)) == multiple_encoding(0),
{
    lemma_scalar_value_low_byte(s);
}

/// The scalar with low byte 1 and all other bytes zero stands for 1, so `mul`
/// and `mul_rayon` give the generator for it, the value of `generator`.
pub proof fn lemma_scalar_one(s: Seq<u8>)
    requires
        s.len() == 32,
        s[0] == 1,
        forall|i: int| 1 <= i < 32 ==> #[trigger] s[i] == 0,
    ensures
        scalar_value(s) == 1,
        multiple_encoding(scalar_value(s)) == multiple_encoding(1),
{
    lemma_scalar_value_low_byte(s);
}

/// Any two correct tables are the same, cell for cell: building the table is
/// deterministic.
pub proof fn lemma_table_unique(a: Seq<Seq<Seq<u8>>>, b: Seq<Seq<Seq<u8>>>)
    requires
        table_correct(a),
        table_correct(b),
    ensures
        a == b,
{
    assert forall|i: int| 0 <= i < 32 implies #[trigger] a[i] == b[i] by {
        assert forall|j: int| 0 <= j < 256 implies #[trigger] a[i][j] == b[i][j] by {
            assert(a[i][j] == multiple_encoding(cell_multiple(i, j)));
            assert(b[i][j] == multiple_encoding(cell_multiple(i, j)));
        }
        assert(a[i] =~= b[i]);
    }
    assert(a =~= b);
}

/// The sequential and the parallel product of one scalar are the same point:
/// any results that meet the contracts of `mul` and `mul_rayon` for the same
/// scalar are equal.
pub proof fn lemma_sequential_parallel_agree(s: Seq<u8>, sequential: Seq<u8>, parallel: Seq<u8>)
    requires
        s.len() == 32,
        sequential == multiple_encoding(scalar_value(s)),
        parallel == multiple_encoding(scalar_value(s)),
    ensures
        sequential == parallel,
{
}

/// A fresh copy of an encoded point.
fn copy_point(p: &Vec<u8>) -> (r: Vec<u8>)
    ensures
        r@ == p@,
{
    let r = p.clone();
    assert(r@ =~= p@);
    r
}

/// A table of the multiples `(j · 256^i)·G` of the generator, for every byte
/// position `i` of a 32-byte scalar and every byte value `j`.
pub struct MulLut {
    table: Vec<Vec<Vec<u8>>>,
}

impl View for MulLut {
    type V = Seq<Seq<Seq<u8>>>;

    closed spec fn view(&self) -> Seq<Seq<Seq<u8>>> {
        self.table@.map_values(|row: Vec<Vec<u8>>| row@.map_values(|c: Vec<u8>| c@))
    }
}

impl MulLut {
    /// Builds the table: row 0 by repeated addition of the generator, starting
    /// from the identity; each later row from the row above, every cell of it
    /// doubled eight times.
    pub fn new() -> (r: MulLut)
        ensures
            table_correct(r@),
    {
        let g = generator();
        let mut first: Vec<Vec<u8>> = Vec::new();
        first.push(neutral());
        let mut j: usize = 0;
        while j < 255
            invariant
                0 <= j <= 255,
                first@.len() == j + 1,
                g@ == multiple_encoding(1),
                forall|c: int| 0 <= c <= j ==> (#[trigger] first@[c])@ == multiple_encoding(
                    cell_multiple(0, c),
                ),
            decreases 255 - j,
        {
            assert(first@[j as int]@ == multiple_encoding(j as int)) by {
                assert(cell_multiple(0, j as int) == j as int);
            }
            let next = combine(&first[j], &g);
            assert(next@ == multiple_encoding(j + 1));
            first.push(next);
            j = j + 1;
            assert(cell_multiple(0, j as int) == j as int);
        }
        let mut table: Vec<Vec<Vec<u8>>> = Vec::new();
        table.push(first);
        let mut i: usize = 1;
        while i < 32
            invariant
                1 <= i <= 32,
                table@.len() == i,
                forall|r: int| 0 <= r < i ==> (#[trigger] table@[r]).len() == 256,
                forall|r: int, c: int|
                    0 <= r < i && 0 <= c < 256 ==> #[trigger] table@[r]@[c]@ == multiple_encoding(
                        cell_multiple(r, c),
                    ),
            decreases 32 - i,
        {
            let row = Self::row_above_times_256(&table[i - 1], Ghost(i as int));
            table.push(row);
            i = i + 1;
        }
        let r = MulLut { table };
        proof {
            r.lemma_view_correct();
        }
        r
    }

    /// The point that cell `(i, j)` holds: `(j · 256^i)·G`.
    pub fn entry(&self, i: usize, j: usize) -> (r: &Vec<u8>)
        requires
            i < 32,
            j < 256,
        ensures
            r@ == multiple_encoding(cell_multiple(i as int, j as int)),
    {
        proof {
            use_type_invariant(self);
        }
        &self.table[i][j]
    }

    /// `scalar·G`, for the scalar written as 32 little-endian bytes: the sum of
    /// one cell per byte, taken row by row.
    pub fn mul(&self, scalar: &[u8; 32]) -> (r: Vec<u8>)
        ensures
            r@ == multiple_encoding(scalar_value(scalar@)),
    {
        proof {
            use_type_invariant(self);
        }
        let ghost terms = scalar_terms(scalar@);
        let mut accum = copy_point(self.entry(0, scalar[0] as usize));
        proof {
            lemma_sum_take_step(terms, 0);
            assert(terms.take(0) =~= Seq::<int>::empty());
        }
        let mut i: usize = 1;
        while i < 32
            invariant
                1 <= i <= 32,
                terms == scalar_terms(scalar@),
                accum@ == multiple_encoding(sum_of(terms.take(i as int))),
            decreases 32 - i,
        {
            let cell = self.entry(i, scalar[i] as usize);
            proof {
                lemma_sum_take_step(terms, i as int);
            }
            accum = combine(&accum, cell);
            i = i + 1;
        }
        assert(terms.take(32) =~= terms);
        accum
    }

    /// `scalar·G`, as `mul` gives it: the 32 cells are summed by a parallel
    /// reduction with `combine` and its neutral element.
    pub fn mul_rayon(&self, scalar: &[u8; 32]) -> (r: Vec<u8>)
        ensures
            r@ == multiple_encoding(scalar_value(scalar@)),
    {
        let ghost ks = scalar_terms(scalar@);
        let mut cells: Vec<Vec<u8>> = Vec::new();
        let mut i: usize = 0;
        while i < 32
            invariant
                0 <= i <= 32,
                ks == scalar_terms(scalar@),
                cells@.len() == i,
                forall|c: int| 0 <= c < i ==> (#[trigger] cells@[c])@ == multiple_encoding(ks[c]),
            decreases 32 - i,
        {
            cells.push(copy_point(self.entry(i, scalar[i] as usize)));
            i = i + 1;
        }
        sum_parallel(&cells, Ghost(ks))
    }

    /// The row at position `i`, from the row at `i - 1`: every cell doubled
    /// eight times, that is multiplied by 256.
    fn row_above_times_256(above: &Vec<Vec<u8>>, i: Ghost<int>) -> (row: Vec<Vec<u8>>)
        requires
            1 <= i@ < 32,
            above@.len() == 256,
            forall|c: int| 0 <= c < 256 ==> (#[trigger] above@[c])@ == multiple_encoding(
                cell_multiple(i@ - 1, c),
            ),
        ensures
            row@.len() == 256,
            forall|c: int| 0 <= c < 256 ==> (#[trigger] row@[c])@ == multiple_encoding(
                cell_multiple(i@, c),
            ),
    {
        let mut row: Vec<Vec<u8>> = Vec::new();
        let mut j: usize = 0;
        while j < 256
            invariant
                0 <= j <= 256,
                1 <= i@ < 32,
                above@.len() == 256,
                forall|c: int| 0 <= c < 256 ==> (#[trigger] above@[c])@ == multiple_encoding(
                    cell_multiple(i@ - 1, c),
                ),
                row@.len() == j,
                forall|c: int| 0 <= c < j ==> (#[trigger] row@[c])@ == multiple_encoding(
                    cell_multiple(i@, c),
                ),
            decreases 256 - j,
        {
            let ghost m = cell_multiple(i@ - 1, j as int);
            assert(above@[j as int]@ == multiple_encoding(m));
            let mut acc = double(&above[j]);
            let ghost mut v: int = 2 * m;
            let mut k: usize = 1;
            proof {
                reveal_with_fuel(pow2, 2);
                assert(pow2(1) == 2);
                assert(v == m * pow2(1)) by (nonlinear_arith)
                    requires
                        v == 2 * m,
                        pow2(1) == 2,
                ;
            }
            while k < 8
                invariant
                    1 <= k <= 8,
                    acc@ == multiple_encoding(v),
                    v == m * pow2(k as nat),
                decreases 8 - k,
            {
                assert(is_group_element(acc@));
                acc = double(&acc);
                proof {
                    v = 2 * v;
                    assert(m * pow2((k + 1) as nat) == 2 * (m * pow2(k as nat)))
                        by (nonlinear_arith)
                        requires
                            pow2((k + 1) as nat) == 2 * pow2(k as nat),
                    ;
                }
                k = k + 1;
            }
            proof {
                reveal_with_fuel(pow2, 9);
                assert(pow2(8) == 256);
                lemma_cell_step(i@, j as int);
            }
            row.push(acc);
            j = j + 1;
        }
        row
    }
    #[verifier::type_invariant]
    spec fn inv(&self) -> bool {
        &&& self.table@.len() == 32
        &&& forall|i: int| 0 <= i < 32 ==> (#[trigger] self.table@[i]).len() == 256
        &&& forall|i: int, j: int|
            0 <= i < 32 && 0 <= j < 256 ==> #[trigger] self.table@[i]@[j]@ == multiple_encoding(
                cell_multiple(i, j),
            )
    }

    proof fn lemma_view_correct(&self)
        requires
            self.inv(),
        ensures
            table_correct(self@),
    {
        assert forall|i: int| 0 <= i < 32 implies (#[trigger] self@[i]).len() == 256 by {
            assert(self@[i] == self.table@[i]@.map_values(|c: Vec<u8>| c@));
        }
        assert forall|i: int, j: int| 0 <= i < 32 && 0 <= j < 256 implies #[trigger] self@[i][j]
            == multiple_encoding(cell_multiple(i, j)) by {
            assert(self@[i] == self.table@[i]@.map_values(|c: Vec<u8>| c@));
            assert(self.table@[i]@[j]@ == multiple_encoding(cell_multiple(i, j)));
        }
    }
}

} // verus!
