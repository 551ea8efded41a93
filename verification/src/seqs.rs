//! Sequence vocabulary shared by the contracts: rows laid end to end, and runs of one value.
use vstd::prelude::*;

verus! {

/// The rows `row(0), .., row(n - 1)` laid end to end.
pub open spec fn flat<T>(n: nat, row: spec_fn(int) -> Seq<T>) -> Seq<T>
    decreases n,
{
    if n == 0 {
        Seq::empty()
    } else {
        flat((n - 1) as nat, row) + row(n - 1)
    }
}

/// `flat` only looks at the rows below `n`.
pub proof fn lemma_flat_ext<T>(n: nat, a: spec_fn(int) -> Seq<T>, b: spec_fn(int) -> Seq<T>)
    requires
        forall|i: int| 0 <= i < n ==> #[trigger] a(i) == b(i),
    ensures
        flat(n, a) == flat(n, b),
    decreases n,
{
    if n > 0 {
        lemma_flat_ext((n - 1) as nat, a, b);
        assert(a(n - 1) == b(n - 1));
    }
}

/// With rows of one width, entry `j` of row `i` stands at `i * width + j`.
pub proof fn lemma_flat_len<T>(n: nat, row: spec_fn(int) -> Seq<T>, width: nat)
    requires
        forall|i: int| 0 <= i < n ==> (#[trigger] row(i)).len() == width,
    ensures
        flat(n, row).len() == n * width,
    decreases n,
{
    if n > 0 {
        lemma_flat_len((n - 1) as nat, row, width);
        assert(row(n - 1).len() == width);
        assert((n - 1) * width + width == n * width) by (nonlinear_arith);
    } else {
        assert(0 * width == 0);
    }
}

/// With rows of one width, entry `j` of row `i` stands at `i * width + j`.
pub proof fn lemma_flat_index<T>(n: nat, row: spec_fn(int) -> Seq<T>, width: nat, i: int, j: int)
    requires
        forall|i: int| 0 <= i < n ==> (#[trigger] row(i)).len() == width,
        0 <= i < n,
        0 <= j < width,
    ensures
        0 <= i * width + j < flat(n, row).len(),
        flat(n, row).len() == n * width,
        flat(n, row)[i * width + j] == row(i)[j],
    decreases n,
{
    lemma_flat_len(n, row, width);
    lemma_flat_len((n - 1) as nat, row, width);
    assert(row(n - 1).len() == width);
    if i == n - 1 {
        assert(i * width == (n - 1) * width);
    } else {
        lemma_flat_index((n - 1) as nat, row, width, i, j);
    }
    assert((n - 1) * width + width == n * width) by (nonlinear_arith);
}

/// Row `i` stands after the rows before it.
pub proof fn lemma_flat_row<T>(n: nat, row: spec_fn(int) -> Seq<T>, i: nat)
    requires
        i < n,
    ensures
        flat(i, row).len() + row(i as int).len() <= flat(n, row).len(),
        flat(n, row).subrange(
            flat(i, row).len() as int,
            (flat(i, row).len() + row(i as int).len()) as int,
        ) == row(i as int),
    decreases n,
{
    let before = flat((n - 1) as nat, row);
    let a = flat(i, row).len() as int;
    let b = a + row(i as int).len();
    if i == n - 1 {
        assert((before + row(n - 1)).subrange(a, b) =~= row(n - 1));
    } else {
        lemma_flat_row((n - 1) as nat, row, i);
        assert((before + row(n - 1)).subrange(a, b) =~= before.subrange(a, b));
    }
}

/// `n` copies of one value.
pub open spec fn fill<T>(n: nat, v: T) -> Seq<T> {
    Seq::new(n, |i: int| v)
}

/// Smaller of two integers.
pub open spec fn min_int(a: int, b: int) -> int {
    if a <= b {
        a
    } else {
        b
    }
}

/// Larger of two integers.
pub open spec fn max_int(a: int, b: int) -> int {
    if a >= b {
        a
    } else {
        b
    }
}

/// Smaller of two lengths.
pub fn min_usize(a: usize, b: usize) -> (r: usize)
    ensures
        r == min_int(a as int, b as int),
{
    if a <= b {
        a
    } else {
        b
    }
}

/// The first `n` entries.
pub fn prefix<T: Copy>(v: &[T], n: usize) -> (r: Vec<T>)
    requires
        n <= v.len(),
    ensures
        r@ == v@.take(n as int),
{
    slice_copy(v, 0, n)
}

/// Entries `from..to`.
pub fn slice_copy<T: Copy>(v: &[T], from: usize, to: usize) -> (r: Vec<T>)
    requires
        from <= to <= v.len(),
    ensures
        r@ == v@.subrange(from as int, to as int),
{
    let mut r: Vec<T> = Vec::new();
    let mut i: usize = from;
    while i < to
        invariant
            from <= i <= to <= v.len(),
            r@ == v@.subrange(from as int, i as int),
        decreases to - i,
    {
        r.push(v[i]);
        i = i + 1;
        proof {
            assert(v@.subrange(from as int, i as int) =~= v@.subrange(from as int, i - 1).push(
                v@[i - 1],
            ));
        }
    }
    r
}

/// Appends entries `from..to` of `v`.
pub fn extend_range<T: Copy>(out: &mut Vec<T>, v: &[T], from: usize, to: usize)
    requires
        from <= to <= v.len(),
    ensures
        final(out)@ == old(out)@ + v@.subrange(from as int, to as int),
{
    let mut i: usize = from;
    while i < to
        invariant
            from <= i <= to <= v.len(),
            out@ == old(out)@ + v@.subrange(from as int, i as int),
        decreases to - i,
    {
        out.push(v[i]);
        i = i + 1;
        proof {
            assert(v@.subrange(from as int, i as int) =~= v@.subrange(from as int, i - 1).push(
                v@[i - 1],
            ));
        }
    }
}

/// `n` copies of `x`.
pub fn filled<T: Copy>(n: usize, x: T) -> (r: Vec<T>)
    ensures
        r@ == fill(n as nat, x),
{
    let mut r: Vec<T> = Vec::new();
    let mut i: usize = 0;
    while i < n
        invariant
            i <= n,
            r@ == fill(i as nat, x),
        decreases n - i,
    {
        r.push(x);
        i = i + 1;
    }
    r
}

} // verus!
