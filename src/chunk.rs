//! Splitting an ordered sequence into bounded, contiguous, order-keeping groups.

use vstd::prelude::*;

verus! {

/// How many groups of at most `size` items `n` items make: `n / size`
/// rounded up.
pub open spec fn chunk_count(n: nat, size: nat) -> nat {
    if size == 0 {
        0
    } else {
        (n + size - 1) as nat / size
    }
}

/// The `k`-th group (from zero) of `s` in groups of `size`.
pub open spec fn chunk_of<T>(s: Seq<T>, size: nat, k: int) -> Seq<T> {
    let end = (k + 1) * size;
    s.subrange(k * size, if end < s.len() { end } else { s.len() as int })
}

/// `s` in groups of `size`, in order.
pub open spec fn chunked<T>(s: Seq<T>, size: nat) -> Seq<Seq<T>> {
    Seq::new(chunk_count(s.len(), size), |k: int| chunk_of(s, size, k))
}

/// The view of each group.
pub open spec fn views<T>(c: Seq<Vec<T>>) -> Seq<Seq<T>> {
    c.map_values(|v: Vec<T>| v@)
}

/// The group size was zero.
#[derive(Debug, Clone, Copy, PartialEq, Eq, Structural)]
pub struct InvalidChunkSize;

pub(crate) proof fn lemma_count_bounds(n: nat, size: nat, k: nat)
    requires
        size > 0,
    ensures
        chunk_count(n, size) * size >= n,
        k < chunk_count(n, size) ==> k * size < n,
        k < chunk_count(n, size) ==> k + 1 < chunk_count(n, size) ==> (k + 1) * size < n,
        n > 0 ==> chunk_count(n, size) > 0,
        n == 0 ==> chunk_count(n, size) == 0,
        n / size + (if n % size == 0 { 0nat } else { 1nat }) == chunk_count(n, size),
{
    let c = chunk_count(n, size);
    let q = n / size;
    let r = n % size;
    assert(n == q * size + r && r < size) by (nonlinear_arith)
        requires
            size > 0,
            q == n / size,
            r == n % size,
    ;
    if r == 0 {
        assert((n + size - 1) as nat == q * size + (size - 1)) by (nonlinear_arith)
            requires
                n == q * size + r,
                r == 0,
                size > 0,
        ;
        assert(c == q) by (nonlinear_arith)
            requires
                (n + size - 1) as nat == q * size + (size - 1),
                size > 0,
                c == (n + size - 1) as nat / size,
        ;
    } else {
        assert((n + size - 1) as nat == (q + 1) * size + (r - 1)) by (nonlinear_arith)
            requires
                n == q * size + r,
                0 < r < size,
        ;
        assert(c == q + 1) by (nonlinear_arith)
            requires
                (n + size - 1) as nat == (q + 1) * size + (r - 1),
                0 < r < size,
                c == (n + size - 1) as nat / size,
        ;
    }
    assert(c * size >= n) by (nonlinear_arith)
        requires
            n == q * size + r,
            r < size,
            r == 0 ==> c == q,
            r != 0 ==> c == q + 1,
    ;
    if k < c {
        assert(k * size < n) by (nonlinear_arith)
            requires
                n == q * size + r,
                r < size,
                r == 0 ==> c == q,
                r != 0 ==> c == q + 1,
                k < c,
        ;
        if k + 1 < c {
            assert((k + 1) * size < n) by (nonlinear_arith)
                requires
                    n == q * size + r,
                    r < size,
                    r == 0 ==> c == q,
                    r != 0 ==> c == q + 1,
                    k + 1 < c,
            ;
        }
    }
    if n > 0 {
        assert(c > 0) by (nonlinear_arith)
            requires
                n == q * size + r,
                r == 0 ==> c == q,
                r != 0 ==> c == q + 1,
                n > 0,
        ;
    }
}

/// Splits `items` into groups of `size`, in order: every group but the last
/// holds exactly `size` items. An empty input gives no group; a zero size is
/// refused.
pub fn chunks<T>(items: Vec<T>, size: usize) -> (r: Result<Vec<Vec<T>>, InvalidChunkSize>)
    ensures
        size == 0 <==> r is Err,
        r matches Ok(c) ==> views(c@) == chunked(items@, size as nat),
{
    if size == 0 {
        return Err(InvalidChunkSize);
    }
    let ghost all = items@;
    let n = items.len();
    let q = n / size;
    proof {
        lemma_count_bounds(n as nat, size as nat, 0);
        assert(n % size != 0 ==> q < n) by (nonlinear_arith)
            requires
                size > 0,
                q == n / size,
        ;
    }
    let count = if n % size == 0 {
        q
    } else {
        q + 1
    };
    let mut rest = items;
    let mut tails: Vec<Vec<T>> = Vec::new();
    let mut k = count;
    assert(rest@ =~= all.subrange(0, n as int));
    while k > 0
        invariant
            n == all.len(),
            size > 0,
            count == chunk_count(n as nat, size as nat),
            k <= count,
            count * size >= n,
            k < count ==> rest@ == all.subrange(0, k * size),
            k == count ==> rest@ == all.subrange(0, n as int),
            tails@.len() == count - k,
            forall|j: int|
                0 <= j < tails@.len() ==> (#[trigger] tails@[j])@ == chunk_of(
                    all,
                    size as nat,
                    count - 1 - j,
                ),
        decreases k,
    {
        k = k - 1;
        proof {
            lemma_count_bounds(n as nat, size as nat, k as nat);
            assert((k + 1) * size == k * size + size) by (nonlinear_arith);
        }
        let start = k * size;
        assert(start <= rest@.len());
        let tail = rest.split_off(start);
        proof {
            if k + 1 < count {
                assert(tail@ =~= chunk_of(all, size as nat, k as int));
            } else {
                assert((k + 1) * size >= n) by (nonlinear_arith)
                    requires
                        k + 1 == count,
                        count * size >= n,
                ;
                assert(tail@ =~= chunk_of(all, size as nat, k as int));
            }
        }
        tails.push(tail);
    }
    let mut out: Vec<Vec<T>> = Vec::new();
    while tails.len() > 0
        invariant
            out@.len() + tails@.len() == count,
            forall|j: int|
                0 <= j < tails@.len() ==> (#[trigger] tails@[j])@ == chunk_of(
                    all,
                    size as nat,
                    count - 1 - j,
                ),
            forall|j: int|
                0 <= j < out@.len() ==> (#[trigger] out@[j])@ == chunk_of(all, size as nat, j),
        decreases tails@.len(),
    {
        let c = tails.pop().unwrap();
        out.push(c);
    }
    assert(views(out@) =~= chunked(all, size as nat));
    Ok(out)
}

proof fn lemma_prefix_cover<T>(s: Seq<T>, size: nat, k: nat)
    requires
        size > 0,
        k <= chunk_count(s.len(), size),
    ensures
        chunked(s, size).subrange(0, k as int).flatten_alt() == s.subrange(
            0,
            if k * size < s.len() { (k * size) as int } else { s.len() as int },
        ),
    decreases k,
{
    let c = chunked(s, size);
    if k == 0 {
        assert(c.subrange(0, 0).flatten_alt() =~= Seq::<T>::empty());
        assert(s.subrange(0, 0) =~= Seq::<T>::empty());
    } else {
        lemma_prefix_cover(s, size, (k - 1) as nat);
        lemma_count_bounds(s.len(), size, (k - 1) as nat);
        let p = c.subrange(0, k as int);
        assert(p.drop_last() =~= c.subrange(0, k - 1));
        assert(((k - 1) * size) as int == (k - 1) * size) by (nonlinear_arith)
            requires
                k >= 1,
        ;
        assert((k - 1) * size + size == k * size) by (nonlinear_arith);
        assert(p.flatten_alt() =~= s.subrange(
            0,
            if k * size < s.len() { (k * size) as int } else { s.len() as int },
        ));
    }
}

/// Chunk coverage: for a positive size, the groups, joined in order, give back
/// the input exactly; there are `n / size` of them rounded up; and every group
/// but the last holds exactly `size` items (the last one at least one).
pub proof fn lemma_chunks_cover<T>(s: Seq<T>, size: nat)
    requires
        size > 0,
    ensures
        chunked(s, size).flatten() == s,
        chunked(s, size).len() == chunk_count(s.len(), size),
        chunk_count(s.len(), size) * size >= s.len(),
        chunk_count(s.len(), size) > 0 ==> (chunk_count(s.len(), size) - 1) * size < s.len(),
        forall|k: int|
            0 <= k < chunked(s, size).len() - 1 ==> (#[trigger] chunked(s, size)[k]).len()
                == size,
        chunked(s, size).len() > 0 ==> 0 < chunked(s, size).last().len() <= size,
{
    let c = chunked(s, size);
    let count = chunk_count(s.len(), size);
    lemma_count_bounds(s.len(), size, 0);
    lemma_prefix_cover(s, size, count);
    assert(c.subrange(0, count as int) =~= c);
    c.lemma_flatten_and_flatten_alt_are_equivalent();
    assert(s.subrange(0, s.len() as int) =~= s);
    if count > 0 {
        lemma_count_bounds(s.len(), size, (count - 1) as nat);
    }
    assert forall|k: int| 0 <= k < c.len() - 1 implies (#[trigger] c[k]).len() == size by {
        lemma_count_bounds(s.len(), size, k as nat);
        assert(k * size + size == (k + 1) * size) by (nonlinear_arith);
    }
    if count > 0 {
        let k = count - 1;
        assert(k * size + size == (k + 1) * size) by (nonlinear_arith);
    }
}

} // verus!
