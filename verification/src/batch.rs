//! Partitioning identifier lists into fetch batches.
//!
//! A fetch batch is an ordered run of at most page-size identifiers,
//! serialized as a comma-joined decimal list that preserves the input
//! order. Every submitted identifier lands in exactly one batch: batch `i`
//! covers the index range from `i * page` up to but excluding
//! `min((i + 1) * page, n)`.

use vstd::prelude::*;

use crate::json::COMMA;

verus! {

/// The smaller of two values.
pub open spec fn min_int(a: int, b: int) -> int {
    if a <= b {
        a
    } else {
        b
    }
}

/// Number of batches for `n` identifiers at page size `p`: the ceiling of
/// `n / p`.
pub open spec fn spec_batch_count(n: int, p: int) -> int {
    (n + p - 1) / p
}

/// The slice of identifiers that batch `i` covers.
pub open spec fn spec_batch_of(ids: Seq<u64>, p: int, i: int) -> Seq<u64> {
    ids.subrange(i * p, min_int((i + 1) * p, ids.len() as int))
}

/// Decimal digits of `n`, most significant first.
pub open spec fn dec_digits(n: u64) -> Seq<u8>
    decreases n,
{
    if n < 10 {
        seq![(0x30 + n) as u8]
    } else {
        dec_digits(n / 10).push((0x30 + n % 10) as u8)
    }
}

/// A decimal digit string is never empty and starts and ends with a digit.
pub proof fn lemma_dec_digits_shape(n: u64)
    ensures
        dec_digits(n).len() >= 1,
        0x30 <= dec_digits(n).first() <= 0x39,
        0x30 <= dec_digits(n).last() <= 0x39,
    decreases n,
{
    if n >= 10 {
        lemma_dec_digits_shape(n / 10);
    }
}

/// The comma-joined decimal serialization of an identifier run, preserving
/// its order, with no leading or trailing separator.
pub open spec fn spec_joined(ids: Seq<u64>) -> Seq<u8>
    decreases ids.len(),
{
    if ids.len() == 0 {
        Seq::empty()
    } else if ids.len() == 1 {
        dec_digits(ids[0])
    } else {
        spec_joined(ids.drop_last()) + seq![COMMA] + dec_digits(ids.last())
    }
}

/// The serialization of a non-empty run has no leading and no trailing
/// separator: its first and last bytes are digits, not commas.
pub proof fn lemma_joined_no_edge_separator(ids: Seq<u64>)
    requires
        ids.len() > 0,
    ensures
        spec_joined(ids).len() > 0,
        spec_joined(ids).first() != COMMA,
        spec_joined(ids).last() != COMMA,
    decreases ids.len(),
{
    if ids.len() == 1 {
        lemma_dec_digits_shape(ids[0]);
    } else {
        lemma_joined_no_edge_separator(ids.drop_last());
        lemma_dec_digits_shape(ids.last());
        let w = spec_joined(ids.drop_last()) + seq![COMMA] + dec_digits(ids.last());
        assert(w.first() == spec_joined(ids.drop_last()).first());
        assert(w.last() == dec_digits(ids.last()).last());
    }
}

/// Writes the decimal digits of `n`, most significant first.
pub fn u64_to_digits(n: u64) -> (v: Vec<u8>)
    ensures
        v@ == dec_digits(n),
        v@.len() >= 1,
    decreases n,
{
    if n < 10 {
        let mut v: Vec<u8> = Vec::new();
        v.push((0x30 + n) as u8);
        proof {
            assert(v@ =~= dec_digits(n));
        }
        v
    } else {
        let mut v = u64_to_digits(n / 10);
        v.push(0x30 + (n % 10) as u8);
        proof {
            assert(v@ =~= dec_digits(n));
        }
        v
    }
}

/// Serializes one batch as a comma-joined decimal list, preserving the
/// input order, with no leading or trailing separator.
pub fn join_ids(ids: &Vec<u64>) -> (v: Vec<u8>)
    ensures
        v@ == spec_joined(ids@),
{
    let mut out: Vec<u8> = Vec::new();
    let n = ids.len();
    let mut i: usize = 0;
    while i < n
        invariant
            0 <= i <= n,
            n == ids@.len(),
            out@ == spec_joined(ids@.take(i as int)),
        decreases n - i,
    {
        let mut digits = u64_to_digits(ids[i]);
        let ghost before = out@;
        if i > 0 {
            out.push(COMMA);
        }
        out.append(&mut digits);
        proof {
            assert(ids@.take(i + 1).drop_last() =~= ids@.take(i as int));
            assert(ids@.take(i + 1).last() == ids@[i as int]);
            if i == 0 {
                assert(out@ =~= dec_digits(ids@[0]));
            } else {
                assert(out@ =~= before + seq![COMMA] + dec_digits(ids@[i as int]));
            }
        }
        i += 1;
    }
    proof {
        assert(ids@.take(i as int) =~= ids@);
    }
    out
}

/// Partitions `ids` sequentially into batches of at most `page`
/// identifiers, preserving the input order: exactly `ceil(n / page)`
/// batches, where batch `i` covers the index range from `i * page` up to
/// but excluding `min((i + 1) * page, n)`. Every identifier lands in
/// exactly one batch.
pub fn make_batches(ids: &Vec<u64>, page: usize) -> (r: Vec<Vec<u64>>)
    requires
        page >= 1,
    ensures
        r@.len() == spec_batch_count(ids@.len() as int, page as int),
        forall|i: int|
            0 <= i < r@.len() ==> #[trigger] r@[i]@ == spec_batch_of(ids@, page as int, i),
{
    let n = ids.len();
    let mut r: Vec<Vec<u64>> = Vec::new();
    let mut start: usize = 0;
    proof {
        assert(r@.len() * page == 0) by (nonlinear_arith)
            requires
                r@.len() == 0,
        ;
    }
    while start < n
        invariant
            page >= 1,
            n == ids@.len(),
            start <= n,
            start == min_int(r@.len() * page, n as int),
            r@.len() * page < n + page,
            forall|i: int|
                0 <= i < r@.len() ==> #[trigger] r@[i]@ == spec_batch_of(ids@, page as int, i),
        decreases n - start,
    {
        let ghost b = r@.len() as int;
        let ghost p = page as int;
        proof {
            assert(b * p == start);
            assert((b + 1) * p == b * p + p) by (nonlinear_arith);
        }
        let end = if n - start < page {
            n
        } else {
            start + page
        };
        assert(end == min_int((b + 1) * p, n as int));
        let mut chunk: Vec<u64> = Vec::new();
        let mut j = start;
        while j < end
            invariant
                start <= j <= end,
                end <= n,
                n == ids@.len(),
                chunk@ == ids@.subrange(start as int, j as int),
            decreases end - j,
        {
            chunk.push(ids[j]);
            proof {
                assert(chunk@ =~= ids@.subrange(start as int, j + 1));
            }
            j += 1;
        }
        proof {
            assert(chunk@ =~= spec_batch_of(ids@, p, b));
        }
        r.push(chunk);
        start = end;
    }
    proof {
        let b = r@.len() as int;
        let n = n as int;
        let p = page as int;
        assert(b * p >= n);
        assert(b * p < n + p);
        if n == 0 {
            assert(b == 0) by (nonlinear_arith)
                requires
                    p >= 1,
                    b * p < p,
                    b >= 0,
            ;
            assert(spec_batch_count(0, p) == (p - 1) / p);
            assert((p - 1) / p == 0) by (nonlinear_arith)
                requires
                    p >= 1,
            ;
        } else {
            assert((n + p - 1) / p == b) by (nonlinear_arith)
                requires
                    p >= 1,
                    b * p >= n,
                    b * p < n + p,
                    n > 0,
            ;
        }
    }
    r
}

/// Every submitted identifier appears in exactly one batch: index `k` of
/// the input stands at offset `k % p` of batch `k / p` and nowhere else,
/// since batch `i` covers exactly the index range from `i * p` up to
/// `min((i + 1) * p, n)` and those ranges are disjoint.
pub proof fn lemma_each_id_in_exactly_one_batch(ids: Seq<u64>, p: int, k: int)
    requires
        p >= 1,
        0 <= k < ids.len(),
    ensures
        ({
            let i = k / p;
            let j = k % p;
            &&& 0 <= i < spec_batch_count(ids.len() as int, p)
            &&& 0 <= j < spec_batch_of(ids, p, i).len()
            &&& spec_batch_of(ids, p, i)[j] == ids[k]
        }),
{
    let n = ids.len() as int;
    let i = k / p;
    let j = k % p;
    assert(k == i * p + j && 0 <= j < p && i >= 0) by (nonlinear_arith)
        requires
            p >= 1,
            k >= 0,
            i == k / p,
            j == k % p,
    ;
    assert(i * p <= k < (i + 1) * p) by (nonlinear_arith)
        requires
            k == i * p + j,
            0 <= j < p,
    ;
    assert(i < spec_batch_count(n, p)) by {
        assert(spec_batch_count(n, p) == (n + p - 1) / p);
        assert(i * p < n);
        assert((i + 1) * p <= n + p - 1) by (nonlinear_arith)
            requires
                i * p < n,
                p >= 1,
        ;
        assert(i < (n + p - 1) / p) by (nonlinear_arith)
            requires
                (i + 1) * p <= n + p - 1,
                p >= 1,
        ;
    }
    assert(spec_batch_of(ids, p, i).len() == min_int((i + 1) * p, n) - i * p);
    assert(spec_batch_of(ids, p, i)[j] == ids[i * p + j]);
}

/// Two distinct batches cover disjoint index ranges.
pub proof fn lemma_batches_disjoint(ids: Seq<u64>, p: int, i1: int, i2: int)
    requires
        p >= 1,
        0 <= i1 < i2,
    ensures
        (i1 + 1) * p <= i2 * p,
{
    assert((i1 + 1) * p <= i2 * p) by (nonlinear_arith)
        requires
            p >= 1,
            i1 + 1 <= i2,
    ;
}

} // verus!
