use vstd::prelude::*;

verus! {

/// `offset` rounded up to a multiple of `align`.
pub open spec fn align_up(offset: int, align: int) -> int {
    ((offset + align - 1) / align) * align
}

/// Where a bump allocator whose next free byte is `offset` places `size`
/// bytes aligned to `align` in a pool of `pool` bytes: the start (the
/// offset rounded up to the alignment) and the new next free byte, or
/// `None` when the block would run past the pool.
pub fn bump_place(offset: usize, align: usize, size: usize, pool: usize) -> (r: Option<(usize, usize)>)
    requires
        align > 0,
        offset + align - 1 <= usize::MAX,
    ensures
        match r {
            Some((start, end)) => {
                &&& start == align_up(offset as int, align as int)
                &&& end == start + size
                &&& end <= pool
            },
            None => align_up(offset as int, align as int) + size > pool,
        },
        match r {
            Some((start, end)) => placed(offset as int, align as int, size as int, pool as int) == Some((start as int, end as int)),
            None => placed(offset as int, align as int, size as int, pool as int) is None,
        },
{
    let v = offset + (align - 1);
    assert((v / align) * align <= v) by (nonlinear_arith)
        requires align > 0;
    let aligned = (v / align) * align;
    if aligned > pool || size > pool - aligned {
        return None;
    }
    Some((aligned, aligned + size))
}

/// A placed block starts on the alignment, at or after the offset and
/// less than one alignment step after it.
pub proof fn law_bump_aligned(offset: int, align: int)
    requires
        0 <= offset,
        0 < align,
    ensures
        align_up(offset, align) % align == 0,
        offset <= align_up(offset, align) < offset + align,
{
    let v = offset + align - 1;
    vstd::arithmetic::div_mod::lemma_fundamental_div_mod(v, align);
    vstd::arithmetic::div_mod::lemma_mod_multiples_basic(v / align, align);
    assert((v / align) * align == align * (v / align)) by (nonlinear_arith);
}

/// The block a bump allocator whose next free byte is `offset` gives to a
/// request for `size` bytes aligned to `align` in a pool of `pool` bytes
/// (its start and end, as [`bump_place`] computes them), or `None`.
pub open spec fn placed(offset: int, align: int, size: int, pool: int) -> Option<(int, int)> {
    let start = align_up(offset, align);
    if start + size <= pool {
        Some((start, start + size))
    } else {
        None
    }
}

/// The next free byte after such a request: the block's end, or `offset`
/// again when it is refused.
pub open spec fn next_free(offset: int, align: int, size: int, pool: int) -> int {
    match placed(offset, align, size, pool) {
        Some((_, end)) => end,
        None => offset,
    }
}

/// The next free byte after the requests `reqs` (each an alignment and a
/// size) have been made in turn, from `offset` on.
pub open spec fn run_offset(offset: int, reqs: Seq<(int, int)>, pool: int) -> int
    decreases reqs.len(),
{
    if reqs.len() == 0 {
        offset
    } else {
        let r = reqs.last();
        next_free(run_offset(offset, reqs.drop_last(), pool), r.0, r.1, pool)
    }
}

/// The block request `i` of `reqs` gets: it is placed at the next free byte
/// the earlier requests left.
pub open spec fn run_block(offset: int, reqs: Seq<(int, int)>, pool: int, i: int) -> Option<(int, int)> {
    placed(run_offset(offset, reqs.take(i), pool), reqs[i].0, reqs[i].1, pool)
}

/// Whether every request has a positive alignment and a size of at least 0.
pub open spec fn valid_requests(reqs: Seq<(int, int)>) -> bool {
    forall|k: int| 0 <= k < reqs.len() ==> #[trigger] reqs[k].0 > 0 && reqs[k].1 >= 0
}

/// The next free byte never goes back: it is at least `offset`, and after
/// `k2` requests at least where it was after `k1 <= k2`.
proof fn lemma_run_grows(offset: int, reqs: Seq<(int, int)>, pool: int, k1: int, k2: int)
    requires
        0 <= offset,
        valid_requests(reqs),
        0 <= k1 <= k2 <= reqs.len(),
    ensures
        offset <= run_offset(offset, reqs.take(k1), pool) <= run_offset(offset, reqs.take(k2), pool),
    decreases k2, k1,
{
    if k2 == 0 {
        assert(reqs.take(0) =~= Seq::<(int, int)>::empty());
    } else if k1 == k2 {
        lemma_run_grows(offset, reqs, pool, 0, k1);
    } else {
        lemma_run_grows(offset, reqs, pool, k1, k2 - 1);
        assert(reqs.take(k2).drop_last() =~= reqs.take(k2 - 1));
        let o = run_offset(offset, reqs.take(k2 - 1), pool);
        let r = reqs[k2 - 1];
        assert(r.0 > 0 && r.1 >= 0);
        law_bump_aligned(o, r.0);
    }
}

/// The blocks a bump allocator hands out over a run of requests lie in the
/// pool, each starts on its alignment, and a later block starts at or after
/// the end of an earlier one, so no two overlap (freed memory is never
/// handed out again).
pub proof fn law_bump_blocks_disjoint(offset: int, reqs: Seq<(int, int)>, pool: int, i: int, j: int)
    requires
        0 <= offset,
        valid_requests(reqs),
        0 <= i < j < reqs.len(),
        run_block(offset, reqs, pool, i) is Some,
        run_block(offset, reqs, pool, j) is Some,
    ensures
        ({
            let (si, ei) = run_block(offset, reqs, pool, i)->0;
            let (sj, ej) = run_block(offset, reqs, pool, j)->0;
            &&& 0 <= si <= ei <= sj <= ej <= pool
            &&& si % reqs[i].0 == 0 && sj % reqs[j].0 == 0
        }),
{
    let oi = run_offset(offset, reqs.take(i), pool);
    let oj = run_offset(offset, reqs.take(j), pool);
    lemma_run_grows(offset, reqs, pool, i, i + 1);
    lemma_run_grows(offset, reqs, pool, i + 1, j);
    assert(reqs.take(i + 1).drop_last() =~= reqs.take(i));
    assert(reqs[i].0 > 0 && reqs[i].1 >= 0);
    assert(reqs[j].0 > 0 && reqs[j].1 >= 0);
    law_bump_aligned(oi, reqs[i].0);
    law_bump_aligned(oj, reqs[j].0);
}

} // verus!
