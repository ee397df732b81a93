use vstd::prelude::*;

verus! {

/// Number of 32-byte blocks that make up tile memory.
pub const BLOCK_COUNT: usize = 1024;

/// State of one block of tile memory.
///
/// The first block of an allocation holds the allocation's single reference count and its length
/// in blocks; the blocks after it are `Continue`.
#[derive(Clone, Copy, Debug, PartialEq, Eq, Structural)]
pub enum BlockState {
    Unused,
    Used { refs: u32, len: usize },
    Continue,
}

/// `n` blocks starting at `start` lie inside the arena and are all unused.
pub open spec fn run_is_free(blocks: Seq<BlockState>, start: int, n: int) -> bool {
    &&& 0 <= start
    &&& start + n <= blocks.len()
    &&& forall|j: int| start <= j < start + n ==> blocks[j] is Unused
}

/// `start` is the lowest index that begins a free run of `n` blocks.
pub open spec fn is_first_fit(blocks: Seq<BlockState>, n: int, start: int) -> bool {
    &&& run_is_free(blocks, start, n)
    &&& forall|k: int| 0 <= k < start ==> !run_is_free(blocks, k, n)
}

/// No free run of `n` blocks exists anywhere in the arena.
pub open spec fn no_fit(blocks: Seq<BlockState>, n: int) -> bool {
    forall|k: int| !run_is_free(blocks, k, n)
}

/// The lowest index that begins a free run of `n` blocks (meaningful only where one exists).
pub open spec fn first_fit(blocks: Seq<BlockState>, n: int) -> int {
    choose|s: int| is_first_fit(blocks, n, s)
}

pub proof fn lemma_first_fit(blocks: Seq<BlockState>, n: int, s: int)
    requires
        is_first_fit(blocks, n, s),
    ensures
        first_fit(blocks, n) == s,
{
    let c = first_fit(blocks, n);
    assert(is_first_fit(blocks, n, c));
    if c < s {
        assert(!run_is_free(blocks, c, n));
    } else if s < c {
        assert(!run_is_free(blocks, s, n));
    }
}

/// Where some free run of `n` blocks exists, a lowest one exists too.
pub proof fn lemma_first_fit_exists(blocks: Seq<BlockState>, n: int, k: int)
    requires
        run_is_free(blocks, k, n),
    ensures
        is_first_fit(blocks, n, first_fit(blocks, n)),
    decreases k,
{
    if exists|j: int| 0 <= j < k && run_is_free(blocks, j, n) {
        let j = choose|j: int| 0 <= j < k && run_is_free(blocks, j, n);
        lemma_first_fit_exists(blocks, n, j);
    } else {
        assert(is_first_fit(blocks, n, k));
    }
}

/// The arena after a fresh allocation of `n` blocks at `start`, with one reference.
pub open spec fn marked(blocks: Seq<BlockState>, start: int, n: int) -> Seq<BlockState> {
    Seq::new(
        blocks.len(),
        |j: int|
            if j == start {
                BlockState::Used { refs: 1, len: n as usize }
            } else if start < j < start + n {
                BlockState::Continue
            } else {
                blocks[j]
            },
    )
}

/// The arena after the `n` blocks at `start` are returned to the pool.
pub open spec fn released(blocks: Seq<BlockState>, start: int, n: int) -> Seq<BlockState> {
    Seq::new(blocks.len(), |j: int| if start <= j < start + n { BlockState::Unused } else { blocks[j] })
}

/// Which blocks are taken, block by block.
pub open spec fn occupancy(blocks: Seq<BlockState>) -> Seq<bool> {
    blocks.map_values(|b: BlockState| !(b is Unused))
}

/// First-fit search: the lowest index that begins a run of at least `n` unused blocks.
pub fn find_contiguous_free(blocks: &Vec<BlockState>, n: usize) -> (r: Option<usize>)
    requires
        n >= 1,
    ensures
        match r {
            Some(start) => is_first_fit(blocks@, n as int, start as int),
            None => no_fit(blocks@, n as int),
        },
{
    let mut run_start: usize = 0;
    let mut run_len: usize = 0;
    let mut i: usize = 0;
    while i < blocks.len()
        invariant
            i <= blocks.len(),
            run_len < n,
            run_start + run_len == i,
            forall|j: int| run_start <= j < i ==> blocks@[j] is Unused,
            run_start == 0 || !(blocks@[run_start - 1] is Unused),
            forall|k: int| 0 <= k && k + n <= i ==> !run_is_free(blocks@, k, n as int),
        decreases blocks.len() - i,
    {
        if blocks[i] == BlockState::Unused {
            run_len = run_len + 1;
            if run_len >= n {
                proof {
                    assert forall|k: int| 0 <= k < run_start implies !run_is_free(
                        blocks@,
                        k,
                        n as int,
                    ) by {
                        assert(k + n <= i);
                    }
                }
                return Some(run_start);
            }
        } else {
            run_len = 0;
            run_start = i + 1;
        }
        i = i + 1;
        proof {
            assert forall|k: int| 0 <= k && k + n <= i implies !run_is_free(
                blocks@,
                k,
                n as int,
            ) by {
                if k + n == i {
                    if !(blocks@[i - 1] is Unused) {
                        assert(!(blocks@[i - 1] is Unused));
                    } else {
                        assert(run_start > k);
                        assert(!(blocks@[run_start - 1] is Unused));
                    }
                }
            }
        }
    }
    proof {
        assert forall|k: int| !run_is_free(blocks@, k, n as int) by {
            if 0 <= k && k + n <= blocks@.len() {
                assert(k + n <= i);
            }
        }
    }
    None
}

/// Marks `n` free blocks at `start` as one allocation with a single reference.
pub fn mark_allocated(blocks: &mut Vec<BlockState>, start: usize, n: usize)
    requires
        n >= 1,
        run_is_free(old(blocks)@, start as int, n as int),
    ensures
        final(blocks)@ == marked(old(blocks)@, start as int, n as int),
{
    blocks.set(start, BlockState::Used { refs: 1, len: n });
    let mut i: usize = 1;
    while i < n
        invariant
            1 <= i <= n,
            start + n <= blocks.len(),
            blocks@.len() == old(blocks)@.len(),
            forall|j: int|
                0 <= j < blocks@.len() ==> blocks@[j] == (if j == start {
                    BlockState::Used { refs: 1, len: n }
                } else if start < j < start + i {
                    BlockState::Continue
                } else {
                    old(blocks)@[j]
                }),
        decreases n - i,
    {
        blocks.set(start + i, BlockState::Continue);
        i = i + 1;
    }
    assert(blocks@ =~= marked(old(blocks)@, start as int, n as int));
}

/// Returns the `n` blocks at `start` to the pool.
pub fn release_run(blocks: &mut Vec<BlockState>, start: usize, n: usize)
    requires
        start + n <= old(blocks)@.len(),
    ensures
        final(blocks)@ == released(old(blocks)@, start as int, n as int),
{
    let mut i: usize = 0;
    while i < n
        invariant
            0 <= i <= n,
            start + n <= blocks.len(),
            blocks@.len() == old(blocks)@.len(),
            forall|j: int|
                0 <= j < blocks@.len() ==> blocks@[j] == (if start <= j < start + i {
                    BlockState::Unused
                } else {
                    old(blocks)@[j]
                }),
        decreases n - i,
    {
        blocks.set(start + i, BlockState::Unused);
        i = i + 1;
    }
    assert(blocks@ =~= released(old(blocks)@, start as int, n as int));
}

} // verus!
