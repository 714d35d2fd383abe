//! Line index: a strictly increasing table of line-start byte offsets,
//! built once from raw text, and binary search from a byte offset to the
//! 1-based line that contains it.

use vstd::prelude::*;

verus! {

/// The line-start offsets of `text`: offset 0 (start of line 1), followed by
/// the offset just past every line-terminator byte, in scan order. A start is
/// emitted only where a terminator is actually observed, so text without
/// terminators yields exactly `[0]`.
pub open spec fn line_starts_of(text: Seq<u8>) -> Seq<usize>
    decreases text.len(),
{
    if text.len() == 0 {
        seq![0usize]
    } else {
        let pre = line_starts_of(text.drop_last());
        if text.last() == 10u8 {
            pre.push(text.len() as usize)
        } else {
            pre
        }
    }
}

/// A well-formed line index: non-empty, starts at offset 0, strictly
/// increasing.
pub open spec fn wf_line_index(starts: Seq<usize>) -> bool {
    &&& starts.len() >= 1
    &&& starts[0] == 0
    &&& forall|i: int, j: int| 0 <= i < j < starts.len() ==> starts[i] < starts[j]
}

/// The 1-based line number of byte offset `offset` under the index `starts`:
/// one more than the index of the last recorded start that does not exceed
/// `offset`, or 0 if no start qualifies.
pub open spec fn resolve_line(starts: Seq<usize>, offset: usize) -> int
    decreases starts.len(),
{
    if starts.len() == 0 {
        0
    } else if starts.last() <= offset {
        starts.len() as int
    } else {
        resolve_line(starts.drop_last(), offset)
    }
}

/// Every recorded start lies within the text, and the table is well formed.
pub proof fn lemma_line_starts_wf(text: Seq<u8>)
    requires
        text.len() <= usize::MAX,
    ensures
        wf_line_index(line_starts_of(text)),
        forall|i: int|
            0 <= i < line_starts_of(text).len() ==> #[trigger] line_starts_of(text)[i]
                <= text.len(),
    decreases text.len(),
{
    if text.len() == 0 {
    } else {
        lemma_line_starts_wf(text.drop_last());
    }
}

/// Law: text with no line terminators has the single-element index `[0]`.
pub proof fn lemma_no_terminator_single_line(text: Seq<u8>)
    requires
        forall|i: int| 0 <= i < text.len() ==> text[i] != 10u8,
    ensures
        line_starts_of(text) == seq![0usize],
    decreases text.len(),
{
    if text.len() == 0 {
    } else {
        lemma_no_terminator_single_line(text.drop_last());
    }
}

/// `resolve_line` is the unique cut point of a sorted index: if the starts
/// below `k` are all at most `offset` and the starts from `k` on all exceed
/// it, the resolved line is `k`.
pub proof fn lemma_resolve_line_unique(starts: Seq<usize>, offset: usize, k: int)
    requires
        forall|i: int, j: int| 0 <= i < j < starts.len() ==> starts[i] < starts[j],
        0 <= k <= starts.len(),
        forall|i: int| 0 <= i < k ==> starts[i] <= offset,
        forall|i: int| k <= i < starts.len() ==> starts[i] > offset,
    ensures
        resolve_line(starts, offset) == k,
    decreases starts.len(),
{
    if starts.len() == 0 {
    } else if starts.last() <= offset {
        assert(k == starts.len());
    } else {
        assert(k < starts.len());
        lemma_resolve_line_unique(starts.drop_last(), offset, k);
    }
}

/// The index records exactly the positions after terminators: a nonzero
/// offset `k` is a recorded line start if and only if the byte just before
/// it is a line terminator.
pub proof fn lemma_line_starts_characterize(text: Seq<u8>, k: usize)
    requires
        text.len() <= usize::MAX,
        1 <= k <= text.len(),
    ensures
        line_starts_of(text).contains(k) <==> text[k - 1] == 10u8,
    decreases text.len(),
{
    lemma_line_starts_wf(text);
    let starts = line_starts_of(text);
    let pre = line_starts_of(text.drop_last());
    lemma_line_starts_wf(text.drop_last());
    if k == text.len() {
        if text.last() == 10u8 {
            assert(starts.last() == k);
            assert(starts.contains(k));
        } else {
            assert(starts == pre);
            assert forall|i: int| 0 <= i < pre.len() implies pre[i] != k by {}
        }
    } else {
        lemma_line_starts_characterize(text.drop_last(), k);
        assert(text.drop_last()[k - 1] == text[k - 1]);
        if text.last() == 10u8 {
            assert(starts == pre.push(text.len() as usize));
            if pre.contains(k) {
                let i = choose|i: int| 0 <= i < pre.len() && pre[i] == k;
                assert(starts[i] == k);
                assert(starts.contains(k));
            }
            if starts.contains(k) {
                let i = choose|i: int| 0 <= i < starts.len() && starts[i] == k;
                assert(i < pre.len());
                assert(pre.contains(k));
            }
        } else {
            assert(starts == pre);
        }
    }
}

/// A resolved line never exceeds the index's length.
pub proof fn lemma_resolve_line_bounds(starts: Seq<usize>, offset: usize)
    ensures
        0 <= resolve_line(starts, offset) <= starts.len(),
    decreases starts.len(),
{
    if starts.len() == 0 {
    } else if starts.last() <= offset {
    } else {
        lemma_resolve_line_bounds(starts.drop_last(), offset);
    }
}

/// Under a well-formed index every offset resolves to at least line 1: the
/// start at offset 0 never exceeds the offset.
pub proof fn lemma_resolve_line_positive(starts: Seq<usize>, offset: usize)
    requires
        wf_line_index(starts),
    ensures
        resolve_line(starts, offset) >= 1,
    decreases starts.len(),
{
    if starts.last() <= offset {
    } else {
        assert(starts.len() >= 2);
        lemma_resolve_line_positive(starts.drop_last(), offset);
    }
}

/// Resolution is monotonic in the offset.
pub proof fn lemma_resolve_line_monotonic(starts: Seq<usize>, o1: usize, o2: usize)
    requires
        o1 <= o2,
    ensures
        resolve_line(starts, o1) <= resolve_line(starts, o2),
    decreases starts.len(),
{
    if starts.len() == 0 {
    } else if starts.last() <= o1 {
    } else if starts.last() > o2 {
        lemma_resolve_line_monotonic(starts.drop_last(), o1, o2);
    } else {
        lemma_resolve_line_bounds(starts.drop_last(), o1);
    }
}

/// Law: offset 0 always resolves to line 1.
pub proof fn lemma_resolve_zero(text: Seq<u8>)
    requires
        text.len() <= usize::MAX,
    ensures
        resolve_line(line_starts_of(text), 0) == 1,
{
    lemma_line_starts_wf(text);
    let starts = line_starts_of(text);
    assert(forall|i: int| 1 <= i < starts.len() ==> #[trigger] starts[i] > starts[0]);
    lemma_resolve_line_unique(starts, 0, 1);
}

/// Law: the start recorded at index `i` resolves to line `i + 1`.
pub proof fn lemma_resolve_line_start(text: Seq<u8>, i: int)
    requires
        text.len() <= usize::MAX,
        0 <= i < line_starts_of(text).len(),
    ensures
        resolve_line(line_starts_of(text), line_starts_of(text)[i]) == i + 1,
{
    lemma_line_starts_wf(text);
    lemma_resolve_line_unique(line_starts_of(text), line_starts_of(text)[i], i + 1);
}

/// Build the line index of `text` by a single left-to-right scan for
/// line-terminator bytes.
pub fn build_line_starts(text: &[u8]) -> (starts: Vec<usize>)
    ensures
        starts@ == line_starts_of(text@),
{
    let n = text.len();
    // Pre-size from an average-line-length heuristic to avoid reallocation.
    let mut starts: Vec<usize> = Vec::with_capacity(n / 30 + 1);
    starts.push(0);
    assert(starts@ =~= line_starts_of(text@.subrange(0, 0)));
    let mut i: usize = 0;
    while i < n
        invariant
            n == text@.len(),
            0 <= i <= n,
            starts@ == line_starts_of(text@.subrange(0, i as int)),
        decreases n - i,
    {
        proof {
            assert(text@.subrange(0, i + 1).drop_last() =~= text@.subrange(0, i as int));
            assert(text@.subrange(0, i + 1).last() == text@[i as int]);
        }
        if text[i] == 10 {
            starts.push(i + 1);
        }
        i += 1;
    }
    proof {
        assert(text@.subrange(0, n as int) =~= text@);
    }
    starts
}

/// Resolve a byte offset to its 1-based line number by binary search over the
/// line index.
pub fn offset_to_line_binary(line_starts: &[usize], offset: usize) -> (line: usize)
    requires
        wf_line_index(line_starts@),
    ensures
        line == resolve_line(line_starts@, offset),
        1 <= line <= line_starts@.len(),
{
    let n = line_starts.len();
    let mut lo: usize = 0;
    let mut hi: usize = n;
    while lo < hi
        invariant
            n == line_starts@.len(),
            0 <= lo <= hi <= n,
            wf_line_index(line_starts@),
            forall|i: int| 0 <= i < lo ==> line_starts@[i] <= offset,
            forall|i: int| hi <= i < n ==> line_starts@[i] > offset,
        decreases hi - lo,
    {
        let mid = lo + (hi - lo) / 2;
        if line_starts[mid] <= offset {
            lo = mid + 1;
        } else {
            hi = mid;
        }
    }
    proof {
        lemma_resolve_line_unique(line_starts@, offset, lo as int);
    }
    lo
}

} // verus!
