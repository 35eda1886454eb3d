//! How a file of known size is cut into chunks, which of them are still
//! missing, and how many bytes the finished ones hold.

use vstd::arithmetic::div_mod::{
    lemma_div_is_ordered, lemma_div_is_ordered_by_denominator, lemma_fundamental_div_mod,
    lemma_fundamental_div_mod_converse,
};
use vstd::arithmetic::mul::{
    lemma_mul_inequality, lemma_mul_is_commutative, lemma_mul_is_distributive_add_other_way,
};
use vstd::prelude::*;

use crate::types::Segment;

verus! {

/// The smaller of two numbers.
pub open spec fn least(a: int, b: int) -> int {
    if a <= b {
        a
    } else {
        b
    }
}

/// The number of chunks of `chunk_size` bytes that `total_size` bytes need.
pub open spec fn chunks_needed(total_size: int, chunk_size: int) -> int {
    if total_size == 0 {
        0
    } else {
        (total_size + chunk_size - 1) / chunk_size
    }
}

/// The number of bytes before chunk `index`.
pub open spec fn bytes_before(index: int, total_size: int, chunk_size: int) -> int {
    least(index * chunk_size, total_size)
}

/// The number of bytes in chunk `index`: `chunk_size`, but for a last chunk
/// that the end of the file cuts short, and nothing past the end.
pub open spec fn chunk_len(index: int, total_size: int, chunk_size: int) -> int {
    if index * chunk_size >= total_size {
        0
    } else {
        least(chunk_size, total_size - index * chunk_size)
    }
}

/// Chunk `index` is marked as finished.
pub open spec fn is_finished(completed: Seq<bool>, index: int) -> bool {
    0 <= index < completed.len() && completed[index]
}

/// The byte range of chunk `index`, both ends included.
pub open spec fn segment_at(index: int, total_size: int, chunk_size: int) -> Segment {
    Segment {
        index: index as usize,
        start: (index * chunk_size) as u64,
        end: (index * chunk_size + chunk_len(index, total_size, chunk_size) - 1) as u64,
    }
}

/// The segments of the first `n` chunks that are not finished, in order.
pub open spec fn missing_segments(
    completed: Seq<bool>,
    n: nat,
    total_size: int,
    chunk_size: int,
) -> Seq<Segment>
    decreases n,
{
    if n == 0 {
        Seq::empty()
    } else {
        let before = missing_segments(completed, (n - 1) as nat, total_size, chunk_size);
        if is_finished(completed, n - 1) {
            before
        } else {
            before.push(segment_at(n - 1, total_size, chunk_size))
        }
    }
}

/// The number of bytes in the finished chunks.
pub open spec fn finished_bytes(completed: Seq<bool>, total_size: int, chunk_size: int) -> int
    decreases completed.len(),
{
    if completed.len() == 0 {
        0
    } else {
        finished_bytes(completed.drop_last(), total_size, chunk_size) + if completed.last() {
            chunk_len(completed.len() - 1, total_size, chunk_size)
        } else {
            0
        }
    }
}

/// The number of finished chunks.
pub open spec fn finished_count(completed: Seq<bool>) -> nat
    decreases completed.len(),
{
    if completed.len() == 0 {
        0
    } else {
        finished_count(completed.drop_last()) + if completed.last() {
            1nat
        } else {
            0nat
        }
    }
}

/// The number of bytes in a list of segments.
pub open spec fn segments_bytes(segments: Seq<Segment>) -> int
    decreases segments.len(),
{
    if segments.len() == 0 {
        0
    } else {
        segments_bytes(segments.drop_last()) + (segments.last().end - segments.last().start + 1)
    }
}

/// The number of finished chunks before the first one that is not.
pub open spec fn leading_finished(completed: Seq<bool>) -> nat
    decreases completed.len(),
{
    if completed.len() == 0 || !completed[0] {
        0
    } else {
        1 + leading_finished(completed.skip(1))
    }
}

proof fn lemma_bytes_before_step(index: int, total_size: int, chunk_size: int)
    requires
        0 <= total_size,
        0 <= chunk_size,
        0 <= index,
    ensures
        bytes_before(index + 1, total_size, chunk_size) == bytes_before(
            index,
            total_size,
            chunk_size,
        ) + chunk_len(index, total_size, chunk_size),
        0 <= index * chunk_size,
        (index + 1) * chunk_size == index * chunk_size + chunk_size,
{
    lemma_mul_is_distributive_add_other_way(chunk_size, index, 1);
    lemma_mul_inequality(0, index, chunk_size);
}

/// The chunks before `chunks_needed` start within the file, and together they
/// reach its end.
pub proof fn lemma_chunks_needed(total_size: int, chunk_size: int)
    requires
        0 <= total_size,
        0 < chunk_size,
    ensures
        0 <= chunks_needed(total_size, chunk_size),
        chunks_needed(total_size, chunk_size) <= total_size,
        chunks_needed(total_size, chunk_size) * chunk_size >= total_size,
        forall|i: int|
            0 <= i < chunks_needed(total_size, chunk_size) ==> #[trigger] (i * chunk_size)
                < total_size,
{
    let n = chunks_needed(total_size, chunk_size);
    if total_size > 0 {
        let sum = total_size + chunk_size - 1;
        lemma_fundamental_div_mod(sum, chunk_size);
        lemma_mul_is_commutative(chunk_size, n);
        assert(n * chunk_size <= sum < n * chunk_size + chunk_size);
        assert(n >= 1) by {
            if n <= 0 {
                lemma_mul_inequality(n, 0, chunk_size);
            }
        }
        assert(n <= total_size) by {
            if n > total_size {
                assert((n - 1) * chunk_size >= (n - 1) * 1) by (nonlinear_arith)
                    requires
                        n >= 1,
                        chunk_size >= 1,
                ;
                lemma_mul_is_distributive_add_other_way(chunk_size, n - 1, 1);
            }
        }
        assert forall|i: int| 0 <= i < n implies #[trigger] (i * chunk_size) < total_size by {
            lemma_mul_inequality(i, n - 1, chunk_size);
            lemma_mul_is_distributive_add_other_way(chunk_size, n - 1, 1);
        }
    }
}

/// The number of chunks of `chunk_size` bytes that `total_size` bytes need.
pub fn chunk_count(total_size: u64, chunk_size: u64) -> (n: usize)
    requires
        total_size > 0 ==> chunk_size > 0,
        chunks_needed(total_size as int, chunk_size as int) <= usize::MAX,
    ensures
        n == chunks_needed(total_size as int, chunk_size as int),
{
    if total_size == 0 {
        return 0;
    }
    let whole: u64 = total_size / chunk_size;
    let rest: u64 = total_size % chunk_size;
    proof {
        let t = total_size as int;
        let c = chunk_size as int;
        lemma_fundamental_div_mod(t, c);
        lemma_mul_is_commutative(c, t / c);
        if rest == 0 {
            lemma_fundamental_div_mod_converse(t + c - 1, c, t / c, c - 1);
        } else {
            lemma_mul_is_distributive_add_other_way(c, t / c, 1);
            lemma_fundamental_div_mod_converse(t + c - 1, c, t / c + 1, rest - 1);
        }
    }
    if rest == 0 {
        whole as usize
    } else {
        whole as usize + 1
    }
}

/// The number of bytes in chunk `index`; zero past the end of the file.
pub fn segment_len(index: usize, total_size: u64, chunk_size: u64) -> (len: u64)
    ensures
        len == chunk_len(index as int, total_size as int, chunk_size as int),
{
    match (index as u64).checked_mul(chunk_size) {
        None => 0,
        Some(start) => if start >= total_size {
            0
        } else if chunk_size <= total_size - start {
            chunk_size
        } else {
            total_size - start
        },
    }
}

/// The segments that are still to be fetched, in the order of the file.
pub fn build_segments(total_size: u64, chunk_size: u64, completed: &[bool]) -> (segments: Vec<
    Segment,
>)
    requires
        total_size > 0 ==> chunk_size > 0,
        chunks_needed(total_size as int, chunk_size as int) <= usize::MAX,
    ensures
        segments@ == missing_segments(
            completed@,
            chunks_needed(total_size as int, chunk_size as int) as nat,
            total_size as int,
            chunk_size as int,
        ),
{
    let n: usize = chunk_count(total_size, chunk_size);
    let mut segments: Vec<Segment> = Vec::new();
    let mut index: usize = 0;
    while index < n
        invariant
            index <= n,
            n > 0 ==> chunk_size > 0,
            n == chunks_needed(total_size as int, chunk_size as int),
            segments@ == missing_segments(
                completed@,
                index as nat,
                total_size as int,
                chunk_size as int,
            ),
        decreases n - index,
    {
        let finished = index < completed.len() && completed[index];
        if !finished {
            proof {
                lemma_chunks_needed(total_size as int, chunk_size as int);
                lemma_bytes_before_step(index as int, total_size as int, chunk_size as int);
                assert(index * chunk_size < total_size);
            }
            let start: u64 = index as u64 * chunk_size;
            let len: u64 = segment_len(index, total_size, chunk_size);
            segments.push(Segment { index, start, end: start + len - 1 });
        }
        index += 1;
    }
    segments
}

/// How many bytes the finished chunks hold.
pub fn completed_total(completed: &[bool], total_size: u64, chunk_size: u64) -> (bytes: u64)
    ensures
        bytes == finished_bytes(completed@, total_size as int, chunk_size as int),
        bytes <= total_size,
{
    let mut bytes: u64 = 0;
    let mut index: usize = 0;
    while index < completed.len()
        invariant
            index <= completed@.len(),
            bytes == finished_bytes(
                completed@.take(index as int),
                total_size as int,
                chunk_size as int,
            ),
            bytes <= bytes_before(index as int, total_size as int, chunk_size as int),
        decreases completed@.len() - index,
    {
        proof {
            let done = completed@.take(index + 1);
            assert(done.drop_last() =~= completed@.take(index as int));
            lemma_bytes_before_step(index as int, total_size as int, chunk_size as int);
        }
        if completed[index] {
            bytes = bytes + segment_len(index, total_size, chunk_size);
        }
        index += 1;
    }
    assert(completed@.take(index as int) =~= completed@);
    bytes
}

/// How many chunks are finished.
pub fn count_finished(completed: &[bool]) -> (n: usize)
    ensures
        n == finished_count(completed@),
        n <= completed@.len(),
{
    let mut n: usize = 0;
    let mut index: usize = 0;
    while index < completed.len()
        invariant
            n <= index <= completed@.len(),
            n == finished_count(completed@.take(index as int)),
        decreases completed@.len() - index,
    {
        assert(completed@.take(index + 1).drop_last() =~= completed@.take(index as int));
        if completed[index] {
            n += 1;
        }
        index += 1;
    }
    assert(completed@.take(index as int) =~= completed@);
    n
}

/// How many bytes stand, without a gap, at the start of a file of which the
/// given chunks are finished.
pub fn contiguous_completed_bytes(completed_chunks: &[bool], total_size: u64, chunk_size: u64)
    -> (bytes: u64)
    ensures
        bytes == bytes_before(
            leading_finished(completed_chunks@) as int,
            total_size as int,
            chunk_size as int,
        ),
{
    let mut bytes: u64 = 0;
    let mut index: usize = 0;
    assert(completed_chunks@.skip(0) =~= completed_chunks@);
    while index < completed_chunks.len() && completed_chunks[index]
        invariant
            index <= completed_chunks@.len(),
            leading_finished(completed_chunks@) == index + leading_finished(
                completed_chunks@.skip(index as int),
            ),
            bytes == bytes_before(index as int, total_size as int, chunk_size as int),
        decreases completed_chunks@.len() - index,
    {
        proof {
            assert(completed_chunks@.skip(index as int).skip(1) =~= completed_chunks@.skip(
                index + 1,
            ));
            lemma_bytes_before_step(index as int, total_size as int, chunk_size as int);
        }
        bytes = bytes + segment_len(index, total_size, chunk_size);
        index += 1;
    }
    bytes
}

/// No more chunks are finished than there are, and as many only when each one
/// is.
pub(crate) proof fn lemma_finished_count(completed: Seq<bool>)
    ensures
        finished_count(completed) <= completed.len(),
        finished_count(completed) == completed.len() ==> forall|i: int|
            0 <= i < completed.len() ==> #[trigger] completed[i],
    decreases completed.len(),
{
    if completed.len() > 0 {
        let before = completed.drop_last();
        lemma_finished_count(before);
        if finished_count(completed) == completed.len() {
            assert forall|i: int| 0 <= i < completed.len() implies #[trigger] completed[i] by {
                if i < before.len() {
                    assert(before[i]);
                }
            }
        }
    }
}

/// Finishing a chunk adds one to their number.
pub(crate) proof fn lemma_finish_one(completed: Seq<bool>, index: int)
    requires
        0 <= index < completed.len(),
        !completed[index],
    ensures
        finished_count(completed.update(index, true)) == finished_count(completed) + 1,
    decreases completed.len(),
{
    let after = completed.update(index, true);
    if index == completed.len() - 1 {
        assert(after.drop_last() =~= completed.drop_last());
    } else {
        lemma_finish_one(completed.drop_last(), index);
        assert(after.drop_last() =~= completed.drop_last().update(index, true));
    }
}

/// Each chunk is finished or to be fetched.
pub(crate) proof fn lemma_missing_count(
    completed: Seq<bool>,
    n: nat,
    total_size: int,
    chunk_size: int,
)
    requires
        n <= completed.len(),
    ensures
        missing_segments(completed, n, total_size, chunk_size).len() + finished_count(
            completed.take(n as int),
        ) == n,
    decreases n,
{
    if n > 0 {
        lemma_missing_count(completed, (n - 1) as nat, total_size, chunk_size);
        assert(completed.take(n as int).drop_last() =~= completed.take(n - 1));
    } else {
        assert(completed.take(0).len() == 0);
    }
}

/// The sizes of a file and its chunks are ones that the segments can name.
pub open spec fn sizes_fit(total_size: int, chunk_size: int) -> bool {
    &&& 0 <= total_size <= u64::MAX
    &&& 0 < chunk_size <= u64::MAX
    &&& chunks_needed(total_size, chunk_size) <= usize::MAX
}

/// A chunk of the file: its segment spans exactly the chunk's bytes.
pub proof fn lemma_segment_at(index: int, total_size: int, chunk_size: int)
    requires
        sizes_fit(total_size, chunk_size),
        0 <= index < chunks_needed(total_size, chunk_size),
    ensures
        ({
            let segment = segment_at(index, total_size, chunk_size);
            &&& segment.index == index
            &&& segment.start == index * chunk_size == bytes_before(index, total_size, chunk_size)
            &&& segment.end + 1 == bytes_before(index + 1, total_size, chunk_size)
            &&& segment.start <= segment.end < total_size
            &&& segment.end - segment.start + 1 == chunk_len(index, total_size, chunk_size)
        }),
{
    lemma_chunks_needed(total_size, chunk_size);
    lemma_bytes_before_step(index, total_size, chunk_size);
    assert(index * chunk_size < total_size);
}

/// What the segments to fetch are, one by one.
pub(crate) proof fn lemma_missing_members(completed: Seq<bool>, n: nat, total_size: int, chunk_size: int)
    requires
        sizes_fit(total_size, chunk_size),
        n <= chunks_needed(total_size, chunk_size),
    ensures
        ({
            let segments = missing_segments(completed, n, total_size, chunk_size);
            &&& segments.len() <= n
            &&& forall|k: int|
                0 <= k < segments.len() ==> {
                    let index = (#[trigger] segments[k]).index;
                    &&& index < n
                    &&& !is_finished(completed, index as int)
                    &&& segments[k] == segment_at(index as int, total_size, chunk_size)
                }
            &&& forall|a: int, b: int|
                0 <= a < b < segments.len() ==> (#[trigger] segments[a]).index < (
                #[trigger] segments[b]).index
            &&& forall|i: int|
                0 <= i < n && !is_finished(completed, i) ==> segments.contains(
                    #[trigger] segment_at(i, total_size, chunk_size),
                )
        }),
    decreases n,
{
    if n > 0 {
        let last = n - 1;
        lemma_missing_members(completed, last as nat, total_size, chunk_size);
        lemma_segment_at(last, total_size, chunk_size);
        let before = missing_segments(completed, last as nat, total_size, chunk_size);
        let segments = missing_segments(completed, n, total_size, chunk_size);
        assert forall|i: int| 0 <= i < n && !is_finished(completed, i) implies segments.contains(
            #[trigger] segment_at(i, total_size, chunk_size),
        ) by {
            if i < last {
                let k = before.index_of(segment_at(i, total_size, chunk_size));
                assert(before.contains(segment_at(i, total_size, chunk_size)));
                assert(segments[k] == before[k]);
            } else {
                assert(segments[segments.len() - 1] == segment_at(last, total_size, chunk_size));
            }
        }
    }
}

proof fn lemma_bytes_before_ordered(a: int, b: int, total_size: int, chunk_size: int)
    requires
        a <= b,
        0 < chunk_size,
    ensures
        bytes_before(a, total_size, chunk_size) <= bytes_before(b, total_size, chunk_size),
{
    lemma_mul_inequality(a, b, chunk_size);
}

/// The segments to fetch lie within the file, each holds at least one byte,
/// and each ends before the next one starts.
pub proof fn missing_segments_are_apart(
    completed: Seq<bool>,
    total_size: int,
    chunk_size: int,
)
    requires
        sizes_fit(total_size, chunk_size),
    ensures
        ({
            let segments = missing_segments(
                completed,
                chunks_needed(total_size, chunk_size) as nat,
                total_size,
                chunk_size,
            );
            &&& forall|k: int|
                0 <= k < segments.len() ==> (#[trigger] segments[k]).start <= segments[k].end
                    < total_size
            &&& forall|a: int, b: int|
                0 <= a < b < segments.len() ==> (#[trigger] segments[a]).end < (
                #[trigger] segments[b]).start
        }),
{
    let n = chunks_needed(total_size, chunk_size) as nat;
    lemma_chunks_needed(total_size, chunk_size);
    lemma_missing_members(completed, n, total_size, chunk_size);
    let segments = missing_segments(completed, n, total_size, chunk_size);
    assert forall|k: int| 0 <= k < segments.len() implies (#[trigger] segments[k]).start
        <= segments[k].end < total_size by {
        lemma_segment_at(segments[k].index as int, total_size, chunk_size);
    }
    assert forall|a: int, b: int| 0 <= a < b < segments.len() implies (#[trigger] segments[a]).end
        < (#[trigger] segments[b]).start by {
        let i = segments[a].index as int;
        let j = segments[b].index as int;
        lemma_segment_at(i, total_size, chunk_size);
        lemma_segment_at(j, total_size, chunk_size);
        lemma_bytes_before_ordered(i + 1, j, total_size, chunk_size);
    }
}

/// A segment to fetch holds the bytes of its chunk, and at least one.
pub proof fn missing_segments_hold_their_chunks(
    completed: Seq<bool>,
    total_size: int,
    chunk_size: int,
    k: int,
)
    requires
        sizes_fit(total_size, chunk_size),
        0 <= k < missing_segments(
            completed,
            chunks_needed(total_size, chunk_size) as nat,
            total_size,
            chunk_size,
        ).len(),
    ensures
        ({
            let segment = missing_segments(
                completed,
                chunks_needed(total_size, chunk_size) as nat,
                total_size,
                chunk_size,
            )[k];
            &&& segment.end - segment.start + 1 == chunk_len(
                segment.index as int,
                total_size,
                chunk_size,
            ) >= 1
            &&& segment.start == segment.index * chunk_size
            &&& segment.end + 1 == segment.start + chunk_size || segment.end + 1 == total_size
            &&& segment.end - segment.start < chunk_size
        }),
{
    let n = chunks_needed(total_size, chunk_size) as nat;
    lemma_chunks_needed(total_size, chunk_size);
    lemma_missing_members(completed, n, total_size, chunk_size);
    let segments = missing_segments(completed, n, total_size, chunk_size);
    lemma_segment_at(segments[k].index as int, total_size, chunk_size);
}

/// A byte of the file is in one of the segments to fetch exactly when the
/// chunk that holds it is not finished.
pub proof fn missing_segments_cover(
    completed: Seq<bool>,
    total_size: int,
    chunk_size: int,
    offset: int,
)
    requires
        sizes_fit(total_size, chunk_size),
        0 <= offset < total_size,
    ensures
        ({
            let segments = missing_segments(
                completed,
                chunks_needed(total_size, chunk_size) as nat,
                total_size,
                chunk_size,
            );
            (exists|k: int|
                0 <= k < segments.len() && (#[trigger] segments[k]).start <= offset
                    <= segments[k].end) <==> !is_finished(completed, offset / chunk_size)
        }),
{
    let n = chunks_needed(total_size, chunk_size) as nat;
    let home = offset / chunk_size;
    lemma_chunks_needed(total_size, chunk_size);
    lemma_missing_members(completed, n, total_size, chunk_size);
    lemma_fundamental_div_mod(offset, chunk_size);
    lemma_mul_is_commutative(chunk_size, home);
    lemma_div_is_ordered(0, offset, chunk_size);
    assert(home < n) by {
        if home >= n {
            lemma_mul_inequality(n as int, home, chunk_size);
        }
    }
    lemma_segment_at(home, total_size, chunk_size);
    lemma_bytes_before_step(home, total_size, chunk_size);
    let segments = missing_segments(completed, n, total_size, chunk_size);
    if !is_finished(completed, home) {
        let segment = segment_at(home, total_size, chunk_size);
        assert(segments.contains(segment));
        let k = segments.index_of(segment);
        assert(segments[k].start <= offset <= segments[k].end);
    }
    assert forall|k: int|
        0 <= k < segments.len() && (#[trigger] segments[k]).start <= offset
            <= segments[k].end implies !is_finished(completed, home) by {
        let i = segments[k].index as int;
        lemma_segment_at(i, total_size, chunk_size);
        if i < home {
            lemma_bytes_before_ordered(i + 1, home, total_size, chunk_size);
        } else if i > home {
            lemma_bytes_before_ordered(home + 1, i, total_size, chunk_size);
        }
    }
}

proof fn lemma_finished_and_missing(completed: Seq<bool>, n: nat, total_size: int, chunk_size: int)
    requires
        sizes_fit(total_size, chunk_size),
        n <= chunks_needed(total_size, chunk_size),
    ensures
        segments_bytes(missing_segments(completed, n, total_size, chunk_size)) + finished_bytes(
            completed.take(least(n as int, completed.len() as int)),
            total_size,
            chunk_size,
        ) == bytes_before(n as int, total_size, chunk_size),
    decreases n,
{
    if n > 0 {
        let last = n - 1;
        lemma_finished_and_missing(completed, last as nat, total_size, chunk_size);
        lemma_segment_at(last, total_size, chunk_size);
        lemma_bytes_before_step(last, total_size, chunk_size);
        let before = missing_segments(completed, last as nat, total_size, chunk_size);
        let segments = missing_segments(completed, n, total_size, chunk_size);
        if n <= completed.len() {
            assert(completed.take(n as int).drop_last() =~= completed.take(last));
        }
        if !is_finished(completed, last) {
            assert(segments.drop_last() =~= before);
        }
    }
}

proof fn lemma_finished_past_end(completed: Seq<bool>, total_size: int, chunk_size: int)
    requires
        0 <= total_size,
        0 < chunk_size,
        completed.len() >= chunks_needed(total_size, chunk_size),
    ensures
        finished_bytes(completed, total_size, chunk_size) == finished_bytes(
            completed.take(chunks_needed(total_size, chunk_size)),
            total_size,
            chunk_size,
        ),
    decreases completed.len(),
{
    let n = chunks_needed(total_size, chunk_size);
    lemma_chunks_needed(total_size, chunk_size);
    if completed.len() > n {
        let last = completed.len() - 1;
        lemma_finished_past_end(completed.drop_last(), total_size, chunk_size);
        assert(completed.drop_last().take(n) =~= completed.take(n));
        lemma_mul_inequality(n, last, chunk_size);
    } else {
        assert(completed.take(n) =~= completed);
    }
}

/// What is finished and what is still to be fetched add up to the file.
pub proof fn finished_and_missing_add_up(completed: Seq<bool>, total_size: int, chunk_size: int)
    requires
        sizes_fit(total_size, chunk_size),
    ensures
        finished_bytes(completed, total_size, chunk_size) + segments_bytes(
            missing_segments(
                completed,
                chunks_needed(total_size, chunk_size) as nat,
                total_size,
                chunk_size,
            ),
        ) == total_size,
{
    let n = chunks_needed(total_size, chunk_size);
    lemma_chunks_needed(total_size, chunk_size);
    lemma_finished_and_missing(completed, n as nat, total_size, chunk_size);
    if completed.len() >= n {
        lemma_finished_past_end(completed, total_size, chunk_size);
    } else {
        assert(completed.take(completed.len() as int) =~= completed);
    }
}

proof fn lemma_leading(completed: Seq<bool>)
    ensures
        leading_finished(completed) <= completed.len(),
        forall|i: int| 0 <= i < leading_finished(completed) ==> #[trigger] completed[i],
        leading_finished(completed) < completed.len()
            ==> !completed[leading_finished(completed) as int],
    decreases completed.len(),
{
    if completed.len() > 0 && completed[0] {
        let rest = completed.skip(1);
        lemma_leading(rest);
        assert forall|i: int| 0 <= i < leading_finished(completed) implies #[trigger] completed[i] by {
            if i > 0 {
                assert(rest[i - 1]);
            }
        }
        if leading_finished(completed) < completed.len() {
            assert(!rest[leading_finished(rest) as int]);
        }
    }
}

/// Every byte before the contiguous mark belongs to a finished chunk, and the
/// byte at the mark, where there is one, does not.
pub proof fn contiguous_bytes_are_finished(
    completed: Seq<bool>,
    total_size: int,
    chunk_size: int,
    offset: int,
)
    requires
        sizes_fit(total_size, chunk_size),
        0 <= offset < total_size,
    ensures
        ({
            let mark = bytes_before(
                leading_finished(completed) as int,
                total_size,
                chunk_size,
            );
            &&& offset < mark ==> is_finished(completed, offset / chunk_size)
            &&& offset == mark ==> !is_finished(completed, offset / chunk_size)
        }),
{
    let lead = leading_finished(completed) as int;
    let home = offset / chunk_size;
    lemma_leading(completed);
    lemma_fundamental_div_mod(offset, chunk_size);
    lemma_mul_is_commutative(chunk_size, home);
    lemma_div_is_ordered(0, offset, chunk_size);
    if offset < bytes_before(lead, total_size, chunk_size) {
        if home >= lead {
            lemma_mul_inequality(lead, home, chunk_size);
        }
        assert(completed[home]);
    }
    if offset == bytes_before(lead, total_size, chunk_size) {
        lemma_fundamental_div_mod_converse(offset, chunk_size, lead, 0);
    }
}

/// The bounds between which the chunk size of a file of `total_size` bytes is
/// kept: small files start fast, large ones spend little on requests.
pub open spec fn chunk_size_bounds(total_size: int) -> (int, int) {
    let mib = 1024 * 1024int;
    if total_size < 10 * mib {
        (512 * 1024int, 2 * mib)
    } else if total_size < 100 * mib {
        (mib, 8 * mib)
    } else if total_size < 1024 * mib {
        (4 * mib, 16 * mib)
    } else if total_size < 10 * 1024 * mib {
        (8 * mib, 32 * mib)
    } else {
        (16 * mib, 64 * mib)
    }
}

/// `value`, or the bound that it lies beyond.
pub open spec fn clamped(value: int, low: int, high: int) -> int {
    if value < low {
        low
    } else if value > high {
        high
    } else {
        value
    }
}

/// Two chunks for each connection, within the bounds for the file's size. The
/// number of chunks aimed at saturates at the largest 64-bit number.
pub open spec fn dynamic_chunk_size(total_size: int, connections: int) -> int {
    let wanted = if connections < 1 {
        2
    } else {
        least(2 * connections, u64::MAX as int)
    };
    let (low, high) = chunk_size_bounds(total_size);
    clamped(total_size / wanted, low, high)
}

/// The chunk size for a parallel download of `total_size` bytes over
/// `connections` connections.
pub fn calculate_dynamic_chunk_size(total_size: u64, connections: usize) -> (size: u64)
    ensures
        size == dynamic_chunk_size(total_size as int, connections as int),
        chunk_size_bounds(total_size as int).0 <= size <= chunk_size_bounds(total_size as int).1,
{
    let workers: u64 = if connections < 1 {
        1
    } else {
        connections as u64
    };
    let mib: u64 = 1024 * 1024;
    let (low, high): (u64, u64) = if total_size < 10 * mib {
        (512 * 1024, 2 * mib)
    } else if total_size < 100 * mib {
        (mib, 8 * mib)
    } else if total_size < 1024 * mib {
        (4 * mib, 16 * mib)
    } else if total_size < 10 * 1024 * mib {
        (8 * mib, 32 * mib)
    } else {
        (16 * mib, 64 * mib)
    };
    let wanted: u64 = if workers > u64::MAX / 2 {
        u64::MAX
    } else {
        workers * 2
    };
    let share: u64 = total_size / wanted;
    if share < low {
        low
    } else if share > high {
        high
    } else {
        share
    }
}

/// Of two files over as many connections, the larger one has no smaller chunks.
pub proof fn larger_files_have_no_smaller_chunks(small: int, large: int, connections: int)
    requires
        0 <= small <= large,
    ensures
        dynamic_chunk_size(small, connections) <= dynamic_chunk_size(large, connections),
{
    let wanted = if connections < 1 {
        2
    } else {
        least(2 * connections, u64::MAX as int)
    };
    lemma_div_is_ordered(small, large, wanted);
}

/// Of two downloads of a file, the one over more connections has no larger
/// chunks.
pub proof fn more_connections_have_no_larger_chunks(total_size: int, few: int, many: int)
    requires
        0 <= total_size,
        few <= many,
    ensures
        dynamic_chunk_size(total_size, many) <= dynamic_chunk_size(total_size, few),
{
    let wanted = |connections: int|
        if connections < 1 {
            2
        } else {
            least(2 * connections, u64::MAX as int)
        };
    lemma_div_is_ordered_by_denominator(total_size, wanted(few), wanted(many));
}

/// `size` is what each of `shares` equal parts of the file holds, or the bound
/// that this lies beyond.
pub open spec fn is_share_within(
    size: int,
    total_size: int,
    shares: int,
    low: int,
    high: int,
) -> bool {
    &&& low <= size <= high
    &&& size > low ==> size * shares <= total_size
    &&& size < high ==> total_size < (size + 1) * shares
}

/// The chunk size of a parallel download lies in the bounds of the class that
/// the size of the file puts it in, and between them it is the share that gives
/// each connection two chunks.
pub proof fn chunk_size_follows_the_file(total_size: int, connections: int)
    requires
        0 <= total_size <= u64::MAX,
        connections <= u32::MAX,
    ensures
        ({
            let size = dynamic_chunk_size(total_size, connections);
            let shares = if connections < 1 {
                2
            } else {
                2 * connections
            };
            &&& total_size < 10485760 ==> is_share_within(
                size,
                total_size,
                shares,
                524288,
                2097152,
            )
            &&& 10485760 <= total_size < 104857600 ==> is_share_within(
                size,
                total_size,
                shares,
                1048576,
                8388608,
            )
            &&& 104857600 <= total_size < 1073741824 ==> is_share_within(
                size,
                total_size,
                shares,
                4194304,
                16777216,
            )
            &&& 1073741824 <= total_size < 10737418240 ==> is_share_within(
                size,
                total_size,
                shares,
                8388608,
                33554432,
            )
            &&& 10737418240 <= total_size ==> is_share_within(
                size,
                total_size,
                shares,
                16777216,
                67108864,
            )
        }),
{
    let shares = if connections < 1 {
        2
    } else {
        2 * connections
    };
    let share = total_size / shares;
    lemma_fundamental_div_mod(total_size, shares);
    lemma_mul_is_commutative(shares, share);
    lemma_mul_is_distributive_add_other_way(shares, share, 1);
    let size = dynamic_chunk_size(total_size, connections);
    if size < share {
        lemma_mul_inequality(size, share, shares);
    }
    if size > share {
        lemma_mul_inequality(share + 1, size, shares);
        lemma_mul_is_distributive_add_other_way(shares, size, 1);
    }
}

/// The bytes that stand without a gap end where the file does or where the
/// first chunk that is not finished begins; every chunk before is finished.
pub proof fn contiguous_bytes_end_at_the_first_gap(
    completed: Seq<bool>,
    total_size: int,
    chunk_size: int,
)
    requires
        0 <= total_size,
        0 <= chunk_size,
    ensures
        ({
            let mark = bytes_before(
                leading_finished(completed) as int,
                total_size,
                chunk_size,
            );
            &&& 0 <= mark <= total_size
            &&& chunk_size == 0 ==> mark == 0
            &&& forall|p: int|
                0 <= p < mark ==> 0 <= #[trigger] (p / chunk_size) < completed.len()
                    && completed[p / chunk_size]
            &&& 0 < chunk_size && mark < total_size ==> mark % chunk_size == 0 && (mark
                / chunk_size >= completed.len() || !completed[mark / chunk_size])
        }),
{
    let lead = leading_finished(completed) as int;
    let mark = bytes_before(lead, total_size, chunk_size);
    lemma_leading(completed);
    lemma_mul_inequality(0, lead, chunk_size);
    if chunk_size == 0 {
        assert(lead * chunk_size == 0) by (nonlinear_arith)
            requires
                chunk_size == 0,
        ;
    } else {
        assert forall|p: int| 0 <= p < mark implies 0 <= #[trigger] (p / chunk_size)
            < completed.len() && completed[p / chunk_size] by {
            let home = p / chunk_size;
            lemma_fundamental_div_mod(p, chunk_size);
            lemma_mul_is_commutative(chunk_size, home);
            lemma_div_is_ordered(0, p, chunk_size);
            if home >= lead {
                lemma_mul_inequality(lead, home, chunk_size);
            }
        }
        if mark < total_size {
            lemma_fundamental_div_mod_converse(mark, chunk_size, lead, 0);
        }
    }
}

/// As many bytes are finished as positions of the file lie in finished chunks:
/// finishing one more chunk adds the bytes of that chunk.
pub proof fn finishing_a_chunk_adds_its_bytes(
    completed: Seq<bool>,
    total_size: int,
    chunk_size: int,
    index: int,
)
    requires
        0 <= index < completed.len(),
        !completed[index],
    ensures
        finished_bytes(completed.update(index, true), total_size, chunk_size) == finished_bytes(
            completed,
            total_size,
            chunk_size,
        ) + if index * chunk_size >= total_size {
            0
        } else if (total_size - index * chunk_size) < chunk_size {
            total_size - index * chunk_size
        } else {
            chunk_size
        },
    decreases completed.len(),
{
    let after = completed.update(index, true);
    if index == completed.len() - 1 {
        assert(after.drop_last() =~= completed.drop_last());
    } else {
        finishing_a_chunk_adds_its_bytes(completed.drop_last(), total_size, chunk_size, index);
        assert(after.drop_last() =~= completed.drop_last().update(index, true));
    }
}

/// Where no chunk is finished, no byte is.
pub proof fn nothing_finished_is_no_bytes(
    completed: Seq<bool>,
    total_size: int,
    chunk_size: int,
)
    requires
        forall|i: int| 0 <= i < completed.len() ==> !#[trigger] completed[i],
    ensures
        finished_bytes(completed, total_size, chunk_size) == 0,
        finished_count(completed) == 0,
    decreases completed.len(),
{
    if completed.len() > 0 {
        let head = completed.drop_last();
        assert forall|i: int| 0 <= i < head.len() implies !#[trigger] head[i] by {
            assert(!completed[i]);
        }
        nothing_finished_is_no_bytes(head, total_size, chunk_size);
    }
}

} // verus!
