//! What the bytes of the file have to do with those of the resource: why the
//! chunks, fetched one by one, make up the whole.

use vstd::arithmetic::div_mod::{lemma_div_is_ordered, lemma_fundamental_div_mod};
use vstd::arithmetic::mul::{lemma_mul_inequality, lemma_mul_is_commutative};
use vstd::prelude::*;

use crate::chunks::{
    bytes_before, chunks_needed, contiguous_bytes_are_finished, is_finished, leading_finished,
    lemma_chunks_needed, lemma_finished_count, lemma_segment_at, segment_at, sizes_fit,
};
use crate::http::parallel::{nothing_is_left_behind, ParallelView};
use crate::state::{cleared_file_has_no_record, record_in, unmarked};
use crate::types::Segment;

verus! {

/// The file holds the bytes of the resource throughout a segment.
pub open spec fn holds(file: Seq<u8>, resource: Seq<u8>, segment: Segment) -> bool {
    forall|p: int| segment.start <= p <= segment.end ==> #[trigger] file[p] == resource[p]
}

/// The file is long enough, and holds the bytes of the resource throughout
/// every finished chunk.
pub open spec fn holds_finished(
    file: Seq<u8>,
    resource: Seq<u8>,
    completed: Seq<bool>,
    chunk_size: int,
) -> bool {
    &&& file.len() >= resource.len()
    &&& forall|i: int|
        0 <= i < chunks_needed(resource.len() as int, chunk_size) && #[trigger] is_finished(
            completed,
            i,
        ) ==> holds(file, resource, segment_at(i, resource.len() as int, chunk_size))
}

/// The file after `bytes` are written at `offset`.
pub open spec fn overwritten(file: Seq<u8>, offset: int, bytes: Seq<u8>) -> Seq<u8> {
    file.take(offset) + bytes + if offset + bytes.len() <= file.len() {
        file.skip(offset + bytes.len())
    } else {
        Seq::empty()
    }
}

/// Whatever is written within the segment of a chunk that is not finished, the
/// finished ones keep their bytes.
pub proof fn writing_disturbs_no_finished_chunk(
    file: Seq<u8>,
    resource: Seq<u8>,
    completed: Seq<bool>,
    chunk_size: int,
    index: int,
    offset: int,
    bytes: Seq<u8>,
)
    requires
        sizes_fit(resource.len() as int, chunk_size),
        holds_finished(file, resource, completed, chunk_size),
        0 <= index < chunks_needed(resource.len() as int, chunk_size),
        !is_finished(completed, index),
        segment_at(index, resource.len() as int, chunk_size).start <= offset,
        offset + bytes.len() <= segment_at(index, resource.len() as int, chunk_size).end + 1,
    ensures
        holds_finished(overwritten(file, offset, bytes), resource, completed, chunk_size),
{
    let total = resource.len() as int;
    let n = chunks_needed(total, chunk_size);
    let after = overwritten(file, offset, bytes);
    lemma_chunks_needed(total, chunk_size);
    lemma_segment_at(index, total, chunk_size);
    assert forall|i: int| 0 <= i < n && #[trigger] is_finished(completed, i) implies holds(
        after,
        resource,
        segment_at(i, total, chunk_size),
    ) by {
        lemma_segment_at(i, total, chunk_size);
        let other = segment_at(i, total, chunk_size);
        let own = segment_at(index, total, chunk_size);
        if i < index {
            lemma_mul_inequality(i + 1, index, chunk_size);
        } else {
            lemma_mul_inequality(index + 1, i, chunk_size);
        }
        assert((i + 1) * chunk_size == i * chunk_size + chunk_size) by (nonlinear_arith);
        assert((index + 1) * chunk_size == index * chunk_size + chunk_size) by (nonlinear_arith);
        assert(holds(file, resource, other));
        assert forall|p: int| other.start <= p <= other.end implies #[trigger] after[p]
            == resource[p] by {
            assert(file[p] == resource[p]);
        }
    }
}

/// Once the bytes of a segment are written, its chunk may be marked as
/// finished.
pub proof fn fetched_chunk_is_finished(
    file: Seq<u8>,
    resource: Seq<u8>,
    completed: Seq<bool>,
    chunk_size: int,
    index: int,
)
    requires
        sizes_fit(resource.len() as int, chunk_size),
        holds_finished(file, resource, completed, chunk_size),
        0 <= index < completed.len(),
        index < chunks_needed(resource.len() as int, chunk_size),
        !is_finished(completed, index),
    ensures
        ({
            let segment = segment_at(index, resource.len() as int, chunk_size);
            holds_finished(
                overwritten(
                    file,
                    segment.start as int,
                    resource.subrange(segment.start as int, segment.end + 1),
                ),
                resource,
                completed.update(index, true),
                chunk_size,
            )
        }),
{
    let total = resource.len() as int;
    let segment = segment_at(index, total, chunk_size);
    lemma_chunks_needed(total, chunk_size);
    lemma_segment_at(index, total, chunk_size);
    let bytes = resource.subrange(segment.start as int, segment.end + 1);
    let after = overwritten(file, segment.start as int, bytes);
    writing_disturbs_no_finished_chunk(
        file,
        resource,
        completed,
        chunk_size,
        index,
        segment.start as int,
        bytes,
    );
    let marked = completed.update(index, true);
    assert forall|i: int|
        0 <= i < chunks_needed(total, chunk_size) && #[trigger] is_finished(
            marked,
            i,
        ) implies holds(after, resource, segment_at(i, total, chunk_size)) by {
        if i != index {
            assert(is_finished(completed, i));
        }
    }
}

/// A file of which every chunk is finished holds the resource.
pub proof fn finished_chunks_make_the_file(
    file: Seq<u8>,
    resource: Seq<u8>,
    completed: Seq<bool>,
    chunk_size: int,
)
    requires
        sizes_fit(resource.len() as int, chunk_size),
        holds_finished(file, resource, completed, chunk_size),
        completed.len() == chunks_needed(resource.len() as int, chunk_size),
        forall|i: int| 0 <= i < completed.len() ==> #[trigger] completed[i],
    ensures
        file.take(resource.len() as int) == resource,
{
    let total = resource.len() as int;
    assert forall|p: int| 0 <= p < total implies #[trigger] file[p] == resource[p] by {
        lemma_home(total, chunk_size, p);
        assert(completed[p / chunk_size]);
        lemma_byte_of_finished(file, resource, completed, chunk_size, p);
    }
    assert(file.take(total) =~= resource);
}

/// A parallel download that has every chunk leaves the resource and nothing
/// else: cut to the length that it ends with, the file is the resource and
/// holds no record, where the resource does not itself end as a record does.
pub proof fn done_download_leaves_the_resource(
    download: ParallelView,
    file: Seq<u8>,
    resource: Seq<u8>,
)
    requires
        download.is_sound(),
        download.is_done(),
        resource.len() == download.target.total_size,
        holds_finished(file, resource, download.completed, download.target.chunk_size as int),
    ensures
        file.take(download.target.total_size as int) == resource,
        unmarked(resource) ==> record_in(file.take(download.target.total_size as int)) is None,
{
    lemma_finished_count(download.completed);
    if resource.len() > 0 {
        finished_chunks_make_the_file(
            file,
            resource,
            download.completed,
            download.target.chunk_size as int,
        );
    } else {
        assert(file.take(0) =~= resource);
    }
    if unmarked(resource) {
        cleared_file_has_no_record(resource, Seq::empty());
    }
}

/// When the last worker of a parallel download has ended by itself, the file
/// holds the resource, and cut to the length that the download ends with it
/// holds no record, where the resource does not itself end as a record does.
pub proof fn ended_download_leaves_the_resource(
    download: ParallelView,
    file: Seq<u8>,
    resource: Seq<u8>,
)
    requires
        download.is_sound(),
        download.running == 0,
        resource.len() == download.target.total_size,
        holds_finished(file, resource, download.completed, download.target.chunk_size as int),
    ensures
        file.take(download.target.total_size as int) == resource,
        unmarked(resource) ==> record_in(file.take(download.target.total_size as int)) is None,
{
    nothing_is_left_behind(download);
    done_download_leaves_the_resource(download, file, resource);
}

/// The bytes that stand without a gap at the start of the file are the first of
/// the resource.
pub proof fn leading_chunks_make_the_start(
    file: Seq<u8>,
    resource: Seq<u8>,
    completed: Seq<bool>,
    chunk_size: int,
)
    requires
        sizes_fit(resource.len() as int, chunk_size),
        holds_finished(file, resource, completed, chunk_size),
    ensures
        ({
            let mark = bytes_before(
                leading_finished(completed) as int,
                resource.len() as int,
                chunk_size,
            );
            file.take(mark) == resource.take(mark)
        }),
{
    let total = resource.len() as int;
    let lead = leading_finished(completed) as int;
    let mark = bytes_before(lead, total, chunk_size);
    lemma_mul_inequality(0, lead, chunk_size);
    assert forall|p: int| 0 <= p < mark implies #[trigger] file[p] == resource[p] by {
        contiguous_bytes_are_finished(completed, total, chunk_size, p);
        lemma_byte_of_finished(file, resource, completed, chunk_size, p);
    }
    assert(file.take(mark) =~= resource.take(mark));
}

/// A file that holds the first bytes of the resource becomes the resource when
/// it is cut behind them and the rest is written there.
pub proof fn rest_makes_the_file(file: Seq<u8>, resource: Seq<u8>, offset: int)
    requires
        0 <= offset <= resource.len(),
        offset <= file.len(),
        file.take(offset) == resource.take(offset),
    ensures
        overwritten(file.take(offset), offset, resource.skip(offset)) == resource,
{
    let whole = overwritten(file.take(offset), offset, resource.skip(offset));
    assert forall|p: int| 0 <= p < resource.len() implies #[trigger] whole[p] == resource[p] by {
        if p < offset {
            assert(file.take(offset)[p] == resource.take(offset)[p]);
        }
    }
    assert(whole =~= resource);
}

proof fn lemma_home(total_size: int, chunk_size: int, p: int)
    requires
        sizes_fit(total_size, chunk_size),
        0 <= p < total_size,
    ensures
        0 <= p / chunk_size < chunks_needed(total_size, chunk_size),
        p / chunk_size * chunk_size <= p < p / chunk_size * chunk_size + chunk_size,
{
    let home = p / chunk_size;
    let n = chunks_needed(total_size, chunk_size);
    lemma_chunks_needed(total_size, chunk_size);
    lemma_fundamental_div_mod(p, chunk_size);
    lemma_mul_is_commutative(chunk_size, home);
    lemma_div_is_ordered(0, p, chunk_size);
    if home >= n {
        lemma_mul_inequality(n, home, chunk_size);
    }
}

proof fn lemma_byte_of_finished(
    file: Seq<u8>,
    resource: Seq<u8>,
    completed: Seq<bool>,
    chunk_size: int,
    p: int,
)
    requires
        sizes_fit(resource.len() as int, chunk_size),
        holds_finished(file, resource, completed, chunk_size),
        0 <= p < resource.len(),
        is_finished(completed, p / chunk_size),
    ensures
        file[p] == resource[p],
{
    let total = resource.len() as int;
    let home = p / chunk_size;
    lemma_home(total, chunk_size, p);
    lemma_segment_at(home, total, chunk_size);
    assert(holds(file, resource, segment_at(home, total, chunk_size)));
}

} // verus!
