//! The frame in which the record of an unfinished download lies behind the
//! bytes of the file: the serialized record, its length as eight bytes with the
//! most significant first, and a closing mark.

use vstd::prelude::*;

use crate::error::{DlError, Result};
use crate::text::{decimal, push_decimal};

verus! {

/// The mark that closes the frame: `DL-METADATA` and a zero byte.
pub const METADATA_MAGIC: [u8; 12] = [68, 76, 45, 77, 69, 84, 65, 68, 65, 84, 65, 0];

/// The number of bytes that hold the length of the record.
pub const METADATA_LEN_SIZE: u64 = 8;

/// The number of bytes in the frame behind the record.
pub const METADATA_FOOTER_SIZE: u64 = 20;

/// The largest record, in bytes.
pub const MAX_METADATA_SIZE: u64 = 16 * 1024 * 1024;

pub open spec fn pow256(n: nat) -> nat
    decreases n,
{
    if n == 0 {
        1
    } else {
        256 * pow256((n - 1) as nat)
    }
}

/// The last `len` digits of `n` to the base 256, the most significant first.
pub open spec fn big_endian(n: nat, len: nat) -> Seq<u8>
    decreases len,
{
    if len == 0 {
        Seq::empty()
    } else {
        big_endian(n / 256, (len - 1) as nat).push((n % 256) as u8)
    }
}

/// The number whose digits to the base 256 are given, the most significant
/// first.
pub open spec fn big_endian_value(bytes: Seq<u8>) -> nat
    decreases bytes.len(),
{
    if bytes.len() == 0 {
        0
    } else {
        big_endian_value(bytes.drop_last()) * 256 + bytes.last() as nat
    }
}

proof fn lemma_big_endian_len(n: nat, len: nat)
    ensures
        big_endian(n, len).len() == len,
    decreases len,
{
    if len > 0 {
        lemma_big_endian_len(n / 256, (len - 1) as nat);
    }
}

proof fn lemma_big_endian_reads_back(n: nat, len: nat)
    requires
        n < pow256(len),
    ensures
        big_endian_value(big_endian(n, len)) == n,
    decreases len,
{
    if len > 0 {
        lemma_big_endian_reads_back(n / 256, (len - 1) as nat);
        assert(big_endian(n, len).drop_last() =~= big_endian(n / 256, (len - 1) as nat));
    }
}

proof fn lemma_big_endian_value_bound(bytes: Seq<u8>)
    ensures
        big_endian_value(bytes) < pow256(bytes.len()),
    decreases bytes.len(),
{
    if bytes.len() > 0 {
        lemma_big_endian_value_bound(bytes.drop_last());
    }
}

proof fn lemma_pow256_ordered(a: nat, b: nat)
    requires
        a <= b,
    ensures
        1 <= pow256(a) <= pow256(b),
    decreases b,
{
    if a < b {
        lemma_pow256_ordered(a, (b - 1) as nat);
    } else if b > 0 {
        lemma_pow256_ordered((a - 1) as nat, (b - 1) as nat);
    }
}

proof fn lemma_pow256_eight()
    ensures
        pow256(8) == 0x1_0000_0000_0000_0000,
{
    reveal_with_fuel(pow256, 9);
}

fn push_big_endian(bytes: &mut Vec<u8>, n: u64, len: usize)
    ensures
        final(bytes)@ == old(bytes)@ + big_endian(n as nat, len as nat),
    decreases len,
{
    if len > 0 {
        push_big_endian(bytes, n / 256, len - 1);
        bytes.push((n % 256) as u8);
    }
}

fn read_big_endian(bytes: &[u8], from: usize) -> (n: u64)
    requires
        from + 8 <= bytes@.len(),
    ensures
        n == big_endian_value(bytes@.subrange(from as int, from + 8)),
{
    let ghost field = bytes@.subrange(from as int, from + 8);
    let total: usize = bytes.len();
    let mut n: u64 = 0;
    let mut i: usize = 0;
    assert(field.take(0) =~= Seq::<u8>::empty());
    while i < 8
        invariant
            i <= 8,
            from + 8 <= bytes@.len() == total,
            field == bytes@.subrange(from as int, from + 8),
            n == big_endian_value(field.take(i as int)),
        decreases 8 - i,
    {
        proof {
            let next = field.take(i + 1);
            assert(next.drop_last() =~= field.take(i as int));
            assert(next.last() == bytes@[from + i]);
            lemma_big_endian_value_bound(next);
            lemma_pow256_ordered((i + 1) as nat, 8);
            lemma_pow256_eight();
        }
        n = n * 256 + bytes[from + i] as u64;
        i += 1;
    }
    assert(field.take(8) =~= field);
    n
}

/// The frame around a record: the record, its length, and the mark.
pub open spec fn framed(record: Seq<u8>) -> Seq<u8> {
    record + big_endian(record.len(), 8) + METADATA_MAGIC@
}

/// Where the record of a file lies.
pub enum Located {
    /// The file has no frame.
    Absent,
    /// The frame gives a length that no record in this file can have.
    Mismatch,
    At { start: int, len: int },
}

/// The last twenty bytes of a file of `file_len` bytes, read as the end of a
/// frame.
pub open spec fn located(file_len: int, footer: Seq<u8>) -> Located {
    let len = big_endian_value(footer.take(8)) as int;
    if file_len < METADATA_FOOTER_SIZE || footer.skip(8) != METADATA_MAGIC@ {
        Located::Absent
    } else if len == 0 || len > MAX_METADATA_SIZE || len + METADATA_FOOTER_SIZE > file_len {
        Located::Mismatch
    } else {
        Located::At { start: file_len - METADATA_FOOTER_SIZE - len, len }
    }
}

/// The last twenty bytes of a file.
pub open spec fn footer_of(file: Seq<u8>) -> Seq<u8> {
    file.skip(file.len() - METADATA_FOOTER_SIZE)
}

/// The record that lies in a file.
pub open spec fn record_in(file: Seq<u8>) -> Option<Seq<u8>> {
    match located(file.len() as int, footer_of(file)) {
        Located::At { start, len } => Some(file.subrange(start, start + len)),
        _ => None,
    }
}

/// The text that tells of a length which does not fit the file.
pub open spec fn mismatch_text(state_len: int, file_len: int) -> Seq<char> {
    "内嵌元数据长度 "@ + decimal(state_len as nat) + " 与文件长度 "@ + decimal(file_len as nat)
        + " 不匹配"@
}

fn ends_with_magic(footer: &[u8]) -> (r: bool)
    requires
        footer@.len() == METADATA_FOOTER_SIZE,
    ensures
        r == (footer@.skip(8) == METADATA_MAGIC@),
{
    let mut i: usize = 0;
    while i < 12
        invariant
            i <= 12,
            footer@.len() == METADATA_FOOTER_SIZE,
            forall|j: int| 0 <= j < i ==> footer@[8 + j] == #[trigger] METADATA_MAGIC@[j],
        decreases 12 - i,
    {
        if footer[8 + i] != METADATA_MAGIC[i] {
            assert(footer@.skip(8)[i as int] != METADATA_MAGIC@[i as int]);
            return false;
        }
        i += 1;
    }
    assert(footer@.skip(8) =~= METADATA_MAGIC@);
    true
}

/// Whether a file of `file_len` bytes is long enough to hold the end of a
/// frame.
pub fn may_hold_state(file_len: u64) -> (r: bool)
    ensures
        r == (file_len >= METADATA_FOOTER_SIZE),
        !r ==> forall|footer: Seq<u8>| #[trigger] located(file_len as int, footer) is Absent,
{
    file_len >= METADATA_FOOTER_SIZE
}

/// Finds the record of a file from the file's length and its last twenty
/// bytes: where it starts and how long it is, or `None` where there is none.
pub fn locate_inline_state(file_len: u64, footer: &[u8]) -> (r: Result<Option<(u64, u64)>>)
    requires
        file_len >= METADATA_FOOTER_SIZE,
        footer@.len() == METADATA_FOOTER_SIZE,
    ensures
        match located(file_len as int, footer@) {
            Located::Absent => r matches Ok(None),
            Located::Mismatch => r matches Err(DlError::InvalidState(text)) && text@
                == mismatch_text(
                big_endian_value(footer@.take(8)) as int,
                file_len as int,
            ),
            Located::At { start, len } => r matches Ok(Some((s, n))) && s == start && n == len,
        },
{
    if !ends_with_magic(footer) {
        return Ok(None);
    }
    let state_len: u64 = read_big_endian(footer, 0);
    assert(footer@.subrange(0, 8) =~= footer@.take(8));
    if state_len == 0 || state_len > MAX_METADATA_SIZE || state_len + METADATA_FOOTER_SIZE
        > file_len {
        let mut text = "内嵌元数据长度 ".to_owned();
        push_decimal(&mut text, state_len);
        text.append(" 与文件长度 ");
        push_decimal(&mut text, file_len);
        text.append(" 不匹配");
        return Err(DlError::InvalidState(text));
    }
    Ok(Some((file_len - METADATA_FOOTER_SIZE - state_len, state_len)))
}

/// The text that tells of a record that is too large.
pub open spec fn oversize_text(state_len: int) -> Seq<char> {
    "内嵌元数据超过最大大小："@ + decimal(state_len as nat) + " 字节"@
}

/// The bytes to write behind the file for a serialized record.
pub fn frame_inline_state(record: Vec<u8>) -> (r: Result<Vec<u8>>)
    ensures
        match r {
            Ok(frame) => record@.len() <= MAX_METADATA_SIZE && frame@ == framed(record@),
            Err(error) => record@.len() > MAX_METADATA_SIZE && (error matches DlError::InvalidState(
                text,
            ) && text@ == oversize_text(record@.len() as int)),
        },
{
    let state_len: u64 = record.len() as u64;
    if state_len > MAX_METADATA_SIZE {
        let mut text = "内嵌元数据超过最大大小：".to_owned();
        push_decimal(&mut text, state_len);
        text.append(" 字节");
        return Err(DlError::InvalidState(text));
    }
    let ghost whole = record@;
    let mut frame = record;
    push_big_endian(&mut frame, state_len, 8);
    let mut i: usize = 0;
    while i < 12
        invariant
            i <= 12,
            frame@ == whole + big_endian(whole.len(), 8) + METADATA_MAGIC@.take(i as int),
        decreases 12 - i,
    {
        frame.push(METADATA_MAGIC[i]);
        assert(METADATA_MAGIC@.take(i + 1) =~= METADATA_MAGIC@.take(i as int).push(
            METADATA_MAGIC@[i as int],
        ));
        i += 1;
    }
    assert(METADATA_MAGIC@.take(12) =~= METADATA_MAGIC@);
    Ok(frame)
}

/// The length of a file of `total_size` bytes with a frame of `frame_len` bytes
/// behind it.
pub fn framed_file_len(total_size: u64, frame_len: usize) -> (len: u64)
    requires
        total_size + frame_len <= u64::MAX,
    ensures
        len == total_size + frame_len,
{
    total_size + frame_len as u64
}

/// A record that was written behind the bytes of a file is found again, as it
/// was written, and the bytes before it are untouched.
pub proof fn record_reads_back(bytes: Seq<u8>, record: Seq<u8>)
    requires
        0 < record.len() <= MAX_METADATA_SIZE,
    ensures
        record_in(bytes + framed(record)) == Some(record),
        (bytes + framed(record)).take(bytes.len() as int) == bytes,
{
    let file = bytes + framed(record);
    let len = record.len();
    lemma_big_endian_len(len, 8);
    lemma_pow256_eight();
    lemma_big_endian_reads_back(len, 8);
    let footer = footer_of(file);
    assert(footer.take(8) =~= big_endian(len, 8));
    assert(footer.skip(8) =~= METADATA_MAGIC@);
    assert(file.subrange(bytes.len() as int, (bytes.len() + len) as int) =~= record);
    assert(file.take(bytes.len() as int) =~= bytes);
}

/// The mark does not stand at the end of a sequence of bytes.
pub open spec fn unmarked(bytes: Seq<u8>) -> bool {
    bytes.len() >= METADATA_FOOTER_SIZE ==> bytes.skip(bytes.len() - 12) != METADATA_MAGIC@
}

/// A file that is cut back to its own bytes holds no record, unless those
/// bytes themselves end with the mark.
pub proof fn cleared_file_has_no_record(bytes: Seq<u8>, record: Seq<u8>)
    requires
        unmarked(bytes),
    ensures
        (bytes + framed(record)).take(bytes.len() as int) == bytes,
        located(bytes.len() as int, footer_of(bytes)) is Absent,
        record_in(bytes) is None,
{
    assert((bytes + framed(record)).take(bytes.len() as int) =~= bytes);
    if bytes.len() >= METADATA_FOOTER_SIZE {
        assert(footer_of(bytes).skip(8) =~= bytes.skip(bytes.len() - 12));
    }
}

/// A later record takes the place of an earlier one.
pub proof fn later_record_wins(bytes: Seq<u8>, earlier: Seq<u8>, later: Seq<u8>)
    requires
        0 < later.len() <= MAX_METADATA_SIZE,
    ensures
        record_in((bytes + framed(earlier)).take(bytes.len() as int) + framed(later)) == Some(
            later,
        ),
{
    assert((bytes + framed(earlier)).take(bytes.len() as int) =~= bytes);
    record_reads_back(bytes, later);
}

/// The frame of a record: the record comes first, then its length in eight bytes
/// with the most significant first, then the twelve bytes `DL-METADATA` and
/// zero.
pub proof fn frame_holds_record_length_and_mark(record: Seq<u8>)
    requires
        record.len() < 0x1_0000_0000,
    ensures
        ({
            let frame = framed(record);
            let n = record.len() as int;
            &&& frame.len() == n + 20
            &&& frame.take(n) == record
            &&& frame[n] == 0 && frame[n + 1] == 0 && frame[n + 2] == 0 && frame[n + 3] == 0
            &&& frame[n + 4] * 16777216 + frame[n + 5] * 65536 + frame[n + 6] * 256 + frame[n + 7]
                == n
            &&& frame.skip(n + 8) == seq![
                68u8,
                76u8,
                45u8,
                77u8,
                69u8,
                84u8,
                65u8,
                68u8,
                65u8,
                84u8,
                65u8,
                0u8,
            ]
        }),
{
    let frame = framed(record);
    let n = record.len();
    let len = big_endian(n, 8);
    lemma_big_endian_len(n, 8);
    reveal_with_fuel(big_endian, 9);
    assert(frame.take(n as int) =~= record);
    assert(len[0] == 0 && len[1] == 0 && len[2] == 0 && len[3] == 0);
    assert(len[7] == n % 256);
    assert(len[6] == n / 256 % 256);
    assert(len[5] == n / 256 / 256 % 256);
    assert(len[4] == n / 256 / 256 / 256 % 256);
    assert(frame.skip(n as int + 8) =~= METADATA_MAGIC@);
    assert(METADATA_MAGIC@ =~= seq![
        68u8,
        76u8,
        45u8,
        77u8,
        69u8,
        84u8,
        65u8,
        68u8,
        65u8,
        84u8,
        65u8,
        0u8,
    ]);
}

/// A record is looked for only behind the mark; a length of none, of more than
/// sixteen mebibytes, or of more than the file holds before the last twenty
/// bytes is an error, and any other record lies right before those bytes.
pub proof fn record_lies_before_the_footer(file_len: int, footer: Seq<u8>)
    requires
        footer.len() == 20,
    ensures
        ({
            let len = big_endian_value(footer.take(8)) as int;
            let marked = footer[8] == 68 && footer[9] == 76 && footer[10] == 45 && footer[11] == 77
                && footer[12] == 69 && footer[13] == 84 && footer[14] == 65 && footer[15] == 68
                && footer[16] == 65 && footer[17] == 84 && footer[18] == 65 && footer[19] == 0;
            match located(file_len, footer) {
                Located::Absent => file_len < 20 || !marked,
                Located::Mismatch => file_len >= 20 && marked && (len == 0 || len > 16777216 || len
                    > file_len - 20),
                Located::At { start, len: at_len } => {
                    &&& marked
                    &&& at_len == len
                    &&& 1 <= len <= 16777216
                    &&& start >= 0
                    &&& start + len + 20 == file_len
                },
            }
        }),
{
    let mark = footer.skip(8);
    assert(METADATA_MAGIC@.len() == 12);
    if file_len >= 20 && mark != METADATA_MAGIC@ {
        assert(!(mark =~= METADATA_MAGIC@));
    }
    if mark == METADATA_MAGIC@ {
        assert(mark[0] == 68 && mark[1] == 76 && mark[2] == 45 && mark[3] == 77);
        assert(mark[4] == 69 && mark[5] == 84 && mark[6] == 65 && mark[7] == 68);
        assert(mark[8] == 65 && mark[9] == 84 && mark[10] == 65 && mark[11] == 0);
    }
}

/// What is told of a record that does not fit names its length, and that of the
/// file where it is the file that it does not fit.
pub proof fn texts_name_the_lengths(state_len: u64, file_len: u64)
    ensures
        mismatch_text(state_len as int, file_len as int) == "内嵌元数据长度 "@ + decimal(
            state_len as nat,
        ) + " 与文件长度 "@ + decimal(file_len as nat) + " 不匹配"@,
        oversize_text(state_len as int) == "内嵌元数据超过最大大小："@ + decimal(
            state_len as nat,
        ) + " 字节"@,
        METADATA_FOOTER_SIZE == 20,
        METADATA_LEN_SIZE == 8,
        MAX_METADATA_SIZE == 16777216,
{
}

} // verus!
