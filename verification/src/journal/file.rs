//! The decisions of a stream that is kept in segment files: which file a
//! segment lives in, what to read for a timestamp, what to delete on a
//! release, and what to keep on recovery. Reading and writing the files is
//! left to the caller.

use std::collections::VecDeque;
use vstd::prelude::*;
use vstd::string::StringExecFns;
use crate::journal::stream::{be_bytes, Timestamp};

verus! {

/// Where one event lies in its segment.
#[derive(Clone, Copy, Debug, PartialEq, Eq, Structural)]
pub struct Index {
    pub ts: Timestamp,
    pub location: u64,
    pub size: u64,
}

/// What the stream knows of one segment that holds events: the index of
/// its first and of its last event.
#[derive(Clone, Copy, Debug, PartialEq, Eq, Structural)]
pub struct SegmentMeta {
    pub start_index: Index,
    pub end_index: Index,
}

/// One read of a segment: the bytes from `start` up to `end`.
#[derive(Clone, Copy, Debug, PartialEq, Eq, Structural)]
pub struct ReadRange {
    pub segment: usize,
    pub start: u64,
    pub end: u64,
}

/// What a release does: the segments to delete, the last first, how many
/// index entries to drop from the front, and the bytes to record as the
/// release timestamp.
#[derive(Debug, PartialEq, Eq)]
pub struct ReleasePlan {
    pub segments: Vec<usize>,
    pub released: usize,
    pub stamp: Vec<u8>,
}

/// The character of a binary digit.
pub open spec fn bit_char(bit: nat) -> char {
    if bit == 0 {
        '0'
    } else {
        '1'
    }
}

/// A number in binary notation, without leading zeros.
pub open spec fn binary_text(n: nat) -> Seq<char>
    decreases n,
{
    if n < 2 {
        seq![bit_char(n)]
    } else {
        binary_text(n / 2).push(bit_char(n % 2))
    }
}

/// A text of `n` zeros.
pub open spec fn zeros(n: nat) -> Seq<char> {
    Seq::new(n, |i: int| '0')
}

/// The file name of the segment with the number `index`: the number in
/// binary notation, filled with zeros from the left to ten digits.
pub open spec fn segment_name_text(index: nat) -> Seq<char> {
    let digits = binary_text(index);
    if digits.len() < 10 {
        zeros((10 - digits.len()) as nat) + digits
    } else {
        digits
    }
}

/// Writes a number in binary notation, and says how many digits it has.
fn binary(n: u64) -> (out: (String, usize))
    ensures
        out.0@ == binary_text(n as nat),
        out.1 == out.0@.len(),
        1 <= out.1 <= 64,
    decreases n,
{
    proof {
        reveal_strlit("0");
        reveal_strlit("1");
    }
    if n < 2 {
        let text = if n == 0 {
            String::from_str("0")
        } else {
            String::from_str("1")
        };
        assert(text@ =~= seq![bit_char(n as nat)]);
        (text, 1)
    } else {
        let (mut text, len) = binary(n / 2);
        proof {
            lemma_binary_len(n as nat / 2);
            lemma_binary_len(n as nat);
        }
        if n % 2 == 0 {
            text.append("0");
        } else {
            text.append("1");
        }
        assert(text@ =~= binary_text(n as nat / 2).push(bit_char(n as nat % 2)));
        (text, len + 1)
    }
}

/// The largest number with at most `digits` binary digits, plus one.
pub open spec fn pow2(digits: nat) -> nat
    decreases digits,
{
    if digits == 0 {
        1
    } else {
        2 * pow2((digits - 1) as nat)
    }
}

/// A number below `2^k` has at most `k` binary digits, for `k > 0`.
pub proof fn lemma_binary_digits(n: nat, k: nat)
    requires
        k > 0,
        n < pow2(k),
    ensures
        binary_text(n).len() <= k,
    decreases n,
{
    if n >= 2 {
        assert(pow2(k) == 2 * pow2((k - 1) as nat));
        if k == 1 {
            assert(pow2(0) == 1);
        } else {
            lemma_binary_digits(n / 2, (k - 1) as nat);
        }
    }
}

/// A 64-bit number has at most 64 binary digits.
pub proof fn lemma_binary_len(n: nat)
    requires
        n <= u64::MAX,
    ensures
        1 <= binary_text(n).len() <= 64,
{
    assert(pow2(64) == 0x1_0000_0000_0000_0000) by {
        reveal_with_fuel(pow2, 65);
    }
    lemma_binary_digits(n, 64);
}

/// The file name of the segment with the number `index`.
pub fn segment_name(index: usize) -> (name: String)
    ensures
        name@ == segment_name_text(index as nat),
{
    let (digits, len) = binary(index as u64);
    if len < 10 {
        let mut name = String::new();
        let mut i: usize = len;
        while i < 10
            invariant
                len <= i <= 10,
                name@ == zeros((i - len) as nat),
            decreases 10 - i,
        {
            proof {
                reveal_strlit("0");
            }
            name.append("0");
            assert(name@ =~= zeros((i + 1 - len) as nat));
            i += 1;
        }
        name.append(digits.as_str());
        name
    } else {
        digits
    }
}

/// Whether the text `a` sorts before the text `b`: at the first place
/// where they differ `a` has the smaller character, or `a` ends there and
/// `b` goes on.
pub open spec fn sorts_before(a: Seq<char>, b: Seq<char>) -> bool {
    exists|k: int|
        0 <= k <= a.len() && k <= b.len() && #[trigger] a.subrange(0, k) == b.subrange(0, k) && (if k
            < a.len() {
            k < b.len() && (a[k] as u32) < (b[k] as u32)
        } else {
            k < b.len()
        })
}

/// A number in binary notation with exactly `width` digits: its low
/// `width` bits.
pub open spec fn bits(n: nat, width: nat) -> Seq<char>
    decreases width,
{
    if width == 0 {
        Seq::empty()
    } else {
        bits(n / 2, (width - 1) as nat).push(bit_char(n % 2))
    }
}

/// A number with `width` binary digits has `width` digits, and zero has
/// only zeros.
pub proof fn lemma_bits_len(n: nat, width: nat)
    ensures
        bits(n, width).len() == width,
        n == 0 ==> bits(n, width) == zeros(width),
    decreases width,
{
    if width > 0 {
        lemma_bits_len(n / 2, (width - 1) as nat);
        if n == 0 {
            assert(bits(n, width) == zeros(width));
        }
    } else {
        assert(bits(n, width) == zeros(width));
    }
}

/// A number that fits into `width` binary digits, filled with zeros from
/// the left to `width` digits, is its low `width` bits.
pub proof fn lemma_filled_is_bits(n: nat, width: nat)
    requires
        width > 0,
        n < pow2(width),
    ensures
        binary_text(n).len() <= width,
        zeros((width - binary_text(n).len()) as nat) + binary_text(n) == bits(n, width),
    decreases n,
{
    lemma_binary_digits(n, width);
    if n < 2 {
        lemma_bits_len(0, (width - 1) as nat);
        assert(n / 2 == 0);
        assert(zeros((width - 1) as nat) + seq![bit_char(n)] == zeros((width - 1) as nat).push(bit_char(n)));
    } else {
        assert(pow2(width) == 2 * pow2((width - 1) as nat));
        if width == 1 {
            assert(pow2(0) == 1);
        }
        lemma_filled_is_bits(n / 2, (width - 1) as nat);
        let high = binary_text(n / 2);
        let fill = zeros((width - 1 - high.len()) as nat);
        assert(binary_text(n) == high.push(bit_char(n % 2)));
        assert(zeros((width - binary_text(n).len()) as nat) == fill);
        assert(fill + high.push(bit_char(n % 2)) == (fill + high).push(bit_char(n % 2)));
    }
}

/// Of two numbers with the same number of binary digits the smaller sorts
/// first.
pub proof fn lemma_bits_order(i: nat, j: nat, width: nat)
    requires
        i < j < pow2(width),
    ensures
        sorts_before(bits(i, width), bits(j, width)),
    decreases width,
{
    if width == 0 {
        assert(pow2(0) == 1);
    } else {
        let a = bits(i, width);
        let b = bits(j, width);
        let high_a = bits(i / 2, (width - 1) as nat);
        let high_b = bits(j / 2, (width - 1) as nat);
        lemma_bits_len(i / 2, (width - 1) as nat);
        lemma_bits_len(j / 2, (width - 1) as nat);
        assert(pow2(width) == 2 * pow2((width - 1) as nat));
        if i / 2 < j / 2 {
            lemma_bits_order(i / 2, j / 2, (width - 1) as nat);
            let k = choose|k: int|
                0 <= k <= high_a.len() && k <= high_b.len() && #[trigger] high_a.subrange(0, k) == high_b.subrange(
                    0,
                    k,
                ) && (if k < high_a.len() {
                    k < high_b.len() && (high_a[k] as u32) < (high_b[k] as u32)
                } else {
                    k < high_b.len()
                });
            assert(k < width - 1);
            assert(a.subrange(0, k) == high_a.subrange(0, k));
            assert(b.subrange(0, k) == high_b.subrange(0, k));
            assert(a[k] == high_a[k] && b[k] == high_b[k]);
            assert(a.subrange(0, k) == b.subrange(0, k));
        } else {
            assert(i / 2 == j / 2);
            assert(i % 2 == 0 && j % 2 == 1);
            let k = width - 1;
            assert(a.subrange(0, k) == high_a);
            assert(b.subrange(0, k) == high_b);
            assert(a[k] == '0' && b[k] == '1');
            assert(('0' as u32) < ('1' as u32));
            assert(a.subrange(0, k) == b.subrange(0, k));
        }
    }
}

/// The names of the segments sort as their numbers do, as long as the
/// numbers have at most ten binary digits: so the segment files of a
/// stream, sorted by name, are in the order in which they were opened.
pub proof fn lemma_segment_names_sort_as_numbers(i: nat, j: nat)
    requires
        i < j < 1024,
    ensures
        sorts_before(segment_name_text(i), segment_name_text(j)),
{
    assert(pow2(10) == 1024) by {
        reveal_with_fuel(pow2, 11);
    }
    lemma_filled_is_bits(i, 10);
    lemma_filled_is_bits(j, 10);
    lemma_bits_len(i, 10);
    lemma_bits_len(j, 10);
    if binary_text(i).len() == 10 {
        assert(zeros(0) + binary_text(i) == binary_text(i));
    }
    if binary_text(j).len() == 10 {
        assert(zeros(0) + binary_text(j) == binary_text(j));
    }
    lemma_bits_order(i, j, 10);
}

/// Whether the index entries come in the order of their timestamps.
pub open spec fn ordered(indexes: Seq<Index>) -> bool {
    forall|i: int, j: int| 0 <= i <= j < indexes.len() ==> indexes[i].ts.0 <= indexes[j].ts.0
}

/// The number of index entries before the timestamp `ts`.
pub open spec fn released_count(indexes: Seq<Index>, ts: u64) -> nat {
    indexes.filter(|x: Index| x.ts.0 < ts).len()
}

/// In an ordered index the entries before a timestamp are a prefix, so
/// their number is the position of the first entry that is not before it.
pub proof fn lemma_released_count(indexes: Seq<Index>, ts: u64, point: int)
    requires
        0 <= point <= indexes.len(),
        forall|i: int| 0 <= i < point ==> indexes[i].ts.0 < ts,
        forall|i: int| point <= i < indexes.len() ==> indexes[i].ts.0 >= ts,
    ensures
        released_count(indexes, ts) == point,
    decreases indexes.len(),
{
    reveal(Seq::filter);
    if indexes.len() > 0 {
        if point == indexes.len() {
            lemma_released_count(indexes.drop_last(), ts, point - 1);
        } else {
            lemma_released_count(indexes.drop_last(), ts, point);
        }
    }
}

/// Where a search by halves for the first entry at or after `ts` ends, if
/// it is made between `lo` and `hi`.
pub open spec fn search(indexes: Seq<Index>, ts: u64, lo: int, hi: int) -> int
    decreases hi - lo,
{
    if lo >= hi {
        lo
    } else {
        let mid = lo + (hi - lo) / 2;
        if 0 <= mid < indexes.len() && indexes[mid].ts.0 < ts {
            search(indexes, ts, mid + 1, hi)
        } else {
            search(indexes, ts, lo, mid)
        }
    }
}

/// The partition point of an index for `ts`: where the search by halves
/// over the whole index ends. In an index that is in order this is the
/// number of the entries before `ts`; in any other index it is some
/// position of the index and means nothing.
pub open spec fn partition(indexes: Seq<Index>, ts: u64) -> int {
    search(indexes, ts, 0, indexes.len() as int)
}

/// A search ends between its bounds.
pub proof fn lemma_search_bounds(indexes: Seq<Index>, ts: u64, lo: int, hi: int)
    requires
        lo <= hi,
    ensures
        lo <= search(indexes, ts, lo, hi) <= hi,
    decreases hi - lo,
{
    if lo < hi {
        let mid = lo + (hi - lo) / 2;
        if 0 <= mid < indexes.len() && indexes[mid].ts.0 < ts {
            lemma_search_bounds(indexes, ts, mid + 1, hi);
        } else {
            lemma_search_bounds(indexes, ts, lo, mid);
        }
    }
}

/// In an index that is in order a search ends at the first entry at or
/// after `ts`, if every entry before `lo` lies before `ts` and every entry
/// from `hi` on does not.
pub proof fn lemma_search_of_ordered(indexes: Seq<Index>, ts: u64, lo: int, hi: int)
    requires
        ordered(indexes),
        0 <= lo <= hi <= indexes.len(),
        forall|i: int| 0 <= i < lo ==> indexes[i].ts.0 < ts,
        forall|i: int| hi <= i < indexes.len() ==> indexes[i].ts.0 >= ts,
    ensures
        forall|i: int| 0 <= i < search(indexes, ts, lo, hi) ==> indexes[i].ts.0 < ts,
        forall|i: int| search(indexes, ts, lo, hi) <= i < indexes.len() ==> indexes[i].ts.0 >= ts,
    decreases hi - lo,
{
    if lo < hi {
        let mid = lo + (hi - lo) / 2;
        if indexes[mid].ts.0 < ts {
            assert forall|i: int| 0 <= i < mid + 1 implies indexes[i].ts.0 < ts by {
                assert(indexes[i].ts.0 <= indexes[mid].ts.0);
            }
            lemma_search_of_ordered(indexes, ts, mid + 1, hi);
        } else {
            assert forall|i: int| mid <= i < indexes.len() implies indexes[i].ts.0 >= ts by {
                assert(indexes[mid].ts.0 <= indexes[i].ts.0);
            }
            lemma_search_of_ordered(indexes, ts, lo, mid);
        }
    }
}

/// In an index that is in order the partition point for `ts` is the number
/// of the entries before `ts`: they are the entries before the point, and
/// no entry from the point on lies before `ts`.
pub proof fn lemma_partition_of_ordered(indexes: Seq<Index>, ts: u64)
    requires
        ordered(indexes),
    ensures
        partition(indexes, ts) == released_count(indexes, ts),
        forall|i: int| 0 <= i < partition(indexes, ts) ==> indexes[i].ts.0 < ts,
        forall|i: int| partition(indexes, ts) <= i < indexes.len() ==> indexes[i].ts.0 >= ts,
{
    lemma_search_bounds(indexes, ts, 0, indexes.len() as int);
    lemma_search_of_ordered(indexes, ts, 0, indexes.len() as int);
    lemma_released_count(indexes, ts, partition(indexes, ts));
}

/// The partition point of the index for `ts`, found by halves.
pub fn partition_point(indexes: &VecDeque<Index>, ts: Timestamp) -> (point: usize)
    ensures
        point == partition(indexes@, ts.0),
        point <= indexes@.len(),
{
    let mut lo: usize = 0;
    let mut hi: usize = indexes.len();
    while lo < hi
        invariant
            lo <= hi <= indexes.len(),
            partition(indexes@, ts.0) == search(indexes@, ts.0, lo as int, hi as int),
        decreases hi - lo,
    {
        let mid = lo + (hi - lo) / 2;
        if indexes[mid].ts.0 < ts.0 {
            lo = mid + 1;
        } else {
            hi = mid;
        }
    }
    lo
}

/// What is read of the segment at `position` for events from `from` on:
/// nothing if the segment ends before `from`; else from the location of
/// `from`, if the segment starts before it, or from the segment's start,
/// up to the end of its last event.
pub open spec fn read_of(segment: SegmentMeta, position: int, from: Index) -> Option<ReadRange> {
    if segment.end_index.ts.0 < from.ts.0 {
        None
    } else {
        Some(
            ReadRange {
                segment: position as usize,
                start: if segment.start_index.ts.0 < from.ts.0 {
                    from.location
                } else {
                    segment.start_index.location
                },
                end: (segment.end_index.location + segment.end_index.size) as u64,
            },
        )
    }
}

/// The reads for events from `from` on, over the segments from `position`
/// down to the first, in that order.
pub open spec fn reads_down_from(segments: Seq<SegmentMeta>, position: int, from: Index) -> Seq<ReadRange>
    decreases position + 1,
{
    if position < 0 || position >= segments.len() {
        Seq::empty()
    } else {
        let rest = reads_down_from(segments, position - 1, from);
        match read_of(segments[position], position, from) {
            Some(range) => seq![range] + rest,
            None => rest,
        }
    }
}

/// The reads that give the events at or after `ts`: none if the partition
/// point for `ts` is the end of the index; else, with `from` the entry at
/// the point, the reads for `from` over all segments, the last segment
/// first.
pub open spec fn read_plan(indexes: Seq<Index>, segments: Seq<SegmentMeta>, ts: u64) -> Seq<ReadRange> {
    let point = partition(indexes, ts);
    if point >= indexes.len() {
        Seq::empty()
    } else {
        reads_down_from(segments, segments.len() - 1, indexes[point])
    }
}

/// Whether the end of the last event of every segment is a location.
pub open spec fn ends_fit(segments: Seq<SegmentMeta>) -> bool {
    forall|i: int|
        0 <= i < segments.len() ==> (#[trigger] segments[i]).end_index.location + segments[i].end_index.size
            <= u64::MAX
}

/// Plans the reads that give the events at or after `ts`.
pub fn plan_read(indexes: &VecDeque<Index>, segments: &VecDeque<SegmentMeta>, ts: Timestamp) -> (reads: Vec<
    ReadRange,
>)
    requires
        ends_fit(segments@),
    ensures
        reads@ == read_plan(indexes@, segments@, ts.0),
{
    let offset = partition_point(indexes, ts);
    let mut reads: Vec<ReadRange> = Vec::new();
    if offset >= indexes.len() {
        return reads;
    }
    let from = indexes[offset];
    let mut i: usize = segments.len();
    let ghost top = segments@.len() - 1;
    while i > 0
        invariant
            i <= segments.len(),
            ends_fit(segments@),
            top == segments@.len() - 1,
            reads@ + reads_down_from(segments@, i - 1, from) == reads_down_from(segments@, top, from),
        decreases i,
    {
        i -= 1;
        let segment = segments[i];
        let ghost before = reads@;
        if segment.end_index.ts.0 >= from.ts.0 {
            let start = if segment.start_index.ts.0 < from.ts.0 {
                from.location
            } else {
                segment.start_index.location
            };
            reads.push(ReadRange { segment: i, start, end: segment.end_index.location + segment.end_index.size });
            assert(reads@ + reads_down_from(segments@, i - 1, from) == before + (seq![reads@.last()]
                + reads_down_from(segments@, i - 1, from)));
        }
    }
    assert(reads_down_from(segments@, -1, from) == Seq::<ReadRange>::empty());
    assert(reads@ + Seq::<ReadRange>::empty() == reads@);
    reads
}

/// The positions of the segments that a release up to `ts` deletes, over
/// the segments from `position` down to the first: those whose last event
/// lies before `ts`.
pub open spec fn released_down_from(segments: Seq<SegmentMeta>, position: int, ts: u64) -> Seq<usize>
    decreases position + 1,
{
    if position < 0 || position >= segments.len() {
        Seq::empty()
    } else {
        let rest = released_down_from(segments, position - 1, ts);
        if segments[position].end_index.ts.0 < ts {
            seq![position as usize] + rest
        } else {
            rest
        }
    }
}

/// Plans the release of the events before `ts`: the segments that hold
/// only such events are deleted, the last first; the index entries before
/// the partition point for `ts` are dropped; `ts` is recorded, most
/// significant byte first.
pub fn plan_release(indexes: &VecDeque<Index>, segments: &VecDeque<SegmentMeta>, ts: Timestamp) -> (plan:
    ReleasePlan)
    ensures
        plan.released == partition(indexes@, ts.0),
        plan.segments@ == released_down_from(segments@, segments@.len() - 1, ts.0),
        plan.stamp@ == be_bytes(ts.0),
{
    let released = partition_point(indexes, ts);
    let mut gone: Vec<usize> = Vec::new();
    let mut i: usize = segments.len();
    let ghost top = segments@.len() - 1;
    while i > 0
        invariant
            i <= segments.len(),
            top == segments@.len() - 1,
            gone@ + released_down_from(segments@, i - 1, ts.0) == released_down_from(segments@, top, ts.0),
        decreases i,
    {
        i -= 1;
        let ghost before = gone@;
        if segments[i].end_index.ts.0 < ts.0 {
            gone.push(i);
            assert(gone@ + released_down_from(segments@, i - 1, ts.0) == before + (seq![i] + released_down_from(
                segments@,
                i - 1,
                ts.0,
            )));
        }
    }
    assert(released_down_from(segments@, -1, ts.0) == Seq::<usize>::empty());
    assert(gone@ + Seq::<usize>::empty() == gone@);
    ReleasePlan { segments: gone, released, stamp: ts.serialize() }
}

/// The index entries that survive a recovery: all of them if nothing was
/// released, else those at or after the release timestamp.
pub open spec fn recovered(found: Seq<Index>, release_ts: Option<u64>) -> Seq<Index> {
    match release_ts {
        Some(ts) => found.filter(|x: Index| x.ts.0 >= ts),
        None => found,
    }
}

/// Adds to the index the entries to keep of those found in a segment
/// file, in order, given the release timestamp that was recorded, if any.
pub fn recover_indexes(indexes: &mut VecDeque<Index>, found: &Vec<Index>, release_ts: Option<u64>)
    ensures
        final(indexes)@ == old(indexes)@ + recovered(found@, release_ts),
{
    let mut i: usize = 0;
    match release_ts {
        None => {
            assert(old(indexes)@ + found@.take(0) == old(indexes)@);
            while i < found.len()
                invariant
                    i <= found.len(),
                    indexes@ == old(indexes)@ + found@.take(i as int),
                decreases found.len() - i,
            {
                indexes.push_back(found[i]);
                assert(found@.take(i + 1) == found@.take(i as int).push(found@[i as int]));
                i += 1;
            }
            assert(found@.take(found.len() as int) == found@);
        },
        Some(ts) => {
            let ghost keeps = |x: Index| x.ts.0 >= ts;
            proof {
                reveal(Seq::filter);
                assert(old(indexes)@ + found@.take(0).filter(keeps) == old(indexes)@);
            }
            while i < found.len()
                invariant
                    i <= found.len(),
                    keeps == |x: Index| x.ts.0 >= ts,
                    indexes@ == old(indexes)@ + found@.take(i as int).filter(keeps),
                decreases found.len() - i,
            {
                let index = found[i];
                proof {
                    reveal(Seq::filter);
                    assert(found@.take(i + 1).drop_last() == found@.take(i as int));
                }
                if index.ts.0 >= ts {
                    indexes.push_back(index);
                    assert(indexes@ == old(indexes)@ + found@.take(i as int).filter(keeps).push(index));
                }
                i += 1;
            }
            assert(found@.take(found.len() as int) == found@);
        },
    }
}

/// The number of the segment to open before an event is appended, if one
/// has to be opened: the stream has no segment yet, or its newest segment
/// is full. Segments are numbered from 1.
pub fn next_segment(segments: usize, newest_is_full: bool) -> (number: Option<usize>)
    requires
        segments < usize::MAX,
    ensures
        number == if segments == 0 || newest_is_full {
            Some((segments + 1) as usize)
        } else {
            None
        },
{
    if segments == 0 || newest_is_full {
        Some(segments + 1)
    } else {
        None
    }
}

} // verus!
