use vstd::prelude::*;
use crate::format::{Header, ReadError, HEADER_SIZE};

verus! {

/// Sum of a sequence of byte lengths.
pub open spec fn total_length(s: Seq<u64>) -> int
    decreases s.len(),
{
    if s.len() == 0 {
        0
    } else {
        total_length(s.drop_last()) + s.last()
    }
}

/// Where the asset placed `i`-th starts when assets of the given lengths are laid out
/// back to back from `start`.
pub open spec fn placed_at(start: int, lengths: Seq<u64>, i: int) -> int {
    start + total_length(lengths.subrange(0, i))
}

/// The lengths of a sequence of rows.
pub open spec fn lengths_of(rows: Seq<MediaData>) -> Seq<u64> {
    rows.map_values(|m: MediaData| m.length)
}

/// Where one media asset lives inside a pack.
#[derive(Debug, Clone, Copy, PartialEq, Eq, Structural)]
pub struct MediaData {
    pub id: i64,
    pub offset: u64,
    pub length: u64,
}

/// The two trailing blocks of a pack, as offsets from the start of the file.
#[derive(Debug, Clone, Copy, PartialEq, Eq, Structural)]
pub struct PackLayout {
    pub metadata_offset: u64,
    pub metadata_length: u64,
    pub index_offset: u64,
    pub index_length: u64,
}

proof fn lemma_total_step(s: Seq<u64>, i: int)
    requires
        0 <= i < s.len(),
    ensures
        total_length(s.subrange(0, i + 1)) == total_length(s.subrange(0, i)) + s[i],
{
    assert(s.subrange(0, i + 1).drop_last() =~= s.subrange(0, i));
}

proof fn lemma_total_nonneg(s: Seq<u64>)
    ensures
        total_length(s) >= 0,
    decreases s.len(),
{
    if s.len() > 0 {
        lemma_total_nonneg(s.drop_last());
    }
}

proof fn lemma_total_mono(s: Seq<u64>, i: int, j: int)
    requires
        0 <= i <= j <= s.len(),
    ensures
        total_length(s.subrange(0, i)) <= total_length(s.subrange(0, j)),
    decreases j - i,
{
    if i < j {
        lemma_total_mono(s, i, j - 1);
        lemma_total_step(s, j - 1);
    }
}

/// Assets laid out back to back touch: each one ends where the next starts, and the
/// last one ends `total_length` bytes after `start`.
pub proof fn lemma_layout_partition(start: int, lengths: Seq<u64>)
    ensures
        forall|i: int|
            0 <= i < lengths.len() ==> #[trigger] placed_at(start, lengths, i) + lengths[i]
                == placed_at(start, lengths, i + 1),
        placed_at(start, lengths, lengths.len() as int) == start + total_length(lengths),
{
    assert forall|i: int| 0 <= i < lengths.len() implies #[trigger] placed_at(start, lengths, i)
        + lengths[i] == placed_at(start, lengths, i + 1) by {
        lemma_total_step(lengths, i);
    }
    assert(lengths.subrange(0, lengths.len() as int) =~= lengths);
}

/// Offsets at which assets of the given lengths go when written back to back from
/// `start`; `None` where the end of the last one would not fit in a `u64`.
pub fn layout_offsets(start: u64, lengths: &Vec<u64>) -> (r: Option<Vec<u64>>)
    ensures
        r is Some <==> start + total_length(lengths@) <= u64::MAX,
        r is Some ==> r->0@.len() == lengths@.len() && forall|i: int|
            0 <= i < lengths@.len() ==> r->0@[i] == placed_at(start as int, lengths@, i),
{
    let mut out: Vec<u64> = Vec::new();
    let mut next: u64 = start;
    let mut i: usize = 0;
    proof {
        assert(lengths@.subrange(0, 0) =~= Seq::<u64>::empty());
    }
    while i < lengths.len()
        invariant
            i <= lengths@.len(),
            out@.len() == i,
            next == placed_at(start as int, lengths@, i as int),
            forall|k: int| 0 <= k < i ==> out@[k] == placed_at(start as int, lengths@, k),
        decreases lengths@.len() - i,
    {
        proof {
            lemma_total_step(lengths@, i as int);
        }
        out.push(next);
        match next.checked_add(lengths[i]) {
            Some(n) => {
                next = n;
            },
            None => {
                proof {
                    lemma_total_mono(lengths@, i as int + 1, lengths@.len() as int);
                    assert(lengths@.subrange(0, lengths@.len() as int) =~= lengths@);
                }
                return None;
            },
        }
        i = i + 1;
    }
    assert(lengths@.subrange(0, lengths@.len() as int) =~= lengths@);
    Some(out)
}

/// Gives each row the offset it gets when the rows are packed back to back from
/// `start`, in the order given, keeping ids and lengths; `None` where the end would
/// not fit in a `u64`. This closes the gaps that deleted rows left behind.
pub fn compact(rows: &Vec<MediaData>, start: u64) -> (r: Option<Vec<MediaData>>)
    ensures
        r is Some <==> start + total_length(lengths_of(rows@)) <= u64::MAX,
        r is Some ==> r->0@.len() == rows@.len() && forall|i: int|
            0 <= i < rows@.len() ==> (#[trigger] r->0@[i]).id == rows@[i].id && r->0@[i].length
                == rows@[i].length && r->0@[i].offset == placed_at(
                start as int,
                lengths_of(rows@),
                i,
            ),
{
    let ghost lens = lengths_of(rows@);
    let mut out: Vec<MediaData> = Vec::new();
    let mut next: u64 = start;
    let mut i: usize = 0;
    proof {
        assert(lens.subrange(0, 0) =~= Seq::<u64>::empty());
    }
    while i < rows.len()
        invariant
            i <= rows@.len(),
            lens == lengths_of(rows@),
            out@.len() == i,
            next == placed_at(start as int, lens, i as int),
            forall|k: int|
                0 <= k < i ==> (#[trigger] out@[k]).id == rows@[k].id && out@[k].length
                    == rows@[k].length && out@[k].offset == placed_at(start as int, lens, k),
        decreases rows@.len() - i,
    {
        proof {
            lemma_total_step(lens, i as int);
        }
        let row = rows[i];
        out.push(MediaData { id: row.id, offset: next, length: row.length });
        match next.checked_add(row.length) {
            Some(n) => {
                next = n;
            },
            None => {
                proof {
                    lemma_total_mono(lens, i as int + 1, lens.len() as int);
                    assert(lens.subrange(0, lens.len() as int) =~= lens);
                }
                return None;
            },
        }
        i = i + 1;
    }
    assert(lens.subrange(0, lens.len() as int) =~= lens);
    Some(out)
}

/// Where the data region ends: the furthest end of a row, and `start` where no row
/// ends later.
pub open spec fn data_end_spec(rows: Seq<MediaData>, start: int) -> int
    decreases rows.len(),
{
    if rows.len() == 0 {
        start
    } else {
        let prev = data_end_spec(rows.drop_last(), start);
        let end = rows.last().offset + rows.last().length;
        if end > prev {
            end
        } else {
            prev
        }
    }
}

/// Where the data region ends, without moving anything: the furthest end of a row (at
/// least `start`); `None` where an end does not fit in a `u64`.
pub fn data_end(rows: &Vec<MediaData>, start: u64) -> (r: Option<u64>)
    ensures
        r is Some <==> forall|i: int| 0 <= i < rows@.len() ==> #[trigger] rows@[i].offset + rows@[i].length <= u64::MAX,
        r matches Some(e) ==> e == data_end_spec(rows@, start as int),
{
    let mut end: u64 = start;
    let mut i: usize = 0;
    while i < rows.len()
        invariant
            i <= rows@.len(),
            end == data_end_spec(rows@.subrange(0, i as int), start as int),
            forall|k: int| 0 <= k < i ==> #[trigger] rows@[k].offset + rows@[k].length <= u64::MAX,
        decreases rows@.len() - i,
    {
        let row = rows[i];
        assert(rows@.subrange(0, i + 1).drop_last() =~= rows@.subrange(0, i as int));
        match row.offset.checked_add(row.length) {
            Some(e) => {
                if e > end {
                    end = e;
                }
            },
            None => {
                return None;
            },
        }
        i = i + 1;
    }
    assert(rows@.subrange(0, rows@.len() as int) =~= rows@);
    Some(end)
}

/// The rows are in offset order.
pub open spec fn offset_sorted(rows: Seq<MediaData>) -> bool {
    forall|i: int, j: int| 0 <= i <= j < rows.len() ==> rows[i].offset <= rows[j].offset
}

/// The rows in offset order; rows with equal offsets keep their relative order.
pub fn sort_by_offset(rows: &Vec<MediaData>) -> (r: Vec<MediaData>)
    ensures
        r@.to_multiset() == rows@.to_multiset(),
        offset_sorted(r@),
        exists|from: Seq<int>| #[trigger] stable_from(rows@, r@, from),
{
    let mut out: Vec<MediaData> = Vec::new();
    let ghost mut from: Seq<int> = Seq::empty();
    let mut i: usize = 0;
    assert(rows@.subrange(0, 0) =~= out@);
    while i < rows.len()
        invariant
            i <= rows@.len(),
            offset_sorted(out@),
            out@.to_multiset() == rows@.subrange(0, i as int).to_multiset(),
            from.len() == out@.len(),
            from.no_duplicates(),
            forall|m: int| 0 <= m < from.len() ==> 0 <= #[trigger] from[m] < i && out@[m] == rows@[from[m]],
            forall|a: int, b: int|
                0 <= a < b < out@.len() && out@[a].offset == out@[b].offset ==> #[trigger] from[a]
                    < #[trigger] from[b],
        decreases rows@.len() - i,
    {
        let x = rows[i];
        let mut k: usize = 0;
        while k < out.len() && out[k].offset <= x.offset
            invariant
                k <= out@.len(),
                forall|m: int| 0 <= m < k ==> out@[m].offset <= x.offset,
            decreases out@.len() - k,
        {
            k = k + 1;
        }
        let ghost before = out@;
        let ghost old_from = from;
        out.insert(k, x);
        proof {
            from = old_from.insert(k as int, i as int);
            vstd::seq_lib::to_multiset_insert(before, k as int, x);
            vstd::seq_lib::to_multiset_build(rows@.subrange(0, i as int), x);
            assert(rows@.subrange(0, i + 1) =~= rows@.subrange(0, i as int).push(x));
            assert forall|m: int| k <= m < before.len() implies before[m].offset > x.offset by {
                assert(before[k as int].offset > x.offset);
            }
            assert forall|a: int, b: int| 0 <= a <= b < out@.len() implies out@[a].offset
                <= out@[b].offset by {
                if k < before.len() {
                    assert(before[k as int].offset > x.offset);
                }
            }
            assert forall|m: int| 0 <= m < from.len() implies 0 <= #[trigger] from[m] < i + 1
                && out@[m] == rows@[from[m]] by {
                if m < k {
                    assert(from[m] == old_from[m]);
                } else if m > k {
                    assert(from[m] == old_from[m - 1]);
                }
            }
            assert forall|a: int, b: int|
                0 <= a < b < out@.len() && out@[a].offset == out@[b].offset implies #[trigger] from[a]
                < #[trigger] from[b] by {
                if a < k && b < k {
                    assert(old_from[a] < old_from[b]);
                } else if a > k && b > k {
                    assert(old_from[a - 1] < old_from[b - 1]);
                } else if a < k && b > k {
                    assert(before[b - 1].offset > x.offset);
                    assert(before[a].offset <= x.offset);
                } else if a == k {
                    assert(before[b - 1].offset > x.offset);
                } else {
                    assert(from[a] == old_from[a]);
                }
            }
            assert forall|a: int, b: int|
                0 <= a < from.len() && 0 <= b < from.len() && a != b implies from[a] != from[b] by {
                if a != k && b != k {
                    let a0 = if a < k { a } else { a - 1 };
                    let b0 = if b < k { b } else { b - 1 };
                    assert(old_from[a0] != old_from[b0]);
                }
            }
        }
        i = i + 1;
    }
    assert(rows@.subrange(0, rows@.len() as int) =~= rows@);
    assert(stable_from(rows@, out@, from));
    out
}

/// `sorted` holds the rows of `rows` at the positions `from` gives, each row once, and
/// rows with equal offsets in the order they had in `rows`.
pub open spec fn stable_from(rows: Seq<MediaData>, sorted: Seq<MediaData>, from: Seq<int>) -> bool {
    &&& from.len() == sorted.len()
    &&& from.no_duplicates()
    &&& forall|m: int|
        0 <= m < from.len() ==> 0 <= #[trigger] from[m] < rows.len() && sorted[m] == rows[from[m]]
    &&& forall|a: int, b: int|
        0 <= a < b < sorted.len() && sorted[a].offset == sorted[b].offset ==> #[trigger] from[a]
            < #[trigger] from[b]
}

/// Compaction leaves no gaps and keeps the order: the compacted rows touch one another
/// from `start` on, and rows that were in offset order stay in offset order.
pub proof fn lemma_compaction(rows: Seq<MediaData>, start: int, compacted: Seq<MediaData>)
    requires
        compacted.len() == rows.len(),
        forall|i: int|
            0 <= i < rows.len() ==> (#[trigger] compacted[i]).id == rows[i].id
                && compacted[i].length == rows[i].length && compacted[i].offset == placed_at(
                start,
                lengths_of(rows),
                i,
            ),
    ensures
        forall|i: int|
            0 <= i < compacted.len() - 1 ==> #[trigger] compacted[i].offset + compacted[i].length
                == compacted[i + 1].offset,
        compacted.len() > 0 ==> compacted[0].offset == start,
        forall|i: int, j: int|
            0 <= i <= j < rows.len() && rows[i].offset <= rows[j].offset ==> #[trigger] compacted[i].offset
                <= #[trigger] compacted[j].offset,
{
    let lens = lengths_of(rows);
    lemma_layout_partition(start, lens);
    assert forall|i: int| 0 <= i < compacted.len() - 1 implies #[trigger] compacted[i].offset
        + compacted[i].length == compacted[i + 1].offset by {
        assert(placed_at(start, lens, i) + lens[i] == placed_at(start, lens, i + 1));
    }
    if compacted.len() > 0 {
        assert(lens.subrange(0, 0) =~= Seq::<u64>::empty());
    }
    assert forall|i: int, j: int|
        0 <= i <= j < rows.len() && rows[i].offset <= rows[j].offset implies #[trigger] compacted[i].offset
        <= #[trigger] compacted[j].offset by {
        lemma_total_mono(lens, i, j);
    }
}

proof fn lemma_placed_below(rows: Seq<MediaData>, start: int, i: int)
    requires
        0 <= i < rows.len(),
        rows.len() > 0 ==> start <= rows[0].offset,
        forall|k: int|
            0 <= k < rows.len() - 1 ==> #[trigger] rows[k].offset + rows[k].length <= rows[k + 1].offset,
    ensures
        placed_at(start, lengths_of(rows), i) <= rows[i].offset,
    decreases i,
{
    let lens = lengths_of(rows);
    if i == 0 {
        assert(lens.subrange(0, 0) =~= Seq::<u64>::empty());
    } else {
        lemma_placed_below(rows, start, i - 1);
        lemma_total_step(lens, i - 1);
        assert(rows[i - 1].offset + rows[i - 1].length <= rows[i].offset);
    }
}

/// Rows that lie in offset order without overlapping, all at or after `start` and ending
/// within a `u64`, always fit when compacted: `compact` gives `Some` on them.
pub proof fn lemma_compaction_fits(rows: Seq<MediaData>, start: int)
    requires
        rows.len() > 0 ==> start <= rows[0].offset,
        forall|k: int|
            0 <= k < rows.len() - 1 ==> #[trigger] rows[k].offset + rows[k].length <= rows[k + 1].offset,
        forall|k: int| 0 <= k < rows.len() ==> #[trigger] rows[k].offset + rows[k].length <= u64::MAX,
        start <= u64::MAX,
    ensures
        start + total_length(lengths_of(rows)) <= u64::MAX,
{
    let lens = lengths_of(rows);
    assert(lens.subrange(0, lens.len() as int) =~= lens);
    if rows.len() == 0 {
        assert(lens =~= Seq::<u64>::empty());
    } else {
        let n = rows.len() - 1;
        lemma_placed_below(rows, start, n);
        lemma_total_step(lens, n);
        assert(rows[n].offset + rows[n].length <= u64::MAX);
    }
}

/// Compacting rows that lie in offset order without overlapping, all at or after `start`,
/// only moves bytes towards the start: no row ends up after where it was.
pub proof fn lemma_compaction_moves_down(rows: Seq<MediaData>, start: int, compacted: Seq<MediaData>)
    requires
        compacted.len() == rows.len(),
        forall|i: int|
            0 <= i < rows.len() ==> (#[trigger] compacted[i]).id == rows[i].id
                && compacted[i].length == rows[i].length && compacted[i].offset == placed_at(
                start,
                lengths_of(rows),
                i,
            ),
        rows.len() > 0 ==> start <= rows[0].offset,
        forall|k: int|
            0 <= k < rows.len() - 1 ==> #[trigger] rows[k].offset + rows[k].length <= rows[k + 1].offset,
    ensures
        forall|i: int| 0 <= i < rows.len() ==> #[trigger] compacted[i].offset <= rows[i].offset,
{
    assert forall|i: int| 0 <= i < rows.len() implies #[trigger] compacted[i].offset <= rows[i].offset by {
        lemma_placed_below(rows, start, i);
    }
}

impl Header {
    /// The header and the file length of a pack whose data region ends at `data_end`,
    /// followed by a metadata block and an index block of the given sizes; `None` where
    /// the data region ends inside the header or the length does not fit in a `u64`.
    /// Read back, the metadata block starts exactly at `data_end`.
    pub fn trailer_at(data_end: u64, metadata_length: u64, index_length: u64, total_files: u32) -> (r:
        Option<(Header, u64)>)
        ensures
            r is Some <==> HEADER_SIZE <= data_end && data_end + metadata_length + index_length
                <= u64::MAX,
            r matches Some(p) ==> p.0 == (Header { index_length, metadata_length, total_files })
                && p.1 == data_end + metadata_length + index_length && p.0.locate_spec_ok(p.1)
                && p.1 - index_length - metadata_length == data_end,
    {
        if data_end < HEADER_SIZE as u64 {
            return None;
        }
        match data_end.checked_add(metadata_length) {
            None => None,
            Some(a) => match a.checked_add(index_length) {
                None => None,
                Some(len) => Some((Header { index_length, metadata_length, total_files }, len)),
            },
        }
    }
}

impl Header {
    /// Where the metadata and index blocks lie in a pack of `file_len` bytes: the index
    /// block ends the file and the metadata block sits just before it. `Truncated` where
    /// the file is too short to hold the header and both blocks.
    pub fn locate(&self, file_len: u64) -> (r: Result<PackLayout, ReadError>)
        ensures
            r is Ok <==> HEADER_SIZE + self.metadata_length + self.index_length <= file_len,
            r is Err ==> r == Err::<PackLayout, ReadError>(ReadError::Truncated),
            r is Ok ==> r->Ok_0 == (PackLayout {
                metadata_offset: (file_len - self.index_length - self.metadata_length) as u64,
                metadata_length: self.metadata_length,
                index_offset: (file_len - self.index_length) as u64,
                index_length: self.index_length,
            }),
    {
        if file_len < HEADER_SIZE as u64 {
            return Err(ReadError::Truncated);
        }
        let room = file_len - HEADER_SIZE as u64;
        if self.index_length > room || self.metadata_length > room - self.index_length {
            return Err(ReadError::Truncated);
        }
        Ok(
            PackLayout {
                metadata_offset: file_len - self.index_length - self.metadata_length,
                metadata_length: self.metadata_length,
                index_offset: file_len - self.index_length,
                index_length: self.index_length,
            },
        )
    }
}

/// A pack written as header, assets back to back, metadata block, index block is read
/// back with the metadata block starting exactly where the last asset ends.
pub proof fn lemma_metadata_follows_data(
    lengths: Seq<u64>,
    metadata_length: u64,
    index_length: u64,
    total_files: u32,
    file_len: u64,
)
    requires
        file_len == HEADER_SIZE + total_length(lengths) + metadata_length + index_length,
    ensures
        ({
            let h = Header { index_length, metadata_length, total_files };
            let placed = placed_at(HEADER_SIZE as int, lengths, lengths.len() - 1);
            &&& h.locate_spec_ok(file_len)
            &&& lengths.len() > 0 ==> placed + lengths.last() == file_len - index_length
                - metadata_length
        }),
{
    lemma_total_nonneg(lengths);
    lemma_layout_partition(HEADER_SIZE as int, lengths);
    if lengths.len() > 0 {
        assert(placed_at(HEADER_SIZE as int, lengths, lengths.len() - 1) + lengths[lengths.len() - 1]
            == placed_at(HEADER_SIZE as int, lengths, lengths.len() as int));
    }
}

impl Header {
    /// A pack of `file_len` bytes has room for this header's blocks.
    pub open spec fn locate_spec_ok(&self, file_len: u64) -> bool {
        HEADER_SIZE + self.metadata_length + self.index_length <= file_len
    }
}

} // verus!
