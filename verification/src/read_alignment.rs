//! The alignment accessor: a gapped base-level alignment of one read against
//! the reference, with the reference span it covers, coordinate mapping from
//! reference positions to alignment columns, and extraction of column ranges.

use vstd::prelude::*;

use crate::rules::GAP;
use crate::rules::is_alignment_symbol;
use crate::rules::is_gap;

verus! {

/// Count of non-gap columns in a gapped alignment string: the number of real
/// bases it spells out.
pub open spec fn count_non_gap(s: Seq<u8>) -> int
    decreases s.len(),
{
    if s.len() == 0 {
        0
    } else {
        count_non_gap(s.drop_last()) + if is_gap(s.last()) {
            0int
        } else {
            1int
        }
    }
}

/// The alignment column of the `k`-th reference base of the string: the
/// smallest column count `c` such that the first `c` columns hold exactly `k`
/// non-gap symbols. Columns beyond the last counted base are excluded, so a
/// boundary falls before any run of inserted (reference-gap) columns.
pub open spec fn col_of(s: Seq<u8>, k: int) -> int
    decreases s.len(),
{
    if k <= 0 || s.len() == 0 {
        0
    } else if is_gap(s.first()) {
        1 + col_of(s.drop_first(), k)
    } else {
        1 + col_of(s.drop_first(), k - 1)
    }
}

/// A gapped alignment of one read against the reference. `read_aln` and
/// `ref_aln` have one symbol per alignment column; a gap on the reference
/// side is an insertion in the read, a gap on the read side a deletion.
/// `pos` is the first reference position the alignment covers and
/// `aligned_end` the position one past the last covered reference base.
#[derive(Debug)]
pub struct ReadAlignment {
    pub pos: u32,
    pub aligned_end: u32,
    pub read_aln: Vec<u8>,
    pub ref_aln: Vec<u8>,
}

impl ReadAlignment {
    /// Well-formedness: the two gapped strings pair up column by column, a
    /// column is a gap on at most one side, every symbol is from the
    /// alignment alphabet, and `aligned_end` equals `pos` plus the number of
    /// reference bases the alignment spells out.
    pub open spec fn wf(self) -> bool {
        &&& self.read_aln@.len() == self.ref_aln@.len()
        &&& forall|i: int|
            0 <= i < self.read_aln@.len() ==> !(is_gap(self.read_aln@[i]) && is_gap(
                self.ref_aln@[i],
            ))
        &&& forall|i: int|
            0 <= i < self.read_aln@.len() ==> is_alignment_symbol(self.read_aln@[i])
                && is_alignment_symbol(self.ref_aln@[i])
        &&& self.aligned_end == self.pos + count_non_gap(self.ref_aln@)
    }

    /// Builds a well-formed alignment from the covered start position and the
    /// two gapped strings, deriving the covered end position.
    pub fn new(pos: u32, read_aln: Vec<u8>, ref_aln: Vec<u8>) -> (ra: ReadAlignment)
        requires
            read_aln@.len() == ref_aln@.len(),
            forall|i: int|
                0 <= i < read_aln@.len() ==> !(is_gap(read_aln@[i]) && is_gap(ref_aln@[i])),
            forall|i: int|
                0 <= i < read_aln@.len() ==> is_alignment_symbol(read_aln@[i])
                    && is_alignment_symbol(ref_aln@[i]),
            pos + count_non_gap(ref_aln@) <= u32::MAX,
        ensures
            ra.wf(),
            ra.pos == pos,
            ra.read_aln == read_aln,
            ra.ref_aln == ref_aln,
            ra.aligned_end == pos + count_non_gap(ref_aln@),
    {
        let bases = count_non_gap_columns(&ref_aln);
        ReadAlignment { pos, aligned_end: pos + (bases as u32), read_aln, ref_aln }
    }

    /// Maps a reference position within the covered span to its alignment
    /// column.
    pub fn get_aligned_index(&self, ref_pos: u32) -> (c: usize)
        requires
            self.wf(),
            self.pos <= ref_pos <= self.aligned_end,
        ensures
            c == col_of(self.ref_aln@, ref_pos - self.pos),
            c <= self.ref_aln@.len(),
    {
        let k: usize = (ref_pos - self.pos) as usize;
        let ghost s = self.ref_aln@;
        let total: usize = self.ref_aln.len();
        let mut c: usize = 0;
        let mut cnt: usize = 0;
        proof {
            assert(s.skip(0) =~= s);
        }
        while cnt < k
            invariant
                cnt <= k,
                c <= s.len(),
                s.len() == total,
                s == self.ref_aln@,
                k == ref_pos - self.pos,
                k - cnt <= count_non_gap(s.skip(c as int)),
                col_of(s, k as int) == c + col_of(s.skip(c as int), k - cnt),
            decreases s.len() - c,
        {
            proof {
                if c == s.len() {
                    assert(s.skip(c as int).len() == 0);
                    assert(count_non_gap(s.skip(c as int)) == 0);
                    assert(false);
                }
                assert(c < s.len());
                assert(s.skip(c as int).first() == s[c as int]);
                assert(s.skip(c as int).drop_first() =~= s.skip(c + 1));
                lemma_count_non_gap_first(s.skip(c as int));
            }
            if self.ref_aln[c] != GAP {
                cnt += 1;
            }
            c += 1;
        }
        c
    }

    /// Extracts the window pair for an alignment-column range: the read-side
    /// and reference-side strings of those columns.
    pub fn extract_alignment(&self, start: usize, stop: usize) -> (pair: (Vec<u8>, Vec<u8>))
        requires
            self.wf(),
            start <= stop <= self.read_aln@.len(),
        ensures
            pair.0@ == self.read_aln@.subrange(start as int, stop as int),
            pair.1@ == self.ref_aln@.subrange(start as int, stop as int),
    {
        let mut read_win: Vec<u8> = Vec::new();
        let mut ref_win: Vec<u8> = Vec::new();
        let mut i: usize = start;
        while i < stop
            invariant
                start <= i <= stop,
                stop <= self.read_aln@.len(),
                self.read_aln@.len() == self.ref_aln@.len(),
                read_win@ == self.read_aln@.subrange(start as int, i as int),
                ref_win@ == self.ref_aln@.subrange(start as int, i as int),
            decreases stop - i,
        {
            read_win.push(self.read_aln[i]);
            ref_win.push(self.ref_aln[i]);
            proof {
                assert(read_win@ =~= self.read_aln@.subrange(start as int, i + 1));
                assert(ref_win@ =~= self.ref_aln@.subrange(start as int, i + 1));
            }
            i += 1;
        }
        (read_win, ref_win)
    }
}

/// Number of non-gap columns of `v`.
pub fn count_non_gap_columns(v: &Vec<u8>) -> (n: usize)
    ensures
        n == count_non_gap(v@),
        n <= v@.len(),
{
    let mut n: usize = 0;
    let mut i: usize = 0;
    while i < v.len()
        invariant
            i <= v@.len(),
            n == count_non_gap(v@.take(i as int)),
            n <= i,
        decreases v@.len() - i,
    {
        proof {
            assert(v@.take(i + 1).drop_last() =~= v@.take(i as int));
            assert(v@.take(i + 1).last() == v@[i as int]);
        }
        if v[i] != GAP {
            n += 1;
        }
        i += 1;
    }
    proof {
        assert(v@.take(v@.len() as int) =~= v@);
    }
    n
}

proof fn lemma_count_non_gap_first(s: Seq<u8>)
    requires
        s.len() > 0,
    ensures
        count_non_gap(s) == count_non_gap(s.drop_first()) + if is_gap(s.first()) {
            0int
        } else {
            1int
        },
    decreases s.len(),
{
    if s.len() > 1 {
        lemma_count_non_gap_first(s.drop_last());
        assert(s.drop_last().drop_first() =~= s.drop_first().drop_last());
        assert(s.drop_first().last() == s.last());
        assert(s.drop_last().first() == s.first());
        assert(count_non_gap(s.drop_first()) == count_non_gap(s.drop_first().drop_last())
            + if is_gap(s.drop_first().last()) {
            0int
        } else {
            1int
        });
    } else {
        assert(s.drop_first().len() == 0);
        assert(count_non_gap(s.drop_first()) == 0);
        assert(s.drop_last().len() == 0);
        assert(count_non_gap(s) == count_non_gap(s.drop_last()) + if is_gap(s.last()) {
            0int
        } else {
            1int
        });
        assert(s.first() == s.last());
    }
}

/// Column bounds of the coordinate mapping: a mapped column never lies past
/// the end of the alignment.
pub proof fn lemma_col_of_bounds(s: Seq<u8>, k: int)
    ensures
        0 <= col_of(s, k) <= s.len(),
    decreases s.len(),
{
    if !(k <= 0 || s.len() == 0) {
        if is_gap(s.first()) {
            lemma_col_of_bounds(s.drop_first(), k);
        } else {
            lemma_col_of_bounds(s.drop_first(), k - 1);
        }
    }
}

/// No window extracted from a well-formed alignment holds a column that is a
/// gap on both sides: a gap stands for a base present on exactly one side.
/// The read-side and reference-side gap conditions of the body rules are
/// therefore decided by distinct columns, and a single column never
/// satisfies both at once.
pub proof fn lemma_window_gap_exclusive(ra: ReadAlignment, start: int, stop: int)
    requires
        ra.wf(),
        0 <= start <= stop <= ra.read_aln@.len(),
    ensures
        forall|i: int|
            0 <= i < stop - start ==> !(is_gap(ra.read_aln@.subrange(start, stop)[i]) && is_gap(
                ra.ref_aln@.subrange(start, stop)[i],
            )),
{
    assert forall|i: int|
        0 <= i < stop - start implies !(is_gap(ra.read_aln@.subrange(start, stop)[i]) && is_gap(
        ra.ref_aln@.subrange(start, stop)[i],
    )) by {
        assert(ra.read_aln@.subrange(start, stop)[i] == ra.read_aln@[start + i]);
        assert(ra.ref_aln@.subrange(start, stop)[i] == ra.ref_aln@[start + i]);
    }
}

/// Monotonicity of the coordinate mapping: a later reference position never
/// maps to an earlier alignment column.
pub proof fn lemma_col_of_monotonic(s: Seq<u8>, k1: int, k2: int)
    requires
        k1 <= k2,
    ensures
        col_of(s, k1) <= col_of(s, k2),
    decreases s.len(),
{
    if k1 <= 0 || s.len() == 0 {
        lemma_col_of_bounds(s, k2);
        if k1 <= 0 && !(k2 <= 0 || s.len() == 0) {
            assert(col_of(s, k1) == 0);
        }
    } else {
        if is_gap(s.first()) {
            lemma_col_of_monotonic(s.drop_first(), k1, k2);
        } else {
            lemma_col_of_monotonic(s.drop_first(), k1 - 1, k2 - 1);
        }
    }
}

} // verus!
