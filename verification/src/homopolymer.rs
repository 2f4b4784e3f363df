//! Homopolymer annotations, extracted classification windows, and the scored
//! result.

use vstd::prelude::*;

use crate::read_alignment::ReadAlignment;
use crate::read_alignment::col_of;
use crate::read_alignment::lemma_col_of_monotonic;
use crate::rules::GAP;
use crate::rules::all_match;
use crate::rules::all_match_or_gap;
use crate::rules::classify_windows;
use crate::rules::contains_gap;
use crate::rules::count_gaps_and_matches;
use crate::rules::downstream_deletion_walk;
use crate::rules::downstream_insertion_walk;
use crate::rules::is_nucleotide;
use crate::rules::upstream_deletion_walk;
use crate::rules::upstream_insertion_walk;

verus! {

/// A reference-coordinate annotation of one homopolymer run: a maximal run of
/// `length` copies of `base` on contig `contig`, covering reference positions
/// `start` (inclusive) to `stop` (exclusive).
#[derive(Debug)]
pub struct HomopolymerRecord {
    pub contig: String,
    pub start: u32,
    pub stop: u32,
    pub base: u8,
    pub length: u32,
}

impl HomopolymerRecord {
    /// Well-formedness: the run covers at least one position, its base is a
    /// nucleotide, and its length is small enough for signed 32-bit deltas.
    pub open spec fn wf(self) -> bool {
        &&& self.start < self.stop
        &&& is_nucleotide(self.base)
        &&& 0 < self.length <= i32::MAX
    }
}

/// The anomaly categories a classification can end in when no length delta
/// can be attributed.
#[derive(Clone, Copy, Debug, PartialEq, Eq, Structural)]
pub enum Anomaly {
    /// No flanking sequence on one side of the run: nothing can be checked.
    Skip,
    /// A substitution within an otherwise clean run.
    Mismatch,
    /// A pattern that cannot be confidently attributed to a simple length
    /// change of the run.
    Ambiguous,
}

/// The outcome of classifying one homopolymer against one read: either a
/// signed length difference (read-run length minus reference-run length) or a
/// named anomaly.
#[derive(Clone, Copy, Debug, PartialEq, Eq, Structural)]
pub enum HomopolymerScore {
    Difference(i32),
    Other(Anomaly),
}

/// The classification windows extracted for one homopolymer and one read
/// alignment, and the outcome. `region_*` covers the run plus its flanks;
/// `*_alignment` is the run body itself; `*_upstream` and `*_downstream` are
/// the flanks. `start` and `stop` are the body's column bounds within the
/// region, and `length` the body's column count on the read side.
#[derive(Debug)]
pub struct HomopolymerResult {
    pub base: u8,
    pub homo_length: u32,
    pub homo: HomopolymerRecord,
    pub start: usize,
    pub stop: usize,
    pub region_read_aln: Vec<u8>,
    pub region_ref_aln: Vec<u8>,
    pub read_alignment: Vec<u8>,
    pub ref_alignment: Vec<u8>,
    pub read_upstream: Vec<u8>,
    pub read_downstream: Vec<u8>,
    pub ref_upstream: Vec<u8>,
    pub ref_downstream: Vec<u8>,
    pub length: u32,
    pub score: HomopolymerScore,
}

impl HomopolymerResult {
    /// Well-formedness: each window pairs a read-side and a reference-side
    /// string of equal length, the region is the concatenation of upstream
    /// flank, body and downstream flank, `start`/`stop` delimit the body
    /// within the region, and the recorded lengths agree with the record.
    pub open spec fn wf(self) -> bool {
        &&& is_nucleotide(self.base)
        &&& self.read_alignment@.len() == self.ref_alignment@.len()
        &&& self.read_upstream@.len() == self.ref_upstream@.len()
        &&& self.read_downstream@.len() == self.ref_downstream@.len()
        &&& self.region_read_aln@.len() == self.region_ref_aln@.len()
        &&& self.start == self.read_upstream@.len()
        &&& self.stop == self.start + self.read_alignment@.len()
        &&& self.region_read_aln@ == self.read_upstream@ + self.read_alignment@
            + self.read_downstream@
        &&& self.region_ref_aln@ == self.ref_upstream@ + self.ref_alignment@
            + self.ref_downstream@
        &&& self.length == self.read_alignment@.len()
        &&& self.base == self.homo.base
        &&& self.homo_length == self.homo.length
        &&& 0 < self.homo_length <= i32::MAX
        &&& self.region_read_aln@.len() <= i32::MAX
    }

    /// Reference position where the flanked region starts: thirty positions
    /// upstream of the run, clamped to the start of the alignment's covered
    /// span.
    pub open spec fn upstream_region_bound(homo: HomopolymerRecord, ra: ReadAlignment) -> int {
        let lo: int = if homo.start >= 30 {
            homo.start - 30
        } else {
            0
        };
        if lo >= ra.pos {
            lo
        } else {
            ra.pos as int
        }
    }

    /// Reference position where the flanked region ends: the run's end,
    /// clamped so that thirty positions of margin remain before the covered
    /// span's end, plus thirty positions of downstream flank.
    pub open spec fn downstream_region_bound(homo: HomopolymerRecord, ra: ReadAlignment) -> int {
        let hi: int = if homo.stop <= ra.aligned_end - 30 {
            homo.stop as int
        } else {
            ra.aligned_end - 30
        };
        hi + 30
    }

    /// Alignment column where the flanked region starts.
    pub open spec fn region_start_col(homo: HomopolymerRecord, ra: ReadAlignment) -> int {
        col_of(ra.ref_aln@, Self::upstream_region_bound(homo, ra) - ra.pos)
    }

    /// Alignment column where the run body starts.
    pub open spec fn body_start_col(homo: HomopolymerRecord, ra: ReadAlignment) -> int {
        col_of(ra.ref_aln@, homo.start - ra.pos)
    }

    /// Alignment column where the run body ends.
    pub open spec fn body_stop_col(homo: HomopolymerRecord, ra: ReadAlignment) -> int {
        col_of(ra.ref_aln@, homo.stop - ra.pos)
    }

    /// Alignment column where the flanked region ends.
    pub open spec fn region_stop_col(homo: HomopolymerRecord, ra: ReadAlignment) -> int {
        col_of(ra.ref_aln@, Self::downstream_region_bound(homo, ra) - ra.pos)
    }

    /// Extracts the classification windows for one homopolymer from one read
    /// alignment and scores them: the flanked region's bounds are computed,
    /// mapped to alignment columns, the region, body and flank window pairs
    /// are cut out, and the rule cascade decides the outcome.
    pub fn new(homo: &HomopolymerRecord, ra: &ReadAlignment) -> (hr: HomopolymerResult)
        requires
            homo.wf(),
            ra.wf(),
            ra.pos <= homo.start,
            homo.stop <= ra.aligned_end,
            ra.aligned_end >= 30,
            ra.read_aln@.len() <= i32::MAX,
        ensures
            hr.wf(),
            hr.scored(),
            hr.score == hr.classify(),
            hr.homo == *homo,
            hr.base == homo.base,
            hr.homo_length == homo.length,
            hr.start == Self::body_start_col(*homo, *ra) - Self::region_start_col(*homo, *ra),
            hr.stop == Self::body_stop_col(*homo, *ra) - Self::region_start_col(*homo, *ra),
            hr.region_read_aln@ == ra.read_aln@.subrange(
                Self::region_start_col(*homo, *ra),
                Self::region_stop_col(*homo, *ra),
            ),
            hr.region_ref_aln@ == ra.ref_aln@.subrange(
                Self::region_start_col(*homo, *ra),
                Self::region_stop_col(*homo, *ra),
            ),
            hr.read_alignment@ == ra.read_aln@.subrange(
                Self::body_start_col(*homo, *ra),
                Self::body_stop_col(*homo, *ra),
            ),
            hr.ref_alignment@ == ra.ref_aln@.subrange(
                Self::body_start_col(*homo, *ra),
                Self::body_stop_col(*homo, *ra),
            ),
            hr.read_upstream@ == ra.read_aln@.subrange(
                Self::region_start_col(*homo, *ra),
                Self::body_start_col(*homo, *ra),
            ),
            hr.ref_upstream@ == ra.ref_aln@.subrange(
                Self::region_start_col(*homo, *ra),
                Self::body_start_col(*homo, *ra),
            ),
            hr.read_downstream@ == ra.read_aln@.subrange(
                Self::body_stop_col(*homo, *ra),
                Self::region_stop_col(*homo, *ra),
            ),
            hr.ref_downstream@ == ra.ref_aln@.subrange(
                Self::body_stop_col(*homo, *ra),
                Self::region_stop_col(*homo, *ra),
            ),
            hr.length == hr.read_alignment@.len(),
    {
        let up_low: u32 = if homo.start >= 30 {
            homo.start - 30
        } else {
            0
        };
        let up_idx: u32 = if up_low >= ra.pos {
            up_low
        } else {
            ra.pos
        };
        let down_high: u32 = if homo.stop <= ra.aligned_end - 30 {
            homo.stop
        } else {
            ra.aligned_end - 30
        };
        let down_idx: u32 = down_high + 30;
        let start_c = ra.get_aligned_index(homo.start);
        let stop_c = ra.get_aligned_index(homo.stop);
        let up_c = ra.get_aligned_index(up_idx);
        let down_c = ra.get_aligned_index(down_idx);
        proof {
            lemma_col_of_monotonic(ra.ref_aln@, up_idx - ra.pos, homo.start - ra.pos);
            lemma_col_of_monotonic(ra.ref_aln@, homo.start - ra.pos, homo.stop - ra.pos);
            lemma_col_of_monotonic(ra.ref_aln@, homo.stop - ra.pos, down_idx - ra.pos);
        }
        let (region_read, region_ref) = ra.extract_alignment(up_c, down_c);
        let (body_read, body_ref) = ra.extract_alignment(start_c, stop_c);
        let (read_up, ref_up) = ra.extract_alignment(up_c, start_c);
        let (read_down, ref_down) = ra.extract_alignment(stop_c, down_c);
        let length = body_read.len();
        let mut hr = HomopolymerResult {
            base: homo.base,
            homo_length: homo.length,
            homo: HomopolymerRecord {
                contig: homo.contig.clone(),
                start: homo.start,
                stop: homo.stop,
                base: homo.base,
                length: homo.length,
            },
            start: start_c - up_c,
            stop: stop_c - up_c,
            region_read_aln: region_read,
            region_ref_aln: region_ref,
            read_alignment: body_read,
            ref_alignment: body_ref,
            read_upstream: read_up,
            read_downstream: read_down,
            ref_upstream: ref_up,
            ref_downstream: ref_down,
            length: length as u32,
            score: HomopolymerScore::Difference(0),
        };
        proof {
            assert(hr.region_read_aln@ =~= hr.read_upstream@ + hr.read_alignment@
                + hr.read_downstream@);
            assert(hr.region_ref_aln@ =~= hr.ref_upstream@ + hr.ref_alignment@
                + hr.ref_downstream@);
        }
        hr.score();
        hr
    }

    /// The outcome the rule cascade assigns to this result's windows.
    pub open spec fn classify(self) -> HomopolymerScore {
        classify_windows(
            self.start as int,
            self.stop as int,
            self.region_read_aln@.len() as int,
            self.read_alignment@,
            self.ref_alignment@,
            self.read_upstream@,
            self.ref_upstream@,
            self.read_downstream@,
            self.ref_downstream@,
            self.base,
            self.homo_length as int,
        )
    }

    /// Whether the stored score is the one the rule cascade assigns.
    pub open spec fn scored(self) -> bool {
        self.score == self.classify()
    }

    /// Runs the rule cascade over the extracted windows and stores the
    /// outcome; every other field is left unchanged.
    pub fn score(&mut self)
        requires
            old(self).wf(),
        ensures
            final(self).score == old(self).classify(),
            final(self).wf(),
            final(self).scored(),
            final(self).base == old(self).base,
            final(self).homo_length == old(self).homo_length,
            final(self).homo == old(self).homo,
            final(self).start == old(self).start,
            final(self).stop == old(self).stop,
            final(self).region_read_aln == old(self).region_read_aln,
            final(self).region_ref_aln == old(self).region_ref_aln,
            final(self).read_alignment == old(self).read_alignment,
            final(self).ref_alignment == old(self).ref_alignment,
            final(self).read_upstream == old(self).read_upstream,
            final(self).read_downstream == old(self).read_downstream,
            final(self).ref_upstream == old(self).ref_upstream,
            final(self).ref_downstream == old(self).ref_downstream,
            final(self).length == old(self).length,
    {
        let base = self.base;

        // No flank on one side of the run: nothing can be checked.
        if self.start == 0 || self.stop == self.region_read_aln.len() {
            self.score = HomopolymerScore::Other(Anomaly::Skip);
            return ;
        }
        let up_len = self.read_upstream.len();
        let body_read_gap = contains_gap(&self.read_alignment);
        let body_ref_gap = contains_gap(&self.ref_alignment);
        let up_ref_last = self.ref_upstream[up_len - 1];
        let down_ref_first = self.ref_downstream[0];
        let up_read_last = self.read_upstream[up_len - 1];
        let down_read_first = self.read_downstream[0];

        // Clean, ungapped match with an unambiguous reference boundary.
        if !body_ref_gap && !body_read_gap && up_ref_last != base && up_ref_last != GAP
            && down_ref_first != base && down_ref_first != GAP {
            self.score = HomopolymerScore::Difference(0);
            return ;
        }
        // Gap-free body with a read-side flank deletion next to the run.
        if !body_read_gap && (up_read_last == GAP || down_read_first == GAP) {
            let amb_up = up_read_last == GAP && upstream_deletion_walk(
                &self.read_upstream,
                &self.ref_upstream,
                base,
            );
            let amb_down = down_read_first == GAP && downstream_deletion_walk(
                &self.read_downstream,
                &self.ref_downstream,
                base,
            );
            self.score = if amb_up || amb_down {
                HomopolymerScore::Other(Anomaly::Ambiguous)
            } else {
                HomopolymerScore::Difference(0)
            };
            return ;
        }
        // Reference-side gap in the body: the read extends the run.
        if body_ref_gap {
            if !all_match(&self.read_alignment, base) {
                self.score = HomopolymerScore::Other(Anomaly::Ambiguous);
            } else {
                self.score = HomopolymerScore::Difference(
                    self.length as i32 - self.homo_length as i32,
                );
            }
            return ;
        }
        // Read-side gap in the body: the read contracts the run.
        if body_read_gap {
            if !all_match_or_gap(&self.read_alignment, base) {
                self.score = HomopolymerScore::Other(Anomaly::Ambiguous);
            } else if up_read_last != GAP && down_read_first != GAP {
                let counts = count_gaps_and_matches(&self.read_alignment, base);
                if counts.0 + counts.1 > self.homo_length as usize {
                    self.score = HomopolymerScore::Other(Anomaly::Ambiguous);
                } else {
                    self.score = HomopolymerScore::Difference(-(counts.0 as i32));
                }
            } else {
                self.score = HomopolymerScore::Other(Anomaly::Ambiguous);
            }
            return ;
        }
        // Insertion in the read immediately next to the run.
        if up_ref_last == GAP || down_ref_first == GAP {
            let amb_up = up_ref_last == GAP && upstream_insertion_walk(
                &self.read_upstream,
                &self.ref_upstream,
                base,
            );
            let amb_down = down_ref_first == GAP && downstream_insertion_walk(
                &self.read_downstream,
                &self.ref_downstream,
                base,
            );
            self.score = if amb_up || amb_down {
                HomopolymerScore::Other(Anomaly::Ambiguous)
            } else {
                HomopolymerScore::Difference(0)
            };
            return ;
        }
        // Terminal default: no rule claimed the pattern.
        self.score = HomopolymerScore::Other(Anomaly::Ambiguous);
    }
}

/// Classification is a total, deterministic function of the extracted
/// windows: the cascade assigns every result exactly one outcome, and two
/// results holding the same windows, base and reference run length are
/// assigned the same outcome.
pub proof fn lemma_classification_deterministic(a: HomopolymerResult, b: HomopolymerResult)
    requires
        a.start == b.start,
        a.stop == b.stop,
        a.region_read_aln@ == b.region_read_aln@,
        a.read_alignment@ == b.read_alignment@,
        a.ref_alignment@ == b.ref_alignment@,
        a.read_upstream@ == b.read_upstream@,
        a.ref_upstream@ == b.ref_upstream@,
        a.read_downstream@ == b.read_downstream@,
        a.ref_downstream@ == b.ref_downstream@,
        a.base == b.base,
        a.homo_length == b.homo_length,
    ensures
        a.classify() == b.classify(),
{
}

} // verus!
