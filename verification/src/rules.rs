//! The alphabet of gapped alignment strings and the ordered classification
//! rules, stated as specification functions over sequences of symbols, with
//! the executable helpers that the scorer uses to decide each rule.

use vstd::prelude::*;

use crate::homopolymer::Anomaly;
use crate::homopolymer::HomopolymerScore;

verus! {

/// The alignment-column symbol that stands for a gap (an inserted or deleted
/// base on one side of the alignment), the ASCII hyphen.
pub const GAP: u8 = 45;

/// ASCII `A`.
pub const BASE_A: u8 = 65;

/// ASCII `C`.
pub const BASE_C: u8 = 67;

/// ASCII `G`.
pub const BASE_G: u8 = 71;

/// ASCII `T`.
pub const BASE_T: u8 = 84;

/// ASCII `N`, the unknown-base symbol.
pub const BASE_N: u8 = 78;

/// Whether an alignment column holds a gap on the given side.
pub open spec fn is_gap(c: u8) -> bool {
    c == GAP
}

/// Whether a symbol is one of the four nucleotides a homopolymer run can
/// consist of.
pub open spec fn is_nucleotide(c: u8) -> bool {
    c == BASE_A || c == BASE_C || c == BASE_G || c == BASE_T
}

/// Whether a symbol may appear in a gapped alignment string: a nucleotide,
/// the unknown base, or a gap.
pub open spec fn is_alignment_symbol(c: u8) -> bool {
    is_nucleotide(c) || c == BASE_N || c == GAP
}

/// Whether a gapped alignment string contains a gap column.
pub open spec fn has_gap(s: Seq<u8>) -> bool {
    exists|i: int| 0 <= i < s.len() && is_gap(s[i])
}

/// Whether every symbol of the string equals `b`.
pub open spec fn all_eq(s: Seq<u8>, b: u8) -> bool {
    forall|i: int| 0 <= i < s.len() ==> s[i] == b
}

/// Whether every symbol of the string is either `b` or a gap.
pub open spec fn all_eq_or_gap(s: Seq<u8>, b: u8) -> bool {
    forall|i: int| 0 <= i < s.len() ==> s[i] == b || is_gap(s[i])
}

/// Count of gap columns in the string.
pub open spec fn count_gaps(s: Seq<u8>) -> int
    decreases s.len(),
{
    if s.len() == 0 {
        0
    } else {
        count_gaps(s.drop_last()) + if is_gap(s.last()) {
            1int
        } else {
            0int
        }
    }
}

/// Count of symbols of the string that equal `b`.
pub open spec fn count_eq(s: Seq<u8>, b: u8) -> int
    decreases s.len(),
{
    if s.len() == 0 {
        0
    } else {
        count_eq(s.drop_last(), b) + if s.last() == b {
            1int
        } else {
            0int
        }
    }
}

/// Length of the run of consecutive gap columns at the downstream end of a
/// string.
pub open spec fn trailing_gaps(s: Seq<u8>) -> int
    decreases s.len(),
{
    if s.len() == 0 {
        0
    } else if is_gap(s.last()) {
        1 + trailing_gaps(s.drop_last())
    } else {
        0
    }
}

/// Length of the run of consecutive gap columns at the upstream end of a
/// string.
pub open spec fn leading_gaps(s: Seq<u8>) -> int
    decreases s.len(),
{
    if s.len() == 0 {
        0
    } else if is_gap(s.first()) {
        1 + leading_gaps(s.drop_first())
    } else {
        0
    }
}

proof fn lemma_trailing_gaps_bounds(s: Seq<u8>)
    ensures
        0 <= trailing_gaps(s) <= s.len(),
    decreases s.len(),
{
    if s.len() > 0 && is_gap(s.last()) {
        lemma_trailing_gaps_bounds(s.drop_last());
    }
}

proof fn lemma_leading_gaps_bounds(s: Seq<u8>)
    ensures
        0 <= leading_gaps(s) <= s.len(),
    decreases s.len(),
{
    if s.len() > 0 && is_gap(s.first()) {
        lemma_leading_gaps_bounds(s.drop_first());
    }
}

proof fn lemma_trailing_gaps_run(s: Seq<u8>, j: int)
    requires
        0 <= j < s.len(),
        !is_gap(s[j]),
        forall|k: int| j < k < s.len() ==> is_gap(s[k]),
    ensures
        trailing_gaps(s) == s.len() - 1 - j,
    decreases s.len(),
{
    if j < s.len() - 1 {
        lemma_trailing_gaps_run(s.drop_last(), j);
    }
}

proof fn lemma_trailing_gaps_all(s: Seq<u8>)
    requires
        forall|k: int| 0 <= k < s.len() ==> is_gap(s[k]),
    ensures
        trailing_gaps(s) == s.len(),
    decreases s.len(),
{
    if s.len() > 0 {
        lemma_trailing_gaps_all(s.drop_last());
    }
}

proof fn lemma_trailing_gaps_lower(s: Seq<u8>, j: int)
    requires
        0 <= j <= s.len(),
        forall|k: int| j <= k < s.len() ==> is_gap(s[k]),
    ensures
        trailing_gaps(s) >= s.len() - j,
    decreases s.len(),
{
    if j < s.len() {
        assert(is_gap(s[s.len() - 1]));
        lemma_trailing_gaps_lower(s.drop_last(), j);
    } else {
        lemma_trailing_gaps_bounds(s);
    }
}

proof fn lemma_leading_gaps_run(s: Seq<u8>, j: int)
    requires
        0 <= j < s.len(),
        !is_gap(s[j]),
        forall|k: int| 0 <= k < j ==> is_gap(s[k]),
    ensures
        leading_gaps(s) == j,
    decreases s.len(),
{
    if j > 0 {
        lemma_leading_gaps_run(s.drop_first(), j - 1);
    }
}

proof fn lemma_leading_gaps_all(s: Seq<u8>)
    requires
        forall|k: int| 0 <= k < s.len() ==> is_gap(s[k]),
    ensures
        leading_gaps(s) == s.len(),
    decreases s.len(),
{
    if s.len() > 0 {
        lemma_leading_gaps_all(s.drop_first());
    }
}

proof fn lemma_leading_gaps_lower(s: Seq<u8>, j: int)
    requires
        0 <= j <= s.len(),
        forall|k: int| 0 <= k < j ==> is_gap(s[k]),
    ensures
        leading_gaps(s) >= j,
    decreases s.len(),
{
    if j > 0 {
        assert(is_gap(s[0]));
        lemma_leading_gaps_lower(s.drop_first(), j - 1);
    } else {
        lemma_leading_gaps_bounds(s);
    }
}

/// Whether `v` contains a gap column.
pub fn contains_gap(v: &Vec<u8>) -> (r: bool)
    ensures
        r == has_gap(v@),
{
    let mut i: usize = 0;
    while i < v.len()
        invariant
            i <= v@.len(),
            forall|k: int| 0 <= k < i ==> !is_gap(v@[k]),
        decreases v@.len() - i,
    {
        if v[i] == GAP {
            return true;
        }
        i += 1;
    }
    false
}

/// Whether every symbol of `v` equals `b`.
pub fn all_match(v: &Vec<u8>, b: u8) -> (r: bool)
    ensures
        r == all_eq(v@, b),
{
    let mut i: usize = 0;
    while i < v.len()
        invariant
            i <= v@.len(),
            forall|k: int| 0 <= k < i ==> v@[k] == b,
        decreases v@.len() - i,
    {
        if v[i] != b {
            return false;
        }
        i += 1;
    }
    true
}

/// Whether every symbol of `v` is either `b` or a gap.
pub fn all_match_or_gap(v: &Vec<u8>, b: u8) -> (r: bool)
    ensures
        r == all_eq_or_gap(v@, b),
{
    let mut i: usize = 0;
    while i < v.len()
        invariant
            i <= v@.len(),
            forall|k: int| 0 <= k < i ==> v@[k] == b || is_gap(v@[k]),
        decreases v@.len() - i,
    {
        if v[i] != b && v[i] != GAP {
            return false;
        }
        i += 1;
    }
    true
}

/// Gap and matching-base counts of `v`: the number of gap columns and the
/// number of symbols equal to `b`.
pub fn count_gaps_and_matches(v: &Vec<u8>, b: u8) -> (r: (usize, usize))
    ensures
        r.0 == count_gaps(v@),
        r.1 == count_eq(v@, b),
        r.0 <= v@.len(),
        r.1 <= v@.len(),
{
    let mut gaps: usize = 0;
    let mut matches: usize = 0;
    let mut i: usize = 0;
    while i < v.len()
        invariant
            i <= v@.len(),
            gaps == count_gaps(v@.take(i as int)),
            matches == count_eq(v@.take(i as int), b),
            gaps <= i,
            matches <= i,
        decreases v@.len() - i,
    {
        proof {
            assert(v@.take(i + 1).drop_last() =~= v@.take(i as int));
            assert(v@.take(i + 1).last() == v@[i as int]);
        }
        if v[i] == GAP {
            gaps += 1;
        }
        if v[i] == b {
            matches += 1;
        }
        i += 1;
    }
    proof {
        assert(v@.take(v@.len() as int) =~= v@);
    }
    (gaps, matches)
}

/// Deletion walk on the upstream flank (rightmost column abuts the run):
/// walking right to left through the read-side gap run at the boundary, the
/// deletion is ambiguous if the reference shows the run's base inside the gap
/// run, if the gap run consumes the whole flank, or if the first read base
/// beyond the run equals the run's base.
pub open spec fn upstream_deletion_ambiguous(read_flank: Seq<u8>, ref_flank: Seq<u8>, base: u8) -> bool {
    let g = trailing_gaps(read_flank);
    if g == read_flank.len() {
        true
    } else {
        (exists|i: int| read_flank.len() - g <= i < read_flank.len() && ref_flank[i] == base)
            || read_flank[read_flank.len() - g - 1] == base
    }
}

/// Deletion walk on the downstream flank (leftmost column abuts the run),
/// mirror image of `upstream_deletion_ambiguous`.
pub open spec fn downstream_deletion_ambiguous(read_flank: Seq<u8>, ref_flank: Seq<u8>, base: u8) -> bool {
    let g = leading_gaps(read_flank);
    if g == read_flank.len() {
        true
    } else {
        (exists|i: int| 0 <= i < g && ref_flank[i] == base) || read_flank[g] == base
    }
}

/// Insertion walk on the upstream flank: walking right to left through the
/// reference-side gap run at the boundary, the insertion is ambiguous if any
/// inserted read base inside the run equals the run's base, or if the gap run
/// consumes the whole flank.
pub open spec fn upstream_insertion_ambiguous(read_flank: Seq<u8>, ref_flank: Seq<u8>, base: u8) -> bool {
    let g = trailing_gaps(ref_flank);
    g == ref_flank.len() || (exists|i: int|
        ref_flank.len() - g <= i < ref_flank.len() && read_flank[i] == base)
}

/// Insertion walk on the downstream flank, mirror image of
/// `upstream_insertion_ambiguous`.
pub open spec fn downstream_insertion_ambiguous(read_flank: Seq<u8>, ref_flank: Seq<u8>, base: u8) -> bool {
    let g = leading_gaps(ref_flank);
    g == ref_flank.len() || (exists|i: int| 0 <= i < g && read_flank[i] == base)
}

/// Guard of the clean, ungapped match rule: neither body string contains a
/// gap, and the reference flank symbols adjacent to the run are neither the
/// run's base nor a gap, so the reference boundary of the run is unambiguous.
pub open spec fn clean_match_guard(
    body_read: Seq<u8>,
    body_ref: Seq<u8>,
    up_ref: Seq<u8>,
    down_ref: Seq<u8>,
    base: u8,
) -> bool {
    &&& !has_gap(body_ref)
    &&& !has_gap(body_read)
    &&& up_ref.last() != base
    &&& !is_gap(up_ref.last())
    &&& down_ref.first() != base
    &&& !is_gap(down_ref.first())
}

/// The ordered rule cascade over the extracted windows; the first rule whose
/// guard holds decides the outcome.
///
/// `start` and `stop` delimit the run body within the region of `region_len`
/// alignment columns; the body, upstream-flank and downstream-flank window
/// pairs follow, then the run's base and its reference length.
///
/// The rules, in order: no flank on one side; clean ungapped match; read-side
/// flank deletion next to a gap-free body; reference-side body gap (read
/// extension); read-side body gap (read contraction); reference-side flank
/// gap (insertion next to the run); and an explicit terminal default for the
/// remaining patterns.
pub open spec fn classify_windows(
    start: int,
    stop: int,
    region_len: int,
    body_read: Seq<u8>,
    body_ref: Seq<u8>,
    up_read: Seq<u8>,
    up_ref: Seq<u8>,
    down_read: Seq<u8>,
    down_ref: Seq<u8>,
    base: u8,
    homo_length: int,
) -> HomopolymerScore {
    if start == 0 || stop == region_len {
        HomopolymerScore::Other(Anomaly::Skip)
    } else if clean_match_guard(body_read, body_ref, up_ref, down_ref, base) {
        HomopolymerScore::Difference(0)
    } else if !has_gap(body_read) && (is_gap(up_read.last()) || is_gap(down_read.first())) {
        if (is_gap(up_read.last()) && upstream_deletion_ambiguous(up_read, up_ref, base)) || (
        is_gap(down_read.first()) && downstream_deletion_ambiguous(down_read, down_ref, base)) {
            HomopolymerScore::Other(Anomaly::Ambiguous)
        } else {
            HomopolymerScore::Difference(0)
        }
    } else if has_gap(body_ref) {
        if !all_eq(body_read, base) {
            HomopolymerScore::Other(Anomaly::Ambiguous)
        } else {
            HomopolymerScore::Difference((body_read.len() - homo_length) as i32)
        }
    } else if has_gap(body_read) {
        if !all_eq_or_gap(body_read, base) {
            HomopolymerScore::Other(Anomaly::Ambiguous)
        } else if !is_gap(up_read.last()) && !is_gap(down_read.first()) {
            if count_gaps(body_read) + count_eq(body_read, base) > homo_length {
                HomopolymerScore::Other(Anomaly::Ambiguous)
            } else {
                HomopolymerScore::Difference((-count_gaps(body_read)) as i32)
            }
        } else {
            HomopolymerScore::Other(Anomaly::Ambiguous)
        }
    } else if is_gap(up_ref.last()) || is_gap(down_ref.first()) {
        if (is_gap(up_ref.last()) && upstream_insertion_ambiguous(up_read, up_ref, base)) || (
        is_gap(down_ref.first()) && downstream_insertion_ambiguous(down_read, down_ref, base)) {
            HomopolymerScore::Other(Anomaly::Ambiguous)
        } else {
            HomopolymerScore::Difference(0)
        }
    } else {
        HomopolymerScore::Other(Anomaly::Ambiguous)
    }
}

/// If the run body touches either edge of the extracted region there is no
/// flank to inspect on that side, and the outcome is `Skip` whatever the
/// windows hold.
pub proof fn lemma_skip_without_flank(
    start: int,
    stop: int,
    region_len: int,
    body_read: Seq<u8>,
    body_ref: Seq<u8>,
    up_read: Seq<u8>,
    up_ref: Seq<u8>,
    down_read: Seq<u8>,
    down_ref: Seq<u8>,
    base: u8,
    homo_length: int,
)
    requires
        start == 0 || stop == region_len,
    ensures
        classify_windows(
            start,
            stop,
            region_len,
            body_read,
            body_ref,
            up_read,
            up_ref,
            down_read,
            down_ref,
            base,
            homo_length,
        ) == HomopolymerScore::Other(Anomaly::Skip),
{
}

/// If both body strings are gap-free and the reference flank symbols next to
/// the run are neither the run's base nor a gap, the read reproduces the run
/// exactly: the outcome is a zero length difference.
pub proof fn lemma_clean_exact_match(
    start: int,
    stop: int,
    region_len: int,
    body_read: Seq<u8>,
    body_ref: Seq<u8>,
    up_read: Seq<u8>,
    up_ref: Seq<u8>,
    down_read: Seq<u8>,
    down_ref: Seq<u8>,
    base: u8,
    homo_length: int,
)
    requires
        start != 0,
        stop != region_len,
        !has_gap(body_read),
        !has_gap(body_ref),
        up_ref.last() != base,
        !is_gap(up_ref.last()),
        down_ref.first() != base,
        !is_gap(down_ref.first()),
    ensures
        classify_windows(
            start,
            stop,
            region_len,
            body_read,
            body_ref,
            up_read,
            up_ref,
            down_read,
            down_ref,
            base,
            homo_length,
        ) == HomopolymerScore::Difference(0),
{
}

/// If the reference-side body contains a gap, every read-side body symbol is
/// the run's base, and the read-side flanks do not abut a gap, the read
/// extends the run and the delta is the body's excess over the reference run
/// length.
pub proof fn lemma_extension_delta(
    start: int,
    stop: int,
    region_len: int,
    body_read: Seq<u8>,
    body_ref: Seq<u8>,
    up_read: Seq<u8>,
    up_ref: Seq<u8>,
    down_read: Seq<u8>,
    down_ref: Seq<u8>,
    base: u8,
    homo_length: int,
)
    requires
        start != 0,
        stop != region_len,
        is_nucleotide(base),
        has_gap(body_ref),
        all_eq(body_read, base),
        !is_gap(up_read.last()),
        !is_gap(down_read.first()),
    ensures
        classify_windows(
            start,
            stop,
            region_len,
            body_read,
            body_ref,
            up_read,
            up_ref,
            down_read,
            down_ref,
            base,
            homo_length,
        ) == HomopolymerScore::Difference((body_read.len() - homo_length) as i32),
{
    assert(!has_gap(body_read));
}

/// If the read-side body contains a gap, every non-gap read-side body symbol
/// is the run's base, the reference-side body is gap-free, the read-side
/// flanks do not abut a gap, and the gap and base counts do not exceed the
/// reference run length, the read contracts the run and the delta is minus
/// the gap count.
pub proof fn lemma_contraction_delta(
    start: int,
    stop: int,
    region_len: int,
    body_read: Seq<u8>,
    body_ref: Seq<u8>,
    up_read: Seq<u8>,
    up_ref: Seq<u8>,
    down_read: Seq<u8>,
    down_ref: Seq<u8>,
    base: u8,
    homo_length: int,
)
    requires
        start != 0,
        stop != region_len,
        has_gap(body_read),
        !has_gap(body_ref),
        all_eq_or_gap(body_read, base),
        !is_gap(up_read.last()),
        !is_gap(down_read.first()),
        count_gaps(body_read) + count_eq(body_read, base) <= homo_length,
    ensures
        classify_windows(
            start,
            stop,
            region_len,
            body_read,
            body_ref,
            up_read,
            up_ref,
            down_read,
            down_ref,
            base,
            homo_length,
        ) == HomopolymerScore::Difference((-count_gaps(body_read)) as i32),
{
}

/// A body column that shows a symbol other than the run's base outside a gap
/// makes the outcome `Ambiguous` whenever a body string contains a gap (for
/// a gap-free reference-side body, provided the read-side flanks do not abut
/// a gap, which would hand the decision to the flank-deletion rule).
pub proof fn lemma_foreign_base_ambiguous(
    start: int,
    stop: int,
    region_len: int,
    body_read: Seq<u8>,
    body_ref: Seq<u8>,
    up_read: Seq<u8>,
    up_ref: Seq<u8>,
    down_read: Seq<u8>,
    down_ref: Seq<u8>,
    base: u8,
    homo_length: int,
)
    requires
        start != 0,
        stop != region_len,
        exists|i: int|
            0 <= i < body_read.len() && body_read[i] != base && !is_gap(body_read[i]),
        has_gap(body_read) || (has_gap(body_ref) && !is_gap(up_read.last()) && !is_gap(
            down_read.first(),
        )),
    ensures
        classify_windows(
            start,
            stop,
            region_len,
            body_read,
            body_ref,
            up_read,
            up_ref,
            down_read,
            down_ref,
            base,
            homo_length,
        ) == HomopolymerScore::Other(Anomaly::Ambiguous),
{
    let i = choose|i: int|
        0 <= i < body_read.len() && body_read[i] != base && !is_gap(body_read[i]);
    assert(!all_eq(body_read, base));
    assert(!all_eq_or_gap(body_read, base));
}

/// Decides `upstream_deletion_ambiguous` by the bounded right-to-left walk.
pub fn upstream_deletion_walk(read_flank: &Vec<u8>, ref_flank: &Vec<u8>, base: u8) -> (amb: bool)
    requires
        read_flank@.len() == ref_flank@.len(),
        read_flank@.len() > 0,
        is_gap(read_flank@.last()),
    ensures
        amb == upstream_deletion_ambiguous(read_flank@, ref_flank@, base),
{
    let n = read_flank.len();
    let mut j: usize = n - 1;
    while read_flank[j] == GAP
        invariant
            j < n,
            n == read_flank@.len(),
            n == ref_flank@.len(),
            forall|k: int| j < k < n ==> is_gap(read_flank@[k]),
            forall|k: int| j < k < n ==> ref_flank@[k] != base,
        decreases j,
    {
        if ref_flank[j] == base {
            proof {
                lemma_trailing_gaps_lower(read_flank@, j as int);
            }
            return true;
        }
        if j == 0 {
            proof {
                lemma_trailing_gaps_all(read_flank@);
            }
            return true;
        }
        j -= 1;
    }
    proof {
        lemma_trailing_gaps_run(read_flank@, j as int);
    }
    read_flank[j] == base
}

/// Decides `downstream_deletion_ambiguous` by the bounded left-to-right walk.
pub fn downstream_deletion_walk(read_flank: &Vec<u8>, ref_flank: &Vec<u8>, base: u8) -> (amb: bool)
    requires
        read_flank@.len() == ref_flank@.len(),
        read_flank@.len() > 0,
        is_gap(read_flank@.first()),
    ensures
        amb == downstream_deletion_ambiguous(read_flank@, ref_flank@, base),
{
    let n = read_flank.len();
    let mut j: usize = 0;
    while read_flank[j] == GAP
        invariant
            j < n,
            n == read_flank@.len(),
            n == ref_flank@.len(),
            forall|k: int| 0 <= k < j ==> is_gap(read_flank@[k]),
            forall|k: int| 0 <= k < j ==> ref_flank@[k] != base,
        decreases n - j,
    {
        if ref_flank[j] == base {
            proof {
                lemma_leading_gaps_lower(read_flank@, j + 1);
            }
            return true;
        }
        if j == n - 1 {
            proof {
                lemma_leading_gaps_all(read_flank@);
            }
            return true;
        }
        j += 1;
    }
    proof {
        lemma_leading_gaps_run(read_flank@, j as int);
    }
    read_flank[j] == base
}

/// Decides `upstream_insertion_ambiguous` by the bounded right-to-left walk.
pub fn upstream_insertion_walk(read_flank: &Vec<u8>, ref_flank: &Vec<u8>, base: u8) -> (amb: bool)
    requires
        read_flank@.len() == ref_flank@.len(),
        ref_flank@.len() > 0,
        is_gap(ref_flank@.last()),
    ensures
        amb == upstream_insertion_ambiguous(read_flank@, ref_flank@, base),
{
    let n = ref_flank.len();
    let mut j: usize = n - 1;
    while ref_flank[j] == GAP
        invariant
            j < n,
            n == read_flank@.len(),
            n == ref_flank@.len(),
            forall|k: int| j < k < n ==> is_gap(ref_flank@[k]),
            forall|k: int| j < k < n ==> read_flank@[k] != base,
        decreases j,
    {
        if read_flank[j] == base {
            proof {
                lemma_trailing_gaps_lower(ref_flank@, j as int);
            }
            return true;
        }
        if j == 0 {
            proof {
                lemma_trailing_gaps_all(ref_flank@);
            }
            return true;
        }
        j -= 1;
    }
    proof {
        lemma_trailing_gaps_run(ref_flank@, j as int);
    }
    false
}

/// Decides `downstream_insertion_ambiguous` by the bounded left-to-right
/// walk.
pub fn downstream_insertion_walk(read_flank: &Vec<u8>, ref_flank: &Vec<u8>, base: u8) -> (amb: bool)
    requires
        read_flank@.len() == ref_flank@.len(),
        ref_flank@.len() > 0,
        is_gap(ref_flank@.first()),
    ensures
        amb == downstream_insertion_ambiguous(read_flank@, ref_flank@, base),
{
    let n = ref_flank.len();
    let mut j: usize = 0;
    while ref_flank[j] == GAP
        invariant
            j < n,
            n == read_flank@.len(),
            n == ref_flank@.len(),
            forall|k: int| 0 <= k < j ==> is_gap(ref_flank@[k]),
            forall|k: int| 0 <= k < j ==> read_flank@[k] != base,
        decreases n - j,
    {
        if read_flank[j] == base {
            proof {
                lemma_leading_gaps_lower(ref_flank@, j + 1);
            }
            return true;
        }
        if j == n - 1 {
            proof {
                lemma_leading_gaps_all(ref_flank@);
            }
            return true;
        }
        j += 1;
    }
    proof {
        lemma_leading_gaps_run(ref_flank@, j as int);
    }
    false
}

} // verus!
