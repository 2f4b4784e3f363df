use homopolymer::Anomaly;
use homopolymer::HomopolymerRecord;
use homopolymer::HomopolymerResult;
use homopolymer::HomopolymerScore;

/// Assembles a result from its six windows, with the region being the
/// concatenation of upstream flank, body and downstream flank.
fn window_result(
    read_up: &[u8],
    ref_up: &[u8],
    body_read: &[u8],
    body_ref: &[u8],
    read_down: &[u8],
    ref_down: &[u8],
    base: u8,
    homo_length: u32,
) -> HomopolymerResult {
    let mut region_read = read_up.to_vec();
    region_read.extend_from_slice(body_read);
    region_read.extend_from_slice(read_down);
    let mut region_ref = ref_up.to_vec();
    region_ref.extend_from_slice(body_ref);
    region_ref.extend_from_slice(ref_down);
    let start = read_up.len();
    let stop = start + body_read.len();
    HomopolymerResult {
        base,
        homo_length,
        homo: HomopolymerRecord {
            contig: "chr1".to_string(),
            start: 100,
            stop: 100 + homo_length,
            base,
            length: homo_length,
        },
        start,
        stop,
        region_read_aln: region_read,
        region_ref_aln: region_ref,
        read_alignment: body_read.to_vec(),
        ref_alignment: body_ref.to_vec(),
        read_upstream: read_up.to_vec(),
        read_downstream: read_down.to_vec(),
        ref_upstream: ref_up.to_vec(),
        ref_downstream: ref_down.to_vec(),
        length: body_read.len() as u32,
        score: HomopolymerScore::Difference(0),
    }
}

fn scored(
    read_up: &[u8],
    ref_up: &[u8],
    body_read: &[u8],
    body_ref: &[u8],
    read_down: &[u8],
    ref_down: &[u8],
    base: u8,
    homo_length: u32,
) -> HomopolymerScore {
    let mut hr = window_result(
        read_up,
        ref_up,
        body_read,
        body_ref,
        read_down,
        ref_down,
        base,
        homo_length,
    );
    hr.score();
    hr.score
}

#[test]
fn exact_match_scores_zero() {
    let s = scored(b"T", b"T", b"AAAA", b"AAAA", b"T", b"T", b'A', 4);
    assert_eq!(s, HomopolymerScore::Difference(0));
}

#[test]
fn skip_when_body_at_region_start() {
    let s = scored(b"", b"", b"AAAA", b"AAAA", b"T", b"T", b'A', 4);
    assert_eq!(s, HomopolymerScore::Other(Anomaly::Skip));
}

#[test]
fn skip_when_body_at_region_end() {
    let s = scored(b"T", b"T", b"AAAA", b"AAAA", b"", b"", b'A', 4);
    assert_eq!(s, HomopolymerScore::Other(Anomaly::Skip));
}

#[test]
fn extension_delta_plus_one() {
    let s = scored(b"T", b"T", b"AAAA", b"AAA-", b"T", b"T", b'A', 3);
    assert_eq!(s, HomopolymerScore::Difference(1));
}

#[test]
fn extension_with_foreign_insert_ambiguous() {
    let s = scored(b"T", b"T", b"AATA", b"AA-A", b"T", b"T", b'A', 3);
    assert_eq!(s, HomopolymerScore::Other(Anomaly::Ambiguous));
}

#[test]
fn contraction_delta_minus_two() {
    let s = scored(b"T", b"T", b"AA--", b"AAAA", b"T", b"T", b'A', 4);
    assert_eq!(s, HomopolymerScore::Difference(-2));
}

#[test]
fn contraction_beyond_run_ambiguous() {
    let s = scored(b"T", b"T", b"AA--", b"AAAA", b"T", b"T", b'A', 3);
    assert_eq!(s, HomopolymerScore::Other(Anomaly::Ambiguous));
}

#[test]
fn contraction_foreign_base_ambiguous() {
    let s = scored(b"T", b"T", b"AT--", b"AAAA", b"T", b"T", b'A', 4);
    assert_eq!(s, HomopolymerScore::Other(Anomaly::Ambiguous));
}

#[test]
fn contraction_with_flank_gap_ambiguous() {
    let s = scored(b"C-", b"CT", b"AA--", b"AAAA", b"T", b"T", b'A', 4);
    assert_eq!(s, HomopolymerScore::Other(Anomaly::Ambiguous));
}

#[test]
fn flank_deletion_clean_scores_zero() {
    // The upstream reference flank ends in a gap, so the clean-match rule
    // does not apply; the downstream read flank's gap run resolves to a
    // symbol other than the run's base on both sides.
    let s = scored(b"C", b"-", b"AAAA", b"AAAA", b"-C", b"TC", b'A', 4);
    assert_eq!(s, HomopolymerScore::Difference(0));
}

#[test]
fn flank_deletion_next_to_same_base_ambiguous() {
    let s = scored(b"T", b"T", b"AAAA", b"AAAA", b"-T", b"AT", b'A', 4);
    assert_eq!(s, HomopolymerScore::Other(Anomaly::Ambiguous));
}

#[test]
fn flank_deletion_beyond_gap_base_ambiguous() {
    let s = scored(b"C", b"-", b"AAAA", b"AAAA", b"-A", b"TC", b'A', 4);
    assert_eq!(s, HomopolymerScore::Other(Anomaly::Ambiguous));
}

#[test]
fn flank_deletion_consumes_flank_ambiguous() {
    let s = scored(b"C", b"-", b"AAAA", b"AAAA", b"--", b"TC", b'A', 4);
    assert_eq!(s, HomopolymerScore::Other(Anomaly::Ambiguous));
}

#[test]
fn insertion_of_other_base_scores_zero() {
    let s = scored(b"TC", b"T-", b"AAAA", b"AAAA", b"T", b"T", b'A', 4);
    assert_eq!(s, HomopolymerScore::Difference(0));
}

#[test]
fn insertion_of_run_base_ambiguous() {
    let s = scored(b"TA", b"T-", b"AAAA", b"AAAA", b"T", b"T", b'A', 4);
    assert_eq!(s, HomopolymerScore::Other(Anomaly::Ambiguous));
}

#[test]
fn insertion_consumes_flank_ambiguous() {
    let s = scored(b"CC", b"--", b"AAAA", b"AAAA", b"T", b"T", b'A', 4);
    assert_eq!(s, HomopolymerScore::Other(Anomaly::Ambiguous));
}

#[test]
fn adjacent_reference_base_ambiguous() {
    // No gap anywhere, but the reference continues the run's base right
    // before the annotated window: no rule claims the pattern and the
    // terminal default applies.
    let s = scored(b"A", b"A", b"AAAA", b"AAAA", b"T", b"T", b'A', 4);
    assert_eq!(s, HomopolymerScore::Other(Anomaly::Ambiguous));
}

#[test]
fn ungapped_mismatch_scores_zero() {
    // A substitution inside a gap-free body does not block the clean-match
    // rule: the cascade checks the bodies for gaps only.
    let s = scored(b"T", b"T", b"ATAA", b"AAAA", b"T", b"T", b'A', 4);
    assert_eq!(s, HomopolymerScore::Difference(0));
}

#[test]
fn classification_deterministic() {
    let first = scored(b"T", b"T", b"AAAA", b"AAA-", b"T", b"T", b'A', 3);
    let second = scored(b"T", b"T", b"AAAA", b"AAA-", b"T", b"T", b'A', 3);
    assert_eq!(first, second);
}
