use homopolymer::Anomaly;
use homopolymer::HomopolymerRecord;
use homopolymer::HomopolymerResult;
use homopolymer::HomopolymerScore;
use homopolymer::ReadAlignment;

fn record(start: u32, stop: u32, base: u8, length: u32) -> HomopolymerRecord {
    HomopolymerRecord {
        contig: "chr1".to_string(),
        start,
        stop,
        base,
        length,
    }
}

const UPSTREAM: &[u8] = b"CGTCGTCGTCGTCGTCGTCT";
const DOWNSTREAM: &[u8] = b"TCGTCGTCGTCGTCGT";

/// A 40-column alignment whose reference holds a four-base run at positions
/// 20 to 24, with the read side given by the caller.
fn forty_column_alignment(read: Vec<u8>) -> ReadAlignment {
    let mut reference = UPSTREAM.to_vec();
    reference.extend_from_slice(b"AAAA");
    reference.extend_from_slice(DOWNSTREAM);
    ReadAlignment::new(0, read, reference)
}

fn forty_column_read() -> Vec<u8> {
    let mut read = UPSTREAM.to_vec();
    read.extend_from_slice(b"AAAA");
    read.extend_from_slice(DOWNSTREAM);
    read
}

#[test]
fn aligned_index_skips_insertion_columns() {
    let ra = ReadAlignment::new(10, b"ACAGT".to_vec(), b"AC-GT".to_vec());
    assert_eq!(ra.aligned_end, 14);
    assert_eq!(ra.get_aligned_index(10), 0);
    assert_eq!(ra.get_aligned_index(12), 2);
    assert_eq!(ra.get_aligned_index(13), 4);
    assert_eq!(ra.get_aligned_index(14), 5);
}

#[test]
fn extract_alignment_returns_column_range() {
    let ra = ReadAlignment::new(10, b"ACAGT".to_vec(), b"AC-GT".to_vec());
    let (read_win, ref_win) = ra.extract_alignment(1, 4);
    assert_eq!(read_win, b"CAG".to_vec());
    assert_eq!(ref_win, b"C-G".to_vec());
}

#[test]
fn extraction_exact_match() {
    let ra = forty_column_alignment(forty_column_read());
    let homo = record(20, 24, b'A', 4);
    let hr = HomopolymerResult::new(&homo, &ra);
    assert_eq!(hr.start, 20);
    assert_eq!(hr.stop, 24);
    assert_eq!(hr.length, 4);
    assert_eq!(hr.read_alignment, b"AAAA".to_vec());
    assert_eq!(hr.ref_alignment, b"AAAA".to_vec());
    assert_eq!(hr.read_upstream, UPSTREAM.to_vec());
    assert_eq!(hr.read_downstream, DOWNSTREAM.to_vec());
    assert_eq!(hr.region_read_aln.len(), 40);
    assert_eq!(hr.score, HomopolymerScore::Difference(0));
}

#[test]
fn extraction_contraction() {
    let mut read = forty_column_read();
    read[22] = b'-';
    read[23] = b'-';
    let ra = forty_column_alignment(read);
    let homo = record(20, 24, b'A', 4);
    let hr = HomopolymerResult::new(&homo, &ra);
    assert_eq!(hr.read_alignment, b"AA--".to_vec());
    assert_eq!(hr.score, HomopolymerScore::Difference(-2));
}

#[test]
fn extraction_skip_at_alignment_start() {
    let mut reference = b"AAAA".to_vec();
    reference.extend_from_slice(UPSTREAM);
    reference.extend_from_slice(DOWNSTREAM);
    let ra = ReadAlignment::new(0, reference.clone(), reference);
    let homo = record(0, 4, b'A', 4);
    let hr = HomopolymerResult::new(&homo, &ra);
    assert_eq!(hr.start, 0);
    assert_eq!(hr.score, HomopolymerScore::Other(Anomaly::Skip));
}

#[test]
fn extraction_insertion_of_run_base() {
    // One extra read base, equal to the run's base, right after the run: the
    // inserted column lands at the head of the downstream flank and the
    // insertion rule reports it as ambiguous.
    let mut read = UPSTREAM.to_vec();
    read.extend_from_slice(b"AAAAA");
    read.extend_from_slice(DOWNSTREAM);
    let mut reference = UPSTREAM.to_vec();
    reference.extend_from_slice(b"AAAA-");
    reference.extend_from_slice(DOWNSTREAM);
    let ra = ReadAlignment::new(0, read, reference);
    let homo = record(20, 24, b'A', 4);
    let hr = HomopolymerResult::new(&homo, &ra);
    assert_eq!(hr.read_alignment, b"AAAA".to_vec());
    assert_eq!(hr.ref_downstream[0], b'-');
    assert_eq!(hr.score, HomopolymerScore::Other(Anomaly::Ambiguous));
}

#[test]
fn window_columns_gap_exclusive() {
    // A gap column is a gap on one side only, in every extracted window.
    let ra = ReadAlignment::new(0, b"AC-GTA".to_vec(), b"ACAG-A".to_vec());
    let (read_win, ref_win) = ra.extract_alignment(0, 6);
    for i in 0..read_win.len() {
        assert!(!(read_win[i] == b'-' && ref_win[i] == b'-'));
    }
    let (read_mid, ref_mid) = ra.extract_alignment(1, 5);
    for i in 0..read_mid.len() {
        assert!(!(read_mid[i] == b'-' && ref_mid[i] == b'-'));
    }
}
