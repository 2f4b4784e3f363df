//! Classification of length discrepancies between a sequencing read and a
//! reference genome at annotated homopolymer runs.
//!
//! Given a homopolymer annotation, a gapped base-level alignment of a read
//! against the reference, and the alignment's covered span, the library
//! extracts the alignment columns covering the run and its flanks and applies
//! an ordered cascade of rules to produce either a signed length delta or a
//! named anomaly.

pub mod homopolymer;
pub mod read_alignment;
pub mod rules;

pub use crate::homopolymer::HomopolymerRecord;
pub use crate::homopolymer::HomopolymerResult;
pub use crate::homopolymer::HomopolymerScore;
pub use crate::homopolymer::Anomaly;
pub use crate::read_alignment::ReadAlignment;
