//! The pipeline: bytes, grid, measurements.

use crate::decode::decode_luma8;
use crate::decode::decoded_view;
use crate::decode::grid_from_decoded;
use crate::decode::grid_of;
use crate::decode::DecodeFailure;
use crate::grid::IntensityGrid;
use crate::histogram::calculate_histogram;
use crate::histogram::histogram_of;
use crate::variance::calculate_variance;
use crate::variance::variance_denominator;
use crate::variance::variance_numerator;
use crate::variance::Variance;
use vstd::prelude::*;

verus! {

/// What was measured on one grid: everything a score is computed from.
#[derive(Debug)]
pub struct Evidence {
    /// The number of samples in the grid.
    pub sample_count: u32,
    /// For each of the 256 intensity levels, the number of samples with it.
    pub histogram: Vec<u32>,
    /// The population variance of the intensities.
    pub variance: Variance,
}

/// The measurements as mathematical values.
pub struct EvidenceView {
    pub sample_count: nat,
    pub histogram: Seq<nat>,
    pub variance_numerator: int,
    pub variance_denominator: nat,
}

impl View for Evidence {
    type V = EvidenceView;

    open spec fn view(&self) -> EvidenceView {
        EvidenceView {
            sample_count: self.sample_count as nat,
            histogram: Seq::new(self.histogram@.len(), |level: int| self.histogram@[level] as nat),
            variance_numerator: self.variance.numerator as int,
            variance_denominator: self.variance.denominator as nat,
        }
    }
}

/// The measurements of a grid with the given samples.
pub open spec fn evidence_of(samples: Seq<u8>) -> EvidenceView {
    EvidenceView {
        sample_count: samples.len(),
        histogram: histogram_of(samples),
        variance_numerator: variance_numerator(samples),
        variance_denominator: variance_denominator(samples),
    }
}

/// The outcome of the pipeline for what the decoder returned: the
/// measurements of the grid, or the message of the failure.
pub open spec fn detection_of(decoded: Result<(u32, u32, Seq<u8>), Seq<char>>) -> Result<
    EvidenceView,
    Seq<char>,
> {
    match grid_of(decoded) {
        Ok(grid) => Ok(evidence_of(grid.samples)),
        Err(text) => Err(text),
    }
}

/// A pipeline outcome by the measurements or the text of the failure.
pub open spec fn detection_view(outcome: Result<Evidence, DecodeFailure>) -> Result<
    EvidenceView,
    Seq<char>,
> {
    match outcome {
        Ok(evidence) => Ok(evidence@),
        Err(failure) => Err(failure.message@),
    }
}

/// Measures a grid: its sample count, histogram and variance.
pub fn measure(grid: &IntensityGrid) -> (evidence: Evidence)
    ensures
        evidence@ == evidence_of(grid@.samples),
{
    let evidence = Evidence {
        sample_count: grid.sample_count(),
        histogram: calculate_histogram(grid),
        variance: calculate_variance(grid),
    };
    proof {
        assert(evidence@.histogram =~= histogram_of(grid@.samples));
    }
    evidence
}

/// Runs the pipeline on what the decoder returned: a decoder error or an
/// unusable image gives the failure, a grid gives its measurements.
pub fn detect_from_decoded(decoded: Result<(u32, u32, Vec<u8>), String>) -> (outcome: Result<
    Evidence,
    DecodeFailure,
>)
    ensures
        detection_view(outcome) == detection_of(decoded_view(decoded)),
{
    match grid_from_decoded(decoded) {
        Ok(grid) => Ok(measure(&grid)),
        Err(failure) => Err(failure),
    }
}

/// Runs the pipeline on encoded image bytes.
///
/// Whatever the decoder returns, the outcome is what `detect_from_decoded`
/// makes of it.
pub fn perform_detection(bytes: &[u8]) -> (outcome: Result<Evidence, DecodeFailure>)
    ensures
        exists|decoded: Result<(u32, u32, Seq<u8>), Seq<char>>|
            detection_view(outcome) == #[trigger] detection_of(decoded),
{
    let decoded = decode_luma8(bytes);
    let ghost seen = decoded_view(decoded);
    let outcome = detect_from_decoded(decoded);
    proof {
        assert(detection_view(outcome) == detection_of(seen));
    }
    outcome
}

/// Past the decoder the pipeline has no hidden state: two runs on the same
/// decoded image, or on the same decoder error, end in the same outcome.
pub proof fn lemma_same_decoded_same_outcome(
    first_decoded: Result<(u32, u32, Vec<u8>), String>,
    second_decoded: Result<(u32, u32, Vec<u8>), String>,
    first: Result<Evidence, DecodeFailure>,
    second: Result<Evidence, DecodeFailure>,
)
    requires
        decoded_view(first_decoded) == decoded_view(second_decoded),
        detection_view(first) == detection_of(decoded_view(first_decoded)),
        detection_view(second) == detection_of(decoded_view(second_decoded)),
    ensures
        detection_view(first) == detection_view(second),
        first is Ok <==> second is Ok,
{
}

} // verus!
