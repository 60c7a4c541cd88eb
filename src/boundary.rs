use vstd::prelude::*;

use crate::timing::ThdOverrun;
use crate::truehd::{DecodedThdFrame, ThdDecodePacket};

verus! {

/// Where both frames at a boundary are silent, a frame is deleted once the
/// audio runs ahead of the video by at least this many samples.
pub const SILENT_DRIFT_LIMIT: i128 = 20;

/// How alike the frames on both sides of a segment boundary are.
#[derive(Debug, Clone, Copy, PartialEq, Eq, Structural)]
pub enum Similarity {
    /// Alike enough to be the same audio.
    Match,
    /// Close to the matching threshold without crossing it.
    NearMiss,
    Miss,
}

/// How the frames at a boundary are compared.
#[derive(Debug, Clone, Copy, PartialEq, Eq, Structural)]
pub enum Scoring {
    /// By the largest distance between index-aligned samples.
    MaxDistance { tolerance: u32 },
    /// By a correlation score that the caller computed and graded.
    Correlation(Similarity),
}

#[derive(Debug, Clone, Copy, PartialEq, Eq, Structural)]
pub struct MatchStrategy {
    /// Frames whose samples all stay below this magnitude count as silent.
    pub silence_threshold: i32,
    pub scoring: Scoring,
}

/// What to do with the last frame before a segment boundary.
#[derive(Debug, Clone, Copy, PartialEq, Eq, Structural)]
pub enum BoundaryDecision {
    Keep,
    /// Kept, but the frames were nearly alike: a possible missed duplicate.
    KeepNearMiss,
    /// Deleted to pull the audio back towards the video, both frames being silent.
    DeleteSilent,
    /// Deleted as a duplicate of the first frame after the boundary.
    DeleteDuplicate,
}

impl BoundaryDecision {
    pub open spec fn deletes(&self) -> bool {
        *self == BoundaryDecision::DeleteSilent || *self == BoundaryDecision::DeleteDuplicate
    }

    /// The number of frames to delete: never more than one.
    pub fn frames_to_delete(&self) -> (r: u32)
        ensures
            r == (if self.deletes() { 1u32 } else { 0u32 }),
            r <= 1,
    {
        match self {
            BoundaryDecision::DeleteSilent | BoundaryDecision::DeleteDuplicate => 1,
            _ => 0,
        }
    }
}

/// The grade of a largest sample distance against a tolerance: a match
/// within it, a near miss within twice of it.
pub open spec fn spec_distance_similarity(distance: int, tolerance: int) -> Similarity {
    if distance <= tolerance {
        Similarity::Match
    } else if distance <= 2 * tolerance {
        Similarity::NearMiss
    } else {
        Similarity::Miss
    }
}

pub fn max_distance_similarity(tail: &DecodedThdFrame, head: &DecodedThdFrame, tolerance: u32) -> (r:
    Similarity)
    ensures
        r == spec_distance_similarity(tail.spec_max_distance(head), tolerance as int),
{
    let d: u64 = tail.max_distance(head) as u64;
    if d <= tolerance as u64 {
        Similarity::Match
    } else if d <= 2 * (tolerance as u64) {
        Similarity::NearMiss
    } else {
        Similarity::Miss
    }
}

/// The decision at a boundary. Similarity tells little between silent
/// frames, so there the drift decides instead.
pub open spec fn spec_decide_boundary(
    both_silent: bool,
    drift_samples: int,
    similarity: Similarity,
) -> BoundaryDecision {
    if both_silent {
        if drift_samples >= SILENT_DRIFT_LIMIT {
            BoundaryDecision::DeleteSilent
        } else {
            BoundaryDecision::Keep
        }
    } else {
        match similarity {
            Similarity::Match => BoundaryDecision::DeleteDuplicate,
            Similarity::NearMiss => BoundaryDecision::KeepNearMiss,
            Similarity::Miss => BoundaryDecision::Keep,
        }
    }
}

pub fn decide_boundary(both_silent: bool, drift_samples: i128, similarity: Similarity) -> (r:
    BoundaryDecision)
    ensures
        r == spec_decide_boundary(both_silent, drift_samples as int, similarity),
{
    if both_silent {
        if drift_samples >= SILENT_DRIFT_LIMIT {
            BoundaryDecision::DeleteSilent
        } else {
            BoundaryDecision::Keep
        }
    } else {
        match similarity {
            Similarity::Match => BoundaryDecision::DeleteDuplicate,
            Similarity::NearMiss => BoundaryDecision::KeepNearMiss,
            Similarity::Miss => BoundaryDecision::Keep,
        }
    }
}

/// The grade that a strategy gives to a pair of frames.
pub open spec fn spec_similarity(
    tail: &DecodedThdFrame,
    head: &DecodedThdFrame,
    scoring: Scoring,
) -> Similarity {
    match scoring {
        Scoring::MaxDistance { tolerance } => spec_distance_similarity(
            tail.spec_max_distance(head),
            tolerance as int,
        ),
        Scoring::Correlation(s) => s,
    }
}

/// The decision at the boundary between a segment ending in `tail` and one
/// starting with `head`, the frames compared in their mono downmix.
pub open spec fn spec_adjust_gap(
    tail: &ThdDecodePacket,
    head: &ThdDecodePacket,
    drift_samples: int,
    strategy: MatchStrategy,
) -> BoundaryDecision {
    spec_decide_boundary(
        tail.mono.spec_is_silence(strategy.silence_threshold) && head.mono.spec_is_silence(
            strategy.silence_threshold,
        ),
        drift_samples,
        spec_similarity(&tail.mono, &head.mono, strategy.scoring),
    )
}

/// Decides whether the last frame before a segment boundary goes.
pub fn adjust_gap(
    tail: &ThdDecodePacket,
    head: &ThdDecodePacket,
    overrun: &ThdOverrun,
    strategy: &MatchStrategy,
) -> (r: BoundaryDecision)
    requires
        overrun.wf(),
    ensures
        r == spec_adjust_gap(tail, head, overrun.spec_samples(), *strategy),
{
    let both_silent = tail.mono.is_silence(strategy.silence_threshold) && head.mono.is_silence(
        strategy.silence_threshold,
    );
    let similarity = match strategy.scoring {
        Scoring::MaxDistance { tolerance } => max_distance_similarity(
            &tail.mono,
            &head.mono,
            tolerance,
        ),
        Scoring::Correlation(s) => s,
    };
    decide_boundary(both_silent, overrun.samples(), similarity)
}

} // verus!
