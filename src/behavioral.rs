//! Evidence and agent vocabulary shared by the workers: credibility ratings
//! on the Admiralty scale, validation checks, and the status enums.

use vstd::prelude::*;

verus! {

/// Admiralty-code credibility rating: a reliability letter (A best, F
/// cannot judge) and an information grade (1 to 6).
#[derive(Debug, Clone, Copy, PartialEq, Eq, Structural)]
pub enum CredibilityRating {
    A1, A2, A3, A4, A5, A6,
    B1, B2, B3, B4, B5, B6,
    C1, C2, C3, C4, C5, C6,
    D1, D2, D3, D4, D5, D6,
    E1, E2, E3, E4, E5, E6,
    F1, F2, F3, F4, F5, F6,
}

impl CredibilityRating {
    /// Weight of the reliability letter: 6 for A down to 1 for F.
    pub open spec fn reliability(self) -> nat {
        if matches!(self, Self::A1 | Self::A2 | Self::A3 | Self::A4 | Self::A5 | Self::A6) {
            6
        } else if matches!(self, Self::B1 | Self::B2 | Self::B3 | Self::B4 | Self::B5 | Self::B6) {
            5
        } else if matches!(self, Self::C1 | Self::C2 | Self::C3 | Self::C4 | Self::C5 | Self::C6) {
            4
        } else if matches!(self, Self::D1 | Self::D2 | Self::D3 | Self::D4 | Self::D5 | Self::D6) {
            3
        } else if matches!(self, Self::E1 | Self::E2 | Self::E3 | Self::E4 | Self::E5 | Self::E6) {
            2
        } else {
            1
        }
    }

    /// The information grade, the digit of the code.
    pub open spec fn grade(self) -> nat {
        if matches!(self, Self::A1 | Self::B1 | Self::C1 | Self::D1 | Self::E1 | Self::F1) {
            1
        } else if matches!(self, Self::A2 | Self::B2 | Self::C2 | Self::D2 | Self::E2 | Self::F2) {
            2
        } else if matches!(self, Self::A3 | Self::B3 | Self::C3 | Self::D3 | Self::E3 | Self::F3) {
            3
        } else if matches!(self, Self::A4 | Self::B4 | Self::C4 | Self::D4 | Self::E4 | Self::F4) {
            4
        } else if matches!(self, Self::A5 | Self::B5 | Self::C5 | Self::D5 | Self::E5 | Self::F5) {
            5
        } else {
            6
        }
    }

    /// The rating as one number: ten times the letter weight plus the grade.
    pub open spec fn value(self) -> nat {
        10 * self.reliability() + self.grade()
    }

    /// Whether this rating is at least as high as `minimum`.
    pub fn meets_threshold(&self, minimum: &CredibilityRating) -> (r: bool)
        ensures
            r == (self.value() >= minimum.value()),
    {
        self.numeric_value() >= minimum.numeric_value()
    }

    /// An A rating: the source is completely reliable.
    pub fn is_completely_reliable(&self) -> (r: bool)
        ensures
            r == (self.reliability() == 6),
    {
        self.numeric_value() >= 61
    }

    /// A high-quality rating: A1 through B3 in the order of the scale,
    /// that is every A rating and B1 to B3.
    pub fn is_high_quality(&self) -> (r: bool)
        ensures
            r == (self.reliability() == 6 || (self.reliability() == 5 && self.grade() <= 3)),
    {
        let v = self.numeric_value();
        v >= 61 || (v >= 51 && v <= 53)
    }

    /// The rating as one number, from 11 (F1) to 66 (A6).
    pub fn numeric_value(&self) -> (r: u8)
        ensures
            r as nat == self.value(),
            11 <= r <= 66,
    {
        match self {
            Self::A1 => 61, Self::A2 => 62, Self::A3 => 63, Self::A4 => 64, Self::A5 => 65, Self::A6 => 66,
            Self::B1 => 51, Self::B2 => 52, Self::B3 => 53, Self::B4 => 54, Self::B5 => 55, Self::B6 => 56,
            Self::C1 => 41, Self::C2 => 42, Self::C3 => 43, Self::C4 => 44, Self::C5 => 45, Self::C6 => 46,
            Self::D1 => 31, Self::D2 => 32, Self::D3 => 33, Self::D4 => 34, Self::D5 => 35, Self::D6 => 36,
            Self::E1 => 21, Self::E2 => 22, Self::E3 => 23, Self::E4 => 24, Self::E5 => 25, Self::E6 => 26,
            Self::F1 => 11, Self::F2 => 12, Self::F3 => 13, Self::F4 => 14, Self::F5 => 15, Self::F6 => 16,
        }
    }
}

/// Kind of a validation check.
#[derive(Debug, Clone, Copy, PartialEq, Eq, Structural)]
pub enum ValidationType {
    SourceCredibility,
    ContentAccuracy,
    BiasAssessment,
    CrossValidation,
    MethodologicalSoundness,
    EvidenceQuality,
    ConsistencyCheck,
    TemporalRelevance,
}

#[derive(Debug, Clone, Copy, PartialEq, Eq, Structural)]
pub enum ValidationStatus {
    Passed,
    Failed,
    Warning,
    RequiresHumanReview,
}

/// One check applied to a piece of evidence.
#[derive(Debug, Clone)]
pub struct ValidationCheck {
    pub check_type: ValidationType,
    pub status: ValidationStatus,
    pub details: String,
    pub automated: bool,
}

#[derive(Debug, Clone, Copy, PartialEq, Eq, Structural)]
pub enum SourceType {
    PeerReviewed,
    OfficialDocumentation,
    ExpertOpinion,
    CommunitySource,
    CommercialContent,
    Unknown,
}

#[derive(Debug, Clone, Copy, PartialEq, Eq, Structural)]
pub enum Priority {
    Critical,
    High,
    Medium,
    Low,
}

/// Status of the action a worker returns.
#[derive(Debug, Clone, Copy, PartialEq, Eq, Structural)]
pub enum ActionStatus {
    InProgress,
    Completed,
    Failed,
    RequiresInput,
    Blocked,
}

/// A worker's own account of its state.
#[derive(Debug, Clone, Copy, PartialEq, Eq, Structural)]
pub enum AgentStatus {
    Idle,
    Processing,
    WaitingForInput,
    Error,
}

} // verus!
