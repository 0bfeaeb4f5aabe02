//! Vocabulary of systematic research: queries, strategies, PRISMA phase
//! checks and synthesis sections.

use vstd::prelude::*;

verus! {

/// A research query parsed from an intent.
#[derive(Debug, Clone)]
pub struct SearchQuery {
    pub text: String,
    pub domain: String,
    pub scope: String,
    pub max_sources: usize,
}

impl SearchQuery {
    /// Builds the query from an intent's text parameters `query`, `domain`
    /// and `scope` and its numeric parameter `max_sources`. The query text is
    /// required; the others default to "general", "comprehensive" and 20.
    pub fn from_parameters(
        query: Option<String>,
        domain: Option<String>,
        scope: Option<String>,
        max_sources: Option<usize>,
    ) -> (r: Option<SearchQuery>)
        ensures
            r is None <==> query is None,
            r is Some ==> {
                let q = r->Some_0;
                &&& q.text == query->Some_0
                &&& q.domain@ == (match domain {
                    Some(d) => d@,
                    None => "general"@,
                })
                &&& q.scope@ == (match scope {
                    Some(s) => s@,
                    None => "comprehensive"@,
                })
                &&& q.max_sources == (match max_sources {
                    Some(m) => m,
                    None => 20,
                })
            },
    {
        match query {
            None => None,
            Some(text) => {
                let domain = match domain {
                    Some(d) => d,
                    None => "general".to_string(),
                };
                let scope = match scope {
                    Some(s) => s,
                    None => "comprehensive".to_string(),
                };
                let max_sources = match max_sources {
                    Some(m) => m,
                    None => 20,
                };
                Some(SearchQuery { text, domain, scope, max_sources })
            },
        }
    }
}

#[derive(Debug, Clone, Copy, PartialEq, Eq, Structural)]
pub enum SearchStrategy {
    AcademicSources,
    OfficialDocumentation,
    ExpertOpinions,
    TechnicalSources,
}

#[derive(Debug, Clone, Copy, PartialEq, Eq, Structural)]
pub enum ResearchMethodology {
    Systematic,
    Narrative,
    Meta,
    Scoping,
}

/// The outcome of one PRISMA phase.
#[derive(Debug, Clone)]
pub struct PrismaCheck {
    pub phase: String,
    pub criteria_met: bool,
    pub details: String,
    pub automated: bool,
}

/// The PRISMA checks of a review, one per phase, in phase order.
#[derive(Debug, Clone)]
pub struct PrismaValidation {
    pub checks: Vec<PrismaCheck>,
    pub overall_compliance: bool,
    pub methodology_version: String,
}

impl PrismaValidation {
    /// Collects the phase checks; the review complies when every phase met
    /// its criteria.
    pub fn new(checks: Vec<PrismaCheck>, methodology_version: String) -> (r: Self)
        ensures
            r.checks@ == checks@,
            r.methodology_version == methodology_version,
            r.overall_compliance == (forall|i: int| 0 <= i < checks@.len() ==> (#[trigger] checks@[i]).criteria_met),
    {
        let mut all = true;
        let mut i: usize = 0;
        while i < checks.len()
            invariant
                i <= checks.len(),
                all == (forall|j: int| 0 <= j < i ==> (#[trigger] checks@[j]).criteria_met),
            decreases checks.len() - i,
        {
            if !checks[i].criteria_met {
                all = false;
            }
            i += 1;
        }
        PrismaValidation { checks, overall_compliance: all, methodology_version }
    }
}

#[derive(Debug, Clone, Copy, PartialEq, Eq, Structural)]
pub enum ConfidenceLevel {
    High,
    Medium,
    Low,
}

#[derive(Debug, Clone, Copy, PartialEq, Eq, Structural)]
pub enum EvidenceStrength {
    Strong,
    Moderate,
    Weak,
}

/// One topic of a synthesis.
#[derive(Debug, Clone)]
pub struct SynthesisSection {
    pub topic: String,
    pub summary: String,
    pub key_findings: Vec<String>,
    pub evidence_strength: EvidenceStrength,
    pub confidence: ConfidenceLevel,
}

/// Strength of a body of findings from how many of them carry A-rated
/// evidence: at least half is strong, at least a quarter moderate (both
/// shares rounded down), less is weak.
pub fn evidence_strength(strong: usize, total: usize) -> (r: EvidenceStrength)
    ensures
        strong >= total / 2 ==> r == EvidenceStrength::Strong,
        strong < total / 2 && strong >= total / 4 ==> r == EvidenceStrength::Moderate,
        strong < total / 4 ==> r == EvidenceStrength::Weak,
{
    if strong >= total / 2 {
        EvidenceStrength::Strong
    } else if strong >= total / 4 {
        EvidenceStrength::Moderate
    } else {
        EvidenceStrength::Weak
    }
}

} // verus!
