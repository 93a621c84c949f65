//! The threat model data structures: reusable checkable concerns and the
//! supporting records handed to later, out-of-scope analysis stages.

use vstd::prelude::*;

verus! {

/// The name of a threat, e.g. user-controlled input.
#[derive(Clone, Copy, Debug, PartialEq, Eq, Structural)]
pub enum ThreatType {
    UserControlledInput,
}

/// How a threat is checked. This is only the category of checking; the
/// actual checking happens in later stages outside this crate.
#[derive(Clone, Copy, Debug, PartialEq, Eq, Structural)]
pub enum SecurityCheck {
    InputSanitization,
}

impl SecurityCheck {
    /// Selects the input-validation checking step. Returns `Some(())` for
    /// the checks that validate input, `None` otherwise.
    pub fn validate_input(&self) -> (r: Option<()>)
        ensures
            r == (match self {
                SecurityCheck::InputSanitization => Some(()),
            }),
    {
        match self {
            SecurityCheck::InputSanitization => Some(()),
        }
    }
}

/// A reusable checkable concern: what needs to be checked, and how.
///
/// A `Threat` is a stored definition; it is distinct from a matching rule
/// of the pattern engine, which scores signatures per run.
#[derive(Clone, Copy, Debug, PartialEq, Eq, Structural)]
pub struct Threat {
    /// The name of the threat.
    pub name: ThreatType,
    /// How to check the threat.
    pub how_to_check: SecurityCheck,
}

impl View for Threat {
    type V = Threat;

    open spec fn view(&self) -> Threat {
        *self
    }
}

impl DeepView for Threat {
    type V = Threat;

    open spec fn deep_view(&self) -> Threat {
        *self
    }
}

/// Information used by later stages for symbolic execution and targeted
/// unit-test generation. This crate only carries the record; nothing in
/// the core reads it.
#[derive(Debug)]
pub struct ForSymbolicExecution {
    /// Pallet-specific semantic meaning of the asset.
    pub semantic_meaning: String,
    /// Compliance requirements for the asset.
    pub compliance_requirements: String,
    /// Business requirements for the asset, one entry per requirement.
    pub business_requirements: Vec<String>,
    /// Valid assumptions pairing a precondition with the postcondition it
    /// should lead to, kept in insertion order with unique preconditions.
    pub valid_assumptions: Vec<(String, String)>,
}

impl Default for ForSymbolicExecution {
    /// An empty record: no meaning, requirements or assumptions yet.
    fn default() -> (r: Self)
        ensures
            r.semantic_meaning@ == Seq::<char>::empty(),
            r.compliance_requirements@ == Seq::<char>::empty(),
            r.business_requirements@ == Seq::<String>::empty(),
            r.valid_assumptions@ == Seq::<(String, String)>::empty(),
    {
        ForSymbolicExecution {
            semantic_meaning: String::new(),
            compliance_requirements: String::new(),
            business_requirements: Vec::new(),
            valid_assumptions: Vec::new(),
        }
    }
}

/// A mitigation for a threat, tracked by later stages.
#[derive(Debug)]
pub struct MitigationStrategy {
    /// The kind of mitigation.
    pub strategy_type: String,
    /// A description of the mitigation.
    pub description: String,
    /// Whether the mitigation is implemented.
    pub implementation_status: bool,
}

} // verus!
