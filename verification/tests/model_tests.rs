//! Tests for the plain data-model types.

use threat_modeling::assets::{Properties, RiskLevel, Visibility};
use threat_modeling::threats::{
    ForSymbolicExecution, MitigationStrategy, SecurityCheck, Threat, ThreatType,
};

#[test]
fn default_properties_are_empty_and_low() {
    let props = Properties::default();
    assert!(props.threats.is_empty());
    assert_eq!(props.risk_level, RiskLevel::Low);
    assert!(props.validation_rules.is_empty());
    assert!(props.state_transitions.is_empty());
    assert!(props.value_constraints.is_empty());
}

#[test]
fn default_symbolic_execution_record_is_empty() {
    let record = ForSymbolicExecution::default();
    assert!(record.semantic_meaning.is_empty());
    assert!(record.compliance_requirements.is_empty());
    assert!(record.business_requirements.is_empty());
    assert!(record.valid_assumptions.is_empty());
}

#[test]
fn threats_pair_a_name_with_a_check() {
    let threat = Threat {
        name: ThreatType::UserControlledInput,
        how_to_check: SecurityCheck::InputSanitization,
    };
    let copy = threat;
    assert_eq!(copy, threat);
    assert_eq!(copy.how_to_check.validate_input(), Some(()));
}

#[test]
fn mitigation_strategies_carry_their_status() {
    let strategy = MitigationStrategy {
        strategy_type: String::from("rate limiting"),
        description: String::from("cap calls per block"),
        implementation_status: false,
    };
    assert!(!strategy.implementation_status);
    assert_eq!(strategy.strategy_type, "rate limiting");
}

#[test]
fn visibility_values_are_distinct() {
    assert_ne!(Visibility::Public, Visibility::Private);
    assert_ne!(Visibility::Private, Visibility::Unspecified);
    assert_ne!(Visibility::Public, Visibility::Unspecified);
}
