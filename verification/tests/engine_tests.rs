//! Tests for the threat pattern engine and the string utilities.

use threat_modeling::assets::Parameter;
use threat_modeling::engine::{FunctionSignature, ThreatPattern, ThreatPatternEngine};
use threat_modeling::strings::{contains_substring, join_path, str_eq};
use threat_modeling::threats::SecurityCheck;

fn param(name: &str, ty: &str) -> Parameter {
    Parameter {
        name: String::from(name),
        param_type: String::from(ty),
    }
}

fn signature(name: &str, params: Vec<Parameter>) -> FunctionSignature {
    FunctionSignature {
        name: String::from(name),
        parameters: params,
    }
}

fn pattern(function: &[&str], parameter: &[&str], risk_score: u32) -> ThreatPattern {
    ThreatPattern {
        function_patterns: function.iter().map(|s| String::from(*s)).collect(),
        parameter_patterns: parameter.iter().map(|s| String::from(*s)).collect(),
        risk_score,
    }
}

#[test]
fn transfer_pattern_scores_eighty_with_two_notes() {
    let mut engine = ThreatPatternEngine::new();
    engine.add_pattern(pattern(&["transfer"], &["Balance"], 80));
    let sig = signature(
        "transfer",
        vec![param("amount", "Balance"), param("to", "AccountId")],
    );
    let analysis = engine.analyze_function(&sig);
    assert_eq!(analysis.risk_score, 80);
    assert_eq!(analysis.dangerous_params, vec![param("amount", "Balance")]);
    assert_eq!(analysis.matched_patterns.len(), 2);
    assert_eq!(analysis.function, sig);
}

#[test]
fn matching_is_case_sensitive_and_unanchored() {
    let mut engine = ThreatPatternEngine::new();
    engine.add_pattern(pattern(&["transfer"], &[], 50));
    // a substring in the middle matches
    assert_eq!(
        engine
            .analyze_function(&signature("do_transfer_all", vec![]))
            .risk_score,
        50
    );
    // the case must agree
    assert_eq!(
        engine
            .analyze_function(&signature("Transfer", vec![]))
            .risk_score,
        0
    );
}

#[test]
fn score_is_a_maximum_never_a_sum() {
    let mut engine = ThreatPatternEngine::new();
    engine.add_pattern(pattern(&["transfer"], &[], 30));
    engine.add_pattern(pattern(&["trans"], &[], 70));
    engine.add_pattern(pattern(&["fer"], &[], 40));
    let analysis = engine.analyze_function(&signature("transfer", vec![]));
    assert_eq!(analysis.risk_score, 70);
    assert_eq!(analysis.matched_patterns.len(), 3);
}

#[test]
fn each_matching_entry_flags_the_parameter_once() {
    let mut engine = ThreatPatternEngine::new();
    engine.add_pattern(pattern(&[], &["Balance", "Bal"], 10));
    let analysis = engine.analyze_function(&signature(
        "mint",
        vec![param("value", "Balance"), param("who", "AccountId")],
    ));
    assert_eq!(analysis.risk_score, 0);
    assert_eq!(
        analysis.dangerous_params,
        vec![param("value", "Balance"), param("value", "Balance")]
    );
    assert_eq!(analysis.matched_patterns.len(), 2);
}

#[test]
fn analysis_notes_name_matches_before_parameter_matches() {
    let mut engine = ThreatPatternEngine::new();
    engine.add_pattern(pattern(&["mint"], &["u128"], 20));
    let analysis = engine.analyze_function(&signature("mint", vec![param("value", "u128")]));
    assert_eq!(
        analysis.matched_patterns,
        vec![String::from("mint"), String::from("u128")]
    );
}

#[test]
fn adding_a_pattern_never_lowers_the_score() {
    let mut engine = ThreatPatternEngine::new();
    engine.add_pattern(pattern(&["transfer"], &[], 60));
    let sig = signature("transfer", vec![]);
    let before = engine.analyze_function(&sig).risk_score;
    engine.add_pattern(pattern(&["none_of_this"], &[], 10));
    engine.add_pattern(pattern(&["ransfe"], &[], 5));
    let after = engine.analyze_function(&sig).risk_score;
    assert!(after >= before);
    assert_eq!(after, 60);
}

#[test]
fn analyze_functions_sorts_by_risk_and_keeps_tie_order() {
    let mut engine = ThreatPatternEngine::new();
    engine.add_pattern(pattern(&["transfer"], &[], 80));
    engine.add_pattern(pattern(&["check"], &[], 20));
    engine.add_pattern(pattern(&["audit"], &[], 20));
    let input = vec![
        signature("check_first", vec![]),
        signature("audit_second", vec![]),
        signature("transfer", vec![]),
        signature("check_third", vec![]),
    ];
    let ranked = engine.analyze_functions(&input);
    let order: Vec<&str> = ranked.iter().map(|a| a.function.name.as_str()).collect();
    // non-increasing scores; the three ties keep their input order
    assert_eq!(
        order,
        vec!["transfer", "check_first", "audit_second", "check_third"]
    );
    let scores: Vec<u32> = ranked.iter().map(|a| a.risk_score).collect();
    assert_eq!(scores, vec![80, 20, 20, 20]);
}

#[test]
fn analyze_functions_without_patterns_keeps_input_order() {
    let engine = ThreatPatternEngine::new();
    let input = vec![
        signature("a", vec![]),
        signature("b", vec![]),
        signature("c", vec![]),
    ];
    let ranked = engine.analyze_functions(&input);
    let order: Vec<&str> = ranked.iter().map(|a| a.function.name.as_str()).collect();
    assert_eq!(order, vec!["a", "b", "c"]);
    assert!(ranked.iter().all(|a| a.risk_score == 0));
}

#[test]
fn substring_search_handles_edges() {
    assert!(contains_substring("transfer", ""));
    assert!(contains_substring("transfer", "transfer"));
    assert!(contains_substring("transfer", "t"));
    assert!(!contains_substring("", "a"));
    assert!(!contains_substring("short", "much_longer"));
}

#[test]
fn string_equality_is_exact() {
    assert!(str_eq("abc", "abc"));
    assert!(!str_eq("abc", "abC"));
    assert!(!str_eq("abc", "abcd"));
    assert!(str_eq("", ""));
}

#[test]
fn path_joining_uses_double_colons() {
    let segments = vec![String::from("pallet"), String::from("constant")];
    assert_eq!(join_path(&segments), "pallet::constant");
    assert_eq!(join_path(&vec![String::from("derive")]), "derive");
    assert_eq!(join_path(&Vec::new()), "");
}

#[test]
fn input_sanitization_is_the_validating_check() {
    assert_eq!(SecurityCheck::InputSanitization.validate_input(), Some(()));
}
