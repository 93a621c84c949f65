//! Tests for the security asset registry.

use threat_modeling::assets::{
    Asset, AssetCategory, Parameter, Properties, RiskLevel, StorageConfig, Visibility,
};
use threat_modeling::registry::SecurityAssetRegistry;
use threat_modeling::threats::{SecurityCheck, Threat, ThreatType};

fn function_asset(name: &str, public: bool) -> Asset {
    let category = if public {
        AssetCategory::PublicFunction {
            parameters: vec![Parameter {
                name: String::from("amount"),
                param_type: String::from("Balance"),
            }],
            return_type: None,
        }
    } else {
        AssetCategory::Helper {
            parameters: vec![],
            return_type: None,
        }
    };
    Asset {
        name: String::from(name),
        visibility: if public {
            Visibility::Public
        } else {
            Visibility::Private
        },
        category,
        properties: Properties::default(),
    }
}

fn storage_asset(name: &str) -> Asset {
    Asset {
        name: String::from(name),
        visibility: Visibility::Private,
        category: AssetCategory::Storage(StorageConfig {
            visibility: Visibility::Private,
            name: String::from(name),
        }),
        properties: Properties::default(),
    }
}

#[test]
fn unknown_names_answer_empty_not_error() {
    let mut registry = SecurityAssetRegistry::new();
    assert_eq!(registry.dependents_of("X"), Vec::<String>::new());
    assert_eq!(registry.storage_accessors_of("X"), Vec::<String>::new());
    assert!(registry.get_properties("X").is_none());
    assert!(!registry.set_properties("X", Properties::default()));
}

#[test]
fn register_then_query() {
    let mut registry = SecurityAssetRegistry::new();
    registry.register(function_asset("transfer", true));
    let props = registry.get_properties("transfer").unwrap();
    assert_eq!(props.risk_level, RiskLevel::Low);
    assert!(props.threats.is_empty());
    // a callable gets an empty dependent list, not a missing one
    assert_eq!(registry.dependents_of("transfer"), Vec::<String>::new());
}

#[test]
fn register_overwrites_by_name() {
    let mut registry = SecurityAssetRegistry::new();
    registry.register(function_asset("thing", true));
    registry.register(storage_asset("thing"));
    // the storage registration replaced the function entry
    let surface = registry.public_interfaces();
    assert!(surface.is_empty());
    assert_eq!(registry.storage_accessors_of("thing"), Vec::<String>::new());
}

#[test]
fn set_properties_updates_in_place_and_never_inserts() {
    let mut registry = SecurityAssetRegistry::new();
    registry.register(function_asset("transfer", true));
    let mut props = Properties::default();
    props.risk_level = RiskLevel::Critical;
    props.validation_rules.push(String::from("amount > 0"));
    assert!(registry.set_properties("transfer", props));
    let read = registry.get_properties("transfer").unwrap();
    assert_eq!(read.risk_level, RiskLevel::Critical);
    assert_eq!(read.validation_rules, vec![String::from("amount > 0")]);

    assert!(!registry.set_properties("missing", Properties::default()));
    assert!(registry.get_properties("missing").is_none());
}

#[test]
fn public_interfaces_need_both_conditions() {
    let mut registry = SecurityAssetRegistry::new();
    registry.register(function_asset("entry", true));
    registry.register(function_asset("helper", false));
    registry.register(storage_asset("Ledger"));
    // a public-function category with a non-public visibility fails too
    let mut odd = function_asset("odd", true);
    odd.visibility = Visibility::Private;
    registry.register(odd);

    let surface = registry.public_interfaces();
    assert_eq!(surface.len(), 1);
    assert_eq!(surface[0].name, "entry");
}

#[test]
fn assets_by_risk_filters_exactly() {
    let mut registry = SecurityAssetRegistry::new();
    registry.register(function_asset("low_one", true));
    registry.register(function_asset("high_one", true));
    let mut high = Properties::default();
    high.risk_level = RiskLevel::High;
    assert!(registry.set_properties("high_one", high));

    let highs = registry.assets_by_risk(&RiskLevel::High);
    assert_eq!(highs.len(), 1);
    assert_eq!(highs[0].name, "high_one");
    let lows = registry.assets_by_risk(&RiskLevel::Low);
    assert_eq!(lows.len(), 1);
    assert_eq!(lows[0].name, "low_one");
    assert!(registry.assets_by_risk(&RiskLevel::Critical).is_empty());
}

#[test]
fn vulnerability_index_is_independent_of_the_asset_map() {
    let mut registry = SecurityAssetRegistry::new();
    let threat = Threat {
        name: ThreatType::UserControlledInput,
        how_to_check: SecurityCheck::InputSanitization,
    };
    // the name was never registered, the record still lands
    registry.record_vulnerability("ghost", threat);
    registry.record_vulnerability("ghost", threat);
    assert_eq!(registry.vulnerabilities_of("ghost"), vec![threat, threat]);
    assert!(registry.get_properties("ghost").is_none());
    assert!(registry.vulnerabilities_of("other").is_empty());
}

#[test]
fn risk_levels_are_ordered_low_to_critical() {
    assert!(RiskLevel::Low.rank() < RiskLevel::Medium.rank());
    assert!(RiskLevel::Medium.rank() < RiskLevel::High.rank());
    assert!(RiskLevel::High.rank() < RiskLevel::Critical.rank());
    assert_eq!(RiskLevel::default(), RiskLevel::Low);
}
