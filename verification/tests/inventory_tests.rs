//! Tests for the syntax visitor and the asset classifier.

use threat_modeling::assets::{AssetCategory, Visibility};
use threat_modeling::source_model::{
    AssocTypeDef, AttrPath, FunctionDef, SourceFile, SourceItem, TypeAliasDef,
};
use threat_modeling::assets::Parameter;
use threat_modeling::inventory::parser;
use threat_modeling::visitor::{has_pallet_constant, PalletVisitor};

fn param(name: &str, ty: &str) -> Parameter {
    Parameter {
        name: String::from(name),
        param_type: String::from(ty),
    }
}

fn attr(segments: &[&str]) -> AttrPath {
    AttrPath {
        segments: segments.iter().map(|s| String::from(*s)).collect(),
    }
}

fn transfer_and_check_file() -> SourceFile {
    SourceFile {
        items: vec![SourceItem::Impl {
            methods: vec![
                FunctionDef {
                    name: String::from("transfer"),
                    is_public: true,
                    params: vec![param("amount", "Balance"), param("to", "AccountId")],
                },
                FunctionDef {
                    name: String::from("check"),
                    is_public: false,
                    params: vec![param("x", "u32")],
                },
            ],
        }],
    }
}

#[test]
fn public_and_private_functions_classify_separately() {
    let inv = parser(&transfer_and_check_file());
    assert_eq!(inv.assets.len(), 2);

    let transfer = &inv.assets[0];
    assert_eq!(transfer.name, "transfer");
    assert_eq!(transfer.visibility, Visibility::Public);
    match &transfer.category {
        AssetCategory::PublicFunction {
            parameters,
            return_type,
        } => {
            assert_eq!(parameters.len(), 2);
            assert_eq!(parameters[0], param("amount", "Balance"));
            assert_eq!(parameters[1], param("to", "AccountId"));
            assert!(return_type.is_none());
        }
        other => panic!("expected a public function, got {:?}", other),
    }

    let check = &inv.assets[1];
    assert_eq!(check.name, "check");
    assert_eq!(check.visibility, Visibility::Private);
    match &check.category {
        AssetCategory::Helper { parameters, .. } => {
            assert_eq!(parameters.len(), 1);
            assert_eq!(parameters[0], param("x", "u32"));
        }
        other => panic!("expected a helper, got {:?}", other),
    }
}

#[test]
fn fresh_assets_carry_default_properties() {
    let inv = parser(&transfer_and_check_file());
    for asset in &inv.assets {
        assert!(asset.properties.threats.is_empty());
        assert_eq!(
            asset.properties.risk_level,
            threat_modeling::assets::RiskLevel::Low
        );
        assert!(asset.properties.validation_rules.is_empty());
    }
}

#[test]
fn pallet_module_type_aliases_become_storage() {
    let file = SourceFile {
        items: vec![SourceItem::Module {
            name: String::from("pallet"),
            items: vec![
                SourceItem::TypeAlias {
                    def: TypeAliasDef {
                        name: String::from("Balances"),
                        is_public: true,
                        attrs: vec![attr(&["pallet", "storage"])],
                    },
                },
                SourceItem::TypeAlias {
                    def: TypeAliasDef {
                        name: String::from("Hidden"),
                        is_public: false,
                        attrs: vec![attr(&["anything"])],
                    },
                },
                // no attribute: not storage-relevant
                SourceItem::TypeAlias {
                    def: TypeAliasDef {
                        name: String::from("Plain"),
                        is_public: true,
                        attrs: vec![],
                    },
                },
            ],
        }],
    };
    let inv = parser(&file);
    assert_eq!(inv.assets.len(), 2);
    assert_eq!(inv.assets[0].name, "Balances");
    assert_eq!(inv.assets[0].visibility, Visibility::Public);
    match &inv.assets[0].category {
        AssetCategory::Storage(config) => {
            assert_eq!(config.name, "Balances");
            assert_eq!(config.visibility, Visibility::Public);
        }
        other => panic!("expected storage, got {:?}", other),
    }
    assert_eq!(inv.assets[1].name, "Hidden");
    assert_eq!(inv.assets[1].visibility, Visibility::Private);
}

#[test]
fn other_modules_yield_no_storage_but_are_traversed() {
    let file = SourceFile {
        items: vec![SourceItem::Module {
            name: String::from("helpers"),
            items: vec![
                SourceItem::TypeAlias {
                    def: TypeAliasDef {
                        name: String::from("NotStorage"),
                        is_public: true,
                        attrs: vec![attr(&["pallet", "storage"])],
                    },
                },
                // a nested pallet module is still found
                SourceItem::Module {
                    name: String::from("pallet"),
                    items: vec![SourceItem::TypeAlias {
                        def: TypeAliasDef {
                            name: String::from("Deep"),
                            is_public: false,
                            attrs: vec![attr(&["pallet", "storage"])],
                        },
                    }],
                },
            ],
        }],
    };
    let inv = parser(&file);
    assert_eq!(inv.assets.len(), 1);
    assert_eq!(inv.assets[0].name, "Deep");
}

#[test]
fn marked_trait_associated_types_become_constants() {
    let file = SourceFile {
        items: vec![SourceItem::Trait {
            assoc_types: vec![
                AssocTypeDef {
                    name: String::from("MaxSupply"),
                    attrs: vec![attr(&["pallet", "constant"])],
                },
                AssocTypeDef {
                    name: String::from("Currency"),
                    attrs: vec![attr(&["pallet", "storage"])],
                },
                AssocTypeDef {
                    name: String::from("Unmarked"),
                    attrs: vec![],
                },
            ],
        }],
    };
    let inv = parser(&file);
    assert_eq!(inv.assets.len(), 1);
    assert_eq!(inv.assets[0].name, "MaxSupply");
    assert_eq!(inv.assets[0].visibility, Visibility::Unspecified);
    match &inv.assets[0].category {
        AssetCategory::Constant { name, value_type } => {
            assert_eq!(name, "MaxSupply");
            assert_eq!(value_type, "");
        }
        other => panic!("expected a constant, got {:?}", other),
    }
}

#[test]
fn marked_enums_yield_one_event_or_error_per_variant() {
    let file = SourceFile {
        items: vec![
            SourceItem::Enum {
                attrs: vec![attr(&["pallet", "event"])],
                variants: vec![String::from("Transferred"), String::from("Minted")],
            },
            SourceItem::Enum {
                attrs: vec![attr(&["pallet", "error"])],
                variants: vec![String::from("InsufficientBalance")],
            },
            SourceItem::Enum {
                attrs: vec![attr(&["derive"])],
                variants: vec![String::from("Ignored")],
            },
        ],
    };
    let inv = parser(&file);
    assert_eq!(inv.assets.len(), 3);
    assert_eq!(inv.assets[0].name, "Transferred");
    assert_eq!(inv.assets[0].visibility, Visibility::Public);
    assert!(matches!(
        inv.assets[0].category,
        AssetCategory::Event { .. }
    ));
    assert_eq!(inv.assets[1].name, "Minted");
    assert_eq!(inv.assets[2].name, "InsufficientBalance");
    assert!(matches!(
        inv.assets[2].category,
        AssetCategory::Error { .. }
    ));
}

#[test]
fn event_marker_takes_precedence_over_error_marker() {
    let file = SourceFile {
        items: vec![SourceItem::Enum {
            attrs: vec![attr(&["pallet", "error"]), attr(&["pallet", "event"])],
            variants: vec![String::from("Both")],
        }],
    };
    let inv = parser(&file);
    assert_eq!(inv.assets.len(), 1);
    assert!(matches!(
        inv.assets[0].category,
        AssetCategory::Event { .. }
    ));
}

#[test]
fn inventory_groups_keep_traversal_order() {
    let file = SourceFile {
        items: vec![
            SourceItem::Enum {
                attrs: vec![attr(&["pallet", "event"])],
                variants: vec![String::from("Happened")],
            },
            SourceItem::Impl {
                methods: vec![FunctionDef {
                    name: String::from("run"),
                    is_public: true,
                    params: vec![],
                }],
            },
            SourceItem::Module {
                name: String::from("pallet"),
                items: vec![SourceItem::TypeAlias {
                    def: TypeAliasDef {
                        name: String::from("Store"),
                        is_public: false,
                        attrs: vec![attr(&["pallet", "storage"])],
                    },
                }],
            },
        ],
    };
    // functions first, then storage, then constants, events, errors
    let inv = parser(&file);
    let names: Vec<&str> = inv.assets.iter().map(|a| a.name.as_str()).collect();
    assert_eq!(names, vec!["run", "Store", "Happened"]);
}

#[test]
fn attribute_resolution_joins_segments_exactly() {
    assert!(has_pallet_constant(
        "pallet::constant",
        &attr(&["pallet", "constant"])
    ));
    assert!(!has_pallet_constant(
        "pallet::constant",
        &attr(&["pallet", "Constant"])
    ));
    assert!(!has_pallet_constant("pallet::constant", &attr(&["pallet"])));
    assert!(has_pallet_constant("derive", &attr(&["derive"])));
    assert!(!has_pallet_constant(
        "pallet::constant",
        &attr(&["pallet", "constant", "extra"])
    ));
}

#[test]
fn visitor_starts_empty_and_collects_in_order() {
    let mut visitor = PalletVisitor::new();
    assert!(visitor.functions.is_empty());
    assert!(visitor.storage_items.is_empty());
    visitor.visit_item_enum(
        &vec![attr(&["pallet", "event"])],
        &vec![String::from("A"), String::from("B")],
    );
    assert_eq!(visitor.events, vec![String::from("A"), String::from("B")]);
    assert!(visitor.errors.is_empty());
}
