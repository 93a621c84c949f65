//! Tests for the inventory exchange codec and the JSON emitter.

use threat_modeling::assets::{Asset, AssetCategory, Parameter, Properties, Visibility};
use threat_modeling::codec::{
    parse_asset_inventory_into_asset_model, serialize_inventory,
};
use threat_modeling::errors::AppError;
use threat_modeling::inventory::AssetInventory;
use threat_modeling::json::{json_to_string, JsonValue};

fn param(name: &str, ty: &str) -> Parameter {
    Parameter {
        name: String::from(name),
        param_type: String::from(ty),
    }
}

fn function_asset(name: &str, public: bool, params: Vec<Parameter>) -> Asset {
    let category = if public {
        AssetCategory::PublicFunction {
            parameters: params,
            return_type: None,
        }
    } else {
        AssetCategory::Helper {
            parameters: params,
            return_type: None,
        }
    };
    Asset {
        name: String::from(name),
        visibility: if public {
            Visibility::Public
        } else {
            Visibility::Private
        },
        category,
        properties: Properties::default(),
    }
}

fn jstr(s: &str) -> JsonValue {
    JsonValue::Str(String::from(s))
}

fn obj(entries: Vec<(&str, JsonValue)>) -> JsonValue {
    JsonValue::Obj(
        entries
            .into_iter()
            .map(|(k, v)| (String::from(k), v))
            .collect(),
    )
}

fn wire_function_asset(name: &str, vis: &str, tag: &str, params: Vec<(&str, &str)>) -> JsonValue {
    let params_json = JsonValue::Arr(
        params
            .into_iter()
            .map(|(n, t)| JsonValue::Arr(vec![jstr(n), jstr(t)]))
            .collect(),
    );
    obj(vec![
        ("visibility", jstr(vis)),
        ("name", jstr(name)),
        ("category", obj(vec![(tag, JsonValue::Arr(vec![jstr(name), params_json]))])),
    ])
}

#[test]
fn round_trip_preserves_positional_parameter_order() {
    let inv = AssetInventory {
        assets: vec![
            function_asset(
                "transfer",
                true,
                vec![param("amount", "Balance"), param("to", "AccountId")],
            ),
            function_asset("check", false, vec![param("x", "u32")]),
        ],
    };
    let doc = serialize_inventory(&inv);
    let parsed = parse_asset_inventory_into_asset_model(&doc).unwrap();
    assert_eq!(parsed.len(), 2);
    match &parsed[0].category {
        AssetCategory::PublicFunction { parameters, .. } => {
            assert_eq!(parameters.len(), 2);
            assert_eq!(parameters[0], param("amount", "Balance"));
            assert_eq!(parameters[1], param("to", "AccountId"));
        }
        other => panic!("expected a public function, got {:?}", other),
    }
    assert_eq!(parsed[0], inv.assets[0]);
    assert_eq!(parsed[1], inv.assets[1]);
}

#[test]
fn to_json_emits_the_exact_compact_document() {
    let inv = AssetInventory {
        assets: vec![function_asset("mint", true, vec![param("value", "u128")])],
    };
    let expected = "{\"assets\":[{\"visibility\":\"public\",\"name\":\"mint\",\"category\":{\"PublicFunction\":[\"mint\",[[\"value\",\"u128\"]]]}}]}";
    assert_eq!(inv.to_json(), expected);
}

#[test]
fn to_json_escapes_quotes_and_backslashes() {
    let value = JsonValue::Str(String::from("a\"b\\c\nd"));
    assert_eq!(json_to_string(&value), "\"a\\\"b\\\\c\\u000ad\"");
}

#[test]
fn unknown_category_tag_drops_only_that_asset() {
    let doc = obj(vec![(
        "assets",
        JsonValue::Arr(vec![
            wire_function_asset("good", "public", "PublicFunction", vec![("a", "u8")]),
            obj(vec![
                ("visibility", jstr("public")),
                ("name", jstr("odd")),
                ("category", obj(vec![("Weight", jstr("odd"))])),
            ]),
            wire_function_asset("also_good", "private", "Helper", vec![]),
        ]),
    )]);
    let parsed = parse_asset_inventory_into_asset_model(&doc).unwrap();
    assert_eq!(parsed.len(), 2);
    assert_eq!(parsed[0].name, "good");
    assert_eq!(parsed[1].name, "also_good");
}

#[test]
fn missing_visibility_defaults_to_no_qualifier() {
    let doc = obj(vec![(
        "assets",
        JsonValue::Arr(vec![obj(vec![
            ("name", jstr("Mystery")),
            ("category", obj(vec![("Constant", jstr("Mystery"))])),
        ])]),
    )]);
    let parsed = parse_asset_inventory_into_asset_model(&doc).unwrap();
    assert_eq!(parsed.len(), 1);
    assert_eq!(parsed[0].visibility, Visibility::Unspecified);
    assert_eq!(parsed[0].name, "Mystery");
}

#[test]
fn missing_parameter_array_defaults_to_empty() {
    let doc = obj(vec![(
        "assets",
        JsonValue::Arr(vec![obj(vec![
            ("visibility", jstr("public")),
            ("name", jstr("noop")),
            // payload without the positional parameter list
            ("category", obj(vec![("PublicFunction", jstr("noop"))])),
        ])]),
    )]);
    let parsed = parse_asset_inventory_into_asset_model(&doc).unwrap();
    assert_eq!(parsed.len(), 1);
    match &parsed[0].category {
        AssetCategory::PublicFunction { parameters, .. } => assert!(parameters.is_empty()),
        other => panic!("expected a public function, got {:?}", other),
    }
}

#[test]
fn storage_and_events_rebuild_from_asset_fields() {
    let doc = obj(vec![(
        "assets",
        JsonValue::Arr(vec![
            obj(vec![
                ("visibility", jstr("private")),
                ("name", jstr("Ledger")),
                (
                    "category",
                    obj(vec![(
                        "Storage",
                        JsonValue::Arr(vec![jstr("Ledger"), jstr("private")]),
                    )]),
                ),
            ]),
            obj(vec![
                ("visibility", jstr("public")),
                ("name", jstr("Minted")),
                ("category", obj(vec![("Events", jstr("Minted"))])),
            ]),
            obj(vec![
                ("visibility", jstr("public")),
                ("name", jstr("TooLow")),
                ("category", obj(vec![("Error", jstr("TooLow"))])),
            ]),
        ]),
    )]);
    let parsed = parse_asset_inventory_into_asset_model(&doc).unwrap();
    assert_eq!(parsed.len(), 3);
    match &parsed[0].category {
        AssetCategory::Storage(config) => {
            assert_eq!(config.name, "Ledger");
            assert_eq!(config.visibility, Visibility::Private);
        }
        other => panic!("expected storage, got {:?}", other),
    }
    match &parsed[1].category {
        AssetCategory::Event { name, fields } => {
            assert_eq!(name, "Minted");
            assert!(fields.is_empty());
        }
        other => panic!("expected an event, got {:?}", other),
    }
    assert!(matches!(parsed[2].category, AssetCategory::Error { .. }));
}

#[test]
fn top_level_without_assets_array_is_fatal() {
    let not_an_object = JsonValue::Arr(vec![]);
    let err = parse_asset_inventory_into_asset_model(&not_an_object).unwrap_err();
    assert!(matches!(err, AppError::FormatError(_)));

    let wrong_key = obj(vec![("items", JsonValue::Arr(vec![]))]);
    assert!(parse_asset_inventory_into_asset_model(&wrong_key).is_err());

    let assets_not_array = obj(vec![("assets", jstr("nope"))]);
    assert!(parse_asset_inventory_into_asset_model(&assets_not_array).is_err());
}

#[test]
fn empty_assets_array_parses_to_nothing() {
    let doc = obj(vec![("assets", JsonValue::Arr(vec![]))]);
    let parsed = parse_asset_inventory_into_asset_model(&doc).unwrap();
    assert!(parsed.is_empty());
}

#[test]
fn error_messages_name_the_kind_and_the_cause() {
    let err = AppError::FormatError(String::from("bad document"));
    assert_eq!(err.message(), "Format Error: bad document");
    assert_eq!(err.cause(), Some(&String::from("bad document")));

    let io = AppError::IoError(String::from("no such file"));
    assert_eq!(io.message(), "IO Error: no such file");

    let parse = AppError::ParseError(String::from("unexpected token"));
    assert_eq!(parse.message(), "Parse Error: unexpected token");
    assert!(parse.cause().is_some());

    let invalid = AppError::InvalidInput(String::from("wrong extension"));
    assert_eq!(invalid.message(), "Invalid Input: wrong extension");
    assert!(invalid.cause().is_none());
}
