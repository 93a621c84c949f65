//! The inventory exchange codec: serializes the asset list into the
//! interchange document and reads it back.
//!
//! The document is one object with an `assets` array. Each asset is an
//! object with a `visibility` string, a `name` string and a `category`
//! object holding one tag mapped to a positional payload; for the
//! function-like tags the payload is the name followed by the parameter
//! list as `[name, type]` pairs.
//!
//! The reader tolerates per-item damage: a missing `visibility` defaults
//! to no qualifier, missing or malformed parameter arrays default to
//! empty, and an asset with an unrecognized category tag is dropped while
//! the rest of the batch continues. Only a top-level document that is not
//! an object with an `assets` array is a fatal format error.

use vstd::prelude::*;

use vstd::string::StringExecFns;

use crate::assets::Asset;
use crate::assets::AssetCategory;
use crate::assets::AssetCategoryView;
use crate::assets::AssetView;
use crate::assets::Parameter;
use crate::assets::ParameterView;
use crate::assets::Properties;
use crate::assets::PropertiesView;
use crate::assets::StorageConfig;
use crate::assets::StorageConfigView;
use crate::assets::Visibility;
use crate::errors::AppError;
use crate::inventory::AssetInventory;
use crate::json::JsonValue;
use crate::json::JsonView;
use crate::json::arr_view;
use crate::json::json_text;
use crate::json::json_to_string;
use crate::json::lemma_arr_view_index;
use crate::json::lemma_arr_view_len;
use crate::json::lemma_arr_view_push;
use crate::json::lemma_obj_view_index;
use crate::json::lemma_obj_view_len;
use crate::json::lemma_obj_view_push;
use crate::json::obj_view;
use crate::seqs::lemma_map_values_push;
use crate::seqs::lemma_take_all;
use crate::seqs::lemma_take_push;
use crate::strings::str_eq;

verus! {

broadcast use vstd::string::group_string_axioms;

/// The wire spelling of a visibility qualifier.
pub open spec fn vis_string(v: Visibility) -> Seq<char> {
    match v {
        Visibility::Public => "public"@,
        Visibility::Private => "private"@,
        Visibility::Unspecified => "none"@,
    }
}

/// One parameter on the wire: the `[name, type]` pair.
pub open spec fn param_json(p: ParameterView) -> JsonView {
    JsonView::Arr(seq![JsonView::Str(p.name), JsonView::Str(p.param_type)])
}

/// The parameter serializer, as a function value for `map_values`.
pub open spec fn param_json_map() -> spec_fn(ParameterView) -> JsonView {
    |p: ParameterView| param_json(p)
}

/// A parameter list on the wire.
pub open spec fn params_json(ps: Seq<ParameterView>) -> JsonView {
    JsonView::Arr(ps.map_values(param_json_map()))
}

/// The category of an asset on the wire: one tag mapped to its positional
/// payload.
pub open spec fn category_json(a: AssetView) -> JsonView {
    match a.category {
        AssetCategoryView::PublicFunction { parameters, return_type } => JsonView::Obj(
            seq![
                (
                    "PublicFunction"@,
                    JsonView::Arr(seq![JsonView::Str(a.name), params_json(parameters)]),
                ),
            ],
        ),
        AssetCategoryView::Helper { parameters, return_type } => JsonView::Obj(
            seq![("Helper"@, JsonView::Arr(seq![JsonView::Str(a.name), params_json(parameters)]))],
        ),
        AssetCategoryView::Storage(config) => JsonView::Obj(
            seq![
                (
                    "Storage"@,
                    JsonView::Arr(
                        seq![
                            JsonView::Str(config.name),
                            JsonView::Str(vis_string(config.visibility)),
                        ],
                    ),
                ),
            ],
        ),
        AssetCategoryView::Constant { name, value_type } => JsonView::Obj(
            seq![("Constant"@, JsonView::Str(name))],
        ),
        AssetCategoryView::Event { name, fields } => JsonView::Obj(
            seq![("Events"@, JsonView::Str(name))],
        ),
        AssetCategoryView::Error { name, fields } => JsonView::Obj(
            seq![("Error"@, JsonView::Str(name))],
        ),
    }
}

/// One asset on the wire: visibility, name, category.
pub open spec fn asset_json(a: AssetView) -> JsonView {
    JsonView::Obj(
        seq![
            ("visibility"@, JsonView::Str(vis_string(a.visibility))),
            ("name"@, JsonView::Str(a.name)),
            ("category"@, category_json(a)),
        ],
    )
}

/// The asset serializer, as a function value for `map_values`.
pub open spec fn asset_json_map() -> spec_fn(AssetView) -> JsonView {
    |a: AssetView| asset_json(a)
}

/// The whole interchange document: one object with the `assets` array.
pub open spec fn inventory_json(assets: Seq<AssetView>) -> JsonView {
    JsonView::Obj(seq![("assets"@, JsonView::Arr(assets.map_values(asset_json_map())))])
}

/// The wire spelling of a visibility qualifier.
pub fn vis_string_exec(v: &Visibility) -> (r: &'static str)
    ensures
        r@ == vis_string(*v),
{
    match v {
        Visibility::Public => "public",
        Visibility::Private => "private",
        Visibility::Unspecified => "none",
    }
}

/// A string value on the wire.
fn jstr(s: &String) -> (r: JsonValue)
    ensures
        r@ == JsonView::Str(s@),
{
    JsonValue::Str(s.clone())
}

/// An array of two values on the wire.
fn arr2(a: JsonValue, b: JsonValue) -> (r: JsonValue)
    ensures
        r@ == JsonView::Arr(seq![a@, b@]),
{
    let ghost av = a@;
    let ghost bv = b@;
    let mut items: Vec<JsonValue> = Vec::new();
    items.push(a);
    let ghost s1: Seq<JsonValue> = items@;
    proof {
        assert(s1 =~= Seq::<JsonValue>::empty().push(s1[0]));
        lemma_arr_view_push(Seq::empty(), s1[0]);
    }
    items.push(b);
    let r = JsonValue::Arr(items);
    proof {
        lemma_arr_view_push(s1, items@.last());
        assert(arr_view(items@) =~~= seq![av, bv]);
    }
    r
}

/// An object of one entry on the wire.
fn obj1(key: &str, v: JsonValue) -> (r: JsonValue)
    ensures
        r@ == JsonView::Obj(seq![(key@, v@)]),
{
    let ghost vv = v@;
    let mut entries: Vec<(String, JsonValue)> = Vec::new();
    entries.push((String::from_str(key), v));
    let r = JsonValue::Obj(entries);
    proof {
        assert(entries@ =~= Seq::<(String, JsonValue)>::empty().push(entries@[0]));
        lemma_obj_view_push(Seq::empty(), entries@[0]);
        assert(obj_view(entries@) =~~= seq![(key@, vv)]);
    }
    r
}

/// Serializes one parameter list.
fn params_to_json(ps: &Vec<Parameter>) -> (r: JsonValue)
    ensures
        r@ == params_json(ps.deep_view()),
{
    let ghost psv: Seq<ParameterView> = ps.deep_view();
    let mut items: Vec<JsonValue> = Vec::new();
    let mut i: usize = 0;
    while i < ps.len()
        invariant
            i <= ps@.len(),
            psv == ps.deep_view(),
            psv.len() == ps@.len(),
            arr_view(items@) =~~= psv.take(i as int).map_values(param_json_map()),
        decreases ps@.len() - i,
    {
        let p = &ps[i];
        assert(p@ == psv[i as int]);
        let ghost before: Seq<JsonValue> = items@;
        items.push(arr2(jstr(&p.name), jstr(&p.param_type)));
        proof {
            lemma_arr_view_push(before, items@.last());
            lemma_take_push(psv, i as int);
            lemma_map_values_push(psv.take(i as int), param_json_map(), psv[i as int]);
            assert(arr_view(items@) =~~= psv.take(i + 1).map_values(param_json_map()));
        }
        i += 1;
    }
    proof {
        lemma_take_all(psv);
    }
    let r = JsonValue::Arr(items);
    proof {
        assert(r@ =~~= params_json(psv));
    }
    r
}

/// Serializes one asset.
pub fn asset_to_json(a: &Asset) -> (r: JsonValue)
    ensures
        r@ == asset_json(a@),
{
    let category = match &a.category {
        AssetCategory::PublicFunction { parameters, return_type } => {
            obj1("PublicFunction", arr2(jstr(&a.name), params_to_json(parameters)))
        },
        AssetCategory::Helper { parameters, return_type } => {
            obj1("Helper", arr2(jstr(&a.name), params_to_json(parameters)))
        },
        AssetCategory::Storage(config) => {
            obj1(
                "Storage",
                arr2(jstr(&config.name), jstr(&String::from_str(vis_string_exec(&config.visibility)))),
            )
        },
        AssetCategory::Constant { name, value_type } => obj1("Constant", jstr(name)),
        AssetCategory::Event { name, fields } => obj1("Events", jstr(name)),
        AssetCategory::Error { name, fields } => obj1("Error", jstr(name)),
    };
    assert(category@ == category_json(a@));
    let ghost catv: JsonView = category@;
    let mut entries: Vec<(String, JsonValue)> = Vec::new();
    entries.push(
        (String::from_str("visibility"), JsonValue::Str(String::from_str(vis_string_exec(&a.visibility)))),
    );
    let ghost s1: Seq<(String, JsonValue)> = entries@;
    proof {
        assert(s1 =~= Seq::<(String, JsonValue)>::empty().push(s1[0]));
        lemma_obj_view_push(Seq::empty(), s1[0]);
    }
    entries.push((String::from_str("name"), jstr(&a.name)));
    let ghost s2: Seq<(String, JsonValue)> = entries@;
    proof {
        lemma_obj_view_push(s1, s2.last());
    }
    entries.push((String::from_str("category"), category));
    let r = JsonValue::Obj(entries);
    proof {
        lemma_obj_view_push(s2, entries@.last());
        assert(obj_view(entries@) =~~= asset_json(a@)->Obj_0);
        assert(r@ =~~= asset_json(a@));
    }
    r
}

/// Serializes the whole inventory into the interchange document.
pub fn serialize_inventory(inv: &AssetInventory) -> (r: JsonValue)
    ensures
        r@ == inventory_json(inv@),
{
    let ghost assetsv: Seq<AssetView> = inv@;
    let mut items: Vec<JsonValue> = Vec::new();
    let mut i: usize = 0;
    while i < inv.assets.len()
        invariant
            i <= inv.assets@.len(),
            assetsv == inv@,
            assetsv.len() == inv.assets@.len(),
            arr_view(items@) =~~= assetsv.take(i as int).map_values(asset_json_map()),
        decreases inv.assets@.len() - i,
    {
        let a = &inv.assets[i];
        assert(a@ == assetsv[i as int]);
        let ghost before: Seq<JsonValue> = items@;
        items.push(asset_to_json(a));
        proof {
            lemma_arr_view_push(before, items@.last());
            lemma_take_push(assetsv, i as int);
            lemma_map_values_push(assetsv.take(i as int), asset_json_map(), assetsv[i as int]);
            assert(arr_view(items@) =~~= assetsv.take(i + 1).map_values(asset_json_map()));
        }
        i += 1;
    }
    proof {
        lemma_take_all(assetsv);
    }
    let r = obj1("assets", JsonValue::Arr(items));
    proof {
        assert(r@ =~~= inventory_json(assetsv));
    }
    r
}

impl AssetInventory {
    /// The compact text of the interchange document for this inventory.
    pub fn to_json(&self) -> (r: String)
        ensures
            r@ == json_text(inventory_json(self@)),
    {
        let doc = serialize_inventory(self);
        json_to_string(&doc)
    }
}

/// Looks a key up among the entries of an object: the first binding wins.
pub open spec fn obj_get(entries: Seq<(Seq<char>, JsonView)>, key: Seq<char>) -> Option<JsonView>
    decreases entries.len(),
{
    if entries.len() == 0 {
        Option::None
    } else if entries[0].0 == key {
        Option::Some(entries[0].1)
    } else {
        obj_get(entries.drop_first(), key)
    }
}

/// Indexing a value by key, tolerantly: the bound
/// value on an object that has the key, null anywhere else.
pub open spec fn index_field(v: JsonView, key: Seq<char>) -> JsonView {
    match v {
        JsonView::Obj(entries) => match obj_get(entries, key) {
            Option::Some(x) => x,
            Option::None => JsonView::Null,
        },
        _ => JsonView::Null,
    }
}

/// Indexing a value by position: the item on an array that is long
/// enough, null anywhere else.
pub open spec fn index_at(v: JsonView, i: int) -> JsonView {
    match v {
        JsonView::Arr(items) => if 0 <= i < items.len() {
            items[i]
        } else {
            JsonView::Null
        },
        _ => JsonView::Null,
    }
}

/// A string value, or the default for anything that is not a string.
pub open spec fn as_str_or(v: JsonView, default: Seq<char>) -> Seq<char> {
    match v {
        JsonView::Str(s) => s,
        _ => default,
    }
}

/// The visibility of one wire asset: `public` and `private` as written,
/// anything else (a missing field most of all) as no qualifier.
pub open spec fn parse_visibility(asset: JsonView) -> Visibility {
    let s = as_str_or(index_field(asset, "visibility"@), "none"@);
    if s == "public"@ {
        Visibility::Public
    } else if s == "private"@ {
        Visibility::Private
    } else {
        Visibility::Unspecified
    }
}

/// One wire parameter: the `[name, type]` pair, each part empty when
/// missing or not a string.
pub open spec fn parse_param(p: JsonView) -> ParameterView {
    ParameterView {
        name: as_str_or(index_at(p, 0), Seq::empty()),
        param_type: as_str_or(index_at(p, 1), Seq::empty()),
    }
}

/// The wire-parameter reader, as a function value for `map_values`.
pub open spec fn parse_param_map() -> spec_fn(JsonView) -> ParameterView {
    |p: JsonView| parse_param(p)
}

/// A wire parameter list: empty when the payload is not an array.
pub open spec fn parse_params(v: JsonView) -> Seq<ParameterView> {
    match v {
        JsonView::Arr(items) => items.map_values(parse_param_map()),
        _ => Seq::empty(),
    }
}

/// The category of one wire asset, keyed by the first tag of its
/// `category` object. An unrecognized tag, or no `category` object at
/// all, yields nothing and the asset is dropped.
pub open spec fn parse_category(asset: JsonView, name: Seq<char>, vis: Visibility) -> Option<
    AssetCategoryView,
> {
    let cat = index_field(asset, "category"@);
    if !(cat is Obj) || cat->Obj_0.len() == 0 {
        Option::None
    } else {
        let tag = cat->Obj_0[0].0;
        if tag == "PublicFunction"@ {
            Option::Some(
                AssetCategoryView::PublicFunction {
                    parameters: parse_params(index_at(index_field(cat, "PublicFunction"@), 1)),
                    return_type: Option::None,
                },
            )
        } else if tag == "Helper"@ {
            Option::Some(
                AssetCategoryView::Helper {
                    parameters: parse_params(index_at(index_field(cat, "Helper"@), 1)),
                    return_type: Option::None,
                },
            )
        } else if tag == "Storage"@ {
            Option::Some(
                AssetCategoryView::Storage(StorageConfigView { visibility: vis, name: name }),
            )
        } else if tag == "Constant"@ {
            Option::Some(AssetCategoryView::Constant { name: name, value_type: Seq::empty() })
        } else if tag == "Events"@ {
            Option::Some(AssetCategoryView::Event { name: name, fields: Seq::empty() })
        } else if tag == "Error"@ {
            Option::Some(AssetCategoryView::Error { name: name, fields: Seq::empty() })
        } else {
            Option::None
        }
    }
}

/// One wire asset, complete or dropped: name and visibility are read with
/// defaults, the category decides whether the asset exists at all, and the
/// security properties start fresh.
pub open spec fn parse_asset(asset: JsonView) -> Option<AssetView> {
    let vis = parse_visibility(asset);
    let name = as_str_or(index_field(asset, "name"@), Seq::empty());
    match parse_category(asset, name, vis) {
        Option::Some(category) => Option::Some(
            AssetView {
                name: name,
                visibility: vis,
                category: category,
                properties: PropertiesView::default_model(),
            },
        ),
        Option::None => Option::None,
    }
}

/// The assets of one wire array, in order, the dropped ones left out.
pub open spec fn parse_assets(items: Seq<JsonView>) -> Seq<AssetView>
    decreases items.len(),
{
    if items.len() == 0 {
        Seq::empty()
    } else {
        parse_assets(items.drop_last()) + (match parse_asset(items.last()) {
            Option::Some(a) => seq![a],
            Option::None => Seq::empty(),
        })
    }
}

/// The whole document: the parsed assets when it is an object whose
/// `assets` key holds an array, nothing otherwise.
pub open spec fn spec_parse_inventory(doc: JsonView) -> Option<Seq<AssetView>> {
    match index_field(doc, "assets"@) {
        JsonView::Arr(items) => Option::Some(parse_assets(items)),
        _ => Option::None,
    }
}

/// Appending a wire asset appends its parse, or nothing when it is
/// dropped.
pub proof fn lemma_parse_assets_push(items: Seq<JsonView>, it: JsonView)
    ensures
        parse_assets(items.push(it)) == parse_assets(items) + (match parse_asset(it) {
            Option::Some(a) => seq![a],
            Option::None => Seq::empty(),
        }),
{
    assert(items.push(it).drop_last() =~= items);
    assert(items.push(it).last() == it);
}

/// Looks a key up among the entries of one object value.
fn obj_get_ref<'a>(entries: &'a Vec<(String, JsonValue)>, key: &str) -> (r: Option<&'a JsonValue>)
    ensures
        match r {
            Option::Some(x) => obj_get(obj_view(entries@), key@) == Option::Some(x@),
            Option::None => obj_get(obj_view(entries@), key@) is None,
        },
{
    let ghost entriesv: Seq<(Seq<char>, JsonView)> = obj_view(entries@);
    proof {
        lemma_obj_view_len(entries@);
        assert(entriesv.skip(0) =~= entriesv);
    }
    let mut i: usize = 0;
    while i < entries.len()
        invariant
            i <= entries@.len(),
            entriesv == obj_view(entries@),
            entriesv.len() == entries@.len(),
            obj_get(entriesv, key@) == obj_get(entriesv.skip(i as int), key@),
        decreases entries@.len() - i,
    {
        proof {
            lemma_obj_view_index(entries@, i as int);
            assert(entriesv.skip(i as int)[0] == entriesv[i as int]);
        }
        if str_eq(entries[i].0.as_str(), key) {
            return Option::Some(&entries[i].1);
        }
        proof {
            assert(entriesv.skip(i as int).drop_first() =~= entriesv.skip(i + 1));
        }
        i += 1;
    }
    proof {
        assert(entriesv.skip(entriesv.len() as int).len() == 0);
    }
    Option::None
}

/// Indexes a value by key, tolerantly.
fn get_field<'a>(v: &'a JsonValue, key: &str) -> (r: Option<&'a JsonValue>)
    ensures
        match r {
            Option::Some(x) => index_field(v@, key@) == x@,
            Option::None => index_field(v@, key@) == JsonView::Null,
        },
{
    match v {
        JsonValue::Obj(entries) => obj_get_ref(entries, key),
        _ => Option::None,
    }
}

/// Indexes a value by position.
fn get_index<'a>(v: &'a JsonValue, i: usize) -> (r: Option<&'a JsonValue>)
    ensures
        match r {
            Option::Some(x) => index_at(v@, i as int) == x@,
            Option::None => index_at(v@, i as int) == JsonView::Null,
        },
{
    match v {
        JsonValue::Arr(items) => {
            proof {
                lemma_arr_view_len(items@);
            }
            if i < items.len() {
                proof {
                    lemma_arr_view_index(items@, i as int);
                }
                Option::Some(&items[i])
            } else {
                Option::None
            }
        },
        _ => Option::None,
    }
}

/// The model of an optional value, a missing one standing for null.
pub open spec fn view_or_null(v: Option<&JsonValue>) -> JsonView {
    match v {
        Option::Some(x) => x@,
        Option::None => JsonView::Null,
    }
}

/// The string carried by an optional value, or empty.
fn as_string_or_empty(v: Option<&JsonValue>) -> (r: String)
    ensures
        r@ == as_str_or(view_or_null(v), Seq::empty()),
{
    match v {
        Option::Some(x) => match x {
            JsonValue::Str(s) => s.clone(),
            _ => String::new(),
        },
        Option::None => String::new(),
    }
}

/// The default wire visibility is neither `public` nor `private`.
proof fn lemma_none_is_no_qualifier()
    ensures
        "none"@ != "public"@,
        "none"@ != "private"@,
{
    reveal_strlit("none");
    reveal_strlit("public");
    reveal_strlit("private");
    assert("none"@.len() == 4);
    assert("public"@.len() == 6);
    assert("private"@.len() == 7);
}

/// Reads the visibility of one wire asset.
fn parse_visibility_ref(asset: &JsonValue) -> (r: Visibility)
    ensures
        r == parse_visibility(asset@),
{
    let field = get_field(asset, "visibility");
    match field {
        Option::Some(x) => match x {
            JsonValue::Str(s) => {
                if str_eq(s.as_str(), "public") {
                    Visibility::Public
                } else if str_eq(s.as_str(), "private") {
                    Visibility::Private
                } else {
                    Visibility::Unspecified
                }
            },
            _ => {
                proof {
                    lemma_none_is_no_qualifier();
                }
                Visibility::Unspecified
            },
        },
        Option::None => {
            proof {
                lemma_none_is_no_qualifier();
            }
            Visibility::Unspecified
        },
    }
}

/// Reads one wire parameter.
fn parse_param_ref(p: &JsonValue) -> (r: Parameter)
    ensures
        r@ == parse_param(p@),
{
    let name = as_string_or_empty(get_index(p, 0));
    let param_type = as_string_or_empty(get_index(p, 1));
    Parameter { name, param_type }
}

/// Reads one wire parameter list.
fn parse_params_ref(v: Option<&JsonValue>) -> (r: Vec<Parameter>)
    ensures
        r.deep_view() == parse_params(view_or_null(v)),
{
    match v {
        Option::Some(x) => match x {
            JsonValue::Arr(items) => {
                let ghost itemsv: Seq<JsonView> = arr_view(items@);
                proof {
                    lemma_arr_view_len(items@);
                }
                let mut out: Vec<Parameter> = Vec::new();
                let mut i: usize = 0;
                while i < items.len()
                    invariant
                        i <= items@.len(),
                        itemsv == arr_view(items@),
                        itemsv.len() == items@.len(),
                        out.deep_view() =~~= itemsv.take(i as int).map_values(parse_param_map()),
                    decreases items@.len() - i,
                {
                    proof {
                        lemma_arr_view_index(items@, i as int);
                    }
                    let param = parse_param_ref(&items[i]);
                    let ghost top: Seq<ParameterView> = out.deep_view();
                    out.push(param);
                    proof {
                        lemma_take_push(itemsv, i as int);
                        lemma_map_values_push(
                            itemsv.take(i as int),
                            parse_param_map(),
                            itemsv[i as int],
                        );
                        assert(out.deep_view() =~~= top.push(parse_param(itemsv[i as int])));
                        assert(out.deep_view() =~~= itemsv.take(i + 1).map_values(
                            parse_param_map(),
                        ));
                    }
                    i += 1;
                }
                proof {
                    lemma_take_all(itemsv);
                    assert(out.deep_view() =~~= parse_params(view_or_null(v)));
                }
                out
            },
            _ => {
                let out: Vec<Parameter> = Vec::new();
                proof {
                    assert(out.deep_view() =~~= parse_params(view_or_null(v)));
                }
                out
            },
        },
        Option::None => {
            let out: Vec<Parameter> = Vec::new();
            proof {
                assert(out.deep_view() =~~= parse_params(view_or_null(v)));
            }
            out
        },
    }
}

/// Reads one wire asset: a complete asset, or nothing when its category
/// tag is unrecognized or missing.
pub fn parse_asset_ref(asset: &JsonValue) -> (r: Option<Asset>)
    ensures
        match r {
            Option::Some(a) => parse_asset(asset@) == Option::Some(a@),
            Option::None => parse_asset(asset@) is None,
        },
{
    let vis = parse_visibility_ref(asset);
    let name = as_string_or_empty(get_field(asset, "name"));
    let cat_field = get_field(asset, "category");
    let centries = match cat_field {
        Option::Some(c) => match c {
            JsonValue::Obj(entries) => entries,
            _ => {
                return Option::None;
            },
        },
        Option::None => {
            return Option::None;
        },
    };
    proof {
        lemma_obj_view_len(centries@);
    }
    if centries.len() == 0 {
        return Option::None;
    }
    proof {
        lemma_obj_view_index(centries@, 0);
    }
    let tag = &centries[0].0;
    let category: AssetCategory = if str_eq(tag.as_str(), "PublicFunction") {
        let payload = obj_get_ref(centries, "PublicFunction");
        let params_payload = match payload {
            Option::Some(p) => get_index(p, 1),
            Option::None => Option::None,
        };
        let parameters = parse_params_ref(params_payload);
        AssetCategory::PublicFunction { parameters, return_type: Option::None }
    } else if str_eq(tag.as_str(), "Helper") {
        let payload = obj_get_ref(centries, "Helper");
        let params_payload = match payload {
            Option::Some(p) => get_index(p, 1),
            Option::None => Option::None,
        };
        let parameters = parse_params_ref(params_payload);
        AssetCategory::Helper { parameters, return_type: Option::None }
    } else if str_eq(tag.as_str(), "Storage") {
        AssetCategory::Storage(StorageConfig { visibility: vis, name: name.clone() })
    } else if str_eq(tag.as_str(), "Constant") {
        AssetCategory::Constant { name: name.clone(), value_type: String::new() }
    } else if str_eq(tag.as_str(), "Events") {
        AssetCategory::Event { name: name.clone(), fields: Vec::new() }
    } else if str_eq(tag.as_str(), "Error") {
        AssetCategory::Error { name: name.clone(), fields: Vec::new() }
    } else {
        return Option::None;
    };
    let a = Asset { name, visibility: vis, category, properties: Properties::default() };
    proof {
        assert(a@ =~~= parse_asset(asset@)->Some_0);
    }
    Option::Some(a)
}

/// Parses the interchange document into the asset list. A per-item
/// problem drops that asset and the batch continues; a document that is
/// not an object with an `assets` array is a fatal format error.
pub fn parse_asset_inventory_into_asset_model(json: &JsonValue) -> (r: Result<Vec<Asset>, AppError>)
    ensures
        match r {
            Result::Ok(assets) => spec_parse_inventory(json@) == Option::Some(assets.deep_view()),
            Result::Err(e) => spec_parse_inventory(json@) is None && e is FormatError,
        },
{
    let arr_field = get_field(json, "assets");
    let items = match arr_field {
        Option::Some(v) => match v {
            JsonValue::Arr(items) => items,
            _ => {
                return Result::Err(
                    AppError::FormatError(
                        String::from_str("expected a top-level object holding an assets array"),
                    ),
                );
            },
        },
        Option::None => {
            return Result::Err(
                AppError::FormatError(
                    String::from_str("expected a top-level object holding an assets array"),
                ),
            );
        },
    };
    let ghost itemsv: Seq<JsonView> = arr_view(items@);
    proof {
        lemma_arr_view_len(items@);
    }
    let mut out: Vec<Asset> = Vec::new();
    let mut i: usize = 0;
    while i < items.len()
        invariant
            i <= items@.len(),
            itemsv == arr_view(items@),
            itemsv.len() == items@.len(),
            out.deep_view() =~~= parse_assets(itemsv.take(i as int)),
        decreases items@.len() - i,
    {
        proof {
            lemma_arr_view_index(items@, i as int);
        }
        let parsed = parse_asset_ref(&items[i]);
        proof {
            lemma_take_push(itemsv, i as int);
            lemma_parse_assets_push(itemsv.take(i as int), itemsv[i as int]);
        }
        match parsed {
            Option::Some(a) => {
                let ghost top: Seq<AssetView> = out.deep_view();
                let ghost av: AssetView = a@;
                out.push(a);
                proof {
                    assert(out.deep_view() =~~= top.push(av));
                    assert(out.deep_view() =~~= parse_assets(itemsv.take(i + 1)));
                }
            },
            Option::None => {
                proof {
                    assert(out.deep_view() =~~= parse_assets(itemsv.take(i + 1)));
                }
            },
        }
        i += 1;
    }
    proof {
        lemma_take_all(itemsv);
        assert(out.deep_view() =~~= parse_assets(itemsv));
    }
    Result::Ok(out)
}


/// What one pass through the codec keeps of an asset, with no assumption
/// on the asset at all: its name, its visibility, the kind of its
/// category, and — for the function-like categories — the whole parameter
/// list, every `(name, type)` pair in its original position. The read
/// asset always starts with fresh security properties.
pub open spec fn round_trip_preserves(a: AssetView, p: AssetView) -> bool {
    &&& p.name == a.name
    &&& p.visibility == a.visibility
    &&& p.properties == PropertiesView::default_model()
    &&& (a.category is PublicFunction ==> p.category is PublicFunction
        && p.category->PublicFunction_parameters == a.category->PublicFunction_parameters)
    &&& (a.category is Helper ==> p.category is Helper && p.category->Helper_parameters
        == a.category->Helper_parameters)
    &&& (a.category is Storage ==> p.category is Storage)
    &&& (a.category is Constant ==> p.category is Constant)
    &&& (a.category is Event ==> p.category is Event)
    &&& (a.category is Error ==> p.category is Error)
}

/// Whether an asset carries nothing the wire format leaves behind: fresh
/// properties, no recorded return type, a storage payload matching the
/// asset's own name and visibility, and no constant type or event and
/// error fields. The classifier produces only such assets; the codec
/// carries them in full.
pub open spec fn wire_canonical(a: AssetView) -> bool {
    &&& a.properties == PropertiesView::default_model()
    &&& match a.category {
        AssetCategoryView::PublicFunction { parameters, return_type } => return_type is None,
        AssetCategoryView::Helper { parameters, return_type } => return_type is None,
        AssetCategoryView::Storage(config) => config.name == a.name && config.visibility
            == a.visibility,
        AssetCategoryView::Constant { name, value_type } => name == a.name && value_type
            == Seq::<char>::empty(),
        AssetCategoryView::Event { name, fields } => name == a.name && fields
            == Seq::<ParameterView>::empty(),
        AssetCategoryView::Error { name, fields } => name == a.name && fields
            == Seq::<ParameterView>::empty(),
    }
}

/// The keys of a wire asset are three distinct words.
proof fn lemma_wire_keys_distinct()
    ensures
        "visibility"@ != "name"@,
        "visibility"@ != "category"@,
        "name"@ != "category"@,
        "assets"@ != "visibility"@,
{
    reveal_strlit("visibility");
    reveal_strlit("name");
    reveal_strlit("category");
    reveal_strlit("assets");
    assert("visibility"@.len() == 10);
    assert("name"@.len() == 4);
    assert("category"@.len() == 8);
    assert("assets"@.len() == 6);
}

/// Each category tag differs from every tag checked before it.
proof fn lemma_wire_tags_distinct()
    ensures
        "Helper"@ != "PublicFunction"@,
        "Storage"@ != "PublicFunction"@,
        "Storage"@ != "Helper"@,
        "Constant"@ != "PublicFunction"@,
        "Constant"@ != "Helper"@,
        "Constant"@ != "Storage"@,
        "Events"@ != "PublicFunction"@,
        "Events"@ != "Helper"@,
        "Events"@ != "Storage"@,
        "Events"@ != "Constant"@,
        "Error"@ != "PublicFunction"@,
        "Error"@ != "Helper"@,
        "Error"@ != "Storage"@,
        "Error"@ != "Constant"@,
        "Error"@ != "Events"@,
{
    reveal_strlit("PublicFunction");
    reveal_strlit("Helper");
    reveal_strlit("Storage");
    reveal_strlit("Constant");
    reveal_strlit("Events");
    reveal_strlit("Error");
    assert("PublicFunction"@.len() == 14);
    assert("Helper"@.len() == 6);
    assert("Storage"@.len() == 7);
    assert("Constant"@.len() == 8);
    assert("Events"@.len() == 6);
    assert("Error"@.len() == 5);
    assert("Events"@[0] == 'E');
    assert("Helper"@[0] == 'H');
}

/// Visibility survives the round trip exactly.
proof fn lemma_visibility_round_trip(v: Visibility)
    ensures
        ({
            let s = vis_string(v);
            (if s == "public"@ {
                Visibility::Public
            } else if s == "private"@ {
                Visibility::Private
            } else {
                Visibility::Unspecified
            }) == v
        }),
{
    reveal_strlit("public");
    reveal_strlit("private");
    reveal_strlit("none");
    assert("public"@.len() == 6);
    assert("private"@.len() == 7);
    assert("none"@.len() == 4);
}

/// A parameter list survives the round trip exactly, every pair in its
/// position.
proof fn lemma_params_round_trip(ps: Seq<ParameterView>)
    ensures
        parse_params(params_json(ps)) == ps,
{
    let parsed = parse_params(params_json(ps));
    assert forall|i: int| 0 <= i < ps.len() implies parsed[i] == ps[i] by {
        assert(parse_param(param_json(ps[i])) =~~= ps[i]);
    }
    assert(parsed =~= ps);
}

/// One asset survives the round trip: always with its name, visibility,
/// category kind and function-like parameters kept; exactly when it is
/// wire-canonical.
proof fn lemma_asset_round_trip(a: AssetView)
    ensures
        parse_asset(asset_json(a)) is Some,
        round_trip_preserves(a, parse_asset(asset_json(a))->Some_0),
        wire_canonical(a) ==> parse_asset(asset_json(a)) == Some::<AssetView>(a),
{
    lemma_wire_keys_distinct();
    lemma_wire_tags_distinct();
    lemma_visibility_round_trip(a.visibility);
    let w = asset_json(a);
    let entries = w->Obj_0;
    let rest1 = entries.drop_first();
    let rest2 = rest1.drop_first();
    assert(rest1 =~= seq![("name"@, JsonView::Str(a.name)), ("category"@, category_json(a))]);
    assert(rest2 =~= seq![("category"@, category_json(a))]);
    assert(index_field(w, "visibility"@) == JsonView::Str(vis_string(a.visibility)));
    assert(obj_get(rest1, "name"@) == Option::Some(JsonView::Str(a.name)));
    assert(obj_get(entries, "name"@) == obj_get(rest1, "name"@));
    assert(index_field(w, "name"@) == JsonView::Str(a.name));
    assert(obj_get(rest2, "category"@) == Option::Some(category_json(a)));
    assert(obj_get(rest1, "category"@) == obj_get(rest2, "category"@));
    assert(obj_get(entries, "category"@) == obj_get(rest1, "category"@));
    assert(index_field(w, "category"@) == category_json(a));
    assert(parse_visibility(w) == a.visibility);
    match a.category {
        AssetCategoryView::PublicFunction { parameters, return_type } => {
            lemma_params_round_trip(parameters);
        },
        AssetCategoryView::Helper { parameters, return_type } => {
            lemma_params_round_trip(parameters);
        },
        AssetCategoryView::Storage(config) => {},
        AssetCategoryView::Constant { name, value_type } => {},
        AssetCategoryView::Event { name, fields } => {},
        AssetCategoryView::Error { name, fields } => {},
    }
    if wire_canonical(a) {
        assert(parse_asset(w)->Some_0 =~~= a);
    }
}

/// Every serialized asset is read back, in order.
proof fn lemma_parse_assets_of_serialized(assets: Seq<AssetView>)
    ensures
        parse_assets(assets.map_values(asset_json_map())).len() == assets.len(),
        forall|i: int|
            0 <= i < assets.len() ==> #[trigger] parse_assets(assets.map_values(asset_json_map()))[i]
                == parse_asset(asset_json(assets[i]))->Some_0,
    decreases assets.len(),
{
    if assets.len() > 0 {
        let pre = assets.drop_last();
        let last = assets.last();
        lemma_parse_assets_of_serialized(pre);
        assert(assets =~= pre.push(last));
        lemma_map_values_push(pre, asset_json_map(), last);
        lemma_parse_assets_push(pre.map_values(asset_json_map()), asset_json(last));
        lemma_asset_round_trip(last);
        assert forall|i: int|
            0 <= i < assets.len() implies #[trigger] parse_assets(
            assets.map_values(asset_json_map()),
        )[i] == parse_asset(asset_json(assets[i]))->Some_0 by {
            if i < pre.len() {
                assert(parse_assets(pre.map_values(asset_json_map()))[i] == parse_asset(
                    asset_json(pre[i]),
                )->Some_0);
            }
        }
    }
}

/// Reading back a serialized inventory succeeds and yields one asset per
/// serialized asset, in order, each with its name, visibility, category
/// kind and — for the function-like categories — its exact parameter
/// list, every `(name, type)` pair in its original position. An inventory
/// of wire-canonical assets (the classifier produces no others) comes
/// back equal in full.
pub proof fn lemma_codec_round_trip(assets: Seq<AssetView>)
    ensures
        spec_parse_inventory(inventory_json(assets)) is Some,
        spec_parse_inventory(inventory_json(assets))->Some_0.len() == assets.len(),
        forall|i: int|
            0 <= i < assets.len() ==> round_trip_preserves(
                assets[i],
                #[trigger] spec_parse_inventory(inventory_json(assets))->Some_0[i],
            ),
        (forall|i: int| 0 <= i < assets.len() ==> wire_canonical(#[trigger] assets[i]))
            ==> spec_parse_inventory(inventory_json(assets)) == Some(assets),
{
    let doc = inventory_json(assets);
    let items = assets.map_values(asset_json_map());
    assert(index_field(doc, "assets"@) == JsonView::Arr(items));
    lemma_parse_assets_of_serialized(assets);
    let parsed = spec_parse_inventory(doc)->Some_0;
    assert forall|i: int| 0 <= i < assets.len() implies round_trip_preserves(
        assets[i],
        #[trigger] parsed[i],
    ) by {
        lemma_asset_round_trip(assets[i]);
    }
    if forall|i: int| 0 <= i < assets.len() ==> wire_canonical(#[trigger] assets[i]) {
        assert forall|i: int| 0 <= i < parsed.len() implies parsed[i] == assets[i] by {
            lemma_asset_round_trip(assets[i]);
        }
        assert(parsed =~= assets);
    }
}


/// Every asset the classifier produces is wire-canonical, so a classified
/// inventory survives one pass through the codec in full.
pub proof fn lemma_classified_inventory_canonical(f: crate::visitor::FindingsView)
    ensures
        forall|i: int|
            0 <= i < crate::inventory::inventory_of(f).len() ==> wire_canonical(
                #[trigger] crate::inventory::inventory_of(f)[i],
            ),
{
    let inv = crate::inventory::inventory_of(f);
    let a = f.functions.map_values(crate::inventory::function_classifier());
    let b = f.storage_items.map_values(crate::inventory::storage_classifier());
    let c = f.constants.map_values(crate::inventory::constant_classifier());
    let d = f.events.map_values(crate::inventory::event_classifier());
    let e = f.errors.map_values(crate::inventory::error_classifier());
    assert forall|i: int| 0 <= i < inv.len() implies wire_canonical(#[trigger] inv[i]) by {
        let la = a.len() as int;
        let lb = b.len() as int;
        let lc = c.len() as int;
        let ld = d.len() as int;
        if i < la {
            assert(inv[i] == a[i]);
            assert(wire_canonical(crate::inventory::classify_function(f.functions[i])));
        } else if i < la + lb {
            assert(inv[i] == b[i - la]);
            assert(wire_canonical(crate::inventory::classify_storage(f.storage_items[i - la])));
        } else if i < la + lb + lc {
            assert(inv[i] == c[i - la - lb]);
            assert(wire_canonical(crate::inventory::classify_constant(f.constants[i - la - lb])));
        } else if i < la + lb + lc + ld {
            assert(inv[i] == d[i - la - lb - lc]);
            assert(wire_canonical(crate::inventory::classify_event(f.events[i - la - lb - lc])));
        } else {
            assert(inv[i] == e[i - la - lb - lc - ld]);
            assert(wire_canonical(
                crate::inventory::classify_error(f.errors[i - la - lb - lc - ld]),
            ));
        }
    }
}


/// The whole extraction pipeline survives the interchange boundary: a
/// classified inventory, serialized and read back, yields exactly the
/// classified assets, in order.
pub proof fn lemma_pipeline_round_trip(f: crate::visitor::FindingsView)
    ensures
        spec_parse_inventory(inventory_json(crate::inventory::inventory_of(f))) == Some(
            crate::inventory::inventory_of(f),
        ),
{
    lemma_classified_inventory_canonical(f);
    lemma_codec_round_trip(crate::inventory::inventory_of(f));
}

} // verus!
