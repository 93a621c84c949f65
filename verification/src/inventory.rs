//! The asset classifier: converts the raw findings of one traversal into
//! canonical assets, and assembles them into the inventory of one analysis
//! run.
//!
//! Classification is total over the defined finding shapes: every finding
//! yields exactly one asset. Callables with a public qualifier become
//! public-function assets, all other callables become helpers, and the
//! asset's own visibility mirrors the same determination. Storage findings
//! keep their own qualifier. Constants have no native qualifier; events and
//! errors are implicitly public by convention.

use vstd::prelude::*;

use crate::assets::Asset;
use crate::assets::AssetCategory;
use crate::assets::AssetCategoryView;
use crate::assets::AssetView;
use crate::assets::Properties;
use crate::assets::PropertiesView;
use crate::assets::StorageConfig;
use crate::assets::StorageConfigView;
use crate::assets::Visibility;
use crate::assets::clone_params;
use crate::seqs::lemma_filter_add_none;
use crate::seqs::lemma_filter_push;
use crate::seqs::lemma_map_values_push;
use crate::seqs::lemma_take_all;
use crate::seqs::lemma_take_push;
use crate::source_model::FunctionDefView;
use crate::source_model::SourceFile;
use crate::source_model::FunctionDef;
use crate::visitor::FindingsView;
use crate::visitor::PalletVisitor;
use crate::visitor::StorageDef;
use crate::visitor::StorageDefView;
use crate::visitor::items_findings;
use crate::visitor::lemma_concat_empty;

verus! {

/// The asset a callable finding yields: a public function when an explicit
/// public qualifier is present, a helper otherwise, with the visibility
/// mirroring the same determination and empty security properties.
pub open spec fn classify_function(f: FunctionDefView) -> AssetView {
    AssetView {
        name: f.name,
        visibility: if f.is_public {
            Visibility::Public
        } else {
            Visibility::Private
        },
        category: if f.is_public {
            AssetCategoryView::PublicFunction { parameters: f.params, return_type: Option::None }
        } else {
            AssetCategoryView::Helper { parameters: f.params, return_type: Option::None }
        },
        properties: PropertiesView::default_model(),
    }
}

/// The function classifier, as a function value for `map_values`.
pub open spec fn function_classifier() -> spec_fn(FunctionDefView) -> AssetView {
    |f: FunctionDefView| classify_function(f)
}

/// The asset a storage finding yields, with the storage item's own
/// visibility qualifier.
pub open spec fn classify_storage(s: StorageDefView) -> AssetView {
    let vis = if s.is_public {
        Visibility::Public
    } else {
        Visibility::Private
    };
    AssetView {
        name: s.name,
        visibility: vis,
        category: AssetCategoryView::Storage(
            StorageConfigView { visibility: vis, name: s.name },
        ),
        properties: PropertiesView::default_model(),
    }
}

/// The storage classifier, as a function value for `map_values`.
pub open spec fn storage_classifier() -> spec_fn(StorageDefView) -> AssetView {
    |s: StorageDefView| classify_storage(s)
}

/// The asset a constant finding yields. Constants have no native
/// visibility qualifier; the value type is not extracted.
pub open spec fn classify_constant(name: Seq<char>) -> AssetView {
    AssetView {
        name: name,
        visibility: Visibility::Unspecified,
        category: AssetCategoryView::Constant { name: name, value_type: Seq::empty() },
        properties: PropertiesView::default_model(),
    }
}

/// The constant classifier, as a function value for `map_values`.
pub open spec fn constant_classifier() -> spec_fn(Seq<char>) -> AssetView {
    |name: Seq<char>| classify_constant(name)
}

/// The asset an event finding yields. Events are implicitly public by
/// convention; their fields are not extracted.
pub open spec fn classify_event(name: Seq<char>) -> AssetView {
    AssetView {
        name: name,
        visibility: Visibility::Public,
        category: AssetCategoryView::Event { name: name, fields: Seq::empty() },
        properties: PropertiesView::default_model(),
    }
}

/// The event classifier, as a function value for `map_values`.
pub open spec fn event_classifier() -> spec_fn(Seq<char>) -> AssetView {
    |name: Seq<char>| classify_event(name)
}

/// The asset an error finding yields. Errors are implicitly public by
/// convention; their fields are not extracted.
pub open spec fn classify_error(name: Seq<char>) -> AssetView {
    AssetView {
        name: name,
        visibility: Visibility::Public,
        category: AssetCategoryView::Error { name: name, fields: Seq::empty() },
        properties: PropertiesView::default_model(),
    }
}

/// The error classifier, as a function value for `map_values`.
pub open spec fn error_classifier() -> spec_fn(Seq<char>) -> AssetView {
    |name: Seq<char>| classify_error(name)
}

/// The inventory of one set of findings: the classified assets, functions
/// first, then storage items, constants, events and errors, each group in
/// traversal order.
pub open spec fn inventory_of(f: FindingsView) -> Seq<AssetView> {
    f.functions.map_values(function_classifier()) + f.storage_items.map_values(storage_classifier())
        + f.constants.map_values(constant_classifier()) + f.events.map_values(event_classifier())
        + f.errors.map_values(error_classifier())
}

/// Whether an asset is a public-function asset.
pub open spec fn is_public_function_asset(a: AssetView) -> bool {
    a.category is PublicFunction
}

/// The public-function test, as a function value for `filter`.
pub open spec fn public_function_asset_pred() -> spec_fn(AssetView) -> bool {
    |a: AssetView| is_public_function_asset(a)
}

/// Whether an asset is a helper asset.
pub open spec fn is_helper_asset(a: AssetView) -> bool {
    a.category is Helper
}

/// The helper test, as a function value for `filter`.
pub open spec fn helper_asset_pred() -> spec_fn(AssetView) -> bool {
    |a: AssetView| is_helper_asset(a)
}

/// The public-qualifier test on callable findings.
pub open spec fn public_fn_pred() -> spec_fn(FunctionDefView) -> bool {
    |f: FunctionDefView| f.is_public
}

/// The private-qualifier test on callable findings.
pub open spec fn private_fn_pred() -> spec_fn(FunctionDefView) -> bool {
    |f: FunctionDefView| !f.is_public
}

/// Classification keeps the callable counts: the public findings map
/// exactly to the public-function assets, the private ones exactly to the
/// helpers.
proof fn lemma_function_counts(fs: Seq<FunctionDefView>)
    ensures
        fs.map_values(function_classifier()).filter(public_function_asset_pred()).len()
            == fs.filter(public_fn_pred()).len(),
        fs.map_values(function_classifier()).filter(helper_asset_pred()).len() == fs.filter(
            private_fn_pred(),
        ).len(),
    decreases fs.len(),
{
    reveal(Seq::filter);
    if fs.len() == 0 {
        assert(fs.map_values(function_classifier()) =~= Seq::<AssetView>::empty());
    } else {
        let pre = fs.drop_last();
        let last = fs.last();
        lemma_function_counts(pre);
        assert(fs =~= pre.push(last));
        lemma_map_values_push(pre, function_classifier(), last);
        lemma_filter_push(
            pre.map_values(function_classifier()),
            public_function_asset_pred(),
            classify_function(last),
        );
        lemma_filter_push(
            pre.map_values(function_classifier()),
            helper_asset_pred(),
            classify_function(last),
        );
        lemma_filter_push(pre, public_fn_pred(), last);
        lemma_filter_push(pre, private_fn_pred(), last);
    }
}

/// For source findings with `N` public member functions and `M` private
/// ones, the inventory holds exactly `N` public-function assets and `M`
/// helper assets; the function assets come first, one per callable finding
/// and in order, each with the visibility mirroring its source qualifier.
pub proof fn lemma_inventory_function_classification(f: FindingsView)
    ensures
        inventory_of(f).filter(public_function_asset_pred()).len() == f.functions.filter(
            public_fn_pred(),
        ).len(),
        inventory_of(f).filter(helper_asset_pred()).len() == f.functions.filter(
            private_fn_pred(),
        ).len(),
        inventory_of(f).len() == f.functions.len() + f.storage_items.len() + f.constants.len()
            + f.events.len() + f.errors.len(),
        forall|i: int|
            0 <= i < f.functions.len() ==> #[trigger] inventory_of(f)[i] == classify_function(
                f.functions[i],
            ),
{
    let a = f.functions.map_values(function_classifier());
    let b = f.storage_items.map_values(storage_classifier());
    let c = f.constants.map_values(constant_classifier());
    let d = f.events.map_values(event_classifier());
    let e = f.errors.map_values(error_classifier());
    let pubp = public_function_asset_pred();
    let helpp = helper_asset_pred();
    lemma_function_counts(f.functions);
    assert(forall|i: int| 0 <= i < b.len() ==> !pubp(#[trigger] b[i]) && !helpp(b[i]));
    assert(forall|i: int| 0 <= i < c.len() ==> !pubp(#[trigger] c[i]) && !helpp(c[i]));
    assert(forall|i: int| 0 <= i < d.len() ==> !pubp(#[trigger] d[i]) && !helpp(d[i]));
    assert(forall|i: int| 0 <= i < e.len() ==> !pubp(#[trigger] e[i]) && !helpp(e[i]));
    lemma_filter_add_none(a + b + c + d, e, pubp);
    lemma_filter_add_none(a + b + c, d, pubp);
    lemma_filter_add_none(a + b, c, pubp);
    lemma_filter_add_none(a, b, pubp);
    lemma_filter_add_none(a + b + c + d, e, helpp);
    lemma_filter_add_none(a + b + c, d, helpp);
    lemma_filter_add_none(a + b, c, helpp);
    lemma_filter_add_none(a, b, helpp);
    assert forall|i: int| 0 <= i < f.functions.len() implies #[trigger] inventory_of(f)[i]
        == classify_function(f.functions[i]) by {
        assert(a[i] == classify_function(f.functions[i]));
        assert(inventory_of(f)[i] == a[i]);
    }
}

/// The inventory: the ordered collection of assets of one analysis run.
#[derive(Debug)]
pub struct AssetInventory {
    pub assets: Vec<Asset>,
}

impl View for AssetInventory {
    type V = Seq<AssetView>;

    open spec fn view(&self) -> Seq<AssetView> {
        self.assets.deep_view()
    }
}

/// Classifies one callable finding.
pub fn classify_function_def(f: &FunctionDef) -> (a: Asset)
    ensures
        a@ == classify_function(f@),
{
    let visibility = if f.is_public {
        Visibility::Public
    } else {
        Visibility::Private
    };
    let parameters = clone_params(&f.params);
    let category = if f.is_public {
        AssetCategory::PublicFunction { parameters, return_type: Option::None }
    } else {
        AssetCategory::Helper { parameters, return_type: Option::None }
    };
    let a = Asset { name: f.name.clone(), visibility, category, properties: Properties::default() };
    proof {
        assert(a@ =~~= classify_function(f@));
    }
    a
}

/// Classifies one storage finding.
pub fn classify_storage_def(s: &StorageDef) -> (a: Asset)
    ensures
        a@ == classify_storage(s@),
{
    let visibility = if s.is_public {
        Visibility::Public
    } else {
        Visibility::Private
    };
    let config = StorageConfig { visibility, name: s.name.clone() };
    let a = Asset {
        name: s.name.clone(),
        visibility,
        category: AssetCategory::Storage(config),
        properties: Properties::default(),
    };
    proof {
        assert(a@ =~~= classify_storage(s@));
    }
    a
}

/// Classifies one constant finding.
pub fn classify_constant_name(name: &String) -> (a: Asset)
    ensures
        a@ == classify_constant(name@),
{
    let a = Asset {
        name: name.clone(),
        visibility: Visibility::Unspecified,
        category: AssetCategory::Constant { name: name.clone(), value_type: String::new() },
        properties: Properties::default(),
    };
    proof {
        assert(a@ =~~= classify_constant(name@));
    }
    a
}

/// Classifies one event finding.
pub fn classify_event_name(name: &String) -> (a: Asset)
    ensures
        a@ == classify_event(name@),
{
    let a = Asset {
        name: name.clone(),
        visibility: Visibility::Public,
        category: AssetCategory::Event { name: name.clone(), fields: Vec::new() },
        properties: Properties::default(),
    };
    proof {
        assert(a@ =~~= classify_event(name@));
    }
    a
}

/// Classifies one error finding.
pub fn classify_error_name(name: &String) -> (a: Asset)
    ensures
        a@ == classify_error(name@),
{
    let a = Asset {
        name: name.clone(),
        visibility: Visibility::Public,
        category: AssetCategory::Error { name: name.clone(), fields: Vec::new() },
        properties: Properties::default(),
    };
    proof {
        assert(a@ =~~= classify_error(name@));
    }
    a
}

/// Parses a source-file model into the asset inventory: traverses the
/// file with the unified visitor and classifies every finding, functions
/// first, then storage items, constants, events and errors.
pub fn parser(file: &SourceFile) -> (inv: AssetInventory)
    ensures
        inv@ == inventory_of(items_findings(file@)),
{
    let mut visitor = PalletVisitor::new();
    visitor.visit_file(file);
    let ghost findings: FindingsView = items_findings(file@);
    proof {
        lemma_concat_empty(findings);
        assert(visitor@ == findings);
    }
    let mut assets: Vec<Asset> = Vec::new();
    let mut i: usize = 0;
    while i < visitor.functions.len()
        invariant
            i <= visitor.functions@.len(),
            visitor@ == findings,
            findings.functions.len() == visitor.functions@.len(),
            assets.deep_view() =~~= findings.functions.take(i as int).map_values(
                function_classifier(),
            ),
        decreases visitor.functions@.len() - i,
    {
        let a = classify_function_def(&visitor.functions[i]);
        assert(visitor.functions[i as int]@ == findings.functions[i as int]);
        let ghost top: Seq<AssetView> = assets.deep_view();
        assets.push(a);
        proof {
            lemma_take_push(findings.functions, i as int);
            lemma_map_values_push(
                findings.functions.take(i as int),
                function_classifier(),
                findings.functions[i as int],
            );
            assert(assets.deep_view() =~~= top.push(
                classify_function(findings.functions[i as int]),
            ));
        }
        i += 1;
    }
    proof {
        lemma_take_all(findings.functions);
    }
    let ghost part1: Seq<AssetView> = findings.functions.map_values(function_classifier());
    let mut i: usize = 0;
    while i < visitor.storage_items.len()
        invariant
            i <= visitor.storage_items@.len(),
            visitor@ == findings,
            findings.storage_items.len() == visitor.storage_items@.len(),
            part1 == findings.functions.map_values(function_classifier()),
            assets.deep_view() =~~= part1 + findings.storage_items.take(i as int).map_values(
                storage_classifier(),
            ),
        decreases visitor.storage_items@.len() - i,
    {
        let a = classify_storage_def(&visitor.storage_items[i]);
        assert(visitor.storage_items[i as int]@ == findings.storage_items[i as int]);
        let ghost top: Seq<AssetView> = assets.deep_view();
        assets.push(a);
        proof {
            lemma_take_push(findings.storage_items, i as int);
            lemma_map_values_push(
                findings.storage_items.take(i as int),
                storage_classifier(),
                findings.storage_items[i as int],
            );
            assert(assets.deep_view() =~~= top.push(
                classify_storage(findings.storage_items[i as int]),
            ));
        }
        i += 1;
    }
    proof {
        lemma_take_all(findings.storage_items);
    }
    let ghost part2: Seq<AssetView> = part1 + findings.storage_items.map_values(
        storage_classifier(),
    );
    let mut i: usize = 0;
    while i < visitor.constants.len()
        invariant
            i <= visitor.constants@.len(),
            visitor@ == findings,
            findings.constants.len() == visitor.constants@.len(),
            part2 == findings.functions.map_values(function_classifier())
                + findings.storage_items.map_values(storage_classifier()),
            assets.deep_view() =~~= part2 + findings.constants.take(i as int).map_values(
                constant_classifier(),
            ),
        decreases visitor.constants@.len() - i,
    {
        let a = classify_constant_name(&visitor.constants[i]);
        assert(visitor.constants[i as int]@ == findings.constants[i as int]);
        let ghost top: Seq<AssetView> = assets.deep_view();
        assets.push(a);
        proof {
            lemma_take_push(findings.constants, i as int);
            lemma_map_values_push(
                findings.constants.take(i as int),
                constant_classifier(),
                findings.constants[i as int],
            );
            assert(assets.deep_view() =~~= top.push(
                classify_constant(findings.constants[i as int]),
            ));
        }
        i += 1;
    }
    proof {
        lemma_take_all(findings.constants);
    }
    let ghost part3: Seq<AssetView> = part2 + findings.constants.map_values(constant_classifier());
    let mut i: usize = 0;
    while i < visitor.events.len()
        invariant
            i <= visitor.events@.len(),
            visitor@ == findings,
            findings.events.len() == visitor.events@.len(),
            part3 == findings.functions.map_values(function_classifier())
                + findings.storage_items.map_values(storage_classifier())
                + findings.constants.map_values(constant_classifier()),
            assets.deep_view() =~~= part3 + findings.events.take(i as int).map_values(
                event_classifier(),
            ),
        decreases visitor.events@.len() - i,
    {
        let a = classify_event_name(&visitor.events[i]);
        assert(visitor.events[i as int]@ == findings.events[i as int]);
        let ghost top: Seq<AssetView> = assets.deep_view();
        assets.push(a);
        proof {
            lemma_take_push(findings.events, i as int);
            lemma_map_values_push(
                findings.events.take(i as int),
                event_classifier(),
                findings.events[i as int],
            );
            assert(assets.deep_view() =~~= top.push(classify_event(findings.events[i as int])));
        }
        i += 1;
    }
    proof {
        lemma_take_all(findings.events);
    }
    let ghost part4: Seq<AssetView> = part3 + findings.events.map_values(event_classifier());
    let mut i: usize = 0;
    while i < visitor.errors.len()
        invariant
            i <= visitor.errors@.len(),
            visitor@ == findings,
            findings.errors.len() == visitor.errors@.len(),
            part4 == findings.functions.map_values(function_classifier())
                + findings.storage_items.map_values(storage_classifier())
                + findings.constants.map_values(constant_classifier())
                + findings.events.map_values(event_classifier()),
            assets.deep_view() =~~= part4 + findings.errors.take(i as int).map_values(
                error_classifier(),
            ),
        decreases visitor.errors@.len() - i,
    {
        let a = classify_error_name(&visitor.errors[i]);
        assert(visitor.errors[i as int]@ == findings.errors[i as int]);
        let ghost top: Seq<AssetView> = assets.deep_view();
        assets.push(a);
        proof {
            lemma_take_push(findings.errors, i as int);
            lemma_map_values_push(
                findings.errors.take(i as int),
                error_classifier(),
                findings.errors[i as int],
            );
            assert(assets.deep_view() =~~= top.push(classify_error(findings.errors[i as int])));
        }
        i += 1;
    }
    proof {
        lemma_take_all(findings.errors);
    }
    let inv = AssetInventory { assets };
    proof {
        assert(inv@ =~~= inventory_of(findings));
    }
    inv
}

} // verus!
