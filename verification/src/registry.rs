//! The security asset registry: an in-memory store of assets keyed by
//! name, with derived indices and query operations.
//!
//! The derived dependency and storage-access maps are initialized empty on
//! registration; populating real edges is a documented extension point,
//! outside this core. The vulnerability index is independent of the asset
//! map: it records threats for any name, registered or not.
//!
//! The registry is an explicit value owned by its caller and passed into
//! every operation; there is no shared global instance.

use vstd::prelude::*;

use vstd::string::StringExecFns;

use crate::assets::Asset;
use crate::assets::AssetView;
use crate::assets::Properties;
use crate::assets::RiskLevel;
use crate::assets::Visibility;
use crate::assets::clone_strings;
use crate::assets::clone_threats;
use crate::seqs::lemma_filter_push;
use crate::seqs::lemma_take_all;
use crate::seqs::lemma_take_push;
use crate::strings::str_eq;
use crate::threats::Threat;

verus! {

/// Looks a name up in a keyed entry list: the first binding wins. With
/// unique keys it is the only one.
pub open spec fn lookup<V>(entries: Seq<(Seq<char>, V)>, name: Seq<char>) -> Option<V>
    decreases entries.len(),
{
    if entries.len() == 0 {
        Option::None
    } else if entries[0].0 == name {
        Option::Some(entries[0].1)
    } else {
        lookup(entries.drop_first(), name)
    }
}

/// The list bound to a name, or empty for an unknown name.
pub open spec fn list_for<T>(entries: Seq<(Seq<char>, Seq<T>)>, name: Seq<char>) -> Seq<T> {
    match lookup(entries, name) {
        Option::Some(l) => l,
        Option::None => Seq::empty(),
    }
}

/// Every key appears once.
pub open spec fn unique_keys<V>(entries: Seq<(Seq<char>, V)>) -> bool {
    forall|i: int, j: int|
        0 <= i < j < entries.len() ==> (#[trigger] entries[i]).0 != (#[trigger] entries[j]).0
}

/// Looks an asset up by name: the first binding wins. With unique names
/// it is the only one.
pub open spec fn lookup_asset(assets: Seq<AssetView>, name: Seq<char>) -> Option<AssetView>
    decreases assets.len(),
{
    if assets.len() == 0 {
        Option::None
    } else if assets[0].name == name {
        Option::Some(assets[0])
    } else {
        lookup_asset(assets.drop_first(), name)
    }
}

/// Every asset name appears once.
pub open spec fn unique_names(assets: Seq<AssetView>) -> bool {
    forall|i: int, j: int|
        0 <= i < j < assets.len() ==> (#[trigger] assets[i]).name != (#[trigger] assets[j]).name
}

/// A key found at the first matching position is what lookup returns.
proof fn lemma_lookup_found<V>(entries: Seq<(Seq<char>, V)>, j: int, n: Seq<char>)
    requires
        0 <= j < entries.len(),
        entries[j].0 == n,
        forall|k: int| 0 <= k < j ==> (#[trigger] entries[k]).0 != n,
    ensures
        lookup(entries, n) == Option::Some(entries[j].1),
    decreases j,
{
    if j > 0 {
        assert(entries[0].0 != n);
        assert forall|k: int| 0 <= k < j - 1 implies (#[trigger] entries.drop_first()[k]).0
            != n by {
            assert(entries.drop_first()[k] == entries[k + 1]);
        }
        assert(entries.drop_first()[j - 1] == entries[j]);
        lemma_lookup_found(entries.drop_first(), j - 1, n);
    }
}

/// A key found nowhere makes lookup fail.
proof fn lemma_lookup_none<V>(entries: Seq<(Seq<char>, V)>, n: Seq<char>)
    requires
        forall|k: int| 0 <= k < entries.len() ==> (#[trigger] entries[k]).0 != n,
    ensures
        lookup(entries, n) is None,
    decreases entries.len(),
{
    if entries.len() > 0 {
        assert forall|k: int| 0 <= k < entries.drop_first().len() implies (#[trigger] entries.drop_first()[k]).0
            != n by {
            assert(entries.drop_first()[k] == entries[k + 1]);
        }
        lemma_lookup_none(entries.drop_first(), n);
    }
}

/// Replacing the first entry of a key changes lookup for that key alone.
proof fn lemma_lookup_update<V>(entries: Seq<(Seq<char>, V)>, j: int, e: (Seq<char>, V), n: Seq<char>)
    requires
        0 <= j < entries.len(),
        entries[j].0 == e.0,
        forall|k: int| 0 <= k < j ==> (#[trigger] entries[k]).0 != e.0,
    ensures
        lookup(entries.update(j, e), n) == if n == e.0 {
            Option::Some(e.1)
        } else {
            lookup(entries, n)
        },
    decreases j,
{
    let updated = entries.update(j, e);
    if j == 0 {
        assert(updated[0] == e);
        if n != e.0 {
            assert(updated.drop_first() =~= entries.drop_first());
        }
    } else {
        assert(updated[0] == entries[0]);
        assert(entries[0].0 != e.0);
        assert(updated.drop_first() =~= entries.drop_first().update(j - 1, e));
        assert forall|k: int| 0 <= k < j - 1 implies (#[trigger] entries.drop_first()[k]).0
            != e.0 by {
            assert(entries.drop_first()[k] == entries[k + 1]);
        }
        assert(entries.drop_first()[j - 1] == entries[j]);
        lemma_lookup_update(entries.drop_first(), j - 1, e, n);
    }
}

/// Appending an entry with a fresh key changes lookup for that key alone.
proof fn lemma_lookup_push<V>(entries: Seq<(Seq<char>, V)>, e: (Seq<char>, V), n: Seq<char>)
    requires
        forall|k: int| 0 <= k < entries.len() ==> (#[trigger] entries[k]).0 != e.0,
    ensures
        lookup(entries.push(e), n) == if n == e.0 {
            Option::Some(e.1)
        } else {
            lookup(entries, n)
        },
    decreases entries.len(),
{
    if entries.len() == 0 {
        assert(entries.push(e)[0] == e);
        if n != e.0 {
            lemma_lookup_none(entries.push(e), n);
        }
    } else {
        assert(entries.push(e)[0] == entries[0]);
        assert(entries.push(e).drop_first() =~= entries.drop_first().push(e));
        assert forall|k: int| 0 <= k < entries.drop_first().len() implies (#[trigger] entries.drop_first()[k]).0
            != e.0 by {
            assert(entries.drop_first()[k] == entries[k + 1]);
        }
        lemma_lookup_push(entries.drop_first(), e, n);
    }
}

/// An asset found at the first matching position is what lookup returns.
proof fn lemma_lookup_asset_found(assets: Seq<AssetView>, j: int, n: Seq<char>)
    requires
        0 <= j < assets.len(),
        assets[j].name == n,
        forall|k: int| 0 <= k < j ==> (#[trigger] assets[k]).name != n,
    ensures
        lookup_asset(assets, n) == Option::Some(assets[j]),
    decreases j,
{
    if j > 0 {
        assert forall|k: int| 0 <= k < j - 1 implies (#[trigger] assets.drop_first()[k]).name
            != n by {
            assert(assets.drop_first()[k] == assets[k + 1]);
        }
        assert(assets.drop_first()[j - 1] == assets[j]);
        lemma_lookup_asset_found(assets.drop_first(), j - 1, n);
    }
}

/// A name found nowhere makes asset lookup fail.
proof fn lemma_lookup_asset_none(assets: Seq<AssetView>, n: Seq<char>)
    requires
        forall|k: int| 0 <= k < assets.len() ==> (#[trigger] assets[k]).name != n,
    ensures
        lookup_asset(assets, n) is None,
    decreases assets.len(),
{
    if assets.len() > 0 {
        assert forall|k: int| 0 <= k < assets.drop_first().len() implies (#[trigger] assets.drop_first()[k]).name
            != n by {
            assert(assets.drop_first()[k] == assets[k + 1]);
        }
        lemma_lookup_asset_none(assets.drop_first(), n);
    }
}

/// Replacing the first asset of a name changes lookup for that name alone.
proof fn lemma_lookup_asset_update(assets: Seq<AssetView>, j: int, a: AssetView, n: Seq<char>)
    requires
        0 <= j < assets.len(),
        assets[j].name == a.name,
        forall|k: int| 0 <= k < j ==> (#[trigger] assets[k]).name != a.name,
    ensures
        lookup_asset(assets.update(j, a), n) == if n == a.name {
            Option::Some(a)
        } else {
            lookup_asset(assets, n)
        },
    decreases j,
{
    let updated = assets.update(j, a);
    if j == 0 {
        assert(updated[0] == a);
        if n != a.name {
            assert(updated.drop_first() =~= assets.drop_first());
        }
    } else {
        assert(updated[0] == assets[0]);
        assert(assets[0].name != a.name);
        assert(updated.drop_first() =~= assets.drop_first().update(j - 1, a));
        assert forall|k: int| 0 <= k < j - 1 implies (#[trigger] assets.drop_first()[k]).name
            != a.name by {
            assert(assets.drop_first()[k] == assets[k + 1]);
        }
        assert(assets.drop_first()[j - 1] == assets[j]);
        lemma_lookup_asset_update(assets.drop_first(), j - 1, a, n);
    }
}

/// Appending an asset with a fresh name changes lookup for that name
/// alone.
proof fn lemma_lookup_asset_push(assets: Seq<AssetView>, a: AssetView, n: Seq<char>)
    requires
        forall|k: int| 0 <= k < assets.len() ==> (#[trigger] assets[k]).name != a.name,
    ensures
        lookup_asset(assets.push(a), n) == if n == a.name {
            Option::Some(a)
        } else {
            lookup_asset(assets, n)
        },
    decreases assets.len(),
{
    if assets.len() == 0 {
        assert(assets.push(a)[0] == a);
        if n != a.name {
            assert forall|k: int| 0 <= k < assets.push(a).len() implies (#[trigger] assets.push(
                a,
            )[k]).name != n by {}
            lemma_lookup_asset_none(assets.push(a), n);
        }
    } else {
        assert(assets.push(a)[0] == assets[0]);
        assert(assets.push(a).drop_first() =~= assets.drop_first().push(a));
        assert forall|k: int| 0 <= k < assets.drop_first().len() implies (#[trigger] assets.drop_first()[k]).name
            != a.name by {
            assert(assets.drop_first()[k] == assets[k + 1]);
        }
        lemma_lookup_asset_push(assets.drop_first(), a, n);
    }
}

/// Finds the first entry with the given key.
fn find_pair_index<V: DeepView>(entries: &Vec<(String, V)>, key: &str) -> (r: Option<usize>)
    ensures
        entries.deep_view().len() == entries@.len(),
        match r {
            Option::Some(j) => j < entries@.len() && entries.deep_view()[j as int].0 == key@
                && forall|k: int|
                0 <= k < j ==> (#[trigger] entries.deep_view()[k]).0 != key@,
            Option::None => forall|k: int|
                0 <= k < entries@.len() ==> (#[trigger] entries.deep_view()[k]).0 != key@,
        },
{
    let mut i: usize = 0;
    while i < entries.len()
        invariant
            i <= entries@.len(),
            entries.deep_view().len() == entries@.len(),
            forall|k: int| 0 <= k < i ==> (#[trigger] entries.deep_view()[k]).0 != key@,
        decreases entries@.len() - i,
    {
        if str_eq(entries[i].0.as_str(), key) {
            assert(entries.deep_view()[i as int].0 == entries@[i as int].0@);
            return Option::Some(i);
        }
        assert(entries.deep_view()[i as int].0 == entries@[i as int].0@);
        i += 1;
    }
    Option::None
}

/// The in-memory store of assets keyed by name, with derived indices.
#[derive(Debug)]
pub struct SecurityAssetRegistry {
    assets: Vec<Asset>,
    dependencies: Vec<(String, Vec<String>)>,
    storage_access: Vec<(String, Vec<String>)>,
    vulnerabilities: Vec<(String, Vec<Threat>)>,
}

/// Whether an asset belongs in the dependency map: the callable
/// categories.
pub open spec fn is_callable(a: AssetView) -> bool {
    a.category is PublicFunction || a.category is Helper
}

/// The filter for assets of one exact risk level.
pub open spec fn risk_pred(level: RiskLevel) -> spec_fn(AssetView) -> bool {
    |a: AssetView| a.properties.risk_level == level
}

/// The filter for the public attack surface: public-function category and
/// public visibility, both at once.
pub open spec fn public_interface_pred() -> spec_fn(AssetView) -> bool {
    |a: AssetView| a.category is PublicFunction && a.visibility == Visibility::Public
}

impl SecurityAssetRegistry {
    /// The stored assets, in registration order.
    pub closed spec fn assets_model(self) -> Seq<AssetView> {
        self.assets.deep_view()
    }

    /// The dependency map: name to dependent names.
    pub closed spec fn deps_model(self) -> Seq<(Seq<char>, Seq<Seq<char>>)> {
        self.dependencies.deep_view()
    }

    /// The storage-access map: storage name to accessor names.
    pub closed spec fn access_model(self) -> Seq<(Seq<char>, Seq<Seq<char>>)> {
        self.storage_access.deep_view()
    }

    /// The vulnerability index: name to recorded threats.
    pub closed spec fn vulns_model(self) -> Seq<(Seq<char>, Seq<Threat>)> {
        self.vulnerabilities.deep_view()
    }

    /// The asset registered under a name, if any.
    pub open spec fn spec_asset(self, name: Seq<char>) -> Option<AssetView> {
        lookup_asset(self.assets_model(), name)
    }

    /// The recorded dependents of a name; empty for an unknown name.
    pub open spec fn spec_dependents(self, name: Seq<char>) -> Seq<Seq<char>> {
        list_for(self.deps_model(), name)
    }

    /// The recorded accessors of a storage name; empty for an unknown
    /// name.
    pub open spec fn spec_storage_accessors(self, name: Seq<char>) -> Seq<Seq<char>> {
        list_for(self.access_model(), name)
    }

    /// The recorded vulnerabilities of a name; empty for an unknown name.
    pub open spec fn spec_vulnerabilities(self, name: Seq<char>) -> Seq<Threat> {
        list_for(self.vulns_model(), name)
    }

    /// Internal consistency: names and keys are unique, so the first
    /// binding found for a name is the only one.
    pub closed spec fn wf(self) -> bool {
        &&& unique_names(self.assets_model())
        &&& unique_keys(self.deps_model())
        &&& unique_keys(self.access_model())
        &&& unique_keys(self.vulns_model())
    }

    /// An empty registry.
    pub fn new() -> (r: SecurityAssetRegistry)
        ensures
            r.wf(),
            r.assets_model() == Seq::<AssetView>::empty(),
            r.deps_model() == Seq::<(Seq<char>, Seq<Seq<char>>)>::empty(),
            r.access_model() == Seq::<(Seq<char>, Seq<Seq<char>>)>::empty(),
            r.vulns_model() == Seq::<(Seq<char>, Seq<Threat>)>::empty(),
            forall|n: Seq<char>| r.spec_asset(n) is None,
            forall|n: Seq<char>| r.spec_dependents(n) == Seq::<Seq<char>>::empty(),
            forall|n: Seq<char>| r.spec_storage_accessors(n) == Seq::<Seq<char>>::empty(),
            forall|n: Seq<char>| r.spec_vulnerabilities(n) == Seq::<Threat>::empty(),
    {
        let r = SecurityAssetRegistry {
            assets: Vec::new(),
            dependencies: Vec::new(),
            storage_access: Vec::new(),
            vulnerabilities: Vec::new(),
        };
        proof {
            assert(r.assets_model() =~= Seq::<AssetView>::empty());
            assert(r.deps_model() =~= Seq::<(Seq<char>, Seq<Seq<char>>)>::empty());
            assert(r.access_model() =~= Seq::<(Seq<char>, Seq<Seq<char>>)>::empty());
            assert(r.vulns_model() =~= Seq::<(Seq<char>, Seq<Threat>)>::empty());
        }
        r
    }

    /// Finds the first stored asset with the given name.
    fn find_asset_index(&self, name: &str) -> (r: Option<usize>)
        ensures
            self.assets_model().len() == self.assets@.len(),
            match r {
                Option::Some(j) => j < self.assets@.len() && self.assets_model()[j as int].name
                    == name@ && forall|k: int|
                    0 <= k < j ==> (#[trigger] self.assets_model()[k]).name != name@,
                Option::None => forall|k: int|
                    0 <= k < self.assets@.len() ==> (#[trigger] self.assets_model()[k]).name
                        != name@,
            },
    {
        let mut i: usize = 0;
        while i < self.assets.len()
            invariant
                i <= self.assets@.len(),
                self.assets_model().len() == self.assets@.len(),
                forall|k: int| 0 <= k < i ==> (#[trigger] self.assets_model()[k]).name != name@,
            decreases self.assets@.len() - i,
        {
            if str_eq(self.assets[i].name.as_str(), name) {
                assert(self.assets_model()[i as int].name == self.assets@[i as int].name@);
                return Option::Some(i);
            }
            assert(self.assets_model()[i as int].name == self.assets@[i as int].name@);
            i += 1;
        }
        Option::None
    }

    /// Inserts an asset, overwriting any previous entry of the same name,
    /// and initializes the derived maps: an empty dependent list for a
    /// callable asset, an empty accessor list for a storage asset.
    /// Populating real edges is future work outside this core.
    pub fn register(&mut self, asset: Asset)
        requires
            old(self).wf(),
        ensures
            final(self).wf(),
            forall|n: Seq<char>|
                #[trigger] final(self).spec_asset(n) == if n == asset@.name {
                    Option::Some(asset@)
                } else {
                    old(self).spec_asset(n)
                },
            is_callable(asset@) ==> forall|n: Seq<char>|
                #[trigger] final(self).spec_dependents(n) == if n == asset@.name {
                    Seq::<Seq<char>>::empty()
                } else {
                    old(self).spec_dependents(n)
                },
            !is_callable(asset@) ==> final(self).deps_model() == old(self).deps_model(),
            asset@.category is Storage ==> forall|n: Seq<char>|
                #[trigger] final(self).spec_storage_accessors(n) == if n == asset@.name {
                    Seq::<Seq<char>>::empty()
                } else {
                    old(self).spec_storage_accessors(n)
                },
            !(asset@.category is Storage) ==> final(self).access_model() == old(self).access_model(),
            final(self).vulns_model() == old(self).vulns_model(),
    {
        let ghost av: AssetView = asset@;
        let is_callable_asset = match &asset.category {
            crate::assets::AssetCategory::PublicFunction { .. } => true,
            crate::assets::AssetCategory::Helper { .. } => true,
            _ => false,
        };
        let is_storage_asset = match &asset.category {
            crate::assets::AssetCategory::Storage(_) => true,
            _ => false,
        };
        let name_key = asset.name.clone();
        let found = self.find_asset_index(asset.name.as_str());
        match found {
            Option::Some(j) => {
                let ghost before: Seq<AssetView> = self.assets_model();
                self.assets.set(j, asset);
                proof {
                    assert(self.assets_model() =~~= before.update(j as int, av));
                    assert forall|n: Seq<char>| #[trigger] lookup_asset(self.assets_model(), n)
                        == (if n == av.name {
                        Option::Some(av)
                    } else {
                        lookup_asset(before, n)
                    }) by {
                        lemma_lookup_asset_update(before, j as int, av, n);
                    }
                }
            },
            Option::None => {
                let ghost before: Seq<AssetView> = self.assets_model();
                self.assets.push(asset);
                proof {
                    assert(self.assets_model() =~~= before.push(av));
                    assert forall|n: Seq<char>| #[trigger] lookup_asset(self.assets_model(), n)
                        == (if n == av.name {
                        Option::Some(av)
                    } else {
                        lookup_asset(before, n)
                    }) by {
                        lemma_lookup_asset_push(before, av, n);
                    }
                }
            },
        }
        if is_callable_asset {
            init_empty_list(&mut self.dependencies, name_key);
        } else if is_storage_asset {
            init_empty_list(&mut self.storage_access, name_key);
        }
    }

    /// The security properties of a registered asset: a point lookup.
    pub fn get_properties(&self, name: &str) -> (r: Option<&Properties>)
        requires
            self.wf(),
        ensures
            match r {
                Option::Some(p) => self.spec_asset(name@) matches Option::Some(a) && p@
                    == a.properties,
                Option::None => self.spec_asset(name@) is None,
            },
    {
        let found = self.find_asset_index(name);
        match found {
            Option::Some(j) => {
                proof {
                    lemma_lookup_asset_found(self.assets_model(), j as int, name@);
                    assert(self.assets@[j as int]@ == self.assets_model()[j as int]);
                }
                Option::Some(&self.assets[j].properties)
            },
            Option::None => {
                proof {
                    lemma_lookup_asset_none(self.assets_model(), name@);
                }
                Option::None
            },
        }
    }

    /// Replaces the security properties of a registered asset. Returns
    /// false, and stores nothing, for an unknown name: this never inserts.
    pub fn set_properties(&mut self, name: &str, props: Properties) -> (r: bool)
        requires
            old(self).wf(),
        ensures
            final(self).wf(),
            r == (old(self).spec_asset(name@) is Some),
            forall|n: Seq<char>|
                #[trigger] final(self).spec_asset(n) == if r && n == name@ {
                    Option::Some(
                        AssetView {
                            properties: props@,
                            ..old(self).spec_asset(name@)->Some_0
                        },
                    )
                } else {
                    old(self).spec_asset(n)
                },
            final(self).deps_model() == old(self).deps_model(),
            final(self).access_model() == old(self).access_model(),
            final(self).vulns_model() == old(self).vulns_model(),
    {
        let found = self.find_asset_index(name);
        match found {
            Option::Some(j) => {
                let ghost before: Seq<AssetView> = self.assets_model();
                proof {
                    lemma_lookup_asset_found(before, j as int, name@);
                }
                let mut entry = self.assets.remove(j);
                entry.properties = props;
                let ghost ev: AssetView = entry@;
                self.assets.insert(j, entry);
                proof {
                    assert(self.assets_model() =~~= before.update(j as int, ev));
                    assert forall|n: Seq<char>| #[trigger] lookup_asset(self.assets_model(), n)
                        == (if n == name@ {
                        Option::Some(ev)
                    } else {
                        lookup_asset(before, n)
                    }) by {
                        lemma_lookup_asset_update(before, j as int, ev, n);
                    }
                    assert(ev =~~= AssetView {
                        properties: props@,
                        ..lookup_asset(before, name@)->Some_0
                    });
                }
                true
            },
            Option::None => {
                proof {
                    lemma_lookup_asset_none(self.assets_model(), name@);
                }
                false
            },
        }
    }

    /// The recorded dependents of a name. An unknown name has none: the
    /// result is empty, not an error.
    pub fn dependents_of(&self, name: &str) -> (r: Vec<String>)
        requires
            self.wf(),
        ensures
            r.deep_view() == self.spec_dependents(name@),
    {
        let found = find_pair_index(&self.dependencies, name);
        match found {
            Option::Some(j) => {
                proof {
                    lemma_lookup_found(self.deps_model(), j as int, name@);
                    assert(self.dependencies@[j as int].1.deep_view() == self.deps_model()[
                        j as int
                    ].1);
                }
                let r = clone_strings(&self.dependencies[j].1);
                proof {
                    assert(r.deep_view() =~~= self.spec_dependents(name@));
                }
                r
            },
            Option::None => {
                proof {
                    lemma_lookup_none(self.deps_model(), name@);
                }
                let r: Vec<String> = Vec::new();
                proof {
                    assert(r.deep_view() =~~= self.spec_dependents(name@));
                }
                r
            },
        }
    }

    /// The recorded accessors of a storage name. An unknown name has
    /// none: the result is empty, not an error.
    pub fn storage_accessors_of(&self, name: &str) -> (r: Vec<String>)
        requires
            self.wf(),
        ensures
            r.deep_view() == self.spec_storage_accessors(name@),
    {
        let found = find_pair_index(&self.storage_access, name);
        match found {
            Option::Some(j) => {
                proof {
                    lemma_lookup_found(self.access_model(), j as int, name@);
                    assert(self.storage_access@[j as int].1.deep_view() == self.access_model()[
                        j as int
                    ].1);
                }
                let r = clone_strings(&self.storage_access[j].1);
                proof {
                    assert(r.deep_view() =~~= self.spec_storage_accessors(name@));
                }
                r
            },
            Option::None => {
                proof {
                    lemma_lookup_none(self.access_model(), name@);
                }
                let r: Vec<String> = Vec::new();
                proof {
                    assert(r.deep_view() =~~= self.spec_storage_accessors(name@));
                }
                r
            },
        }
    }

    /// Appends a threat to the vulnerability index under a name, whether
    /// or not the name is a registered asset: the index is independent of
    /// the asset map.
    pub fn record_vulnerability(&mut self, name: &str, threat: Threat)
        requires
            old(self).wf(),
        ensures
            final(self).wf(),
            forall|n: Seq<char>|
                #[trigger] final(self).spec_vulnerabilities(n) == if n == name@ {
                    old(self).spec_vulnerabilities(name@).push(threat)
                } else {
                    old(self).spec_vulnerabilities(n)
                },
            final(self).assets_model() == old(self).assets_model(),
            final(self).deps_model() == old(self).deps_model(),
            final(self).access_model() == old(self).access_model(),
    {
        let found = find_pair_index(&self.vulnerabilities, name);
        match found {
            Option::Some(j) => {
                let ghost before: Seq<(Seq<char>, Seq<Threat>)> = self.vulns_model();
                proof {
                    lemma_lookup_found(before, j as int, name@);
                }
                let mut entry = self.vulnerabilities.remove(j);
                entry.1.push(threat);
                let ghost ev: (Seq<char>, Seq<Threat>) = entry.deep_view();
                self.vulnerabilities.insert(j, entry);
                proof {
                    assert(self.vulns_model() =~~= before.update(j as int, ev));
                    assert(ev.1 =~= before[j as int].1.push(threat));
                    assert forall|n: Seq<char>| #[trigger] lookup(self.vulns_model(), n) == (if n
                        == name@ {
                        Option::Some(ev.1)
                    } else {
                        lookup(before, n)
                    }) by {
                        lemma_lookup_update(before, j as int, ev, n);
                    }
                }
            },
            Option::None => {
                let ghost before: Seq<(Seq<char>, Seq<Threat>)> = self.vulns_model();
                proof {
                    lemma_lookup_none(before, name@);
                }
                let mut list: Vec<Threat> = Vec::new();
                list.push(threat);
                let entry = (String::from_str(name), list);
                let ghost ev: (Seq<char>, Seq<Threat>) = entry.deep_view();
                self.vulnerabilities.push(entry);
                proof {
                    assert(self.vulns_model() =~~= before.push(ev));
                    assert(ev.1 =~= Seq::<Threat>::empty().push(threat));
                    assert forall|n: Seq<char>| #[trigger] lookup(self.vulns_model(), n) == (if n
                        == name@ {
                        Option::Some(ev.1)
                    } else {
                        lookup(before, n)
                    }) by {
                        lemma_lookup_push(before, ev, n);
                    }
                }
            },
        }
    }

    /// The recorded vulnerabilities of a name. An unknown name has none.
    pub fn vulnerabilities_of(&self, name: &str) -> (r: Vec<Threat>)
        requires
            self.wf(),
        ensures
            r@ == self.spec_vulnerabilities(name@),
    {
        let found = find_pair_index(&self.vulnerabilities, name);
        match found {
            Option::Some(j) => {
                proof {
                    lemma_lookup_found(self.vulns_model(), j as int, name@);
                    assert(self.vulnerabilities@[j as int].1.deep_view() == self.vulns_model()[
                        j as int
                    ].1);
                    assert(self.vulnerabilities@[j as int].1.deep_view() =~= self.vulnerabilities@[
                        j as int
                    ].1@);
                }
                clone_threats(&self.vulnerabilities[j].1)
            },
            Option::None => {
                proof {
                    lemma_lookup_none(self.vulns_model(), name@);
                }
                Vec::new()
            },
        }
    }

    /// The assets whose own risk level matches the given one exactly.
    pub fn assets_by_risk(&self, level: &RiskLevel) -> (r: Vec<Asset>)
        requires
            self.wf(),
        ensures
            r.deep_view() == self.assets_model().filter(risk_pred(*level)),
    {
        let ghost m: Seq<AssetView> = self.assets_model();
        let mut r: Vec<Asset> = Vec::new();
        let mut i: usize = 0;
        while i < self.assets.len()
            invariant
                i <= self.assets@.len(),
                m == self.assets_model(),
                m.len() == self.assets@.len(),
                r.deep_view() =~~= m.take(i as int).filter(risk_pred(*level)),
            decreases self.assets@.len() - i,
        {
            proof {
                lemma_take_push(m, i as int);
                lemma_filter_push(m.take(i as int), risk_pred(*level), m[i as int]);
                assert(self.assets@[i as int]@ == m[i as int]);
            }
            let a = &self.assets[i];
            if a.properties.risk_level == *level {
                let ghost top: Seq<AssetView> = r.deep_view();
                r.push(a.clone());
                proof {
                    assert(r.deep_view() =~~= top.push(m[i as int]));
                }
            }
            i += 1;
        }
        proof {
            lemma_take_all(m);
        }
        r
    }

    /// The public attack surface: the assets that are public functions
    /// *and* publicly visible. An asset failing either condition is left
    /// out, as the second postcondition states.
    pub fn public_interfaces(&self) -> (r: Vec<Asset>)
        requires
            self.wf(),
        ensures
            r.deep_view() == self.assets_model().filter(public_interface_pred()),
            forall|i: int|
                0 <= i < r.deep_view().len() ==> (#[trigger] r.deep_view()[i]).category
                    is PublicFunction && r.deep_view()[i].visibility == Visibility::Public,
    {
        let ghost m: Seq<AssetView> = self.assets_model();
        let mut r: Vec<Asset> = Vec::new();
        let mut i: usize = 0;
        while i < self.assets.len()
            invariant
                i <= self.assets@.len(),
                m == self.assets_model(),
                m.len() == self.assets@.len(),
                r.deep_view() =~~= m.take(i as int).filter(public_interface_pred()),
                forall|k: int|
                    0 <= k < r.deep_view().len() ==> (#[trigger] r.deep_view()[k]).category
                        is PublicFunction && r.deep_view()[k].visibility == Visibility::Public,
            decreases self.assets@.len() - i,
        {
            proof {
                lemma_take_push(m, i as int);
                lemma_filter_push(m.take(i as int), public_interface_pred(), m[i as int]);
                assert(self.assets@[i as int]@ == m[i as int]);
            }
            let a = &self.assets[i];
            let is_public_function = match &a.category {
                crate::assets::AssetCategory::PublicFunction { .. } => true,
                _ => false,
            };
            if is_public_function && a.visibility == Visibility::Public {
                let ghost top: Seq<AssetView> = r.deep_view();
                r.push(a.clone());
                proof {
                    assert(r.deep_view() =~~= top.push(m[i as int]));
                }
            }
            i += 1;
        }
        proof {
            lemma_take_all(m);
        }
        r
    }
}

/// Sets the list bound to a name to empty, inserting the name when it is
/// new and overwriting its list when it is not.
fn init_empty_list(entries: &mut Vec<(String, Vec<String>)>, name: String)
    requires
        unique_keys(old(entries).deep_view()),
    ensures
        unique_keys(final(entries).deep_view()),
        forall|n: Seq<char>|
            #[trigger] list_for(final(entries).deep_view(), n) == if n == name@ {
                Seq::<Seq<char>>::empty()
            } else {
                list_for(old(entries).deep_view(), n)
            },
{
    let ghost before: Seq<(Seq<char>, Seq<Seq<char>>)> = entries.deep_view();
    let found = find_pair_index(entries, name.as_str());
    match found {
        Option::Some(j) => {
            let _ = entries.remove(j);
            let fresh: Vec<String> = Vec::new();
            entries.insert(j, (name, fresh));
            let ghost ev: (Seq<char>, Seq<Seq<char>>) = entries.deep_view()[j as int];
            proof {
                assert(entries.deep_view() =~~= before.update(j as int, ev));
                assert(ev.0 == before[j as int].0);
                assert(ev.1 =~= Seq::<Seq<char>>::empty());
                assert forall|n: Seq<char>| #[trigger] lookup(entries.deep_view(), n) == (if n
                    == ev.0 {
                    Option::Some(ev.1)
                } else {
                    lookup(before, n)
                }) by {
                    lemma_lookup_update(before, j as int, ev, n);
                }
            }
        },
        Option::None => {
            let fresh: Vec<String> = Vec::new();
            entries.push((name, fresh));
            let ghost ev: (Seq<char>, Seq<Seq<char>>) = entries.deep_view()[before.len() as int];
            proof {
                assert(entries.deep_view() =~~= before.push(ev));
                assert(ev.1 =~= Seq::<Seq<char>>::empty());
                assert forall|n: Seq<char>| #[trigger] lookup(entries.deep_view(), n) == (if n
                    == ev.0 {
                    Option::Some(ev.1)
                } else {
                    lookup(before, n)
                }) by {
                    lemma_lookup_push(before, ev, n);
                }
            }
        },
    }
}

} // verus!
