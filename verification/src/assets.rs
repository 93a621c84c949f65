//! The internal model for pallet assets: the named elements a security
//! review cares about, with their visibility, category and mutable
//! security properties.
//!
//! Each executable type has a mathematical model (`...View`) over `Seq` and
//! plain values; contracts throughout the crate speak about those models.

use vstd::prelude::*;

use crate::threats::Threat;

verus! {

/// Asset visibility classification.
///
/// `Unspecified` applies to element kinds with no native visibility
/// qualifier (constants, events, errors).
#[derive(Clone, Copy, Debug, PartialEq, Eq, Structural)]
pub enum Visibility {
    Public,
    Private,
    Unspecified,
}

/// Parameter definition for functions: the name and the source-level type
/// expression, kept verbatim and never parsed further.
#[derive(Debug, PartialEq)]
pub struct Parameter {
    pub name: String,
    pub param_type: String,
}

/// Mathematical model of a [`Parameter`]: both fields as character
/// sequences.
#[verifier::ext_equal]
pub struct ParameterView {
    pub name: Seq<char>,
    pub param_type: Seq<char>,
}

impl View for Parameter {
    type V = ParameterView;

    open spec fn view(&self) -> ParameterView {
        ParameterView { name: self.name@, param_type: self.param_type@ }
    }
}

impl DeepView for Parameter {
    type V = ParameterView;

    open spec fn deep_view(&self) -> ParameterView {
        self.view()
    }
}

impl Clone for Parameter {
    fn clone(&self) -> (res: Self)
        ensures
            res == *self,
    {
        Parameter { name: self.name.clone(), param_type: self.param_type.clone() }
    }
}

/// Copies a parameter list element by element.
pub fn clone_params(v: &Vec<Parameter>) -> (res: Vec<Parameter>)
    ensures
        res@ == v@,
{
    let mut res: Vec<Parameter> = Vec::new();
    let mut i: usize = 0;
    while i < v.len()
        invariant
            i <= v@.len(),
            res@ == v@.take(i as int),
        decreases v@.len() - i,
    {
        res.push(v[i].clone());
        proof {
            assert(res@ =~= v@.take(i + 1));
        }
        i += 1;
    }
    proof {
        assert(v@.take(v@.len() as int) =~= v@);
    }
    res
}

/// Copies a string list element by element.
pub fn clone_strings(v: &Vec<String>) -> (res: Vec<String>)
    ensures
        res@ == v@,
{
    let mut res: Vec<String> = Vec::new();
    let mut i: usize = 0;
    while i < v.len()
        invariant
            i <= v@.len(),
            res@ == v@.take(i as int),
        decreases v@.len() - i,
    {
        res.push(v[i].clone());
        proof {
            assert(res@ =~= v@.take(i + 1));
        }
        i += 1;
    }
    proof {
        assert(v@.take(v@.len() as int) =~= v@);
    }
    res
}

/// Copies an optional string.
pub fn clone_opt_string(v: &Option<String>) -> (res: Option<String>)
    ensures
        res == *v,
{
    match v {
        Option::Some(s) => Option::Some(s.clone()),
        Option::None => Option::None,
    }
}

/// Supporting struct for the `Storage` asset category.
#[derive(Debug, PartialEq)]
pub struct StorageConfig {
    pub visibility: Visibility,
    pub name: String,
}

/// Mathematical model of a [`StorageConfig`].
#[verifier::ext_equal]
pub struct StorageConfigView {
    pub visibility: Visibility,
    pub name: Seq<char>,
}

impl View for StorageConfig {
    type V = StorageConfigView;

    open spec fn view(&self) -> StorageConfigView {
        StorageConfigView { visibility: self.visibility, name: self.name@ }
    }
}

impl DeepView for StorageConfig {
    type V = StorageConfigView;

    open spec fn deep_view(&self) -> StorageConfigView {
        self.view()
    }
}

impl Clone for StorageConfig {
    fn clone(&self) -> (res: Self)
        ensures
            res == *self,
    {
        StorageConfig { visibility: self.visibility, name: self.name.clone() }
    }
}

/// Asset category classification.
#[derive(Debug, PartialEq)]
pub enum AssetCategory {
    /// A callable entry point with an explicit public qualifier.
    PublicFunction { parameters: Vec<Parameter>, return_type: Option<String> },
    /// A private member function: internal helpers and validation logic.
    Helper { parameters: Vec<Parameter>, return_type: Option<String> },
    /// A persistent storage declaration.
    Storage(StorageConfig),
    /// A runtime-defined constant, recorded by identifier.
    Constant { name: String, value_type: String },
    /// One variant of an event enum.
    Event { name: String, fields: Vec<Parameter> },
    /// One variant of an error enum.
    Error { name: String, fields: Vec<Parameter> },
}

/// Mathematical model of an [`AssetCategory`].
#[verifier::ext_equal]
pub enum AssetCategoryView {
    PublicFunction { parameters: Seq<ParameterView>, return_type: Option<Seq<char>> },
    Helper { parameters: Seq<ParameterView>, return_type: Option<Seq<char>> },
    Storage(StorageConfigView),
    Constant { name: Seq<char>, value_type: Seq<char> },
    Event { name: Seq<char>, fields: Seq<ParameterView> },
    Error { name: Seq<char>, fields: Seq<ParameterView> },
}

impl View for AssetCategory {
    type V = AssetCategoryView;

    open spec fn view(&self) -> AssetCategoryView {
        match self {
            AssetCategory::PublicFunction { parameters, return_type } => {
                AssetCategoryView::PublicFunction {
                    parameters: parameters.deep_view(),
                    return_type: return_type.deep_view(),
                }
            },
            AssetCategory::Helper { parameters, return_type } => {
                AssetCategoryView::Helper {
                    parameters: parameters.deep_view(),
                    return_type: return_type.deep_view(),
                }
            },
            AssetCategory::Storage(config) => AssetCategoryView::Storage(config@),
            AssetCategory::Constant { name, value_type } => {
                AssetCategoryView::Constant { name: name@, value_type: value_type@ }
            },
            AssetCategory::Event { name, fields } => {
                AssetCategoryView::Event { name: name@, fields: fields.deep_view() }
            },
            AssetCategory::Error { name, fields } => {
                AssetCategoryView::Error { name: name@, fields: fields.deep_view() }
            },
        }
    }
}

impl DeepView for AssetCategory {
    type V = AssetCategoryView;

    open spec fn deep_view(&self) -> AssetCategoryView {
        self.view()
    }
}

impl Clone for AssetCategory {
    fn clone(&self) -> (res: Self)
        ensures
            res@ == self@,
    {
        match self {
            AssetCategory::PublicFunction { parameters, return_type } => {
                AssetCategory::PublicFunction {
                    parameters: clone_params(parameters),
                    return_type: clone_opt_string(return_type),
                }
            },
            AssetCategory::Helper { parameters, return_type } => {
                AssetCategory::Helper {
                    parameters: clone_params(parameters),
                    return_type: clone_opt_string(return_type),
                }
            },
            AssetCategory::Storage(config) => AssetCategory::Storage(config.clone()),
            AssetCategory::Constant { name, value_type } => {
                AssetCategory::Constant { name: name.clone(), value_type: value_type.clone() }
            },
            AssetCategory::Event { name, fields } => {
                AssetCategory::Event { name: name.clone(), fields: clone_params(fields) }
            },
            AssetCategory::Error { name, fields } => {
                AssetCategory::Error { name: name.clone(), fields: clone_params(fields) }
            },
        }
    }
}

/// Risk level for an asset itself (not for the threats mapped to it),
/// used to prioritize assets for security analysis.
///
/// The order is `Low < Medium < High < Critical`; the default is `Low`.
#[derive(Clone, Copy, Debug, PartialEq, Eq, Structural)]
pub enum RiskLevel {
    Low,
    Medium,
    High,
    Critical,
}

impl RiskLevel {
    /// The coarse ordinal severity of this level: `Low` is 0, `Critical` is 3.
    pub open spec fn spec_rank(self) -> int {
        match self {
            RiskLevel::Low => 0,
            RiskLevel::Medium => 1,
            RiskLevel::High => 2,
            RiskLevel::Critical => 3,
        }
    }

    /// Returns the rank of this level, its position in the order
    /// `Low < Medium < High < Critical`.
    pub fn rank(&self) -> (r: u8)
        ensures
            r as int == self.spec_rank(),
    {
        match self {
            RiskLevel::Low => 0,
            RiskLevel::Medium => 1,
            RiskLevel::High => 2,
            RiskLevel::Critical => 3,
        }
    }
}

impl Default for RiskLevel {
    /// The default risk level is `Low`.
    fn default() -> (r: Self)
        ensures
            r == RiskLevel::Low,
    {
        RiskLevel::Low
    }
}

/// Extensible security properties, attached to an asset after registration
/// and mutated in place by registry updates or engine annotation.
#[derive(Debug, PartialEq)]
pub struct Properties {
    /// Threats mapped to this asset.
    pub threats: Vec<Threat>,
    /// Risk level of the asset itself, not of the threats mapped to it.
    pub risk_level: RiskLevel,
    /// Validation rules attached to the asset after analysis.
    pub validation_rules: Vec<String>,
    /// State transitions the asset takes part in.
    pub state_transitions: Vec<String>,
    /// Constraints on the values the asset carries.
    pub value_constraints: Vec<String>,
}

/// Mathematical model of [`Properties`].
#[verifier::ext_equal]
pub struct PropertiesView {
    pub threats: Seq<Threat>,
    pub risk_level: RiskLevel,
    pub validation_rules: Seq<Seq<char>>,
    pub state_transitions: Seq<Seq<char>>,
    pub value_constraints: Seq<Seq<char>>,
}

impl PropertiesView {
    /// A fresh model: no threats, risk `Low`, no rules.
    pub open spec fn default_model() -> PropertiesView {
        PropertiesView {
            threats: Seq::empty(),
            risk_level: RiskLevel::Low,
            validation_rules: Seq::empty(),
            state_transitions: Seq::empty(),
            value_constraints: Seq::empty(),
        }
    }
}

impl View for Properties {
    type V = PropertiesView;

    open spec fn view(&self) -> PropertiesView {
        PropertiesView {
            threats: self.threats@,
            risk_level: self.risk_level,
            validation_rules: self.validation_rules.deep_view(),
            state_transitions: self.state_transitions.deep_view(),
            value_constraints: self.value_constraints.deep_view(),
        }
    }
}

impl DeepView for Properties {
    type V = PropertiesView;

    open spec fn deep_view(&self) -> PropertiesView {
        self.view()
    }
}

impl Clone for Properties {
    fn clone(&self) -> (res: Self)
        ensures
            res@ == self@,
    {
        let res = Properties {
            threats: clone_threats(&self.threats),
            risk_level: self.risk_level,
            validation_rules: clone_strings(&self.validation_rules),
            state_transitions: clone_strings(&self.state_transitions),
            value_constraints: clone_strings(&self.value_constraints),
        };
        proof {
            assert(res@ =~= self@);
        }
        res
    }
}

impl Default for Properties {
    /// Fresh properties: empty threat list, `Low` risk, no rules.
    fn default() -> (r: Self)
        ensures
            r@ == PropertiesView::default_model(),
    {
        let r = Properties {
            threats: Vec::new(),
            risk_level: RiskLevel::Low,
            validation_rules: Vec::new(),
            state_transitions: Vec::new(),
            value_constraints: Vec::new(),
        };
        proof {
            assert(r@ =~= PropertiesView::default_model());
        }
        r
    }
}

/// Copies a threat list element by element.
pub fn clone_threats(v: &Vec<Threat>) -> (res: Vec<Threat>)
    ensures
        res@ == v@,
{
    let mut res: Vec<Threat> = Vec::new();
    let mut i: usize = 0;
    while i < v.len()
        invariant
            i <= v@.len(),
            res@ == v@.take(i as int),
        decreases v@.len() - i,
    {
        res.push(v[i]);
        proof {
            assert(res@ =~= v@.take(i + 1));
        }
        i += 1;
    }
    proof {
        assert(v@.take(v@.len() as int) =~= v@);
    }
    res
}

/// Core asset representation: one named element extracted from a pallet
/// for security review.
///
/// Within one snapshot the `name` is unique; registering a duplicate
/// overwrites the previous entry.
#[derive(Debug, PartialEq)]
pub struct Asset {
    pub name: String,
    pub visibility: Visibility,
    pub category: AssetCategory,
    pub properties: Properties,
}

/// Mathematical model of an [`Asset`].
#[verifier::ext_equal]
pub struct AssetView {
    pub name: Seq<char>,
    pub visibility: Visibility,
    pub category: AssetCategoryView,
    pub properties: PropertiesView,
}

impl View for Asset {
    type V = AssetView;

    open spec fn view(&self) -> AssetView {
        AssetView {
            name: self.name@,
            visibility: self.visibility,
            category: self.category@,
            properties: self.properties@,
        }
    }
}

impl DeepView for Asset {
    type V = AssetView;

    open spec fn deep_view(&self) -> AssetView {
        self.view()
    }
}

impl Clone for Asset {
    fn clone(&self) -> (res: Self)
        ensures
            res@ == self@,
    {
        Asset {
            name: self.name.clone(),
            visibility: self.visibility,
            category: self.category.clone(),
            properties: self.properties.clone(),
        }
    }
}

} // verus!
