//! A structural model of one parsed source file, holding exactly what the
//! extraction rules read: member functions of implementation blocks,
//! type-alias items of modules, associated types of traits, and enums with
//! their attributes and variants. All other node shapes appear as `Other`.
//!
//! The frontend that parses real source text converts its syntax tree into
//! this model and hands it over as plain values.

use vstd::prelude::*;

use crate::assets::Parameter;
use crate::assets::ParameterView;

verus! {

/// The path of one attribute, as a list of path segments.
///
/// Attribute resolution flattens the segments, joins them with `::` and
/// compares the result with a marker name, exactly and case-sensitively.
#[derive(Debug)]
pub struct AttrPath {
    pub segments: Vec<String>,
}

impl View for AttrPath {
    type V = Seq<Seq<char>>;

    open spec fn view(&self) -> Seq<Seq<char>> {
        self.segments.deep_view()
    }
}

impl DeepView for AttrPath {
    type V = Seq<Seq<char>>;

    open spec fn deep_view(&self) -> Seq<Seq<char>> {
        self.view()
    }
}

/// One member function of an implementation block: its name, whether an
/// explicit public qualifier is present, and its parameter list with the
/// receiver excluded.
#[derive(Debug)]
pub struct FunctionDef {
    pub name: String,
    pub is_public: bool,
    pub params: Vec<Parameter>,
}

/// Mathematical model of a [`FunctionDef`].
#[verifier::ext_equal]
pub struct FunctionDefView {
    pub name: Seq<char>,
    pub is_public: bool,
    pub params: Seq<ParameterView>,
}

impl View for FunctionDef {
    type V = FunctionDefView;

    open spec fn view(&self) -> FunctionDefView {
        FunctionDefView {
            name: self.name@,
            is_public: self.is_public,
            params: self.params.deep_view(),
        }
    }
}

impl DeepView for FunctionDef {
    type V = FunctionDefView;

    open spec fn deep_view(&self) -> FunctionDefView {
        self.view()
    }
}

/// One type-alias item of a module: name, own visibility qualifier, and
/// the attributes written on it.
#[derive(Debug)]
pub struct TypeAliasDef {
    pub name: String,
    pub is_public: bool,
    pub attrs: Vec<AttrPath>,
}

/// Mathematical model of a [`TypeAliasDef`].
#[verifier::ext_equal]
pub struct TypeAliasDefView {
    pub name: Seq<char>,
    pub is_public: bool,
    pub attrs: Seq<Seq<Seq<char>>>,
}

impl View for TypeAliasDef {
    type V = TypeAliasDefView;

    open spec fn view(&self) -> TypeAliasDefView {
        TypeAliasDefView {
            name: self.name@,
            is_public: self.is_public,
            attrs: self.attrs.deep_view(),
        }
    }
}

impl DeepView for TypeAliasDef {
    type V = TypeAliasDefView;

    open spec fn deep_view(&self) -> TypeAliasDefView {
        self.view()
    }
}

/// One associated-type item of a trait: its identifier and attributes.
#[derive(Debug)]
pub struct AssocTypeDef {
    pub name: String,
    pub attrs: Vec<AttrPath>,
}

/// Mathematical model of an [`AssocTypeDef`].
#[verifier::ext_equal]
pub struct AssocTypeDefView {
    pub name: Seq<char>,
    pub attrs: Seq<Seq<Seq<char>>>,
}

impl View for AssocTypeDef {
    type V = AssocTypeDefView;

    open spec fn view(&self) -> AssocTypeDefView {
        AssocTypeDefView { name: self.name@, attrs: self.attrs.deep_view() }
    }
}

impl DeepView for AssocTypeDef {
    type V = AssocTypeDefView;

    open spec fn deep_view(&self) -> AssocTypeDefView {
        self.view()
    }
}

/// One item of a source file, in the shape the extraction rules read.
#[derive(Debug)]
pub enum SourceItem {
    /// An implementation block with its member functions.
    Impl { methods: Vec<FunctionDef> },
    /// A module with its name and direct items; traversal recurses into it.
    Module { name: String, items: Vec<SourceItem> },
    /// A type-alias item; storage-relevant when it stands directly in the
    /// pallet module and carries any attribute.
    TypeAlias { def: TypeAliasDef },
    /// A trait with its associated-type items.
    Trait { assoc_types: Vec<AssocTypeDef> },
    /// An enum with its attributes and variant identifiers.
    Enum { attrs: Vec<AttrPath>, variants: Vec<String> },
    /// Any other node shape; ignored by extraction.
    Other,
}

/// Mathematical model of a [`SourceItem`].
#[verifier::ext_equal]
pub enum SourceItemView {
    Impl { methods: Seq<FunctionDefView> },
    Module { name: Seq<char>, items: Seq<SourceItemView> },
    TypeAlias { def: TypeAliasDefView },
    Trait { assoc_types: Seq<AssocTypeDefView> },
    Enum { attrs: Seq<Seq<Seq<char>>>, variants: Seq<Seq<char>> },
    Other,
}

/// The model of one source item.
pub open spec fn item_view(item: SourceItem) -> SourceItemView
    decreases item,
{
    match item {
        SourceItem::Impl { methods } => SourceItemView::Impl { methods: methods.deep_view() },
        SourceItem::Module { name, items } => SourceItemView::Module {
            name: name@,
            items: items_view(items@),
        },
        SourceItem::TypeAlias { def } => SourceItemView::TypeAlias { def: def@ },
        SourceItem::Trait { assoc_types } => SourceItemView::Trait {
            assoc_types: assoc_types.deep_view(),
        },
        SourceItem::Enum { attrs, variants } => SourceItemView::Enum {
            attrs: attrs.deep_view(),
            variants: variants.deep_view(),
        },
        SourceItem::Other => SourceItemView::Other,
    }
}

/// The models of a list of source items, in order.
pub open spec fn items_view(items: Seq<SourceItem>) -> Seq<SourceItemView>
    decreases items,
{
    if items.len() == 0 {
        Seq::empty()
    } else {
        items_view(items.drop_last()).push(item_view(items.last()))
    }
}

/// Each entry of `items_view` is the model of the matching source item.
pub proof fn lemma_items_view_index(items: Seq<SourceItem>, i: int)
    requires
        0 <= i < items.len(),
    ensures
        items_view(items).len() == items.len(),
        items_view(items)[i] == item_view(items[i]),
    decreases items,
{
    lemma_items_view_len(items);
    if i < items.len() - 1 {
        lemma_items_view_index(items.drop_last(), i);
    }
}

/// The model list has the same length as the item list.
pub proof fn lemma_items_view_len(items: Seq<SourceItem>)
    ensures
        items_view(items).len() == items.len(),
    decreases items,
{
    if items.len() > 0 {
        lemma_items_view_len(items.drop_last());
    }
}

impl View for SourceItem {
    type V = SourceItemView;

    open spec fn view(&self) -> SourceItemView {
        item_view(*self)
    }
}

impl DeepView for SourceItem {
    type V = SourceItemView;

    open spec fn deep_view(&self) -> SourceItemView {
        self.view()
    }
}

/// A whole parsed source file: its top-level items.
#[derive(Debug)]
pub struct SourceFile {
    pub items: Vec<SourceItem>,
}

impl View for SourceFile {
    type V = Seq<SourceItemView>;

    open spec fn view(&self) -> Seq<SourceItemView> {
        items_view(self.items@)
    }
}

impl DeepView for SourceFile {
    type V = Seq<SourceItemView>;

    open spec fn deep_view(&self) -> Seq<SourceItemView> {
        self.view()
    }
}

} // verus!
