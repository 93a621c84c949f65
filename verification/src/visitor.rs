//! The syntax visitor: walks a source-file model and collects raw findings
//! per element kind, in traversal order.
//!
//! Extraction rules, ignoring all other node shapes:
//! - every member function of an implementation block, with name,
//!   visibility and parameter list;
//! - every direct type-alias item of a module named `pallet` that carries
//!   any attribute, as a storage declaration with its own visibility;
//! - every associated-type item of a trait with an attribute resolving to
//!   the constant marker, as a constant;
//! - every variant of an enum whose attributes resolve to the event marker
//!   (or, failing that, the error marker), as an event (or error).
//!
//! Traversal is exhaustive: it recurses into nested modules. Per-node order
//! is deterministic, so repeated runs give reproducible output.

use vstd::prelude::*;

use crate::seqs::lemma_filter_map_push;
use crate::seqs::lemma_take_all;
use crate::seqs::lemma_take_push;
use crate::source_model::AssocTypeDef;
use crate::source_model::AssocTypeDefView;
use crate::source_model::AttrPath;
use crate::source_model::FunctionDef;
use crate::source_model::FunctionDefView;
use crate::source_model::SourceFile;
use crate::source_model::SourceItem;
use crate::source_model::SourceItemView;
use crate::source_model::items_view;
use crate::source_model::lemma_items_view_index;
use crate::source_model::lemma_items_view_len;
use crate::strings::join_path;
use crate::strings::spec_join_path;
use crate::strings::str_eq;

verus! {

/// The module name whose direct type aliases are storage declarations.
pub open spec fn spec_pallet_module_marker() -> Seq<char> {
    "pallet"@
}

/// The attribute path marking an associated type as a pallet constant.
pub open spec fn spec_constant_marker() -> Seq<char> {
    "pallet::constant"@
}

/// The attribute path marking an enum as the pallet event enum.
pub open spec fn spec_event_marker() -> Seq<char> {
    "pallet::event"@
}

/// The attribute path marking an enum as the pallet error enum.
pub open spec fn spec_error_marker() -> Seq<char> {
    "pallet::error"@
}

/// The module name whose direct type aliases are storage declarations.
pub fn pallet_module_marker() -> (s: &'static str)
    ensures
        s@ == spec_pallet_module_marker(),
{
    "pallet"
}

/// The attribute path marking an associated type as a pallet constant.
pub fn constant_marker() -> (s: &'static str)
    ensures
        s@ == spec_constant_marker(),
{
    "pallet::constant"
}

/// The attribute path marking an enum as the pallet event enum.
pub fn event_marker() -> (s: &'static str)
    ensures
        s@ == spec_event_marker(),
{
    "pallet::event"
}

/// The attribute path marking an enum as the pallet error enum.
pub fn error_marker() -> (s: &'static str)
    ensures
        s@ == spec_error_marker(),
{
    "pallet::error"
}

/// Attribute resolution: the flattened segments, joined with `::`, equal
/// the marker exactly.
pub open spec fn attr_resolves_to(attr: Seq<Seq<char>>, marker: Seq<char>) -> bool {
    spec_join_path(attr) == marker
}

/// True when any attribute of the set resolves to the marker.
pub open spec fn any_attr_resolves_to(attrs: Seq<Seq<Seq<char>>>, marker: Seq<char>) -> bool {
    exists|k: int| 0 <= k < attrs.len() && attr_resolves_to(#[trigger] attrs[k], marker)
}

/// Whether one attribute resolves to the given marker name.
pub fn has_pallet_constant(name: &str, attr: &AttrPath) -> (r: bool)
    ensures
        r == attr_resolves_to(attr@, name@),
{
    let joined = join_path(&attr.segments);
    str_eq(joined.as_str(), name)
}

/// Whether any attribute of the list resolves to the given marker name.
pub fn any_attr_matches(attrs: &Vec<AttrPath>, name: &str) -> (r: bool)
    ensures
        r == any_attr_resolves_to(attrs.deep_view(), name@),
{
    let mut i: usize = 0;
    while i < attrs.len()
        invariant
            i <= attrs@.len(),
            attrs.deep_view().len() == attrs@.len(),
            forall|k: int| 0 <= k < i ==> !attr_resolves_to(#[trigger] attrs.deep_view()[k], name@),
        decreases attrs@.len() - i,
    {
        if has_pallet_constant(name, &attrs[i]) {
            assert(attrs.deep_view()[i as int] == attrs@[i as int]@);
            return true;
        }
        assert(attrs.deep_view()[i as int] == attrs@[i as int]@);
        i += 1;
    }
    false
}

/// One storage finding: a type alias with its own visibility qualifier.
#[derive(Debug)]
pub struct StorageDef {
    pub name: String,
    pub is_public: bool,
}

/// Mathematical model of a [`StorageDef`].
#[verifier::ext_equal]
pub struct StorageDefView {
    pub name: Seq<char>,
    pub is_public: bool,
}

impl View for StorageDef {
    type V = StorageDefView;

    open spec fn view(&self) -> StorageDefView {
        StorageDefView { name: self.name@, is_public: self.is_public }
    }
}

impl DeepView for StorageDef {
    type V = StorageDefView;

    open spec fn deep_view(&self) -> StorageDefView {
        self.view()
    }
}

/// The raw findings of one traversal, per element kind, in traversal
/// order.
#[verifier::ext_equal]
pub struct FindingsView {
    pub functions: Seq<FunctionDefView>,
    pub storage_items: Seq<StorageDefView>,
    pub constants: Seq<Seq<char>>,
    pub events: Seq<Seq<char>>,
    pub errors: Seq<Seq<char>>,
}

impl FindingsView {
    /// No findings at all.
    pub open spec fn empty() -> FindingsView {
        FindingsView {
            functions: Seq::empty(),
            storage_items: Seq::empty(),
            constants: Seq::empty(),
            events: Seq::empty(),
            errors: Seq::empty(),
        }
    }

    /// Findings of two traversal parts, one after the other.
    pub open spec fn concat(self, other: FindingsView) -> FindingsView {
        FindingsView {
            functions: self.functions + other.functions,
            storage_items: self.storage_items + other.storage_items,
            constants: self.constants + other.constants,
            events: self.events + other.events,
            errors: self.errors + other.errors,
        }
    }
}

/// Concatenating no findings changes nothing.
pub proof fn lemma_concat_empty(a: FindingsView)
    ensures
        a.concat(FindingsView::empty()) == a,
        FindingsView::empty().concat(a) == a,
{
    assert(a.concat(FindingsView::empty()) =~~= a);
    assert(FindingsView::empty().concat(a) =~~= a);
}

/// Concatenation of findings is associative.
pub proof fn lemma_concat_assoc(a: FindingsView, b: FindingsView, c: FindingsView)
    ensures
        a.concat(b).concat(c) == a.concat(b.concat(c)),
{
    assert(a.concat(b).concat(c) =~~= a.concat(b.concat(c)));
}

/// Whether a direct module item is a storage declaration: a type alias
/// carrying at least one attribute.
pub open spec fn is_storage_alias(it: SourceItemView) -> bool {
    &&& it is TypeAlias
    &&& it->TypeAlias_def.attrs.len() > 0
}

/// The storage-declaration test, as a function value for `filter`.
pub open spec fn storage_alias_pred() -> spec_fn(SourceItemView) -> bool {
    |it: SourceItemView| is_storage_alias(it)
}

/// The storage finding a type-alias item yields.
pub open spec fn storage_of_alias(it: SourceItemView) -> StorageDefView {
    StorageDefView { name: it->TypeAlias_def.name, is_public: it->TypeAlias_def.is_public }
}

/// The storage-finding constructor, as a function value for `map_values`.
pub open spec fn storage_alias_map() -> spec_fn(SourceItemView) -> StorageDefView {
    |it: SourceItemView| storage_of_alias(it)
}

/// The storage declarations among the direct items of a pallet module.
pub open spec fn direct_storage(items: Seq<SourceItemView>) -> Seq<StorageDefView> {
    items.filter(storage_alias_pred()).map_values(storage_alias_map())
}

/// The storage findings a module yields directly: its direct storage
/// declarations when it is the pallet module, nothing otherwise.
pub open spec fn module_direct_findings(name: Seq<char>, items: Seq<SourceItemView>) -> FindingsView {
    if name == spec_pallet_module_marker() {
        FindingsView { storage_items: direct_storage(items), ..FindingsView::empty() }
    } else {
        FindingsView::empty()
    }
}

/// Whether an associated type is marked as a pallet constant.
pub open spec fn is_constant_assoc(t: AssocTypeDefView) -> bool {
    any_attr_resolves_to(t.attrs, spec_constant_marker())
}

/// The constant-marker test, as a function value for `filter`.
pub open spec fn constant_assoc_pred() -> spec_fn(AssocTypeDefView) -> bool {
    |t: AssocTypeDefView| is_constant_assoc(t)
}

/// The identifier of an associated type, as a function value for
/// `map_values`.
pub open spec fn assoc_name_map() -> spec_fn(AssocTypeDefView) -> Seq<char> {
    |t: AssocTypeDefView| t.name
}

/// The constants a trait yields: the identifiers of its marked associated
/// types.
pub open spec fn trait_constants(assoc_types: Seq<AssocTypeDefView>) -> Seq<Seq<char>> {
    assoc_types.filter(constant_assoc_pred()).map_values(assoc_name_map())
}

/// The findings an enum yields: one event per variant when its attributes
/// resolve to the event marker, otherwise one error per variant when they
/// resolve to the error marker.
pub open spec fn enum_findings(attrs: Seq<Seq<Seq<char>>>, variants: Seq<Seq<char>>) -> FindingsView {
    if any_attr_resolves_to(attrs, spec_event_marker()) {
        FindingsView { events: variants, ..FindingsView::empty() }
    } else if any_attr_resolves_to(attrs, spec_error_marker()) {
        FindingsView { errors: variants, ..FindingsView::empty() }
    } else {
        FindingsView::empty()
    }
}

/// The findings of one source item, nested modules traversed in full.
pub open spec fn item_findings(item: SourceItemView) -> FindingsView
    decreases item,
{
    match item {
        SourceItemView::Impl { methods } => FindingsView {
            functions: methods,
            ..FindingsView::empty()
        },
        SourceItemView::Module { name, items } => module_direct_findings(name, items).concat(
            items_findings(items),
        ),
        SourceItemView::TypeAlias { def } => FindingsView::empty(),
        SourceItemView::Trait { assoc_types } => FindingsView {
            constants: trait_constants(assoc_types),
            ..FindingsView::empty()
        },
        SourceItemView::Enum { attrs, variants } => enum_findings(attrs, variants),
        SourceItemView::Other => FindingsView::empty(),
    }
}

/// The findings of a list of source items, in order.
pub open spec fn items_findings(items: Seq<SourceItemView>) -> FindingsView
    decreases items,
{
    if items.len() == 0 {
        FindingsView::empty()
    } else {
        items_findings(items.drop_last()).concat(item_findings(items.last()))
    }
}

/// Appending an item appends its findings.
pub proof fn lemma_items_findings_push(items: Seq<SourceItemView>, it: SourceItemView)
    ensures
        items_findings(items.push(it)) == items_findings(items).concat(item_findings(it)),
{
    assert(items.push(it).drop_last() =~~= items);
    assert(items.push(it).last() == it);
}

/// The unified visitor, collecting all relevant pallet items.
#[derive(Debug)]
pub struct PalletVisitor {
    /// Member functions of implementation blocks.
    pub functions: Vec<FunctionDef>,
    /// Storage declarations of the pallet module.
    pub storage_items: Vec<StorageDef>,
    /// Constant identifiers from marked trait associated types.
    pub constants: Vec<String>,
    /// Event identifiers from the marked event enum.
    pub events: Vec<String>,
    /// Error identifiers from the marked error enum.
    pub errors: Vec<String>,
}

impl View for PalletVisitor {
    type V = FindingsView;

    open spec fn view(&self) -> FindingsView {
        FindingsView {
            functions: self.functions.deep_view(),
            storage_items: self.storage_items.deep_view(),
            constants: self.constants.deep_view(),
            events: self.events.deep_view(),
            errors: self.errors.deep_view(),
        }
    }
}

impl PalletVisitor {
    /// A visitor with no findings yet.
    pub fn new() -> (v: PalletVisitor)
        ensures
            v@ == FindingsView::empty(),
    {
        let v = PalletVisitor {
            functions: Vec::new(),
            storage_items: Vec::new(),
            constants: Vec::new(),
            events: Vec::new(),
            errors: Vec::new(),
        };
        proof {
            assert(v@ =~~= FindingsView::empty());
        }
        v
    }

    /// Records every member function of one implementation block.
    pub fn visit_item_impl(&mut self, methods: &Vec<FunctionDef>)
        ensures
            final(self)@ == old(self)@.concat(
                FindingsView { functions: methods.deep_view(), ..FindingsView::empty() },
            ),
    {
        let ghost orig: FindingsView = self@;
        let mut i: usize = 0;
        while i < methods.len()
            invariant
                i <= methods@.len(),
                methods.deep_view().len() == methods@.len(),
                self.functions.deep_view() =~~= orig.functions + methods.deep_view().take(i as int),
                self.storage_items == old(self).storage_items,
                self.constants == old(self).constants,
                self.events == old(self).events,
                self.errors == old(self).errors,
                orig == old(self)@,
            decreases methods@.len() - i,
        {
            let m = &methods[i];
            let def = FunctionDef {
                name: m.name.clone(),
                is_public: m.is_public,
                params: crate::assets::clone_params(&m.params),
            };
            assert(def@ =~~= methods.deep_view()[i as int]);
            let ghost top: Seq<FunctionDefView> = self.functions.deep_view();
            assert(top == orig.functions + methods.deep_view().take(i as int));
            self.functions.push(def);
            proof {
                lemma_take_push(methods.deep_view(), i as int);
                assert(self.functions.deep_view() =~~= top.push(methods.deep_view()[i as int]));
                assert(self.functions.deep_view() =~~= orig.functions + methods.deep_view().take(
                    i + 1,
                ));
            }
            i += 1;
        }
        proof {
            lemma_take_all(methods.deep_view());
            assert(final(self)@ =~~= old(self)@.concat(
                FindingsView { functions: methods.deep_view(), ..FindingsView::empty() },
            ));
        }
    }

    /// Records the direct storage declarations of one module: when the
    /// module is the pallet module, every direct type alias that carries
    /// any attribute, with its own visibility. Traversal into the module's
    /// items happens separately in [`PalletVisitor::visit_item`].
    pub fn visit_item_mod(&mut self, name: &String, items: &Vec<SourceItem>)
        ensures
            final(self)@ == old(self)@.concat(module_direct_findings(name@, items_view(items@))),
    {
        if !str_eq(name.as_str(), pallet_module_marker()) {
            proof {
                lemma_concat_empty(old(self)@);
            }
            return ;
        }
        let ghost itemsv: Seq<SourceItemView> = items_view(items@);
        let ghost orig: FindingsView = self@;
        proof {
            lemma_items_view_len(items@);
        }
        let mut i: usize = 0;
        while i < items.len()
            invariant
                i <= items@.len(),
                itemsv == items_view(items@),
                itemsv.len() == items@.len(),
                self.storage_items.deep_view() =~~= orig.storage_items + direct_storage(
                    itemsv.take(i as int),
                ),
                self.functions == old(self).functions,
                self.constants == old(self).constants,
                self.events == old(self).events,
                self.errors == old(self).errors,
                orig == old(self)@,
            decreases items@.len() - i,
        {
            proof {
                lemma_items_view_index(items@, i as int);
                lemma_take_push(itemsv, i as int);
                lemma_filter_map_push(
                    itemsv.take(i as int),
                    storage_alias_pred(),
                    storage_alias_map(),
                    itemsv[i as int],
                );
            }
            match &items[i] {
                SourceItem::TypeAlias { def } => {
                    if def.attrs.len() > 0 {
                        assert(is_storage_alias(itemsv[i as int]));
                        let sd = StorageDef { name: def.name.clone(), is_public: def.is_public };
                        assert(sd@ == storage_of_alias(itemsv[i as int]));
                        let ghost top: Seq<StorageDefView> = self.storage_items.deep_view();
                        assert(top == orig.storage_items + direct_storage(itemsv.take(i as int)));
                        self.storage_items.push(sd);
                        proof {
                            assert(self.storage_items.deep_view() =~~= top.push(
                                storage_of_alias(itemsv[i as int]),
                            ));
                            assert(self.storage_items.deep_view() =~~= orig.storage_items
                                + direct_storage(itemsv.take(i + 1)));
                        }
                    } else {
                        assert(!is_storage_alias(itemsv[i as int]));
                    }
                },
                _ => {
                    assert(!is_storage_alias(itemsv[i as int]));
                },
            }
            i += 1;
        }
        proof {
            lemma_take_all(itemsv);
            assert(final(self)@ =~~= old(self)@.concat(
                module_direct_findings(name@, items_view(items@)),
            ));
        }
    }

    /// Records every associated type of one trait whose attribute set
    /// contains one resolving to the constant marker.
    pub fn visit_item_trait(&mut self, assoc_types: &Vec<AssocTypeDef>)
        ensures
            final(self)@ == old(self)@.concat(
                FindingsView {
                    constants: trait_constants(assoc_types.deep_view()),
                    ..FindingsView::empty()
                },
            ),
    {
        let ghost typesv: Seq<AssocTypeDefView> = assoc_types.deep_view();
        let ghost orig: FindingsView = self@;
        let mut i: usize = 0;
        while i < assoc_types.len()
            invariant
                i <= assoc_types@.len(),
                typesv == assoc_types.deep_view(),
                typesv.len() == assoc_types@.len(),
                self.constants.deep_view() =~~= orig.constants + trait_constants(
                    typesv.take(i as int),
                ),
                self.functions == old(self).functions,
                self.storage_items == old(self).storage_items,
                self.events == old(self).events,
                self.errors == old(self).errors,
                orig == old(self)@,
            decreases assoc_types@.len() - i,
        {
            proof {
                lemma_take_push(typesv, i as int);
                lemma_filter_map_push(
                    typesv.take(i as int),
                    constant_assoc_pred(),
                    assoc_name_map(),
                    typesv[i as int],
                );
            }
            let t = &assoc_types[i];
            assert(t@ == typesv[i as int]);
            if any_attr_matches(&t.attrs, constant_marker()) {
                assert(is_constant_assoc(typesv[i as int]));
                let ghost top: Seq<Seq<char>> = self.constants.deep_view();
                assert(top == orig.constants + trait_constants(typesv.take(i as int)));
                self.constants.push(t.name.clone());
                proof {
                    assert(self.constants.deep_view() =~~= top.push(typesv[i as int].name));
                    assert(self.constants.deep_view() =~~= orig.constants + trait_constants(
                        typesv.take(i + 1),
                    ));
                }
            } else {
                assert(!is_constant_assoc(typesv[i as int]));
            }
            i += 1;
        }
        proof {
            lemma_take_all(typesv);
            assert(final(self)@ =~~= old(self)@.concat(
                FindingsView {
                    constants: trait_constants(assoc_types.deep_view()),
                    ..FindingsView::empty()
                },
            ));
        }
    }

    /// Records the variants of one enum as events when its attributes
    /// resolve to the event marker, otherwise as errors when they resolve
    /// to the error marker.
    pub fn visit_item_enum(&mut self, attrs: &Vec<AttrPath>, variants: &Vec<String>)
        ensures
            final(self)@ == old(self)@.concat(
                enum_findings(attrs.deep_view(), variants.deep_view()),
            ),
    {
        let is_event = any_attr_matches(attrs, event_marker());
        let is_error = any_attr_matches(attrs, error_marker());
        let ghost orig: FindingsView = self@;
        if is_event {
            let mut i: usize = 0;
            while i < variants.len()
                invariant
                    i <= variants@.len(),
                    variants.deep_view().len() == variants@.len(),
                    self.events.deep_view() =~~= orig.events + variants.deep_view().take(i as int),
                    self.functions == old(self).functions,
                    self.storage_items == old(self).storage_items,
                    self.constants == old(self).constants,
                    self.errors == old(self).errors,
                    orig == old(self)@,
                decreases variants@.len() - i,
            {
                let ghost top: Seq<Seq<char>> = self.events.deep_view();
                assert(top == orig.events + variants.deep_view().take(i as int));
                self.events.push(variants[i].clone());
                proof {
                    lemma_take_push(variants.deep_view(), i as int);
                    assert(self.events.deep_view() =~~= top.push(variants.deep_view()[i as int]));
                    assert(self.events.deep_view() =~~= orig.events + variants.deep_view().take(
                        i + 1,
                    ));
                }
                i += 1;
            }
            proof {
                lemma_take_all(variants.deep_view());
                assert(final(self)@ =~~= old(self)@.concat(
                    enum_findings(attrs.deep_view(), variants.deep_view()),
                ));
            }
        } else if is_error {
            let mut i: usize = 0;
            while i < variants.len()
                invariant
                    i <= variants@.len(),
                    variants.deep_view().len() == variants@.len(),
                    self.errors.deep_view() =~~= orig.errors + variants.deep_view().take(i as int),
                    self.functions == old(self).functions,
                    self.storage_items == old(self).storage_items,
                    self.constants == old(self).constants,
                    self.events == old(self).events,
                    orig == old(self)@,
                decreases variants@.len() - i,
            {
                let ghost top: Seq<Seq<char>> = self.errors.deep_view();
                assert(top == orig.errors + variants.deep_view().take(i as int));
                self.errors.push(variants[i].clone());
                proof {
                    lemma_take_push(variants.deep_view(), i as int);
                    assert(self.errors.deep_view() =~~= top.push(variants.deep_view()[i as int]));
                    assert(self.errors.deep_view() =~~= orig.errors + variants.deep_view().take(
                        i + 1,
                    ));
                }
                i += 1;
            }
            proof {
                lemma_take_all(variants.deep_view());
                assert(final(self)@ =~~= old(self)@.concat(
                    enum_findings(attrs.deep_view(), variants.deep_view()),
                ));
            }
        } else {
            proof {
                lemma_concat_empty(old(self)@);
            }
        }
    }

    /// Visits one source item, recursing into nested modules.
    pub fn visit_item(&mut self, item: &SourceItem)
        ensures
            final(self)@ == old(self)@.concat(item_findings(item@)),
        decreases *item,
    {
        match item {
            SourceItem::Impl { methods } => {
                self.visit_item_impl(methods);
            },
            SourceItem::Module { name, items } => {
                self.visit_item_mod(name, items);
                let ghost itemsv: Seq<SourceItemView> = items_view(items@);
                let ghost direct: FindingsView = module_direct_findings(name@, itemsv);
                let ghost orig: FindingsView = old(self)@;
                proof {
                    lemma_items_view_len(items@);
                }
                let mut j: usize = 0;
                while j < items.len()
                    invariant
                        j <= items@.len(),
                        itemsv == items_view(items@),
                        itemsv.len() == items@.len(),
                        *item is Module,
                        *items == item->Module_items,
                        self@ == orig.concat(direct).concat(items_findings(itemsv.take(j as int))),
                    decreases items@.len() - j,
                {
                    proof {
                        lemma_items_view_index(items@, j as int);
                        assert(decreases_to!(*item => item->Module_items));
                        assert(decreases_to!(item->Module_items => item->Module_items@));
                        assert(decreases_to!(item->Module_items@ => item->Module_items@[j as int]));
                        assert(item->Module_items@[j as int] == items@[j as int]);
                        assert(decreases_to!(*item => items@[j as int]));
                    }
                    self.visit_item(&items[j]);
                    proof {
                        lemma_take_push(itemsv, j as int);
                        lemma_items_findings_push(itemsv.take(j as int), itemsv[j as int]);
                        lemma_concat_assoc(
                            orig.concat(direct),
                            items_findings(itemsv.take(j as int)),
                            item_findings(itemsv[j as int]),
                        );
                    }
                    j += 1;
                }
                proof {
                    lemma_take_all(itemsv);
                    lemma_concat_assoc(orig, direct, items_findings(itemsv));
                }
            },
            SourceItem::TypeAlias { def } => {
                proof {
                    lemma_concat_empty(old(self)@);
                }
            },
            SourceItem::Trait { assoc_types } => {
                self.visit_item_trait(assoc_types);
            },
            SourceItem::Enum { attrs, variants } => {
                self.visit_item_enum(attrs, variants);
            },
            SourceItem::Other => {
                proof {
                    lemma_concat_empty(old(self)@);
                }
            },
        }
    }

    /// Visits all items of one source file, in order.
    pub fn visit_file(&mut self, file: &SourceFile)
        ensures
            final(self)@ == old(self)@.concat(items_findings(file@)),
    {
        let ghost itemsv: Seq<SourceItemView> = items_view(file.items@);
        let ghost orig: FindingsView = old(self)@;
        proof {
            lemma_items_view_len(file.items@);
        }
        let mut j: usize = 0;
        while j < file.items.len()
            invariant
                j <= file.items@.len(),
                itemsv == items_view(file.items@),
                itemsv.len() == file.items@.len(),
                self@ == orig.concat(items_findings(itemsv.take(j as int))),
            decreases file.items@.len() - j,
        {
            proof {
                lemma_items_view_index(file.items@, j as int);
            }
            self.visit_item(&file.items[j]);
            proof {
                lemma_take_push(itemsv, j as int);
                lemma_items_findings_push(itemsv.take(j as int), itemsv[j as int]);
                lemma_concat_assoc(
                    orig,
                    items_findings(itemsv.take(j as int)),
                    item_findings(itemsv[j as int]),
                );
            }
            j += 1;
        }
        proof {
            lemma_take_all(itemsv);
        }
    }
}

} // verus!
