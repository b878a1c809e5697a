//! The builder-node tree: a partially-specified configuration.
//!
//! A node mirrors the shape of the configuration it builds.  A record node
//! holds one field per configuration field; a choice node holds a selector
//! and one sub-builder per named variant.

use vstd::prelude::*;
use crate::value::{ScalarKind, Value, ValueModel, kind_of, opt_value_model, opt_has_kind};

verus! {

/// Partial value of an optional scalar field: nothing said, explicitly
/// absent, or explicitly present.
#[derive(Debug, PartialEq)]
pub enum OptValue {
    Unset,
    Absent,
    Present(Value),
}

/// Partial value of one field, together with its declaration.
#[derive(Debug, PartialEq)]
#[allow(inconsistent_fields)]
pub enum FieldState {
    Scalar { kind: ScalarKind, default: Option<Value>, value: Option<Value> },
    Optional { kind: ScalarKind, default: Option<Value>, value: OptValue },
    Nested { child: Box<Node> },
    OptionalNested { child: Box<Node> },
}

/// A named field of a record node.
#[derive(Debug, PartialEq)]
pub struct Field {
    pub name: String,
    pub state: FieldState,
}

/// A named variant of a choice node; the name is its canonical snake_case
/// form.
#[derive(Debug, PartialEq)]
pub struct Variant {
    pub name: String,
    pub child: Box<Node>,
}

/// A builder node: a partially-specified configuration value.
#[derive(Debug, PartialEq)]
pub enum Node {
    Record { fields: Vec<Field> },
    Choice { selector: Option<String>, variants: Vec<Variant> },
}

#[verifier::ext_equal]
pub enum OptValueModel {
    Unset,
    Absent,
    Present(ValueModel),
}

#[verifier::ext_equal]
#[allow(inconsistent_fields)]
pub enum FieldStateModel {
    Scalar { kind: ScalarKind, default: Option<ValueModel>, value: Option<ValueModel> },
    Optional { kind: ScalarKind, default: Option<ValueModel>, value: OptValueModel },
    Nested { child: Box<NodeModel> },
    OptionalNested { child: Box<NodeModel> },
}

#[verifier::ext_equal]
pub struct FieldModel {
    pub name: Seq<char>,
    pub state: FieldStateModel,
}

#[verifier::ext_equal]
pub struct VariantModel {
    pub name: Seq<char>,
    pub child: Box<NodeModel>,
}

#[verifier::ext_equal]
pub enum NodeModel {
    Record { fields: Seq<FieldModel> },
    Choice { selector: Option<Seq<char>>, variants: Seq<VariantModel> },
}

pub open spec fn opt_str_model(o: Option<String>) -> Option<Seq<char>> {
    match o {
        Option::Some(s) => Option::Some(s@),
        Option::None => Option::None,
    }
}

pub open spec fn opt_value_view(o: OptValue) -> OptValueModel {
    match o {
        OptValue::Unset => OptValueModel::Unset,
        OptValue::Absent => OptValueModel::Absent,
        OptValue::Present(v) => OptValueModel::Present(v@),
    }
}

pub open spec fn state_model(s: FieldState) -> FieldStateModel
    decreases s,
{
    match s {
        FieldState::Scalar { kind, default, value } => FieldStateModel::Scalar {
            kind,
            default: opt_value_model(default),
            value: opt_value_model(value),
        },
        FieldState::Optional { kind, default, value } => FieldStateModel::Optional {
            kind,
            default: opt_value_model(default),
            value: opt_value_view(value),
        },
        FieldState::Nested { child } => FieldStateModel::Nested {
            child: Box::new(node_model(*child)),
        },
        FieldState::OptionalNested { child } => FieldStateModel::OptionalNested {
            child: Box::new(node_model(*child)),
        },
    }
}

pub open spec fn field_model(f: Field) -> FieldModel
    decreases f,
{
    FieldModel { name: f.name@, state: state_model(f.state) }
}

pub open spec fn fields_model(fs: Seq<Field>) -> Seq<FieldModel>
    decreases fs,
{
    if fs.len() == 0 {
        Seq::empty()
    } else {
        seq![field_model(fs[0])] + fields_model(fs.drop_first())
    }
}

pub open spec fn variant_model(v: Variant) -> VariantModel
    decreases v,
{
    VariantModel { name: v.name@, child: Box::new(node_model(*v.child)) }
}

pub open spec fn variants_model(vs: Seq<Variant>) -> Seq<VariantModel>
    decreases vs,
{
    if vs.len() == 0 {
        Seq::empty()
    } else {
        seq![variant_model(vs[0])] + variants_model(vs.drop_first())
    }
}

pub open spec fn node_model(n: Node) -> NodeModel
    decreases n,
{
    match n {
        Node::Record { fields } => NodeModel::Record { fields: fields_model(fields@) },
        Node::Choice { selector, variants } => NodeModel::Choice {
            selector: opt_str_model(selector),
            variants: variants_model(variants@),
        },
    }
}

impl View for OptValue {
    type V = OptValueModel;

    open spec fn view(&self) -> OptValueModel {
        opt_value_view(*self)
    }
}

impl Clone for OptValue {
    fn clone(&self) -> (r: OptValue)
        ensures
            r@ == self@,
    {
        match self {
            OptValue::Unset => OptValue::Unset,
            OptValue::Absent => OptValue::Absent,
            OptValue::Present(v) => OptValue::Present(v.clone()),
        }
    }
}

impl View for FieldState {
    type V = FieldStateModel;

    open spec fn view(&self) -> FieldStateModel {
        state_model(*self)
    }
}

impl View for Field {
    type V = FieldModel;

    open spec fn view(&self) -> FieldModel {
        field_model(*self)
    }
}

impl View for Variant {
    type V = VariantModel;

    open spec fn view(&self) -> VariantModel {
        variant_model(*self)
    }
}

impl View for Node {
    type V = NodeModel;

    open spec fn view(&self) -> NodeModel {
        node_model(*self)
    }
}

pub broadcast proof fn lemma_fields_model_len(fs: Seq<Field>)
    ensures
        (#[trigger] fields_model(fs)).len() == fs.len(),
    decreases fs,
{
    if fs.len() > 0 {
        lemma_fields_model_len(fs.drop_first());
    }
}

pub broadcast proof fn lemma_fields_model_index(fs: Seq<Field>, i: int)
    requires
        0 <= i < fs.len(),
    ensures
        #[trigger] fields_model(fs)[i] == field_model(fs[i]),
    decreases fs,
{
    lemma_fields_model_len(fs);
    if i > 0 {
        lemma_fields_model_index(fs.drop_first(), i - 1);
    }
}

pub broadcast proof fn lemma_variants_model_len(vs: Seq<Variant>)
    ensures
        (#[trigger] variants_model(vs)).len() == vs.len(),
    decreases vs,
{
    if vs.len() > 0 {
        lemma_variants_model_len(vs.drop_first());
    }
}

pub broadcast proof fn lemma_variants_model_index(vs: Seq<Variant>, i: int)
    requires
        0 <= i < vs.len(),
    ensures
        #[trigger] variants_model(vs)[i] == variant_model(vs[i]),
    decreases vs,
{
    lemma_variants_model_len(vs);
    if i > 0 {
        lemma_variants_model_index(vs.drop_first(), i - 1);
    }
}

/// Height of a node tree; the termination measure for tree walks.
pub open spec fn node_height(n: NodeModel) -> nat
    decreases n,
{
    match n {
        NodeModel::Record { fields } => 1 + fields_height(fields),
        NodeModel::Choice { selector, variants } => 1 + variants_height(variants),
    }
}

pub open spec fn fields_height(fs: Seq<FieldModel>) -> nat
    decreases fs,
{
    if fs.len() == 0 {
        0
    } else {
        field_height(fs[0]) + fields_height(fs.drop_first())
    }
}

pub open spec fn field_height(f: FieldModel) -> nat
    decreases f,
{
    match f.state {
        FieldStateModel::Scalar { .. } => 1,
        FieldStateModel::Optional { .. } => 1,
        FieldStateModel::Nested { child } => 1 + node_height(*child),
        FieldStateModel::OptionalNested { child } => 1 + node_height(*child),
    }
}

pub open spec fn variants_height(vs: Seq<VariantModel>) -> nat
    decreases vs,
{
    if vs.len() == 0 {
        0
    } else {
        variant_height(vs[0]) + variants_height(vs.drop_first())
    }
}

pub open spec fn variant_height(v: VariantModel) -> nat
    decreases v,
{
    1 + node_height(*v.child)
}

pub proof fn lemma_fields_height_index(fs: Seq<FieldModel>, i: int)
    requires
        0 <= i < fs.len(),
    ensures
        field_height(fs[i]) <= fields_height(fs),
    decreases fs,
{
    if i > 0 {
        lemma_fields_height_index(fs.drop_first(), i - 1);
    }
}

pub proof fn lemma_variants_height_index(vs: Seq<VariantModel>, i: int)
    requires
        0 <= i < vs.len(),
    ensures
        variant_height(vs[i]) <= variants_height(vs),
    decreases vs,
{
    if i > 0 {
        lemma_variants_height_index(vs.drop_first(), i - 1);
    }
}

/// Values and defaults of every scalar field belong to the field's declared
/// kind, throughout the tree.
pub open spec fn node_wf(n: NodeModel) -> bool
    decreases n,
{
    match n {
        NodeModel::Record { fields } => fields_wf(fields),
        NodeModel::Choice { selector, variants } => variants_wf(variants),
    }
}

pub open spec fn fields_wf(fs: Seq<FieldModel>) -> bool
    decreases fs,
{
    if fs.len() == 0 {
        true
    } else {
        field_wf(fs[0]) && fields_wf(fs.drop_first())
    }
}

pub open spec fn field_wf(f: FieldModel) -> bool
    decreases f,
{
    state_wf(f.state)
}

pub open spec fn state_wf(s: FieldStateModel) -> bool
    decreases s,
{
    match s {
        FieldStateModel::Scalar { kind, default, value } => opt_has_kind(default, kind)
            && opt_has_kind(value, kind),
        FieldStateModel::Optional { kind, default, value } => opt_has_kind(default, kind) && (
        value matches OptValueModel::Present(v) ==> kind_of(v) == kind),
        FieldStateModel::Nested { child } => node_wf(*child),
        FieldStateModel::OptionalNested { child } => node_wf(*child),
    }
}

pub open spec fn variants_wf(vs: Seq<VariantModel>) -> bool
    decreases vs,
{
    if vs.len() == 0 {
        true
    } else {
        variant_wf(vs[0]) && variants_wf(vs.drop_first())
    }
}

pub open spec fn variant_wf(v: VariantModel) -> bool
    decreases v,
{
    node_wf(*v.child)
}

pub proof fn lemma_fields_model_push(fs: Seq<Field>, f: Field)
    ensures
        fields_model(fs.push(f)) =~= fields_model(fs).push(field_model(f)),
    decreases fs,
{
    assert(fs.push(f).len() == fs.len() + 1);
    if fs.len() == 0 {
        assert(fs.push(f)[0] == f);
        assert(fs.push(f).drop_first() =~= Seq::<Field>::empty());
        assert(fields_model(fs.push(f)) == seq![field_model(f)] + fields_model(fs.push(f).drop_first()));
    } else {
        assert(fs.push(f)[0] == fs[0]);
        assert(fs.push(f).drop_first() =~= fs.drop_first().push(f));
        lemma_fields_model_push(fs.drop_first(), f);
        assert(fields_model(fs.push(f)) == seq![field_model(fs[0])] + fields_model(fs.drop_first().push(f)));
    }
}

pub proof fn lemma_variants_model_push(fs: Seq<Variant>, f: Variant)
    ensures
        variants_model(fs.push(f)) =~= variants_model(fs).push(variant_model(f)),
    decreases fs,
{
    assert(fs.push(f).len() == fs.len() + 1);
    if fs.len() == 0 {
        assert(fs.push(f)[0] == f);
        assert(fs.push(f).drop_first() =~= Seq::<Variant>::empty());
        assert(variants_model(fs.push(f)) == seq![variant_model(f)] + variants_model(fs.push(f).drop_first()));
    } else {
        assert(fs.push(f)[0] == fs[0]);
        assert(fs.push(f).drop_first() =~= fs.drop_first().push(f));
        lemma_variants_model_push(fs.drop_first(), f);
        assert(variants_model(fs.push(f)) == seq![variant_model(fs[0])] + variants_model(fs.drop_first().push(f)));
    }
}

pub proof fn lemma_fields_model_update(fs: Seq<Field>, i: int, f: Field)
    requires
        0 <= i < fs.len(),
    ensures
        fields_model(fs.update(i, f)) =~= fields_model(fs).update(i, field_model(f)),
    decreases fs,
{
    lemma_fields_model_len(fs);
    lemma_fields_model_len(fs.update(i, f));
    if i == 0 {
        assert(fs.update(0, f)[0] == f);
        assert(fs.update(0, f).drop_first() =~= fs.drop_first());
        assert(fields_model(fs.update(0, f)) == seq![field_model(f)] + fields_model(
            fs.update(0, f).drop_first(),
        ));
        assert forall|j: int| 0 <= j < fs.len() implies fields_model(fs.update(0, f))[j]
            == fields_model(fs).update(0, field_model(f))[j] by {
            if j > 0 {
                lemma_fields_model_index(fs, j);
                lemma_fields_model_index(fs.update(0, f), j);
                assert(fs.update(0, f)[j] == fs[j]);
            }
        }
    } else {
        assert(fs.update(i, f)[0] == fs[0]);
        assert(fs.update(i, f).drop_first() =~= fs.drop_first().update(i - 1, f));
        lemma_fields_model_update(fs.drop_first(), i - 1, f);
        assert(fields_model(fs.update(i, f)) == seq![field_model(fs[0])] + fields_model(
            fs.drop_first().update(i - 1, f),
        ));
        assert forall|j: int| 0 <= j < fs.len() implies fields_model(fs.update(i, f))[j]
            == fields_model(fs).update(i, field_model(f))[j] by {
            lemma_fields_model_index(fs, j);
            lemma_fields_model_index(fs.update(i, f), j);
            assert(fs.update(i, f)[j] == if j == i { f } else { fs[j] });
        }
    }
}

pub proof fn lemma_variants_model_update(vs: Seq<Variant>, i: int, v: Variant)
    requires
        0 <= i < vs.len(),
    ensures
        variants_model(vs.update(i, v)) =~= variants_model(vs).update(i, variant_model(v)),
    decreases vs,
{
    lemma_variants_model_len(vs);
    lemma_variants_model_len(vs.update(i, v));
    assert forall|j: int| 0 <= j < vs.len() implies variants_model(vs.update(i, v))[j]
        == variants_model(vs).update(i, variant_model(v))[j] by {
        lemma_variants_model_index(vs, j);
        lemma_variants_model_index(vs.update(i, v), j);
        assert(vs.update(i, v)[j] == if j == i { v } else { vs[j] });
    }
}

} // verus!
