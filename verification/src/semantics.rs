//! The meaning of every builder operation, as functions over node models:
//! emptiness, schema, defaults, left-biased merge, the missing-field pass,
//! and finalization.

use vstd::prelude::*;
use vstd::pervasive::arbitrary;
use crate::node::{FieldModel, FieldStateModel, NodeModel, OptValueModel, VariantModel};
use crate::config::{ConfigModel, EntryModel, EntryValueModel};
use crate::value::{ScalarKind, ValueModel};

verus! {

// ---------------------------------------------------------------------------
// Emptiness: no leaf anywhere says anything.
// ---------------------------------------------------------------------------
/// A record is empty iff every field is; a choice is empty iff no variant is
/// selected, whatever its sub-builders hold.
pub open spec fn node_is_empty(n: NodeModel) -> bool
    decreases n,
{
    match n {
        NodeModel::Record { fields } => fields_empty(fields),
        NodeModel::Choice { selector, .. } => selector is None,
    }
}

pub open spec fn fields_empty(fs: Seq<FieldModel>) -> bool
    decreases fs,
{
    if fs.len() == 0 {
        true
    } else {
        field_empty(fs[0]) && fields_empty(fs.drop_first())
    }
}

pub open spec fn field_empty(f: FieldModel) -> bool
    decreases f,
{
    match f.state {
        FieldStateModel::Scalar { value, .. } => value is None,
        FieldStateModel::Optional { value, .. } => !(value is Present),
        FieldStateModel::Nested { child } => node_is_empty(*child),
        FieldStateModel::OptionalNested { child } => node_is_empty(*child),
    }
}

// ---------------------------------------------------------------------------
// Schema: the node with every partial value cleared.  Two nodes can merge
// exactly when their schemas agree.
// ---------------------------------------------------------------------------
pub open spec fn node_schema(n: NodeModel) -> NodeModel
    decreases n,
{
    match n {
        NodeModel::Record { fields } => NodeModel::Record { fields: fields_schema(fields) },
        NodeModel::Choice { selector, variants } => NodeModel::Choice {
            selector: Option::None,
            variants: variants_schema(variants),
        },
    }
}

pub open spec fn fields_schema(fs: Seq<FieldModel>) -> Seq<FieldModel>
    decreases fs,
{
    if fs.len() == 0 {
        Seq::empty()
    } else {
        seq![field_schema(fs[0])] + fields_schema(fs.drop_first())
    }
}

pub open spec fn field_schema(f: FieldModel) -> FieldModel
    decreases f,
{
    FieldModel { name: f.name, state: state_schema(f.state) }
}

pub open spec fn state_schema(s: FieldStateModel) -> FieldStateModel
    decreases s,
{
    match s {
        FieldStateModel::Scalar { kind, default, value } => FieldStateModel::Scalar {
            kind,
            default,
            value: Option::None,
        },
        FieldStateModel::Optional { kind, default, value } => FieldStateModel::Optional {
            kind,
            default,
            value: OptValueModel::Unset,
        },
        FieldStateModel::Nested { child } => FieldStateModel::Nested {
            child: Box::new(node_schema(*child)),
        },
        FieldStateModel::OptionalNested { child } => FieldStateModel::OptionalNested {
            child: Box::new(node_schema(*child)),
        },
    }
}

pub open spec fn variants_schema(vs: Seq<VariantModel>) -> Seq<VariantModel>
    decreases vs,
{
    if vs.len() == 0 {
        Seq::empty()
    } else {
        seq![variant_schema(vs[0])] + variants_schema(vs.drop_first())
    }
}

pub open spec fn variant_schema(v: VariantModel) -> VariantModel
    decreases v,
{
    VariantModel { name: v.name, child: Box::new(node_schema(*v.child)) }
}

// ---------------------------------------------------------------------------
// Defaults: the builder seeded from declared defaults alone.  Optional
// scalars without a declared default become explicitly absent; optional
// nested children stay entirely unset.
// ---------------------------------------------------------------------------
pub open spec fn node_defaults(n: NodeModel) -> NodeModel
    decreases n,
{
    match n {
        NodeModel::Record { fields } => NodeModel::Record { fields: fields_defaults(fields) },
        NodeModel::Choice { selector, variants } => NodeModel::Choice {
            selector: Option::None,
            variants: variants_defaults(variants),
        },
    }
}

pub open spec fn fields_defaults(fs: Seq<FieldModel>) -> Seq<FieldModel>
    decreases fs,
{
    if fs.len() == 0 {
        Seq::empty()
    } else {
        seq![field_defaults(fs[0])] + fields_defaults(fs.drop_first())
    }
}

pub open spec fn field_defaults(f: FieldModel) -> FieldModel
    decreases f,
{
    FieldModel { name: f.name, state: state_defaults(f.state) }
}

pub open spec fn state_defaults(s: FieldStateModel) -> FieldStateModel
    decreases s,
{
    match s {
        FieldStateModel::Scalar { kind, default, value } => FieldStateModel::Scalar {
            kind,
            default,
            value: default,
        },
        FieldStateModel::Optional { kind, default, value } => FieldStateModel::Optional {
            kind,
            default,
            value: match default {
                Option::Some(v) => OptValueModel::Present(v),
                Option::None => OptValueModel::Absent,
            },
        },
        FieldStateModel::Nested { child } => FieldStateModel::Nested {
            child: Box::new(node_defaults(*child)),
        },
        FieldStateModel::OptionalNested { child } => FieldStateModel::OptionalNested {
            child: Box::new(node_schema(*child)),
        },
    }
}

pub open spec fn variants_defaults(vs: Seq<VariantModel>) -> Seq<VariantModel>
    decreases vs,
{
    if vs.len() == 0 {
        Seq::empty()
    } else {
        seq![variant_defaults(vs[0])] + variants_defaults(vs.drop_first())
    }
}

pub open spec fn variant_defaults(v: VariantModel) -> VariantModel
    decreases v,
{
    VariantModel { name: v.name, child: Box::new(node_defaults(*v.child)) }
}

// ---------------------------------------------------------------------------
// Merge: left-biased and field-by-field, recursing into nested children.
// ---------------------------------------------------------------------------
/// Left-biased choice between two partial values.
pub open spec fn combine_opt<A>(a: Option<A>, b: Option<A>) -> Option<A> {
    if a is Some {
        a
    } else {
        b
    }
}

/// Left-biased choice between two three-state values: only an unset left
/// side defers to the right; explicit absence wins like any other setting.
pub open spec fn combine_optval(a: OptValueModel, b: OptValueModel) -> OptValueModel {
    if a is Unset {
        b
    } else {
        a
    }
}

pub open spec fn combine_node(a: NodeModel, b: NodeModel) -> NodeModel
    decreases a,
{
    match (a, b) {
        (NodeModel::Record { fields: fa }, NodeModel::Record { fields: fb }) => NodeModel::Record {
            fields: combine_fields(fa, fb),
        },
        (
            NodeModel::Choice { selector: sa, variants: va },
            NodeModel::Choice { selector: sb, variants: vb },
        ) => NodeModel::Choice {
            selector: combine_opt(sa, sb),
            variants: combine_variants(va, vb),
        },
        _ => a,
    }
}

pub open spec fn combine_fields(fa: Seq<FieldModel>, fb: Seq<FieldModel>) -> Seq<FieldModel>
    decreases fa,
{
    if fa.len() == 0 || fb.len() == 0 {
        fa
    } else {
        seq![combine_field(fa[0], fb[0])] + combine_fields(fa.drop_first(), fb.drop_first())
    }
}

pub open spec fn combine_field(a: FieldModel, b: FieldModel) -> FieldModel
    decreases a,
{
    FieldModel { name: a.name, state: combine_state(a.state, b.state) }
}

pub open spec fn combine_state(a: FieldStateModel, b: FieldStateModel) -> FieldStateModel
    decreases a,
{
    match (a, b) {
        (
            FieldStateModel::Scalar { kind, default, value: va },
            FieldStateModel::Scalar { value: vb, .. },
        ) => FieldStateModel::Scalar { kind, default, value: combine_opt(va, vb) },
        (
            FieldStateModel::Optional { kind, default, value: va },
            FieldStateModel::Optional { value: vb, .. },
        ) => FieldStateModel::Optional { kind, default, value: combine_optval(va, vb) },
        (FieldStateModel::Nested { child: ca }, FieldStateModel::Nested { child: cb }) => {
            FieldStateModel::Nested { child: Box::new(combine_node(*ca, *cb)) }
        },
        (
            FieldStateModel::OptionalNested { child: ca },
            FieldStateModel::OptionalNested { child: cb },
        ) => FieldStateModel::OptionalNested { child: Box::new(combine_node(*ca, *cb)) },
        _ => a,
    }
}

pub open spec fn combine_variants(va: Seq<VariantModel>, vb: Seq<VariantModel>) -> Seq<
    VariantModel,
>
    decreases va,
{
    if va.len() == 0 || vb.len() == 0 {
        va
    } else {
        seq![combine_variant(va[0], vb[0])] + combine_variants(va.drop_first(), vb.drop_first())
    }
}

pub open spec fn combine_variant(a: VariantModel, b: VariantModel) -> VariantModel
    decreases a,
{
    VariantModel { name: a.name, child: Box::new(combine_node(*a.child, *b.child)) }
}

// ---------------------------------------------------------------------------
// The completeness pass: every missing required leaf, and the selector
// errors of choice nodes, collected in declaration order.
// ---------------------------------------------------------------------------
pub open spec fn no_selector_msg() -> Seq<char> {
    "using is not specified"@
}

pub open spec fn bad_selector_msg() -> Seq<char> {
    "using has invalid value"@
}

pub open spec fn node_missing(n: NodeModel) -> Seq<Seq<char>>
    decreases n,
{
    match n {
        NodeModel::Record { fields } => fields_missing(fields),
        NodeModel::Choice { selector, variants } => match selector {
            Option::None => seq![no_selector_msg()],
            Option::Some(name) => choice_missing(variants, name),
        },
    }
}

pub open spec fn fields_missing(fs: Seq<FieldModel>) -> Seq<Seq<char>>
    decreases fs,
{
    if fs.len() == 0 {
        Seq::empty()
    } else {
        field_missing(fs[0]) + fields_missing(fs.drop_first())
    }
}

/// An unset required scalar contributes its name; an optional scalar never
/// fails; nested children contribute their own missing fields, an optional
/// nested child only once something in it is set.
pub open spec fn field_missing(f: FieldModel) -> Seq<Seq<char>>
    decreases f,
{
    match f.state {
        FieldStateModel::Scalar { value, .. } => if value is None {
            seq![f.name]
        } else {
            Seq::empty()
        },
        FieldStateModel::Optional { .. } => Seq::empty(),
        FieldStateModel::Nested { child } => node_missing(*child),
        FieldStateModel::OptionalNested { child } => if node_is_empty(*child) {
            Seq::empty()
        } else {
            node_missing(*child)
        },
    }
}

/// Errors of a choice whose selector holds `name`: the selected variant's
/// missing fields, or the invalid-selector message if no variant matches.
pub open spec fn choice_missing(vs: Seq<VariantModel>, name: Seq<char>) -> Seq<Seq<char>>
    decreases vs,
{
    if vs.len() == 0 {
        seq![bad_selector_msg()]
    } else if vs[0].name == name {
        node_missing(*vs[0].child)
    } else {
        choice_missing(vs.drop_first(), name)
    }
}

// ---------------------------------------------------------------------------
// Finalization: the configuration a complete builder denotes.  Meaningful
// whenever the missing-field pass reports nothing.
// ---------------------------------------------------------------------------
pub open spec fn node_built(n: NodeModel) -> ConfigModel
    decreases n,
{
    match n {
        NodeModel::Record { fields } => ConfigModel::Record { entries: fields_built(fields) },
        NodeModel::Choice { selector, variants } => match selector {
            Option::Some(name) => ConfigModel::Tagged {
                selector: name,
                value: Box::new(choice_built(variants, name)),
            },
            Option::None => arbitrary(),
        },
    }
}

pub open spec fn fields_built(fs: Seq<FieldModel>) -> Seq<EntryModel>
    decreases fs,
{
    if fs.len() == 0 {
        Seq::empty()
    } else {
        seq![field_built(fs[0])] + fields_built(fs.drop_first())
    }
}

pub open spec fn field_built(f: FieldModel) -> EntryModel
    decreases f,
{
    EntryModel { name: f.name, value: state_built(f.state) }
}

/// An unset optional scalar finalizes to explicit absence; an optional
/// nested child finalizes to absence exactly when it is empty.
pub open spec fn state_built(s: FieldStateModel) -> EntryValueModel
    decreases s,
{
    match s {
        FieldStateModel::Scalar { value, .. } => match value {
            Option::Some(v) => EntryValueModel::Scalar(v),
            Option::None => arbitrary(),
        },
        FieldStateModel::Optional { value, .. } => match value {
            OptValueModel::Present(v) => EntryValueModel::Optional(Option::Some(v)),
            OptValueModel::Absent => EntryValueModel::Optional(Option::None),
            OptValueModel::Unset => EntryValueModel::Optional(Option::None),
        },
        FieldStateModel::Nested { child } => EntryValueModel::Nested(
            Box::new(node_built(*child)),
        ),
        FieldStateModel::OptionalNested { child } => if node_is_empty(*child) {
            EntryValueModel::OptionalNested(Option::None)
        } else {
            EntryValueModel::OptionalNested(Option::Some(Box::new(node_built(*child))))
        },
    }
}

pub open spec fn choice_built(vs: Seq<VariantModel>, name: Seq<char>) -> ConfigModel
    decreases vs,
{
    if vs.len() == 0 {
        arbitrary()
    } else if vs[0].name == name {
        node_built(*vs[0].child)
    } else {
        choice_built(vs.drop_first(), name)
    }
}


// ---------------------------------------------------------------------------
// Stepping lemmas: how each pass acts on a sequence extended by one field.
// ---------------------------------------------------------------------------
pub proof fn lemma_fields_schema_len(fs: Seq<FieldModel>)
    ensures
        fields_schema(fs).len() == fs.len(),
    decreases fs,
{
    if fs.len() > 0 {
        lemma_fields_schema_len(fs.drop_first());
    }
}

pub proof fn lemma_fields_schema_index(fs: Seq<FieldModel>, i: int)
    requires
        0 <= i < fs.len(),
    ensures
        fields_schema(fs).len() == fs.len(),
        fields_schema(fs)[i] == field_schema(fs[i]),
    decreases fs,
{
    lemma_fields_schema_len(fs);
    if i > 0 {
        lemma_fields_schema_index(fs.drop_first(), i - 1);
    }
}

pub proof fn lemma_variants_schema_len(vs: Seq<VariantModel>)
    ensures
        variants_schema(vs).len() == vs.len(),
    decreases vs,
{
    if vs.len() > 0 {
        lemma_variants_schema_len(vs.drop_first());
    }
}

pub proof fn lemma_variants_schema_index(vs: Seq<VariantModel>, i: int)
    requires
        0 <= i < vs.len(),
    ensures
        variants_schema(vs).len() == vs.len(),
        variants_schema(vs)[i] == variant_schema(vs[i]),
    decreases vs,
{
    lemma_variants_schema_len(vs);
    if i > 0 {
        lemma_variants_schema_index(vs.drop_first(), i - 1);
    }
}

pub proof fn lemma_fields_schema_push(fs: Seq<FieldModel>, f: FieldModel)
    ensures
        fields_schema(fs.push(f)) =~= fields_schema(fs).push(field_schema(f)),
    decreases fs,
{
    assert(fs.push(f).len() == fs.len() + 1);
    if fs.len() == 0 {
        assert(fs.push(f)[0] == f);
        assert(fs.push(f).drop_first() =~= Seq::<FieldModel>::empty());
        assert(fields_schema(fs.push(f)) == seq![field_schema(f)] + fields_schema(fs.push(f).drop_first()));
    } else {
        assert(fs.push(f)[0] == fs[0]);
        assert(fs.push(f).drop_first() =~= fs.drop_first().push(f));
        lemma_fields_schema_push(fs.drop_first(), f);
        assert(fields_schema(fs.push(f)) == seq![field_schema(fs[0])] + fields_schema(fs.drop_first().push(f)));
    }
}

pub proof fn lemma_variants_schema_push(fs: Seq<VariantModel>, f: VariantModel)
    ensures
        variants_schema(fs.push(f)) =~= variants_schema(fs).push(variant_schema(f)),
    decreases fs,
{
    assert(fs.push(f).len() == fs.len() + 1);
    if fs.len() == 0 {
        assert(fs.push(f)[0] == f);
        assert(fs.push(f).drop_first() =~= Seq::<VariantModel>::empty());
        assert(variants_schema(fs.push(f)) == seq![variant_schema(f)] + variants_schema(fs.push(f).drop_first()));
    } else {
        assert(fs.push(f)[0] == fs[0]);
        assert(fs.push(f).drop_first() =~= fs.drop_first().push(f));
        lemma_variants_schema_push(fs.drop_first(), f);
        assert(variants_schema(fs.push(f)) == seq![variant_schema(fs[0])] + variants_schema(fs.drop_first().push(f)));
    }
}

pub proof fn lemma_fields_defaults_push(fs: Seq<FieldModel>, f: FieldModel)
    ensures
        fields_defaults(fs.push(f)) =~= fields_defaults(fs).push(field_defaults(f)),
    decreases fs,
{
    assert(fs.push(f).len() == fs.len() + 1);
    if fs.len() == 0 {
        assert(fs.push(f)[0] == f);
        assert(fs.push(f).drop_first() =~= Seq::<FieldModel>::empty());
        assert(fields_defaults(fs.push(f)) == seq![field_defaults(f)] + fields_defaults(fs.push(f).drop_first()));
    } else {
        assert(fs.push(f)[0] == fs[0]);
        assert(fs.push(f).drop_first() =~= fs.drop_first().push(f));
        lemma_fields_defaults_push(fs.drop_first(), f);
        assert(fields_defaults(fs.push(f)) == seq![field_defaults(fs[0])] + fields_defaults(fs.drop_first().push(f)));
    }
}

pub proof fn lemma_variants_defaults_push(fs: Seq<VariantModel>, f: VariantModel)
    ensures
        variants_defaults(fs.push(f)) =~= variants_defaults(fs).push(variant_defaults(f)),
    decreases fs,
{
    assert(fs.push(f).len() == fs.len() + 1);
    if fs.len() == 0 {
        assert(fs.push(f)[0] == f);
        assert(fs.push(f).drop_first() =~= Seq::<VariantModel>::empty());
        assert(variants_defaults(fs.push(f)) == seq![variant_defaults(f)] + variants_defaults(fs.push(f).drop_first()));
    } else {
        assert(fs.push(f)[0] == fs[0]);
        assert(fs.push(f).drop_first() =~= fs.drop_first().push(f));
        lemma_variants_defaults_push(fs.drop_first(), f);
        assert(variants_defaults(fs.push(f)) == seq![variant_defaults(fs[0])] + variants_defaults(fs.drop_first().push(f)));
    }
}

pub proof fn lemma_combine_fields_push(fa: Seq<FieldModel>, fb: Seq<FieldModel>, a: FieldModel, b: FieldModel)
    requires
        fa.len() == fb.len(),
    ensures
        combine_fields(fa.push(a), fb.push(b)) =~= combine_fields(fa, fb).push(combine_field(a, b)),
    decreases fa,
{
    assert(fa.push(a).len() == fa.len() + 1);
    assert(fb.push(b).len() == fb.len() + 1);
    if fa.len() == 0 {
        assert(fa.push(a)[0] == a);
        assert(fb.push(b)[0] == b);
        assert(fa.push(a).drop_first() =~= Seq::<FieldModel>::empty());
        assert(fb.push(b).drop_first() =~= Seq::<FieldModel>::empty());
        assert(combine_fields(fa.push(a), fb.push(b)) == seq![combine_field(a, b)] + combine_fields(
            fa.push(a).drop_first(),
            fb.push(b).drop_first(),
        ));
    } else {
        assert(fa.push(a)[0] == fa[0]);
        assert(fb.push(b)[0] == fb[0]);
        assert(fa.push(a).drop_first() =~= fa.drop_first().push(a));
        assert(fb.push(b).drop_first() =~= fb.drop_first().push(b));
        lemma_combine_fields_push(fa.drop_first(), fb.drop_first(), a, b);
        assert(combine_fields(fa.push(a), fb.push(b)) == seq![combine_field(fa[0], fb[0])] + combine_fields(
            fa.drop_first().push(a),
            fb.drop_first().push(b),
        ));
    }
}

pub proof fn lemma_combine_variants_push(fa: Seq<VariantModel>, fb: Seq<VariantModel>, a: VariantModel, b: VariantModel)
    requires
        fa.len() == fb.len(),
    ensures
        combine_variants(fa.push(a), fb.push(b)) =~= combine_variants(fa, fb).push(combine_variant(a, b)),
    decreases fa,
{
    assert(fa.push(a).len() == fa.len() + 1);
    assert(fb.push(b).len() == fb.len() + 1);
    if fa.len() == 0 {
        assert(fa.push(a)[0] == a);
        assert(fb.push(b)[0] == b);
        assert(fa.push(a).drop_first() =~= Seq::<VariantModel>::empty());
        assert(fb.push(b).drop_first() =~= Seq::<VariantModel>::empty());
        assert(combine_variants(fa.push(a), fb.push(b)) == seq![combine_variant(a, b)] + combine_variants(
            fa.push(a).drop_first(),
            fb.push(b).drop_first(),
        ));
    } else {
        assert(fa.push(a)[0] == fa[0]);
        assert(fb.push(b)[0] == fb[0]);
        assert(fa.push(a).drop_first() =~= fa.drop_first().push(a));
        assert(fb.push(b).drop_first() =~= fb.drop_first().push(b));
        lemma_combine_variants_push(fa.drop_first(), fb.drop_first(), a, b);
        assert(combine_variants(fa.push(a), fb.push(b)) == seq![combine_variant(fa[0], fb[0])] + combine_variants(
            fa.drop_first().push(a),
            fb.drop_first().push(b),
        ));
    }
}

pub proof fn lemma_fields_empty_push(fs: Seq<FieldModel>, f: FieldModel)
    ensures
        fields_empty(fs.push(f)) == (fields_empty(fs) && field_empty(f)),
    decreases fs,
{
    assert(fs.push(f).len() == fs.len() + 1);
    if fs.len() == 0 {
        assert(fs.push(f)[0] == f);
        assert(fs.push(f).drop_first() =~= Seq::<FieldModel>::empty());
        assert(fields_empty(fs.push(f)) == (field_empty(f) && fields_empty(fs.push(f).drop_first())));
    } else {
        assert(fs.push(f)[0] == fs[0]);
        assert(fs.push(f).drop_first() =~= fs.drop_first().push(f));
        lemma_fields_empty_push(fs.drop_first(), f);
        assert(fields_empty(fs.push(f)) == (field_empty(fs[0]) && fields_empty(fs.drop_first().push(f))));
    }
}

pub proof fn lemma_fields_missing_push(fs: Seq<FieldModel>, f: FieldModel)
    ensures
        fields_missing(fs.push(f)) =~= fields_missing(fs) + field_missing(f),
    decreases fs,
{
    assert(fs.push(f).len() == fs.len() + 1);
    if fs.len() == 0 {
        assert(fs.push(f)[0] == f);
        assert(fs.push(f).drop_first() =~= Seq::<FieldModel>::empty());
        assert(fields_missing(fs.push(f)) == field_missing(f) + fields_missing(fs.push(f).drop_first()));
    } else {
        assert(fs.push(f)[0] == fs[0]);
        assert(fs.push(f).drop_first() =~= fs.drop_first().push(f));
        lemma_fields_missing_push(fs.drop_first(), f);
        assert(fields_missing(fs.push(f)) == field_missing(fs[0]) + fields_missing(fs.drop_first().push(f)));
    }
}

pub proof fn lemma_fields_built_push(fs: Seq<FieldModel>, f: FieldModel)
    ensures
        fields_built(fs.push(f)) =~= fields_built(fs).push(field_built(f)),
    decreases fs,
{
    assert(fs.push(f).len() == fs.len() + 1);
    if fs.len() == 0 {
        assert(fs.push(f)[0] == f);
        assert(fs.push(f).drop_first() =~= Seq::<FieldModel>::empty());
        assert(fields_built(fs.push(f)) == seq![field_built(f)] + fields_built(fs.push(f).drop_first()));
    } else {
        assert(fs.push(f)[0] == fs[0]);
        assert(fs.push(f).drop_first() =~= fs.drop_first().push(f));
        lemma_fields_built_push(fs.drop_first(), f);
        assert(fields_built(fs.push(f)) == seq![field_built(fs[0])] + fields_built(fs.drop_first().push(f)));
    }
}


/// When a field sequence reports nothing missing, no single field does.
pub proof fn lemma_fields_missing_parts(fs: Seq<FieldModel>, i: int)
    requires
        0 <= i < fs.len(),
        fields_missing(fs).len() == 0,
    ensures
        field_missing(fs[i]).len() == 0,
    decreases fs,
{
    if i > 0 {
        lemma_fields_missing_parts(fs.drop_first(), i - 1);
    }
}


// ---------------------------------------------------------------------------
// Field and variant lookup, and single-field updates.
// ---------------------------------------------------------------------------
/// Index of the first field with the given name, or -1.
pub open spec fn find_field(fs: Seq<FieldModel>, name: Seq<char>) -> int
    decreases fs,
{
    if fs.len() == 0 {
        -1
    } else if fs[0].name == name {
        0
    } else {
        let r = find_field(fs.drop_first(), name);
        if r < 0 {
            -1
        } else {
            1 + r
        }
    }
}

pub proof fn lemma_find_field(fs: Seq<FieldModel>, name: Seq<char>)
    ensures
        find_field(fs, name) >= 0 ==> 0 <= find_field(fs, name) < fs.len() && fs[find_field(
            fs,
            name,
        )].name == name,
        find_field(fs, name) < 0 ==> forall|j: int| 0 <= j < fs.len() ==> fs[j].name != name,
    decreases fs,
{
    if fs.len() > 0 {
        lemma_find_field(fs.drop_first(), name);
        if fs[0].name != name && find_field(fs.drop_first(), name) < 0 {
            assert forall|j: int| 0 <= j < fs.len() implies fs[j].name != name by {
                if j > 0 {
                    assert(fs[j] == fs.drop_first()[j - 1]);
                }
            }
        }
    }
}

pub proof fn lemma_find_field_at(fs: Seq<FieldModel>, name: Seq<char>, i: int)
    requires
        0 <= i < fs.len(),
        fs[i].name == name,
        forall|j: int| 0 <= j < i ==> fs[j].name != name,
    ensures
        find_field(fs, name) == i,
    decreases fs,
{
    if i > 0 {
        assert(forall|j: int| 0 <= j < i - 1 ==> fs.drop_first()[j].name != name);
        lemma_find_field_at(fs.drop_first(), name, i - 1);
    }
}

/// Index of the first variant with the given name, or -1.
pub open spec fn find_variant(vs: Seq<VariantModel>, name: Seq<char>) -> int
    decreases vs,
{
    if vs.len() == 0 {
        -1
    } else if vs[0].name == name {
        0
    } else {
        let r = find_variant(vs.drop_first(), name);
        if r < 0 {
            -1
        } else {
            1 + r
        }
    }
}

pub proof fn lemma_find_variant(vs: Seq<VariantModel>, name: Seq<char>)
    ensures
        find_variant(vs, name) >= 0 ==> 0 <= find_variant(vs, name) < vs.len() && vs[find_variant(
            vs,
            name,
        )].name == name,
        find_variant(vs, name) < 0 ==> forall|j: int| 0 <= j < vs.len() ==> vs[j].name != name,
    decreases vs,
{
    if vs.len() > 0 {
        lemma_find_variant(vs.drop_first(), name);
        if vs[0].name != name && find_variant(vs.drop_first(), name) < 0 {
            assert forall|j: int| 0 <= j < vs.len() implies vs[j].name != name by {
                if j > 0 {
                    assert(vs[j] == vs.drop_first()[j - 1]);
                }
            }
        }
    }
}

pub proof fn lemma_find_variant_at(vs: Seq<VariantModel>, name: Seq<char>, i: int)
    requires
        0 <= i < vs.len(),
        vs[i].name == name,
        forall|j: int| 0 <= j < i ==> vs[j].name != name,
    ensures
        find_variant(vs, name) == i,
    decreases vs,
{
    if i > 0 {
        assert(forall|j: int| 0 <= j < i - 1 ==> vs.drop_first()[j].name != name);
        lemma_find_variant_at(vs.drop_first(), name, i - 1);
    }
}

/// There is a scalar field of this name.
pub open spec fn has_scalar_field(n: NodeModel, name: Seq<char>) -> bool {
    &&& n matches NodeModel::Record { fields }
    &&& find_field(fields, name) >= 0
    &&& fields[find_field(fields, name)].state matches FieldStateModel::Scalar { .. }
}

/// The declared kind of a scalar field.
pub open spec fn scalar_kind_of(n: NodeModel, name: Seq<char>) -> ScalarKind {
    n->Record_fields[find_field(n->Record_fields, name)].state->Scalar_kind
}

/// The node with that scalar field set to the given value.
pub open spec fn with_scalar_set(n: NodeModel, name: Seq<char>, v: ValueModel) -> NodeModel {
    let fields = n->Record_fields;
    let k = find_field(fields, name);
    let f = fields[k];
    NodeModel::Record {
        fields: fields.update(
            k,
            FieldModel {
                name: f.name,
                state: FieldStateModel::Scalar {
                    kind: f.state->Scalar_kind,
                    default: f.state->Scalar_default,
                    value: Option::Some(v),
                },
            },
        ),
    }
}

/// There is an optional scalar field of this name.
pub open spec fn has_optional_field(n: NodeModel, name: Seq<char>) -> bool {
    &&& n matches NodeModel::Record { fields }
    &&& find_field(fields, name) >= 0
    &&& fields[find_field(fields, name)].state matches FieldStateModel::Optional { .. }
}

/// The declared kind of an optional scalar field.
pub open spec fn optional_kind_of(n: NodeModel, name: Seq<char>) -> ScalarKind {
    n->Record_fields[find_field(n->Record_fields, name)].state->Optional_kind
}

/// The node with that optional field set to the given three-state value.
pub open spec fn with_optional_set(n: NodeModel, name: Seq<char>, v: OptValueModel) -> NodeModel {
    let fields = n->Record_fields;
    let k = find_field(fields, name);
    let f = fields[k];
    NodeModel::Record {
        fields: fields.update(
            k,
            FieldModel {
                name: f.name,
                state: FieldStateModel::Optional {
                    kind: f.state->Optional_kind,
                    default: f.state->Optional_default,
                    value: v,
                },
            },
        ),
    }
}

/// There is a nested (or optional nested) field of this name.
pub open spec fn has_nested_field(n: NodeModel, name: Seq<char>) -> bool {
    &&& n matches NodeModel::Record { fields }
    &&& find_field(fields, name) >= 0
    &&& (fields[find_field(fields, name)].state matches FieldStateModel::Nested { .. }
        || fields[find_field(fields, name)].state matches FieldStateModel::OptionalNested { .. })
}

/// The declared sub-builder of a nested field.
pub open spec fn nested_child_of(n: NodeModel, name: Seq<char>) -> NodeModel {
    let fields = n->Record_fields;
    let st = fields[find_field(fields, name)].state;
    match st {
        FieldStateModel::Nested { child } => *child,
        FieldStateModel::OptionalNested { child } => *child,
        _ => arbitrary(),
    }
}

/// The node with that nested field's sub-builder replaced, keeping the
/// field's optionality.
pub open spec fn with_nested_set(n: NodeModel, name: Seq<char>, c: NodeModel) -> NodeModel {
    let fields = n->Record_fields;
    let k = find_field(fields, name);
    let f = fields[k];
    let st = match f.state {
        FieldStateModel::OptionalNested { .. } => FieldStateModel::OptionalNested {
            child: Box::new(c),
        },
        _ => FieldStateModel::Nested { child: Box::new(c) },
    };
    NodeModel::Record { fields: fields.update(k, FieldModel { name: f.name, state: st }) }
}

/// There is a variant of this name.
pub open spec fn has_variant(n: NodeModel, name: Seq<char>) -> bool {
    &&& n matches NodeModel::Choice { variants, .. }
    &&& find_variant(variants, name) >= 0
}

/// The declared sub-builder of a variant.
pub open spec fn variant_child_of(n: NodeModel, name: Seq<char>) -> NodeModel {
    let variants = n->Choice_variants;
    *variants[find_variant(variants, name)].child
}

/// The node with that variant's sub-builder replaced.
pub open spec fn with_variant_set(n: NodeModel, name: Seq<char>, c: NodeModel) -> NodeModel {
    let variants = n->Choice_variants;
    let k = find_variant(variants, name);
    let v = variants[k];
    NodeModel::Choice {
        selector: n->Choice_selector,
        variants: variants.update(k, VariantModel { name: v.name, child: Box::new(c) }),
    }
}

/// The node with its selector set to the given raw name.
pub open spec fn with_selector(n: NodeModel, name: Seq<char>) -> NodeModel {
    NodeModel::Choice {
        selector: Option::Some(name),
        variants: n->Choice_variants,
    }
}


// ---------------------------------------------------------------------------
// Merging keeps the schema: the result of a merge can merge again.
// ---------------------------------------------------------------------------
pub proof fn lemma_combine_field_schema(a: FieldModel, b: FieldModel)
    requires
        field_schema(a) == field_schema(b),
    ensures
        field_schema(combine_field(a, b)) == field_schema(a),
    decreases a,
{
    match (a.state, b.state) {
        (FieldStateModel::Nested { child: ca }, FieldStateModel::Nested { child: cb }) => {
            lemma_combine_schema(*ca, *cb);
        },
        (
            FieldStateModel::OptionalNested { child: ca },
            FieldStateModel::OptionalNested { child: cb },
        ) => {
            lemma_combine_schema(*ca, *cb);
        },
        _ => {},
    }
}

pub proof fn lemma_combine_fields_schema(fa: Seq<FieldModel>, fb: Seq<FieldModel>)
    requires
        fields_schema(fa) == fields_schema(fb),
    ensures
        fields_schema(combine_fields(fa, fb)) == fields_schema(fa),
    decreases fa,
{
    lemma_fields_schema_len(fa);
    lemma_fields_schema_len(fb);
    if fa.len() > 0 {
        assert(fields_schema(fa)[0] == field_schema(fa[0]));
        assert(fields_schema(fb)[0] == field_schema(fb[0]));
        assert(fields_schema(fa).drop_first() =~= fields_schema(fa.drop_first()));
        assert(fields_schema(fb).drop_first() =~= fields_schema(fb.drop_first()));
        lemma_combine_field_schema(fa[0], fb[0]);
        lemma_combine_fields_schema(fa.drop_first(), fb.drop_first());
        let c0 = combine_field(fa[0], fb[0]);
        let ctail = combine_fields(fa.drop_first(), fb.drop_first());
        let cs = combine_fields(fa, fb);
        assert(cs == seq![c0] + ctail);
        assert(cs[0] == c0);
        assert(cs.drop_first() =~= ctail);
        assert(fields_schema(cs) == seq![field_schema(cs[0])] + fields_schema(cs.drop_first()));
        assert(fields_schema(cs) =~= fields_schema(fa));
    }
}

pub proof fn lemma_combine_variant_schema(a: VariantModel, b: VariantModel)
    requires
        variant_schema(a) == variant_schema(b),
    ensures
        variant_schema(combine_variant(a, b)) == variant_schema(a),
    decreases a,
{
    lemma_combine_schema(*a.child, *b.child);
}

pub proof fn lemma_combine_variants_schema(va: Seq<VariantModel>, vb: Seq<VariantModel>)
    requires
        variants_schema(va) == variants_schema(vb),
    ensures
        variants_schema(combine_variants(va, vb)) == variants_schema(va),
    decreases va,
{
    lemma_variants_schema_len(va);
    lemma_variants_schema_len(vb);
    if va.len() > 0 {
        assert(variants_schema(va)[0] == variant_schema(va[0]));
        assert(variants_schema(vb)[0] == variant_schema(vb[0]));
        assert(variants_schema(va).drop_first() =~= variants_schema(va.drop_first()));
        assert(variants_schema(vb).drop_first() =~= variants_schema(vb.drop_first()));
        lemma_combine_variant_schema(va[0], vb[0]);
        lemma_combine_variants_schema(va.drop_first(), vb.drop_first());
        let c0 = combine_variant(va[0], vb[0]);
        let ctail = combine_variants(va.drop_first(), vb.drop_first());
        let cs = combine_variants(va, vb);
        assert(cs == seq![c0] + ctail);
        assert(cs[0] == c0);
        assert(cs.drop_first() =~= ctail);
        assert(variants_schema(cs) == seq![variant_schema(cs[0])] + variants_schema(
            cs.drop_first(),
        ));
        assert(variants_schema(cs) =~= variants_schema(va));
    }
}

/// Merging two builders of one schema yields a builder of that schema.
pub proof fn lemma_combine_schema(a: NodeModel, b: NodeModel)
    requires
        node_schema(a) == node_schema(b),
    ensures
        node_schema(combine_node(a, b)) == node_schema(a),
    decreases a,
{
    match (a, b) {
        (NodeModel::Record { fields: fa }, NodeModel::Record { fields: fb }) => {
            lemma_combine_fields_schema(fa, fb);
        },
        (
            NodeModel::Choice { variants: va, .. },
            NodeModel::Choice { variants: vb, .. },
        ) => {
            lemma_combine_variants_schema(va, vb);
        },
        _ => {},
    }
}

} // verus!
