//! General laws of the builder algebra, stated and proved once for every
//! schema: left bias, associativity of merge, completeness of the missing
//! pass, the three-state rule for optional scalars, emptiness of optional
//! nested builders, and variant resolution.

use vstd::prelude::*;
use crate::config::{ConfigModel, EntryValueModel};
use crate::node::{FieldModel, FieldStateModel, NodeModel, OptValueModel, VariantModel};
use crate::semantics::{
    bad_selector_msg, choice_built, choice_missing, combine_field, combine_fields, combine_node,
    combine_opt, combine_optval, combine_variant, combine_variants, field_missing, field_schema,
    fields_missing, fields_schema, find_variant, lemma_fields_schema_index,
    lemma_fields_schema_len, lemma_variants_schema_index, lemma_variants_schema_len,
    no_selector_msg, node_built, node_is_empty, node_missing, node_schema, state_built,
    variant_schema, variants_schema,
};
use crate::value::ValueModel;

verus! {

pub proof fn lemma_combine_fields_index(fa: Seq<FieldModel>, fb: Seq<FieldModel>, i: int)
    requires
        fa.len() == fb.len(),
        0 <= i < fa.len(),
    ensures
        combine_fields(fa, fb).len() == fa.len(),
        combine_fields(fa, fb)[i] == combine_field(fa[i], fb[i]),
    decreases fa,
{
    let cs = combine_fields(fa, fb);
    assert(cs == seq![combine_field(fa[0], fb[0])] + combine_fields(
        fa.drop_first(),
        fb.drop_first(),
    ));
    if i == 0 {
        if fa.len() > 1 {
            lemma_combine_fields_index(fa.drop_first(), fb.drop_first(), 0);
        } else {
            assert(combine_fields(fa.drop_first(), fb.drop_first()).len() == 0);
        }
    } else {
        lemma_combine_fields_index(fa.drop_first(), fb.drop_first(), i - 1);
    }
}

/// Left bias: a field that is set in the left operand keeps its exact
/// partial value in the merge, whatever the right operand holds there.
pub proof fn lemma_combine_left_bias(a: NodeModel, b: NodeModel, i: int)
    requires
        node_schema(a) == node_schema(b),
        a matches NodeModel::Record { .. },
        0 <= i < a->Record_fields.len(),
    ensures
        combine_node(a, b) matches NodeModel::Record { fields } && {
            let fa = a->Record_fields;
            &&& fields.len() == fa.len()
            &&& (fa[i].state matches FieldStateModel::Scalar { value, .. } && value is Some
                ==> fields[i].state == fa[i].state)
            &&& (fa[i].state matches FieldStateModel::Optional { value, .. } && !(value is Unset)
                ==> fields[i].state == fa[i].state)
        },
{
    let fa = a->Record_fields;
    let fb = b->Record_fields;
    lemma_fields_schema_len(fa);
    lemma_fields_schema_len(fb);
    lemma_combine_fields_index(fa, fb, i);
    lemma_fields_schema_index(fa, i);
    lemma_fields_schema_index(fb, i);
}

/// Left bias of the selector: a choice that has chosen a variant keeps that
/// choice in the merge.
pub proof fn lemma_combine_selector_bias(a: NodeModel, b: NodeModel)
    requires
        node_schema(a) == node_schema(b),
        a matches NodeModel::Choice { .. },
    ensures
        a->Choice_selector is Some ==> combine_node(a, b)->Choice_selector == a->Choice_selector,
{
}

pub proof fn lemma_combine_field_assoc(a: FieldModel, b: FieldModel, c: FieldModel)
    requires
        field_schema(a) == field_schema(b),
        field_schema(b) == field_schema(c),
    ensures
        combine_field(combine_field(a, b), c) == combine_field(a, combine_field(b, c)),
    decreases a,
{
    match (a.state, b.state, c.state) {
        (
            FieldStateModel::Nested { child: ca },
            FieldStateModel::Nested { child: cb },
            FieldStateModel::Nested { child: cc },
        ) => {
            lemma_combine_assoc(*ca, *cb, *cc);
        },
        (
            FieldStateModel::OptionalNested { child: ca },
            FieldStateModel::OptionalNested { child: cb },
            FieldStateModel::OptionalNested { child: cc },
        ) => {
            lemma_combine_assoc(*ca, *cb, *cc);
        },
        _ => {},
    }
}

pub proof fn lemma_combine_fields_assoc(fa: Seq<FieldModel>, fb: Seq<FieldModel>, fc: Seq<
    FieldModel,
>)
    requires
        fields_schema(fa) == fields_schema(fb),
        fields_schema(fb) == fields_schema(fc),
    ensures
        combine_fields(combine_fields(fa, fb), fc) =~= combine_fields(fa, combine_fields(fb, fc)),
    decreases fa,
{
    lemma_fields_schema_len(fa);
    lemma_fields_schema_len(fb);
    lemma_fields_schema_len(fc);
    if fa.len() > 0 {
        lemma_fields_schema_index(fa, 0);
        lemma_fields_schema_index(fb, 0);
        lemma_fields_schema_index(fc, 0);
        assert(fields_schema(fa).drop_first() =~= fields_schema(fa.drop_first()));
        assert(fields_schema(fb).drop_first() =~= fields_schema(fb.drop_first()));
        assert(fields_schema(fc).drop_first() =~= fields_schema(fc.drop_first()));
        lemma_combine_field_assoc(fa[0], fb[0], fc[0]);
        lemma_combine_fields_assoc(fa.drop_first(), fb.drop_first(), fc.drop_first());
        let ab = combine_fields(fa, fb);
        assert(ab == seq![combine_field(fa[0], fb[0])] + combine_fields(
            fa.drop_first(),
            fb.drop_first(),
        ));
        assert(ab[0] == combine_field(fa[0], fb[0]));
        assert(ab.drop_first() =~= combine_fields(fa.drop_first(), fb.drop_first()));
        lemma_combine_fields_index(fa, fb, 0);
        let bc = combine_fields(fb, fc);
        assert(bc == seq![combine_field(fb[0], fc[0])] + combine_fields(
            fb.drop_first(),
            fc.drop_first(),
        ));
        assert(bc[0] == combine_field(fb[0], fc[0]));
        assert(bc.drop_first() =~= combine_fields(fb.drop_first(), fc.drop_first()));
        assert(combine_fields(ab, fc) == seq![combine_field(ab[0], fc[0])] + combine_fields(
            ab.drop_first(),
            fc.drop_first(),
        ));
        assert(combine_fields(fa, bc) == seq![combine_field(fa[0], bc[0])] + combine_fields(
            fa.drop_first(),
            bc.drop_first(),
        ));
    }
}

pub proof fn lemma_combine_variant_assoc(a: VariantModel, b: VariantModel, c: VariantModel)
    requires
        variant_schema(a) == variant_schema(b),
        variant_schema(b) == variant_schema(c),
    ensures
        combine_variant(combine_variant(a, b), c) == combine_variant(a, combine_variant(b, c)),
    decreases a,
{
    lemma_combine_assoc(*a.child, *b.child, *c.child);
}

pub proof fn lemma_combine_variants_assoc(
    va: Seq<VariantModel>,
    vb: Seq<VariantModel>,
    vc: Seq<VariantModel>,
)
    requires
        variants_schema(va) == variants_schema(vb),
        variants_schema(vb) == variants_schema(vc),
    ensures
        combine_variants(combine_variants(va, vb), vc) =~= combine_variants(
            va,
            combine_variants(vb, vc),
        ),
    decreases va,
{
    lemma_variants_schema_len(va);
    lemma_variants_schema_len(vb);
    lemma_variants_schema_len(vc);
    if va.len() > 0 {
        lemma_variants_schema_index(va, 0);
        lemma_variants_schema_index(vb, 0);
        lemma_variants_schema_index(vc, 0);
        assert(variants_schema(va).drop_first() =~= variants_schema(va.drop_first()));
        assert(variants_schema(vb).drop_first() =~= variants_schema(vb.drop_first()));
        assert(variants_schema(vc).drop_first() =~= variants_schema(vc.drop_first()));
        lemma_combine_variant_assoc(va[0], vb[0], vc[0]);
        lemma_combine_variants_assoc(va.drop_first(), vb.drop_first(), vc.drop_first());
        let ab = combine_variants(va, vb);
        assert(ab == seq![combine_variant(va[0], vb[0])] + combine_variants(
            va.drop_first(),
            vb.drop_first(),
        ));
        assert(ab[0] == combine_variant(va[0], vb[0]));
        assert(ab.drop_first() =~= combine_variants(va.drop_first(), vb.drop_first()));
        let bc = combine_variants(vb, vc);
        assert(bc == seq![combine_variant(vb[0], vc[0])] + combine_variants(
            vb.drop_first(),
            vc.drop_first(),
        ));
        assert(bc[0] == combine_variant(vb[0], vc[0]));
        assert(bc.drop_first() =~= combine_variants(vb.drop_first(), vc.drop_first()));
        assert(combine_variants(ab, vc) == seq![combine_variant(ab[0], vc[0])] + combine_variants(
            ab.drop_first(),
            vc.drop_first(),
        ));
        assert(combine_variants(va, bc) == seq![combine_variant(va[0], bc[0])] + combine_variants(
            va.drop_first(),
            bc.drop_first(),
        ));
    }
}

/// Associativity: merging three same-schema builders gives one result,
/// field by field, however the merges are grouped.
pub proof fn lemma_combine_assoc(a: NodeModel, b: NodeModel, c: NodeModel)
    requires
        node_schema(a) == node_schema(b),
        node_schema(b) == node_schema(c),
    ensures
        combine_node(combine_node(a, b), c) == combine_node(a, combine_node(b, c)),
    decreases a,
{
    match (a, b, c) {
        (
            NodeModel::Record { fields: fa },
            NodeModel::Record { fields: fb },
            NodeModel::Record { fields: fc },
        ) => {
            lemma_combine_fields_assoc(fa, fb, fc);
        },
        (
            NodeModel::Choice { selector: sa, variants: va },
            NodeModel::Choice { selector: sb, variants: vb },
            NodeModel::Choice { selector: sc, variants: vc },
        ) => {
            lemma_combine_variants_assoc(va, vb, vc);
            assert(combine_opt(combine_opt(sa, sb), sc) == combine_opt(sa, combine_opt(sb, sc)));
        },
        _ => {},
    }
}

/// Completeness: a record whose required scalar fields are all unset
/// reports every one of their names, not only the first.
pub proof fn lemma_missing_reports_all(fields: Seq<FieldModel>)
    requires
        forall|i: int|
            0 <= i < fields.len() ==> (#[trigger] fields[i].state) matches FieldStateModel::Scalar {
                value: Option::None,
                ..
            },
    ensures
        fields_missing(fields) =~= fields.map_values(|f: FieldModel| f.name),
        fields_missing(fields).len() == fields.len(),
    decreases fields,
{
    if fields.len() > 0 {
        assert(fields[0].state matches FieldStateModel::Scalar { value: Option::None, .. });
        assert(field_missing(fields[0]) == seq![fields[0].name]);
        assert(forall|i: int|
            0 <= i < fields.drop_first().len() ==> (#[trigger] fields.drop_first()[i].state)
                matches FieldStateModel::Scalar { value: Option::None, .. });
        lemma_missing_reports_all(fields.drop_first());
    }
}

/// The three-state rule: an explicitly absent optional in the earlier
/// source shadows an explicitly present value in the later one; with the
/// operands swapped the present value stays; only an unset optional defers.
pub proof fn lemma_optional_three_state(v: ValueModel)
    ensures
        combine_optval(OptValueModel::Absent, OptValueModel::Present(v)) == OptValueModel::Absent,
        combine_optval(OptValueModel::Present(v), OptValueModel::Absent)
            == OptValueModel::Present(v),
        combine_optval(OptValueModel::Unset, OptValueModel::Present(v))
            == OptValueModel::Present(v),
        combine_optval(OptValueModel::Unset, OptValueModel::Absent) == OptValueModel::Absent,
{
}

/// Nested emptiness: an optional nested field whose sub-builder has nothing
/// set finalizes to absence and contributes no missing fields; once the
/// sub-builder is non-empty, its own missing fields become the field's.
pub proof fn lemma_optional_nested_emptiness(f: FieldModel)
    requires
        f.state matches FieldStateModel::OptionalNested { .. },
    ensures
        node_is_empty(*f.state->OptionalNested_child) ==> field_missing(f)
            =~= Seq::<Seq<char>>::empty() && state_built(f.state)
            == EntryValueModel::OptionalNested(Option::None),
        !node_is_empty(*f.state->OptionalNested_child) ==> field_missing(f) == node_missing(
            *f.state->OptionalNested_child,
        ),
{
}

pub proof fn lemma_choice_missing_find(vs: Seq<VariantModel>, name: Seq<char>)
    ensures
        find_variant(vs, name) >= 0 ==> choice_missing(vs, name) == node_missing(
            *vs[find_variant(vs, name)].child,
        ),
        find_variant(vs, name) < 0 ==> choice_missing(vs, name) =~= seq![bad_selector_msg()],
    decreases vs,
{
    crate::semantics::lemma_find_variant(vs, name);
    if vs.len() > 0 && vs[0].name != name {
        crate::semantics::lemma_find_variant(vs.drop_first(), name);
        lemma_choice_missing_find(vs.drop_first(), name);
        if find_variant(vs.drop_first(), name) >= 0 {
            assert(vs.drop_first()[find_variant(vs.drop_first(), name)] == vs[find_variant(
                vs,
                name,
            )]);
        }
    }
}

pub proof fn lemma_choice_built_find(vs: Seq<VariantModel>, name: Seq<char>)
    requires
        find_variant(vs, name) >= 0,
    ensures
        choice_built(vs, name) == node_built(*vs[find_variant(vs, name)].child),
    decreases vs,
{
    crate::semantics::lemma_find_variant(vs, name);
    if vs.len() > 0 && vs[0].name != name {
        crate::semantics::lemma_find_variant(vs.drop_first(), name);
        lemma_choice_built_find(vs.drop_first(), name);
        assert(vs.drop_first()[find_variant(vs.drop_first(), name)] == vs[find_variant(
            vs,
            name,
        )]);
    }
}

/// Variant resolution: a selected known variant finalizes to that
/// variant's tagged value once its own fields are complete; an unset or
/// unknown selector is reported as a selector error of its own, never as a
/// missing-field list.
pub proof fn lemma_variant_resolution(n: NodeModel)
    requires
        n matches NodeModel::Choice { .. },
    ensures
        n->Choice_selector is None ==> node_missing(n) =~= seq![no_selector_msg()],
        n->Choice_selector matches Option::Some(name) ==> ({
            let vars = n->Choice_variants;
            let k = find_variant(vars, name);
            &&& k < 0 ==> node_missing(n) =~= seq![bad_selector_msg()]
            &&& k >= 0 ==> {
                let child = *vars[k].child;
                &&& node_missing(n) == node_missing(child)
                &&& node_built(n) == (ConfigModel::Tagged {
                    selector: name,
                    value: Box::new(node_built(child)),
                })
            }
        }),
{
    match n->Choice_selector {
        Option::Some(name) => {
            lemma_choice_missing_find(n->Choice_variants, name);
            if find_variant(n->Choice_variants, name) >= 0 {
                lemma_choice_built_find(n->Choice_variants, name);
            }
        },
        Option::None => {},
    }
}

} // verus!
