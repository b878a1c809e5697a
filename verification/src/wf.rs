//! Preservation of the node invariant: every value and default in a tree
//! belongs to its field's declared kind.  The declaration API demands this
//! of callers; these lemmas show the derived builders keep it.

use vstd::prelude::*;
use crate::env::{EnvEntryModel, env_field, env_node, env_variant, env_variants, env_fields, env_key};
use crate::node::{FieldModel, FieldStateModel, NodeModel, VariantModel};
use crate::node::{field_wf, fields_wf, node_wf, variant_wf, variants_wf};
use crate::semantics::{
    combine_field, combine_fields, combine_node, combine_variant, combine_variants,
    field_defaults, field_schema, fields_defaults, fields_schema, lemma_fields_schema_len,
    lemma_variants_schema_len, node_defaults, node_schema, variant_defaults, variant_schema,
    variants_defaults, variants_schema,
};
use crate::value::{lemma_parse_value_kind, opt_has_kind, parse_value_model};

verus! {

pub proof fn lemma_field_schema_wf(f: FieldModel)
    requires
        field_wf(f),
    ensures
        field_wf(field_schema(f)),
    decreases f,
{
    match f.state {
        FieldStateModel::Nested { child } => lemma_schema_wf(*child),
        FieldStateModel::OptionalNested { child } => lemma_schema_wf(*child),
        _ => {},
    }
}

pub proof fn lemma_fields_schema_wf(fs: Seq<FieldModel>)
    requires
        fields_wf(fs),
    ensures
        fields_wf(fields_schema(fs)),
    decreases fs,
{
    if fs.len() > 0 {
        lemma_field_schema_wf(fs[0]);
        lemma_fields_schema_wf(fs.drop_first());
        let cs = fields_schema(fs);
        assert(cs == seq![field_schema(fs[0])] + fields_schema(fs.drop_first()));
        assert(cs[0] == field_schema(fs[0]));
        assert(cs.drop_first() =~= fields_schema(fs.drop_first()));
    }
}

pub proof fn lemma_variant_schema_wf(v: VariantModel)
    requires
        variant_wf(v),
    ensures
        variant_wf(variant_schema(v)),
    decreases v,
{
    lemma_schema_wf(*v.child);
}

pub proof fn lemma_variants_schema_wf(vs: Seq<VariantModel>)
    requires
        variants_wf(vs),
    ensures
        variants_wf(variants_schema(vs)),
    decreases vs,
{
    if vs.len() > 0 {
        lemma_variant_schema_wf(vs[0]);
        lemma_variants_schema_wf(vs.drop_first());
        let cs = variants_schema(vs);
        assert(cs == seq![variant_schema(vs[0])] + variants_schema(vs.drop_first()));
        assert(cs[0] == variant_schema(vs[0]));
        assert(cs.drop_first() =~= variants_schema(vs.drop_first()));
    }
}

/// A fresh all-unset builder of a well-formed schema is well-formed.
pub proof fn lemma_schema_wf(n: NodeModel)
    requires
        node_wf(n),
    ensures
        node_wf(node_schema(n)),
    decreases n,
{
    match n {
        NodeModel::Record { fields } => lemma_fields_schema_wf(fields),
        NodeModel::Choice { variants, .. } => lemma_variants_schema_wf(variants),
    }
}

pub proof fn lemma_field_defaults_wf(f: FieldModel)
    requires
        field_wf(f),
    ensures
        field_wf(field_defaults(f)),
    decreases f,
{
    match f.state {
        FieldStateModel::Nested { child } => lemma_defaults_wf(*child),
        FieldStateModel::OptionalNested { child } => lemma_schema_wf(*child),
        _ => {},
    }
}

pub proof fn lemma_fields_defaults_wf(fs: Seq<FieldModel>)
    requires
        fields_wf(fs),
    ensures
        fields_wf(fields_defaults(fs)),
    decreases fs,
{
    if fs.len() > 0 {
        lemma_field_defaults_wf(fs[0]);
        lemma_fields_defaults_wf(fs.drop_first());
        let cs = fields_defaults(fs);
        assert(cs == seq![field_defaults(fs[0])] + fields_defaults(fs.drop_first()));
        assert(cs[0] == field_defaults(fs[0]));
        assert(cs.drop_first() =~= fields_defaults(fs.drop_first()));
    }
}

pub proof fn lemma_variant_defaults_wf(v: VariantModel)
    requires
        variant_wf(v),
    ensures
        variant_wf(variant_defaults(v)),
    decreases v,
{
    lemma_defaults_wf(*v.child);
}

pub proof fn lemma_variants_defaults_wf(vs: Seq<VariantModel>)
    requires
        variants_wf(vs),
    ensures
        variants_wf(variants_defaults(vs)),
    decreases vs,
{
    if vs.len() > 0 {
        lemma_variant_defaults_wf(vs[0]);
        lemma_variants_defaults_wf(vs.drop_first());
        let cs = variants_defaults(vs);
        assert(cs == seq![variant_defaults(vs[0])] + variants_defaults(vs.drop_first()));
        assert(cs[0] == variant_defaults(vs[0]));
        assert(cs.drop_first() =~= variants_defaults(vs.drop_first()));
    }
}

/// Seeding declared defaults keeps every value at its declared kind.
pub proof fn lemma_defaults_wf(n: NodeModel)
    requires
        node_wf(n),
    ensures
        node_wf(node_defaults(n)),
    decreases n,
{
    match n {
        NodeModel::Record { fields } => lemma_fields_defaults_wf(fields),
        NodeModel::Choice { variants, .. } => lemma_variants_defaults_wf(variants),
    }
}

pub proof fn lemma_combine_field_wf(a: FieldModel, b: FieldModel)
    requires
        field_wf(a),
        field_wf(b),
        field_schema(a) == field_schema(b),
    ensures
        field_wf(combine_field(a, b)),
    decreases a,
{
    match (a.state, b.state) {
        (FieldStateModel::Nested { child: ca }, FieldStateModel::Nested { child: cb }) => {
            lemma_combine_wf(*ca, *cb);
        },
        (
            FieldStateModel::OptionalNested { child: ca },
            FieldStateModel::OptionalNested { child: cb },
        ) => {
            lemma_combine_wf(*ca, *cb);
        },
        _ => {},
    }
}

pub proof fn lemma_combine_fields_wf(fa: Seq<FieldModel>, fb: Seq<FieldModel>)
    requires
        fields_wf(fa),
        fields_wf(fb),
        fields_schema(fa) == fields_schema(fb),
    ensures
        fields_wf(combine_fields(fa, fb)),
    decreases fa,
{
    lemma_fields_schema_len(fa);
    lemma_fields_schema_len(fb);
    if fa.len() > 0 {
        assert(fields_schema(fa)[0] == field_schema(fa[0]));
        assert(fields_schema(fb)[0] == field_schema(fb[0]));
        assert(fields_schema(fa).drop_first() =~= fields_schema(fa.drop_first()));
        assert(fields_schema(fb).drop_first() =~= fields_schema(fb.drop_first()));
        lemma_combine_field_wf(fa[0], fb[0]);
        lemma_combine_fields_wf(fa.drop_first(), fb.drop_first());
        let cs = combine_fields(fa, fb);
        assert(cs == seq![combine_field(fa[0], fb[0])] + combine_fields(
            fa.drop_first(),
            fb.drop_first(),
        ));
        assert(cs[0] == combine_field(fa[0], fb[0]));
        assert(cs.drop_first() =~= combine_fields(fa.drop_first(), fb.drop_first()));
    }
}

pub proof fn lemma_combine_variant_wf(a: VariantModel, b: VariantModel)
    requires
        variant_wf(a),
        variant_wf(b),
        variant_schema(a) == variant_schema(b),
    ensures
        variant_wf(combine_variant(a, b)),
    decreases a,
{
    lemma_combine_wf(*a.child, *b.child);
}

pub proof fn lemma_combine_variants_wf(va: Seq<VariantModel>, vb: Seq<VariantModel>)
    requires
        variants_wf(va),
        variants_wf(vb),
        variants_schema(va) == variants_schema(vb),
    ensures
        variants_wf(combine_variants(va, vb)),
    decreases va,
{
    lemma_variants_schema_len(va);
    lemma_variants_schema_len(vb);
    if va.len() > 0 {
        assert(variants_schema(va)[0] == variant_schema(va[0]));
        assert(variants_schema(vb)[0] == variant_schema(vb[0]));
        assert(variants_schema(va).drop_first() =~= variants_schema(va.drop_first()));
        assert(variants_schema(vb).drop_first() =~= variants_schema(vb.drop_first()));
        lemma_combine_variant_wf(va[0], vb[0]);
        lemma_combine_variants_wf(va.drop_first(), vb.drop_first());
        let cs = combine_variants(va, vb);
        assert(cs == seq![combine_variant(va[0], vb[0])] + combine_variants(
            va.drop_first(),
            vb.drop_first(),
        ));
        assert(cs[0] == combine_variant(va[0], vb[0]));
        assert(cs.drop_first() =~= combine_variants(va.drop_first(), vb.drop_first()));
    }
}

/// Merging two well-formed builders of one schema is well-formed.
pub proof fn lemma_combine_wf(a: NodeModel, b: NodeModel)
    requires
        node_wf(a),
        node_wf(b),
        node_schema(a) == node_schema(b),
    ensures
        node_wf(combine_node(a, b)),
    decreases a,
{
    match (a, b) {
        (NodeModel::Record { fields: fa }, NodeModel::Record { fields: fb }) => {
            lemma_combine_fields_wf(fa, fb);
        },
        (NodeModel::Choice { variants: va, .. }, NodeModel::Choice { variants: vb, .. }) => {
            lemma_combine_variants_wf(va, vb);
        },
        _ => {},
    }
}

pub proof fn lemma_env_field_wf(f: FieldModel, prefix: Seq<char>, env: Seq<EnvEntryModel>)
    requires
        field_wf(f),
    ensures
        field_wf(env_field(f, prefix, env)),
    decreases f,
{
    match f.state {
        FieldStateModel::Scalar { kind, .. } => {
            assert forall|raw: Seq<char>| true implies opt_has_kind(
                parse_value_model(kind, raw),
                kind,
            ) by {
                lemma_parse_value_kind(kind, raw);
            }
        },
        FieldStateModel::Optional { kind, .. } => {
            assert forall|raw: Seq<char>| true implies opt_has_kind(
                parse_value_model(kind, raw),
                kind,
            ) by {
                lemma_parse_value_kind(kind, raw);
            }
        },
        FieldStateModel::Nested { child } => lemma_env_wf(*child, env_key(prefix, f.name), env),
        FieldStateModel::OptionalNested { child } => lemma_env_wf(
            *child,
            env_key(prefix, f.name),
            env,
        ),
    }
}

pub proof fn lemma_env_fields_wf(fs: Seq<FieldModel>, prefix: Seq<char>, env: Seq<EnvEntryModel>)
    requires
        fields_wf(fs),
    ensures
        fields_wf(env_fields(fs, prefix, env)),
    decreases fs,
{
    if fs.len() > 0 {
        lemma_env_field_wf(fs[0], prefix, env);
        lemma_env_fields_wf(fs.drop_first(), prefix, env);
        let cs = env_fields(fs, prefix, env);
        assert(cs == seq![env_field(fs[0], prefix, env)] + env_fields(
            fs.drop_first(),
            prefix,
            env,
        ));
        assert(cs[0] == env_field(fs[0], prefix, env));
        assert(cs.drop_first() =~= env_fields(fs.drop_first(), prefix, env));
    }
}

pub proof fn lemma_env_variant_wf(v: VariantModel, prefix: Seq<char>, env: Seq<EnvEntryModel>)
    requires
        variant_wf(v),
    ensures
        variant_wf(env_variant(v, prefix, env)),
    decreases v,
{
    lemma_env_wf(*v.child, env_key(prefix, v.name), env);
}

pub proof fn lemma_env_variants_wf(vs: Seq<VariantModel>, prefix: Seq<char>, env: Seq<
    EnvEntryModel,
>)
    requires
        variants_wf(vs),
    ensures
        variants_wf(env_variants(vs, prefix, env)),
    decreases vs,
{
    if vs.len() > 0 {
        lemma_env_variant_wf(vs[0], prefix, env);
        lemma_env_variants_wf(vs.drop_first(), prefix, env);
        let cs = env_variants(vs, prefix, env);
        assert(cs == seq![env_variant(vs[0], prefix, env)] + env_variants(
            vs.drop_first(),
            prefix,
            env,
        ));
        assert(cs[0] == env_variant(vs[0], prefix, env));
        assert(cs.drop_first() =~= env_variants(vs.drop_first(), prefix, env));
    }
}

/// Environment loading only stores values parsed at the declared kind, so
/// the loaded builder is well-formed.
pub proof fn lemma_env_wf(n: NodeModel, prefix: Seq<char>, env: Seq<EnvEntryModel>)
    requires
        node_wf(n),
    ensures
        node_wf(env_node(n, prefix, env)),
    decreases n,
{
    match n {
        NodeModel::Record { fields } => lemma_env_fields_wf(fields, prefix, env),
        NodeModel::Choice { variants, .. } => lemma_env_variants_wf(variants, prefix, env),
    }
}

} // verus!
