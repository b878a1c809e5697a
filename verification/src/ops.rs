//! Executable builder operations on nodes: fresh and default-seeded copies,
//! emptiness, merge, and finalization.

use vstd::prelude::*;
use crate::config::{Config, Entry, EntryValue};
use crate::config::{lemma_entries_model_push, entries_model};
use crate::node::{Field, FieldState, Node, OptValue, Variant};
use crate::node::{NodeModel, fields_model, variants_model, opt_str_model};
use crate::node::{field_height, node_height, variant_height};
use crate::node::{
    lemma_fields_height_index, lemma_fields_model_index, lemma_fields_model_len,
    lemma_fields_model_push, lemma_variants_height_index, lemma_variants_model_index,
    lemma_variants_model_len, lemma_variants_model_push,
};
use crate::semantics::{
    field_defaults, field_schema, fields_defaults, fields_schema, node_defaults, node_schema,
    variant_defaults, variant_schema, variants_defaults, variants_schema,
};
use crate::semantics::{
    lemma_fields_defaults_push, lemma_fields_schema_push, lemma_variants_defaults_push,
    lemma_variants_schema_push, lemma_fields_schema_len, lemma_fields_schema_index,
    lemma_variants_schema_len, lemma_variants_schema_index, lemma_combine_fields_push,
    lemma_combine_variants_push, combine_field, combine_fields, combine_node, combine_variant,
    combine_variants,
};
use crate::semantics::{field_empty, fields_empty, node_is_empty, lemma_fields_empty_push};
use crate::semantics::{
    choice_built, choice_missing, field_built, field_missing, fields_built, fields_missing,
    node_built, node_missing, lemma_fields_built_push, lemma_fields_missing_push,
    lemma_fields_missing_parts,
};
use crate::strings::{str_eq, strings_view};
use crate::value::{Value, clone_opt_value, opt_value_model};

verus! {

/// Fresh all-unset field with the same declaration.
fn schema_field(f: &Field) -> (r: Field)
    ensures
        r@ == field_schema(f@),
    decreases field_height(f@),
{
    let name = f.name.clone();
    let state = match &f.state {
        FieldState::Scalar { kind, default, .. } => FieldState::Scalar {
            kind: *kind,
            default: clone_opt_value(default),
            value: Option::None,
        },
        FieldState::Optional { kind, default, .. } => FieldState::Optional {
            kind: *kind,
            default: clone_opt_value(default),
            value: OptValue::Unset,
        },
        FieldState::Nested { child } => FieldState::Nested {
            child: Box::new(schema_node(child)),
        },
        FieldState::OptionalNested { child } => FieldState::OptionalNested {
            child: Box::new(schema_node(child)),
        },
    };
    Field { name, state }
}

fn schema_variant(v: &Variant) -> (r: Variant)
    ensures
        r@ == variant_schema(v@),
    decreases variant_height(v@),
{
    Variant { name: v.name.clone(), child: Box::new(schema_node(&v.child)) }
}

/// Fresh all-unset node with the same schema.
fn schema_node(n: &Node) -> (r: Node)
    ensures
        r@ == node_schema(n@),
    decreases node_height(n@),
{
    match n {
        Node::Record { fields } => {
            let ghost fm = fields_model(fields@);
            proof {
                lemma_fields_model_len(fields@);
            }
            let mut out: Vec<Field> = Vec::new();
            let mut i: usize = 0;
            while i < fields.len()
                invariant
                    i <= fields@.len() == fm.len(),
                    fm == fields_model(fields@),
                    n@ == (NodeModel::Record { fields: fm }),
                    fields_model(out@) =~= fields_schema(fm.subrange(0, i as int)),
                decreases fields@.len() - i,
            {
                proof {
                    lemma_fields_model_index(fields@, i as int);
                    lemma_fields_height_index(fm, i as int);
                }
                let fld = schema_field(&fields[i]);
                let ghost prev = out@;
                out.push(fld);
                proof {
                    lemma_fields_model_push(prev, fld);
                    lemma_fields_schema_push(fm.subrange(0, i as int), fm[i as int]);
                    assert(fm.subrange(0, i + 1 as int) =~= fm.subrange(0, i as int).push(
                        fm[i as int],
                    ));
                }
                i = i + 1;
            }
            proof {
                assert(fm.subrange(0, fm.len() as int) =~= fm);
            }
            Node::Record { fields: out }
        },
        Node::Choice { variants, .. } => {
            let ghost vm = variants_model(variants@);
            proof {
                lemma_variants_model_len(variants@);
            }
            let mut out: Vec<Variant> = Vec::new();
            let mut i: usize = 0;
            while i < variants.len()
                invariant
                    i <= variants@.len() == vm.len(),
                    vm == variants_model(variants@),
                    n@ matches NodeModel::Choice { variants: nv, .. } && nv == vm,
                    variants_model(out@) =~= variants_schema(vm.subrange(0, i as int)),
                decreases variants@.len() - i,
            {
                proof {
                    lemma_variants_model_index(variants@, i as int);
                    lemma_variants_height_index(vm, i as int);
                }
                let vr = schema_variant(&variants[i]);
                let ghost prev = out@;
                out.push(vr);
                proof {
                    lemma_variants_model_push(prev, vr);
                    lemma_variants_schema_push(vm.subrange(0, i as int), vm[i as int]);
                    assert(vm.subrange(0, i + 1 as int) =~= vm.subrange(0, i as int).push(
                        vm[i as int],
                    ));
                }
                i = i + 1;
            }
            proof {
                assert(vm.subrange(0, vm.len() as int) =~= vm);
            }
            Node::Choice { selector: Option::None, variants: out }
        },
    }
}

/// Fresh field holding its declared default, if any.
fn defaults_field(f: &Field) -> (r: Field)
    ensures
        r@ == field_defaults(f@),
    decreases field_height(f@),
{
    let name = f.name.clone();
    let state = match &f.state {
        FieldState::Scalar { kind, default, .. } => FieldState::Scalar {
            kind: *kind,
            default: clone_opt_value(default),
            value: clone_opt_value(default),
        },
        FieldState::Optional { kind, default, .. } => FieldState::Optional {
            kind: *kind,
            default: clone_opt_value(default),
            value: match clone_opt_value(default) {
                Option::Some(v) => OptValue::Present(v),
                Option::None => OptValue::Absent,
            },
        },
        FieldState::Nested { child } => FieldState::Nested {
            child: Box::new(defaults_node(child)),
        },
        FieldState::OptionalNested { child } => FieldState::OptionalNested {
            child: Box::new(schema_node(child)),
        },
    };
    Field { name, state }
}

fn defaults_variant(v: &Variant) -> (r: Variant)
    ensures
        r@ == variant_defaults(v@),
    decreases variant_height(v@),
{
    Variant { name: v.name.clone(), child: Box::new(defaults_node(&v.child)) }
}

/// Fresh node seeded with declared defaults, recursively; optional nested
/// children stay unset.
fn defaults_node(n: &Node) -> (r: Node)
    ensures
        r@ == node_defaults(n@),
    decreases node_height(n@),
{
    match n {
        Node::Record { fields } => {
            let ghost fm = fields_model(fields@);
            proof {
                lemma_fields_model_len(fields@);
            }
            let mut out: Vec<Field> = Vec::new();
            let mut i: usize = 0;
            while i < fields.len()
                invariant
                    i <= fields@.len() == fm.len(),
                    fm == fields_model(fields@),
                    n@ == (NodeModel::Record { fields: fm }),
                    fields_model(out@) =~= fields_defaults(fm.subrange(0, i as int)),
                decreases fields@.len() - i,
            {
                proof {
                    lemma_fields_model_index(fields@, i as int);
                    lemma_fields_height_index(fm, i as int);
                }
                let fld = defaults_field(&fields[i]);
                let ghost prev = out@;
                out.push(fld);
                proof {
                    lemma_fields_model_push(prev, fld);
                    lemma_fields_defaults_push(fm.subrange(0, i as int), fm[i as int]);
                    assert(fm.subrange(0, i + 1 as int) =~= fm.subrange(0, i as int).push(
                        fm[i as int],
                    ));
                }
                i = i + 1;
            }
            proof {
                assert(fm.subrange(0, fm.len() as int) =~= fm);
            }
            Node::Record { fields: out }
        },
        Node::Choice { variants, .. } => {
            let ghost vm = variants_model(variants@);
            proof {
                lemma_variants_model_len(variants@);
            }
            let mut out: Vec<Variant> = Vec::new();
            let mut i: usize = 0;
            while i < variants.len()
                invariant
                    i <= variants@.len() == vm.len(),
                    vm == variants_model(variants@),
                    n@ matches NodeModel::Choice { variants: nv, .. } && nv == vm,
                    variants_model(out@) =~= variants_defaults(vm.subrange(0, i as int)),
                decreases variants@.len() - i,
            {
                proof {
                    lemma_variants_model_index(variants@, i as int);
                    lemma_variants_height_index(vm, i as int);
                }
                let vr = defaults_variant(&variants[i]);
                let ghost prev = out@;
                out.push(vr);
                proof {
                    lemma_variants_model_push(prev, vr);
                    lemma_variants_defaults_push(vm.subrange(0, i as int), vm[i as int]);
                    assert(vm.subrange(0, i + 1 as int) =~= vm.subrange(0, i as int).push(
                        vm[i as int],
                    ));
                }
                i = i + 1;
            }
            proof {
                assert(vm.subrange(0, vm.len() as int) =~= vm);
            }
            Node::Choice { selector: Option::None, variants: out }
        },
    }
}

fn empty_field(f: &Field) -> (r: bool)
    ensures
        r == field_empty(f@),
    decreases field_height(f@),
{
    match &f.state {
        FieldState::Scalar { value, .. } => value.is_none(),
        FieldState::Optional { value, .. } => match value {
            OptValue::Present(_) => false,
            _ => true,
        },
        FieldState::Nested { child } => empty_node(child),
        FieldState::OptionalNested { child } => empty_node(child),
    }
}

fn empty_node(n: &Node) -> (r: bool)
    ensures
        r == node_is_empty(n@),
    decreases node_height(n@),
{
    match n {
        Node::Record { fields } => {
            let ghost fm = fields_model(fields@);
            proof {
                lemma_fields_model_len(fields@);
            }
            let mut i: usize = 0;
            let mut all = true;
            while i < fields.len()
                invariant
                    i <= fields@.len() == fm.len(),
                    fm == fields_model(fields@),
                    n@ == (NodeModel::Record { fields: fm }),
                    all == fields_empty(fm.subrange(0, i as int)),
                decreases fields@.len() - i,
            {
                proof {
                    lemma_fields_model_index(fields@, i as int);
                    lemma_fields_height_index(fm, i as int);
                }
                let fe = empty_field(&fields[i]);
                proof {
                    lemma_fields_empty_push(fm.subrange(0, i as int), fm[i as int]);
                    assert(fm.subrange(0, i + 1 as int) =~= fm.subrange(0, i as int).push(
                        fm[i as int],
                    ));
                }
                all = all && fe;
                i = i + 1;
            }
            proof {
                assert(fm.subrange(0, fm.len() as int) =~= fm);
            }
            all
        },
        Node::Choice { selector, .. } => selector.is_none(),
    }
}

impl Node {
    /// A fresh all-unset builder of the same schema.
    pub fn new(&self) -> (r: Node)
        ensures
            r@ == node_schema(self@),
    {
        schema_node(self)
    }

    /// A fresh builder seeded with the declared defaults and nothing else.
    pub fn new_default(&self) -> (r: Node)
        ensures
            r@ == node_defaults(self@),
    {
        defaults_node(self)
    }

    /// Consuming form of `new_default`: whatever was set is discarded.
    pub fn default(self) -> (r: Node)
        ensures
            r@ == node_defaults(self@),
    {
        defaults_node(&self)
    }

    /// True iff nothing is set anywhere in this builder.
    pub fn is_empty(&self) -> (r: bool)
        ensures
            r == node_is_empty(self@),
    {
        empty_node(self)
    }
}


/// A copy of an optional selector string.
fn clone_opt_string(o: &Option<String>) -> (r: Option<String>)
    ensures
        opt_str_model(r) == opt_str_model(*o),
{
    match o {
        Option::Some(s) => Option::Some(s.clone()),
        Option::None => Option::None,
    }
}

/// Left-biased merge of two fields with the same declaration.
fn combine_field_exec(a: &Field, b: &Field) -> (r: Field)
    requires
        field_schema(a@) == field_schema(b@),
    ensures
        r@ == combine_field(a@, b@),
    decreases field_height(a@),
{
    let name = a.name.clone();
    let state = match (&a.state, &b.state) {
        (
            FieldState::Scalar { kind, default, value: va },
            FieldState::Scalar { value: vb, .. },
        ) => FieldState::Scalar {
            kind: *kind,
            default: clone_opt_value(default),
            value: match va {
                Option::Some(v) => Option::Some(v.clone()),
                Option::None => clone_opt_value(vb),
            },
        },
        (
            FieldState::Optional { kind, default, value: va },
            FieldState::Optional { value: vb, .. },
        ) => FieldState::Optional {
            kind: *kind,
            default: clone_opt_value(default),
            value: match va {
                OptValue::Unset => vb.clone(),
                _ => va.clone(),
            },
        },
        (FieldState::Nested { child: ca }, FieldState::Nested { child: cb }) => {
            FieldState::Nested { child: Box::new(combine_nodes(ca, cb)) }
        },
        (FieldState::OptionalNested { child: ca }, FieldState::OptionalNested { child: cb }) => {
            FieldState::OptionalNested { child: Box::new(combine_nodes(ca, cb)) }
        },
        _ => {
            proof {
                assert(false);
            }
            FieldState::Scalar { kind: crate::value::ScalarKind::Text, default: Option::None, value: Option::None }
        },
    };
    Field { name, state }
}

fn combine_variant_exec(a: &Variant, b: &Variant) -> (r: Variant)
    requires
        variant_schema(a@) == variant_schema(b@),
    ensures
        r@ == combine_variant(a@, b@),
    decreases variant_height(a@),
{
    Variant { name: a.name.clone(), child: Box::new(combine_nodes(&a.child, &b.child)) }
}

/// Left-biased merge of two nodes of the same schema.
fn combine_nodes(a: &Node, b: &Node) -> (r: Node)
    requires
        node_schema(a@) == node_schema(b@),
    ensures
        r@ == combine_node(a@, b@),
    decreases node_height(a@),
{
    match (a, b) {
        (Node::Record { fields: fa }, Node::Record { fields: fb }) => {
            let ghost fam = fields_model(fa@);
            let ghost fbm = fields_model(fb@);
            proof {
                lemma_fields_model_len(fa@);
                lemma_fields_model_len(fb@);
                lemma_fields_schema_len(fam);
                lemma_fields_schema_len(fbm);
            }
            let mut out: Vec<Field> = Vec::new();
            let mut i: usize = 0;
            while i < fa.len()
                invariant
                    i <= fa@.len() == fam.len(),
                    fb@.len() == fbm.len() == fam.len(),
                    fam == fields_model(fa@),
                    fbm == fields_model(fb@),
                    a@ == (NodeModel::Record { fields: fam }),
                    b@ == (NodeModel::Record { fields: fbm }),
                    fields_schema(fam) == fields_schema(fbm),
                    fields_model(out@) =~= combine_fields(
                        fam.subrange(0, i as int),
                        fbm.subrange(0, i as int),
                    ),
                decreases fa@.len() - i,
            {
                proof {
                    lemma_fields_model_index(fa@, i as int);
                    lemma_fields_model_index(fb@, i as int);
                    lemma_fields_height_index(fam, i as int);
                    lemma_fields_schema_index(fam, i as int);
                    lemma_fields_schema_index(fbm, i as int);
                }
                let fld = combine_field_exec(&fa[i], &fb[i]);
                let ghost prev = out@;
                out.push(fld);
                proof {
                    lemma_fields_model_push(prev, fld);
                    lemma_combine_fields_push(
                        fam.subrange(0, i as int),
                        fbm.subrange(0, i as int),
                        fam[i as int],
                        fbm[i as int],
                    );
                    assert(fam.subrange(0, i + 1 as int) =~= fam.subrange(0, i as int).push(
                        fam[i as int],
                    ));
                    assert(fbm.subrange(0, i + 1 as int) =~= fbm.subrange(0, i as int).push(
                        fbm[i as int],
                    ));
                }
                i = i + 1;
            }
            proof {
                assert(fam.subrange(0, fam.len() as int) =~= fam);
                assert(fbm.subrange(0, fbm.len() as int) =~= fbm);
            }
            Node::Record { fields: out }
        },
        (
            Node::Choice { selector: sa, variants: va },
            Node::Choice { selector: sb, variants: vb },
        ) => {
            let ghost vam = variants_model(va@);
            let ghost vbm = variants_model(vb@);
            proof {
                lemma_variants_model_len(va@);
                lemma_variants_model_len(vb@);
                lemma_variants_schema_len(vam);
                lemma_variants_schema_len(vbm);
            }
            let sel = match sa {
                Option::Some(s) => Option::Some(s.clone()),
                Option::None => clone_opt_string(sb),
            };
            let mut out: Vec<Variant> = Vec::new();
            let mut i: usize = 0;
            while i < va.len()
                invariant
                    i <= va@.len() == vam.len(),
                    vb@.len() == vbm.len() == vam.len(),
                    vam == variants_model(va@),
                    vbm == variants_model(vb@),
                    a@ matches NodeModel::Choice { variants: x, .. } && x == vam,
                    b@ matches NodeModel::Choice { variants: y, .. } && y == vbm,
                    variants_schema(vam) == variants_schema(vbm),
                    variants_model(out@) =~= combine_variants(
                        vam.subrange(0, i as int),
                        vbm.subrange(0, i as int),
                    ),
                decreases va@.len() - i,
            {
                proof {
                    lemma_variants_model_index(va@, i as int);
                    lemma_variants_model_index(vb@, i as int);
                    lemma_variants_height_index(vam, i as int);
                    lemma_variants_schema_index(vam, i as int);
                    lemma_variants_schema_index(vbm, i as int);
                }
                let vr = combine_variant_exec(&va[i], &vb[i]);
                let ghost prev = out@;
                out.push(vr);
                proof {
                    lemma_variants_model_push(prev, vr);
                    lemma_combine_variants_push(
                        vam.subrange(0, i as int),
                        vbm.subrange(0, i as int),
                        vam[i as int],
                        vbm[i as int],
                    );
                    assert(vam.subrange(0, i + 1 as int) =~= vam.subrange(0, i as int).push(
                        vam[i as int],
                    ));
                    assert(vbm.subrange(0, i + 1 as int) =~= vbm.subrange(0, i as int).push(
                        vbm[i as int],
                    ));
                }
                i = i + 1;
            }
            proof {
                assert(vam.subrange(0, vam.len() as int) =~= vam);
                assert(vbm.subrange(0, vbm.len() as int) =~= vbm);
            }
            Node::Choice { selector: sel, variants: out }
        },
        _ => {
            proof {
                assert(false);
            }
            Node::Record { fields: Vec::new() }
        },
    }
}

impl Node {
    /// Left-biased merge: every field set here wins; unset fields fall back
    /// to `other`, recursively inside nested children.
    pub fn combine(self, other: Node) -> (r: Node)
        requires
            node_schema(self@) == node_schema(other@),
        ensures
            r@ == combine_node(self@, other@),
    {
        combine_nodes(&self, &other)
    }
}


/// One message in a fresh list.
fn one_message(text: &str) -> (r: Vec<String>)
    ensures
        strings_view(r@) =~= seq![text@],
{
    let mut out: Vec<String> = Vec::new();
    out.push(String::from_str(text));
    proof {
        assert(strings_view(out@) =~= seq![text@]);
    }
    out
}

/// Every missing required field of this field, in declaration order.
fn missing_field(f: &Field) -> (r: Vec<String>)
    ensures
        strings_view(r@) == field_missing(f@),
    decreases field_height(f@),
{
    match &f.state {
        FieldState::Scalar { value, .. } => match value {
            Option::Some(_) => {
                let r: Vec<String> = Vec::new();
                proof {
                    assert(strings_view(r@) =~= Seq::<Seq<char>>::empty());
                }
                r
            },
            Option::None => {
                let mut r: Vec<String> = Vec::new();
                r.push(f.name.clone());
                proof {
                    assert(strings_view(r@) =~= seq![f@.name]);
                }
                r
            },
        },
        FieldState::Optional { .. } => {
            let r: Vec<String> = Vec::new();
            proof {
                assert(strings_view(r@) =~= Seq::<Seq<char>>::empty());
            }
            r
        },
        FieldState::Nested { child } => collect_missing(child),
        FieldState::OptionalNested { child } => {
            if empty_node(child) {
                let r: Vec<String> = Vec::new();
                proof {
                    assert(strings_view(r@) =~= Seq::<Seq<char>>::empty());
                }
                r
            } else {
                collect_missing(child)
            }
        },
    }
}

/// The complete set of missing required fields and selector errors.
fn collect_missing(n: &Node) -> (r: Vec<String>)
    ensures
        strings_view(r@) == node_missing(n@),
    decreases node_height(n@),
{
    match n {
        Node::Record { fields } => {
            let ghost fm = fields_model(fields@);
            proof {
                lemma_fields_model_len(fields@);
            }
            let mut out: Vec<String> = Vec::new();
            let mut i: usize = 0;
            while i < fields.len()
                invariant
                    i <= fields@.len() == fm.len(),
                    fm == fields_model(fields@),
                    n@ == (NodeModel::Record { fields: fm }),
                    strings_view(out@) =~= fields_missing(fm.subrange(0, i as int)),
                decreases fields@.len() - i,
            {
                proof {
                    lemma_fields_model_index(fields@, i as int);
                    lemma_fields_height_index(fm, i as int);
                }
                let mut sub = missing_field(&fields[i]);
                let ghost prev = out@;
                let ghost subm = sub@;
                out.append(&mut sub);
                proof {
                    assert(strings_view(prev + subm) =~= strings_view(prev) + strings_view(subm));
                    lemma_fields_missing_push(fm.subrange(0, i as int), fm[i as int]);
                    assert(fm.subrange(0, i + 1 as int) =~= fm.subrange(0, i as int).push(
                        fm[i as int],
                    ));
                }
                i = i + 1;
            }
            proof {
                assert(fm.subrange(0, fm.len() as int) =~= fm);
            }
            out
        },
        Node::Choice { selector, variants } => {
            match selector {
                Option::None => one_message("using is not specified"),
                Option::Some(s) => {
                    let ghost vm = variants_model(variants@);
                    proof {
                        lemma_variants_model_len(variants@);
                        assert(vm.subrange(0, vm.len() as int) =~= vm);
                    }
                    let mut i: usize = 0;
                    while i < variants.len()
                        invariant
                            i <= variants@.len() == vm.len(),
                            vm == variants_model(variants@),
                            n@ == (NodeModel::Choice {
                                selector: Option::Some(s@),
                                variants: vm,
                            }),
                            choice_missing(vm, s@) == choice_missing(
                                vm.subrange(i as int, vm.len() as int),
                                s@,
                            ),
                        decreases variants@.len() - i,
                    {
                        proof {
                            lemma_variants_model_index(variants@, i as int);
                            lemma_variants_height_index(vm, i as int);
                            assert(vm.subrange(i as int, vm.len() as int)[0] == vm[i as int]);
                        }
                        if str_eq(variants[i].name.as_str(), s.as_str()) {
                            return collect_missing(&variants[i].child);
                        }
                        proof {
                            assert(vm.subrange(i as int, vm.len() as int).drop_first()
                                =~= vm.subrange(i + 1 as int, vm.len() as int));
                        }
                        i = i + 1;
                    }
                    proof {
                        assert(vm.subrange(vm.len() as int, vm.len() as int).len() == 0);
                    }
                    one_message("using has invalid value")
                },
            }
        },
    }
}

/// Finalized value of one complete field.
fn build_entry(f: &Field) -> (r: Entry)
    requires
        field_missing(f@).len() == 0,
    ensures
        r@ == field_built(f@),
    decreases field_height(f@),
{
    let name = f.name.clone();
    let value = match &f.state {
        FieldState::Scalar { value, .. } => match value {
            Option::Some(v) => EntryValue::Scalar(v.clone()),
            Option::None => {
                proof {
                    assert(false);
                }
                EntryValue::Optional(Option::None)
            },
        },
        FieldState::Optional { value, .. } => match value {
            OptValue::Present(v) => EntryValue::Optional(Option::Some(v.clone())),
            _ => EntryValue::Optional(Option::None),
        },
        FieldState::Nested { child } => EntryValue::Nested(Box::new(build_config(child))),
        FieldState::OptionalNested { child } => {
            if empty_node(child) {
                EntryValue::OptionalNested(Option::None)
            } else {
                EntryValue::OptionalNested(Option::Some(Box::new(build_config(child))))
            }
        },
    };
    Entry { name, value }
}

/// The configuration a complete builder denotes.
fn build_config(n: &Node) -> (r: Config)
    requires
        node_missing(n@).len() == 0,
    ensures
        r@ == node_built(n@),
    decreases node_height(n@),
{
    match n {
        Node::Record { fields } => {
            let ghost fm = fields_model(fields@);
            proof {
                lemma_fields_model_len(fields@);
            }
            let mut out: Vec<Entry> = Vec::new();
            let mut i: usize = 0;
            while i < fields.len()
                invariant
                    i <= fields@.len() == fm.len(),
                    fm == fields_model(fields@),
                    n@ == (NodeModel::Record { fields: fm }),
                    fields_missing(fm).len() == 0,
                    entries_model(out@) =~= fields_built(fm.subrange(0, i as int)),
                decreases fields@.len() - i,
            {
                proof {
                    lemma_fields_model_index(fields@, i as int);
                    lemma_fields_height_index(fm, i as int);
                    lemma_fields_missing_parts(fm, i as int);
                }
                let e = build_entry(&fields[i]);
                let ghost prev = out@;
                out.push(e);
                proof {
                    lemma_entries_model_push(prev, e);
                    lemma_fields_built_push(fm.subrange(0, i as int), fm[i as int]);
                    assert(fm.subrange(0, i + 1 as int) =~= fm.subrange(0, i as int).push(
                        fm[i as int],
                    ));
                }
                i = i + 1;
            }
            proof {
                assert(fm.subrange(0, fm.len() as int) =~= fm);
            }
            Config::Record { entries: out }
        },
        Node::Choice { selector, variants } => {
            match selector {
                Option::None => {
                    proof {
                        assert(false);
                    }
                    Config::Record { entries: Vec::new() }
                },
                Option::Some(s) => {
                    let ghost vm = variants_model(variants@);
                    proof {
                        lemma_variants_model_len(variants@);
                        assert(vm.subrange(0, vm.len() as int) =~= vm);
                    }
                    let mut i: usize = 0;
                    while i < variants.len()
                        invariant
                            i <= variants@.len() == vm.len(),
                            vm == variants_model(variants@),
                            n@ == (NodeModel::Choice {
                                selector: Option::Some(s@),
                                variants: vm,
                            }),
                            choice_missing(vm, s@).len() == 0,
                            choice_missing(vm, s@) == choice_missing(
                                vm.subrange(i as int, vm.len() as int),
                                s@,
                            ),
                            choice_built(vm, s@) == choice_built(
                                vm.subrange(i as int, vm.len() as int),
                                s@,
                            ),
                        decreases variants@.len() - i,
                    {
                        proof {
                            lemma_variants_model_index(variants@, i as int);
                            lemma_variants_height_index(vm, i as int);
                            assert(vm.subrange(i as int, vm.len() as int)[0] == vm[i as int]);
                        }
                        if str_eq(variants[i].name.as_str(), s.as_str()) {
                            let sub = build_config(&variants[i].child);
                            return Config::Tagged { selector: s.clone(), value: Box::new(sub) };
                        }
                        proof {
                            assert(vm.subrange(i as int, vm.len() as int).drop_first()
                                =~= vm.subrange(i + 1 as int, vm.len() as int));
                        }
                        i = i + 1;
                    }
                    proof {
                        assert(vm.subrange(vm.len() as int, vm.len() as int).len() == 0);
                        assert(false);
                    }
                    Config::Record { entries: Vec::new() }
                },
            }
        },
    }
}

impl Node {
    /// Finalizes the builder.
    ///
    /// Succeeds exactly when the completeness pass finds nothing missing,
    /// and then yields the configuration this builder denotes; otherwise
    /// reports every missing required field name, in declaration order,
    /// together with any selector error of a choice node.
    pub fn try_build(self) -> (r: Result<Config, Vec<String>>)
        ensures
            node_missing(self@).len() == 0 ==> (r matches Result::Ok(c) && c@ == node_built(
                self@,
            )),
            node_missing(self@).len() > 0 ==> (r matches Result::Err(e) && strings_view(e@)
                == node_missing(self@)),
    {
        let missing = collect_missing(&self);
        if missing.len() == 0 {
            Result::Ok(build_config(&self))
        } else {
            Result::Err(missing)
        }
    }
}

} // verus!
