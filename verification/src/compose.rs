//! Declaring schemas and setting fields: the construction side of a builder
//! node.  A node is declared field by field, and freshly declared fields are
//! unset, so declaring a schema also yields the all-unset builder.

use vstd::prelude::*;
use crate::names::{pascal_to_snake_case, snake_case, split_words};
use crate::node::{Field, FieldState, Node, OptValue, Variant};
use crate::node::{FieldModel, FieldStateModel, NodeModel, OptValueModel, VariantModel};
use crate::node::{fields_model, variants_model};
use crate::node::{
    lemma_fields_model_index, lemma_fields_model_len, lemma_fields_model_push,
    lemma_fields_model_update, lemma_variants_model_index, lemma_variants_model_len,
    lemma_variants_model_push, lemma_variants_model_update,
};
use crate::semantics::{
    find_field, find_variant, has_nested_field, has_optional_field, has_scalar_field,
    has_variant, lemma_find_field, lemma_find_field_at, lemma_find_variant,
    lemma_find_variant_at, nested_child_of, node_schema, optional_kind_of, scalar_kind_of,
    variant_child_of, with_nested_set, with_optional_set, with_scalar_set, with_selector,
    with_variant_set,
};
use crate::strings::str_eq;
use crate::value::{ScalarKind, Value, clone_opt_value, kind_of, opt_value_model};

verus! {

/// Index of the first field with the given name, or the length when none
/// matches.
fn find_field_exec(fields: &Vec<Field>, name: &str) -> (k: usize)
    ensures
        ({
            let fm = fields_model(fields@);
            let j = find_field(fm, name@);
            &&& j >= 0 ==> k == j
            &&& j < 0 ==> k == fields@.len()
            &&& fields@.len() == fm.len()
        }),
{
    let ghost fm = fields_model(fields@);
    proof {
        lemma_fields_model_len(fields@);
    }
    let mut i: usize = 0;
    while i < fields.len()
        invariant
            i <= fields@.len() == fm.len(),
            fm == fields_model(fields@),
            forall|j: int| 0 <= j < i ==> fm[j].name != name@,
        decreases fields@.len() - i,
    {
        proof {
            lemma_fields_model_index(fields@, i as int);
        }
        if str_eq(fields[i].name.as_str(), name) {
            proof {
                lemma_find_field_at(fm, name@, i as int);
            }
            return i;
        }
        i = i + 1;
    }
    proof {
        lemma_find_field(fm, name@);
    }
    fields.len()
}

/// Index of the first variant with the given name, or the length when none
/// matches.
fn find_variant_exec(variants: &Vec<Variant>, name: &str) -> (k: usize)
    ensures
        ({
            let vm = variants_model(variants@);
            let j = find_variant(vm, name@);
            &&& j >= 0 ==> k == j
            &&& j < 0 ==> k == variants@.len()
            &&& variants@.len() == vm.len()
        }),
{
    let ghost vm = variants_model(variants@);
    proof {
        lemma_variants_model_len(variants@);
    }
    let mut i: usize = 0;
    while i < variants.len()
        invariant
            i <= variants@.len() == vm.len(),
            vm == variants_model(variants@),
            forall|j: int| 0 <= j < i ==> vm[j].name != name@,
        decreases variants@.len() - i,
    {
        proof {
            lemma_variants_model_index(variants@, i as int);
        }
        if str_eq(variants[i].name.as_str(), name) {
            proof {
                lemma_find_variant_at(vm, name@, i as int);
            }
            return i;
        }
        i = i + 1;
    }
    proof {
        lemma_find_variant(vm, name@);
    }
    variants.len()
}

impl Node {
    /// An empty record builder: a configuration with no fields yet.
    pub fn record() -> (r: Node)
        ensures
            r@ == (NodeModel::Record { fields: Seq::<FieldModel>::empty() }),
    {
        Node::Record { fields: Vec::new() }
    }

    /// An empty choice builder: no variants yet, nothing selected.
    pub fn choice() -> (r: Node)
        ensures
            r@ == (NodeModel::Choice {
                selector: Option::<Seq<char>>::None,
                variants: Seq::<VariantModel>::empty(),
            }),
    {
        Node::Choice { selector: Option::None, variants: Vec::new() }
    }

    /// Declares a required scalar field, unset and without a default.
    pub fn add_scalar(self, name: &str, kind: ScalarKind) -> (r: Node)
        requires
            self@ matches NodeModel::Record { .. },
        ensures
            r@ == (NodeModel::Record {
                fields: self@->Record_fields.push(
                    FieldModel {
                        name: name@,
                        state: FieldStateModel::Scalar {
                            kind,
                            default: Option::None,
                            value: Option::None,
                        },
                    },
                ),
            }),
    {
        match self {
            Node::Record { mut fields } => {
                let ghost prev = fields@;
                let f = Field {
                    name: String::from_str(name),
                    state: FieldState::Scalar { kind, default: Option::None, value: Option::None },
                };
                fields.push(f);
                proof {
                    lemma_fields_model_push(prev, f);
                }
                Node::Record { fields }
            },
            _ => {
                proof {
                    assert(false);
                }
                Node::Record { fields: Vec::new() }
            },
        }
    }

    /// Declares a required scalar field carrying a declared default value.
    pub fn add_scalar_default(self, name: &str, kind: ScalarKind, default: Value) -> (r: Node)
        requires
            self@ matches NodeModel::Record { .. },
            kind_of(default@) == kind,
        ensures
            r@ == (NodeModel::Record {
                fields: self@->Record_fields.push(
                    FieldModel {
                        name: name@,
                        state: FieldStateModel::Scalar {
                            kind,
                            default: Option::Some(default@),
                            value: Option::None,
                        },
                    },
                ),
            }),
    {
        match self {
            Node::Record { mut fields } => {
                let ghost prev = fields@;
                let f = Field {
                    name: String::from_str(name),
                    state: FieldState::Scalar {
                        kind,
                        default: Option::Some(default),
                        value: Option::None,
                    },
                };
                fields.push(f);
                proof {
                    lemma_fields_model_push(prev, f);
                }
                Node::Record { fields }
            },
            _ => {
                proof {
                    assert(false);
                }
                Node::Record { fields: Vec::new() }
            },
        }
    }

    /// Declares an optional scalar field, unset and without a default.
    pub fn add_optional(self, name: &str, kind: ScalarKind) -> (r: Node)
        requires
            self@ matches NodeModel::Record { .. },
        ensures
            r@ == (NodeModel::Record {
                fields: self@->Record_fields.push(
                    FieldModel {
                        name: name@,
                        state: FieldStateModel::Optional {
                            kind,
                            default: Option::None,
                            value: OptValueModel::Unset,
                        },
                    },
                ),
            }),
    {
        match self {
            Node::Record { mut fields } => {
                let ghost prev = fields@;
                let f = Field {
                    name: String::from_str(name),
                    state: FieldState::Optional {
                        kind,
                        default: Option::None,
                        value: OptValue::Unset,
                    },
                };
                fields.push(f);
                proof {
                    lemma_fields_model_push(prev, f);
                }
                Node::Record { fields }
            },
            _ => {
                proof {
                    assert(false);
                }
                Node::Record { fields: Vec::new() }
            },
        }
    }

    /// Declares an optional scalar field carrying a declared default value.
    pub fn add_optional_default(self, name: &str, kind: ScalarKind, default: Value) -> (r: Node)
        requires
            self@ matches NodeModel::Record { .. },
            kind_of(default@) == kind,
        ensures
            r@ == (NodeModel::Record {
                fields: self@->Record_fields.push(
                    FieldModel {
                        name: name@,
                        state: FieldStateModel::Optional {
                            kind,
                            default: Option::Some(default@),
                            value: OptValueModel::Unset,
                        },
                    },
                ),
            }),
    {
        match self {
            Node::Record { mut fields } => {
                let ghost prev = fields@;
                let f = Field {
                    name: String::from_str(name),
                    state: FieldState::Optional {
                        kind,
                        default: Option::Some(default),
                        value: OptValue::Unset,
                    },
                };
                fields.push(f);
                proof {
                    lemma_fields_model_push(prev, f);
                }
                Node::Record { fields }
            },
            _ => {
                proof {
                    assert(false);
                }
                Node::Record { fields: Vec::new() }
            },
        }
    }

    /// Declares a required nested field with the given sub-builder.
    pub fn add_nested(self, name: &str, child: Node) -> (r: Node)
        requires
            self@ matches NodeModel::Record { .. },
        ensures
            r@ == (NodeModel::Record {
                fields: self@->Record_fields.push(
                    FieldModel {
                        name: name@,
                        state: FieldStateModel::Nested { child: Box::new(child@) },
                    },
                ),
            }),
    {
        match self {
            Node::Record { mut fields } => {
                let ghost prev = fields@;
                let f = Field {
                    name: String::from_str(name),
                    state: FieldState::Nested { child: Box::new(child) },
                };
                fields.push(f);
                proof {
                    lemma_fields_model_push(prev, f);
                }
                Node::Record { fields }
            },
            _ => {
                proof {
                    assert(false);
                }
                Node::Record { fields: Vec::new() }
            },
        }
    }

    /// Declares an optional nested field with the given sub-builder; it
    /// finalizes to absence while the sub-builder stays empty.
    pub fn add_optional_nested(self, name: &str, child: Node) -> (r: Node)
        requires
            self@ matches NodeModel::Record { .. },
        ensures
            r@ == (NodeModel::Record {
                fields: self@->Record_fields.push(
                    FieldModel {
                        name: name@,
                        state: FieldStateModel::OptionalNested { child: Box::new(child@) },
                    },
                ),
            }),
    {
        match self {
            Node::Record { mut fields } => {
                let ghost prev = fields@;
                let f = Field {
                    name: String::from_str(name),
                    state: FieldState::OptionalNested { child: Box::new(child) },
                };
                fields.push(f);
                proof {
                    lemma_fields_model_push(prev, f);
                }
                Node::Record { fields }
            },
            _ => {
                proof {
                    assert(false);
                }
                Node::Record { fields: Vec::new() }
            },
        }
    }

    /// Declares a variant under the canonical snake_case form of its
    /// PascalCase identifier.
    pub fn add_variant(self, ident: &str, child: Node) -> (r: Node)
        requires
            self@ matches NodeModel::Choice { .. },
            split_words(ident@).len() > 0,
        ensures
            r@ == (NodeModel::Choice {
                selector: self@->Choice_selector,
                variants: self@->Choice_variants.push(
                    VariantModel { name: snake_case(ident@), child: Box::new(child@) },
                ),
            }),
    {
        match self {
            Node::Choice { selector, mut variants } => {
                let ghost prev = variants@;
                let v = Variant { name: pascal_to_snake_case(ident), child: Box::new(child) };
                variants.push(v);
                proof {
                    lemma_variants_model_push(prev, v);
                }
                Node::Choice { selector, variants }
            },
            _ => {
                proof {
                    assert(false);
                }
                Node::Record { fields: Vec::new() }
            },
        }
    }

    /// Sets a required scalar field to the given value, overwriting whatever
    /// was there.
    pub fn set(self, name: &str, value: Value) -> (r: Node)
        requires
            has_scalar_field(self@, name@),
            kind_of(value@) == scalar_kind_of(self@, name@),
        ensures
            r@ == with_scalar_set(self@, name@, value@),
    {
        match self {
            Node::Record { mut fields } => {
                let ghost fm = fields_model(fields@);
                let k = find_field_exec(&fields, name);
                proof {
                    lemma_find_field(fm, name@);
                    lemma_fields_model_index(fields@, k as int);
                }
                let nf = match &fields[k].state {
                    FieldState::Scalar { kind, default, .. } => Field {
                        name: fields[k].name.clone(),
                        state: FieldState::Scalar {
                            kind: *kind,
                            default: clone_opt_value(default),
                            value: Option::Some(value),
                        },
                    },
                    _ => {
                        proof {
                            assert(false);
                        }
                        Field {
                            name: String::new(),
                            state: FieldState::Scalar {
                                kind: ScalarKind::Text,
                                default: Option::None,
                                value: Option::None,
                            },
                        }
                    },
                };
                let ghost prevf = fields@;
                fields.set(k, nf);
                proof {
                    lemma_fields_model_update(prevf, k as int, nf);
                }
                Node::Record { fields }
            },
            _ => {
                proof {
                    assert(false);
                }
                Node::Record { fields: Vec::new() }
            },
        }
    }

    /// Sets an optional scalar field: `Some` makes it explicitly present,
    /// `None` explicitly absent; either way the field no longer defers to
    /// other sources.
    pub fn set_opt(self, name: &str, value: Option<Value>) -> (r: Node)
        requires
            has_optional_field(self@, name@),
            value matches Option::Some(v) ==> kind_of(v@) == optional_kind_of(self@, name@),
        ensures
            r@ == with_optional_set(
                self@,
                name@,
                match value {
                    Option::Some(v) => OptValueModel::Present(v@),
                    Option::None => OptValueModel::Absent,
                },
            ),
    {
        match self {
            Node::Record { mut fields } => {
                let ghost fm = fields_model(fields@);
                let k = find_field_exec(&fields, name);
                proof {
                    lemma_find_field(fm, name@);
                    lemma_fields_model_index(fields@, k as int);
                }
                let nv = match value {
                    Option::Some(v) => OptValue::Present(v),
                    Option::None => OptValue::Absent,
                };
                let nf = match &fields[k].state {
                    FieldState::Optional { kind, default, .. } => Field {
                        name: fields[k].name.clone(),
                        state: FieldState::Optional {
                            kind: *kind,
                            default: clone_opt_value(default),
                            value: nv,
                        },
                    },
                    _ => {
                        proof {
                            assert(false);
                        }
                        Field {
                            name: String::new(),
                            state: FieldState::Scalar {
                                kind: ScalarKind::Text,
                                default: Option::None,
                                value: Option::None,
                            },
                        }
                    },
                };
                let ghost prevf = fields@;
                fields.set(k, nf);
                proof {
                    lemma_fields_model_update(prevf, k as int, nf);
                }
                Node::Record { fields }
            },
            _ => {
                proof {
                    assert(false);
                }
                Node::Record { fields: Vec::new() }
            },
        }
    }

    /// Replaces the sub-builder of a nested or optional nested field.
    pub fn set_nested(self, name: &str, child: Node) -> (r: Node)
        requires
            has_nested_field(self@, name@),
            node_schema(child@) == node_schema(nested_child_of(self@, name@)),
        ensures
            r@ == with_nested_set(self@, name@, child@),
    {
        match self {
            Node::Record { mut fields } => {
                let ghost fm = fields_model(fields@);
                let k = find_field_exec(&fields, name);
                proof {
                    lemma_find_field(fm, name@);
                    lemma_fields_model_index(fields@, k as int);
                }
                let optional = match &fields[k].state {
                    FieldState::OptionalNested { .. } => true,
                    FieldState::Nested { .. } => false,
                    _ => {
                        proof {
                            assert(false);
                        }
                        false
                    },
                };
                let nf = Field {
                    name: fields[k].name.clone(),
                    state: if optional {
                        FieldState::OptionalNested { child: Box::new(child) }
                    } else {
                        FieldState::Nested { child: Box::new(child) }
                    },
                };
                let ghost prevf = fields@;
                fields.set(k, nf);
                proof {
                    lemma_fields_model_update(prevf, k as int, nf);
                }
                Node::Record { fields }
            },
            _ => {
                proof {
                    assert(false);
                }
                Node::Record { fields: Vec::new() }
            },
        }
    }

    /// Chooses the active variant by raw name; nothing checks the name until
    /// finalization, by design.
    pub fn select(self, name: &str) -> (r: Node)
        requires
            self@ matches NodeModel::Choice { .. },
        ensures
            r@ == with_selector(self@, name@),
    {
        match self {
            Node::Choice { variants, .. } => Node::Choice {
                selector: Option::Some(String::from_str(name)),
                variants,
            },
            _ => {
                proof {
                    assert(false);
                }
                Node::Record { fields: Vec::new() }
            },
        }
    }

    /// Replaces the sub-builder accumulated for one variant.
    pub fn set_variant(self, name: &str, child: Node) -> (r: Node)
        requires
            has_variant(self@, name@),
            node_schema(child@) == node_schema(variant_child_of(self@, name@)),
        ensures
            r@ == with_variant_set(self@, name@, child@),
    {
        match self {
            Node::Choice { selector, mut variants } => {
                let ghost vm = variants_model(variants@);
                let k = find_variant_exec(&variants, name);
                proof {
                    lemma_find_variant(vm, name@);
                    lemma_variants_model_index(variants@, k as int);
                }
                let nv = Variant { name: variants[k].name.clone(), child: Box::new(child) };
                let ghost prevv = variants@;
                variants.set(k, nv);
                proof {
                    lemma_variants_model_update(prevv, k as int, nv);
                }
                Node::Choice { selector, variants }
            },
            _ => {
                proof {
                    assert(false);
                }
                Node::Record { fields: Vec::new() }
            },
        }
    }

    /// The partial value of a scalar field: `None` when no such scalar field
    /// exists, otherwise its (possibly unset) value.
    pub fn get_scalar(&self, name: &str) -> (r: Option<Option<Value>>)
        ensures
            match self@ {
                NodeModel::Record { fields } => {
                    let k = find_field(fields, name@);
                    if k >= 0 && fields[k].state matches FieldStateModel::Scalar { .. } {
                        r matches Option::Some(o) && opt_value_model(o) == fields[k].state
                            ->Scalar_value
                    } else {
                        r is None
                    }
                },
                NodeModel::Choice { .. } => r is None,
            },
    {
        match self {
            Node::Record { fields } => {
                let ghost fm = fields_model(fields@);
                let k = find_field_exec(fields, name);
                proof {
                    lemma_find_field(fm, name@);
                }
                if k < fields.len() {
                    proof {
                        lemma_fields_model_index(fields@, k as int);
                    }
                    match &fields[k].state {
                        FieldState::Scalar { value, .. } => Option::Some(
                            clone_opt_value(value),
                        ),
                        _ => Option::None,
                    }
                } else {
                    Option::None
                }
            },
            Node::Choice { .. } => Option::None,
        }
    }

    /// The three-state value of an optional scalar field, or `None` when no
    /// such field exists.
    pub fn get_optional(&self, name: &str) -> (r: Option<OptValue>)
        ensures
            match self@ {
                NodeModel::Record { fields } => {
                    let k = find_field(fields, name@);
                    if k >= 0 && fields[k].state matches FieldStateModel::Optional { .. } {
                        r matches Option::Some(o) && o@ == fields[k].state->Optional_value
                    } else {
                        r is None
                    }
                },
                NodeModel::Choice { .. } => r is None,
            },
    {
        match self {
            Node::Record { fields } => {
                let ghost fm = fields_model(fields@);
                let k = find_field_exec(fields, name);
                proof {
                    lemma_find_field(fm, name@);
                }
                if k < fields.len() {
                    proof {
                        lemma_fields_model_index(fields@, k as int);
                    }
                    match &fields[k].state {
                        FieldState::Optional { value, .. } => Option::Some(
                            value.clone(),
                        ),
                        _ => Option::None,
                    }
                } else {
                    Option::None
                }
            },
            Node::Choice { .. } => Option::None,
        }
    }
}

} // verus!
