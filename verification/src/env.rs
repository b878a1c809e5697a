//! Loading a builder from a table of environment bindings.
//!
//! The table is plain data handed in by the caller; each scalar field reads
//! the key `{prefix}_{field_name}`, nested children extend the prefix, and a
//! choice node reads its selector from `{prefix}_using`.  An absent key
//! leaves a field unset; an unparsable value is reported, and loading still
//! continues through every other field.

use vstd::prelude::*;
use crate::node::{Field, FieldState, Node, OptValue, Variant};
use crate::node::{FieldModel, FieldStateModel, NodeModel, OptValueModel, VariantModel};
use crate::node::{fields_model, variants_model};
use crate::node::{field_height, node_height};
use crate::node::{
    lemma_fields_height_index, lemma_fields_model_index, lemma_fields_model_len,
    lemma_fields_model_push, lemma_variants_height_index, lemma_variants_model_index,
    lemma_variants_model_len, lemma_variants_model_push,
};
use crate::strings::{str_eq, strings_view};
use crate::value::{Value, clone_opt_value, parse_value, parse_value_model, opt_value_model};

verus! {

/// One environment binding.
#[derive(Debug, PartialEq)]
pub struct EnvEntry {
    pub key: String,
    pub value: String,
}

#[verifier::ext_equal]
pub struct EnvEntryModel {
    pub key: Seq<char>,
    pub value: Seq<char>,
}

/// An in-memory table of environment bindings; newer bindings shadow older
/// ones of the same key.
#[derive(Debug, PartialEq)]
pub struct EnvMap {
    pub entries: Vec<EnvEntry>,
}

pub open spec fn env_entry_model(e: EnvEntry) -> EnvEntryModel {
    EnvEntryModel { key: e.key@, value: e.value@ }
}

impl View for EnvEntry {
    type V = EnvEntryModel;

    open spec fn view(&self) -> EnvEntryModel {
        env_entry_model(*self)
    }
}

impl View for EnvMap {
    type V = Seq<EnvEntryModel>;

    open spec fn view(&self) -> Seq<EnvEntryModel> {
        self.entries@.map_values(|e: EnvEntry| env_entry_model(e))
    }
}

/// First binding of the key, if any.
pub open spec fn env_lookup(env: Seq<EnvEntryModel>, key: Seq<char>) -> Option<Seq<char>>
    decreases env,
{
    if env.len() == 0 {
        Option::None
    } else if env[0].key == key {
        Option::Some(env[0].value)
    } else {
        env_lookup(env.drop_first(), key)
    }
}

impl EnvMap {
    /// An empty table.
    pub fn new() -> (r: EnvMap)
        ensures
            r@ == Seq::<EnvEntryModel>::empty(),
    {
        let r = EnvMap { entries: Vec::new() };
        proof {
            assert(r@ =~= Seq::<EnvEntryModel>::empty());
        }
        r
    }

    /// Binds a key, shadowing any earlier binding of the same key.
    pub fn set(self, key: &str, value: &str) -> (r: EnvMap)
        ensures
            r@ == seq![EnvEntryModel { key: key@, value: value@ }] + self@,
    {
        let mut entries = self.entries;
        let ghost prev = entries@;
        entries.insert(0, EnvEntry { key: String::from_str(key), value: String::from_str(value) });
        let r = EnvMap { entries };
        proof {
            assert(r@ =~= seq![EnvEntryModel { key: key@, value: value@ }] + prev.map_values(
                |e: EnvEntry| env_entry_model(e),
            ));
        }
        r
    }

    /// The first binding of a key.
    pub fn get(&self, key: &str) -> (r: Option<&String>)
        ensures
            match env_lookup(self@, key@) {
                Option::Some(v) => r matches Option::Some(s) && s@ == v,
                Option::None => r is None,
            },
    {
        proof {
            assert(self@.subrange(0, self@.len() as int) =~= self@);
        }
        let mut i: usize = 0;
        while i < self.entries.len()
            invariant
                i <= self.entries@.len(),
                env_lookup(self@, key@) == env_lookup(
                    self@.subrange(i as int, self@.len() as int),
                    key@,
                ),
                self@.len() == self.entries@.len(),
            decreases self.entries@.len() - i,
        {
            proof {
                assert(self@.subrange(i as int, self@.len() as int)[0] == self@[i as int]);
            }
            if str_eq(self.entries[i].key.as_str(), key) {
                return Option::Some(&self.entries[i].value);
            }
            proof {
                assert(self@.subrange(i as int, self@.len() as int).drop_first() =~= self@.subrange(
                    i + 1 as int,
                    self@.len() as int,
                ));
            }
            i = i + 1;
        }
        proof {
            assert(self@.subrange(self@.len() as int, self@.len() as int).len() == 0);
        }
        Option::None
    }
}

/// The environment key of a field: the prefix, an underscore, the name.
pub open spec fn env_key(prefix: Seq<char>, name: Seq<char>) -> Seq<char> {
    prefix + seq!['_'] + name
}

/// The message reported for a present but unparsable value.
pub open spec fn parse_fail_msg(key: Seq<char>, raw: Seq<char>) -> Seq<char> {
    "could not parse environment variable "@ + key + seq!['='] + raw
}

/// The state a field is in after environment loading.
pub open spec fn env_field(f: FieldModel, prefix: Seq<char>, env: Seq<EnvEntryModel>) -> FieldModel
    decreases f,
{
    match f.state {
        FieldStateModel::Scalar { kind, default, .. } => FieldModel {
            name: f.name,
            state: FieldStateModel::Scalar {
                kind,
                default,
                value: match env_lookup(env, env_key(prefix, f.name)) {
                    Option::None => Option::None,
                    Option::Some(raw) => parse_value_model(kind, raw),
                },
            },
        },
        FieldStateModel::Optional { kind, default, .. } => FieldModel {
            name: f.name,
            state: FieldStateModel::Optional {
                kind,
                default,
                value: match env_lookup(env, env_key(prefix, f.name)) {
                    Option::None => OptValueModel::Unset,
                    Option::Some(raw) => match parse_value_model(kind, raw) {
                        Option::Some(v) => OptValueModel::Present(v),
                        Option::None => OptValueModel::Unset,
                    },
                },
            },
        },
        FieldStateModel::Nested { child } => FieldModel {
            name: f.name,
            state: FieldStateModel::Nested {
                child: Box::new(env_node(*child, env_key(prefix, f.name), env)),
            },
        },
        FieldStateModel::OptionalNested { child } => FieldModel {
            name: f.name,
            state: FieldStateModel::OptionalNested {
                child: Box::new(env_node(*child, env_key(prefix, f.name), env)),
            },
        },
    }
}

/// The messages a field contributes while loading.
pub open spec fn env_field_errs(f: FieldModel, prefix: Seq<char>, env: Seq<EnvEntryModel>) -> Seq<
    Seq<char>,
>
    decreases f,
{
    match f.state {
        FieldStateModel::Scalar { kind, .. } => match env_lookup(env, env_key(prefix, f.name)) {
            Option::Some(raw) => if parse_value_model(kind, raw) is None {
                seq![parse_fail_msg(env_key(prefix, f.name), raw)]
            } else {
                Seq::empty()
            },
            Option::None => Seq::empty(),
        },
        FieldStateModel::Optional { kind, .. } => match env_lookup(env, env_key(prefix, f.name)) {
            Option::Some(raw) => if parse_value_model(kind, raw) is None {
                seq![parse_fail_msg(env_key(prefix, f.name), raw)]
            } else {
                Seq::empty()
            },
            Option::None => Seq::empty(),
        },
        FieldStateModel::Nested { child } => env_node_errs(*child, env_key(prefix, f.name), env),
        FieldStateModel::OptionalNested { child } => env_node_errs(
            *child,
            env_key(prefix, f.name),
            env,
        ),
    }
}

pub open spec fn env_fields(fs: Seq<FieldModel>, prefix: Seq<char>, env: Seq<EnvEntryModel>) -> Seq<
    FieldModel,
>
    decreases fs,
{
    if fs.len() == 0 {
        Seq::empty()
    } else {
        seq![env_field(fs[0], prefix, env)] + env_fields(fs.drop_first(), prefix, env)
    }
}

pub open spec fn env_fields_errs(
    fs: Seq<FieldModel>,
    prefix: Seq<char>,
    env: Seq<EnvEntryModel>,
) -> Seq<Seq<char>>
    decreases fs,
{
    if fs.len() == 0 {
        Seq::empty()
    } else {
        env_field_errs(fs[0], prefix, env) + env_fields_errs(fs.drop_first(), prefix, env)
    }
}

pub open spec fn env_variant(v: VariantModel, prefix: Seq<char>, env: Seq<EnvEntryModel>) -> VariantModel
    decreases v,
{
    VariantModel { name: v.name, child: Box::new(env_node(*v.child, env_key(prefix, v.name), env)) }
}

pub open spec fn env_variants(
    vs: Seq<VariantModel>,
    prefix: Seq<char>,
    env: Seq<EnvEntryModel>,
) -> Seq<VariantModel>
    decreases vs,
{
    if vs.len() == 0 {
        Seq::empty()
    } else {
        seq![env_variant(vs[0], prefix, env)] + env_variants(vs.drop_first(), prefix, env)
    }
}

pub open spec fn env_variants_errs(
    vs: Seq<VariantModel>,
    prefix: Seq<char>,
    env: Seq<EnvEntryModel>,
) -> Seq<Seq<char>>
    decreases vs,
{
    if vs.len() == 0 {
        Seq::empty()
    } else {
        env_node_errs(*vs[0].child, env_key(prefix, vs[0].name), env) + env_variants_errs(
            vs.drop_first(),
            prefix,
            env,
        )
    }
}

/// The builder that environment loading yields: fresh, with exactly the
/// parsable bound keys set.
pub open spec fn env_node(n: NodeModel, prefix: Seq<char>, env: Seq<EnvEntryModel>) -> NodeModel
    decreases n,
{
    match n {
        NodeModel::Record { fields } => NodeModel::Record {
            fields: env_fields(fields, prefix, env),
        },
        NodeModel::Choice { variants, .. } => NodeModel::Choice {
            selector: env_lookup(env, prefix + "_using"@),
            variants: env_variants(variants, prefix, env),
        },
    }
}

/// Every message loading gathers, in declaration order.
pub open spec fn env_node_errs(n: NodeModel, prefix: Seq<char>, env: Seq<EnvEntryModel>) -> Seq<
    Seq<char>,
>
    decreases n,
{
    match n {
        NodeModel::Record { fields } => env_fields_errs(fields, prefix, env),
        NodeModel::Choice { variants, .. } => env_variants_errs(variants, prefix, env),
    }
}

pub proof fn lemma_env_fields_push(
    fs: Seq<FieldModel>,
    f: FieldModel,
    prefix: Seq<char>,
    env: Seq<EnvEntryModel>,
)
    ensures
        env_fields(fs.push(f), prefix, env) =~= env_fields(fs, prefix, env).push(
            env_field(f, prefix, env),
        ),
    decreases fs,
{
    assert(fs.push(f).len() == fs.len() + 1);
    if fs.len() == 0 {
        assert(fs.push(f)[0] == f);
        assert(fs.push(f).drop_first() =~= Seq::<FieldModel>::empty());
        assert(env_fields(fs.push(f), prefix, env) == seq![env_field(f, prefix, env)] + env_fields(
            fs.push(f).drop_first(),
            prefix,
            env,
        ));
    } else {
        assert(fs.push(f)[0] == fs[0]);
        assert(fs.push(f).drop_first() =~= fs.drop_first().push(f));
        lemma_env_fields_push(fs.drop_first(), f, prefix, env);
        assert(env_fields(fs.push(f), prefix, env) == seq![env_field(fs[0], prefix, env)]
            + env_fields(fs.drop_first().push(f), prefix, env));
    }
}

pub proof fn lemma_env_fields_errs_push(
    fs: Seq<FieldModel>,
    f: FieldModel,
    prefix: Seq<char>,
    env: Seq<EnvEntryModel>,
)
    ensures
        env_fields_errs(fs.push(f), prefix, env) =~= env_fields_errs(fs, prefix, env)
            + env_field_errs(f, prefix, env),
    decreases fs,
{
    assert(fs.push(f).len() == fs.len() + 1);
    if fs.len() == 0 {
        assert(fs.push(f)[0] == f);
        assert(fs.push(f).drop_first() =~= Seq::<FieldModel>::empty());
        assert(env_fields_errs(fs.push(f), prefix, env) == env_field_errs(f, prefix, env)
            + env_fields_errs(fs.push(f).drop_first(), prefix, env));
    } else {
        assert(fs.push(f)[0] == fs[0]);
        assert(fs.push(f).drop_first() =~= fs.drop_first().push(f));
        lemma_env_fields_errs_push(fs.drop_first(), f, prefix, env);
        assert(env_fields_errs(fs.push(f), prefix, env) == env_field_errs(fs[0], prefix, env)
            + env_fields_errs(fs.drop_first().push(f), prefix, env));
    }
}

pub proof fn lemma_env_variants_push(
    vs: Seq<VariantModel>,
    v: VariantModel,
    prefix: Seq<char>,
    env: Seq<EnvEntryModel>,
)
    ensures
        env_variants(vs.push(v), prefix, env) =~= env_variants(vs, prefix, env).push(
            env_variant(v, prefix, env),
        ),
    decreases vs,
{
    assert(vs.push(v).len() == vs.len() + 1);
    if vs.len() == 0 {
        assert(vs.push(v)[0] == v);
        assert(vs.push(v).drop_first() =~= Seq::<VariantModel>::empty());
        assert(env_variants(vs.push(v), prefix, env) == seq![env_variant(v, prefix, env)]
            + env_variants(vs.push(v).drop_first(), prefix, env));
    } else {
        assert(vs.push(v)[0] == vs[0]);
        assert(vs.push(v).drop_first() =~= vs.drop_first().push(v));
        lemma_env_variants_push(vs.drop_first(), v, prefix, env);
        assert(env_variants(vs.push(v), prefix, env) == seq![env_variant(vs[0], prefix, env)]
            + env_variants(vs.drop_first().push(v), prefix, env));
    }
}

pub proof fn lemma_env_variants_errs_push(
    vs: Seq<VariantModel>,
    v: VariantModel,
    prefix: Seq<char>,
    env: Seq<EnvEntryModel>,
)
    ensures
        env_variants_errs(vs.push(v), prefix, env) =~= env_variants_errs(vs, prefix, env)
            + env_node_errs(*v.child, env_key(prefix, v.name), env),
    decreases vs,
{
    assert(vs.push(v).len() == vs.len() + 1);
    if vs.len() == 0 {
        assert(vs.push(v)[0] == v);
        assert(vs.push(v).drop_first() =~= Seq::<VariantModel>::empty());
        assert(env_variants_errs(vs.push(v), prefix, env) == env_node_errs(
            *v.child,
            env_key(prefix, v.name),
            env,
        ) + env_variants_errs(vs.push(v).drop_first(), prefix, env));
    } else {
        assert(vs.push(v)[0] == vs[0]);
        assert(vs.push(v).drop_first() =~= vs.drop_first().push(v));
        lemma_env_variants_errs_push(vs.drop_first(), v, prefix, env);
        assert(env_variants_errs(vs.push(v), prefix, env) == env_node_errs(
            *vs[0].child,
            env_key(prefix, vs[0].name),
            env,
        ) + env_variants_errs(vs.drop_first().push(v), prefix, env));
    }
}

/// The environment key of a field, as a fresh string.
fn env_key_exec(prefix: &str, name: &str) -> (r: String)
    ensures
        r@ == env_key(prefix@, name@),
{
    proof {
        reveal_strlit("_");
    }
    let r = String::from_str(prefix).concat("_").concat(name);
    proof {
        assert(r@ =~= env_key(prefix@, name@));
    }
    r
}

fn parse_fail_msg_exec(key: &str, raw: &str) -> (r: String)
    ensures
        r@ == parse_fail_msg(key@, raw@),
{
    proof {
        reveal_strlit("=");
    }
    let r = String::from_str("could not parse environment variable ").concat(key).concat(
        "=",
    ).concat(raw);
    proof {
        assert(r@ =~= parse_fail_msg(key@, raw@));
    }
    r
}

/// Loads one field from the environment.
fn load_field(f: &Field, prefix: &str, env: &EnvMap) -> (r: (Field, Vec<String>))
    ensures
        r.0@ == env_field(f@, prefix@, env@),
        strings_view(r.1@) == env_field_errs(f@, prefix@, env@),
    decreases field_height(f@),
{
    let name = f.name.clone();
    match &f.state {
        FieldState::Scalar { kind, default, .. } => {
            let key = env_key_exec(prefix, name.as_str());
            let mut errs: Vec<String> = Vec::new();
            let value = match env.get(key.as_str()) {
                Option::None => Option::None,
                Option::Some(raw) => match parse_value(*kind, raw.as_str()) {
                    Option::Some(v) => Option::Some(v),
                    Option::None => {
                        errs.push(parse_fail_msg_exec(key.as_str(), raw.as_str()));
                        Option::None
                    },
                },
            };
            let out = Field {
                name,
                state: FieldState::Scalar {
                    kind: *kind,
                    default: clone_opt_value(default),
                    value,
                },
            };
            proof {
                assert(strings_view(errs@) =~= env_field_errs(f@, prefix@, env@));
            }
            (out, errs)
        },
        FieldState::Optional { kind, default, .. } => {
            let key = env_key_exec(prefix, name.as_str());
            let mut errs: Vec<String> = Vec::new();
            let value = match env.get(key.as_str()) {
                Option::None => OptValue::Unset,
                Option::Some(raw) => match parse_value(*kind, raw.as_str()) {
                    Option::Some(v) => OptValue::Present(v),
                    Option::None => {
                        errs.push(parse_fail_msg_exec(key.as_str(), raw.as_str()));
                        OptValue::Unset
                    },
                },
            };
            let out = Field {
                name,
                state: FieldState::Optional {
                    kind: *kind,
                    default: clone_opt_value(default),
                    value,
                },
            };
            proof {
                assert(strings_view(errs@) =~= env_field_errs(f@, prefix@, env@));
            }
            (out, errs)
        },
        FieldState::Nested { child } => {
            let key = env_key_exec(prefix, name.as_str());
            let (sub, errs) = load_node(child, key.as_str(), env);
            (Field { name, state: FieldState::Nested { child: Box::new(sub) } }, errs)
        },
        FieldState::OptionalNested { child } => {
            let key = env_key_exec(prefix, name.as_str());
            let (sub, errs) = load_node(child, key.as_str(), env);
            (Field { name, state: FieldState::OptionalNested { child: Box::new(sub) } }, errs)
        },
    }
}

/// Loads a fresh builder of this schema from the environment, gathering
/// every parse failure.
fn load_node(n: &Node, prefix: &str, env: &EnvMap) -> (r: (Node, Vec<String>))
    ensures
        r.0@ == env_node(n@, prefix@, env@),
        strings_view(r.1@) == env_node_errs(n@, prefix@, env@),
    decreases node_height(n@),
{
    match n {
        Node::Record { fields } => {
            let ghost fm = fields_model(fields@);
            proof {
                lemma_fields_model_len(fields@);
            }
            let mut out: Vec<Field> = Vec::new();
            let mut errs: Vec<String> = Vec::new();
            let mut i: usize = 0;
            while i < fields.len()
                invariant
                    i <= fields@.len() == fm.len(),
                    fm == fields_model(fields@),
                    n@ == (NodeModel::Record { fields: fm }),
                    fields_model(out@) =~= env_fields(fm.subrange(0, i as int), prefix@, env@),
                    strings_view(errs@) =~= env_fields_errs(
                        fm.subrange(0, i as int),
                        prefix@,
                        env@,
                    ),
                decreases fields@.len() - i,
            {
                proof {
                    lemma_fields_model_index(fields@, i as int);
                    lemma_fields_height_index(fm, i as int);
                }
                let (fld, mut sub_errs) = load_field(&fields[i], prefix, env);
                let ghost prev = out@;
                let ghost preve = errs@;
                let ghost subm = sub_errs@;
                out.push(fld);
                errs.append(&mut sub_errs);
                proof {
                    lemma_fields_model_push(prev, fld);
                    lemma_env_fields_push(fm.subrange(0, i as int), fm[i as int], prefix@, env@);
                    lemma_env_fields_errs_push(
                        fm.subrange(0, i as int),
                        fm[i as int],
                        prefix@,
                        env@,
                    );
                    assert(strings_view(preve + subm) =~= strings_view(preve) + strings_view(
                        subm,
                    ));
                    assert(fm.subrange(0, i + 1 as int) =~= fm.subrange(0, i as int).push(
                        fm[i as int],
                    ));
                }
                i = i + 1;
            }
            proof {
                assert(fm.subrange(0, fm.len() as int) =~= fm);
            }
            (Node::Record { fields: out }, errs)
        },
        Node::Choice { variants, .. } => {
            let ghost vm = variants_model(variants@);
            proof {
                lemma_variants_model_len(variants@);
                reveal_strlit("using");
                reveal_strlit("_");
            }
            let using_key = env_key_exec(prefix, "using");
            let selector = match env.get(using_key.as_str()) {
                Option::Some(s) => Option::Some(s.clone()),
                Option::None => Option::None,
            };
            proof {
                assert(using_key@ =~= prefix@ + "_using"@) by {
                    reveal_strlit("using");
                    reveal_strlit("_using");
                    reveal_strlit("_");
                }
            }
            let mut out: Vec<Variant> = Vec::new();
            let mut errs: Vec<String> = Vec::new();
            let mut i: usize = 0;
            while i < variants.len()
                invariant
                    i <= variants@.len() == vm.len(),
                    vm == variants_model(variants@),
                    n@ matches NodeModel::Choice { variants: x, .. } && x == vm,
                    variants_model(out@) =~= env_variants(vm.subrange(0, i as int), prefix@, env@),
                    strings_view(errs@) =~= env_variants_errs(
                        vm.subrange(0, i as int),
                        prefix@,
                        env@,
                    ),
                decreases variants@.len() - i,
            {
                proof {
                    lemma_variants_model_index(variants@, i as int);
                    lemma_variants_height_index(vm, i as int);
                }
                let key = env_key_exec(prefix, variants[i].name.as_str());
                let (sub, mut sub_errs) = load_node(&variants[i].child, key.as_str(), env);
                let vr = Variant { name: variants[i].name.clone(), child: Box::new(sub) };
                let ghost prev = out@;
                let ghost preve = errs@;
                let ghost subm = sub_errs@;
                out.push(vr);
                errs.append(&mut sub_errs);
                proof {
                    lemma_variants_model_push(prev, vr);
                    lemma_env_variants_push(vm.subrange(0, i as int), vm[i as int], prefix@, env@);
                    lemma_env_variants_errs_push(
                        vm.subrange(0, i as int),
                        vm[i as int],
                        prefix@,
                        env@,
                    );
                    assert(strings_view(preve + subm) =~= strings_view(preve) + strings_view(
                        subm,
                    ));
                    assert(vm.subrange(0, i + 1 as int) =~= vm.subrange(0, i as int).push(
                        vm[i as int],
                    ));
                }
                i = i + 1;
            }
            proof {
                assert(vm.subrange(0, vm.len() as int) =~= vm);
            }
            (Node::Choice { selector, variants: out }, errs)
        },
    }
}

impl Node {
    /// Loads a fresh builder of this schema from the given bindings under a
    /// caller-chosen prefix.
    ///
    /// Succeeds exactly when every bound key parses; an absent key only
    /// leaves its field unset.  On failure, every unparsable binding is
    /// reported, each message naming the key and the raw value.
    pub fn from_env_prefixed(&self, prefix: &str, env: &EnvMap) -> (r: Result<Node, Vec<String>>)
        ensures
            env_node_errs(self@, prefix@, env@).len() == 0 ==> (r matches Result::Ok(n) && n@
                == env_node(self@, prefix@, env@)),
            env_node_errs(self@, prefix@, env@).len() > 0 ==> (r matches Result::Err(e)
                && strings_view(e@) == env_node_errs(self@, prefix@, env@)),
    {
        let (node, errs) = load_node(self, prefix, env);
        if errs.len() == 0 {
            Result::Ok(node)
        } else {
            Result::Err(errs)
        }
    }

    /// `from_env_prefixed` under the fixed root prefix.
    pub fn from_env(&self, env: &EnvMap) -> (r: Result<Node, Vec<String>>)
        ensures
            env_node_errs(self@, "CONFIG"@, env@).len() == 0 ==> (r matches Result::Ok(n) && n@
                == env_node(self@, "CONFIG"@, env@)),
            env_node_errs(self@, "CONFIG"@, env@).len() > 0 ==> (r matches Result::Err(e)
                && strings_view(e@) == env_node_errs(self@, "CONFIG"@, env@)),
    {
        self.from_env_prefixed("CONFIG", env)
    }
}

} // verus!
