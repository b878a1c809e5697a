use app_config::config::{Config, EntryValue};
use app_config::env::EnvMap;
use app_config::node::{Node, OptValue};
use app_config::resolve::resolve;
use app_config::value::{ScalarKind, Value};

fn text(s: &str) -> Value {
    Value::Text(String::from(s))
}

fn abc_schema() -> Node {
    Node::record()
        .add_scalar("field_a", ScalarKind::Text)
        .add_scalar("field_b", ScalarKind::Uint)
        .add_scalar("field_c", ScalarKind::Boolean)
}

fn opt_schema() -> Node {
    Node::record().add_optional("optional", ScalarKind::Uint)
}

#[test]
fn merge_is_associative_on_values() {
    let grouped_left = abc_schema()
        .set("field_a", text("x"))
        .combine(abc_schema().set("field_b", Value::Uint(1)))
        .combine(abc_schema().set("field_a", text("y")).set("field_c", Value::Boolean(true)));
    let grouped_right = abc_schema().set("field_a", text("x")).combine(
        abc_schema()
            .set("field_b", Value::Uint(1))
            .combine(abc_schema().set("field_a", text("y")).set("field_c", Value::Boolean(true))),
    );
    assert_eq!(grouped_left, grouped_right);
}

#[test]
fn missing_fields_all_reported() {
    let result = abc_schema().try_build();
    assert_eq!(
        result,
        Err(vec![
            String::from("field_a"),
            String::from("field_b"),
            String::from("field_c")
        ])
    );
}

#[test]
fn optional_three_state_merge() {
    let absent_first = opt_schema()
        .set_opt("optional", None)
        .combine(opt_schema().set_opt("optional", Some(Value::Uint(5))));
    assert_eq!(absent_first.get_optional("optional"), Some(OptValue::Absent));
    let config = absent_first.try_build().unwrap();
    assert_eq!(config.get("optional"), Some(&EntryValue::Optional(None)));

    let present_first = opt_schema()
        .set_opt("optional", Some(Value::Uint(5)))
        .combine(opt_schema().set_opt("optional", None));
    assert_eq!(
        present_first.get_optional("optional"),
        Some(OptValue::Present(Value::Uint(5)))
    );
    let config = present_first.try_build().unwrap();
    assert_eq!(
        config.get("optional"),
        Some(&EntryValue::Optional(Some(Value::Uint(5))))
    );

    let unset_first = opt_schema().combine(opt_schema().set_opt("optional", Some(Value::Uint(5))));
    assert_eq!(
        unset_first.get_optional("optional"),
        Some(OptValue::Present(Value::Uint(5)))
    );
}

#[test]
fn selector_errors_are_not_missing_field_lists() {
    let choice = Node::choice().add_variant("ChoiceA", abc_schema());
    assert_eq!(
        choice.try_build(),
        Err(vec![String::from("using is not specified")])
    );

    let choice = Node::choice().add_variant("ChoiceA", abc_schema());
    assert_eq!(
        choice.select("no_such_variant").try_build(),
        Err(vec![String::from("using has invalid value")])
    );
}

#[test]
fn nested_emptiness_flips_on_first_leaf() {
    let sub = Node::record()
        .add_scalar("x", ScalarKind::Text)
        .add_scalar("y", ScalarKind::Text);
    let builder = Node::record().add_optional_nested("inner", sub);
    assert!(builder.is_empty());

    let sub_one_set = Node::record()
        .add_scalar("x", ScalarKind::Text)
        .add_scalar("y", ScalarKind::Text)
        .set("x", text("set"));
    let builder = Node::record().add_optional_nested(
        "inner",
        Node::record()
            .add_scalar("x", ScalarKind::Text)
            .add_scalar("y", ScalarKind::Text),
    );
    let builder = builder.set_nested("inner", sub_one_set);
    assert!(!builder.is_empty());
    assert_eq!(builder.try_build(), Err(vec![String::from("y")]));
}

#[test]
fn layered_resolution_scenario() {
    let explicit = abc_schema().set("field_a", text("x"));
    assert_eq!(
        abc_schema().set("field_a", text("x")).try_build(),
        Err(vec![String::from("field_b"), String::from("field_c")])
    );

    let env = EnvMap::new()
        .set("PREFIX_field_b", "123")
        .set("PREFIX_field_c", "false");
    let from_env = abc_schema().from_env_prefixed("PREFIX", &env).unwrap();

    let config = resolve(vec![explicit, from_env]).unwrap();
    let expected = abc_schema()
        .set("field_a", text("x"))
        .set("field_b", Value::Uint(123))
        .set("field_c", Value::Boolean(false))
        .try_build()
        .unwrap();
    assert_eq!(config, expected);
}

#[test]
fn resolver_prefers_earlier_sources_and_applies_defaults_last() {
    let schema = Node::record()
        .add_scalar_default("port", ScalarKind::Uint, Value::Uint(8080))
        .add_scalar_default("host", ScalarKind::Text, text("localhost"));
    let cli = Node::record()
        .add_scalar_default("port", ScalarKind::Uint, Value::Uint(8080))
        .add_scalar_default("host", ScalarKind::Text, text("localhost"))
        .set("port", Value::Uint(80));
    let env = EnvMap::new().set("APP_port", "3000").set("APP_host", "example.com");
    let from_env = schema.from_env_prefixed("APP", &env).unwrap();
    let defaults = Node::record()
        .add_scalar_default("port", ScalarKind::Uint, Value::Uint(8080))
        .add_scalar_default("host", ScalarKind::Text, text("localhost"))
        .new_default();

    let config = resolve(vec![cli, from_env, defaults]).unwrap();
    assert_eq!(config.get("port"), Some(&EntryValue::Scalar(Value::Uint(80))));
    assert_eq!(
        config.get("host"),
        Some(&EntryValue::Scalar(text("example.com")))
    );
}
