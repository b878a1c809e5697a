use app_config::config::EntryValue;
use app_config::env::EnvMap;
use app_config::node::Node;
use app_config::value::{ScalarKind, Value};

fn text(s: &str) -> Value {
    Value::Text(String::from(s))
}

fn multiple_types_config() -> Node {
    Node::record()
        .add_scalar("field_a", ScalarKind::Text)
        .add_scalar("field_b", ScalarKind::Uint)
        .add_scalar("field_c", ScalarKind::Boolean)
}

fn attr_default_config() -> Node {
    Node::record()
        .add_scalar_default("field_a", ScalarKind::Text, text("test default"))
        .add_scalar_default("field_b", ScalarKind::Uint, Value::Uint(321))
        .add_scalar_default("field_c", ScalarKind::Boolean, Value::Boolean(true))
}

fn basic_config() -> Node {
    Node::record()
        .add_scalar("field_a", ScalarKind::Text)
        .add_scalar("field_b", ScalarKind::Text)
        .add_scalar("field_c", ScalarKind::Text)
}

#[test]
fn from_env_ok() {
    let env = EnvMap::new()
        .set("CONFIG_field_a", "test a")
        .set("CONFIG_field_b", "123")
        .set("CONFIG_field_c", "false");
    let builder_result = multiple_types_config().from_env(&env);
    assert!(builder_result.is_ok());
    let config_result = builder_result.unwrap().try_build();
    assert!(config_result.is_ok());
    let config = config_result.unwrap();
    assert_eq!(config.get("field_a"), Some(&EntryValue::Scalar(text("test a"))));
    assert_eq!(
        config.get("field_b"),
        Some(&EntryValue::Scalar(Value::Uint(123)))
    );
    assert_eq!(
        config.get("field_c"),
        Some(&EntryValue::Scalar(Value::Boolean(false)))
    );
}

#[test]
fn from_env_err() {
    let env = EnvMap::new()
        .set("CONFIG_from_env_err_field_a", "test a")
        .set("CONFIG_from_env_err_field_b", "test b")
        .set("CONFIG_from_env_err_field_c", "test c");
    let result = multiple_types_config().from_env_prefixed("CONFIG_from_env_err", &env);
    assert!(result.is_err());
    let errors = result.err().unwrap().len();
    assert_eq!(errors, 2);
}

#[test]
fn from_env_custom_prefix() {
    let env = EnvMap::new()
        .set("MY_CUSTOM_PREFIX_field_a", "test a")
        .set("MY_CUSTOM_PREFIX_field_b", "123")
        .set("MY_CUSTOM_PREFIX_field_c", "false");
    let builder_result = multiple_types_config().from_env_prefixed("MY_CUSTOM_PREFIX", &env);
    assert!(builder_result.is_ok());
    let config_result = builder_result.unwrap().try_build();
    assert!(config_result.is_ok());
    let config = config_result.unwrap();
    assert_eq!(config.get("field_a"), Some(&EntryValue::Scalar(text("test a"))));
    assert_eq!(
        config.get("field_b"),
        Some(&EntryValue::Scalar(Value::Uint(123)))
    );
    assert_eq!(
        config.get("field_c"),
        Some(&EntryValue::Scalar(Value::Boolean(false)))
    );
}

#[test]
fn nested_from_env() {
    let env = EnvMap::new()
        .set("CONFIG_nested_from_env_nested_a_field_a", "test a")
        .set("CONFIG_nested_from_env_nested_a_field_b", "test b")
        .set("CONFIG_nested_from_env_nested_a_field_c", "test c");
    let schema = Node::record().add_nested("nested_a", basic_config());
    let builder_result = schema.from_env_prefixed("CONFIG_nested_from_env", &env);
    assert!(builder_result.is_ok());
    let config_result = builder_result.unwrap().try_build();
    assert!(config_result.is_ok());
    let config = config_result.unwrap();
    let nested = match config.get("nested_a") {
        Some(EntryValue::Nested(b)) => b,
        other => panic!("no nested field: {:?}", other),
    };
    assert_eq!(nested.get("field_a"), Some(&EntryValue::Scalar(text("test a"))));
    assert_eq!(nested.get("field_b"), Some(&EntryValue::Scalar(text("test b"))));
    assert_eq!(nested.get("field_c"), Some(&EntryValue::Scalar(text("test c"))));
}

#[test]
fn default_attr_not_used_when_from_env() {
    let env = EnvMap::new().set("NO_DEFAULT_VALUE_field_c", "false");
    let builder = attr_default_config()
        .from_env_prefixed("NO_DEFAULT_VALUE", &env)
        .unwrap();
    assert_eq!(builder.get_scalar("field_a"), Some(None));
    assert_eq!(builder.get_scalar("field_b"), Some(None));
    assert_eq!(
        builder.get_scalar("field_c"),
        Some(Some(Value::Boolean(false)))
    );
}

#[test]
fn enum_from_env() {
    let env = EnvMap::new()
        .set("CONFIG_enum_from_env_using", "choice_a")
        .set("CONFIG_enum_from_env_choice_a_field_c", "test c");
    let schema = Node::choice()
        .add_variant("ChoiceA", basic_config())
        .add_variant("ChoiceB", attr_default_config());
    let loaded = schema.from_env_prefixed("CONFIG_enum_from_env", &env).unwrap();
    let more = Node::choice()
        .add_variant("ChoiceA", basic_config())
        .add_variant("ChoiceB", attr_default_config())
        .set_variant(
            "choice_a",
            basic_config()
                .set("field_a", text("test a"))
                .set("field_b", text("test b")),
        );
    let config = loaded.combine(more).try_build().unwrap();
    assert_eq!(
        config,
        app_config::config::Config::Tagged {
            selector: String::from("choice_a"),
            value: Box::new(
                basic_config()
                    .set("field_a", text("test a"))
                    .set("field_b", text("test b"))
                    .set("field_c", text("test c"))
                    .try_build()
                    .unwrap()
            ),
        }
    );
}

#[test]
fn env_absent_key_leaves_unset() {
    let env = EnvMap::new().set("CONFIG_field_a", "only this");
    let builder = multiple_types_config().from_env(&env).unwrap();
    assert_eq!(builder.get_scalar("field_a"), Some(Some(text("only this"))));
    assert_eq!(builder.get_scalar("field_b"), Some(None));
    assert_eq!(builder.get_scalar("field_c"), Some(None));
}

#[test]
fn env_parse_error_message_names_key_and_value() {
    let env = EnvMap::new().set("APP_field_b", "12a");
    let schema = Node::record().add_scalar("field_b", ScalarKind::Uint);
    let result = schema.from_env_prefixed("APP", &env);
    assert_eq!(
        result,
        Err(vec![String::from(
            "could not parse environment variable APP_field_b=12a"
        )])
    );
}

#[test]
fn env_uint_bounds() {
    let schema = Node::record().add_scalar("n", ScalarKind::Uint);

    let env = EnvMap::new().set("P_n", "18446744073709551615");
    let builder = schema.from_env_prefixed("P", &env).unwrap();
    assert_eq!(
        builder.get_scalar("n"),
        Some(Some(Value::Uint(18446744073709551615)))
    );

    let schema = Node::record().add_scalar("n", ScalarKind::Uint);
    let env = EnvMap::new().set("P_n", "18446744073709551616");
    assert!(schema.from_env_prefixed("P", &env).is_err());

    let schema = Node::record().add_scalar("n", ScalarKind::Uint);
    let env = EnvMap::new().set("P_n", "+5");
    assert!(schema.from_env_prefixed("P", &env).is_err());

    let schema = Node::record().add_scalar("n", ScalarKind::Uint);
    let env = EnvMap::new().set("P_n", "");
    assert!(schema.from_env_prefixed("P", &env).is_err());
}

#[test]
fn env_optional_scalar_becomes_present() {
    let env = EnvMap::new().set("CONFIG_opt", "7");
    let schema = Node::record().add_optional("opt", ScalarKind::Uint);
    let builder = schema.from_env(&env).unwrap();
    let config = builder.try_build().unwrap();
    assert_eq!(
        config.get("opt"),
        Some(&EntryValue::Optional(Some(Value::Uint(7))))
    );
}
