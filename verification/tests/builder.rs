use app_config::config::{Config, EntryValue};
use app_config::node::Node;
use app_config::value::{ScalarKind, Value};

fn text(s: &str) -> Value {
    Value::Text(String::from(s))
}

fn basic_config() -> Node {
    Node::record()
        .add_scalar("field_a", ScalarKind::Text)
        .add_scalar("field_b", ScalarKind::Text)
        .add_scalar("field_c", ScalarKind::Text)
}

fn attr_default_config() -> Node {
    Node::record()
        .add_scalar_default("field_a", ScalarKind::Text, text("test default"))
        .add_scalar_default("field_b", ScalarKind::Uint, Value::Uint(321))
        .add_scalar_default("field_c", ScalarKind::Boolean, Value::Boolean(true))
}

fn nesting_config() -> Node {
    Node::record().add_nested("nested_a", basic_config())
}

fn double_nesting_config() -> Node {
    Node::record().add_nested("nested_b", nesting_config())
}

fn optional_field_config() -> Node {
    Node::record().add_optional("optional", ScalarKind::Uint)
}

fn optional_nested_config() -> Node {
    Node::record().add_optional_nested("optional", basic_config())
}

fn optional_nested_with_default_config() -> Node {
    Node::record().add_optional_nested("optional", attr_default_config())
}

fn choice_config() -> Node {
    Node::choice()
        .add_variant("ChoiceA", basic_config())
        .add_variant("ChoiceB", attr_default_config())
}

fn nested_enum_config() -> Node {
    Node::record().add_nested("nested", choice_config())
}

fn scalar_entry(c: &Config, name: &str) -> Value {
    match c.get(name) {
        Some(EntryValue::Scalar(v)) => v.clone(),
        other => panic!("no scalar field {}: {:?}", name, other),
    }
}

fn nested_entry<'a>(c: &'a Config, name: &str) -> &'a Config {
    match c.get(name) {
        Some(EntryValue::Nested(b)) => b,
        other => panic!("no nested field {}: {:?}", name, other),
    }
}

#[test]
fn set_builder_fields() {
    let builder = basic_config()
        .set("field_a", text("test a"))
        .set("field_b", text("test b"));
    assert_eq!(builder.get_scalar("field_a"), Some(Some(text("test a"))));
    assert_eq!(builder.get_scalar("field_b"), Some(Some(text("test b"))));
    assert_eq!(builder.get_scalar("field_c"), Some(None));
}

#[test]
fn try_build_error() {
    let result = basic_config().set("field_a", text("test a")).try_build();
    assert_eq!(
        result,
        Err(vec![String::from("field_b"), String::from("field_c")])
    );
}

#[test]
fn try_build_ok() {
    let result = basic_config()
        .set("field_a", text("test a"))
        .set("field_b", text("test b"))
        .set("field_c", text("test c"))
        .try_build();
    assert!(result.is_ok());
    let config = result.unwrap();
    assert_eq!(scalar_entry(&config, "field_a"), text("test a"));
    assert_eq!(scalar_entry(&config, "field_b"), text("test b"));
    assert_eq!(scalar_entry(&config, "field_c"), text("test c"));
}

#[test]
fn combine_builders() {
    let builder = basic_config()
        .set("field_a", text("test a"))
        .set("field_b", text("test b"))
        .combine(
            basic_config()
                .set("field_a", text("ignored"))
                .set("field_b", text("ignored"))
                .set("field_c", text("test c")),
        );
    assert_eq!(builder.get_scalar("field_a"), Some(Some(text("test a"))));
    assert_eq!(builder.get_scalar("field_b"), Some(Some(text("test b"))));
    assert_eq!(builder.get_scalar("field_c"), Some(Some(text("test c"))));
}

#[test]
fn default_attr() {
    let builder = attr_default_config().default();
    assert_eq!(
        builder.get_scalar("field_a"),
        Some(Some(text("test default")))
    );
    assert_eq!(builder.get_scalar("field_b"), Some(Some(Value::Uint(321))));
    assert_eq!(
        builder.get_scalar("field_c"),
        Some(Some(Value::Boolean(true)))
    );
}

#[test]
fn simple_nested() {
    let result = nesting_config()
        .set_nested(
            "nested_a",
            basic_config()
                .set("field_a", text("test a"))
                .set("field_b", text("test b"))
                .set("field_c", text("test c")),
        )
        .try_build();
    assert!(result.is_ok());
    let config = result.unwrap();
    let nested = nested_entry(&config, "nested_a");
    assert_eq!(scalar_entry(nested, "field_a"), text("test a"));
    assert_eq!(scalar_entry(nested, "field_b"), text("test b"));
    assert_eq!(scalar_entry(nested, "field_c"), text("test c"));
}

#[test]
fn double_nested() {
    let result = double_nesting_config()
        .set_nested(
            "nested_b",
            nesting_config().set_nested(
                "nested_a",
                basic_config()
                    .set("field_a", text("test a"))
                    .set("field_b", text("test b"))
                    .set("field_c", text("test c")),
            ),
        )
        .try_build();
    assert!(result.is_ok());
    let config = result.unwrap();
    let inner = nested_entry(nested_entry(&config, "nested_b"), "nested_a");
    assert_eq!(scalar_entry(inner, "field_a"), text("test a"));
    assert_eq!(scalar_entry(inner, "field_b"), text("test b"));
    assert_eq!(scalar_entry(inner, "field_c"), text("test c"));
}

#[test]
fn optional_field_none() {
    let result = optional_field_config().try_build();
    assert!(result.is_ok());
    let config = result.unwrap();
    assert_eq!(config.get("optional"), Some(&EntryValue::Optional(None)));
}

#[test]
fn optional_field_some() {
    let result = optional_field_config()
        .set_opt("optional", Some(Value::Uint(123)))
        .try_build();
    assert!(result.is_ok());
    let config = result.unwrap();
    assert_eq!(
        config.get("optional"),
        Some(&EntryValue::Optional(Some(Value::Uint(123))))
    );
}

#[test]
fn map_nested() {
    let result = nesting_config()
        .set_nested(
            "nested_a",
            basic_config()
                .set("field_a", text("test a"))
                .set("field_b", text("test b"))
                .set("field_c", text("test c")),
        )
        .try_build();
    assert!(result.is_ok());
    let config = result.unwrap();
    let nested = nested_entry(&config, "nested_a");
    assert_eq!(scalar_entry(nested, "field_a"), text("test a"));
    assert_eq!(scalar_entry(nested, "field_b"), text("test b"));
    assert_eq!(scalar_entry(nested, "field_c"), text("test c"));
}

#[test]
fn nested_combine() {
    let result = nesting_config()
        .set_nested(
            "nested_a",
            basic_config()
                .set("field_a", text("test a"))
                .set("field_b", text("test b")),
        )
        .combine(nesting_config().set_nested(
            "nested_a",
            basic_config().set("field_c", text("test c")),
        ))
        .try_build();
    assert!(result.is_ok());
    let config = result.unwrap();
    let nested = nested_entry(&config, "nested_a");
    assert_eq!(scalar_entry(nested, "field_a"), text("test a"));
    assert_eq!(scalar_entry(nested, "field_b"), text("test b"));
    assert_eq!(scalar_entry(nested, "field_c"), text("test c"));

    let result = nesting_config()
        .set_nested(
            "nested_a",
            basic_config()
                .set("field_a", text("test a"))
                .set("field_b", text("test b")),
        )
        .combine(
            nesting_config().set_nested(
                "nested_a",
                basic_config()
                    .set("field_b", text("should not be used"))
                    .set("field_c", text("test c")),
            ),
        )
        .try_build();
    assert!(result.is_ok());
    let config = result.unwrap();
    let nested = nested_entry(&config, "nested_a");
    assert_eq!(scalar_entry(nested, "field_a"), text("test a"));
    assert_eq!(scalar_entry(nested, "field_b"), text("test b"));
    assert_eq!(scalar_entry(nested, "field_c"), text("test c"));
}

#[test]
fn optional_nested_field_none() {
    let result = optional_nested_config().try_build();
    assert!(result.is_ok());
    let config = result.unwrap();
    assert_eq!(
        config.get("optional"),
        Some(&EntryValue::OptionalNested(None))
    );
}

#[test]
fn optional_nested_field_partial_fails() {
    let result = optional_nested_config()
        .set_nested(
            "optional",
            basic_config()
                .set("field_a", text("test a"))
                .set("field_b", text("test b")),
        )
        .try_build();
    assert!(result.is_err());

    let result = optional_nested_config()
        .set_nested(
            "optional",
            basic_config()
                .set("field_a", text("test a"))
                .set("field_b", text("test b")),
        )
        .combine(
            optional_nested_config().set_nested(
                "optional",
                basic_config()
                    .set("field_a", text("test a"))
                    .set("field_b", text("test b")),
            ),
        )
        .try_build();
    assert!(result.is_err());
}

#[test]
fn optional_nested_field_some() {
    let result = optional_nested_config()
        .set_nested(
            "optional",
            basic_config()
                .set("field_a", text("test a"))
                .set("field_b", text("test b"))
                .set("field_c", text("test c")),
        )
        .try_build();
    assert!(result.is_ok());
    let config = result.unwrap();
    let expected = basic_config()
        .set("field_a", text("test a"))
        .set("field_b", text("test b"))
        .set("field_c", text("test c"))
        .try_build()
        .unwrap();
    assert_eq!(
        config.get("optional"),
        Some(&EntryValue::OptionalNested(Some(Box::new(expected))))
    );

    let result = optional_nested_config()
        .set_nested(
            "optional",
            basic_config()
                .set("field_a", text("test a"))
                .set("field_b", text("test b")),
        )
        .combine(
            optional_nested_config().set_nested(
                "optional",
                basic_config()
                    .set("field_a", text("ignored"))
                    .set("field_c", text("test c")),
            ),
        )
        .try_build();
    assert!(result.is_ok());
    let config = result.unwrap();
    let expected = basic_config()
        .set("field_a", text("test a"))
        .set("field_b", text("test b"))
        .set("field_c", text("test c"))
        .try_build()
        .unwrap();
    assert_eq!(
        config.get("optional"),
        Some(&EntryValue::OptionalNested(Some(Box::new(expected))))
    );
}

#[test]
fn builder_empty() {
    let builder = basic_config();
    assert_eq!(builder.is_empty(), true);

    let builder = basic_config().set("field_a", text("test a"));
    assert_eq!(builder.is_empty(), false);
}

#[test]
fn optional_nested_ignore_defaults() {
    let result = optional_nested_with_default_config().try_build();
    assert!(result.is_ok());
    let config = result.unwrap();
    assert_eq!(
        config.get("optional"),
        Some(&EntryValue::OptionalNested(None))
    );
}

#[test]
fn enum_config() {
    let builder = choice_config()
        .set_variant("choice_b", attr_default_config().default())
        .select("choice_b");
    let result = builder.try_build();
    assert!(result.is_ok());
    let config = result.unwrap();
    assert_eq!(
        config,
        Config::Tagged {
            selector: String::from("choice_b"),
            value: Box::new(attr_default_config().default().try_build().unwrap()),
        }
    );
}

#[test]
fn enum_defaults() {
    let result = choice_config().default().select("choice_b").try_build();
    assert!(result.is_ok());
    let config = result.unwrap();
    assert_eq!(
        config,
        Config::Tagged {
            selector: String::from("choice_b"),
            value: Box::new(attr_default_config().default().try_build().unwrap()),
        }
    );
}

#[test]
fn enum_combine() {
    let result = choice_config()
        .set_variant(
            "choice_a",
            basic_config()
                .set("field_a", text("test a"))
                .set("field_b", text("test b")),
        )
        .combine(
            choice_config()
                .set_variant(
                    "choice_a",
                    basic_config()
                        .set("field_b", text("ignored"))
                        .set("field_c", text("test c")),
                )
                .select("choice_a"),
        )
        .combine(choice_config().select("choice_b"))
        .try_build();
    assert!(result.is_ok());
    let config = result.unwrap();
    assert_eq!(
        config,
        Config::Tagged {
            selector: String::from("choice_a"),
            value: Box::new(
                basic_config()
                    .set("field_a", text("test a"))
                    .set("field_b", text("test b"))
                    .set("field_c", text("test c"))
                    .try_build()
                    .unwrap()
            ),
        }
    );
}

#[test]
fn nested_enum() {
    let config = nested_enum_config()
        .set_nested("nested", choice_config().default().select("choice_b"))
        .try_build()
        .unwrap();
    assert_eq!(
        config.get("nested"),
        Some(&EntryValue::Nested(Box::new(Config::Tagged {
            selector: String::from("choice_b"),
            value: Box::new(attr_default_config().default().try_build().unwrap()),
        })))
    );
}
