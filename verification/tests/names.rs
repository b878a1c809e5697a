use app_config::names::{get_pascal_case_words, pascal_to_snake_case, words_to_snake_case};

#[test]
fn pascal_case_regex() {
    assert_eq!(
        get_pascal_case_words("HelloWorld"),
        Some(vec![String::from("hello"), String::from("world")])
    );
    assert_eq!(
        get_pascal_case_words("XMLHttpRequest"),
        Some(vec![
            String::from("xml"),
            String::from("http"),
            String::from("request")
        ])
    );
    assert_eq!(
        get_pascal_case_words("OptionA"),
        Some(vec![String::from("option"), String::from("a")])
    );
    assert_eq!(
        get_pascal_case_words("OptionABuilder"),
        Some(vec![
            String::from("option"),
            String::from("a"),
            String::from("builder")
        ])
    );
    assert_eq!(
        get_pascal_case_words("Option0"),
        Some(vec![String::from("option"), String::from("0")])
    );
}

#[test]
fn pascal_case_lowercase_run_without_head_is_dropped() {
    assert_eq!(get_pascal_case_words("hello"), Some(vec![]));
    assert_eq!(
        get_pascal_case_words("helloWorld"),
        Some(vec![String::from("world")])
    );
}

#[test]
fn snake_case_join() {
    assert_eq!(
        words_to_snake_case(vec![String::from("only")]),
        String::from("only")
    );
    assert_eq!(
        words_to_snake_case(vec![
            String::from("a"),
            String::from("b"),
            String::from("c")
        ]),
        String::from("a_b_c")
    );
}

#[test]
fn pascal_to_snake_case_examples() {
    assert_eq!(pascal_to_snake_case("ChoiceA"), String::from("choice_a"));
    assert_eq!(
        pascal_to_snake_case("XMLHttpRequest"),
        String::from("xml_http_request")
    );
    assert_eq!(pascal_to_snake_case("Option0"), String::from("option_0"));
}
