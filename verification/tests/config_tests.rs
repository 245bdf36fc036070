use tensordock_rs::config::Config;

#[test]
fn config_builder_test() {
    let expected = Config {
        key: String::from("abcd"),
        token: String::from("efgh"),
        description: None,
    };
    let result = Config::builder()
        .key(String::from("abcd"))
        .token(String::from("efgh"))
        .build();

    assert_eq!(expected, result);
}

#[test]
fn builder_key_only_defaults() {
    let result = Config::builder().key(String::from("abcd")).build();
    assert_eq!(result.key, String::from("abcd"));
    assert_eq!(result.token, String::from(""));
    assert_eq!(result.description, None);
}

#[test]
fn builder_unset_defaults_to_empty() {
    let result = Config::builder().build();
    assert_eq!(result.key, String::from(""));
    assert_eq!(result.token, String::from(""));
    assert_eq!(result.description, None);
}

#[test]
fn builder_description_kept() {
    let result = Config::builder()
        .description(String::from("staging credentials"))
        .token(String::from("t"))
        .build();
    assert_eq!(result.key, String::from(""));
    assert_eq!(result.token, String::from("t"));
    assert_eq!(result.description, Some(String::from("staging credentials")));
}
