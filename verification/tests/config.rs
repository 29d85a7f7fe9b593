use musidex_daemon::domain::config::{config_body, get_config, ConfigEncodeError};

fn pair(key: &str, value: &str) -> (String, String) {
    (String::from(key), String::from(value))
}

#[test]
fn configuration_is_one_object_of_strings() {
    let text = get_config(&vec![pair("b", "2"), pair("a", "1")]).unwrap();
    let value: serde_json::Value = serde_json::from_str(&text).unwrap();
    let object = value.as_object().unwrap();
    assert_eq!(object.len(), 2);
    assert_eq!(value["a"].as_str(), Some("1"));
    assert_eq!(value["b"].as_str(), Some("2"));
}

#[test]
fn empty_configuration_is_the_empty_object() {
    assert_eq!(get_config(&vec![]).unwrap(), "{}");
}

#[test]
fn single_setting() {
    assert_eq!(get_config(&vec![pair("port", "3200")]).unwrap(), "{\"port\":\"3200\"}");
}

#[test]
fn configuration_text_is_escaped() {
    let text = get_config(&vec![pair("na\"me", "line\nbreak")]).unwrap();
    assert_eq!(text, "{\"na\\\"me\":\"line\\nbreak\"}");
}

#[test]
fn a_key_given_twice_keeps_its_last_value() {
    let text = get_config(&vec![pair("k", "old"), pair("k", "new")]).unwrap();
    assert_eq!(text, "{\"k\":\"new\"}");
}

#[test]
fn serializer_text_becomes_the_body() {
    assert_eq!(config_body(Ok(String::from("{\"a\":\"1\"}"))), Ok(String::from("{\"a\":\"1\"}")));
    assert_eq!(config_body(Ok(String::new())), Ok(String::new()));
}

#[test]
fn serializer_refusal_becomes_the_library_error() {
    let refusal = serde_json::from_str::<i32>("not a number").unwrap_err();
    assert_eq!(config_body(Err(refusal)), Err(ConfigEncodeError));
}
