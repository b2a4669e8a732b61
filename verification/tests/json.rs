use hrc_cli::json::{as_u64, get, get_bool, get_str, get_u64, Json};

fn obj(pairs: Vec<(&str, Json)>) -> Json {
    Json::Object(pairs.into_iter().map(|(k, v)| (k.to_owned(), v)).collect())
}

#[test]
fn a_key_is_looked_up_by_its_first_occurrence() {
    let v = obj(vec![("a", Json::UInt(1)), ("a", Json::UInt(2)), ("b", Json::Bool(true))]);
    assert_eq!(get_u64(&v, "a"), Some(1));
    assert_eq!(get_bool(&v, "b"), Some(true));
    assert!(get(&v, "c").is_none());
    assert!(get_str(&v, "a").is_none());
    assert!(get(&Json::Null, "a").is_none());
}

#[test]
fn only_non_negative_integers_read_as_unsigned() {
    assert_eq!(as_u64(&Json::Int(5)), Some(5));
    assert_eq!(as_u64(&Json::Int(-5)), None);
    assert_eq!(as_u64(&Json::Str("5".to_owned())), None);
}
