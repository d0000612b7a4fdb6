use scheduler::json::Json;

fn parse(text: &str) -> Option<Json> {
    Json::parse(text.as_bytes())
}

#[test]
fn parse_reads_scalars() {
    assert!(matches!(parse("null"), Some(Json::Null)));
    assert!(matches!(parse("true"), Some(Json::Flag(true))));
    assert!(matches!(parse("false"), Some(Json::Flag(false))));
    assert!(matches!(parse(" 42 "), Some(Json::Number(Some(42)))));
    assert!(matches!(parse("-7"), Some(Json::Number(Some(-7)))));
    assert!(matches!(parse("\"a\\nb\""), Some(Json::Text(text)) if text == "a\nb"));
}

#[test]
fn parse_keeps_whole_numbers_only() {
    assert!(matches!(
        parse("9223372036854775807"),
        Some(Json::Number(Some(9223372036854775807)))
    ));
    assert!(matches!(parse("9223372036854775808"), Some(Json::Number(None))));
    assert!(matches!(parse("1.0"), Some(Json::Number(None))));
    assert!(matches!(parse("1e2"), Some(Json::Number(None))));
}

#[test]
fn parse_reads_lists_and_objects() {
    let list = parse("[1, \"two\", [null]]").unwrap();
    let object = parse("{\"b\": 1, \"a\": {\"c\": false}}").unwrap();

    match list {
        Json::List(items) => {
            assert_eq!(items.len(), 3);
            assert!(matches!(items[0], Json::Number(Some(1))));
            assert!(matches!(&items[1], Json::Text(text) if text == "two"));
            assert!(matches!(&items[2], Json::List(inner) if matches!(inner[..], [Json::Null])));
        }
        other => panic!("not a list: {:?}", other),
    }
    match object {
        Json::Record(members) => {
            let keys: Vec<&str> = members.iter().map(|(key, _)| key.as_str()).collect();
            assert_eq!(keys, ["a", "b"]);
        }
        other => panic!("not an object: {:?}", other),
    }
}

#[test]
fn parse_refuses_what_is_no_document() {
    assert!(parse("").is_none());
    assert!(parse("   ").is_none());
    assert!(parse("{").is_none());
    assert!(parse("{\"a\":1} x").is_none());
    assert!(parse("{'a':1}").is_none());
    assert!(parse("nul").is_none());
    assert!(Json::parse(&[0x22, 0xff, 0x22]).is_none());
}

#[test]
fn get_finds_members_of_objects() {
    let object = parse("{\"id\": 3, \"text\": \"hi\"}").unwrap();

    assert!(matches!(object.get("id"), Some(Json::Number(Some(3)))));
    assert!(matches!(object.get("text"), Some(Json::Text(text)) if text == "hi"));
    assert!(object.get("ID").is_none());
    assert!(object.get("").is_none());
}

#[test]
fn get_takes_the_first_of_equal_keys() {
    let object = Json::Record(vec![
        ("k".to_string(), Json::Number(Some(1))),
        ("k".to_string(), Json::Number(Some(2))),
    ]);

    assert!(matches!(object.get("k"), Some(Json::Number(Some(1)))));
}

#[test]
fn get_finds_nothing_in_other_values() {
    assert!(Json::Null.get("a").is_none());
    assert!(Json::List(vec![Json::Null]).get("0").is_none());
    assert!(Json::Text("a".to_string()).get("a").is_none());
}
