use brain::json::{parse, Json};

#[test]
fn parse_reads_an_object_member() {
    let doc = parse("{\"done\": true, \"model\": \"m\"}").unwrap();
    assert_eq!(doc.get("done").unwrap().as_bool(), Some(true));
    assert_eq!(doc.get("model").unwrap().as_str(), Some("m"));
    assert!(doc.get("absent").is_none());
}

#[test]
fn parse_refuses_what_is_no_document() {
    assert!(parse("{\"done\": tru").is_err());
    assert!(parse("").is_err());
}

#[test]
fn parse_keeps_numbers_as_text() {
    let doc = parse("[1, -2, 3.5]").unwrap();
    let items = doc.as_array().unwrap();
    assert_eq!(items.len(), 3);
    assert!(matches!(&items[0], Json::Number(n) if n == "1"));
    assert!(matches!(&items[1], Json::Number(n) if n == "-2"));
    assert!(matches!(&items[2], Json::Number(n) if n == "3.5"));
}
