use verman_schema::json::to_json_string;
use verman_schema::json::JsonValue;
use verman_schema::parse::parse_json;

fn str_value(s: &str) -> JsonValue {
    JsonValue::Str(String::from(s))
}

#[test]
fn serializes_scalars() {
    assert_eq!(to_json_string(&JsonValue::Null), "null");
    assert_eq!(to_json_string(&JsonValue::Bool(true)), "true");
    assert_eq!(to_json_string(&JsonValue::Bool(false)), "false");
    assert_eq!(to_json_string(&JsonValue::Int(0)), "0");
    assert_eq!(to_json_string(&JsonValue::Int(-42)), "-42");
    assert_eq!(
        to_json_string(&JsonValue::Int(i64::MIN)),
        "-9223372036854775808"
    );
    assert_eq!(to_json_string(&str_value("hi")), "\"hi\"");
}

#[test]
fn serializes_escapes() {
    assert_eq!(
        to_json_string(&str_value("a\"b\\c\nd")),
        "\"a\\\"b\\\\c\\nd\""
    );
    assert_eq!(to_json_string(&str_value("\u{1}")), "\"\\u0001\"");
}

#[test]
fn serializes_compound_values() {
    let v = JsonValue::Obj(vec![
        (String::from("xs"), JsonValue::Arr(vec![JsonValue::Int(1), JsonValue::Int(2)])),
        (String::from("s"), str_value("t")),
    ]);
    assert_eq!(to_json_string(&v), "{\"xs\":[1,2],\"s\":\"t\"}");
}

#[test]
fn parses_scalars() {
    assert_eq!(parse_json(&String::from("null")), Some(JsonValue::Null));
    assert_eq!(parse_json(&String::from(" true ")), Some(JsonValue::Bool(true)));
    assert_eq!(parse_json(&String::from("-17")), Some(JsonValue::Int(-17)));
    assert_eq!(parse_json(&String::from("\"x\\ty\"")), Some(str_value("x\ty")));
    assert_eq!(parse_json(&String::from("\"\\u0041\"")), Some(str_value("A")));
}

#[test]
fn parses_compound_values() {
    assert_eq!(
        parse_json(&String::from("[1, {\"a\": null}]")),
        Some(JsonValue::Arr(vec![
            JsonValue::Int(1),
            JsonValue::Obj(vec![(String::from("a"), JsonValue::Null)]),
        ]))
    );
    assert_eq!(parse_json(&String::from("{ }")), Some(JsonValue::Obj(vec![])));
    assert_eq!(parse_json(&String::from("[]")), Some(JsonValue::Arr(vec![])));
}

#[test]
fn rejects_out_of_grammar_texts() {
    assert_eq!(parse_json(&String::from("")), None);
    assert_eq!(parse_json(&String::from("hello")), None);
    assert_eq!(parse_json(&String::from("01")), None);
    assert_eq!(parse_json(&String::from("1.5")), None);
    assert_eq!(parse_json(&String::from("[1,]")), None);
    assert_eq!(parse_json(&String::from("{\"a\":}")), None);
    assert_eq!(parse_json(&String::from("\"unterminated")), None);
    assert_eq!(parse_json(&String::from("9223372036854775808")), None);
}

#[test]
fn round_trips_through_text() {
    let v = JsonValue::Obj(vec![
        (String::from("k"), JsonValue::Arr(vec![str_value("a\nb"), JsonValue::Int(-3)])),
        (String::from("n"), JsonValue::Null),
    ]);
    let text = to_json_string(&v);
    assert_eq!(parse_json(&text), Some(v));
}

#[test]
fn parses_extreme_integers() {
    assert_eq!(
        parse_json(&String::from("9223372036854775807")),
        Some(JsonValue::Int(i64::MAX))
    );
    assert_eq!(
        parse_json(&String::from("-9223372036854775808")),
        Some(JsonValue::Int(i64::MIN))
    );
}

#[test]
fn parses_all_short_escapes() {
    assert_eq!(
        parse_json(&String::from("\"a\\\"b\\\\c\\/d\\be\\ff\\ng\\rh\\ti\"")),
        Some(str_value("a\"b\\c/d\u{8}e\u{c}f\ng\rh\ti"))
    );
    assert_eq!(parse_json(&String::from("\"\\q\"")), None);
    assert_eq!(parse_json(&String::from("\"\\uD800\"")), None);
}

#[test]
fn parses_with_interior_whitespace() {
    assert_eq!(
        parse_json(&String::from("\t{ \"a\" :\n [ 1 ,\r 2 ] }  ")),
        Some(JsonValue::Obj(vec![(
            String::from("a"),
            JsonValue::Arr(vec![JsonValue::Int(1), JsonValue::Int(2)]),
        )]))
    );
}
