use daydream_memory::insight::{
    complete_answer, digest_document, read_answer, Insight, InsightReading,
};
use daydream_memory::json::Json;

fn insight(content: &str, importance: f64) -> Insight {
    Insight { content: content.to_string(), importance: importance.to_bits() }
}

#[test]
fn documents_are_read_by_their_kinds() {
    let text = r#"{"a": [null, true, 1, 2.5, "x"], "b": {"c": -3}}"#;
    let expected = Json::Object(vec![
        (
            "a".to_string(),
            Json::List(vec![
                Json::Null,
                Json::Bool(true),
                Json::Number(Some(1.0f64.to_bits())),
                Json::Number(Some(2.5f64.to_bits())),
                Json::Text("x".to_string()),
            ]),
        ),
        (
            "b".to_string(),
            Json::Object(vec![("c".to_string(), Json::Number(Some((-3.0f64).to_bits())))]),
        ),
    ]);
    assert_eq!(Json::parse(text), Some(expected));
    assert_eq!(Json::parse("{"), None);
    assert_eq!(Json::parse(""), None);
    let value: serde_json::Value = serde_json::from_str(text).unwrap();
    assert_eq!(Some(Json::from_value(&value)), Json::parse(text));
}

#[test]
fn members_are_found_by_their_keys() {
    let json = Json::parse(r#"{"a": 1, "b": "x"}"#).unwrap();
    assert_eq!(json.get("b").and_then(|v| v.as_text()), Some(&"x".to_string()));
    assert_eq!(json.get("a").and_then(|v| v.as_number()), Some(1.0f64.to_bits()));
    assert_eq!(json.get("a").and_then(|v| v.as_text()), None);
    assert_eq!(json.get("b").and_then(|v| v.as_number()), None);
    assert_eq!(json.get("c"), None);
    assert_eq!(Json::List(vec![Json::Null]).get("a"), None);
}

#[test]
fn answers_get_their_brace() {
    assert_eq!(complete_answer("{}"), "{}");
    assert_eq!(complete_answer("\"insights\": []}"), "{\"insights\": []}");
    assert_eq!(complete_answer(""), "{");
    assert_eq!(complete_answer(" {}"), "{ {}");
    assert_eq!(complete_answer(&complete_answer("x")), "{x");
}

#[test]
fn insights_are_read_with_and_without_the_brace() {
    let rest = r#""insights": [{"content": "喜欢猫", "importance": 0.5}]}"#;
    let expected = InsightReading::Insights(vec![insight("喜欢猫", 0.5)]);
    assert_eq!(read_answer(rest), expected);
    assert_eq!(read_answer(&format!("{{{rest}")), expected);
}

#[test]
fn malformed_items_are_skipped() {
    let answer = r#"{"insights": [
        {"content": "a", "importance": 1},
        {"content": 3, "importance": 0.5},
        {"content": "b"},
        {"importance": 0.5},
        {"content": "c", "importance": "0.5"},
        "d",
        null,
        {"content": "e", "importance": 0.25, "more": []}
    ]}"#;
    assert_eq!(
        read_answer(answer),
        InsightReading::Insights(vec![insight("a", 1.0), insight("e", 0.25)])
    );
}

#[test]
fn answers_without_a_list_are_told_apart() {
    assert_eq!(read_answer("{}"), InsightReading::NoList);
    assert_eq!(read_answer(r#"{"insights": 3}"#), InsightReading::NoList);
    assert_eq!(read_answer(r#"{"insights": {}}"#), InsightReading::NoList);
    assert_eq!(read_answer("[]"), InsightReading::NotJson);
    assert_eq!(read_answer("no json"), InsightReading::NotJson);
    assert_eq!(read_answer(r#"{"insights": []} trailing"#), InsightReading::NotJson);
    assert_eq!(read_answer(r#"{"insights": []}"#), InsightReading::Insights(vec![]));
}

#[test]
fn documents_are_digested_by_themselves() {
    assert_eq!(digest_document(&None), InsightReading::NotJson);
    assert_eq!(digest_document(&Some(Json::Null)), InsightReading::NoList);
    let item = Json::Object(vec![
        ("importance".to_string(), Json::Number(Some(0.75f64.to_bits()))),
        ("content".to_string(), Json::Text("x".to_string())),
    ]);
    let unread = Json::Object(vec![
        ("importance".to_string(), Json::Number(None)),
        ("content".to_string(), Json::Text("y".to_string())),
    ]);
    let document = Json::Object(vec![("insights".to_string(), Json::List(vec![unread, item]))]);
    assert_eq!(
        digest_document(&Some(document)),
        InsightReading::Insights(vec![insight("x", 0.75)])
    );
}
