use session_logs::extract::extract_message_text;
use session_logs::json::JsonLite;

fn obj(pairs: Vec<(&str, JsonLite)>) -> JsonLite {
    JsonLite::Object(pairs.into_iter().map(|(k, v)| (String::from(k), v)).collect())
}

fn text_part(tag: &str, text: &str) -> JsonLite {
    obj(vec![
        ("type", JsonLite::Text(String::from(tag))),
        ("text", JsonLite::Text(String::from(text))),
    ])
}

#[test]
fn collects_input_and_output_text_in_order() {
    let content = JsonLite::Array(vec![
        text_part("input_text", "hello"),
        text_part("output_text", "world"),
    ]);
    assert_eq!(extract_message_text(&content), "hello world");
}

#[test]
fn trims_each_fragment_and_skips_blank_ones() {
    let content = JsonLite::Array(vec![
        text_part("input_text", "  a  "),
        text_part("input_text", "   "),
        text_part("output_text", "b"),
    ]);
    assert_eq!(extract_message_text(&content), "a b");
}

#[test]
fn ignores_unknown_tags_and_malformed_entries() {
    let content = JsonLite::Array(vec![
        text_part("image", "x"),
        JsonLite::Text(String::from("loose")),
        JsonLite::Null,
        obj(vec![("type", JsonLite::Text(String::from("input_text")))]),
        obj(vec![
            ("type", JsonLite::Text(String::from("input_text"))),
            ("text", JsonLite::Int(3)),
        ]),
        text_part("input_text", "kept"),
    ]);
    assert_eq!(extract_message_text(&content), "kept");
}

#[test]
fn non_array_content_yields_empty_text() {
    assert_eq!(extract_message_text(&JsonLite::Null), "");
    assert_eq!(extract_message_text(&JsonLite::Text(String::from("plain"))), "");
    assert_eq!(extract_message_text(&obj(vec![])), "");
}

#[test]
fn whitespace_only_fragments_yield_empty_text() {
    let content = JsonLite::Array(vec![
        text_part("input_text", "   "),
        text_part("output_text", "\t\n"),
    ]);
    assert_eq!(extract_message_text(&content), "");
}
