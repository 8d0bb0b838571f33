use rust_chat::gif::Gif;
use rust_chat::tenor::{
    featured_url, parse_response, response_from_value, search_url, write_decimal, ResponseError,
    TenorGif,
};

const ANSWER: &str = r#"{
  "results": [
    {"id": "111", "title": "", "media_formats": {
        "gif": {"url": "https://media.example/111.gif", "dims": [498, 280], "size": 1234},
        "tinygif": {"url": "https://media.example/111-tiny.gif", "dims": [220, 124]},
        "mp4": {"url": "https://media.example/111.mp4"}}},
    {"id": "222", "media_formats": {
        "tinygif": {"url": "https://media.example/222-tiny.gif"},
        "gif": {"url": "https://media.example/222.gif"}}}
  ],
  "next": "CAgQ"
}"#;

#[test]
fn parse_response_reads_every_picture() {
    let response = parse_response(ANSWER.as_bytes()).unwrap();
    assert_eq!(
        response.results,
        vec![
            TenorGif {
                id: "111".to_string(),
                url: "https://media.example/111.gif".to_string(),
                tinygif_url: "https://media.example/111-tiny.gif".to_string(),
            },
            TenorGif {
                id: "222".to_string(),
                url: "https://media.example/222.gif".to_string(),
                tinygif_url: "https://media.example/222-tiny.gif".to_string(),
            },
        ]
    );
    assert_eq!(response.next, Some("CAgQ".to_string()));
}

#[test]
fn parse_response_without_next_page() {
    let response = parse_response(b"{\"results\":[]}").unwrap();
    assert!(response.results.is_empty());
    assert_eq!(response.next, None);
    let response = parse_response(b"{\"results\":[],\"next\":null}").unwrap();
    assert_eq!(response.next, None);
    let response = parse_response(b"{\"results\":[],\"next\":\"\"}").unwrap();
    assert_eq!(response.next, Some(String::new()));
}

#[test]
fn parse_response_rejects_what_is_not_json() {
    assert_eq!(parse_response(b"<html>"), Err(ResponseError::Syntax));
    assert_eq!(parse_response(b""), Err(ResponseError::Syntax));
}

#[test]
fn parse_response_rejects_wrong_structure() {
    assert_eq!(parse_response(b"[]"), Err(ResponseError::Structure));
    assert_eq!(parse_response(b"{}"), Err(ResponseError::Structure));
    assert_eq!(parse_response(b"{\"results\":{}}"), Err(ResponseError::Structure));
    assert_eq!(parse_response(b"{\"results\":[],\"next\":7}"), Err(ResponseError::Structure));
    assert_eq!(parse_response(b"{\"results\":[{\"id\":\"1\"}]}"), Err(ResponseError::Structure));
    assert_eq!(
        parse_response(b"{\"results\":[{\"id\":1,\"media_formats\":{\"gif\":{\"url\":\"g\"},\"tinygif\":{\"url\":\"t\"}}}]}"),
        Err(ResponseError::Structure)
    );
    assert_eq!(
        parse_response(b"{\"results\":[{\"id\":\"1\",\"media_formats\":{\"gif\":{\"url\":\"g\"}}}]}"),
        Err(ResponseError::Structure)
    );
    assert_eq!(
        parse_response(b"{\"results\":[{\"id\":\"1\",\"media_formats\":{\"gif\":{\"url\":\"g\"},\"tinygif\":{}}}]}"),
        Err(ResponseError::Structure)
    );
}

#[test]
fn response_from_value_reads_a_parsed_value() {
    let value: serde_json::Value = serde_json::from_str(ANSWER).unwrap();
    let response = response_from_value(&value).unwrap();
    assert_eq!(response.results.len(), 2);
    assert_eq!(response_from_value(&serde_json::Value::Null), None);
}

#[test]
fn write_decimal_writes_numbers() {
    assert_eq!(write_decimal(0), "0");
    assert_eq!(write_decimal(2), "2");
    assert_eq!(write_decimal(10), "10");
    assert_eq!(write_decimal(907), "907");
    assert_eq!(write_decimal(4294967295), "4294967295");
}

#[test]
fn featured_url_is_exact() {
    assert_eq!(
        featured_url("KEY", "Client Key", 2),
        "https://tenor.googleapis.com/v2/featured?key=KEY&client_key=Client Key&limit=2"
    );
}

#[test]
fn search_url_is_exact() {
    assert_eq!(
        search_url("cats", "KEY", "Client Key", 25),
        "https://tenor.googleapis.com/v2/search?q=cats&key=KEY&client_key=Client Key&limit=25"
    );
}

#[test]
fn gif_fetched_keeps_what_was_found() {
    let found = TenorGif {
        id: "111".to_string(),
        url: "https://media.example/111.gif".to_string(),
        tinygif_url: "https://media.example/111-tiny.gif".to_string(),
    };
    let gif = Gif::fetched(&found, vec![71, 73, 70, 56]);
    assert_eq!(gif.id, "111");
    assert_eq!(gif.url, found.url);
    assert_eq!(gif.tinygif_url, found.tinygif_url);
    assert_eq!(gif.gif_bytes, vec![71, 73, 70, 56]);
}
