use eclipse_core::json::{parse_json, Json};

fn rendered(json: &Json) -> String {
    match json {
        Json::Null => "null".to_string(),
        Json::Bool(b) => b.to_string(),
        Json::Number => "#".to_string(),
        Json::Text(s) => format!("<{}>", s),
        Json::Array(items) => {
            let inner: Vec<String> = items.iter().map(rendered).collect();
            format!("[{}]", inner.join(","))
        }
        Json::Object(members) => {
            let inner: Vec<String> =
                members.iter().map(|(k, v)| format!("{}:{}", k, rendered(v))).collect();
            format!("{{{}}}", inner.join(","))
        }
    }
}

#[test]
fn every_kind_of_document_is_parsed() {
    let json = parse_json(r#" {"a":[null,true,false,1.5,"x\né"],"b":{"c":[]}} "#).unwrap();
    assert_eq!(rendered(&json), "{a:[null,true,false,#,<x\n\u{e9}>],b:{c:[]}}");
}

#[test]
fn what_is_not_json_is_refused() {
    assert!(parse_json("").is_none());
    assert!(parse_json("hello").is_none());
    assert!(parse_json("{\"a\":1").is_none());
    assert!(parse_json("[1] 2").is_none());
}

#[test]
fn of_repeated_members_the_last_is_kept() {
    let json = parse_json(r#"{"a":1,"a":"last"}"#).unwrap();
    assert_eq!(json.get("a").unwrap().as_text(), Some("last"));
}

#[test]
fn members_are_found_by_name() {
    let json = parse_json(r#"{"type":"system","flag":true,"list":[1,"two"]}"#).unwrap();
    assert_eq!(json.get("type").unwrap().as_text(), Some("system"));
    assert_eq!(json.get("flag").unwrap().as_bool(), Some(true));
    assert_eq!(json.get("flag").unwrap().as_text(), None);
    assert_eq!(json.get("type").unwrap().as_bool(), None);
    let list = json.get("list").unwrap().as_array().unwrap();
    assert_eq!(list.len(), 2);
    assert_eq!(list[1].as_text(), Some("two"));
    assert!(json.get("missing").is_none());
    assert!(json.get("type").unwrap().get("type").is_none());
    assert!(json.as_array().is_none());
}

#[test]
fn of_two_members_with_one_name_the_first_is_found() {
    let json = Json::Object(vec![
        ("a".to_string(), Json::Bool(true)),
        ("a".to_string(), Json::Bool(false)),
    ]);
    assert_eq!(json.get("a").unwrap().as_bool(), Some(true));
}
