use eclipse_core::callback::Callback;
use eclipse_core::events::{handle_event, process_event};
use eclipse_core::json::{parse_json, Json};

fn text(s: &str) -> Callback {
    Callback::Text(s.to_string())
}

fn partial(s: &str) -> String {
    format!(
        r#"{{"type":"assistant","partial":true,"message":{{"content":[{{"type":"text","text":"{}"}}]}}}}"#,
        s
    )
}

fn complete(s: &str) -> String {
    format!(
        r#"{{"type":"assistant","message":{{"content":[{{"type":"text","text":"{}"}}]}}}}"#,
        s
    )
}

#[test]
fn the_connection_is_announced() {
    let mut seen = 5;
    let line = r#"{"type":"system","subtype":"init","message":"Hello"}"#;
    assert_eq!(process_event(line, &mut seen), Ok(vec![Callback::System("Hello".to_string())]));
    let line = r#"{"type":"system","subtype":"init"}"#;
    assert_eq!(process_event(line, &mut seen), Ok(vec![Callback::System("Connected".to_string())]));
    let line = r#"{"type":"system","subtype":"other","message":"Hello"}"#;
    assert_eq!(process_event(line, &mut seen), Ok(vec![]));
    assert_eq!(seen, 5);
}

#[test]
fn lines_without_an_event_are_passed_over() {
    let mut seen = 5;
    for line in ["not json", "[1,2]", "{}", "\"text\"", r#"{"type":"result"}"#, r#"{"type":7}"#] {
        assert_eq!(process_event(line, &mut seen), Ok(vec![]));
        assert_eq!(seen, 5);
    }
}

#[test]
fn growing_text_is_reported_piece_by_piece() {
    let mut seen = 0;
    assert_eq!(process_event(&partial("Hel"), &mut seen), Ok(vec![text("Hel")]));
    assert_eq!(seen, 3);
    assert_eq!(process_event(&partial("Hel"), &mut seen), Ok(vec![]));
    assert_eq!(process_event(&partial("Hello w\u{f6}"), &mut seen), Ok(vec![text("lo w\u{f6}")]));
    assert_eq!(seen, 9);
    assert_eq!(process_event(&complete("Hello w\u{f6}rld"), &mut seen), Ok(vec![text("rld")]));
    assert_eq!(seen, 0);
    assert_eq!(process_event(&partial("Next"), &mut seen), Ok(vec![text("Next")]));
}

#[test]
fn a_text_that_shrinks_reports_nothing() {
    let mut seen = 10;
    assert_eq!(process_event(&partial("short"), &mut seen), Ok(vec![]));
    assert_eq!(seen, 5);
}

#[test]
fn tools_are_reported_by_complete_messages_only() {
    let content = r#"[{"type":"text","text":"a"},{"type":"tool_use","name":"Read"},{"type":"tool_use"},{"type":"other"}]"#;
    let whole = format!(r#"{{"type":"assistant","message":{{"content":{}}}}}"#, content);
    let part = format!(r#"{{"type":"assistant","partial":true,"message":{{"content":{}}}}}"#, content);
    let mut seen = 0;
    assert_eq!(process_event(&part, &mut seen), Ok(vec![text("a")]));
    assert_eq!(seen, 1);
    assert_eq!(
        process_event(&whole, &mut seen),
        Ok(vec![
            Callback::ToolStart("Read".to_string()),
            Callback::ToolStart("tool".to_string()),
        ])
    );
    assert_eq!(seen, 0);
}

#[test]
fn a_flag_that_is_no_boolean_counts_as_complete() {
    let mut seen = 4;
    let line = r#"{"type":"assistant","partial":"yes","message":{}}"#;
    assert_eq!(process_event(line, &mut seen), Ok(vec![]));
    assert_eq!(seen, 0);
}

#[test]
fn text_blocks_without_text_are_passed_over() {
    let mut seen = 2;
    let line =
        r#"{"type":"assistant","partial":true,"message":{"content":[{"type":"text","text":3},{"type":"text"},7]}}"#;
    assert_eq!(process_event(line, &mut seen), Ok(vec![]));
    assert_eq!(seen, 2);
}

#[test]
fn a_text_is_not_cut_inside_a_character() {
    let mut seen = 0;
    assert_eq!(process_event(&partial("ab"), &mut seen), Ok(vec![text("ab")]));
    // Two bytes reach into the middle of the second character.
    let cut = process_event(&partial("a\u{e9}"), &mut seen).unwrap_err();
    assert_eq!(cut.fired, vec![]);
    assert_eq!(seen, 2);
}

#[test]
fn blocks_before_a_bad_cut_are_reported() {
    let line = r#"{"type":"assistant","message":{"content":[{"type":"tool_use","name":"T"},{"type":"text","text":"x"},{"type":"text","text":"éa"},{"type":"tool_use","name":"U"}]}}"#;
    let mut seen = 0;
    let cut = process_event(line, &mut seen).unwrap_err();
    assert_eq!(cut.fired, vec![Callback::ToolStart("T".to_string()), text("x")]);
    assert_eq!(seen, 1);
}

#[test]
fn a_parsed_event_is_handled_like_its_line() {
    let mut a = 2;
    let mut b = 2;
    let line = partial("Hello");
    let event = parse_json(&line).unwrap();
    let fired = handle_event(&event, &mut a);
    assert_eq!(fired, vec![text("llo")]);
    assert_eq!(process_event(&line, &mut b), Ok(fired));
    assert_eq!(a, b);
    let event = Json::Object(vec![
        ("type".to_string(), Json::Text("system".to_string())),
        ("subtype".to_string(), Json::Text("init".to_string())),
    ]);
    assert_eq!(handle_event(&event, &mut a), vec![Callback::System("Connected".to_string())]);
}

#[test]
fn other_events_do_not_disturb_a_message() {
    let mut seen = 0;
    let mut heard = String::new();
    let lines = [
        partial("On"),
        r#"{"type":"system","subtype":"init"}"#.to_string(),
        partial("One"),
        r#"{"type":"assistant","partial":true,"message":{"content":[{"type":"tool_use"}]}}"#.to_string(),
        "noise".to_string(),
        complete("One."),
        partial("T\u{17e}"),
        complete("T\u{17e}!"),
    ];
    for line in &lines {
        for call in process_event(line, &mut seen).unwrap() {
            if let Callback::Text(piece) = call {
                heard.push_str(&piece);
            }
        }
    }
    assert_eq!(heard, "One.T\u{17e}!");
    assert_eq!(seen, 0);
}
