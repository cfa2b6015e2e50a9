use spica_writer::timeline::parse_timeline_from_response;

#[test]
fn narration_with_dialogue() {
    let events = parse_timeline_from_response("He said \"hello there\".");
    assert_eq!(events.len(), 1);
    assert_eq!(events[0].text, "He said");
    assert_eq!(events[0].dialogue.as_deref(), Some("hello there"));
}

#[test]
fn narration_only() {
    let events = parse_timeline_from_response("She walked away.");
    assert_eq!(events.len(), 1);
    assert_eq!(events[0].text, "She walked away.");
    assert!(events[0].dialogue.is_none());
}

#[test]
fn empty_input_falls_back() {
    let events = parse_timeline_from_response("");
    assert_eq!(events.len(), 1);
    assert_eq!(events[0].text, "");
    assert!(events[0].dialogue.is_none());
}

#[test]
fn whitespace_only_input_falls_back() {
    let events = parse_timeline_from_response("  \n\t \n  ");
    assert_eq!(events.len(), 1);
    assert_eq!(events[0].text, "");
    assert!(events[0].dialogue.is_none());
}

#[test]
fn several_lines_blank_lines_dropped() {
    let events = parse_timeline_from_response("A\n\n  B \nSays \"hi\" now");
    assert_eq!(events.len(), 3);
    assert_eq!(events[0].text, "A");
    assert!(events[0].dialogue.is_none());
    assert_eq!(events[1].text, "B");
    assert!(events[1].dialogue.is_none());
    assert_eq!(events[2].text, "Says");
    assert_eq!(events[2].dialogue.as_deref(), Some("hi"));
}

#[test]
fn single_quote_is_narration_only() {
    let events = parse_timeline_from_response("She said \"hello.");
    assert_eq!(events.len(), 1);
    assert_eq!(events[0].text, "She said \"hello.");
    assert!(events[0].dialogue.is_none());
}

#[test]
fn empty_dialogue_recorded_as_absent() {
    let events = parse_timeline_from_response("He said \"\" nothing");
    assert_eq!(events.len(), 1);
    assert_eq!(events[0].text, "He said");
    assert!(events[0].dialogue.is_none());
}

#[test]
fn dialogue_alone_has_empty_text() {
    let events = parse_timeline_from_response("  \"Run!\"  ");
    assert_eq!(events.len(), 1);
    assert_eq!(events[0].text, "");
    assert_eq!(events[0].dialogue.as_deref(), Some("Run!"));
}

#[test]
fn text_after_last_quote_is_dropped() {
    let events = parse_timeline_from_response("He whispered \"go now\" and left.");
    assert_eq!(events.len(), 1);
    assert_eq!(events[0].text, "He whispered");
    assert_eq!(events[0].dialogue.as_deref(), Some("go now"));
}

#[test]
fn every_input_yields_at_least_one_event() {
    let samples = ["", "\n", "\n\n\n", "x", "\"", "\"\"", "a\nb\nc", "   "];
    for s in samples {
        assert!(parse_timeline_from_response(s).len() >= 1);
    }
}

#[test]
fn crlf_line_endings_are_trimmed() {
    let events = parse_timeline_from_response("one\r\ntwo\r\n");
    assert_eq!(events.len(), 2);
    assert_eq!(events[0].text, "one");
    assert_eq!(events[1].text, "two");
}
