use cce_browser::wpe::formwatch::{
    event_from, fill_js, json_string, parse_event, FormEvent, Report, CHANNEL, RESCAN_JS, WATCH_JS,
    WORLD,
};

#[test]
fn a_credential_cannot_break_out_of_the_fill_script() {
    // The whole hazard in one string: quotes, a backslash, a closing
    // script tag, a newline and a line separator.
    let nasty = "a\"b\\c</script>\nd\u{2028}e";
    let quoted = json_string(nasty);
    assert_eq!(quoted, "\"a\\\"b\\\\c</script>\\nd\\u2028e\"");
    let js = fill_js("user", nasty);
    assert!(js.contains(&quoted));
    // No raw newline from the credential ever reaches the source.
    assert!(!js.contains("d\u{2028}"));
}

#[test]
fn events_parse_and_junk_is_dropped() {
    let focus = parse_event(
        r#"{"t":"focus","kind":"user","origin":"https://example.com","rect":[10,20,120,24],"value":"me"}"#,
    );
    match focus {
        Some(FormEvent::Field { origin, password, rect, value, moved }) => {
            assert_eq!(origin, "https://example.com");
            assert!(!password);
            let numbers = (
                f64::from_bits(rect.x),
                f64::from_bits(rect.y),
                f64::from_bits(rect.width),
                f64::from_bits(rect.height),
            );
            assert_eq!(numbers, (10.0, 20.0, 120.0, 24.0));
            assert_eq!(value, "me");
            assert!(!moved);
        }
        other => panic!("expected a field event, got {other:?}"),
    }
    assert!(matches!(parse_event(r#"{"t":"blur"}"#), Some(FormEvent::Blur)));
    assert!(matches!(
        parse_event(r#"{"t":"input","kind":"pass","origin":"x","rect":[0,0,1,1],"value":""}"#),
        Some(FormEvent::Field { password: true, moved: true, .. })
    ));
    // Nonsense, and a field event with no rect, are both ignored.
    assert!(parse_event("not json").is_none());
    assert!(parse_event(r#"{"t":"focus","kind":"user"}"#).is_none());
    assert!(parse_event(r#"{"t":"evil"}"#).is_none());
}

#[test]
fn passwords_are_not_passed_on() {
    let typed = parse_event(
        r#"{"t":"focus","kind":"pass","origin":"https://example.com","rect":[0,0,1,1],"value":"hunter2"}"#,
    );
    match typed {
        Some(FormEvent::Field { origin, password, value, .. }) => {
            assert_eq!(origin, "https://example.com");
            assert!(password);
            assert_eq!(value, "");
        }
        other => panic!("expected a field event, got {other:?}"),
    }
}

#[test]
fn odd_messages_have_no_members() {
    assert!(parse_event("[1,2]").is_none());
    assert!(parse_event(r#"{"t":7}"#).is_none());
    let odd = r#"{"t":"focus","kind":1,"origin":2,"rect":[1,2,3,4,"x"],"value":[]}"#;
    match parse_event(odd) {
        Some(FormEvent::Field { origin, password, rect, value, moved }) => {
            assert_eq!((origin.as_str(), password, value.as_str(), moved), ("", false, "", false));
            assert_eq!(f64::from_bits(rect.height), 4.0);
        }
        other => panic!("expected a field event, got {other:?}"),
    }
    assert!(parse_event(r#"{"t":"focus","rect":[1,2,"x",4]}"#).is_none());
}

fn report(t: &str, rect: Option<Vec<Option<u64>>>) -> Report {
    Report {
        t: Some(t.to_string()),
        kind: Some("pass".to_string()),
        origin: None,
        value: None,
        rect,
    }
}

#[test]
fn reports_need_a_whole_rectangle() {
    let n = |x: f64| Some(x.to_bits());
    let whole = vec![n(1.0), n(2.0), n(3.0), n(4.0)];
    match event_from(report("focus", Some(whole))) {
        Some(FormEvent::Field { origin, password, rect, value, moved }) => {
            assert_eq!(origin, "");
            assert!(password);
            assert_eq!(f64::from_bits(rect.width), 3.0);
            assert_eq!(value, "");
            assert!(!moved);
        }
        other => panic!("expected a field event, got {other:?}"),
    }
    assert!(event_from(report("focus", Some(vec![n(1.0), n(2.0), n(3.0)]))).is_none());
    assert!(event_from(report("focus", Some(vec![n(1.0), None, n(3.0), n(4.0)]))).is_none());
    assert!(event_from(report("focus", None)).is_none());
}

#[test]
fn literals_escape_what_a_script_would_read() {
    assert_eq!(json_string(""), "\"\"");
    assert_eq!(json_string("plain é"), "\"plain é\"");
    assert_eq!(json_string("\t\r\n"), "\"\\t\\r\\n\"");
    assert_eq!(json_string("\u{8}\u{c}\u{1}"), "\"\\u0008\\u000c\\u0001\"");
    assert_eq!(json_string("\u{2029}"), "\"\\u2029\"");
}

#[test]
fn the_scripts_agree_on_their_channel() {
    assert!(WATCH_JS.contains(CHANNEL));
    assert!(RESCAN_JS.contains("rescan"));
    assert!(!WORLD.is_empty());
    let js = fill_js("u\"", "p");
    assert!(js.contains("\"u\\\"\""));
    assert!(js.contains("\"p\""));
}
