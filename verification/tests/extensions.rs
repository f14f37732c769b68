use gpx_extensions::events::{Event, FieldKind};
use gpx_extensions::parser::{consume, ParseError};
use gpx_extensions::reader::Context;
use gpx_extensions::record::Waypoint;

fn run_consume(doc: &str) -> (Result<(), ParseError>, Waypoint) {
    let mut context = Context::new(doc.to_string());
    let mut waypoint = Waypoint::new();
    let result = consume(&mut context, &mut waypoint);
    (result, waypoint)
}

#[test]
fn consume_arbitrary_extensions() {
    let (result, _) = run_consume(
        "<extensions>
                hello world
                <a><b cond=\"no\"><c>derp</c></b></a>
                <tag>yadda yadda we dont care</tag>
            </extensions>",
    );

    assert!(result.is_ok());
}

#[test]
fn consume_arbitrary_nested_extensions() {
    let (result, _) = run_consume(
        "<extensions>
                hello world
                <a><b cond=\"no\"><c>derp</c></b></a>
                <tag>yadda yadda we dont care</tag>
                <extensions>
                    hello world
                    <a><b cond=\"no\"><c>derp</c></b></a>
                    <tag>yadda yadda we dont care</tag>
                </extensions>
            </extensions>",
    );
    assert!(result.is_ok());
}

#[test]
fn error_on_nested_extensions_with_too_many_opening_tags() {
    let (result, _) = run_consume(
        "<extensions>
                hello world
                <a><b cond=\"no\"><c>derp</c></b></a>
                <tag>yadda yadda we dont care</tag>
                <extensions>
                    hello world
                    <a><b cond=\"no\"><c>derp</c></b></a>
                    <tag>yadda yadda we dont care</tag>
                </extensions>
                <extensions>
                <extensions>
              <extensions>",
    );
    assert!(result.is_err());
    let err = result.unwrap_err();
    match err {
        ParseError::EventReadFailure(message) => {
            assert_eq!(
                message,
                "Unexpected end of stream: still inside the root element"
            )
        }
        _ => {
            panic!("expected other error")
        }
    };
}

#[test]
fn error_on_invalid_internal_structure() {
    let (result, _) = run_consume(
        "<extensions>
                hello world
                <a><b cond=\"no\"><c>derp</c></b></a>
                <tag>yadda yadda we dont care</tag>
                <extensions>
                    hello world
                    <a></extensions><b cond=\"no\"><c>derp</c></b></a>
                    <tag>yadda yadda we dont care</tag>
                </extensions>
              </extensions>",
    );
    assert!(result.is_err());
    let err = result.unwrap_err();
    match err {
        ParseError::EventReadFailure(message) => {
            assert_eq!(message, "Unexpected closing tag: extensions != a")
        }
        _ => {
            panic!("expected other error")
        }
    };
}

#[test]
fn consume_empty_extensions() {
    let (result, waypoint) = run_consume("<extensions></extensions>");
    assert!(result.is_ok());
    assert_eq!(waypoint.power, None);
    assert_eq!(waypoint.temperature, None);
    assert_eq!(waypoint.cadence, None);
    assert_eq!(waypoint.heart_rate, None);
}

#[test]
fn consume_doubly_nested_extensions() {
    let (result, _) = run_consume(
        "<extensions><extensions><extensions>deep</extensions></extensions></extensions>",
    );
    assert!(result.is_ok());
}

#[test]
fn consume_self_closing_extensions() {
    let (result, waypoint) = run_consume("<extensions/>");
    assert!(result.is_ok());
    assert_eq!(waypoint.power, None);
}

#[test]
fn comments_and_instructions_are_discarded() {
    let (result, waypoint) =
        run_consume("<extensions><!-- vendor --><?pi data?><hr>77</hr></extensions>");
    assert!(result.is_ok());
    assert_eq!(waypoint.heart_rate, Some("77".to_string()));
}

#[test]
fn extracts_all_four_fields() {
    let (result, waypoint) = run_consume(
        "<extensions><power>250</power><atemp>25.5</atemp><cad>85</cad><hr>180</hr></extensions>",
    );
    assert!(result.is_ok());
    assert_eq!(waypoint.power, Some("250".to_string()));
    assert_eq!(waypoint.temperature, Some("25.5".to_string()));
    assert_eq!(waypoint.cadence, Some("85".to_string()));
    assert_eq!(waypoint.heart_rate, Some("180".to_string()));
}

#[test]
fn unknown_content_does_not_affect_fields() {
    let (result, waypoint) = run_consume(
        "<extensions>noise<foo bar=\"1\"><hrx>9</hrx></foo><hr>180</hr><other/>tail</extensions>",
    );
    assert!(result.is_ok());
    assert_eq!(waypoint.heart_rate, Some("180".to_string()));
    assert_eq!(waypoint.power, None);
    assert_eq!(waypoint.temperature, None);
    assert_eq!(waypoint.cadence, None);
}

#[test]
fn field_inside_nested_extensions_is_extracted() {
    let (result, waypoint) =
        run_consume("<extensions><extensions><cad>90</cad></extensions><hr>150</hr></extensions>");
    assert!(result.is_ok());
    assert_eq!(waypoint.cadence, Some("90".to_string()));
    assert_eq!(waypoint.heart_rate, Some("150".to_string()));
}

#[test]
fn duplicate_field_keeps_last_value() {
    let (result, waypoint) = run_consume("<extensions><hr>1</hr><hr>2</hr></extensions>");
    assert!(result.is_ok());
    assert_eq!(waypoint.heart_rate, Some("2".to_string()));
}

#[test]
fn cursor_stands_past_the_close_tag_after_success() {
    let mut context = Context::new(
        "<gpx><extensions><hr>42</hr></extensions><trkpt>rest</trkpt></gpx>".to_string(),
    );
    // Step over the document marker and the outer element's opening tag, so
    // the source stands on the subtree's opening tag as the caller promises.
    assert!(matches!(context.next_event(), Event::Other));
    assert!(matches!(context.next_event(), Event::StartTag { .. }));
    let mut waypoint = Waypoint::new();
    let result = consume(&mut context, &mut waypoint);
    assert!(result.is_ok());
    assert_eq!(waypoint.heart_rate, Some("42".to_string()));
    // The sentinel: the very next event is the element after the subtree.
    match context.next_event() {
        Event::StartTag { name } => assert_eq!(name, "trkpt"),
        _ => panic!("expected the sentinel element"),
    }
}

#[test]
fn missing_opening_tag_is_rejected() {
    let (result, waypoint) = run_consume("<gpx><extensions></extensions></gpx>");
    assert!(matches!(result, Err(ParseError::MissingOpeningTag)));
    assert_eq!(waypoint.heart_rate, None);
}

#[test]
fn field_parse_error_on_non_numeric_text() {
    let (result, waypoint) = run_consume("<extensions><power>fast</power></extensions>");
    assert!(matches!(result, Err(ParseError::FieldParseError(FieldKind::Power))));
    assert_eq!(waypoint.power, None);
}

#[test]
fn field_parse_error_on_empty_field() {
    let (result, _) = run_consume("<extensions><hr></hr></extensions>");
    assert!(matches!(
        result,
        Err(ParseError::FieldParseError(FieldKind::HeartRate))
    ));
}

#[test]
fn fields_before_a_failure_remain_stored() {
    let (result, waypoint) =
        run_consume("<extensions><cad>85</cad><power>fast</power></extensions>");
    assert!(matches!(result, Err(ParseError::FieldParseError(FieldKind::Power))));
    assert_eq!(waypoint.cadence, Some("85".to_string()));
}

#[test]
fn element_inside_scalar_field_is_rejected() {
    let (result, _) = run_consume("<extensions><power><b>1</b></power></extensions>");
    let err = result.unwrap_err();
    match err {
        ParseError::MalformedXmlStructure(message) => {
            assert_eq!(message, "unexpected element inside a scalar field")
        }
        _ => panic!("expected other error"),
    };
}

#[test]
fn attributes_on_a_field_tag_are_ignored() {
    let (result, waypoint) =
        run_consume("<extensions><power unit=\"watts\">300</power></extensions>");
    assert!(result.is_ok());
    assert_eq!(waypoint.power, Some("300".to_string()));
}

#[test]
fn cdata_counts_as_field_text() {
    let (result, waypoint) = run_consume("<extensions><hr><![CDATA[95]]></hr></extensions>");
    assert!(result.is_ok());
    assert_eq!(waypoint.heart_rate, Some("95".to_string()));
}
