use bose_extract_deals::errors::{AppError, Marker};
use bose_extract_deals::json_extractor::{extract_json_data, END_PATTERN, START_PATTERN};

fn page_around(payload: &str) -> String {
    format!("<html><head>{}{}{}</head><body></body></html>", START_PATTERN, payload, END_PATTERN)
}

#[test]
fn payload_between_markers_is_returned() {
    let page = page_around("{\"a\":1}");
    assert_eq!(extract_json_data(&page).unwrap(), "{\"a\":1}");
}

#[test]
fn wrapped_payload_is_returned_exactly() {
    let payload = "{\"query\":{\"data\":{\"title\":\"Aud\u{ed}fonos <b> & more\"}}}";
    let page = format!("{}{}{}", START_PATTERN, payload, END_PATTERN);
    assert_eq!(extract_json_data(&page).unwrap(), payload);
}

#[test]
fn empty_payload_is_returned() {
    let page = format!("{}{}", START_PATTERN, END_PATTERN);
    assert_eq!(extract_json_data(&page).unwrap(), "");
}

#[test]
fn text_before_the_payload_may_hold_other_script_tags() {
    let page = format!(
        "<script>var x = 1;</script>\u{e1}\u{e9}{}[1,2]{}<script>later()</script>",
        START_PATTERN, END_PATTERN
    );
    assert_eq!(extract_json_data(&page).unwrap(), "[1,2]");
}

#[test]
fn first_start_marker_and_first_end_marker_after_it_are_used() {
    let page = format!(
        "{}first{}{}second{}",
        START_PATTERN, END_PATTERN, START_PATTERN, END_PATTERN
    );
    assert_eq!(extract_json_data(&page).unwrap(), "first");
}

#[test]
fn missing_start_marker_is_reported() {
    let outcome = extract_json_data("<html></script></html>");
    assert!(matches!(outcome, Err(AppError::PayloadNotFound(Marker::Start))));
}

#[test]
fn start_marker_is_case_sensitive() {
    let page = page_around("{}").replace("__NEXT_DATA__", "__next_data__");
    assert!(matches!(
        extract_json_data(&page),
        Err(AppError::PayloadNotFound(Marker::Start))
    ));
}

#[test]
fn missing_end_marker_is_reported() {
    let page = format!("</script>{}{{\"a\":1}}", START_PATTERN);
    assert!(matches!(
        extract_json_data(&page),
        Err(AppError::PayloadNotFound(Marker::End))
    ));
}

#[test]
fn empty_page_has_no_payload() {
    assert!(matches!(
        extract_json_data(""),
        Err(AppError::PayloadNotFound(Marker::Start))
    ));
}
