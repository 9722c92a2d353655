use flowchart_mcp::error::{engine_error, unknown_handle, FlowError, DUPLICATE, NOT_FOUND};

#[test]
fn maps_variants() {
    let v = engine_error(FlowError::NotFound("node 'a'".into()));
    assert_eq!(v.category, NOT_FOUND);

    let v = engine_error(FlowError::Duplicate("node 'a'".into()));
    assert_eq!(v.category, DUPLICATE);

    let v = unknown_handle("abc");
    assert_eq!(v.category, NOT_FOUND);
}

#[test]
fn error_messages_and_hints() {
    let v = engine_error(FlowError::InvalidInput("bad".into()));
    assert_eq!(v.category, "invalid_input");
    assert_eq!(v.message, "invalid input: bad");
    assert_eq!(v.suggestion, "Check the tool parameters.");
    let v = engine_error(FlowError::Parse("x".into()));
    assert_eq!(v.category, "parse_error");
    assert_eq!(v.message, "parse error: x");
    let v = unknown_handle("abc");
    assert_eq!(v.message, "No flowchart for handle 'abc'");
}
