use forc_perf::marker::{parse_marker, Marker, ProtocolError};

#[test]
fn start_marker_parses() {
    let r = parse_marker("/forc-perf start parse");
    assert_eq!(r, Ok(Marker::Start(String::from("parse"))));
}

#[test]
fn stop_marker_parses() {
    let r = parse_marker("/forc-perf stop parse");
    assert_eq!(r, Ok(Marker::Stop(String::from("parse"))));
}

#[test]
fn size_marker_parses() {
    let r = parse_marker("/forc-perf size 1234");
    assert_eq!(r, Ok(Marker::Size(1234)));
}

#[test]
fn size_zero_parses() {
    let r = parse_marker("/forc-perf size 0");
    assert_eq!(r, Ok(Marker::Size(0)));
}

#[test]
fn indented_marker_parses_like_unindented() {
    let plain = parse_marker("/forc-perf start parse");
    let indented = parse_marker("  /forc-perf start parse");
    assert_eq!(plain, indented);
}

#[test]
fn trailing_whitespace_is_stripped() {
    let r = parse_marker("/forc-perf start parse   \t");
    assert_eq!(r, Ok(Marker::Start(String::from("parse"))));
}

#[test]
fn unknown_line_is_noise() {
    assert_eq!(parse_marker("hello world"), Ok(Marker::Other));
    assert_eq!(parse_marker(""), Ok(Marker::Other));
    assert_eq!(parse_marker("   "), Ok(Marker::Other));
}

#[test]
fn prefix_without_payload_is_noise() {
    // After trailing whitespace is stripped nothing follows the sentinel,
    // so the prefix (which ends in a space) no longer matches.
    assert_eq!(parse_marker("/forc-perf start "), Ok(Marker::Other));
    assert_eq!(parse_marker("/forc-perf start"), Ok(Marker::Other));
}

#[test]
fn size_with_junk_payload_is_invalid() {
    assert_eq!(
        parse_marker("/forc-perf size twelve"),
        Err(ProtocolError::InvalidSize)
    );
    assert_eq!(
        parse_marker("/forc-perf size 12a"),
        Err(ProtocolError::InvalidSize)
    );
    assert_eq!(
        parse_marker("/forc-perf size -1"),
        Err(ProtocolError::InvalidSize)
    );
}

#[test]
fn size_overflow_is_invalid() {
    assert_eq!(
        parse_marker("/forc-perf size 99999999999999999999999999999999"),
        Err(ProtocolError::InvalidSize)
    );
}

#[test]
fn phase_name_keeps_inner_spaces() {
    let r = parse_marker("/forc-perf start type check");
    assert_eq!(r, Ok(Marker::Start(String::from("type check"))));
}
