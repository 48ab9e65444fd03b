use dotender::errors::Error;
use dotender::utils::split_mapping;

#[test]
fn splits_at_first_colon() {
    let r = split_mapping("a:b").unwrap();
    assert_eq!(r.0, "a");
    assert_eq!(r.1, "b");
}

#[test]
fn destination_keeps_embedded_colons() {
    let r = split_mapping("src:dst:extra").unwrap();
    assert_eq!(r.0, "src");
    assert_eq!(r.1, "dst:extra");
}

#[test]
fn empty_source_and_destination_are_allowed() {
    let r = split_mapping(":x").unwrap();
    assert_eq!(r.0, "");
    assert_eq!(r.1, "x");
    let r = split_mapping("x:").unwrap();
    assert_eq!(r.0, "x");
    assert_eq!(r.1, "");
}

#[test]
fn missing_separator_is_an_error() {
    let r = split_mapping("no-separator-here");
    match r {
        Err(Error::FileMappingError(m)) => assert_eq!(m, "no-separator-here"),
        _ => panic!("expected a mapping error"),
    }
}
