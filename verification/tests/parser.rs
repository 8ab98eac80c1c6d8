use kdeshare::device::Device;
use kdeshare::parser::parse_devices;
use kdeshare::parser::parse_line;
use kdeshare::parser::parse_output;
use kdeshare::parser::ParseError;

fn devs(text: &str) -> Vec<Device> {
    parse_devices(text).expect("well-formed output must parse")
}

#[test]
fn parses_plain_line() {
    let d = parse_line("Pixel 6: abcd-1234 (reachable)").expect("line is well-formed");
    assert_eq!(d.name, "Pixel 6");
    assert_eq!(d.id, "abcd-1234");
}

#[test]
fn parses_marker_line() {
    let d = parse_line("- Laptop: ef01-5678").expect("line is well-formed");
    assert_eq!(d.name, "Laptop");
    assert_eq!(d.id, "ef01-5678");
}

#[test]
fn one_device_per_nonblank_line_in_order() {
    let ds = devs("Pixel 6: abcd-1234 (reachable)\n\n- Laptop: ef01-5678\n   \nTv: 99\n");
    assert_eq!(ds.len(), 3);
    assert_eq!(ds[0].name, "Pixel 6");
    assert_eq!(ds[0].id, "abcd-1234");
    assert_eq!(ds[1].name, "Laptop");
    assert_eq!(ds[1].id, "ef01-5678");
    assert_eq!(ds[2].name, "Tv");
    assert_eq!(ds[2].id, "99");
}

#[test]
fn empty_text_has_no_devices() {
    assert_eq!(devs("").len(), 0);
    assert_eq!(devs("\n\n  \n").len(), 0);
}

#[test]
fn line_without_colon_is_malformed() {
    assert!(matches!(parse_devices("just some text"), Err(ParseError::MalformedLine)));
    assert!(parse_line("just some text").is_none());
}

#[test]
fn line_without_identifier_is_malformed() {
    assert!(matches!(parse_devices("Laptop:   "), Err(ParseError::MalformedLine)));
    assert!(matches!(parse_devices("Laptop:"), Err(ParseError::MalformedLine)));
}

#[test]
fn one_malformed_line_rejects_the_output() {
    assert!(matches!(
        parse_devices("Pixel 6: abcd-1234\nbroken\n- Laptop: ef01-5678"),
        Err(ParseError::MalformedLine)
    ));
}

#[test]
fn descriptor_keeps_first_token_only() {
    let d = parse_line("Phone:   id-7  charging  ").expect("line is well-formed");
    assert_eq!(d.name, "Phone");
    assert_eq!(d.id, "id-7");
}

#[test]
fn name_is_trimmed() {
    let d = parse_line("  My Phone  : id-1").expect("line is well-formed");
    assert_eq!(d.name, "My Phone");
    assert_eq!(d.id, "id-1");
}

#[test]
fn splits_at_first_colon() {
    let d = parse_line("Phone: id:8 extra").expect("line is well-formed");
    assert_eq!(d.name, "Phone");
    assert_eq!(d.id, "id:8");
}

#[test]
fn raw_bytes_are_decoded() {
    let ds = parse_output(b"- Laptop: ef01-5678\n".to_vec()).expect("output is well-formed");
    assert_eq!(ds.len(), 1);
    assert_eq!(ds[0].name, "Laptop");
    assert_eq!(ds[0].id, "ef01-5678");
}

#[test]
fn invalid_utf8_is_an_encoding_error() {
    assert!(matches!(parse_output(vec![0xff, 0xfe, 0x20]), Err(ParseError::Encoding)));
    assert!(matches!(parse_output(b"Laptop: \x80id".to_vec()), Err(ParseError::Encoding)));
}
