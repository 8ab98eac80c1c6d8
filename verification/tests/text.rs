use kdeshare::text::basename;
use kdeshare::text::format_usize;
use kdeshare::text::join_strings;
use kdeshare::text::split_lines;
use kdeshare::text::token_prefix;
use kdeshare::text::trim_str;

#[test]
fn trims_blank_edges() {
    assert_eq!(trim_str("  Pixel 6 \t"), "Pixel 6");
    assert_eq!(trim_str("inner  space"), "inner  space");
    assert_eq!(trim_str("   "), "");
    assert_eq!(trim_str(""), "");
}

#[test]
fn splits_on_newlines() {
    assert_eq!(split_lines("a\nb\nc"), vec!["a", "b", "c"]);
    assert_eq!(split_lines("a\n"), vec!["a", ""]);
    assert_eq!(split_lines(""), vec![""]);
}

#[test]
fn joins_with_newlines() {
    let items = vec!["a".to_string(), "b".to_string()];
    assert_eq!(join_strings(&items), "a\nb");
    assert_eq!(join_strings(&vec!["solo".to_string()]), "solo");
    assert_eq!(join_strings(&Vec::new()), "");
}

#[test]
fn renders_decimals() {
    assert_eq!(format_usize(0), "0");
    assert_eq!(format_usize(7), "7");
    assert_eq!(format_usize(12), "12");
    assert_eq!(format_usize(305), "305");
}

#[test]
fn basename_takes_the_last_component() {
    assert_eq!(basename("/tmp/photos/cat.jpg"), "cat.jpg");
    assert_eq!(basename("cat.jpg"), "cat.jpg");
    assert_eq!(basename("/tmp/dir/"), "");
}

#[test]
fn token_stops_at_blank() {
    assert_eq!(token_prefix("abcd-1234 (reachable)"), "abcd-1234");
    assert_eq!(token_prefix("abcd-1234"), "abcd-1234");
    assert_eq!(token_prefix(""), "");
}
