use lanwatch::build_lease_map;
use lanwatch::parse_lease_line;
use lanwatch::resolve_lease;
use lanwatch::split_spaces;

#[test]
fn splitting_keeps_empty_pieces() {
    assert_eq!(split_spaces(""), vec![String::new()]);
    assert_eq!(split_spaces("a b"), vec!["a".to_string(), "b".to_string()]);
    assert_eq!(
        split_spaces(" a  b "),
        vec!["".to_string(), "a".to_string(), "".to_string(), "b".to_string(), "".to_string()]
    );
}

#[test]
fn lease_line_yields_second_and_fourth_fields() {
    let p = parse_lease_line("x 00:11:22:33:44:55 y hostA").unwrap();
    assert_eq!(p.0, "00:11:22:33:44:55");
    assert_eq!(p.1, "hostA");
}

#[test]
fn lease_line_with_extra_fields_still_uses_fourth() {
    let p = parse_lease_line("1696000000 00:11:22:33:44:55 192.168.1.2 hostA 01:aa").unwrap();
    assert_eq!(p.0, "00:11:22:33:44:55");
    assert_eq!(p.1, "hostA");
}

#[test]
fn short_lease_lines_are_ignored() {
    assert!(parse_lease_line("").is_none());
    assert!(parse_lease_line("a b c").is_none());
    assert!(parse_lease_line("only").is_none());
}

#[test]
fn adjacent_spaces_make_empty_fields() {
    // Splitting is on single spaces, so "a  b c" has the empty second field.
    let p = parse_lease_line("a  b c").unwrap();
    assert_eq!(p.0, "");
    assert_eq!(p.1, "c");
}

#[test]
fn resolve_finds_address_and_falls_back_to_unknown() {
    let lines = vec![
        String::from("x 00:11:22:33:44:55 y hostA"),
        String::from("too short"),
        String::from("x aa:bb:cc:dd:ee:ff y hostB"),
    ];
    let map = build_lease_map(&lines);
    let known = resolve_lease(&map, &[0x00, 0x11, 0x22, 0x33, 0x44, 0x55]);
    assert_eq!(known, "hostA");
    let other = resolve_lease(&map, &[0xaa, 0xbb, 0xcc, 0xdd, 0xee, 0xff]);
    assert_eq!(other, "hostB");
    let absent = resolve_lease(&map, &[9, 9, 9, 9, 9, 9]);
    assert_eq!(absent, "unknown");
}

#[test]
fn later_lease_lines_win() {
    let lines = vec![
        String::from("x 00:11:22:33:44:55 y first"),
        String::from("x 00:11:22:33:44:55 y second"),
    ];
    let map = build_lease_map(&lines);
    let name = resolve_lease(&map, &[0x00, 0x11, 0x22, 0x33, 0x44, 0x55]);
    assert_eq!(name, "second");
}
