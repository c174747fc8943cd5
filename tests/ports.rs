use port_task_kill::{parse_port, parse_ports};

fn word(s: &str) -> Vec<char> {
    s.chars().collect()
}

#[test]
fn malformed_tokens_are_dropped() {
    assert_eq!(parse_ports("abc 70000 8080"), vec![8080]);
}

#[test]
fn empty_line_has_no_ports() {
    assert_eq!(parse_ports(""), Vec::<u16>::new());
    assert_eq!(parse_ports("   \t \n"), Vec::<u16>::new());
}

#[test]
fn all_unparsable_line_has_no_ports() {
    assert_eq!(parse_ports("abc -1 65536 1.5 0x10"), Vec::<u16>::new());
}

#[test]
fn ports_keep_order_and_repeats() {
    assert_eq!(parse_ports("  80\t443\n80 "), vec![80, 443, 80]);
}

#[test]
fn range_edges() {
    assert_eq!(parse_ports("0 65535 65536"), vec![0, 65535]);
}

#[test]
fn plus_sign_and_leading_zeros() {
    assert_eq!(parse_ports("+22 0008080 + ++1 -0"), vec![22, 8080]);
}

#[test]
fn unicode_whitespace_separates() {
    assert_eq!(parse_ports("80\u{3000}81\u{a0}82"), vec![80, 81, 82]);
}

#[test]
fn single_word_parse() {
    assert_eq!(parse_port(&word("8080")), Some(8080));
    assert_eq!(parse_port(&word("")), None);
    assert_eq!(parse_port(&word("+")), None);
    assert_eq!(parse_port(&word("99999999999")), None);
    assert_eq!(parse_port(&word("12a")), None);
}
