use botnet_tracker::list::List;
use botnet_tracker::port::Port;
use botnet_tracker::strutil::trim_ascii;

#[test]
fn find_returns_matching_descriptor() {
    let p = Port::find(80);
    assert_eq!(p.port, 80);
    assert_eq!(p.description, "Hypertext Transfer Protocol (HTTP)");
}

#[test]
fn find_unknown_port_returns_sentinel() {
    let p = Port::find(4);
    assert_eq!(p.port, 0);
    assert_eq!(p.description, "Unknown");
    assert_eq!(p.protocol, "Unknown");
    assert_eq!(p.status, "Unofficial");
}

#[test]
fn port_zero_is_reserved_not_unknown() {
    let p = Port::find(0);
    assert_eq!(p.port, 0);
    assert_eq!(p.description, "Reserved");
}

#[test]
fn every_lookup_carries_the_port_or_is_unknown() {
    for port in [0u16, 7, 22, 53, 80, 443, 1, 9999, 65535] {
        let p = Port::find(port);
        assert!(p.port == port || p.description == "Unknown");
    }
}

#[test]
fn new_list_is_empty() {
    let l = List::new("n", "d");
    assert_eq!(l.len(), 0);
    assert!(!l.contains(&String::from("x")));
}

#[test]
fn loading_only_comments_and_blanks_yields_empty_map() {
    let mut l = List::new("blocklist", "test");
    let lines = vec![
        String::from("# a comment"),
        String::from("   "),
        String::from(""),
        String::from("\t# indented comment"),
        String::from("\t \t"),
    ];
    l.load_lines(&lines, "ann");
    assert_eq!(l.len(), 0);
    assert!(!l.contains(&String::from("# a comment")));
}

#[test]
fn loading_trims_and_annotates() {
    let mut l = List::new("blocklist", "test");
    let lines = vec![
        String::from("  1.2.3.4  "),
        String::from("# skip me"),
        String::from("\t5.6.7.8"),
    ];
    l.load_lines(&lines, "Zeus Botnet");
    assert_eq!(l.len(), 2);
    assert!(l.contains(&String::from("1.2.3.4")));
    assert!(l.contains(&String::from("5.6.7.8")));
    assert_eq!(l.get(&String::from("1.2.3.4")).unwrap(), "Zeus Botnet");
}

#[test]
fn repeated_keys_keep_the_last_annotation() {
    let mut l = List::new("n", "d");
    l.add(String::from("k"), String::from("first"));
    l.add(String::from("k"), String::from("second"));
    assert_eq!(l.len(), 1);
    assert_eq!(l.get(&String::from("k")).unwrap(), "second");
}

#[test]
fn containment_is_case_sensitive() {
    let mut l = List::new("n", "d");
    l.add(String::from("Foo"), String::from("a"));
    assert!(l.contains(&String::from("Foo")));
    assert!(!l.contains(&String::from("foo")));
    assert!(!l.contains(&String::from("FOO")));
}

#[test]
fn trim_removes_ascii_whitespace_only_at_the_edges() {
    assert_eq!(trim_ascii("  a b \t"), "a b");
    assert_eq!(trim_ascii("\r\nx\r\n"), "x");
    assert_eq!(trim_ascii("   "), "");
    assert_eq!(trim_ascii(""), "");
    assert_eq!(trim_ascii("abc"), "abc");
}
