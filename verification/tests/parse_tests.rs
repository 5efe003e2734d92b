use netiface_store::parse::{
    contains_chars, parse_gateway_ips, parse_nameservers, split_fields, split_lines,
};

fn chars(s: &str) -> Vec<char> {
    s.chars().collect()
}

fn strings(fields: Vec<Vec<char>>) -> Vec<String> {
    fields.into_iter().map(|cs| cs.into_iter().collect()).collect()
}

#[test]
fn split_lines_at_line_breaks() {
    let lines = split_lines(&chars("first\nsecond\nthird"));
    assert_eq!(strings(lines), vec!["first", "second", "third"]);
}

#[test]
fn split_lines_without_break_is_one_line() {
    assert_eq!(strings(split_lines(&chars("only"))), vec!["only"]);
    assert_eq!(strings(split_lines(&chars(""))), vec![""]);
}

#[test]
fn split_fields_drops_extra_whitespace() {
    let fields = split_fields(&chars("  default   via\t10.0.0.1 "));
    assert_eq!(strings(fields), vec!["default", "via", "10.0.0.1"]);
}

#[test]
fn contains_finds_pattern_anywhere() {
    assert!(contains_chars(&chars("x default via y"), &chars("default via")));
    assert!(!contains_chars(&chars("default  via"), &chars("default via")));
    assert!(!contains_chars(&chars("short"), &chars("default via")));
}

#[test]
fn route_output_yields_default_gateways_in_order() {
    let text = chars(
        "default via 192.168.1.1 dev eth0 proto dhcp metric 100\n\
         10.0.0.0/24 dev eth0 proto kernel scope link\n\
         default via 192.168.1.254 dev eth0 metric 200\n",
    );
    let ips = strings(parse_gateway_ips(&text));
    assert_eq!(ips, vec!["192.168.1.1", "192.168.1.254"]);
}

#[test]
fn route_output_without_default_route_yields_nothing() {
    let text = chars("10.0.0.0/24 dev eth0 proto kernel scope link src 10.0.0.5\n");
    assert_eq!(parse_gateway_ips(&text), Vec::<Vec<char>>::new());
    assert_eq!(parse_gateway_ips(&chars("")), Vec::<Vec<char>>::new());
}

#[test]
fn default_route_line_without_third_field_is_skipped() {
    let text = chars("default via\n");
    assert_eq!(parse_gateway_ips(&text), Vec::<Vec<char>>::new());
}

#[test]
fn resolver_output_yields_nameservers_in_order() {
    let text = chars(
        "# Generated by NetworkManager\n\
         search example.net\n\
         nameserver 8.8.8.8\n\
         nameserver 1.1.1.1\n",
    );
    assert_eq!(strings(parse_nameservers(&text)), vec!["8.8.8.8", "1.1.1.1"]);
}

#[test]
fn nameserver_line_without_address_is_skipped() {
    assert_eq!(parse_nameservers(&chars("nameserver\n")), Vec::<Vec<char>>::new());
}

#[test]
fn nameserver_must_start_the_line() {
    let text = chars("# nameserver 8.8.8.8\n");
    assert_eq!(parse_nameservers(&text), Vec::<Vec<char>>::new());
}
