use ip_manager::ip::{parse_port_list, Entry, RawEntry};

fn entry_with_ports(ports: Vec<u32>) -> Entry {
    Entry { ip: "10.0.0.5".to_string(), domain: None, using: false, open_ports: ports, description: None }
}

fn raw(using: &str, open_ports: Option<&str>) -> RawEntry {
    RawEntry {
        ip: "10.0.0.5".to_string(),
        domain: Some("svc.example".to_string()),
        using: using.to_string(),
        open_ports: open_ports.map(|s| s.to_string()),
        description: Some("notes".to_string()),
    }
}

#[test]
fn ports_as_string_joins_with_comma_and_space() {
    assert_eq!(entry_with_ports(vec![22, 80, 443]).ports_as_string(), "22, 80, 443");
    assert_eq!(entry_with_ports(vec![22]).ports_as_string(), "22");
    assert_eq!(entry_with_ports(vec![]).ports_as_string(), "");
    assert_eq!(entry_with_ports(vec![0, 4294967295, 0]).ports_as_string(), "0, 4294967295, 0");
}

#[test]
fn decode_drops_malformed_port_tokens() {
    let e: Entry = raw("true", Some("22, abc, 80")).into();
    assert_eq!(e.open_ports, vec![22, 80]);
}

#[test]
fn decode_copies_the_other_fields() {
    let e: Entry = raw("false", Some("22")).into();
    assert_eq!(e.ip, "10.0.0.5");
    assert_eq!(e.domain, Some("svc.example".to_string()));
    assert_eq!(e.description, Some("notes".to_string()));
    assert!(!e.using);
    let empty = RawEntry { ip: String::new(), domain: Some(String::new()), using: String::new(), open_ports: None, description: None };
    let e: Entry = empty.into();
    assert_eq!(e, Entry { ip: String::new(), domain: Some(String::new()), using: false, open_ports: vec![], description: None });
}

#[test]
fn decode_using_is_exactly_true() {
    assert!(raw("true", None).into().using);
    for other in ["True", "TRUE", " true", "true ", "false", "", "yes", "1"] {
        assert!(!raw(other, None).into().using, "{:?}", other);
    }
}

#[test]
fn decode_ports_absent_or_empty_is_no_port() {
    assert_eq!(raw("true", None).into().open_ports, Vec::<u32>::new());
    assert_eq!(raw("true", Some("")).into().open_ports, Vec::<u32>::new());
    assert_eq!(raw("true", Some(" , ,")).into().open_ports, Vec::<u32>::new());
}

#[test]
fn decode_ports_trims_and_keeps_order_and_duplicates() {
    assert_eq!(parse_port_list("  443 ,22,\t80\n, 22"), vec![443, 22, 80, 22]);
    assert_eq!(parse_port_list("22,,80"), vec![22, 80]);
    assert_eq!(parse_port_list("4294967295, 4294967296, -1, +5"), vec![4294967295, 5]);
    assert_eq!(parse_port_list("2 2, 80"), vec![80]);
}

#[test]
fn ports_round_trip_through_their_list() {
    for ports in [vec![], vec![22], vec![22, 80], vec![443, 22, 22, 0, 4294967295], vec![7; 20]] {
        let text = entry_with_ports(ports.clone()).ports_as_string();
        assert_eq!(parse_port_list(&text), ports);
        let e: Entry = raw("true", Some(&text)).into();
        assert_eq!(e.open_ports, ports);
    }
}

#[test]
fn an_entry_is_well_formed_when_it_has_an_address() {
    assert!(entry_with_ports(vec![]).is_well_formed());
    let nameless = Entry { ip: String::new(), domain: None, using: false, open_ports: vec![], description: None };
    assert!(!nameless.is_well_formed());
    let decoded: Entry = raw("true", None).into();
    assert!(decoded.is_well_formed());
}
