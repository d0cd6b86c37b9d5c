use ip_manager::ip::{add, generate_query, issue, list, Entry, Query};
use ip_manager::search::LIST_LIMIT;
use ip_manager::store::Store;

fn entry(ip: &str, domain: Option<&str>, using: bool, ports: Vec<u32>, description: Option<&str>) -> Entry {
    Entry {
        ip: ip.to_string(),
        domain: domain.map(|s| s.to_string()),
        using,
        open_ports: ports,
        description: description.map(|s| s.to_string()),
    }
}

fn q(ip: &str, element: &str) -> Query {
    Query { ip: ip.to_string(), element: element.to_string() }
}

fn store_of(entries: Vec<Entry>) -> Store {
    let mut store = Store::new();
    for e in &entries {
        add(e, &mut store);
    }
    store
}

fn sample() -> Entry {
    entry("10.0.0.5", Some("svc.example"), false, vec![22, 80], Some("22 backup"))
}

#[test]
fn search_port_match_wins_over_description() {
    let store = store_of(vec![sample()]);
    assert_eq!(list("22", &store), vec![q("10.0.0.5", "22, 80")]);
}

#[test]
fn search_empty_query_lists_summaries() {
    let store = store_of(vec![
        sample(),
        entry("10.0.0.6", None, true, vec![], None),
        entry("10.0.0.7", None, false, vec![], None),
        entry("10.0.0.8", Some("db.example"), true, vec![], None),
    ]);
    assert_eq!(
        list("", &store),
        vec![
            q("10.0.0.5", "svc.example\nnot in use"),
            q("10.0.0.6", "in use"),
            q("10.0.0.7", "not in use"),
            q("10.0.0.8", "db.example\nin use"),
        ]
    );
}

#[test]
fn search_returns_at_most_eight() {
    assert_eq!(LIST_LIMIT, 8);
    let mut entries = Vec::new();
    for i in 0..20 {
        entries.push(entry(&format!("10.0.1.{}", i), None, i % 2 == 0, vec![22], Some("rack")));
    }
    let store = store_of(entries);
    let all = list("", &store);
    assert_eq!(all.len(), 8);
    for (i, item) in all.iter().enumerate() {
        assert_eq!(item.ip, format!("10.0.1.{}", i));
    }
    let some = list("rack", &store);
    assert_eq!(some.len(), 8);
    assert_eq!(some[7], q("10.0.1.7", "rack"));
    let odd = list("in 10.0.1.1", &store);
    assert_eq!(odd.len(), 8);
    assert_eq!(odd[0].ip, "10.0.1.1");
    assert_eq!(odd[1].ip, "10.0.1.10");
    assert_eq!(list("nothing", &store), Vec::<Query>::new());
    assert_eq!(list("", &Store::new()), Vec::<Query>::new());
}

#[test]
fn search_honours_the_order_of_the_fields() {
    let e = entry("10.0.0.5", Some("svc5.example"), false, vec![5, 80], Some("svc 5 example 80"));
    // the address before everything else
    assert_eq!(generate_query(&e, "5"), Some(q("10.0.0.5", "svc5.example\nnot in use")));
    assert_eq!(generate_query(&e, "0.0"), Some(q("10.0.0.5", "svc5.example\nnot in use")));
    // the domain before ports and description
    assert_eq!(generate_query(&e, "svc"), Some(q("10.0.0.5", "svc5.example")));
    assert_eq!(generate_query(&e, "example"), Some(q("10.0.0.5", "svc5.example")));
    // a port before the description
    assert_eq!(generate_query(&e, "80"), Some(q("10.0.0.5", "5, 80")));
    assert_eq!(generate_query(&e, "+80"), Some(q("10.0.0.5", "5, 80")));
    // the description last
    assert_eq!(generate_query(&e, " "), Some(q("10.0.0.5", "svc 5 example 80")));
    assert_eq!(generate_query(&e, "8"), Some(q("10.0.0.5", "svc 5 example 80")));
    assert_eq!(generate_query(&e, "443"), None);
    assert_eq!(generate_query(&e, "z"), None);
}

#[test]
fn search_matches_the_word_for_the_state_of_use() {
    let free = entry("a", None, false, vec![], Some("was in use, now not in use"));
    let used = entry("b", Some("in use"), true, vec![], None);
    let plain = entry("c", None, true, vec![], None);
    assert_eq!(generate_query(&free, "not in use"), Some(q("a", "not in use")));
    assert_eq!(generate_query(&free, "in use"), Some(q("a", "was in use, now not in use")));
    assert_eq!(generate_query(&used, "in use"), Some(q("b", "in use")));
    assert_eq!(generate_query(&plain, "in use"), Some(q("c", "in use")));
    assert_eq!(generate_query(&plain, "not in use"), None);
    assert_eq!(generate_query(&entry("d", None, false, vec![], None), "in use"), None);
}

#[test]
fn search_gives_one_result_for_each_entry() {
    let store = store_of(vec![
        sample(),
        entry("10.0.0.22", Some("22.example"), true, vec![22], Some("22")),
        entry("10.0.0.9", None, true, vec![443], Some("nothing")),
    ]);
    assert_eq!(
        list("22 svc backup 80", &store),
        vec![q("10.0.0.5", "22, 80"), q("10.0.0.22", "22.example\nin use")]
    );
    // the first word that matches decides, not the best field
    assert_eq!(
        list("backup 22", &store),
        vec![q("10.0.0.5", "22 backup"), q("10.0.0.22", "22.example\nin use")]
    );
}

#[test]
fn search_cuts_the_query_at_blank_space() {
    let store = store_of(vec![sample()]);
    assert_eq!(list("  443\t\n 80  ", &store), vec![q("10.0.0.5", "22, 80")]);
    assert_eq!(list(" \t ", &store), Vec::<Query>::new());
    assert_eq!(list("nope\u{3000}svc", &store), vec![q("10.0.0.5", "svc.example")]);
}

#[test]
fn issue_without_ports_returns_the_first_unused() {
    let store = store_of(vec![
        entry("a", None, true, vec![22], None),
        entry("b", None, false, vec![], None),
        entry("c", None, false, vec![22, 80], None),
    ]);
    assert_eq!(issue(&[], &store), Some(entry("b", None, false, vec![], None)));
    // handing out does not mark the entry
    assert_eq!(issue(&[], &store), Some(entry("b", None, false, vec![], None)));
}

#[test]
fn issue_returns_nothing_when_all_are_used() {
    let store = store_of(vec![
        entry("a", None, true, vec![22, 80], None),
        entry("b", None, true, vec![22, 80], None),
    ]);
    assert_eq!(issue(&[], &store), None);
    assert_eq!(issue(&[22], &store), None);
    assert_eq!(issue(&[], &Store::new()), None);
}

#[test]
fn issue_needs_every_required_port() {
    let store = store_of(vec![
        entry("only22", None, false, vec![22], None),
        entry("used", None, true, vec![22, 80], None),
        entry("many", None, false, vec![443, 80, 8080, 22], None),
        entry("exact", None, false, vec![22, 80], None),
    ]);
    assert_eq!(issue(&[22, 80], &store).map(|e| e.ip), Some("many".to_string()));
    assert_eq!(issue(&[80, 22, 22], &store).map(|e| e.ip), Some("many".to_string()));
    assert_eq!(issue(&[22], &store).map(|e| e.ip), Some("only22".to_string()));
    assert_eq!(issue(&[8080], &store).map(|e| e.ip), Some("many".to_string()));
    assert_eq!(issue(&[22, 80, 9], &store), None);
    let only = store_of(vec![entry("only22", None, false, vec![22], None)]);
    assert_eq!(issue(&[22, 80], &only), None);
}
