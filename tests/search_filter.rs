use wisper::config::parse;
use wisper::host::HostRecord;
use wisper::registry::Registry;
use wisper::search::{filter, fuzzy_find};

fn registry_of(text: &str) -> Registry {
    Registry::build(&vec![("f".to_string(), parse(text).unwrap())])
}

fn two_files() -> Registry {
    let f1 = parse("Host web1\n  HostName 10.0.0.1\n").unwrap();
    let f2 = parse("Host web1\n  HostName 10.0.0.2\nHost db1\n  HostName 10.0.0.9\n").unwrap();
    Registry::build(&vec![("file1".to_string(), f1), ("file2".to_string(), f2)])
}

fn aliases(v: &[HostRecord]) -> Vec<String> {
    v.iter().map(|h| h.alias.clone()).collect()
}

#[test]
fn query_db_gives_db1() {
    let reg = two_files();
    assert_eq!(aliases(&filter(&reg, "db", false)), vec!["db1"]);
}

#[test]
fn empty_query_sorted_by_name() {
    let reg = two_files();
    assert_eq!(aliases(&filter(&reg, "", true)), vec!["db1", "web1"]);
}

#[test]
fn empty_query_keeps_registry_order() {
    let reg = registry_of("Host zeta\nHost Alpha\nHost mid\n");
    assert_eq!(aliases(&filter(&reg, "", false)), vec!["zeta", "Alpha", "mid"]);
    assert_eq!(aliases(&filter(&reg, "", true)), vec!["Alpha", "mid", "zeta"]);
}

#[test]
fn subsequence_match_is_fuzzy_and_case_insensitive() {
    let reg = registry_of("Host web-server-01\nHost mail\n");
    assert_eq!(aliases(&filter(&reg, "wsv1", false)), vec!["web-server-01"]);
    assert_eq!(aliases(&filter(&reg, "WSV1", false)), vec!["web-server-01"]);
    assert!(filter(&reg, "xyz", false).is_empty());
}

#[test]
fn hostname_takes_part_in_matching() {
    let reg = registry_of("Host a\n  HostName example.org\nHost b\n");
    assert_eq!(aliases(&filter(&reg, "exorg", false)), vec!["a"]);
}

#[test]
fn every_result_contains_query() {
    let reg = registry_of("Host alpha\nHost beta\n  HostName gamma\nHost delta\n");
    for h in filter(&reg, "am", false) {
        let t = format!("{}{}", h.alias, h.destination()).to_lowercase();
        let mut it = t.chars();
        assert!("am".chars().all(|c| it.any(|d| d == c)));
    }
}

#[test]
fn ranking_exact_then_prefix_then_shorter() {
    let reg = registry_of("Host xwebx\nHost webserver\nHost web\nHost w-e-b\n");
    assert_eq!(
        aliases(&filter(&reg, "web", false)),
        vec!["web", "webserver", "xwebx", "w-e-b"]
    );
}

#[test]
fn ranking_alphabetical_tie_break() {
    let reg = registry_of("Host bx\n  HostName h\nHost ax\n  HostName h\n");
    assert_eq!(aliases(&filter(&reg, "x", false)), vec!["ax", "bx"]);
}

#[test]
fn sort_by_name_overrides_ranking() {
    let reg = registry_of("Host xwebx\nHost web\nHost Aweb\n");
    assert_eq!(aliases(&filter(&reg, "web", true)), vec!["Aweb", "web", "xwebx"]);
}

#[test]
fn fuzzy_find_span() {
    let q: Vec<char> = "ac".chars().collect();
    let t: Vec<char> = "xabc".chars().collect();
    assert_eq!(fuzzy_find(&q, &t), Some((1, 4)));
    let t2: Vec<char> = "ca".chars().collect();
    assert_eq!(fuzzy_find(&q, &t2), None);
}
