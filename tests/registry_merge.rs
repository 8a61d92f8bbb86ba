use wisper::config::parse;
use wisper::registry::Registry;

fn two_files() -> Registry {
    let f1 = parse("Host web1\n  HostName 10.0.0.1\n  User old\n").unwrap();
    let f2 = parse("Host web1\n  HostName 10.0.0.2\nHost db1\n  HostName 10.0.0.9\n").unwrap();
    Registry::build(&vec![("file1".to_string(), f1), ("file2".to_string(), f2)])
}

#[test]
fn later_file_wins_and_keeps_first_position() {
    let reg = two_files();
    let names: Vec<&str> = reg.list().iter().map(|h| h.alias.as_str()).collect();
    assert_eq!(names, vec!["web1", "db1"]);
    let web = reg.get("web1").unwrap();
    assert_eq!(web.hostname.as_deref(), Some("10.0.0.2"));
    // whole-record replacement: the earlier user does not survive
    assert_eq!(web.user, None);
    assert_eq!(reg.len(), 2);
}

#[test]
fn get_missing_alias() {
    let reg = two_files();
    assert!(reg.get("nope").is_none());
    assert_eq!(reg.get("db1").unwrap().hostname.as_deref(), Some("10.0.0.9"));
}

#[test]
fn empty_registry() {
    let reg = Registry::build(&vec![]);
    assert_eq!(reg.len(), 0);
    assert!(reg.get("a").is_none());
}

#[test]
fn repeat_within_one_source() {
    let f = parse("Host a\n  User x\nHost b\nHost a\n  User y\n").unwrap();
    let reg = Registry::build(&vec![("f".to_string(), f)]);
    let names: Vec<&str> = reg.list().iter().map(|h| h.alias.as_str()).collect();
    assert_eq!(names, vec!["a", "b"]);
    assert_eq!(reg.get("a").unwrap().user.as_deref(), Some("y"));
}
