use wisper::config::{parse, ParseError};

#[test]
fn parses_blocks_in_order() {
    let text = "# hosts\nHost web1\n    HostName 10.0.0.1\n    User alice\n\nHost db1\n  hostname 10.0.0.9\n  Port 2222\n  ProxyCommand ssh -W %h:%p bastion\n";
    let hosts = parse(text).unwrap();
    assert_eq!(hosts.len(), 2);
    assert_eq!(hosts[0].alias, "web1");
    assert_eq!(hosts[0].hostname.as_deref(), Some("10.0.0.1"));
    assert_eq!(hosts[0].user.as_deref(), Some("alice"));
    assert_eq!(hosts[1].alias, "db1");
    assert_eq!(hosts[1].hostname.as_deref(), Some("10.0.0.9"));
    assert_eq!(hosts[1].proxy_command.as_deref(), Some("ssh -W %h:%p bastion"));
    assert_eq!(hosts[1].extra_attributes, vec![("Port".to_string(), "2222".to_string())]);
    assert_eq!(hosts[1].attribute("Port").as_deref(), Some("2222"));
    assert_eq!(hosts[1].attribute("port"), None);
}

#[test]
fn alias_is_trimmed_rest_of_line() {
    let hosts = parse("Host   my box  \r\n").unwrap();
    assert_eq!(hosts.len(), 1);
    assert_eq!(hosts[0].alias, "my box");
    assert_eq!(hosts[0].hostname, None);
    assert_eq!(hosts[0].destination(), "my box");
}

#[test]
fn empty_and_comment_only_text() {
    assert!(parse("").unwrap().is_empty());
    assert!(parse("\n   \n  # nothing\n").unwrap().is_empty());
}

#[test]
fn orphan_directive_is_refused() {
    assert_eq!(
        parse("\n  HostName 10.0.0.1\nHost a\n").unwrap_err(),
        ParseError::OrphanDirective { line: 2 }
    );
}

#[test]
fn empty_alias_is_refused() {
    assert_eq!(parse("Host a\nHost   \n").unwrap_err(), ParseError::EmptyAlias { line: 2 });
}

#[test]
fn directive_without_value_is_refused() {
    assert_eq!(
        parse("Host a\n  HostName\n").unwrap_err(),
        ParseError::MissingValue { line: 2 }
    );
}

#[test]
fn unknown_keys_kept_and_repeated_key_replaced() {
    let hosts = parse("Host a\n  Port 22\n  ForwardAgent yes\n  Port 2200\n  USER bob\n").unwrap();
    assert_eq!(
        hosts[0].extra_attributes,
        vec![
            ("Port".to_string(), "2200".to_string()),
            ("ForwardAgent".to_string(), "yes".to_string())
        ]
    );
    assert_eq!(hosts[0].user.as_deref(), Some("bob"));
}

#[test]
fn parsing_twice_gives_same_records() {
    let text = "Host a\n  HostName x\nHost b\n  User u\n  Opt v\n";
    let one = parse(text).unwrap();
    let two = parse(text).unwrap();
    assert_eq!(one.len(), two.len());
    for (x, y) in one.iter().zip(two.iter()) {
        assert_eq!(x.alias, y.alias);
        assert_eq!(x.hostname, y.hostname);
        assert_eq!(x.user, y.user);
        assert_eq!(x.proxy_command, y.proxy_command);
        assert_eq!(x.extra_attributes, y.extra_attributes);
    }
}
