use wisper::host::HostRecord;
use wisper::template::{render, RenderError};

fn host() -> HostRecord {
    let mut h = HostRecord::new("box".to_string());
    h.user = Some("alice".to_string());
    h.hostname = Some("10.0.0.5".to_string());
    h
}

#[test]
fn user_and_raw_destination() {
    assert_eq!(render("{{user}}@{{{destination}}}", &host()).unwrap(), "alice@10.0.0.5");
}

#[test]
fn unknown_field() {
    assert_eq!(
        render("{{bogus}}", &host()).unwrap_err(),
        RenderError::UnknownField("bogus".to_string())
    );
}

#[test]
fn escaped_value_is_single_quoted() {
    let mut h = host();
    h.user = Some("it's me".to_string());
    assert_eq!(render("ssh {{user}}", &h).unwrap(), "ssh 'it'\\''s me'");
    assert_eq!(render("ssh {{{user}}}", &h).unwrap(), "ssh it's me");
}

#[test]
fn missing_values_and_extra_attributes() {
    let mut h = HostRecord::new("box".to_string());
    h.set_attribute("Port".to_string(), "2222".to_string());
    assert_eq!(render("{{ hostname }} -p {{Port}} [{{user}}]", &h).unwrap(), "box -p 2222 ['']");
    assert_eq!(render("{{{proxy_command}}}|{{alias}}", &h).unwrap(), "|box");
}

#[test]
fn unclosed_braces_are_text() {
    assert_eq!(render("a {{user", &host()).unwrap(), "a {{user");
    assert_eq!(render("", &host()).unwrap(), "");
}
