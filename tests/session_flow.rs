use wisper::config::parse;
use wisper::registry::Registry;
use wisper::session::{Action, Event, Mode, Session};

fn session(template: &str, exit_after: bool) -> Session {
    let f1 = parse("Host web1\n  HostName 10.0.0.1\n  User alice\n").unwrap();
    let f2 = parse("Host web1\n  HostName 10.0.0.2\n  User alice\nHost db1\n  HostName 10.0.0.9\n").unwrap();
    let reg = Registry::build(&vec![("file1".to_string(), f1), ("file2".to_string(), f2)]);
    Session::new(reg, template.to_string(), false, exit_after, "")
}

fn type_str(s: &mut Session, text: &str) {
    for c in text.chars() {
        assert_eq!(s.handle(Event::Type(c)), Action::Redraw);
    }
}

#[test]
fn select_run_exit_returns_to_browsing() {
    let mut s = session("ssh {{user}}@{{{destination}}}", false);
    type_str(&mut s, "web1");
    assert_eq!(s.selected().unwrap().alias, "web1");
    assert_eq!(s.handle(Event::Select), Action::Launch("ssh alice@10.0.0.2".to_string()));
    assert_eq!(s.mode, Mode::Running);
    assert_eq!(s.handle(Event::Interrupt), Action::Ignore);
    assert_eq!(s.handle(Event::Exited(Some(1))), Action::SessionEnded(Some(1)));
    assert_eq!(s.mode, Mode::Browsing);
    assert_eq!(s.query_string(), "");
    assert_eq!(s.results.len(), 2);
}

#[test]
fn exit_after_session_terminates() {
    let mut s = session("ssh {{{destination}}}", true);
    assert_eq!(s.handle(Event::Select), Action::Launch("ssh 10.0.0.2".to_string()));
    assert_eq!(s.handle(Event::Exited(Some(0))), Action::Exit);
    assert_eq!(s.mode, Mode::Terminated);
    assert_eq!(s.handle(Event::Type('x')), Action::Exit);
}

#[test]
fn render_failure_keeps_browsing() {
    let mut s = session("{{bogus}}", false);
    assert_eq!(s.handle(Event::Select), Action::RenderFailed("bogus".to_string()));
    assert_eq!(s.mode, Mode::Browsing);
}

#[test]
fn highlight_moves_and_resets() {
    let mut s = session("x", false);
    assert_eq!(s.highlighted, 0);
    s.handle(Event::Up);
    assert_eq!(s.highlighted, 0);
    s.handle(Event::Down);
    assert_eq!(s.highlighted, 1);
    s.handle(Event::Down);
    assert_eq!(s.highlighted, 1);
    assert_eq!(s.selected().unwrap().alias, "db1");
    type_str(&mut s, "d");
    assert_eq!(s.highlighted, 0);
    assert_eq!(s.handle(Event::Erase), Action::Redraw);
    assert_eq!(s.query_string(), "");
}

#[test]
fn select_with_no_results_does_nothing() {
    let mut s = session("x", false);
    type_str(&mut s, "zzz");
    assert!(s.selected().is_none());
    assert_eq!(s.handle(Event::Select), Action::Redraw);
    assert_eq!(s.mode, Mode::Browsing);
}

#[test]
fn quit_and_interrupt_terminate() {
    let mut s = session("x", false);
    assert_eq!(s.handle(Event::Interrupt), Action::Exit);
    assert_eq!(s.mode, Mode::Terminated);
    let mut t = session("x", false);
    assert_eq!(t.handle(Event::Quit), Action::Exit);
}

#[test]
fn launch_failure_returns_to_browsing() {
    let mut s = session("x", false);
    s.handle(Event::Select);
    assert_eq!(s.handle(Event::LaunchFailed), Action::LaunchFailed);
    assert_eq!(s.mode, Mode::Browsing);
}
