//! The interactive loop as a state machine: browse, confirm, run, and back
//! to browsing or out. The caller performs each action and reports what
//! happened as the next event.
use vstd::prelude::*;
use crate::host::{hosts_view, HostRecord};
use crate::registry::Registry;
use crate::search::{filter_chars, filter_post};
use crate::template::{render, render_spec, RenderError};
use crate::text::chars_of;

verus! {

/// Where the session stands. Confirming a host renders its command within
/// the same step, which leaves the session running it or, when the template
/// names an unknown field, browsing again.
#[derive(Debug, Clone, Copy, PartialEq, Eq, Structural)]
pub enum Mode {
    /// The search box is active and the list is shown.
    Browsing,
    /// A command was launched and has the terminal until it exits.
    Running,
    /// The session is over.
    Terminated,
}

/// What the user or the child process did.
#[derive(Debug, Clone, Copy, PartialEq, Eq, Structural)]
pub enum Event {
    /// A character typed into the search box.
    Type(char),
    /// The last character of the query erased.
    Erase,
    /// The highlight moved up one row.
    Up,
    /// The highlight moved down one row.
    Down,
    /// The highlighted host chosen.
    Select,
    /// The user asked to leave.
    Quit,
    /// An interrupt signal.
    Interrupt,
    /// The launched command exited, with its code when it had one.
    Exited(Option<i32>),
    /// The launched command could not be started.
    LaunchFailed,
}

/// What the caller is to do next.
#[derive(Debug, PartialEq, Eq)]
pub enum Action {
    /// Draw the list again.
    Redraw,
    /// Run this command in the foreground and report its exit.
    Launch(String),
    /// Tell the user that the template names an unknown field.
    RenderFailed(String),
    /// Tell the user that the command ended, with its exit code.
    SessionEnded(Option<i32>),
    /// Tell the user that the command could not be started.
    LaunchFailed,
    /// Nothing to do: the event is not for this state.
    Ignore,
    /// Leave the program.
    Exit,
}

/// The session: its configuration and its search state.
pub struct Session {
    pub registry: Registry,
    pub template: String,
    pub sort_by_name: bool,
    pub exit_after_session: bool,
    pub mode: Mode,
    pub query: Vec<char>,
    pub results: Vec<HostRecord>,
    pub highlighted: usize,
}

impl Session {
    /// The results belong to the query, and the highlight lies on one of
    /// them, or at 0 when there is none.
    pub open spec fn wf(&self) -> bool {
        &&& self.registry.wf()
        &&& filter_post(self.registry@, self.query@, self.sort_by_name, hosts_view(self.results@))
        &&& (self.results.len() == 0 ==> self.highlighted == 0)
        &&& (self.results.len() > 0 ==> self.highlighted < self.results.len())
    }

    /// The query set to `q`, the results recomputed and the highlight reset.
    fn set_query(&mut self, q: Vec<char>)
        requires
            old(self).registry.wf(),
        ensures
            final(self).wf(),
            final(self).query@ == q@,
            final(self).highlighted == 0,
            final(self).mode == old(self).mode,
            final(self).registry == old(self).registry,
            final(self).template == old(self).template,
            final(self).sort_by_name == old(self).sort_by_name,
            final(self).exit_after_session == old(self).exit_after_session,
    {
        self.results = filter_chars(&self.registry, &q, self.sort_by_name);
        self.query = q;
        self.highlighted = 0;
    }

    /// A session browsing the registry with the given initial query.
    pub fn new(
        registry: Registry,
        template: String,
        sort_by_name: bool,
        exit_after_session: bool,
        initial_query: &str,
    ) -> (r: Session)
        requires
            registry.wf(),
        ensures
            r.wf(),
            r.mode == Mode::Browsing,
            r.query@ == initial_query@,
            r.highlighted == 0,
            r.registry == registry,
            r.template == template,
            r.sort_by_name == sort_by_name,
            r.exit_after_session == exit_after_session,
    {
        let q = chars_of(initial_query);
        let results = filter_chars(&registry, &q, sort_by_name);
        Session {
            registry,
            template,
            sort_by_name,
            exit_after_session,
            mode: Mode::Browsing,
            query: q,
            results,
            highlighted: 0,
        }
    }

    /// The current query.
    pub fn query_string(&self) -> (r: String)
        ensures
            r@ == self.query@,
    {
        crate::text::string_of(&self.query, 0, self.query.len())
    }

    /// Handles one event and says what the caller is to do.
    ///
    /// While browsing, typing and erasing change the query, recompute the
    /// results and reset the highlight; the arrows move the highlight within
    /// the results; selecting with results renders the template for the
    /// highlighted host and launches it, or reports an unknown field and
    /// keeps browsing; quitting or an interrupt ends the session. While a
    /// command runs, an interrupt belongs to it; its exit ends the session
    /// when `exit_after_session` is set, else browsing starts again with an
    /// empty query. A command that could not start leaves the session
    /// browsing. Once terminated, the session stays so.
    pub fn handle(&mut self, ev: Event) -> (act: Action)
        requires
            old(self).wf(),
        ensures
            final(self).wf(),
            final(self).registry == old(self).registry,
            final(self).template == old(self).template,
            final(self).sort_by_name == old(self).sort_by_name,
            final(self).exit_after_session == old(self).exit_after_session,
            old(self).mode == Mode::Terminated ==> *final(self) == *old(self) && act == Action::Exit,
            old(self).mode == Mode::Browsing ==> match ev {
                Event::Type(c) => final(self).mode == Mode::Browsing && final(self).query@ == old(
                    self,
                ).query@.push(c) && final(self).highlighted == 0 && act == Action::Redraw,
                Event::Erase => final(self).mode == Mode::Browsing && final(self).query@ == (if old(
                    self,
                ).query@.len() > 0 {
                    old(self).query@.drop_last()
                } else {
                    old(self).query@
                }) && final(self).highlighted == 0 && act == Action::Redraw,
                Event::Up => final(self).mode == Mode::Browsing && final(self).query == old(
                    self,
                ).query && final(self).results == old(self).results && final(self).highlighted == (
                if old(self).highlighted > 0 {
                    old(self).highlighted - 1
                } else {
                    0
                }) && act == Action::Redraw,
                Event::Down => final(self).mode == Mode::Browsing && final(self).query == old(
                    self,
                ).query && final(self).results == old(self).results && final(self).highlighted == (
                if old(self).highlighted + 1 < old(self).results.len() {
                    old(self).highlighted + 1
                } else {
                    old(self).highlighted as int
                }) && act == Action::Redraw,
                Event::Select => if old(self).results.len() == 0 {
                    *final(self) == *old(self) && act == Action::Redraw
                } else {
                    final(self).query == old(self).query && final(self).results == old(self).results
                        && final(self).highlighted == old(self).highlighted && match render_spec(
                        old(self).template@,
                        old(self).results@[old(self).highlighted as int]@,
                    ) {
                        Ok(cmd) => final(self).mode == Mode::Running && (act matches Action::Launch(
                            s,
                        ) && s@ == cmd),
                        Err(name) => final(self).mode == Mode::Browsing && (
                        act matches Action::RenderFailed(s) && s@ == name),
                    }
                },
                Event::Quit | Event::Interrupt => final(self).mode == Mode::Terminated && act
                    == Action::Exit,
                Event::Exited(_) | Event::LaunchFailed => *final(self) == *old(self) && act
                    == Action::Ignore,
            },
            old(self).mode == Mode::Running ==> match ev {
                Event::Exited(code) => if old(self).exit_after_session {
                    final(self).mode == Mode::Terminated && act == Action::Exit
                } else {
                    final(self).mode == Mode::Browsing && final(self).query@.len() == 0
                        && final(self).highlighted == 0 && act == Action::SessionEnded(code)
                },
                Event::LaunchFailed => final(self).mode == Mode::Browsing && final(self).query
                    == old(self).query && final(self).results == old(self).results
                    && final(self).highlighted == old(self).highlighted && act
                    == Action::LaunchFailed,
                _ => *final(self) == *old(self) && act == Action::Ignore,
            },
    {
        match self.mode {
            Mode::Terminated => Action::Exit,
            Mode::Browsing => match ev {
                Event::Type(c) => {
                    let mut q = self.query.clone();
                    q.push(c);
                    self.set_query(q);
                    Action::Redraw
                },
                Event::Erase => {
                    let mut q = self.query.clone();
                    if q.len() > 0 {
                        q.pop();
                    }
                    self.set_query(q);
                    Action::Redraw
                },
                Event::Up => {
                    if self.highlighted > 0 {
                        self.highlighted = self.highlighted - 1;
                    }
                    Action::Redraw
                },
                Event::Down => {
                    if self.highlighted + 1 < self.results.len() {
                        self.highlighted = self.highlighted + 1;
                    }
                    Action::Redraw
                },
                Event::Select => {
                    if self.results.len() == 0 {
                        return Action::Redraw;
                    }
                    match render(self.template.as_str(), &self.results[self.highlighted]) {
                        Ok(cmd) => {
                            self.mode = Mode::Running;
                            Action::Launch(cmd)
                        },
                        Err(RenderError::UnknownField(name)) => Action::RenderFailed(name),
                    }
                },
                Event::Quit | Event::Interrupt => {
                    self.mode = Mode::Terminated;
                    Action::Exit
                },
                Event::Exited(_) | Event::LaunchFailed => Action::Ignore,
            },
            Mode::Running => match ev {
                Event::Exited(code) => {
                    if self.exit_after_session {
                        self.mode = Mode::Terminated;
                        Action::Exit
                    } else {
                        self.mode = Mode::Browsing;
                        self.set_query(Vec::new());
                        Action::SessionEnded(code)
                    }
                },
                Event::LaunchFailed => {
                    self.mode = Mode::Browsing;
                    Action::LaunchFailed
                },
                _ => Action::Ignore,
            },
        }
    }

    /// The highlighted host, when there are results.
    pub fn selected(&self) -> (r: Option<&HostRecord>)
        requires
            self.wf(),
        ensures
            self.results.len() == 0 <==> r is None,
            r matches Some(h) ==> h == self.results@[self.highlighted as int],
    {
        if self.results.len() == 0 {
            None
        } else {
            Some(&self.results[self.highlighted])
        }
    }
}

} // verus!
