//! The executable bootstrap: it decides, and a driver acts.
//!
//! An [`Orchestrator`] starts no process and never sleeps. It names the
//! [`Action`] that is due; the driver performs it and reports the
//! [`Outcome`]; the orchestrator moves on. The driver's loop is
//!
//! ```text
//! until action() is Finish or Abort:  perform it, then advance(outcome)
//! ```
//!
//! so that a test can drive a bootstrap with canned outcomes and record
//! every action, without a multiplexer and without waiting.

use crate::commands::ZellijCommand;
use crate::model::{ActionView, BootstrapError, Machine, OutcomeView, Settings, State, TabStep};
use crate::probe::check_session_exists;
use crate::session_config::SessionConfig;
use vstd::prelude::*;

verus! {

/// What the driver is asked to do next.
#[derive(Debug, Clone, Copy, PartialEq, Eq)]
pub enum Action<'a> {
    /// Query the sessions that exist and report what is printed.
    ListSessions,
    /// Start the multiplexer on the session, creating it, and keep the
    /// process: it is the user's interactive session.
    Launch { session_name: &'a str },
    /// Start the multiplexer with this command and wait until it ends.
    Invoke(ZellijCommand<'a>),
    /// Pause.
    Sleep { millis: u64 },
    /// Wait until the process started by `Launch` ends.
    WaitForExit,
    /// The bootstrap is over.
    Finish,
    /// The bootstrap was given up. What was started is left as it is.
    Abort(BootstrapError),
}

impl<'a> View for Action<'a> {
    type V = ActionView;

    open spec fn view(&self) -> ActionView {
        match *self {
            Action::ListSessions => ActionView::ListSessions,
            Action::Launch { session_name } => ActionView::Launch { session_name: session_name@ },
            Action::Invoke(command) => ActionView::Invoke(command@),
            Action::Sleep { millis } => ActionView::Sleep { millis },
            Action::WaitForExit => ActionView::WaitForExit,
            Action::Finish => ActionView::Finish,
            Action::Abort(error) => ActionView::Abort(error),
        }
    }
}

/// What the driver reports of the action it was asked for.
#[derive(Debug, Clone, Copy, PartialEq, Eq)]
pub enum Outcome<'a> {
    /// It was carried out.
    Completed,
    /// It could not be started, or waiting for it failed.
    Failed,
    /// The listing that the query for the sessions printed.
    Sessions(&'a str),
}

impl<'a> View for Outcome<'a> {
    type V = OutcomeView;

    open spec fn view(&self) -> OutcomeView {
        match *self {
            Outcome::Completed => OutcomeView::Completed,
            Outcome::Failed => OutcomeView::Failed,
            Outcome::Sessions(listing) => OutcomeView::Sessions(listing@),
        }
    }
}

/// One bootstrap of one session, from the check for a session of the same
/// name to the exit of the multiplexer.
pub struct Orchestrator {
    config: SessionConfig,
    settings: Settings,
    state: State,
}

impl View for Orchestrator {
    type V = Machine;

    closed spec fn view(&self) -> Machine {
        Machine { config: self.config@, settings: self.settings, state: self.state }
    }
}

impl Orchestrator {
    #[verifier::type_invariant]
    spec fn well_formed(self) -> bool {
        self@.wf()
    }

    /// A bootstrap of `config` that has not begun.
    pub fn new(config: SessionConfig, settings: Settings) -> (orchestrator: Orchestrator)
        ensures
            orchestrator@ == Machine::initial(config@, settings),
            orchestrator@.wf(),
    {
        proof {
            config.lemma_countable();
        }
        Orchestrator { config, settings, state: State::Idle }
    }

    /// The configuration that is being set up.
    pub fn config(&self) -> (config: &SessionConfig)
        ensures
            config@ == self@.config,
    {
        &self.config
    }

    /// The timing settings.
    pub fn settings(&self) -> (settings: Settings)
        ensures
            settings == self@.settings,
    {
        self.settings
    }

    /// Where the bootstrap stands.
    pub fn state(&self) -> (state: State)
        ensures
            state == self@.state,
            self@.wf(),
    {
        proof {
            use_type_invariant(self);
        }
        self.state
    }

    /// Whether the bootstrap is over, one way or the other.
    pub fn is_terminal(&self) -> (over: bool)
        ensures
            over == self@.is_terminal(),
    {
        match self.state {
            State::Exited => true,
            State::Aborted(_) => true,
            _ => false,
        }
    }

    fn step_command(&self, tab: usize, step: TabStep) -> (command: ZellijCommand<'_>)
        requires
            self@.config.step_valid(tab as int, step),
        ensures
            command@ == self@.config.step_command(tab as int, step),
    {
        assert(self@.config.tabs.len() == self.config.tabs.len());
        let session_name = self.config.session_name.as_str();
        match step {
            TabStep::Focus => ZellijCommand::GoToTab { session_name, tab_index: tab + 1 },
            TabStep::Rename => ZellijCommand::RenameTab {
                session_name,
                new_name: self.config.tabs[tab].name.as_str(),
            },
            TabStep::Before => ZellijCommand::WriteChars {
                session_name,
                chars: self.config.shell_command_before.as_str(),
            },
            TabStep::Command(k) => ZellijCommand::WriteChars {
                session_name,
                chars: self.config.tabs[tab].commands[k].as_str(),
            },
        }
    }

    /// The action that is due. It stays the same until an outcome is
    /// reported.
    pub fn action(&self) -> (action: Action<'_>)
        ensures
            action@ == self@.pending(),
    {
        proof {
            use_type_invariant(self);
        }
        let session_name = self.config.session_name.as_str();
        match self.state {
            State::Idle => Action::ListSessions,
            State::Launching => Action::Launch { session_name },
            State::WaitingForSession { pausing, .. } => if pausing {
                Action::Sleep { millis: self.settings.poll_interval_ms }
            } else {
                Action::ListSessions
            },
            State::CreatingTabs { created } => if created < self.config.tabs_to_create() {
                Action::Invoke(ZellijCommand::NewTab { session_name, tab_name: None })
            } else {
                Action::Sleep { millis: self.settings.settle_delay_ms }
            },
            State::ConfiguringTabs { tab, step, settling } => if settling {
                Action::Sleep { millis: self.settings.settle_delay_ms }
            } else {
                Action::Invoke(self.step_command(tab, step))
            },
            State::RestoringFocus => Action::Invoke(
                ZellijCommand::GoToTab { session_name, tab_index: self.config.focus_index() },
            ),
            State::Attached => Action::WaitForExit,
            State::Exited => Action::Finish,
            State::Aborted(error) => Action::Abort(error),
        }
    }

    fn listed(&self, outcome: Outcome<'_>) -> (found: bool)
        ensures
            found == self@.listed(outcome@),
    {
        match outcome {
            Outcome::Sessions(listing) => check_session_exists(
                listing,
                self.config.session_name.as_str(),
            ),
            _ => false,
        }
    }

    fn answered_by(&self, outcome: Outcome<'_>) -> (fits: bool)
        ensures
            fits == self@.answered_by(outcome@),
    {
        let query = match self.state {
            State::Idle => true,
            State::WaitingForSession { pausing, .. } => !pausing,
            _ => false,
        };
        match outcome {
            Outcome::Failed => true,
            Outcome::Sessions(_) => query,
            Outcome::Completed => !query,
        }
    }

    fn polling(&self, polls: usize) -> (state: State)
        ensures
            state == self@.polling(polls),
    {
        if polls < self.settings.max_retries {
            State::WaitingForSession { polls, pausing: false }
        } else {
            State::CreatingTabs { created: 0 }
        }
    }

    fn configuring(&self, tab: usize) -> (state: State)
        ensures
            state == self@.configuring(tab as int),
    {
        if tab < self.config.tabs.len() {
            State::ConfiguringTabs { tab, step: TabStep::Focus, settling: false }
        } else {
            State::RestoringFocus
        }
    }

    fn own_command(&self, tab: usize, k: usize) -> (step: Option<TabStep>)
        requires
            tab < self@.config.tabs.len(),
        ensures
            step == self@.config.own_command(tab as int, k as int),
    {
        if k < self.config.tabs[tab].commands.len() {
            Some(TabStep::Command(k))
        } else {
            None
        }
    }

    fn step_after(&self, tab: usize, step: TabStep) -> (next: Option<TabStep>)
        requires
            self@.config.step_valid(tab as int, step),
        ensures
            next == self@.config.step_after(tab as int, step),
    {
        assert(self@.config.tabs[tab as int].commands.len() == self.config.tabs[tab as int].commands.len());
        match step {
            TabStep::Focus => Some(TabStep::Rename),
            TabStep::Rename => if self.config.has_shell_command_before() {
                Some(TabStep::Before)
            } else {
                self.own_command(tab, 0)
            },
            TabStep::Before => self.own_command(tab, 0),
            TabStep::Command(k) => self.own_command(tab, k + 1),
        }
    }

    fn proceed(&self, outcome: Outcome<'_>) -> (state: State)
        requires
            self@.wf(),
        ensures
            state == self@.proceed(outcome@),
    {
        match self.state {
            State::Idle => if self.listed(outcome) {
                State::Aborted(BootstrapError::SessionExists)
            } else {
                State::Launching
            },
            State::Launching => self.polling(0),
            State::WaitingForSession { polls, pausing } => if pausing {
                self.polling(polls)
            } else if self.listed(outcome) {
                State::CreatingTabs { created: 0 }
            } else {
                State::WaitingForSession { polls: polls + 1, pausing: true }
            },
            State::CreatingTabs { created } => if created < self.config.tabs_to_create() {
                State::CreatingTabs { created: created + 1 }
            } else {
                self.configuring(0)
            },
            State::ConfiguringTabs { tab, step, settling } => if !settling {
                State::ConfiguringTabs { tab, step, settling: true }
            } else {
                match self.step_after(tab, step) {
                    Some(next) => State::ConfiguringTabs { tab, step: next, settling: false },
                    None => self.configuring(tab + 1),
                }
            },
            State::RestoringFocus => State::Attached,
            State::Attached => State::Exited,
            State::Exited => State::Exited,
            State::Aborted(error) => State::Aborted(error),
        }
    }

    /// Takes the outcome of the action that was due and moves on.
    pub fn advance(&mut self, outcome: Outcome<'_>)
        ensures
            final(self)@ == old(self)@.next(outcome@),
            final(self)@.wf(),
    {
        proof {
            use_type_invariant(&*self);
        }
        let state = if self.is_terminal() {
            self.state
        } else if let State::Attached = self.state {
            State::Exited
        } else if let Outcome::Failed = outcome {
            State::Aborted(BootstrapError::LaunchFailed)
        } else if !self.answered_by(outcome) {
            State::Aborted(BootstrapError::UnexpectedOutcome)
        } else {
            self.proceed(outcome)
        };
        self.state = state;
    }
}

} // verus!
