//! The bootstrap of a session as a state machine over mathematical values.
//!
//! A [`Machine`] is a configuration, the timing settings and a [`State`]. In
//! every state one action is pending; the outcome reported for it decides
//! the next state. Nothing here runs: the executable orchestrator is proved
//! to follow this model step by step.

use crate::commands::CommandView;
use crate::probe::occurs_in;
use crate::session_config::SessionConfigView;
use vstd::prelude::*;

verus! {

/// How often to look for the new session, and how long to pause.
#[derive(Debug, Clone, Copy, PartialEq, Eq, Structural)]
pub struct Settings {
    /// How many times at most the session listing is queried while waiting
    /// for the new session to show up.
    pub max_retries: usize,
    /// Pause after a query that did not show the session, in milliseconds.
    pub poll_interval_ms: u64,
    /// Pause that lets the multiplexer settle after a command, in
    /// milliseconds.
    pub settle_delay_ms: u64,
}

impl Default for Settings {
    /// Five queries 50 ms apart, and 150 ms to settle.
    fn default() -> (settings: Settings)
        ensures
            settings == (Settings { max_retries: 5, poll_interval_ms: 50, settle_delay_ms: 150 }),
    {
        Settings { max_retries: 5, poll_interval_ms: 50, settle_delay_ms: 150 }
    }
}

/// Why a bootstrap was given up.
#[derive(Debug, Clone, Copy, PartialEq, Eq, Structural)]
pub enum BootstrapError {
    /// A session of the configured name was listed before anything was
    /// started.
    SessionExists,
    /// The multiplexer could not be started, or waiting for it failed.
    LaunchFailed,
    /// The outcome reported does not answer the action that was pending.
    UnexpectedOutcome,
}

/// The commands that set one tab up, in their order.
#[derive(Debug, Clone, Copy, PartialEq, Eq, Structural)]
pub enum TabStep {
    /// Move to the tab.
    Focus,
    /// Give it its name.
    Rename,
    /// Type the command shared by all tabs.
    Before,
    /// Type the tab's own command of that position.
    Command(usize),
}

/// Where a bootstrap stands.
#[derive(Debug, Clone, Copy, PartialEq, Eq, Structural)]
pub enum State {
    /// Nothing done yet; the check for a session of the same name is due.
    Idle,
    /// The multiplexer is about to be started.
    Launching,
    /// Looking for the new session: `polls` queries were answered so far,
    /// and after a fruitless one a pause is due.
    WaitingForSession { polls: usize, pausing: bool },
    /// `created` tabs were added so far; after the last one a pause is due.
    CreatingTabs { created: usize },
    /// Tab `tab` (from 0) is being set up; `step` is the command that is
    /// due, or, while `settling`, the one just carried out.
    ConfiguringTabs { tab: usize, step: TabStep, settling: bool },
    /// All tabs are set up; the focus is about to move to its final place.
    RestoringFocus,
    /// The workspace is ready; the multiplexer runs until the user leaves.
    Attached,
    /// The multiplexer has ended.
    Exited,
    /// The bootstrap was given up.
    Aborted(BootstrapError),
}

/// Mathematical model of an action that the driver is asked to perform.
pub enum ActionView {
    /// Query the sessions that exist and capture what is printed.
    ListSessions,
    /// Start the multiplexer on the session, and keep it running.
    Launch { session_name: Seq<char> },
    /// Start the multiplexer with this command and wait until it ends.
    Invoke(CommandView),
    /// Pause.
    Sleep { millis: u64 },
    /// Wait until the multiplexer started by `Launch` ends.
    WaitForExit,
    /// Nothing is left to do.
    Finish,
    /// Nothing more will be done, for this reason.
    Abort(BootstrapError),
}

/// Mathematical model of what the driver reports of the pending action.
pub enum OutcomeView {
    /// It was carried out.
    Completed,
    /// It could not be started, or waiting for it failed.
    Failed,
    /// The listing that a query for the sessions printed.
    Sessions(Seq<char>),
}

impl SessionConfigView {
    /// The tab exists and has such a step.
    pub open spec fn step_valid(self, tab: int, step: TabStep) -> bool {
        &&& 0 <= tab < self.tabs.len()
        &&& match step {
            TabStep::Focus => true,
            TabStep::Rename => true,
            TabStep::Before => self.has_shell_command_before(),
            TabStep::Command(k) => k < self.tabs[tab].commands.len(),
        }
    }

    /// The command that a step of a tab sends. The tab at position `tab`
    /// (from 0) is the multiplexer's tab `tab + 1`.
    pub open spec fn step_command(self, tab: int, step: TabStep) -> CommandView {
        match step {
            TabStep::Focus => CommandView::GoToTab {
                session_name: self.session_name,
                tab_index: (tab + 1) as nat,
            },
            TabStep::Rename => CommandView::RenameTab {
                session_name: self.session_name,
                new_name: self.tabs[tab].name,
            },
            TabStep::Before => CommandView::WriteChars {
                session_name: self.session_name,
                chars: self.shell_command_before,
            },
            TabStep::Command(k) => CommandView::WriteChars {
                session_name: self.session_name,
                chars: self.tabs[tab].commands[k as int],
            },
        }
    }

    /// The tab's own command of position `k`, if there is one.
    pub open spec fn own_command(self, tab: int, k: int) -> Option<TabStep> {
        if k < self.tabs[tab].commands.len() {
            Some(TabStep::Command(k as usize))
        } else {
            None
        }
    }

    /// The step that follows `step` in the same tab, if any does.
    pub open spec fn step_after(self, tab: int, step: TabStep) -> Option<TabStep> {
        match step {
            TabStep::Focus => Some(TabStep::Rename),
            TabStep::Rename => if self.has_shell_command_before() {
                Some(TabStep::Before)
            } else {
                self.own_command(tab, 0)
            },
            TabStep::Before => self.own_command(tab, 0),
            TabStep::Command(k) => self.own_command(tab, k + 1),
        }
    }
}

/// A bootstrap at one moment.
pub struct Machine {
    pub config: SessionConfigView,
    pub settings: Settings,
    pub state: State,
}

impl Machine {
    /// The machine before anything was done.
    pub open spec fn initial(config: SessionConfigView, settings: Settings) -> Machine {
        Machine { config, settings, state: State::Idle }
    }

    /// The configuration is countable, and the counters of the state lie
    /// within what it and the settings allow.
    pub open spec fn wf(self) -> bool {
        &&& self.config.countable()
        &&& match self.state {
            State::WaitingForSession { polls, pausing } => if pausing {
                1 <= polls <= self.settings.max_retries
            } else {
                polls < self.settings.max_retries
            },
            State::CreatingTabs { created } => created <= self.config.tabs_to_create(),
            State::ConfiguringTabs { tab, step, .. } => self.config.step_valid(tab as int, step),
            _ => true,
        }
    }

    /// Nothing more happens from here on.
    pub open spec fn is_terminal(self) -> bool {
        self.state is Exited || self.state is Aborted
    }

    /// The action that is due in this state.
    pub open spec fn pending(self) -> ActionView {
        match self.state {
            State::Idle => ActionView::ListSessions,
            State::Launching => ActionView::Launch { session_name: self.config.session_name },
            State::WaitingForSession { pausing, .. } => if pausing {
                ActionView::Sleep { millis: self.settings.poll_interval_ms }
            } else {
                ActionView::ListSessions
            },
            State::CreatingTabs { created } => if created < self.config.tabs_to_create() {
                ActionView::Invoke(
                    CommandView::NewTab { session_name: self.config.session_name, tab_name: None },
                )
            } else {
                ActionView::Sleep { millis: self.settings.settle_delay_ms }
            },
            State::ConfiguringTabs { tab, step, settling } => if settling {
                ActionView::Sleep { millis: self.settings.settle_delay_ms }
            } else {
                ActionView::Invoke(self.config.step_command(tab as int, step))
            },
            State::RestoringFocus => ActionView::Invoke(
                CommandView::GoToTab {
                    session_name: self.config.session_name,
                    tab_index: self.config.focus_index(),
                },
            ),
            State::Attached => ActionView::WaitForExit,
            State::Exited => ActionView::Finish,
            State::Aborted(error) => ActionView::Abort(error),
        }
    }

    /// The outcome is a listing that shows the configured session.
    pub open spec fn listed(self, outcome: OutcomeView) -> bool {
        outcome matches OutcomeView::Sessions(listing) && occurs_in(
            self.config.session_name,
            listing,
        )
    }

    /// The outcome is of the kind that the pending action gives: a listing
    /// for a query, a plain completion for everything else.
    pub open spec fn answered_by(self, outcome: OutcomeView) -> bool {
        match outcome {
            OutcomeView::Failed => true,
            OutcomeView::Sessions(_) => self.pending() is ListSessions,
            OutcomeView::Completed => !(self.pending() is ListSessions),
        }
    }

    /// Where the wait for the session goes on after `polls` queries: with
    /// another query while the budget lasts, else with the tabs.
    pub open spec fn polling(self, polls: usize) -> State {
        if polls < self.settings.max_retries {
            State::WaitingForSession { polls, pausing: false }
        } else {
            State::CreatingTabs { created: 0 }
        }
    }

    /// Where the setup goes on with tab `tab`: with its first step, or with
    /// the focus when no such tab is left.
    pub open spec fn configuring(self, tab: int) -> State {
        if tab < self.config.tabs.len() {
            State::ConfiguringTabs { tab: tab as usize, step: TabStep::Focus, settling: false }
        } else {
            State::RestoringFocus
        }
    }

    /// The state after the pending action went well.
    pub open spec fn proceed(self, outcome: OutcomeView) -> State {
        match self.state {
            State::Idle => if self.listed(outcome) {
                State::Aborted(BootstrapError::SessionExists)
            } else {
                State::Launching
            },
            State::Launching => self.polling(0),
            State::WaitingForSession { polls, pausing } => if pausing {
                self.polling(polls)
            } else if self.listed(outcome) {
                State::CreatingTabs { created: 0 }
            } else {
                State::WaitingForSession { polls: (polls + 1) as usize, pausing: true }
            },
            State::CreatingTabs { created } => if created < self.config.tabs_to_create() {
                State::CreatingTabs { created: (created + 1) as usize }
            } else {
                self.configuring(0)
            },
            State::ConfiguringTabs { tab, step, settling } => if !settling {
                State::ConfiguringTabs { tab, step, settling: true }
            } else {
                match self.config.step_after(tab as int, step) {
                    Some(next) => State::ConfiguringTabs { tab, step: next, settling: false },
                    None => self.configuring(tab + 1),
                }
            },
            State::RestoringFocus => State::Attached,
            State::Attached => State::Exited,
            State::Exited => State::Exited,
            State::Aborted(error) => State::Aborted(error),
        }
    }

    /// The state after `outcome` was reported for the pending action.
    ///
    /// A failure ends the bootstrap, and so does an outcome of the wrong
    /// kind. The one exception is the wait for the multiplexer's exit:
    /// however it ends, the user's session is over and the bootstrap with
    /// it. From the two last states nothing leads away.
    pub open spec fn next_state(self, outcome: OutcomeView) -> State {
        if self.is_terminal() {
            self.state
        } else if self.state is Attached {
            State::Exited
        } else if outcome is Failed {
            State::Aborted(BootstrapError::LaunchFailed)
        } else if !self.answered_by(outcome) {
            State::Aborted(BootstrapError::UnexpectedOutcome)
        } else {
            self.proceed(outcome)
        }
    }

    /// The machine after `outcome` was reported for the pending action.
    pub open spec fn next(self, outcome: OutcomeView) -> Machine {
        Machine { config: self.config, settings: self.settings, state: self.next_state(outcome) }
    }

    /// The machine after the driver reported these outcomes, one for each
    /// action in turn. Outcomes that come after the bootstrap is over are
    /// not looked at.
    pub open spec fn run(self, outcomes: Seq<OutcomeView>) -> Machine
        decreases outcomes.len(),
    {
        if outcomes.len() == 0 || self.is_terminal() {
            self
        } else {
            self.next(outcomes.first()).run(outcomes.drop_first())
        }
    }

    /// The actions that the driver performed on the way: those for which it
    /// reported the outcomes.
    pub open spec fn trace(self, outcomes: Seq<OutcomeView>) -> Seq<ActionView>
        decreases outcomes.len(),
    {
        if outcomes.len() == 0 || self.is_terminal() {
            Seq::empty()
        } else {
            seq![self.pending()] + self.next(outcomes.first()).trace(outcomes.drop_first())
        }
    }
}

/// A step leads from a well-formed machine to a well-formed one.
pub proof fn lemma_next_wf(m: Machine, outcome: OutcomeView)
    requires
        m.wf(),
    ensures
        m.next(outcome).wf(),
{
}

} // verus!
