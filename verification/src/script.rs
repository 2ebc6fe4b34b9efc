//! What a bootstrap does once the session is there, written out in full.
//!
//! The state machine of the model says what comes next; this file says what
//! comes in all: the commands of a configuration in their order, and the
//! actions, pauses included, that are left to do in a state. The two are
//! proved to agree step by step.

use crate::commands::CommandView;
use crate::model::{ActionView, Machine, OutcomeView, State, TabStep};
use crate::session_config::SessionConfigView;
use vstd::prelude::*;

verus! {

impl SessionConfigView {
    /// The command that adds a tab. It names no tab: names are given later.
    pub open spec fn new_tab(self) -> CommandView {
        CommandView::NewTab { session_name: self.session_name, tab_name: None }
    }

    /// The command that moves the focus to its final place.
    pub open spec fn restore_focus(self) -> CommandView {
        CommandView::GoToTab { session_name: self.session_name, tab_index: self.focus_index() }
    }

    /// The commands that add the tabs: one for each tab but the first.
    pub open spec fn creating_commands(self) -> Seq<CommandView> {
        Seq::new(self.tabs_to_create(), |i: int| self.new_tab())
    }

    /// The commands that type the tab's own command lines.
    pub open spec fn own_commands(self, tab: int) -> Seq<CommandView> {
        Seq::new(
            self.tabs[tab].commands.len(),
            |k: int|
                CommandView::WriteChars {
                    session_name: self.session_name,
                    chars: self.tabs[tab].commands[k],
                },
        )
    }

    /// The command that types the shared command line, if one is
    /// configured.
    pub open spec fn before_commands(self) -> Seq<CommandView> {
        if self.has_shell_command_before() {
            seq![
                CommandView::WriteChars {
                    session_name: self.session_name,
                    chars: self.shell_command_before,
                },
            ]
        } else {
            Seq::empty()
        }
    }

    /// The commands that set up the tab at position `tab` (from 0): move to
    /// the multiplexer's tab `tab + 1`, name it, type the shared command
    /// line, type the tab's own.
    pub open spec fn tab_commands(self, tab: int) -> Seq<CommandView> {
        seq![
            CommandView::GoToTab { session_name: self.session_name, tab_index: (tab + 1) as nat },
            CommandView::RenameTab { session_name: self.session_name, new_name: self.tabs[tab].name },
        ] + self.before_commands() + self.own_commands(tab)
    }

    /// The commands that set up the tabs from position `from` on, tab after
    /// tab.
    pub open spec fn configuring_commands(self, from: int) -> Seq<CommandView>
        decreases self.tabs.len() - from,
    {
        if 0 <= from < self.tabs.len() {
            self.tab_commands(from) + self.configuring_commands(from + 1)
        } else {
            Seq::empty()
        }
    }

    /// Every command of a bootstrap, in the order in which they are sent.
    pub open spec fn commands(self) -> Seq<CommandView> {
        self.creating_commands() + self.configuring_commands(0) + seq![self.restore_focus()]
    }

    /// Where the commands of the tab at position `tab` begin in
    /// [`Self::commands`].
    pub open spec fn tab_offset(self, tab: int) -> int
        decreases tab,
    {
        if tab <= 0 {
            self.tabs_to_create() as int
        } else {
            self.tab_offset(tab - 1) + self.tab_commands(tab - 1).len()
        }
    }

    /// The position of a step among the commands of its tab.
    pub open spec fn step_position(self, step: TabStep) -> int {
        match step {
            TabStep::Focus => 0,
            TabStep::Rename => 1,
            TabStep::Before => 2,
            TabStep::Command(k) => 2 + self.before_commands().len() + k,
        }
    }
}

/// The commands as actions, each followed by a pause of `millis`.
pub open spec fn settled(commands: Seq<CommandView>, millis: u64) -> Seq<ActionView> {
    Seq::new(
        2 * commands.len(),
        |j: int|
            if j % 2 == 0 {
                ActionView::Invoke(commands[j / 2])
            } else {
                ActionView::Sleep { millis }
            },
    )
}

/// The commands among the actions, in their order.
pub open spec fn invocations(actions: Seq<ActionView>) -> Seq<CommandView>
    decreases actions.len(),
{
    if actions.len() == 0 {
        Seq::empty()
    } else {
        let rest = invocations(actions.drop_first());
        match actions.first() {
            ActionView::Invoke(command) => seq![command] + rest,
            _ => rest,
        }
    }
}

impl Machine {
    /// The session exists and what is left is laid down by the
    /// configuration alone.
    pub open spec fn is_scripted(self) -> bool {
        ||| self.state is CreatingTabs
        ||| self.state is ConfiguringTabs
        ||| self.state is RestoringFocus
        ||| self.state is Attached
    }

    /// The last two actions of every bootstrap.
    pub open spec fn closing(self) -> Seq<ActionView> {
        seq![ActionView::Invoke(self.config.restore_focus()), ActionView::WaitForExit]
    }

    /// The actions that set up all tabs from position `from` on and bring
    /// the bootstrap to its end.
    pub open spec fn configuring_script(self, from: int) -> Seq<ActionView> {
        settled(self.config.configuring_commands(from), self.settings.settle_delay_ms)
            + self.closing()
    }

    /// All that a bootstrap does after the wait for the session: add the
    /// tabs one right after the other, pause, set the tabs up with a pause
    /// after every command, move the focus, wait for the multiplexer's exit.
    pub open spec fn script(self) -> Seq<ActionView> {
        Seq::new(self.config.tabs_to_create(), |i: int| ActionView::Invoke(self.config.new_tab()))
            + seq![ActionView::Sleep { millis: self.settings.settle_delay_ms }]
            + self.configuring_script(0)
    }

    /// The actions that are left to do in a scripted state, if all goes
    /// well; none in any other state.
    pub open spec fn remaining(self) -> Seq<ActionView> {
        let pause = ActionView::Sleep { millis: self.settings.settle_delay_ms };
        match self.state {
            State::CreatingTabs { created } => Seq::new(
                (self.config.tabs_to_create() - created) as nat,
                |i: int| ActionView::Invoke(self.config.new_tab()),
            ) + seq![pause] + self.configuring_script(0),
            State::ConfiguringTabs { tab, step, settling } => {
                let commands = self.config.tab_commands(tab as int);
                let position = self.config.step_position(step);
                (if settling {
                    seq![pause] + settled(commands.skip(position + 1), self.settings.settle_delay_ms)
                } else {
                    settled(commands.skip(position), self.settings.settle_delay_ms)
                }) + self.configuring_script(tab + 1)
            },
            State::RestoringFocus => self.closing(),
            State::Attached => seq![ActionView::WaitForExit],
            _ => Seq::empty(),
        }
    }
}

/// Pausing after each command of two lists in a row is pausing after each
/// command of the first, then of the second.
pub proof fn lemma_settled_add(a: Seq<CommandView>, b: Seq<CommandView>, millis: u64)
    ensures
        settled(a + b, millis) == settled(a, millis) + settled(b, millis),
{
    let left = settled(a + b, millis);
    let right = settled(a, millis) + settled(b, millis);
    assert(left.len() == right.len());
    assert forall|j: int| 0 <= j < left.len() implies left[j] == right[j] by {
        if j < 2 * a.len() {
            assert(right[j] == settled(a, millis)[j]);
        } else {
            assert(right[j] == settled(b, millis)[j - 2 * a.len()]);
            assert((j - 2 * a.len()) % 2 == j % 2);
            assert((j - 2 * a.len()) / 2 == j / 2 - a.len());
        }
    }
    assert(left =~= right);
}

/// The first of the commands from position `from` on becomes an action and
/// a pause; the others follow.
pub proof fn lemma_settled_skip(commands: Seq<CommandView>, from: int, millis: u64)
    requires
        0 <= from < commands.len(),
    ensures
        settled(commands.skip(from), millis) == seq![
            ActionView::Invoke(commands[from]),
            ActionView::Sleep { millis },
        ] + settled(commands.skip(from + 1), millis),
{
    let left = settled(commands.skip(from), millis);
    let right = seq![ActionView::Invoke(commands[from]), ActionView::Sleep { millis }] + settled(
        commands.skip(from + 1),
        millis,
    );
    assert(left.len() == right.len());
    assert forall|j: int| 0 <= j < left.len() implies left[j] == right[j] by {
        if j >= 2 {
            assert(right[j] == settled(commands.skip(from + 1), millis)[j - 2]);
            assert((j - 2) % 2 == j % 2);
            assert((j - 2) / 2 == j / 2 - 1);
        }
    }
    assert(left =~= right);
}

/// A step of a tab stands at its position among the tab's commands, and the
/// step after it, if there is one, at the next.
pub proof fn lemma_step_position(config: SessionConfigView, tab: int, step: TabStep)
    requires
        config.countable(),
        config.step_valid(tab, step),
    ensures
        0 <= config.step_position(step) < config.tab_commands(tab).len(),
        config.tab_commands(tab)[config.step_position(step)] == config.step_command(tab, step),
        match config.step_after(tab, step) {
            Some(next) => config.step_valid(tab, next) && config.step_position(next)
                == config.step_position(step) + 1,
            None => config.step_position(step) + 1 == config.tab_commands(tab).len(),
        },
{
}

/// What is left in a scripted state is the pending action, then what is
/// left after it went well.
pub proof fn lemma_remaining_unfolds(m: Machine)
    requires
        m.wf(),
        m.is_scripted(),
    ensures
        m.remaining() == seq![m.pending()] + m.next(OutcomeView::Completed).remaining(),
        m.next(OutcomeView::Completed).wf(),
        m.next(OutcomeView::Completed).is_scripted() || m.next(OutcomeView::Completed).state
            is Exited,
{
    let next = m.next(OutcomeView::Completed);
    let millis = m.settings.settle_delay_ms;
    match m.state {
        State::CreatingTabs { created } => {
            if created >= m.config.tabs_to_create() {
                lemma_first_tab(m, 0);
            }
        },
        State::ConfiguringTabs { tab, step, settling } => {
            let commands = m.config.tab_commands(tab as int);
            let position = m.config.step_position(step);
            lemma_step_position(m.config, tab as int, step);
            if !settling {
                lemma_settled_skip(commands, position, millis);
            } else {
                if m.config.step_after(tab as int, step) is None {
                    assert(settled(commands.skip(position + 1), millis) =~= Seq::empty());
                    lemma_first_tab(m, tab + 1);
                }
            }
        },
        _ => {},
    }
    assert(m.remaining() =~= seq![m.pending()] + next.remaining());
}

/// Setting up the tabs from position `tab` on is what is left when the
/// first step of that tab is due, or, with no such tab, when the focus is.
proof fn lemma_first_tab(m: Machine, tab: int)
    requires
        m.config.countable(),
        0 <= tab <= m.config.tabs.len(),
    ensures
        m.configuring_script(tab) == (Machine { state: m.configuring(tab), ..m }).remaining(),
{
    let millis = m.settings.settle_delay_ms;
    if tab < m.config.tabs.len() {
        let commands = m.config.tab_commands(tab);
        assert(commands.skip(0) =~= commands);
        lemma_settled_add(commands, m.config.configuring_commands(tab + 1), millis);
    } else {
        assert(settled(m.config.configuring_commands(tab), millis) =~= Seq::empty());
    }
    assert(m.configuring_script(tab) =~= (Machine { state: m.configuring(tab), ..m }).remaining());
}

/// The whole script is what is left when the first tab is about to be
/// added.
pub proof fn lemma_script_is_remaining(m: Machine)
    ensures
        m.script() == (Machine { state: State::CreatingTabs { created: 0 }, ..m }).remaining(),
{
    assert(m.script() =~= (Machine { state: State::CreatingTabs { created: 0 }, ..m }).remaining());
}

/// The commands among two lists of actions in a row are those of the first,
/// then those of the second.
pub proof fn lemma_invocations_add(a: Seq<ActionView>, b: Seq<ActionView>)
    ensures
        invocations(a + b) == invocations(a) + invocations(b),
    decreases a.len(),
{
    if a.len() == 0 {
        assert(a + b =~= b);
        assert(invocations(a) + invocations(b) =~= invocations(b));
    } else {
        assert((a + b).drop_first() =~= a.drop_first() + b);
        lemma_invocations_add(a.drop_first(), b);
        assert(invocations(a + b) =~= invocations(a) + invocations(b));
    }
}

/// Pauses put in between leave the commands as they were.
pub proof fn lemma_invocations_settled(commands: Seq<CommandView>, millis: u64)
    ensures
        invocations(settled(commands, millis)) == commands,
    decreases commands.len(),
{
    let actions = settled(commands, millis);
    if commands.len() == 0 {
        assert(invocations(actions) =~= commands);
    } else {
        let rest = settled(commands.skip(1), millis);
        assert(commands.skip(0) =~= commands);
        lemma_settled_skip(commands, 0, millis);
        lemma_invocations_settled(commands.skip(1), millis);
        assert(actions.drop_first() =~= seq![ActionView::Sleep { millis }] + rest);
        assert(actions.drop_first().drop_first() =~= rest);
        assert(invocations(actions.drop_first()) == invocations(rest));
        assert(invocations(actions) =~= seq![commands[0]] + commands.skip(1));
        assert(seq![commands[0]] + commands.skip(1) =~= commands);
    }
}

/// A row of one command over and over is that many times the command.
pub proof fn lemma_invocations_repeated(command: CommandView, count: nat)
    ensures
        invocations(Seq::new(count, |i: int| ActionView::Invoke(command))) == Seq::new(
            count,
            |i: int| command,
        ),
    decreases count,
{
    let actions = Seq::new(count, |i: int| ActionView::Invoke(command));
    if count == 0 {
        assert(invocations(actions) =~= Seq::new(count, |i: int| command));
    } else {
        let fewer = (count - 1) as nat;
        lemma_invocations_repeated(command, fewer);
        assert(actions.drop_first() =~= Seq::new(fewer, |i: int| ActionView::Invoke(command)));
        assert(invocations(actions) =~= Seq::new(count, |i: int| command));
    }
}

/// The commands in the script are the commands of the configuration.
pub proof fn lemma_script_commands(m: Machine)
    ensures
        invocations(m.script()) == m.config.commands(),
{
    let millis = m.settings.settle_delay_ms;
    let creation = Seq::new(
        m.config.tabs_to_create(),
        |i: int| ActionView::Invoke(m.config.new_tab()),
    );
    let pause = seq![ActionView::Sleep { millis }];
    let setup = settled(m.config.configuring_commands(0), millis);
    lemma_invocations_repeated(m.config.new_tab(), m.config.tabs_to_create());
    lemma_invocations_settled(m.config.configuring_commands(0), millis);
    lemma_invocations_add(setup, m.closing());
    lemma_invocations_add(creation + pause, setup + m.closing());
    lemma_invocations_add(creation, pause);
    assert(invocations(pause) =~= Seq::empty()) by {
        assert(invocations(pause.drop_first()) =~= Seq::empty());
    }
    assert(invocations(m.closing()) =~= seq![m.config.restore_focus()]) by {
        let tail = m.closing().drop_first();
        assert(invocations(tail.drop_first()) =~= Seq::empty());
        assert(invocations(tail) =~= Seq::empty());
    }
    assert(m.script() =~= (creation + pause) + (setup + m.closing()));
    assert(invocations(m.script()) =~= m.config.commands());
}

} // verus!
