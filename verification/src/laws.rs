//! What holds of every bootstrap, proved of the model that the orchestrator
//! follows.
//!
//! A run is a machine together with the outcomes that a driver reports, in
//! their order. A run is complete when it ends in [`State::Exited`].

use crate::commands::CommandView;
use crate::model::{ActionView, BootstrapError, Machine, OutcomeView, State};
use crate::probe::occurs_in;
use crate::script::{
    invocations, lemma_remaining_unfolds, lemma_script_commands, lemma_script_is_remaining,
};
use crate::session_config::{focus_index, SessionConfigView, TabConfigView};
use vstd::prelude::*;

verus! {

/// Picks the commands that add a tab.
pub open spec fn is_new_tab() -> spec_fn(CommandView) -> bool {
    |command: CommandView| command is NewTab
}

/// Picks the queries for the session listing.
pub open spec fn is_query() -> spec_fn(ActionView) -> bool {
    |action: ActionView| action is ListSessions
}

/// Once a bootstrap was given up, it stays given up and nothing is done.
pub proof fn lemma_aborted_stays(m: Machine, outcomes: Seq<OutcomeView>)
    requires
        m.is_terminal(),
    ensures
        m.run(outcomes) == m,
        m.trace(outcomes) == Seq::<ActionView>::empty(),
{
}

/// From a state in which the session is there, a run that is complete
/// performs the actions that were left in that state, all of them and in
/// their order, and no other.
pub proof fn lemma_scripted_run(m: Machine, outcomes: Seq<OutcomeView>)
    requires
        m.wf(),
        m.is_scripted() || m.state is Exited,
        m.run(outcomes).state is Exited,
    ensures
        m.trace(outcomes) == m.remaining(),
    decreases outcomes.len(),
{
    if m.state is Exited {
    } else {
        let next = m.next(outcomes.first());
        let rest = outcomes.drop_first();
        lemma_remaining_unfolds(m);
        if next.state is Aborted {
            lemma_aborted_stays(next, rest);
        } else {
            assert(next == m.next(OutcomeView::Completed));
            lemma_scripted_run(next, rest);
        }
    }
}

/// A complete run does three things and no other: it looks for the session
/// and starts it, which sends no command; it carries out the script, pauses
/// included; and so it sends the commands of the configuration, all of them
/// and in their order.
pub proof fn lemma_complete_run(m: Machine, outcomes: Seq<OutcomeView>)
    requires
        m.wf(),
        m.state is Idle || m.state is Launching || m.state is WaitingForSession,
        m.run(outcomes).state is Exited,
    ensures
        ({
            let trace = m.trace(outcomes);
            let prelude = trace.len() - m.script().len();
            &&& prelude >= 0
            &&& trace.skip(prelude) == m.script()
            &&& forall|i: int| 0 <= i < prelude ==> !(#[trigger] trace[i] is Invoke)
            &&& invocations(trace) == m.config.commands()
        }),
    decreases outcomes.len(),
{
    let trace = m.trace(outcomes);
    let next = m.next(outcomes.first());
    let rest = outcomes.drop_first();
    let later = next.trace(rest);
    assert(trace == seq![m.pending()] + later);
    assert(trace.drop_first() =~= later);
    if next.state is Aborted {
        lemma_aborted_stays(next, rest);
    } else if next.is_scripted() {
        assert(next == Machine { state: State::CreatingTabs { created: 0 }, ..m });
        lemma_scripted_run(next, rest);
        lemma_script_is_remaining(m);
        lemma_script_commands(m);
        assert(trace.skip(1) =~= m.script());
    } else {
        lemma_complete_run(next, rest);
        let prelude = later.len() - m.script().len();
        assert(trace.skip(prelude + 1) =~= later.skip(prelude));
        assert forall|i: int| 0 <= i < prelude + 1 implies !(#[trigger] trace[i] is Invoke) by {
            if i > 0 {
                assert(trace[i] == later[i - 1]);
            }
        }
    }
}

/// A filter keeps a sequence whole if it takes every element.
proof fn lemma_filter_all<A>(s: Seq<A>, pred: spec_fn(A) -> bool)
    requires
        forall|i: int| 0 <= i < s.len() ==> pred(#[trigger] s[i]),
    ensures
        s.filter(pred) == s,
    decreases s.len(),
{
    reveal(Seq::filter);
    if s.len() > 0 {
        lemma_filter_all(s.drop_last(), pred);
        assert(s.drop_last().push(s.last()) =~= s);
    }
}

/// A filter leaves nothing if it takes no element.
proof fn lemma_filter_none<A>(s: Seq<A>, pred: spec_fn(A) -> bool)
    requires
        forall|i: int| 0 <= i < s.len() ==> !pred(#[trigger] s[i]),
    ensures
        s.filter(pred) == Seq::<A>::empty(),
    decreases s.len(),
{
    reveal(Seq::filter);
    if s.len() > 0 {
        lemma_filter_none(s.drop_last(), pred);
    }
}

/// The setup of the tabs from position `from` on adds no tab.
proof fn lemma_configuring_adds_no_tab(config: SessionConfigView, from: int)
    ensures
        forall|i: int|
            0 <= i < config.configuring_commands(from).len() ==> !(
            #[trigger] config.configuring_commands(from)[i] is NewTab),
    decreases config.tabs.len() - from,
{
    if 0 <= from < config.tabs.len() {
        lemma_configuring_adds_no_tab(config, from + 1);
    }
}

/// Among the commands of a configuration of N tabs, those that add a tab are
/// the first N - 1 (none if there is no tab at all), and their number is
/// that: the multiplexer supplies the first tab itself.
pub proof fn lemma_new_tab_commands(config: SessionConfigView)
    ensures
        config.tabs_to_create() < config.commands().len(),
        forall|i: int|
            0 <= i < config.commands().len() ==> (#[trigger] config.commands()[i] is NewTab <==> i
                < config.tabs_to_create()),
        forall|i: int|
            0 <= i < config.tabs_to_create() ==> #[trigger] config.commands()[i]
                == config.new_tab(),
        config.commands().filter(is_new_tab()).len() == config.tabs_to_create(),
        config.tabs.len() >= 1 ==> config.commands().filter(is_new_tab()).len()
            == config.tabs.len() - 1,
{
    let creating = config.creating_commands();
    let others = config.configuring_commands(0) + seq![config.restore_focus()];
    lemma_configuring_adds_no_tab(config, 0);
    assert(config.commands() =~= creating + others);
    lemma_filter_all(creating, is_new_tab());
    lemma_filter_none(others, is_new_tab());
    Seq::filter_distributes_over_add(creating, others, is_new_tab());
    assert(creating + Seq::<CommandView>::empty() =~= creating);
}

/// A complete run sends one command less that adds a tab than tabs are
/// configured, and none if no tab is configured.
pub proof fn lemma_new_tabs_of_complete_run(m: Machine, outcomes: Seq<OutcomeView>)
    requires
        m.wf(),
        m.state is Idle,
        m.run(outcomes).state is Exited,
    ensures
        invocations(m.trace(outcomes)).filter(is_new_tab()).len() == m.config.tabs_to_create(),
        m.config.tabs.len() >= 1 ==> invocations(m.trace(outcomes)).filter(is_new_tab()).len()
            == m.config.tabs.len() - 1,
{
    lemma_complete_run(m, outcomes);
    lemma_new_tab_commands(m.config);
}

impl Machine {
    /// How many tabs are still to be added.
    pub open spec fn tabs_left(self) -> nat {
        match self.state {
            State::Idle => self.config.tabs_to_create(),
            State::Launching => self.config.tabs_to_create(),
            State::WaitingForSession { .. } => self.config.tabs_to_create(),
            State::CreatingTabs { created } => if created <= self.config.tabs_to_create() {
                (self.config.tabs_to_create() - created) as nat
            } else {
                0
            },
            _ => 0,
        }
    }
}

/// No run, complete or not, adds more tabs than are still to be added: at
/// most one less than are configured, counted from the outset.
pub proof fn lemma_new_tabs_bounded(m: Machine, outcomes: Seq<OutcomeView>)
    requires
        m.wf(),
    ensures
        invocations(m.trace(outcomes)).filter(is_new_tab()).len() <= m.tabs_left(),
    decreases outcomes.len(),
{
    reveal(Seq::filter);
    if outcomes.len() == 0 || m.is_terminal() {
    } else {
        let next = m.next(outcomes.first());
        let later = next.trace(outcomes.drop_first());
        lemma_new_tabs_bounded(next, outcomes.drop_first());
        assert(m.trace(outcomes).drop_first() =~= later);
        if let ActionView::Invoke(command) = m.pending() {
            invocations(later).lemma_filter_prepend(command, is_new_tab());
        }
    }
}

/// Among the commands that set up the tabs from position `from` on, those
/// of the tab at position `tab` stand where the offsets say.
proof fn lemma_tab_block(config: SessionConfigView, from: int, tab: int)
    requires
        0 <= from <= tab < config.tabs.len(),
    ensures
        ({
            let start = config.tab_offset(tab) - config.tab_offset(from);
            let block = config.tab_commands(tab);
            &&& 0 <= start
            &&& start + block.len() <= config.configuring_commands(from).len()
            &&& config.configuring_commands(from).subrange(start, start + block.len()) == block
        }),
    decreases tab - from,
{
    let block = config.tab_commands(tab);
    let all = config.configuring_commands(from);
    if from == tab {
        assert(all.subrange(0, block.len() as int) =~= block);
    } else {
        lemma_tab_block(config, from + 1, tab);
        let skipped = config.tab_commands(from);
        let start = config.tab_offset(tab) - config.tab_offset(from + 1);
        assert(config.tab_offset(from + 1) == config.tab_offset(from) + skipped.len());
        assert(all.subrange(skipped.len() + start, skipped.len() + start + block.len())
            =~= config.configuring_commands(from + 1).subrange(start, start + block.len()));
    }
}

/// Tab addressing is stable. Among the commands of a configuration, those
/// for the tab at position `tab` (from 0) stand together: first the move to
/// the multiplexer's tab `tab + 1`, then the tab's name, then only text to
/// type. So a name and a command line reach the tab they were configured
/// for, however many tabs there are.
pub proof fn lemma_tab_addressing(config: SessionConfigView, tab: int)
    requires
        0 <= tab < config.tabs.len(),
    ensures
        ({
            let at = config.tab_offset(tab);
            let block = config.tab_commands(tab);
            &&& config.tabs_to_create() <= at
            &&& at + block.len() < config.commands().len()
            &&& config.commands().subrange(at, at + block.len()) == block
            &&& config.commands()[at] == CommandView::GoToTab {
                session_name: config.session_name,
                tab_index: (tab + 1) as nat,
            }
            &&& config.commands()[at + 1] == CommandView::RenameTab {
                session_name: config.session_name,
                new_name: config.tabs[tab].name,
            }
            &&& forall|j: int|
                at + 2 <= j < at + block.len() ==> #[trigger] config.commands()[j] is WriteChars
        }),
{
    let at = config.tab_offset(tab);
    let block = config.tab_commands(tab);
    let setup = config.configuring_commands(0);
    lemma_tab_block(config, 0, tab);
    let start = at - config.tab_offset(0);
    assert(config.commands().subrange(at, at + block.len()) =~= setup.subrange(
        start,
        start + block.len(),
    ));
    assert(config.commands()[at] == block[0]);
    assert(config.commands()[at + 1] == block[1]);
    assert forall|j: int| at + 2 <= j < at + block.len() implies #[trigger] config.commands()[j]
        is WriteChars by {
        assert(config.commands()[j] == block[j - at]);
    }
}

/// In a complete run the commands for the tab at position `tab` are sent
/// where [`lemma_tab_addressing`] finds them: the move to tab `tab + 1`,
/// the tab's name right after it.
pub proof fn lemma_tab_addressing_of_complete_run(
    m: Machine,
    outcomes: Seq<OutcomeView>,
    tab: int,
)
    requires
        m.wf(),
        m.state is Idle,
        m.run(outcomes).state is Exited,
        0 <= tab < m.config.tabs.len(),
    ensures
        ({
            let sent = invocations(m.trace(outcomes));
            let at = m.config.tab_offset(tab);
            &&& 0 <= at
            &&& at + 1 < sent.len()
            &&& sent[at] == CommandView::GoToTab {
                session_name: m.config.session_name,
                tab_index: (tab + 1) as nat,
            }
            &&& sent[at + 1] == CommandView::RenameTab {
                session_name: m.config.session_name,
                new_name: m.config.tabs[tab].name,
            }
        }),
{
    lemma_complete_run(m, outcomes);
    lemma_tab_addressing(m.config, tab);
}

/// Where no tab is marked for focus, the first tab gets it.
pub proof fn lemma_focus_index_none(tabs: Seq<TabConfigView>)
    requires
        forall|i: int| 0 <= i < tabs.len() ==> !(#[trigger] tabs[i]).focus,
    ensures
        focus_index(tabs) == 1,
    decreases tabs.len(),
{
    if tabs.len() > 0 {
        lemma_focus_index_none(tabs.drop_last());
    }
}

/// Where the tab at position `last` (from 0) is marked for focus and none
/// after it is, the focus goes to the multiplexer's tab `last + 1`: the
/// one marked tab if there is just one, the last of them if there are more.
pub proof fn lemma_focus_index_last(tabs: Seq<TabConfigView>, last: int)
    requires
        0 <= last < tabs.len(),
        tabs[last].focus,
        forall|j: int| last < j < tabs.len() ==> !(#[trigger] tabs[j]).focus,
    ensures
        focus_index(tabs) == last + 1,
    decreases tabs.len(),
{
    if last + 1 < tabs.len() {
        lemma_focus_index_last(tabs.drop_last(), last);
    }
}

/// The last command of a configuration moves the focus to the tab that
/// [`focus_index`] names, and that index is a tab's own, or 1.
pub proof fn lemma_focus_command(config: SessionConfigView)
    ensures
        config.commands().last() == (CommandView::GoToTab {
            session_name: config.session_name,
            tab_index: config.focus_index(),
        }),
        1 <= config.focus_index(),
        config.focus_index() <= config.tabs.len() || config.focus_index() == 1,
{
    lemma_focus_index_bounds(config.tabs);
}

proof fn lemma_focus_index_bounds(tabs: Seq<TabConfigView>)
    ensures
        1 <= focus_index(tabs),
        focus_index(tabs) <= tabs.len() || focus_index(tabs) == 1,
    decreases tabs.len(),
{
    if tabs.len() > 0 {
        lemma_focus_index_bounds(tabs.drop_last());
    }
}

/// The last command that a complete run sends moves the focus: to the last
/// tab marked for it, and to the first tab where none is marked.
pub proof fn lemma_focus_of_complete_run(m: Machine, outcomes: Seq<OutcomeView>)
    requires
        m.wf(),
        m.state is Idle,
        m.run(outcomes).state is Exited,
    ensures
        invocations(m.trace(outcomes)).len() > 0,
        invocations(m.trace(outcomes)).last() == (CommandView::GoToTab {
            session_name: m.config.session_name,
            tab_index: focus_index(m.config.tabs),
        }),
        (forall|i: int| 0 <= i < m.config.tabs.len() ==> !(#[trigger] m.config.tabs[i]).focus)
            ==> focus_index(m.config.tabs) == 1,
        forall|last: int|
            0 <= last < m.config.tabs.len() && (#[trigger] m.config.tabs[last]).focus && (forall|
                j: int,
            |
                last < j < m.config.tabs.len() ==> !(#[trigger] m.config.tabs[j]).focus)
                ==> focus_index(m.config.tabs) == last + 1,
{
    lemma_complete_run(m, outcomes);
    lemma_focus_command(m.config);
    if forall|i: int| 0 <= i < m.config.tabs.len() ==> !(#[trigger] m.config.tabs[i]).focus {
        lemma_focus_index_none(m.config.tabs);
    }
    assert forall|last: int|
        0 <= last < m.config.tabs.len() && (#[trigger] m.config.tabs[last]).focus && (forall|
            j: int,
        |
            last < j < m.config.tabs.len() ==> !(#[trigger] m.config.tabs[j]).focus) implies focus_index(
        m.config.tabs,
    ) == last + 1 by {
        lemma_focus_index_last(m.config.tabs, last);
    }
}

/// A session of the configured name that is listed at the outset ends the
/// bootstrap there: the query is all that was done, the multiplexer is
/// never started and no command is ever sent.
pub proof fn lemma_collision_aborts(m: Machine, outcomes: Seq<OutcomeView>, listing: Seq<char>)
    requires
        m.state is Idle,
        outcomes.len() >= 1,
        outcomes[0] == OutcomeView::Sessions(listing),
        occurs_in(m.config.session_name, listing),
    ensures
        m.run(outcomes).state == State::Aborted(BootstrapError::SessionExists),
        m.trace(outcomes) == seq![ActionView::ListSessions],
{
    let next = m.next(outcomes.first());
    lemma_aborted_stays(next, outcomes.drop_first());
    assert(m.trace(outcomes) =~= seq![ActionView::ListSessions]);
}

impl Machine {
    /// How many queries for the session listing can still be made, at most:
    /// one at the outset, and then as many as the budget allows.
    pub open spec fn queries_left(self) -> nat {
        match self.state {
            State::Idle => 1 + self.settings.max_retries as nat,
            State::Launching => self.settings.max_retries as nat,
            State::WaitingForSession { polls, .. } => if polls <= self.settings.max_retries {
                (self.settings.max_retries - polls) as nat
            } else {
                0
            },
            _ => 0,
        }
    }

    /// How many actions are still performed, at most.
    pub open spec fn steps_left(self) -> nat {
        let budget = self.settings.max_retries as nat;
        match self.state {
            State::Idle => 2 + 2 * budget + self.script().len(),
            State::Launching => 1 + 2 * budget + self.script().len(),
            State::WaitingForSession { polls, pausing } => if polls <= budget {
                (2 * (budget - polls) + (if pausing {
                    1int
                } else {
                    0int
                })) as nat + self.script().len()
            } else {
                0
            },
            _ => self.remaining().len(),
        }
    }
}

/// The session listing is queried once to see that the name is free and
/// then, while waiting for the new session, at most as often as the budget
/// says, whether the session ever shows up or not.
pub proof fn lemma_query_budget(m: Machine, outcomes: Seq<OutcomeView>)
    requires
        m.wf(),
    ensures
        m.trace(outcomes).filter(is_query()).len() <= m.queries_left(),
        m.state is Idle ==> m.trace(outcomes).filter(is_query()).len() <= 1
            + m.settings.max_retries,
        m.state is Launching ==> m.trace(outcomes).filter(is_query()).len()
            <= m.settings.max_retries,
    decreases outcomes.len(),
{
    reveal(Seq::filter);
    if outcomes.len() == 0 || m.is_terminal() {
    } else {
        let next = m.next(outcomes.first());
        let later = next.trace(outcomes.drop_first());
        lemma_query_budget(next, outcomes.drop_first());
        later.lemma_filter_prepend(m.pending(), is_query());
    }
}

/// If the session never shows up, the wait ends all the same: once the
/// budget of queries is used up, each followed by its pause, the bootstrap
/// goes on to add the tabs.
pub proof fn lemma_wait_gives_up(m: Machine, outcomes: Seq<OutcomeView>)
    requires
        m.wf(),
        m.state matches State::WaitingForSession { polls, pausing } && !pausing && outcomes.len()
            == 2 * (m.settings.max_retries - polls),
        forall|i: int|
            0 <= i < outcomes.len() ==> if i % 2 == 0 {
                #[trigger] outcomes[i] is Sessions && !m.listed(outcomes[i])
            } else {
                outcomes[i] == OutcomeView::Completed
            },
    ensures
        m.run(outcomes).state == (State::CreatingTabs { created: 0 }),
        m.trace(outcomes).filter(is_query()).len() == m.queries_left(),
    decreases outcomes.len(),
{
    reveal(Seq::filter);
    let paused = m.next(outcomes[0]);
    let after = outcomes.drop_first();
    let next = paused.next(after[0]);
    let rest = after.drop_first();
    assert(outcomes[0] is Sessions && !m.listed(outcomes[0]));
    assert(after[0] == outcomes[1]);
    assert(outcomes[1] == OutcomeView::Completed);
    assert(paused.state is WaitingForSession);
    let later = next.trace(rest);
    assert(m.run(outcomes) == paused.run(after));
    assert(paused.run(after) == next.run(rest));
    assert(m.trace(outcomes) == seq![m.pending()] + paused.trace(after));
    assert(paused.trace(after) == seq![paused.pending()] + later);
    if next.state is WaitingForSession {
        assert forall|i: int| 0 <= i < rest.len() implies if i % 2 == 0 {
            #[trigger] rest[i] is Sessions && !next.listed(rest[i])
        } else {
            rest[i] == OutcomeView::Completed
        } by {
            assert(rest[i] == outcomes[i + 2]);
            assert((i + 2) % 2 == i % 2);
        }
        lemma_wait_gives_up(next, rest);
    } else {
        assert(rest.len() == 0);
    }
    later.lemma_filter_prepend(paused.pending(), is_query());
    (seq![paused.pending()] + later).lemma_filter_prepend(m.pending(), is_query());
}

/// Every bootstrap comes to an end: the driver performs no more actions
/// than [`Machine::steps_left`] says, and once it has reported that many
/// outcomes the bootstrap is over.
pub proof fn lemma_run_ends(m: Machine, outcomes: Seq<OutcomeView>)
    requires
        m.wf(),
    ensures
        m.trace(outcomes).len() <= m.steps_left(),
        outcomes.len() >= m.steps_left() ==> m.run(outcomes).is_terminal(),
    decreases outcomes.len(),
{
    if m.is_terminal() {
    } else {
        lemma_script_is_remaining(m);
        if m.is_scripted() {
            lemma_remaining_unfolds(m);
        }
        if outcomes.len() > 0 {
            let next = m.next(outcomes.first());
            lemma_run_ends(next, outcomes.drop_first());
        }
    }
}

} // verus!
